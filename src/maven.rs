//! Maven descriptors: their document types and the views that resolve them.

pub mod xml;
pub mod pom;
pub mod metadata;
pub mod pom_view;
