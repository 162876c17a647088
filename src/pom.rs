//! The strict descriptor model.

pub mod model;
