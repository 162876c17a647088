//! Maven-compatible dependency resolution and local artifact caching.

pub mod cache;
pub mod checksum;
pub mod compile;
pub mod config;
pub mod deploader;
pub mod maven;
pub mod pom;
pub mod project;
pub mod remote;
pub mod text;
