//! The package registry: one slot per package identifier, and the packages
//! whose install failed.

pub mod dependencies;
pub mod graph;
pub mod model;
