//! The package archive: a header with a table of contents, then the sections.

pub mod builder;
pub mod header;
pub mod id;
pub mod integrity;
pub mod manifest;
pub mod reader;
