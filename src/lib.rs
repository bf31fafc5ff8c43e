//! Package installation for a host that runs third-party applications as
//! managed containers: the package archive format, install progress, the
//! content cache decision and the package registry state machine.

pub mod action;
pub mod backup;
pub mod context;
pub mod db;
pub mod error;
pub mod hash;
pub mod id;
pub mod install;
pub mod logs;
pub mod parse;
pub mod s9pk;
pub mod system;
pub mod text;
pub mod volume;
pub mod wifi;
