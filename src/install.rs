//! Installing a package: the registry slot's transitions, the cache decision,
//! and the final record.

pub mod cache;
pub mod commit;
pub mod outcome;
pub mod paths;
pub mod progress;
pub mod request;
pub mod transitions;
