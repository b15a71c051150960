//! Host side of a thread-introspection engine: the rules by which a debugger
//! resolves symbols of a live process, moves bytes in and out of it one
//! machine word at a time, and walks an attachment through its life.

pub mod lifecycle;
pub mod memory;
pub mod proc_service;
pub mod resolver;
pub mod symbols;
pub mod thread_db;

pub use thread_db::{TdErr, TdTaStats, TdThrInfo};
