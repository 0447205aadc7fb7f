//! Control plane for hierarchical constant-bandwidth scheduling: the
//! reservation manager, the write protocol of its command files and the
//! virtual file tree through which both are reached.
pub mod bignat;
pub mod controller;
pub mod error;
pub mod filesystem;
pub mod inode;
pub mod manager;
pub mod parser;
pub mod platform;
pub mod policy;
pub mod prelude;
pub mod reservation;
pub mod snapshot;
pub mod text;
pub mod utils;
