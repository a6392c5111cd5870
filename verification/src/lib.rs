//! Page-cache residency of regular files: which pages of a file the kernel
//! currently holds in memory, and how that residency is spread over the file.
//!
//! The crate performs no system call itself. It decides what has to be mapped,
//! probed and released, turns the kernel's per-page answer into statistics,
//! filters and aggregates them, and lays out the report; every function states
//! its result in a contract that Verus proves.

mod arith;
pub mod commands;
pub mod error;
pub mod filesystem;
pub mod mmap;
pub mod regions;
pub mod text;
