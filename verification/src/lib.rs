//! Shared memory between a task and the processes it starts.
//!
//! A task creates a sealed memory file, maps it, and hands out an identifier.  A process that is
//! given the identifier asks the task's broker for the file's descriptor, checks its size and maps
//! it too.  This crate holds everything that is decided along the way: the identifier's text, the
//! messages of the broker's protocol, what each side does with what the other sent, and in which
//! order the operating system is asked for what.  The system calls themselves are made by the
//! caller, which performs the step that a phase names and reports back what came of it.

pub mod address;
pub mod base64url;
pub mod broker;
pub mod client;
pub mod decimal;
pub mod error;
pub mod identifier;
pub mod options;
pub mod shm;
pub mod small_dev_shm;
pub mod stat_long_filename;
pub mod wire;
