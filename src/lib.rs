//! Scrubs a byte pattern out of the buffers that a traced process hands to
//! `write`, by rewriting the buffer in the tracee's memory before the call runs.
//!
//! - `splice`: finding a pattern in a buffer and cutting a region out of it.
//! - `words`: the word-granular encoding of remote memory.
//! - `remote`: reading and writing a stopped tracee's memory.
//! - `syscall`: the arguments of an intercepted `write`.
//! - `supervisor`: the tracer's decisions at each syscall stop.

pub mod splice;
pub mod words;
pub mod remote;
pub mod syscall;
pub mod supervisor;
