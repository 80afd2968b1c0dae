//! The core of a small kernel: an in-memory filesystem, the bridge that
//! carries keyboard bytes from interrupt context to a task, the
//! bookkeeping of a cooperative scheduler, the line-mode shell that drives
//! the filesystem, and the display's cursor and colors.
//!
//! Nothing here touches the hardware or holds a lock: the state is in
//! plain values that the caller owns, and what is to be done outside comes
//! back as a value. Every function is verified against the contract
//! written on it, but for the few that call into another crate; those
//! are marked, and their contracts are taken on trust.

pub mod text;
pub mod vga_buffer;
pub mod fs;
pub mod task;
