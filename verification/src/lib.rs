//! Verified core of a git identity switcher.
//!
//! The library keeps an ordered list of named identity profiles, encodes that
//! list as a flat text document (with a proved round trip), and computes the
//! exact sequence of configuration writes and unsets that activating a profile
//! at a scope must perform, including the shadowing-safe conditional unset at
//! the local scope.  All I/O (files, the git subprocess, the terminal) lives
//! outside the library and hands in plain values.

pub mod cli;
pub mod codec;
pub mod git;
pub mod profiles;
pub mod sync;
pub mod util;
