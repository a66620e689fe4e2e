//! Admission-controlled verification of files against recorded md5 digests.
//!
//! The heart of the crate is [`controller::Controller`]: it admits
//! (path, expected digest) jobs one at a time, keeps the running total of
//! declared file sizes under a configured byte budget, and accounts for every
//! completed job exactly once.  [`hash`] computes digests incrementally and
//! compares them against lowercase-hex references; [`release`] parses the
//! optional release command and builds the argument vector for the hook that
//! runs after each verification; [`retry`] classifies transient I/O
//! conditions that warrant retrying instead of failing.

pub mod controller;
pub mod hash;
pub mod release;
pub mod retry;
pub mod text;
