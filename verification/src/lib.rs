//! A verified core for a command-line launcher of local AI model binaries.
//!
//! The library keeps a catalog of models, validates user-supplied switches
//! against a per-model whitelist, decides when a model artifact must be
//! fetched, builds the shell invocation string for a model, and reads and
//! writes the catalog's on-disk representation.  Everything that touches the
//! outside world (files, subprocesses, stdout) lives in the surrounding
//! binary; this crate only computes, and every function here is verified.

pub mod catalog;
pub mod codec;
pub mod command;
pub mod dispatch;
pub mod pipeline;
pub mod validate;
