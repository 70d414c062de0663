//! The core of a process dashboard: a registry of pseudo-terminal sessions
//! that does no I/O itself. It decides which session an operation is about,
//! whether a reader has gone stale, and who owns the one exit event of a
//! session; its caller holds it behind a lock and performs the I/O.
//!
//! `lifecycle` is the mathematical model and the laws proved of it, `pty` the
//! manager that implements the model, `text` the decoding of process output,
//! `error` the failures and their wording, `config` the persisted profiles.

pub mod config;
pub mod error;
pub mod lifecycle;
pub mod pty;
pub mod text;
