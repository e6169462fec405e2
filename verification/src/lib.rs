//! HostPilot: the logic of a personal SSH server manager.
//!
//! The library holds what the `hp` program decides and computes: the alias
//! store, the command handlers, the rules of the `ts` transfer command with
//! its workers and retries, the terminal screens, and the messages shown to
//! the user. Sockets, files, the database and the terminal belong to the
//! program around it, which performs the actions handed out here and reports
//! back what happened.
#![allow(unused_imports)]
use vstd::prelude::*;

pub mod app;
pub mod auto_concurrency;
pub mod cli;
pub mod commands;
pub mod config;
pub mod error;
pub mod json;
pub mod number;
pub mod ops;
pub mod parse;
pub mod paths;
pub mod server;
pub mod text;
pub mod transfer;
pub mod tui;
pub mod util;

pub use error::MkdirError;
pub use error::TransferError;

verus! {

} // verus!
