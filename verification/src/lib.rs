//! Interactive session engine for managing a local inventory of
//! version-controlled project directories.
//!
//! The crate covers the session state machine, the command tokenizer, the
//! command router with its dispatch rules, and the repository inventory
//! scanner. All side effects (terminal, filesystem walking, network) live
//! outside: callers hand the engine plain values and receive a list of
//! gateway actions to perform.

pub mod actions;
pub mod inventory;
pub mod router;
pub mod state;
pub mod step;
pub mod tokens;
