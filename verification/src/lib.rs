//! A minimal message-board contract over a modeled ledger host.
//!
//! One entry point, `send`, authenticates a caller address and republishes
//! a message as an event on the host's event log. The host itself — which
//! principals have authorized the current transaction, and the append-only
//! event log — is modeled by [`host::Env`], an explicit environment value
//! threaded through every call.

pub mod contract;
pub mod host;
