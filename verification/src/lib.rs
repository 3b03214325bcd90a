//! An append-only, indexed record store for a deterministic, account-based
//! execution environment.
//!
//! A singleton index record tracks how many entries exist; each entry lives in
//! its own record at an address derived deterministically from a namespace tag
//! and the entry's ordinal. The modules cover address derivation ([`pda`]),
//! the fixed binary record schema ([`codec`]), the record lifecycle —
//! bootstrap, append, enumerate — over a model of the host's storage
//! ([`store`]), and opcode dispatch ([`processor`]).

pub mod codec;
pub mod error;
pub mod pda;
pub mod processor;
pub mod store;
