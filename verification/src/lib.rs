//! Verified core of a multi-tier KV block manager.
//!
//! The crate holds the decisions that a KV-cache connector, its engine and its
//! discovery hub make: the request-slot state machine, block assignment,
//! match-span arithmetic, session bookkeeping, topology description and the
//! hub's feature registries. Everything is stated over plain values, so the
//! runtime around it only moves messages.

pub mod assignment;
pub mod common;
pub mod connector;
pub mod engine;
pub mod hub;
pub mod identity;
pub mod json;
pub mod logical;
pub mod table;
pub mod tokens;

