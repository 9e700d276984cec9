//! The discovery hub: its wire protocol and the registries behind it.

pub mod builder;
pub mod conditional_disagg;
pub mod dispatcher;
pub mod features;
pub mod p2p;
pub mod paths;
pub mod protocol;
