//! A broker-to-agent context bridge: the claim/lease/ack ledger, the
//! broker drain bookkeeping and the command-line decisions, with their
//! contracts.

pub mod broker;
pub mod cli;
pub mod clock;
pub mod laws;
pub mod mcp;
pub mod store;
pub mod text;
