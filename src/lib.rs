//! Single-height Tendermint-style consensus: a round state machine, the
//! coordinator that owns the proposal and vote tables of one height, and the
//! checks a syncing node applies to the headers it receives.

pub mod types;
pub mod state_machine;
pub mod single_height_consensus;
pub mod header_sync;
pub mod cli;
