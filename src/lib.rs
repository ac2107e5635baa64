//! Authorization, collection registry and crossing ledger of an NFT escrow bridge.
//!
//! The state of the bridge is a plain value (`state::BridgeState`) with a
//! mathematical view: the admin and operator lists, the pause flags, the
//! forward and reverse collection maps (kept inverse to each other), and the
//! per-token crossing histories. Every operation is a verified function from
//! that state and a request to the next state and a result.
pub mod codec;
pub mod contract;
pub mod error;
pub mod execute;
pub mod laws;
pub mod ledger;
pub mod mapping;
pub mod msg;
pub mod query;
pub mod state;
pub mod table;
pub mod utils;
