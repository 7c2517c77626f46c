//! Verified core logic of a rollup node: network identification, configuration
//! loading, gas accounting, priority-operation assembly, storage-log bookkeeping,
//! heartbeat tracking and the decision steps of the node's periodic workers.

pub mod text;

pub mod network;
pub mod types;
pub mod priority_ops;
pub mod gas_tracker;
pub mod storage;
pub mod dal;
pub mod node_check;
pub mod config;
pub mod merkle_tree;
pub mod workers;
pub mod l2_sender;
