//! Verified core logic of the Integritee parachain node and runtime pallets.
//!
//! The crate keeps the decisions and the bookkeeping of the node and runtime
//! components as plain values: order statistics of oracle submissions, the
//! parachain validation-code upgrade pallet, the Chainlink price feed pallet,
//! the bridge-hub router fee factor, the leaves-per-level monitor of the block
//! tree, and the small client helpers around them.
pub mod ordering;
pub mod origin;
pub mod fixed;
pub mod orml;
pub mod chainlink_feed;
pub mod parachain_upgrade;
pub mod bridge_router;
pub mod level_monitor;
pub mod freshness_monitor;
pub mod mini_node;
pub mod wait_on_relay_chain_block;
pub mod proposer;
pub mod xcm_queues;
pub mod pov_recovery;
pub mod rpc_worker;
pub mod nimbus;
pub mod collation;
pub mod block_import;
pub mod announce;
pub mod message_broker;
pub mod light_client_platform;
