//! Node runtime of a peer-to-peer daemon: the node registry, key armoring,
//! peer descriptors, the heartbeat history and the topology-refresh merge.

pub mod directory;
pub mod error;
pub mod heartbeat;
pub mod keys;
pub mod node_data;
pub mod node_id;
pub mod nodes_refresh;
pub mod settings;
pub mod timestamp;
