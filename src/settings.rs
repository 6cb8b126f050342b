use vstd::prelude::*;

use crate::error::{SnekcloudError, SnekcloudResult};
use crate::heartbeat::HeartbeatSettings;
use crate::node_id::{valid_node_id, validate_node_id};
use crate::nodes_refresh::NodesRefreshSettings;

verus! {

/// A check of settings before they are used.
pub trait ValidateSettings {
    /// Whether the settings can be used.
    spec fn valid(&self) -> bool;

    /// Accepts usable settings; rejects others with a configuration error.
    fn validate(&self) -> (r: SnekcloudResult<()>)
        ensures
            r is Ok <==> self.valid(),
            r is Err ==> r->Err_0 is ConfigError,
    ;
}

/// The node's settings. Paths are kept as text.
#[derive(Clone, Debug)]
pub struct Settings {
    pub listen_addresses: Vec<String>,
    pub node_id: String,
    pub private_key: String,
    pub node_data_dir: String,
    pub trusted_nodes: Vec<String>,
    pub send_timeout_secs: u64,
    pub redirect_timeout_secs: u64,
    pub log_folder: String,
    pub modules: ModuleSettings,
}

/// The settings of each module.
#[derive(Clone, Debug)]
pub struct ModuleSettings {
    pub heartbeat: HeartbeatSettings,
    pub nodes_refresh: NodesRefreshSettings,
}

impl Default for ModuleSettings {
    fn default() -> (r: Self)
        ensures
            r.heartbeat.output_file is None,
            r.heartbeat.interval_ms == 10000,
            r.heartbeat.max_record_history == 10,
            r.nodes_refresh.update_interval_ms == 3600000,
    {
        ModuleSettings {
            heartbeat: HeartbeatSettings::default(),
            nodes_refresh: NodesRefreshSettings::default(),
        }
    }
}

impl Settings {
    /// The default settings of a node with the id `node_id`.
    pub fn with_node_id(node_id: String) -> (r: Self)
        ensures
            r.listen_addresses@.len() == 0,
            r.node_id == node_id,
            r.private_key@ == "private_key"@,
            r.node_data_dir@ == "nodes"@,
            r.trusted_nodes@.len() == 0,
            r.send_timeout_secs == 5,
            r.redirect_timeout_secs == 20,
            r.log_folder@ == "logs"@,
            r.modules.heartbeat.output_file is None,
            r.modules.heartbeat.interval_ms == 10000,
            r.modules.heartbeat.max_record_history == 10,
            r.modules.nodes_refresh.update_interval_ms == 3600000,
    {
        Settings {
            listen_addresses: Vec::new(),
            node_id,
            private_key: String::from_str("private_key"),
            node_data_dir: String::from_str("nodes"),
            trusted_nodes: Vec::new(),
            send_timeout_secs: 5,
            redirect_timeout_secs: 20,
            log_folder: String::from_str("logs"),
            modules: ModuleSettings::default(),
        }
    }
}

impl ValidateSettings for Settings {
    /// Both timeouts are positive and the node id is valid.
    open spec fn valid(&self) -> bool {
        &&& self.send_timeout_secs > 0
        &&& self.redirect_timeout_secs > 0
        &&& valid_node_id(self.node_id@)
        &&& self.modules.valid()
    }

    fn validate(&self) -> (r: SnekcloudResult<()>) {
        if self.send_timeout_secs == 0 {
            return Err(
                SnekcloudError::ConfigError(String::from_str("Send timeout must be greater than 0")),
            );
        }
        if self.redirect_timeout_secs == 0 {
            return Err(
                SnekcloudError::ConfigError(
                    String::from_str("Redirect timeout must be greater than 0"),
                ),
            );
        }
        if !validate_node_id(self.node_id.as_str()) {
            return Err(
                SnekcloudError::ConfigError(
                    String::from_str("Invalid NodeID ").concat(self.node_id.as_str()),
                ),
            );
        }
        self.modules.validate()
    }
}

impl ValidateSettings for ModuleSettings {
    /// Module settings hold no constraint.
    open spec fn valid(&self) -> bool {
        true
    }

    fn validate(&self) -> (r: SnekcloudResult<()>) {
        Ok(())
    }
}

} // verus!
