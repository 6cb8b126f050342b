use snekcloud::keys::armor_public_key;
use snekcloud::node_data::PeerRecord;
use snekcloud::nodes_refresh::{
    descriptor_file, refresh_targets, NodeListEntry, NodesRefreshSettings, TopologyMirror,
};

fn entry(id: &str, k: u8) -> NodeListEntry {
    NodeListEntry { id: id.to_string(), public_key: [k; 32], addresses: vec![format!("{}:1", id)] }
}

fn record(id: &str, trusted: bool) -> PeerRecord {
    PeerRecord { id: id.to_string(), public_key: [0; 32], addresses: vec![], trusted }
}

#[test]
fn first_reply_wins() {
    let mut mirror = TopologyMirror::new(&vec![]);
    assert!(mirror.merge_node_list(&vec![entry("c", 1)]));
    assert!(!mirror.merge_node_list(&vec![entry("c", 2)]));
    let nodes = mirror.nodes();
    assert_eq!(nodes.len(), 1);
    assert_eq!(nodes[0].public_key, [1; 32]);
}

#[test]
fn update_flag_follows_new_ids() {
    let mut mirror = TopologyMirror::new(&vec![record("a", true)]);
    assert!(!mirror.take_update_required());
    assert!(!mirror.merge_node_list(&vec![entry("a", 9)]));
    assert!(!mirror.take_update_required());
    assert!(mirror.merge_node_list(&vec![entry("a", 9), entry("b", 3)]));
    assert!(!mirror.merge_node_list(&vec![entry("b", 4)]));
    assert!(mirror.take_update_required());
    assert!(!mirror.take_update_required());
}

#[test]
fn gossiped_nodes_are_untrusted() {
    let mut mirror = TopologyMirror::new(&vec![record("a", true)]);
    mirror.merge_node_list(&vec![entry("a", 1), entry("c", 2), entry("c", 3)]);
    let nodes = mirror.nodes();
    assert_eq!(nodes.len(), 2);
    assert!(nodes[0].trusted);
    assert_eq!(nodes[1].id, "c");
    assert!(!nodes[1].trusted);
    assert_eq!(nodes[1].public_key, [2; 32]);
}

#[test]
fn seed_keeps_first_of_each_id() {
    let mirror = TopologyMirror::new(&vec![record("a", true), record("a", false)]);
    let nodes = mirror.nodes();
    assert_eq!(nodes.len(), 1);
    assert!(nodes[0].trusted);
}

#[test]
fn descriptors_to_write() {
    let mut mirror = TopologyMirror::new(&vec![]);
    mirror.merge_node_list(&vec![entry("c", 7)]);
    let writes = mirror.write_node_data();
    assert_eq!(writes.len(), 1);
    assert_eq!(writes[0].file_name, "c.toml");
    assert_eq!(writes[0].data.id, "c");
    assert_eq!(writes[0].data.addresses, vec!["c:1".to_string()]);
    assert_eq!(writes[0].data.public_key, armor_public_key([7; 32]));
    assert_eq!(descriptor_file(&"x".to_string()), "x.toml");
}

#[test]
fn only_trusted_living_peers_are_asked() {
    let living = vec![record("a", true), record("b", false), record("c", true)];
    assert_eq!(refresh_targets(&living), vec!["a".to_string(), "c".to_string()]);
    assert!(refresh_targets(&vec![]).is_empty());
}

#[test]
fn refresh_settings_defaults() {
    let s = NodesRefreshSettings::default();
    assert_eq!(s.update_interval_ms, 3_600_000);
    assert_eq!(s.update_interval().as_secs(), 3_600);
}
