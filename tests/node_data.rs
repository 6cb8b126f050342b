use snekcloud::directory::NodeDirectory;
use snekcloud::keys::{armor_private_key, armor_public_key};
use snekcloud::node_data::{local_node_data, read_node_keys, DescriptorFile, NodeData, PeerRecord};

fn key(seed: u8) -> [u8; 32] {
    [seed; 32]
}

fn descriptor(stem: &str, id: &str, k: u8) -> DescriptorFile {
    DescriptorFile {
        stem: stem.to_string(),
        data: Some(NodeData::with_addresses(
            id.to_string(),
            vec![format!("{}.example:22222", id)],
            key(k),
        )),
    }
}

fn record(id: &str, trusted: bool) -> PeerRecord {
    PeerRecord {
        id: id.to_string(),
        public_key: key(1),
        addresses: vec!["127.0.0.1:22222".to_string()],
        trusted,
    }
}

#[test]
fn node_data_key_round_trip() {
    let data = NodeData::with_addresses("peer1".to_string(), vec!["h:1".to_string()], key(9));
    assert_eq!(data.id, "peer1");
    assert_eq!(data.addresses, vec!["h:1".to_string()]);
    assert_eq!(data.public_key, armor_public_key(key(9)));
    assert_eq!(data.public_key(), key(9));
}

#[test]
fn local_descriptor_uses_derived_public_key() {
    // RFC 7748, section 6.1: Alice's key pair
    let private: [u8; 32] = [
        0x77, 0x07, 0x6d, 0x0a, 0x73, 0x18, 0xa5, 0x7d, 0x3c, 0x16, 0xc1, 0x72, 0x51, 0xb2, 0x66,
        0x45, 0xdf, 0x4c, 0x2f, 0x87, 0xeb, 0xc0, 0x99, 0x2a, 0xb1, 0x77, 0xfb, 0xa5, 0x1d, 0xb9,
        0x2c, 0x2a,
    ];
    let public: [u8; 32] = [
        0x85, 0x20, 0xf0, 0x09, 0x89, 0x30, 0xa7, 0x54, 0x74, 0x8b, 0x7d, 0xdc, 0xb4, 0x3e, 0xf7,
        0x5a, 0x0d, 0xbf, 0x3a, 0x0d, 0x26, 0x38, 0x1a, 0xf4, 0xeb, 0xa4, 0xa9, 0x8e, 0xaa, 0x9b,
        0x4e, 0x6a,
    ];
    let data = local_node_data("self".to_string(), vec!["0.0.0.0:22222".to_string()], private);
    assert_eq!(data.id, "self");
    assert_eq!(data.public_key(), public);
}

#[test]
fn directory_load_skips_local_self_and_bad() {
    let files = vec![
        descriptor("a", "a", 1),
        descriptor("b", "b", 2),
        descriptor("local", "local-node", 3),
        descriptor("self", "self", 4),
        DescriptorFile { stem: "bad".to_string(), data: None },
    ];
    let peers = read_node_keys(&files, &vec![], &"self".to_string());
    let mut ids: Vec<String> = peers.iter().map(|p| p.id.clone()).collect();
    ids.sort();
    assert_eq!(ids, vec!["a".to_string(), "b".to_string()]);
    assert!(peers.iter().all(|p| !p.trusted));
}

#[test]
fn directory_load_single_trusted_peer() {
    let files = vec![descriptor("peer1", "peer1", 5), descriptor("local", "self", 6)];
    let peers = read_node_keys(&files, &vec!["peer1".to_string()], &"self".to_string());
    assert_eq!(peers.len(), 1);
    assert_eq!(peers[0].id, "peer1");
    assert!(peers[0].trusted);
    assert_eq!(peers[0].public_key, key(5));
    assert_eq!(peers[0].addresses, vec!["peer1.example:22222".to_string()]);
}

#[test]
fn directory_load_skips_local_in_any_case() {
    let files = vec![descriptor("LOCAL", "x", 1)];
    assert!(read_node_keys(&files, &vec![], &"self".to_string()).is_empty());
}

#[test]
fn directory_load_skips_bad_key_and_invalid_id() {
    let mut bad_key = descriptor("k", "k", 1);
    if let Some(d) = bad_key.data.as_mut() {
        d.public_key = armor_private_key(key(1));
    }
    let files = vec![bad_key, descriptor("sp", "has space", 2), descriptor("ok", "ok", 3)];
    let peers = read_node_keys(&files, &vec![], &"self".to_string());
    assert_eq!(peers.len(), 1);
    assert_eq!(peers[0].id, "ok");
}

#[test]
fn directory_insert_if_absent() {
    let mut dir = NodeDirectory::new();
    assert!(dir.insert_if_absent(record("a", true)));
    assert!(!dir.insert_if_absent(record("a", false)));
    assert!(dir.insert_if_absent(record("b", false)));
    let snap = dir.snapshot();
    assert_eq!(snap.len(), 2);
    assert_eq!(snap[0].id, "a");
    assert!(snap[0].trusted);
}

#[test]
fn directory_liveness() {
    let mut dir = NodeDirectory::new();
    dir.insert_if_absent(record("a", false));
    dir.insert_if_absent(record("b", false));
    assert!(dir.check_alive(&"a".to_string()));
    assert!(!dir.check_alive(&"missing".to_string()));
    dir.set_dead(&"a".to_string(), true);
    assert!(!dir.check_alive(&"a".to_string()));
    let living = dir.living_snapshot();
    assert_eq!(living.len(), 1);
    assert_eq!(living[0].id, "b");
    assert_eq!(dir.snapshot().len(), 2);
    dir.set_dead(&"a".to_string(), false);
    assert!(dir.check_alive(&"a".to_string()));
}

fn descriptor_text(data: &NodeData) -> String {
    let mut table = toml::value::Table::new();
    table.insert("id".to_string(), toml::Value::String(data.id.clone()));
    table.insert(
        "addresses".to_string(),
        toml::Value::Array(data.addresses.iter().cloned().map(toml::Value::String).collect()),
    );
    table.insert("public_key".to_string(), toml::Value::String(data.public_key.clone()));
    toml::to_string(&toml::Value::Table(table)).unwrap()
}

fn parse_descriptor(text: &str) -> NodeData {
    let value: toml::Value = text.parse().unwrap();
    let field = |name: &str| value.get(name).and_then(|v| v.as_str()).unwrap().to_string();
    let addresses = value
        .get("addresses")
        .and_then(|v| v.as_array())
        .unwrap()
        .iter()
        .map(|a| a.as_str().unwrap().to_string())
        .collect();
    NodeData { id: field("id"), addresses, public_key: field("public_key") }
}

#[test]
fn descriptor_toml_round_trip() {
    let data = NodeData::with_addresses(
        "peer1".to_string(),
        vec!["10.0.0.1:22222".to_string(), "peer1.example:22222".to_string()],
        key(42),
    );
    let text = descriptor_text(&data);
    assert!(text.contains("id = \"peer1\""));
    let back = parse_descriptor(&text);
    assert_eq!(back.id, data.id);
    assert_eq!(back.addresses, data.addresses);
    assert_eq!(back.public_key, data.public_key);
    assert_eq!(back.public_key(), key(42));
    let files = vec![DescriptorFile { stem: "peer1".to_string(), data: Some(back) }];
    let peers = read_node_keys(&files, &vec![], &"self".to_string());
    assert_eq!(peers.len(), 1);
    assert_eq!(peers[0].public_key, key(42));
}
