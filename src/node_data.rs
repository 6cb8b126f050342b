use vstd::prelude::*;

use crate::keys::{
    armor_public_key, armored, extract_public_key, public_key_of, unarmored,
    x25519_public_key_of, PUBLIC_KEY_FOOTER_LINE, PUBLIC_KEY_HEADER_LINE,
};
use crate::node_id::{eq_ignore_ascii_case, str_eq_ignore_ascii_case, valid_node_id, validate_node_id};

verus! {

/// File stem of the node's own descriptor, skipped when the directory is loaded.
pub const LOCAL_DESCRIPTOR_STEM: &'static str = "local";

/// The characters of each string of `v`.
pub open spec fn texts(v: Seq<String>) -> Seq<Seq<char>> {
    v.map_values(|s: String| s@)
}

/// The on-disk descriptor of one node: its id, its addresses and its armored
/// public key.
#[derive(Clone, Debug)]
pub struct NodeData {
    pub id: String,
    pub addresses: Vec<String>,
    pub public_key: String,
}

impl NodeData {
    /// Whether the armored public key reads back to a key.
    pub open spec fn has_valid_key(&self) -> bool {
        unarmored(self.public_key@, PUBLIC_KEY_HEADER_LINE@, PUBLIC_KEY_FOOTER_LINE@) is Some
    }

    /// The key that the armored public key holds.
    pub open spec fn key(&self) -> Seq<u8> {
        unarmored(self.public_key@, PUBLIC_KEY_HEADER_LINE@, PUBLIC_KEY_FOOTER_LINE@)->Some_0
    }

    pub fn with_addresses(id: String, addresses: Vec<String>, public_key: [u8; 32]) -> (r: Self)
        ensures
            r.id == id,
            r.addresses == addresses,
            r.public_key@ == armored(PUBLIC_KEY_HEADER_LINE@, public_key@, PUBLIC_KEY_FOOTER_LINE@),
            r.has_valid_key(),
            r.key() == public_key@,
    {
        let public_key = armor_public_key(public_key);
        NodeData { id, addresses, public_key }
    }

    /// The public key of the node.
    pub fn public_key(&self) -> (r: [u8; 32])
        requires
            self.has_valid_key(),
        ensures
            r@ == self.key(),
    {
        extract_public_key(self.public_key.as_str()).unwrap()
    }
}

/// The descriptor of this node: its id and listen addresses, with the public
/// key that belongs to its private key.
pub fn local_node_data(node_id: String, listen_addresses: Vec<String>, private_key: [u8; 32]) -> (r: NodeData)
    ensures
        r.id == node_id,
        r.addresses == listen_addresses,
        r.has_valid_key(),
        r.key() == x25519_public_key_of(private_key@),
{
    let public_key = public_key_of(private_key);
    NodeData::with_addresses(node_id, listen_addresses, public_key)
}

/// A peer as the node runtime knows it.
#[derive(Clone, Debug)]
pub struct PeerRecord {
    pub id: String,
    pub public_key: [u8; 32],
    pub addresses: Vec<String>,
    pub trusted: bool,
}

/// The value of a `PeerRecord`.
pub struct PeerView {
    pub id: Seq<char>,
    pub public_key: Seq<u8>,
    pub addresses: Seq<Seq<char>>,
    pub trusted: bool,
}

impl View for PeerRecord {
    type V = PeerView;

    open spec fn view(&self) -> PeerView {
        PeerView {
            id: self.id@,
            public_key: self.public_key@,
            addresses: texts(self.addresses@),
            trusted: self.trusted,
        }
    }
}

/// Copies the strings of `v`.
pub fn copy_strings(v: &Vec<String>) -> (r: Vec<String>)
    ensures
        r@ == v@,
{
    let r = v.clone();
    proof {
        assert forall|i: int| 0 <= i < v@.len() implies r@[i] == v@[i] by {
            assert(r[i] == v[i]);
        }
        assert(r@ =~= v@);
    }
    r
}

impl PeerRecord {
    /// A copy of the record.
    pub fn copy(&self) -> (r: PeerRecord)
        ensures
            r@ == self@,
            r.id@ == self.id@,
    {
        PeerRecord {
            id: self.id.clone(),
            public_key: self.public_key,
            addresses: copy_strings(&self.addresses),
            trusted: self.trusted,
        }
    }
}

/// One `*.toml` file of the peer-descriptor directory: its file stem, and the
/// descriptor where the file parsed.
pub struct DescriptorFile {
    pub stem: String,
    pub data: Option<NodeData>,
}

/// Whether `id` is one of `ids`.
pub open spec fn listed(ids: Seq<String>, id: Seq<char>) -> bool {
    texts(ids).contains(id)
}

/// The peer that the file `f` contributes: none for the local descriptor, a
/// file that did not parse, a key that does not read back, an invalid id, or
/// this node's own id.
pub open spec fn loaded_peer(f: DescriptorFile, trusted_nodes: Seq<String>, own_id: Seq<char>) -> Option<
    PeerView,
> {
    if eq_ignore_ascii_case(f.stem@, LOCAL_DESCRIPTOR_STEM@) {
        None
    } else {
        match f.data {
            None => None,
            Some(d) => if !d.has_valid_key() || !valid_node_id(d.id@) || d.id@ == own_id {
                None
            } else {
                Some(
                    PeerView {
                        id: d.id@,
                        public_key: d.key(),
                        addresses: texts(d.addresses@),
                        trusted: listed(trusted_nodes, d.id@),
                    },
                )
            },
        }
    }
}

/// The peers that the files `fs` contribute, in file order.
pub open spec fn loaded_peers(fs: Seq<DescriptorFile>, trusted_nodes: Seq<String>, own_id: Seq<char>) -> Seq<
    PeerView,
>
    decreases fs.len(),
{
    if fs.len() == 0 {
        Seq::empty()
    } else {
        let prev = loaded_peers(fs.drop_last(), trusted_nodes, own_id);
        match loaded_peer(fs.last(), trusted_nodes, own_id) {
            Some(p) => prev.push(p),
            None => prev,
        }
    }
}

/// Every peer the directory loader returns has a valid id other than this
/// node's own, and comes from a file that is not the local descriptor and
/// that parsed; the local descriptor and unparsed files contribute nothing.
pub proof fn lemma_loaded_peers_filtered(
    fs: Seq<DescriptorFile>,
    trusted_nodes: Seq<String>,
    own_id: Seq<char>,
)
    ensures
        forall|k: int|
            0 <= k < loaded_peers(fs, trusted_nodes, own_id).len() ==> {
                let p = #[trigger] loaded_peers(fs, trusted_nodes, own_id)[k];
                &&& valid_node_id(p.id)
                &&& p.id != own_id
                &&& p.trusted == listed(trusted_nodes, p.id)
                &&& exists|i: int|
                    0 <= i < fs.len() && !eq_ignore_ascii_case(fs[i].stem@, LOCAL_DESCRIPTOR_STEM@)
                        && fs[i].data is Some && fs[i].data->Some_0.id@ == p.id
            },
        forall|i: int|
            0 <= i < fs.len() && (eq_ignore_ascii_case(fs[i].stem@, LOCAL_DESCRIPTOR_STEM@)
                || fs[i].data is None) ==> loaded_peer(#[trigger] fs[i], trusted_nodes, own_id) is None,
    decreases fs.len(),
{
    if fs.len() > 0 {
        let rest = fs.drop_last();
        lemma_loaded_peers_filtered(rest, trusted_nodes, own_id);
        let all = loaded_peers(fs, trusted_nodes, own_id);
        let prev = loaded_peers(rest, trusted_nodes, own_id);
        assert forall|k: int| 0 <= k < all.len() implies {
            let p = #[trigger] all[k];
            &&& valid_node_id(p.id)
            &&& p.id != own_id
            &&& p.trusted == listed(trusted_nodes, p.id)
            &&& exists|i: int|
                0 <= i < fs.len() && !eq_ignore_ascii_case(fs[i].stem@, LOCAL_DESCRIPTOR_STEM@)
                    && fs[i].data is Some && fs[i].data->Some_0.id@ == p.id
        } by {
            if k < prev.len() {
                assert(all[k] == prev[k]);
                let p = prev[k];
                let i = choose|i: int|
                    0 <= i < rest.len() && !eq_ignore_ascii_case(
                        rest[i].stem@,
                        LOCAL_DESCRIPTOR_STEM@,
                    ) && rest[i].data is Some && rest[i].data->Some_0.id@ == p.id;
                assert(fs[i] == rest[i]);
            } else {
                let i = fs.len() - 1;
                assert(fs[i] == fs.last());
            }
        }
    }
}

/// The views of the records of `v`.
pub open spec fn peer_views(v: Seq<PeerRecord>) -> Seq<PeerView> {
    v.map_values(|p: PeerRecord| p@)
}

/// Whether `id` is one of `ids`.
pub fn contains_id(ids: &Vec<String>, id: &String) -> (r: bool)
    ensures
        r == listed(ids@, id@),
{
    let mut i: usize = 0;
    while i < ids.len()
        invariant
            i <= ids@.len(),
            forall|j: int| 0 <= j < i ==> ids@[j]@ != id@,
        decreases ids@.len() - i,
    {
        if ids[i] == *id {
            assert(texts(ids@)[i as int] == id@);
            return true;
        }
        i = i + 1;
    }
    assert(!texts(ids@).contains(id@)) by {
        if texts(ids@).contains(id@) {
            let k = choose|k: int| 0 <= k < texts(ids@).len() && texts(ids@)[k] == id@;
            assert(ids@[k]@ == id@);
        }
    }
    false
}

/// Builds the seed peer list from the files of the descriptor directory:
/// skips the local descriptor, files that did not parse, unreadable keys,
/// invalid ids and this node's own id; a peer is trusted iff its id is one of
/// `trusted_nodes`.
pub fn read_node_keys(files: &Vec<DescriptorFile>, trusted_nodes: &Vec<String>, own_id: &String) -> (r: Vec<
    PeerRecord,
>)
    ensures
        peer_views(r@) == loaded_peers(files@, trusted_nodes@, own_id@),
{
    let mut out: Vec<PeerRecord> = Vec::new();
    let mut i: usize = 0;
    while i < files.len()
        invariant
            i <= files@.len(),
            peer_views(out@) == loaded_peers(files@.subrange(0, i as int), trusted_nodes@, own_id@),
        decreases files@.len() - i,
    {
        let ghost prefix = files@.subrange(0, i as int);
        let ghost next = files@.subrange(0, i + 1);
        assert(next.drop_last() =~= prefix);
        assert(next.last() == files@[i as int]);
        let f = &files[i];
        if !str_eq_ignore_ascii_case(f.stem.as_str(), LOCAL_DESCRIPTOR_STEM) {
            match &f.data {
                None => {},
                Some(d) => {
                    match extract_public_key(d.public_key.as_str()) {
                        Err(_) => {},
                        Ok(key) => {
                            if validate_node_id(d.id.as_str()) && !(d.id == *own_id) {
                                let rec = PeerRecord {
                                    id: d.id.clone(),
                                    public_key: key,
                                    addresses: copy_strings(&d.addresses),
                                    trusted: contains_id(trusted_nodes, &d.id),
                                };
                                let ghost before = out@;
                                let ghost v = rec@;
                                out.push(rec);
                                assert(peer_views(out@) =~= peer_views(before).push(v));
                            }
                        },
                    }
                },
            }
        }
        i = i + 1;
    }
    assert(files@.subrange(0, files@.len() as int) =~= files@);
    out
}

} // verus!
