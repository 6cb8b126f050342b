use vstd::prelude::*;

use crate::directory::{has_id, unique_ids};
use crate::heartbeat::duration_from_millis;
use crate::keys::{armored, PUBLIC_KEY_FOOTER_LINE, PUBLIC_KEY_HEADER_LINE};
use crate::node_data::{copy_strings, peer_views, texts, NodeData, PeerRecord, PeerView};

verus! {

/// Name of the event that asks a trusted peer for its node list.
pub const NODE_LIST_REQUEST_EVENT: &'static str = "conn:node_list_request";

/// Name of the event that carries a node list.
pub const NODE_LIST_EVENT: &'static str = "conn:node_list";

/// One node advertised in a `conn:node_list` reply.
#[derive(Clone, Debug)]
pub struct NodeListEntry {
    pub id: String,
    pub public_key: [u8; 32],
    pub addresses: Vec<String>,
}

/// The record that gossip about `e` creates: never trusted.
pub open spec fn gossiped(e: NodeListEntry) -> PeerView {
    PeerView { id: e.id@, public_key: e.public_key@, addresses: texts(e.addresses@), trusted: false }
}

pub open spec fn gossiped_all(es: Seq<NodeListEntry>) -> Seq<PeerView> {
    es.map_values(|e: NodeListEntry| gossiped(e))
}

/// `nodes` with each candidate whose id is not known yet appended, in
/// order: the first record seen for an id wins.
pub open spec fn merged(nodes: Seq<PeerView>, cands: Seq<PeerView>) -> Seq<PeerView>
    decreases cands.len(),
{
    if cands.len() == 0 {
        nodes
    } else {
        let prev = merged(nodes, cands.drop_last());
        if has_id(prev, cands.last().id) {
            prev
        } else {
            prev.push(cands.last())
        }
    }
}

/// Merging never changes or removes a record that is there: the first
/// record for an id wins. Every record the merge adds is a candidate with a
/// new id, and ids stay unique.
pub proof fn lemma_merge_first_write_wins(nodes: Seq<PeerView>, cands: Seq<PeerView>)
    requires
        unique_ids(nodes),
    ensures
        merged(nodes, cands).len() >= nodes.len(),
        merged(nodes, cands).subrange(0, nodes.len() as int) == nodes,
        unique_ids(merged(nodes, cands)),
        forall|i: int|
            nodes.len() <= i < merged(nodes, cands).len() ==> cands.contains(
                #[trigger] merged(nodes, cands)[i],
            ) && !has_id(nodes, merged(nodes, cands)[i].id),
    decreases cands.len(),
{
    if cands.len() > 0 {
        let rest = cands.drop_last();
        lemma_merge_first_write_wins(nodes, rest);
        let prev = merged(nodes, rest);
        let c = cands.last();
        assert forall|i: int| nodes.len() <= i < prev.len() implies cands.contains(#[trigger] prev[i]) by {
            let k = choose|k: int| 0 <= k < rest.len() && rest[k] == prev[i];
            assert(cands[k] == prev[i]);
        }
        if !has_id(prev, c.id) {
            let m = prev.push(c);
            assert(m.subrange(0, nodes.len() as int) =~= prev.subrange(0, nodes.len() as int));
            assert(cands.contains(c)) by {
                assert(cands[cands.len() - 1] == c);
            }
            assert forall|i: int| 0 <= i < m.len() - 1 implies m[i] == prev[i] by {}
            assert(!has_id(nodes, c.id)) by {
                if has_id(nodes, c.id) {
                    let k = choose|k: int| 0 <= k < nodes.len() && nodes[k].id == c.id;
                    assert(prev.subrange(0, nodes.len() as int)[k] == nodes[k]);
                    assert(prev[k].id == c.id);
                }
            }
        }
    } else {
        assert(nodes.subrange(0, nodes.len() as int) =~= nodes);
    }
}

/// Of two replies merged one after the other, the second changes no record
/// that the first left: where both advertise an id that was new, the record
/// the first reply made stays.
pub proof fn lemma_second_reply_keeps_first(
    nodes: Seq<PeerView>,
    first: Seq<NodeListEntry>,
    second: Seq<NodeListEntry>,
)
    requires
        unique_ids(nodes),
    ensures
        ({
            let m1 = merged(nodes, gossiped_all(first));
            let m2 = merged(m1, gossiped_all(second));
            &&& m2.len() >= m1.len()
            &&& forall|i: int| 0 <= i < m1.len() ==> #[trigger] m2[i] == m1[i]
            &&& forall|id: Seq<char>| has_id(m1, id) ==> has_id(m2, id)
        }),
{
    lemma_merge_first_write_wins(nodes, gossiped_all(first));
    let m1 = merged(nodes, gossiped_all(first));
    lemma_merge_first_write_wins(m1, gossiped_all(second));
    let m2 = merged(m1, gossiped_all(second));
    assert forall|i: int| 0 <= i < m1.len() implies #[trigger] m2[i] == m1[i] by {
        assert(m2.subrange(0, m1.len() as int)[i] == m2[i]);
    }
    assert forall|id: Seq<char>| has_id(m1, id) implies has_id(m2, id) by {
        let k = choose|k: int| 0 <= k < m1.len() && m1[k].id == id;
        assert(m2[k] == m1[k]);
    }
}

/// A record added by gossip is never trusted, whatever the trust of the
/// peer that advertised it.
pub proof fn lemma_gossip_untrusted(nodes: Seq<PeerView>, entries: Seq<NodeListEntry>)
    requires
        unique_ids(nodes),
    ensures
        forall|i: int|
            nodes.len() <= i < merged(nodes, gossiped_all(entries)).len() ==> !(
            #[trigger] merged(nodes, gossiped_all(entries))[i]).trusted,
{
    lemma_merge_first_write_wins(nodes, gossiped_all(entries));
    let m = merged(nodes, gossiped_all(entries));
    assert forall|i: int| nodes.len() <= i < m.len() implies !(#[trigger] m[i]).trusted by {
        let k = choose|k: int| 0 <= k < gossiped_all(entries).len() && gossiped_all(entries)[k] == m[i];
        assert(gossiped_all(entries)[k] == gossiped(entries[k]));
    }
}

/// The module-local mirror of the node directory that gossip merges into,
/// with the flag that asks for the descriptors to be written again.
pub struct TopologyMirror {
    nodes: Vec<PeerRecord>,
    update_required: bool,
}

/// A descriptor to persist: its file name in the descriptor directory and
/// its content.
pub struct DescriptorWrite {
    pub file_name: String,
    pub data: NodeData,
}

impl TopologyMirror {
    /// The records of the mirror, in insertion order.
    pub closed spec fn records(&self) -> Seq<PeerView> {
        peer_views(self.nodes@)
    }

    /// Whether records were added since the descriptors were last written.
    pub closed spec fn needs_update(&self) -> bool {
        self.update_required
    }

    pub open spec fn wf(&self) -> bool {
        unique_ids(self.records())
    }

    fn position(&self, id: &String) -> (r: Option<usize>)
        ensures
            match r {
                Some(i) => i < self.records().len() && self.records()[i as int].id == id@,
                None => !has_id(self.records(), id@),
            },
    {
        let mut i: usize = 0;
        while i < self.nodes.len()
            invariant
                i <= self.nodes@.len(),
                forall|j: int| 0 <= j < i ==> self.nodes@[j].id@ != id@,
            decreases self.nodes@.len() - i,
        {
            if self.nodes[i].id == *id {
                return Some(i);
            }
            i = i + 1;
        }
        None
    }

    /// Adds `record` unless its id is known; returns whether it was added.
    fn add_if_new(&mut self, record: PeerRecord) -> (r: bool)
        requires
            old(self).wf(),
        ensures
            final(self).wf(),
            final(self).needs_update() == old(self).needs_update(),
            r == !has_id(old(self).records(), record@.id),
            final(self).records() == if r {
                old(self).records().push(record@)
            } else {
                old(self).records()
            },
    {
        match self.position(&record.id) {
            Some(_) => false,
            None => {
                let ghost before = self.records();
                let ghost v = record@;
                self.nodes.push(record);
                assert(self.records() =~= before.push(v));
                true
            },
        }
    }

    /// The mirror seeded with the transport's nodes; the first record of an
    /// id wins, and nothing is pending.
    pub fn new(seed: &Vec<PeerRecord>) -> (r: Self)
        ensures
            r.wf(),
            r.records() == merged(Seq::empty(), peer_views(seed@)),
            !r.needs_update(),
    {
        let mut mirror = TopologyMirror { nodes: Vec::new(), update_required: false };
        assert(mirror.records() =~= Seq::<PeerView>::empty());
        assert(peer_views(seed@.subrange(0, 0)) =~= Seq::<PeerView>::empty());
        let mut i: usize = 0;
        while i < seed.len()
            invariant
                i <= seed@.len(),
                mirror.wf(),
                !mirror.needs_update(),
                mirror.records() == merged(Seq::empty(), peer_views(seed@.subrange(0, i as int))),
            decreases seed@.len() - i,
        {
            let rec = seed[i].copy();
            let ghost cands = peer_views(seed@.subrange(0, i + 1));
            assert(cands.drop_last() =~= peer_views(seed@.subrange(0, i as int)));
            assert(cands.last() == rec@);
            mirror.add_if_new(rec);
            i = i + 1;
        }
        assert(seed@.subrange(0, seed@.len() as int) =~= seed@);
        mirror
    }

    /// Merges a `conn:node_list` reply: each advertised node whose id is new
    /// is added, untrusted; known ids are left as they are. Returns whether a
    /// node was added, and raises the update flag if so.
    pub fn merge_node_list(&mut self, entries: &Vec<NodeListEntry>) -> (r: bool)
        requires
            old(self).wf(),
        ensures
            final(self).wf(),
            final(self).records() == merged(old(self).records(), gossiped_all(entries@)),
            r == (final(self).records().len() > old(self).records().len()),
            final(self).needs_update() == (old(self).needs_update() || r),
    {
        let ghost start = self.records();
        let mut added = false;
        let mut i: usize = 0;
        assert(gossiped_all(entries@.subrange(0, 0)) =~= Seq::<PeerView>::empty());
        while i < entries.len()
            invariant
                i <= entries@.len(),
                self.wf(),
                self.needs_update() == old(self).needs_update(),
                start == old(self).records(),
                self.records() == merged(start, gossiped_all(entries@.subrange(0, i as int))),
                self.records().len() >= start.len(),
                added == (self.records().len() > start.len()),
            decreases entries@.len() - i,
        {
            let e = &entries[i];
            let rec = PeerRecord {
                id: e.id.clone(),
                public_key: e.public_key,
                addresses: copy_strings(&e.addresses),
                trusted: false,
            };
            assert(rec@ == gossiped(entries@[i as int]));
            let ghost cands = gossiped_all(entries@.subrange(0, i + 1));
            assert(cands.drop_last() =~= gossiped_all(entries@.subrange(0, i as int)));
            assert(cands.last() == rec@);
            if self.add_if_new(rec) {
                added = true;
            }
            i = i + 1;
        }
        assert(entries@.subrange(0, entries@.len() as int) =~= entries@);
        if added {
            self.update_required = true;
        }
        added
    }

    /// Returns whether an update is pending, and clears the flag.
    pub fn take_update_required(&mut self) -> (r: bool)
        ensures
            r == old(self).needs_update(),
            !final(self).needs_update(),
            final(self).records() == old(self).records(),
    {
        let r = self.update_required;
        self.update_required = false;
        r
    }

    /// A copy of the records.
    pub fn nodes(&self) -> (r: Vec<PeerRecord>)
        ensures
            peer_views(r@) == self.records(),
    {
        let mut out: Vec<PeerRecord> = Vec::new();
        let mut i: usize = 0;
        while i < self.nodes.len()
            invariant
                i <= self.nodes@.len(),
                peer_views(out@) == peer_views(self.nodes@.subrange(0, i as int)),
            decreases self.nodes@.len() - i,
        {
            let rec = self.nodes[i].copy();
            let ghost before = out@;
            let ghost v = rec@;
            out.push(rec);
            assert(peer_views(out@) =~= peer_views(before).push(v));
            assert(peer_views(self.nodes@.subrange(0, i + 1)) =~= peer_views(
                self.nodes@.subrange(0, i as int),
            ).push(v));
            i = i + 1;
        }
        assert(self.nodes@.subrange(0, self.nodes@.len() as int) =~= self.nodes@);
        out
    }

    /// The descriptors to write for the records: `<id>.toml` with the id,
    /// addresses and armored public key of each, in order.
    pub fn write_node_data(&self) -> (r: Vec<DescriptorWrite>)
        ensures
            r@.len() == self.records().len(),
            forall|i: int|
                0 <= i < r@.len() ==> {
                    let d = #[trigger] r@[i];
                    let p = self.records()[i];
                    &&& d.file_name@ == descriptor_file_name(p.id)
                    &&& d.data.id@ == p.id
                    &&& texts(d.data.addresses@) == p.addresses
                    &&& d.data.public_key@ == armored(
                        PUBLIC_KEY_HEADER_LINE@,
                        p.public_key,
                        PUBLIC_KEY_FOOTER_LINE@,
                    )
                },
    {
        let mut out: Vec<DescriptorWrite> = Vec::new();
        let mut i: usize = 0;
        while i < self.nodes.len()
            invariant
                i <= self.nodes@.len(),
                out@.len() == i,
                forall|k: int|
                    0 <= k < i ==> {
                        let d = #[trigger] out@[k];
                        let p = self.records()[k];
                        &&& d.file_name@ == descriptor_file_name(p.id)
                        &&& d.data.id@ == p.id
                        &&& texts(d.data.addresses@) == p.addresses
                        &&& d.data.public_key@ == armored(
                            PUBLIC_KEY_HEADER_LINE@,
                            p.public_key,
                            PUBLIC_KEY_FOOTER_LINE@,
                        )
                    },
            decreases self.nodes@.len() - i,
        {
            let rec = self.nodes[i].copy();
            let file_name = descriptor_file(&rec.id);
            let data = NodeData::with_addresses(rec.id, rec.addresses, rec.public_key);
            out.push(DescriptorWrite { file_name, data });
            i = i + 1;
        }
        out
    }
}

/// The file name of the descriptor of `id`.
pub open spec fn descriptor_file_name(id: Seq<char>) -> Seq<char> {
    id + ".toml"@
}

/// The file name of the descriptor of `id`: `<id>.toml`.
pub fn descriptor_file(id: &String) -> (r: String)
    ensures
        r@ == descriptor_file_name(id@),
{
    id.clone().concat(".toml")
}

/// The ids of the trusted peers among `peers`, in order.
pub open spec fn trusted_ids(peers: Seq<PeerView>) -> Seq<Seq<char>>
    decreases peers.len(),
{
    if peers.len() == 0 {
        Seq::empty()
    } else if peers.last().trusted {
        trusted_ids(peers.drop_last()).push(peers.last().id)
    } else {
        trusted_ids(peers.drop_last())
    }
}

/// The peers a refresh round asks for their node list: the trusted ones
/// among the living peers.
pub fn refresh_targets(living: &Vec<PeerRecord>) -> (r: Vec<String>)
    ensures
        texts(r@) == trusted_ids(peer_views(living@)),
{
    let mut out: Vec<String> = Vec::new();
    let mut i: usize = 0;
    while i < living.len()
        invariant
            i <= living@.len(),
            texts(out@) == trusted_ids(peer_views(living@.subrange(0, i as int))),
        decreases living@.len() - i,
    {
        let ghost next = peer_views(living@.subrange(0, i + 1));
        assert(next.drop_last() =~= peer_views(living@.subrange(0, i as int)));
        assert(next.last() == living@[i as int]@);
        if living[i].trusted {
            let id = living[i].id.clone();
            let ghost before = out@;
            let ghost v = id@;
            out.push(id);
            assert(texts(out@) =~= texts(before).push(v));
        }
        i = i + 1;
    }
    assert(living@.subrange(0, living@.len() as int) =~= living@);
    out
}

/// Settings of the topology-refresh module.
#[derive(Clone, Debug)]
pub struct NodesRefreshSettings {
    pub update_interval_ms: u64,
}

impl Default for NodesRefreshSettings {
    fn default() -> (r: Self)
        ensures
            r.update_interval_ms == 3600000,
    {
        NodesRefreshSettings { update_interval_ms: 3600000 }
    }
}

impl NodesRefreshSettings {
    /// The refresh period.
    pub fn update_interval(&self) -> (r: core::time::Duration)
        ensures
            r == duration_from_millis(self.update_interval_ms),
    {
        core::time::Duration::from_millis(self.update_interval_ms)
    }
}

} // verus!
