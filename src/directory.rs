use vstd::prelude::*;

use crate::node_data::{peer_views, PeerRecord, PeerView};

verus! {

/// One peer of the directory, with the liveness the transport reported.
pub struct DirectoryEntry {
    pub record: PeerRecord,
    pub dead: bool,
}

/// The registry of reachable peers: at most one record per id.
pub struct NodeDirectory {
    entries: Vec<DirectoryEntry>,
}

/// The records of the entries `es`.
pub open spec fn records_of(es: Seq<DirectoryEntry>) -> Seq<PeerView> {
    es.map_values(|e: DirectoryEntry| e.record@)
}

/// The records of the entries of `es` that are not dead, in order.
pub open spec fn living_records_of(es: Seq<DirectoryEntry>) -> Seq<PeerView>
    decreases es.len(),
{
    if es.len() == 0 {
        Seq::empty()
    } else {
        let prev = living_records_of(es.drop_last());
        if es.last().dead {
            prev
        } else {
            prev.push(es.last().record@)
        }
    }
}

/// Whether no two records of `rs` share an id.
pub open spec fn unique_ids(rs: Seq<PeerView>) -> bool {
    forall|i: int, j: int| 0 <= i < rs.len() && 0 <= j < rs.len() && rs[i].id == rs[j].id ==> i == j
}

/// Whether some record of `rs` has the id `id`.
pub open spec fn has_id(rs: Seq<PeerView>, id: Seq<char>) -> bool {
    exists|i: int| 0 <= i < rs.len() && rs[i].id == id
}

impl NodeDirectory {
    /// The entries of the directory, in insertion order.
    pub closed spec fn entries(&self) -> Seq<DirectoryEntry> {
        self.entries@
    }

    /// The records of the directory, in insertion order.
    pub open spec fn records(&self) -> Seq<PeerView> {
        records_of(self.entries())
    }

    pub open spec fn wf(&self) -> bool {
        unique_ids(self.records())
    }

    /// An empty directory.
    pub fn new() -> (r: Self)
        ensures
            r.wf(),
            r.entries().len() == 0,
    {
        NodeDirectory { entries: Vec::new() }
    }

    /// The position of the entry with the id `id`, if any.
    fn position(&self, id: &String) -> (r: Option<usize>)
        ensures
            match r {
                Some(i) => i < self.entries().len() && self.records()[i as int].id == id@,
                None => !has_id(self.records(), id@),
            },
    {
        let mut i: usize = 0;
        while i < self.entries.len()
            invariant
                i <= self.entries@.len(),
                forall|j: int| 0 <= j < i ==> self.entries@[j].record.id@ != id@,
            decreases self.entries@.len() - i,
        {
            if self.entries[i].record.id == *id {
                return Some(i);
            }
            i = i + 1;
        }
        None
    }

    /// Adds the record as a living peer unless its id is known; returns
    /// whether it was added.
    pub fn insert_if_absent(&mut self, record: PeerRecord) -> (r: bool)
        requires
            old(self).wf(),
        ensures
            final(self).wf(),
            r == !has_id(old(self).records(), record.id@),
            r ==> final(self).entries() == old(self).entries().push(
                DirectoryEntry { record, dead: false },
            ),
            !r ==> final(self).entries() == old(self).entries(),
    {
        match self.position(&record.id) {
            Some(_) => false,
            None => {
                let ghost before = self.records();
                let ghost v = record@;
                self.entries.push(DirectoryEntry { record, dead: false });
                assert(self.records() =~= before.push(v));
                true
            },
        }
    }

    /// Records what the transport reports of the liveness of `id`; an
    /// unknown id changes nothing.
    pub fn set_dead(&mut self, id: &String, dead: bool)
        requires
            old(self).wf(),
        ensures
            final(self).wf(),
            final(self).records() == old(self).records(),
            final(self).entries().len() == old(self).entries().len(),
            forall|i: int|
                0 <= i < old(self).entries().len() ==> #[trigger] final(self).entries()[i].dead == if old(
                    self,
                ).entries()[i].record.id@ == id@ {
                    dead
                } else {
                    old(self).entries()[i].dead
                },
    {
        match self.position(id) {
            None => {
                assert forall|k: int| 0 <= k < self.entries@.len() implies self.entries@[k].record.id@
                    != id@ by {
                    assert(self.records()[k].id == self.entries@[k].record.id@);
                }
            },
            Some(i) => {
                let ghost before = self.entries@;
                let entry = self.entries.remove(i);
                self.entries.insert(i, DirectoryEntry { record: entry.record, dead });
                assert(self.records() =~= records_of(before));
                assert forall|k: int| 0 <= k < before.len() implies #[trigger] self.entries@[k].dead
                    == if before[k].record.id@ == id@ {
                    dead
                } else {
                    before[k].dead
                } by {
                    if k != i && before[k].record.id@ == id@ {
                        assert(records_of(before)[k].id == records_of(before)[i as int].id);
                    }
                }
            },
        }
    }

    /// A copy of all records.
    pub fn snapshot(&self) -> (r: Vec<PeerRecord>)
        ensures
            peer_views(r@) == self.records(),
    {
        let mut out: Vec<PeerRecord> = Vec::new();
        let mut i: usize = 0;
        while i < self.entries.len()
            invariant
                i <= self.entries@.len(),
                peer_views(out@) == records_of(self.entries@.subrange(0, i as int)),
            decreases self.entries@.len() - i,
        {
            let rec = self.entries[i].record.copy();
            let ghost before = out@;
            let ghost v = rec@;
            out.push(rec);
            assert(peer_views(out@) =~= peer_views(before).push(v));
            assert(records_of(self.entries@.subrange(0, i + 1)) =~= records_of(
                self.entries@.subrange(0, i as int),
            ).push(v));
            i = i + 1;
        }
        assert(self.entries@.subrange(0, self.entries@.len() as int) =~= self.entries@);
        out
    }

    /// A copy of the records of the peers that are not dead.
    pub fn living_snapshot(&self) -> (r: Vec<PeerRecord>)
        ensures
            peer_views(r@) == living_records_of(self.entries()),
    {
        let mut out: Vec<PeerRecord> = Vec::new();
        let mut i: usize = 0;
        while i < self.entries.len()
            invariant
                i <= self.entries@.len(),
                peer_views(out@) == living_records_of(self.entries@.subrange(0, i as int)),
            decreases self.entries@.len() - i,
        {
            let ghost next = self.entries@.subrange(0, i + 1);
            assert(next.drop_last() =~= self.entries@.subrange(0, i as int));
            if !self.entries[i].dead {
                let rec = self.entries[i].record.copy();
                let ghost before = out@;
                let ghost v = rec@;
                out.push(rec);
                assert(peer_views(out@) =~= peer_views(before).push(v));
            }
            i = i + 1;
        }
        assert(self.entries@.subrange(0, self.entries@.len() as int) =~= self.entries@);
        out
    }

    /// Whether `id` is a known peer that is not dead; false if absent.
    pub fn check_alive(&self, id: &String) -> (r: bool)
        requires
            self.wf(),
        ensures
            r == exists|i: int|
                0 <= i < self.entries().len() && self.entries()[i].record.id@ == id@
                    && !self.entries()[i].dead,
    {
        match self.position(id) {
            None => {
                assert forall|k: int| 0 <= k < self.entries@.len() implies self.entries@[k].record.id@
                    != id@ by {
                    assert(self.records()[k].id == self.entries@[k].record.id@);
                }
                false
            },
            Some(i) => {
                let alive = !self.entries[i].dead;
                proof {
                    assert(self.records()[i as int].id == self.entries@[i as int].record.id@);
                    assert forall|k: int|
                        0 <= k < self.entries@.len() && self.entries@[k].record.id@ == id@ implies k
                        == i by {
                        assert(self.records()[k].id == self.records()[i as int].id);
                    }
                }
                alive
            },
        }
    }
}

} // verus!
