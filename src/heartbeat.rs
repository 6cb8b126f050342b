use vstd::prelude::*;

use crate::timestamp::{format_timestamp, timestamp_text, Timestamp};

verus! {

/// Name of the event that carries a heartbeat.
pub const HEARTBEAT_BEAT_EVENT: &'static str = "heartbeat:beat";

/// Pause between two liveness checks while a peer is dead, in milliseconds.
pub const BACKOFF_STEP_MS: u64 = 10000;

/// A dead peer is probed again at the latest after this many intervals.
pub const BACKOFF_LIMIT_INTERVALS: u64 = 100;

/// Whether a peer answered its last probe.
#[derive(Clone, Copy, Debug, PartialEq, Eq, Structural)]
pub enum NodeState {
    Alive,
    Dead,
}

/// One entry of a peer's heartbeat history.
#[derive(Clone, Debug)]
pub struct NodeInfo {
    pub ping: Option<u64>,
    pub state: NodeState,
    pub timestamp: String,
}

impl NodeInfo {
    /// A reply that took `ping` milliseconds, seen at `at`.
    pub fn alive_at(ping: u64, at: &Timestamp) -> (r: Self)
        ensures
            r.ping == Some(ping),
            r.state == NodeState::Alive,
            r.timestamp@ == timestamp_text(*at),
    {
        NodeInfo { ping: Some(ping), state: NodeState::Alive, timestamp: format_timestamp(at) }
    }

    /// A missing reply, seen at `at`.
    pub fn dead_at(at: &Timestamp) -> (r: Self)
        ensures
            r.ping is None,
            r.state == NodeState::Dead,
            r.timestamp@ == timestamp_text(*at),
    {
        NodeInfo { ping: None, state: NodeState::Dead, timestamp: format_timestamp(at) }
    }

    /// Whether the entry has a ping exactly when the peer answered.
    pub open spec fn consistent(&self) -> bool {
        self.ping is None <==> self.state == NodeState::Dead
    }
}

/// The last `max` entries of `s`, or all of them where there are fewer.
pub open spec fn retained(s: Seq<NodeInfo>, max: nat) -> Seq<NodeInfo> {
    if s.len() > max {
        s.subrange(s.len() - max, s.len() as int)
    } else {
        s
    }
}

proof fn lemma_retained_consistent(s: Seq<NodeInfo>, max: nat)
    requires
        forall|j: int| 0 <= j < s.len() ==> (#[trigger] s[j]).consistent(),
    ensures
        forall|j: int|
            0 <= j < retained(s, max).len() ==> (#[trigger] retained(s, max)[j]).consistent(),
{
    if s.len() > max {
        assert forall|j: int| 0 <= j < retained(s, max).len() implies (#[trigger] retained(
            s,
            max,
        )[j]).consistent() by {
            assert(retained(s, max)[j] == s[s.len() - max + j]);
        }
    }
}

/// The history that inserting the entries `xs` one by one into `s` leaves.
pub open spec fn after_inserts(s: Seq<NodeInfo>, xs: Seq<NodeInfo>, max: nat) -> Seq<NodeInfo>
    decreases xs.len(),
{
    if xs.len() == 0 {
        s
    } else {
        after_inserts(retained(s.push(xs[0]), max), xs.drop_first(), max)
    }
}

proof fn lemma_retained_twice(a: Seq<NodeInfo>, b: Seq<NodeInfo>, max: nat)
    ensures
        retained(retained(a, max) + b, max) == retained(a + b, max),
{
    let ra = retained(a, max);
    if a.len() > max {
        let l = ra + b;
        let m = a + b;
        assert(l.len() == max + b.len());
        if b.len() == 0 {
            assert(l =~= ra);
            assert(m =~= a);
        } else {
            assert(retained(l, max) =~= retained(m, max));
        }
    } else {
        assert(ra == a);
    }
}

/// Inserting entries one at a time into a history of at most `max`
/// entries keeps the last `max` entries of everything inserted, in order.
pub proof fn lemma_eviction_window(s: Seq<NodeInfo>, xs: Seq<NodeInfo>, max: nat)
    requires
        s.len() <= max,
    ensures
        after_inserts(s, xs, max) == retained(s + xs, max),
    decreases xs.len(),
{
    if xs.len() == 0 {
        assert(s + xs =~= s);
    } else {
        let next = retained(s.push(xs[0]), max);
        lemma_eviction_window(next, xs.drop_first(), max);
        lemma_retained_twice(s.push(xs[0]), xs.drop_first(), max);
        assert(s.push(xs[0]) + xs.drop_first() =~= s + xs);
    }
}

/// After `max + k` entries are inserted into an empty history, it holds
/// exactly `max` entries: the last `max` inserted, in order.
pub proof fn lemma_eviction_keeps_last(xs: Seq<NodeInfo>, max: nat, k: nat)
    requires
        xs.len() == max + k,
    ensures
        after_inserts(Seq::empty(), xs, max).len() == max,
        after_inserts(Seq::empty(), xs, max) == xs.subrange(k as int, xs.len() as int),
{
    lemma_eviction_window(Seq::empty(), xs, max);
    assert(Seq::<NodeInfo>::empty() + xs =~= xs);
    if k == 0 {
        assert(xs.subrange(0, xs.len() as int) =~= xs);
    }
}

/// The heartbeat history of one peer.
#[derive(Clone, Debug)]
pub struct PeerHistory {
    pub id: String,
    pub records: Vec<NodeInfo>,
}

/// The heartbeat histories of all peers, each bounded to `max_records`
/// entries.
pub struct HeartbeatHistory {
    entries: Vec<PeerHistory>,
    max_records: usize,
}

/// Drops the oldest entries of `records` until at most `max` are left.
fn keep_last(records: &mut Vec<NodeInfo>, max: usize)
    ensures
        final(records)@ == retained(old(records)@, max as nat),
{
    let ghost all = records@;
    while records.len() > max
        invariant
            records@.len() <= all.len(),
            records@ == all.subrange(all.len() - records@.len(), all.len() as int),
            records@.len() < max ==> records@ == all,
        decreases records@.len(),
    {
        records.remove(0);
        assert(records@ =~= all.subrange(all.len() - records@.len(), all.len() as int));
    }
    proof {
        if all.len() > max {
            assert(records@ =~= all.subrange(all.len() - max, all.len() as int));
        } else {
            assert(all.subrange(0, all.len() as int) =~= all);
        }
    }
}

impl HeartbeatHistory {
    /// The per-peer histories, in order of first insertion.
    pub closed spec fn entries(&self) -> Seq<PeerHistory> {
        self.entries@
    }

    /// The bound on each peer's history.
    pub closed spec fn max_records(&self) -> nat {
        self.max_records as nat
    }

    pub open spec fn wf(&self) -> bool {
        &&& forall|i: int, j: int|
            0 <= i < self.entries().len() && 0 <= j < self.entries().len()
                && self.entries()[i].id@ == self.entries()[j].id@ ==> i == j
        &&& forall|i: int, j: int|
            0 <= i < self.entries().len() && 0 <= j < self.entries()[i].records@.len()
                ==> (#[trigger] self.entries()[i].records@[j]).consistent()
    }

    /// Whether `id` has a history.
    pub open spec fn knows(&self, id: Seq<char>) -> bool {
        exists|i: int| 0 <= i < self.entries().len() && self.entries()[i].id@ == id
    }

    /// The history of `id`, oldest first; empty for an unknown id.
    pub open spec fn history(&self, id: Seq<char>) -> Seq<NodeInfo> {
        if self.knows(id) {
            self.entries()[choose|i: int|
                0 <= i < self.entries().len() && self.entries()[i].id@ == id].records@
        } else {
            Seq::empty()
        }
    }

    proof fn lemma_history_at(&self, i: int)
        requires
            self.wf(),
            0 <= i < self.entries().len(),
        ensures
            self.knows(self.entries()[i].id@),
            self.history(self.entries()[i].id@) == self.entries()[i].records@,
    {
    }

    /// An empty history whose peers keep at most `max_records` entries.
    pub fn new(max_records: usize) -> (r: Self)
        ensures
            r.wf(),
            r.max_records() == max_records,
            forall|id: Seq<char>| !r.knows(id),
    {
        HeartbeatHistory { entries: Vec::new(), max_records }
    }

    /// The per-peer histories, in order of first insertion.
    pub fn peers(&self) -> (r: &Vec<PeerHistory>)
        ensures
            r@ == self.entries(),
    {
        &self.entries
    }

    fn position(&self, id: &String) -> (r: Option<usize>)
        ensures
            match r {
                Some(i) => i < self.entries().len() && self.entries()[i as int].id@ == id@,
                None => !self.knows(id@),
            },
    {
        let mut i: usize = 0;
        while i < self.entries.len()
            invariant
                i <= self.entries@.len(),
                forall|j: int| 0 <= j < i ==> self.entries@[j].id@ != id@,
            decreases self.entries@.len() - i,
        {
            if self.entries[i].id == *id {
                return Some(i);
            }
            i = i + 1;
        }
        None
    }

    /// Appends `state` to the history of `id`, dropping the oldest entries
    /// beyond the bound; the other peers' histories stay as they were.
    pub fn insert_state(&mut self, id: String, state: NodeInfo)
        requires
            old(self).wf(),
            state.consistent(),
        ensures
            final(self).wf(),
            final(self).max_records() == old(self).max_records(),
            final(self).knows(id@),
            final(self).history(id@) == retained(
                old(self).history(id@).push(state),
                old(self).max_records(),
            ),
            forall|other: Seq<char>|
                other != id@ ==> final(self).knows(other) == old(self).knows(other),
            forall|other: Seq<char>|
                other != id@ ==> #[trigger] final(self).history(other) == old(self).history(other),
    {
        let ghost old_self = *self;
        let ghost key = id@;
        let ghost pushed = self.history(id@).push(state);
        match self.position(&id) {
            Some(i) => {
                proof {
                    old_self.lemma_history_at(i as int);
                }
                let entry = self.entries.remove(i);
                let mut records = entry.records;
                records.push(state);
                assert(records@ == pushed);
                proof {
                    assert forall|j: int| 0 <= j < records@.len() implies (
                    #[trigger] records@[j]).consistent() by {
                        if j < records@.len() - 1 {
                            assert(records@[j] == old_self.entries()[i as int].records@[j]);
                        }
                    }
                    lemma_retained_consistent(records@, self.max_records as nat);
                }
                keep_last(&mut records, self.max_records);
                self.entries.insert(i, PeerHistory { id: entry.id, records });
                proof {
                    assert forall|a: int, j: int|
                        0 <= a < self.entries().len() && 0 <= j < self.entries()[a].records@.len()
                        implies (#[trigger] self.entries()[a].records@[j]).consistent() by {
                        if a != i {
                            assert(self.entries()[a] == old_self.entries()[a]);
                        }
                    }
                    assert forall|a: int, b: int|
                        0 <= a < self.entries().len() && 0 <= b < self.entries().len()
                            && self.entries()[a].id@ == self.entries()[b].id@ implies a == b by {
                        assert(old_self.entries()[a].id@ == self.entries()[a].id@);
                        assert(old_self.entries()[b].id@ == self.entries()[b].id@);
                    }
                    self.lemma_history_at(i as int);
                    assert forall|other: Seq<char>|
                        #![trigger self.knows(other)]
                        #![trigger self.history(other)]
                        other != key implies (self.knows(other) == old_self.knows(other)
                            && self.history(other) == old_self.history(other)) by {
                        if old_self.knows(other) {
                            let j = choose|j: int|
                                0 <= j < old_self.entries().len() && old_self.entries()[j].id@
                                    == other;
                            old_self.lemma_history_at(j);
                            assert(self.entries()[j] == old_self.entries()[j]);
                            self.lemma_history_at(j);
                        }
                        if self.knows(other) {
                            let j = choose|j: int|
                                0 <= j < self.entries().len() && self.entries()[j].id@ == other;
                            assert(self.entries()[j] == old_self.entries()[j]);
                        }
                    }
                }
            },
            None => {
                let mut records: Vec<NodeInfo> = Vec::new();
                records.push(state);
                assert(records@ =~= pushed);
                proof {
                    lemma_retained_consistent(records@, self.max_records as nat);
                }
                keep_last(&mut records, self.max_records);
                self.entries.push(PeerHistory { id, records });
                proof {
                    let n = old_self.entries().len() as int;
                    assert forall|a: int, j: int|
                        0 <= a < self.entries().len() && 0 <= j < self.entries()[a].records@.len()
                        implies (#[trigger] self.entries()[a].records@[j]).consistent() by {
                        if a < n {
                            assert(self.entries()[a] == old_self.entries()[a]);
                        }
                    }
                    assert forall|a: int, b: int|
                        0 <= a < self.entries().len() && 0 <= b < self.entries().len()
                            && self.entries()[a].id@ == self.entries()[b].id@ implies a == b by {
                        if a < n && b < n {
                            assert(old_self.entries()[a].id@ == self.entries()[a].id@);
                        } else if a < n {
                            assert(old_self.knows(self.entries()[a].id@));
                        } else if b < n {
                            assert(old_self.knows(self.entries()[b].id@));
                        }
                    }
                    self.lemma_history_at(n);
                    assert forall|other: Seq<char>|
                        #![trigger self.knows(other)]
                        #![trigger self.history(other)]
                        other != key implies (self.knows(other) == old_self.knows(other)
                            && self.history(other) == old_self.history(other)) by {
                        if old_self.knows(other) {
                            let j = choose|j: int|
                                0 <= j < old_self.entries().len() && old_self.entries()[j].id@
                                    == other;
                            old_self.lemma_history_at(j);
                            assert(self.entries()[j] == old_self.entries()[j]);
                            self.lemma_history_at(j);
                        }
                        if self.knows(other) {
                            let j = choose|j: int|
                                0 <= j < self.entries().len() && self.entries()[j].id@ == other;
                            if j < n {
                                assert(self.entries()[j] == old_self.entries()[j]);
                            }
                        }
                    }
                }
            },
        }
    }
}

impl HeartbeatHistory {
    /// Records the reply to a heartbeat, received at `now_ms` (local time
    /// `at`): the sender named in the payload is alive, with the time since
    /// the beat was sent as its ping.
    pub fn record_beat(&mut self, payload: &HeartbeatPayload, now_ms: u64, at: &Timestamp)
        requires
            old(self).wf(),
        ensures
            final(self).wf(),
            final(self).max_records() == old(self).max_records(),
            final(self).knows(payload.node_id@),
            exists|info: NodeInfo|
                info.ping == Some(latency(payload.beat_time(), now_ms)) && info.state
                    == NodeState::Alive && info.timestamp@ == timestamp_text(*at)
                    && final(self).history(payload.node_id@) == retained(
                    old(self).history(payload.node_id@).push(info),
                    old(self).max_records(),
                ),
            forall|other: Seq<char>|
                other != payload.node_id@ ==> final(self).knows(other) == old(self).knows(other),
            forall|other: Seq<char>|
                other != payload.node_id@ ==> #[trigger] final(self).history(other) == old(
                    self,
                ).history(other),
    {
        let info = NodeInfo::alive_at(payload.latency_ms(now_ms), at);
        self.insert_state(payload.node_id.clone(), info);
    }

    /// Records the outcome of a heartbeat sent to `target`, known at local
    /// time `at`: a failed or timed-out delivery makes it dead; a delivered one changes nothing
    /// (the reply records it).
    pub fn record_outcome(&mut self, target: String, outcome: DeliveryOutcome, at: &Timestamp)
        requires
            old(self).wf(),
        ensures
            final(self).wf(),
            final(self).max_records() == old(self).max_records(),
            outcome == DeliveryOutcome::Delivered ==> *final(self) == *old(self),
            outcome != DeliveryOutcome::Delivered ==> {
                &&& final(self).knows(target@)
                &&& exists|info: NodeInfo|
                    info.ping is None && info.state == NodeState::Dead && info.timestamp@
                        == timestamp_text(*at) && final(self).history(target@) == retained(old(self).history(target@).push(info), old(self).max_records())
                &&& forall|other: Seq<char>|
                    other != target@ ==> final(self).knows(other) == old(self).knows(other)
                &&& forall|other: Seq<char>|
                    other != target@ ==> #[trigger] final(self).history(other) == old(
                        self,
                    ).history(other)
            },
    {
        match outcome {
            DeliveryOutcome::Delivered => {},
            _ => {
                let info = NodeInfo::dead_at(at);
                self.insert_state(target, info);
            },
        }
    }
}

/// What came of delivering one heartbeat.
#[derive(Clone, Copy, Debug, PartialEq, Eq, Structural)]
pub enum DeliveryOutcome {
    Delivered,
    Failed,
    TimedOut,
}

/// Milliseconds from `beat_at` to `now_ms`, zero where the clocks disagree.
pub open spec fn latency(beat_at: u64, now_ms: u64) -> u64 {
    if now_ms >= beat_at {
        (now_ms - beat_at) as u64
    } else {
        0
    }
}

/// Relies on `std::time::SystemTime::now` and `duration_since(UNIX_EPOCH)`:
/// the wall-clock time in milliseconds since the Unix epoch, or `None` for a
/// clock set before the epoch.
#[verifier::external_body]
fn unix_time_ms() -> (r: Option<u64>) {
    match std::time::SystemTime::now().duration_since(std::time::UNIX_EPOCH) {
        Ok(d) => Some(d.as_millis() as u64),
        Err(_) => None,
    }
}

/// The wall-clock time in milliseconds since the Unix epoch; zero for a
/// clock set before the epoch.
pub fn unix_now_ms() -> u64 {
    match unix_time_ms() {
        Some(ms) => ms,
        None => 0,
    }
}

/// The payload of a heartbeat: who sent it, and when (Unix milliseconds).
#[derive(Clone, Debug)]
pub struct HeartbeatPayload {
    pub node_id: String,
    pub beat_at: u64,
}

impl HeartbeatPayload {
    /// The send time, in milliseconds since the Unix epoch.
    pub open spec fn beat_time(&self) -> u64 {
        self.beat_at
    }

    /// A heartbeat of `node_id` sent at `beat_at`.
    pub fn at(node_id: String, beat_at: u64) -> (r: Self)
        ensures
            r.node_id == node_id,
            r.beat_time() == beat_at,
    {
        HeartbeatPayload { node_id, beat_at }
    }

    /// A heartbeat of `node_id` sent now; a clock set before the Unix epoch
    /// gives time zero.
    pub fn now(node_id: String) -> (r: Self)
        ensures
            r.node_id == node_id,
    {
        HeartbeatPayload { node_id, beat_at: unix_now_ms() }
    }

    /// The send time, in milliseconds since the Unix epoch.
    pub fn get_beat_time(&self) -> (r: u64)
        ensures
            r == self.beat_time(),
    {
        self.beat_at
    }

    /// Milliseconds from the send time to `now_ms`; zero where the sender's
    /// clock is ahead.
    pub fn latency_ms(&self, now_ms: u64) -> (r: u64)
        ensures
            r == latency(self.beat_time(), now_ms),
    {
        if now_ms >= self.beat_at {
            now_ms - self.beat_at
        } else {
            0
        }
    }
}

/// What the probe task of one peer does next.
#[derive(Clone, Copy, Debug, PartialEq, Eq, Structural)]
pub enum ProbeAction {
    /// Sleep one heartbeat interval, then send.
    SleepInterval,
    /// Sleep `BACKOFF_STEP_MS`, then decide again.
    SleepBackoff,
    /// Send the next heartbeat now.
    SendBeat,
}

/// Whether a dead peer has been waited on for more than the backoff limit.
pub open spec fn backoff_exhausted(waited_ms: u64, interval_ms: u64) -> bool {
    waited_ms > BACKOFF_LIMIT_INTERVALS * interval_ms
}

/// Decides the next step of a peer's probe task. Right after a send, a live
/// peer is paced by the interval and a dead one enters backoff; in backoff,
/// the task sends again once the peer is alive or `waited_ms` exceeds the
/// backoff limit.
pub fn next_probe_action(just_sent: bool, alive: bool, waited_ms: u64, interval_ms: u64) -> (r:
    ProbeAction)
    ensures
        just_sent && alive ==> r == ProbeAction::SleepInterval,
        just_sent && !alive ==> r == ProbeAction::SleepBackoff,
        !just_sent ==> (r == ProbeAction::SendBeat <==> (alive || backoff_exhausted(
            waited_ms,
            interval_ms,
        ))),
        !just_sent ==> r != ProbeAction::SleepInterval,
{
    if just_sent {
        if alive {
            ProbeAction::SleepInterval
        } else {
            ProbeAction::SleepBackoff
        }
    } else {
        let exhausted = interval_ms <= u64::MAX / BACKOFF_LIMIT_INTERVALS && waited_ms
            > interval_ms * BACKOFF_LIMIT_INTERVALS;
        if alive || exhausted {
            ProbeAction::SendBeat
        } else {
            ProbeAction::SleepBackoff
        }
    }
}

/// What `Duration::from_millis` returns for `millis`.
pub uninterp spec fn duration_from_millis(millis: u64) -> core::time::Duration;

/// Relies on `Duration::from_millis`: a span of `millis` milliseconds.
pub assume_specification[ core::time::Duration::from_millis ](millis: u64) -> (r:
    core::time::Duration)
    ensures
        r == duration_from_millis(millis),
;

/// Settings of the heartbeat module.
#[derive(Clone, Debug)]
pub struct HeartbeatSettings {
    pub output_file: Option<String>,
    pub interval_ms: u64,
    pub max_record_history: usize,
}

impl Default for HeartbeatSettings {
    fn default() -> (r: Self)
        ensures
            r.output_file is None,
            r.interval_ms == 10000,
            r.max_record_history == 10,
    {
        HeartbeatSettings { output_file: None, interval_ms: 10000, max_record_history: 10 }
    }
}

impl HeartbeatSettings {
    /// The heartbeat period.
    pub fn interval(&self) -> (r: core::time::Duration)
        ensures
            r == duration_from_millis(self.interval_ms),
    {
        core::time::Duration::from_millis(self.interval_ms)
    }
}

} // verus!
