//! Beat history: a per-agent ring of heartbeat outcomes plus a global
//! activity feed, both capped.
use vstd::prelude::*;
use std::collections::VecDeque;

use crate::table::KeyedTable;

verus! {

/// 7 days at the 5-minute default cadence.
pub const RING_CAP: usize = 2016;

pub const ACTIVITY_CAP: usize = 300;

#[derive(Debug, Clone, Copy, PartialEq, Eq, Structural)]
pub enum BeatKind {
    /// Heartbeat online accepted.
    OnlineOk,
    /// Explicit offline report accepted (toggle off, shutdown, local check fail).
    OfflineOk,
    /// Local health check failed, so an honest offline was sent.
    LocalFailOffline,
    /// Network-level failure (no HTTP response).
    ErrNetwork,
    /// 401/403/404/409: halting class.
    ErrAuth,
    /// 429.
    ErrRateLimited,
    /// 5xx.
    ErrServer,
    /// Response shape mismatch.
    ErrDecode,
}

impl BeatKind {
    /// The beat was delivered (online or offline).
    pub open spec fn delivered(self) -> bool {
        self == BeatKind::OnlineOk || self == BeatKind::OfflineOk || self == BeatKind::LocalFailOffline
    }

    pub fn is_success(self) -> (r: bool)
        ensures
            r == self.delivered(),
    {
        match self {
            BeatKind::OnlineOk | BeatKind::OfflineOk | BeatKind::LocalFailOffline => true,
            _ => false,
        }
    }
}

#[derive(Debug, Clone)]
pub struct BeatRecord {
    /// Epoch seconds.
    pub ts: u64,
    pub kind: BeatKind,
    pub http_status: Option<u16>,
    pub latency_ms: Option<u32>,
    pub note: Option<String>,
}

impl BeatRecord {
    /// A field-by-field copy.
    pub fn duplicate(&self) -> (r: Self)
        ensures
            r == *self,
    {
        BeatRecord {
            ts: self.ts,
            kind: self.kind,
            http_status: self.http_status,
            latency_ms: self.latency_ms,
            note: self.note.clone(),
        }
    }
}

#[derive(Debug, Clone)]
pub struct ActivityEvent {
    pub ts: u64,
    /// "info" | "warn" | "error"
    pub level: String,
    pub agent_id: Option<String>,
    pub agent_name: Option<String>,
    pub text: String,
}

impl ActivityEvent {
    /// A field-by-field copy.
    pub fn duplicate(&self) -> (r: Self)
        ensures
            r == *self,
    {
        ActivityEvent {
            ts: self.ts,
            level: self.level.clone(),
            agent_id: self.agent_id.clone(),
            agent_name: self.agent_name.clone(),
            text: self.text.clone(),
        }
    }
}

/// `s` with `x` appended, keeping only the newest `cap` items.
pub open spec fn capped_push<A>(s: Seq<A>, x: A, cap: nat) -> Seq<A> {
    let t = s.push(x);
    if t.len() > cap {
        t.skip(t.len() - cap)
    } else {
        t
    }
}

/// Counts over the records with `ts >= cutoff`: (total, delivered, latency sum, latency samples).
pub open spec fn tally(s: Seq<BeatRecord>, cutoff: u64) -> (nat, nat, nat, nat)
    decreases s.len(),
{
    if s.len() == 0 {
        (0, 0, 0, 0)
    } else {
        let (t, o, ls, ln) = tally(s.drop_last(), cutoff);
        let r = s.last();
        if r.ts >= cutoff {
            (
                t + 1,
                if r.kind.delivered() { o + 1 } else { o },
                match r.latency_ms {
                    Some(l) => ls + (l as nat),
                    None => ls,
                },
                match r.latency_ms {
                    Some(_) => ln + 1,
                    None => ln,
                },
            )
        } else {
            (t, o, ls, ln)
        }
    }
}

/// Integer stats over a trailing window of one agent's beats.
pub struct BeatCounts {
    pub total: u32,
    pub ok: u32,
    pub avg_latency_ms: u32,
}

pub struct HistoryStore {
    pub beats: KeyedTable<VecDeque<BeatRecord>>,
    pub activity: VecDeque<ActivityEvent>,
}

impl Default for HistoryStore {
    fn default() -> (r: Self)
        ensures
            r.beats.view() == Map::<Seq<char>, VecDeque<BeatRecord>>::empty(),
            r.activity@ == Seq::<ActivityEvent>::empty(),
    {
        HistoryStore { beats: KeyedTable::new(), activity: VecDeque::new() }
    }
}

/// `after` is `before` with `rec` appended to the ring of `id` (capped at
/// RING_CAP) and every other ring unchanged.
pub open spec fn beat_logged(before: HistoryStore, after: HistoryStore, id: Seq<char>, rec: BeatRecord) -> bool {
    &&& after.beats.view().dom() == before.beats.view().dom().insert(id)
    &&& after.ring(id) == capped_push(before.ring(id), rec, RING_CAP as nat)
    &&& forall|k: Seq<char>| k != id ==> #[trigger] after.beats.view().get(k) == before.beats.view().get(k)
}

impl HistoryStore {
    /// The beats recorded for `id`, oldest first (empty when none).
    pub open spec fn ring(&self, id: Seq<char>) -> Seq<BeatRecord> {
        if self.beats.view().dom().contains(id) {
            self.beats.view()[id]@
        } else {
            Seq::empty()
        }
    }

    /// Appends a beat to the agent's ring, evicting the oldest beyond RING_CAP.
    pub fn push_beat(&mut self, agent_id: &str, record: BeatRecord)
        ensures
            beat_logged(*old(self), *final(self), agent_id@, record),
            final(self).activity == old(self).activity,
    {
        let ghost before = old(self).ring(agent_id@);
        let ring = self.beats.get_or_insert(agent_id, VecDeque::new());
        ring.push_back(record);
        let ghost pushed = before.push(record);
        assert(ring@ == pushed);
        while ring.len() > RING_CAP
            invariant
                pushed.len() > RING_CAP ==> ring@.len() >= RING_CAP,
                pushed.len() <= RING_CAP ==> ring@.len() == pushed.len(),
                ring@.len() <= pushed.len(),
                ring@ == pushed.skip(pushed.len() - ring@.len()),
            decreases ring@.len(),
        {
            let ghost prev = ring@;
            ring.pop_front();
            assert(ring@ =~= pushed.skip(pushed.len() - ring@.len()));
        }
        proof {
            if pushed.len() <= RING_CAP {
                assert(pushed.skip(0) =~= pushed);
            }
        }
    }

    /// Appends an event to the activity feed, evicting the oldest beyond ACTIVITY_CAP.
    pub fn push_activity(&mut self, event: ActivityEvent)
        ensures
            final(self).activity@ == capped_push(old(self).activity@, event, ACTIVITY_CAP as nat),
            final(self).beats == old(self).beats,
    {
        let ghost pushed = old(self).activity@.push(event);
        self.activity.push_back(event);
        while self.activity.len() > ACTIVITY_CAP
            invariant
                pushed.len() > ACTIVITY_CAP ==> self.activity@.len() >= ACTIVITY_CAP,
                pushed.len() <= ACTIVITY_CAP ==> self.activity@.len() == pushed.len(),
                self.activity@.len() <= pushed.len(),
                self.activity@ == pushed.skip(pushed.len() - self.activity@.len()),
                self.beats == old(self).beats,
            decreases self.activity@.len(),
        {
            self.activity.pop_front();
            assert(self.activity@ =~= pushed.skip(pushed.len() - self.activity@.len()));
        }
        proof {
            if pushed.len() <= ACTIVITY_CAP {
                assert(pushed.skip(0) =~= pushed);
            }
        }
    }

    /// Forgets the beats of `agent_id`.
    pub fn remove_agent(&mut self, agent_id: &str)
        ensures
            final(self).beats.view() == old(self).beats.view().remove(agent_id@),
            final(self).activity == old(self).activity,
    {
        self.beats.remove(agent_id);
    }

    /// The beats of `agent_id`, oldest first.
    pub fn beats_for(&self, agent_id: &str) -> (r: Vec<BeatRecord>)
        ensures
            r@ == self.ring(agent_id@),
    {
        let mut out: Vec<BeatRecord> = Vec::new();
        match self.beats.get(agent_id) {
            Some(ring) => {
                let mut i: usize = 0;
                while i < ring.len()
                    invariant
                        i <= ring@.len(),
                        out@ == ring@.take(i as int),
                    decreases ring@.len() - i,
                {
                    out.push(ring[i].duplicate());
                    assert(ring@.take(i + 1) =~= ring@.take(i as int).push(ring@[i as int]));
                    i = i + 1;
                }
                assert(ring@.take(ring@.len() as int) =~= ring@);
            },
            None => {
                assert(out@ =~= Seq::<BeatRecord>::empty());
            },
        }
        out
    }

    /// The newest `n` activity events, newest first.
    pub fn recent_activity(&self, n: usize) -> (r: Vec<ActivityEvent>)
        ensures
            r@ == self.activity@.reverse().take(
                if n < self.activity@.len() {
                    n as int
                } else {
                    self.activity@.len() as int
                },
            ),
    {
        let len = self.activity.len();
        let count = if n < len { n } else { len };
        let mut out: Vec<ActivityEvent> = Vec::new();
        let mut i: usize = 0;
        while i < count
            invariant
                len == self.activity@.len(),
                count <= len,
                i <= count,
                out@ == self.activity@.reverse().take(i as int),
            decreases count - i,
        {
            out.push(self.activity[len - 1 - i].duplicate());
            assert(self.activity@.reverse().take(i + 1) =~= self.activity@.reverse().take(
                i as int,
            ).push(self.activity@[len - 1 - i]));
            i = i + 1;
        }
        out
    }

    /// Totals over the beats of `agent_id` with `ts >= now - window_secs`
    /// (saturating): beats, delivered beats, and the mean latency of the
    /// beats that carry one (0 when none).
    pub fn beat_counts(&self, agent_id: &str, now: u64, window_secs: u64) -> (r: BeatCounts)
        requires
            self.ring(agent_id@).len() <= u32::MAX,
        ensures
            ({
                let cutoff = if now >= window_secs { (now - window_secs) as u64 } else { 0u64 };
                let (t, o, ls, ln) = tally(self.ring(agent_id@), cutoff);
                &&& r.total == t
                &&& r.ok == o
                &&& r.avg_latency_ms == (if ln > 0 { ls / ln } else { 0 })
            }),
    {
        let cutoff = if now >= window_secs { now - window_secs } else { 0 };
        let mut total: u32 = 0;
        let mut ok: u32 = 0;
        let mut latency_sum: u64 = 0;
        let mut latency_count: u32 = 0;
        let ghost ring_seq = self.ring(agent_id@);
        match self.beats.get(agent_id) {
            Some(ring) => {
                let mut i: usize = 0;
                while i < ring.len()
                    invariant
                        ring@ == ring_seq,
                        ring_seq.len() <= u32::MAX,
                        i <= ring@.len(),
                        tally(ring_seq.take(i as int), cutoff) == (
                            total as nat,
                            ok as nat,
                            latency_sum as nat,
                            latency_count as nat,
                        ),
                        total <= i,
                        ok <= total,
                        latency_count <= total,
                        latency_sum <= latency_count * (u32::MAX as nat),
                    decreases ring@.len() - i,
                {
                    let rec = &ring[i];
                    assert(ring_seq.take(i + 1).drop_last() =~= ring_seq.take(i as int));
                    if rec.ts >= cutoff {
                        total = total + 1;
                        if rec.kind.is_success() {
                            ok = ok + 1;
                        }
                        match rec.latency_ms {
                            Some(l) => {
                                assert(latency_sum + l <= (latency_count + 1) * (u32::MAX as nat))
                                    by (nonlinear_arith)
                                    requires
                                        latency_sum <= latency_count * (u32::MAX as nat),
                                        l <= u32::MAX,
                                ;
                                assert((latency_count + 1) * (u32::MAX as nat) <= (u32::MAX as nat) * (u32::MAX as nat))
                                    by (nonlinear_arith)
                                    requires
                                        latency_count + 1 <= u32::MAX,
                                ;
                                latency_sum = latency_sum + l as u64;
                                latency_count = latency_count + 1;
                            },
                            None => {},
                        }
                    }
                    i = i + 1;
                }
                assert(ring_seq.take(ring_seq.len() as int) =~= ring_seq);
            },
            None => {
                assert(ring_seq =~= Seq::<BeatRecord>::empty());
            },
        }
        let avg: u32 = if latency_count > 0 {
            let a = latency_sum / (latency_count as u64);
            assert(a <= u32::MAX) by (nonlinear_arith)
                requires
                    latency_sum <= latency_count * (u32::MAX as nat),
                    latency_count > 0,
                    a == latency_sum / (latency_count as u64),
            ;
            a as u32
        } else {
            0
        };
        BeatCounts { total, ok, avg_latency_ms: avg }
    }
}

} // verus!
