//! The fixed-window limiter: one record per client, reset when its window
//! has run out, swept when it has gone stale.

use crate::client_ip::{fallback_identity, identity_or_fallback, ClientIdentity};
use crate::response::{error, is_error_reply, ErrorReply, TOO_MANY_REQUESTS};
use std::collections::HashMap;
use std::hash::Hash;
use vstd::prelude::*;
use vstd::std_specs::hash::{obeys_key_model, spec_hash_map_iter};
use vstd::std_specs::iter::IteratorSpec;

verus! {

broadcast use vstd::std_specs::hash::group_hash_axioms;

/// Length of a window, in nanoseconds (one second).
pub const WINDOW_NANOS: u64 = 1_000_000_000;

/// Requests admitted per window.
pub const LIMIT: u64 = 2;

/// Idle time after which a record may be swept, in nanoseconds (300 seconds).
pub const STALE_NANOS: u64 = 300_000_000_000;

/// Time between two sweeps, in nanoseconds (60 seconds).
pub const SWEEP_PERIOD_NANOS: u64 = 60_000_000_000;

/// Per-client state: when the current window began and how many requests
/// were counted in it. Times are nanoseconds on a monotonic clock.
#[derive(Clone, Copy, Debug, PartialEq, Eq, Structural)]
pub struct WindowRecord {
    pub window_start: u64,
    pub count: u64,
}

/// The outcome of one admission check.
#[derive(Clone, Copy, Debug, PartialEq, Eq, Structural)]
pub enum Decision {
    Admit,
    Reject,
}

/// What becomes of a request: it goes on to the next stage, or it is answered
/// at once with an error reply and the next stage never sees it.
#[derive(Clone, Debug)]
pub enum Admission {
    Forward,
    Refuse(ErrorReply),
}

/// Time from `start` to `now`; zero where `now` lies before `start`.
pub open spec fn elapsed(now: u64, start: u64) -> int {
    if now >= start {
        now - start
    } else {
        0
    }
}

/// A count one higher, held at the largest value once it is reached.
pub open spec fn bumped(count: u64) -> u64 {
    if count < u64::MAX {
        (count + 1) as u64
    } else {
        count
    }
}

/// The record of a client after a request at `now`, given its record before.
pub open spec fn record_after(prev: Option<WindowRecord>, now: u64) -> WindowRecord {
    match prev {
        None => WindowRecord { window_start: now, count: 1 },
        Some(r) => if elapsed(now, r.window_start) > WINDOW_NANOS {
            WindowRecord { window_start: now, count: 1 }
        } else {
            WindowRecord { window_start: r.window_start, count: bumped(r.count) }
        },
    }
}

/// The record stored under `id`, if any.
pub open spec fn lookup(m: Map<ClientIdentity, WindowRecord>, id: ClientIdentity) -> Option<
    WindowRecord,
> {
    if m.contains_key(id) {
        Some(m[id])
    } else {
        None
    }
}

/// The decision that a freshly updated record stands for.
pub open spec fn decision_of(r: WindowRecord) -> Decision {
    if r.count > LIMIT {
        Decision::Reject
    } else {
        Decision::Admit
    }
}

/// The store after a request from `id` at `now`.
pub open spec fn after_request(
    m: Map<ClientIdentity, WindowRecord>,
    id: ClientIdentity,
    now: u64,
) -> Map<ClientIdentity, WindowRecord> {
    m.insert(id, record_after(lookup(m, id), now))
}

/// The decision on a request from `id` at `now`.
pub open spec fn decision_on(
    m: Map<ClientIdentity, WindowRecord>,
    id: ClientIdentity,
    now: u64,
) -> Decision {
    decision_of(record_after(lookup(m, id), now))
}

/// The identity that a request is counted under, given the address found for
/// it.
pub open spec fn counted_as(ip: Option<ClientIdentity>) -> ClientIdentity {
    match ip {
        Some(found) => found,
        None => fallback_identity(),
    }
}

/// Whether a record has been idle for more than the staleness threshold.
pub open spec fn is_stale(r: WindowRecord, now: u64) -> bool {
    elapsed(now, r.window_start) > STALE_NANOS
}

/// The store after a sweep at `now`: the records that are not stale.
pub open spec fn swept(m: Map<ClientIdentity, WindowRecord>, now: u64) -> Map<
    ClientIdentity,
    WindowRecord,
> {
    Map::new(|id: ClientIdentity| m.contains_key(id) && !is_stale(m[id], now), |id: ClientIdentity| m[id])
}

/// When the sweep after one at `now` is due: a sweep period later, or at the
/// end of time where the clock cannot count that far.
pub open spec fn due_after(now: u64) -> u64 {
    if now <= u64::MAX - SWEEP_PERIOD_NANOS {
        (now + SWEEP_PERIOD_NANOS) as u64
    } else {
        u64::MAX
    }
}

impl WindowRecord {
    /// The record of a client's first request, made at `now`.
    pub fn first(now: u64) -> (r: WindowRecord)
        ensures
            r == record_after(None, now),
    {
        WindowRecord { window_start: now, count: 1 }
    }

    /// Counts one more request, made at `now`.
    pub fn advance(self, now: u64) -> (r: WindowRecord)
        ensures
            r == record_after(Some(self), now),
    {
        let since: u64 = if now >= self.window_start {
            now - self.window_start
        } else {
            0
        };
        if since > WINDOW_NANOS {
            WindowRecord { window_start: now, count: 1 }
        } else {
            let count: u64 = if self.count < u64::MAX {
                self.count + 1
            } else {
                self.count
            };
            WindowRecord { window_start: self.window_start, count }
        }
    }

    /// Whether a sweep at `now` removes this record.
    pub fn stale_at(&self, now: u64) -> (stale: bool)
        ensures
            stale == is_stale(*self, now),
    {
        let since: u64 = if now >= self.window_start {
            now - self.window_start
        } else {
            0
        };
        since > STALE_NANOS
    }

    /// The decision that this record, just updated, stands for.
    pub fn decision(&self) -> (d: Decision)
        ensures
            d == decision_of(*self),
    {
        if self.count > LIMIT {
            Decision::Reject
        } else {
            Decision::Admit
        }
    }
}

/// The keys of `m` whose record is stale at `now`, in no particular order.
fn stale_keys<K: Copy + Eq + Hash>(m: &HashMap<K, WindowRecord>, now: u64) -> (keys: Vec<K>)
    requires
        obeys_key_model::<K>(),
    ensures
        forall|k: K| keys@.contains(k) <==> m@.contains_key(k) && is_stale(m@[k], now),
{
    let mut keys: Vec<K> = Vec::new();
    for entry in it: m.iter()
        invariant
            it.seq() == spec_hash_map_iter(m).remaining(),
            forall|k: K| keys@.contains(k) ==> m@.contains_key(k) && is_stale(m@[k], now),
            forall|j: int|
                0 <= j < it.index() && is_stale(*it.seq()[j].1, now) ==> keys@.contains(
                    *it.seq()[j].0,
                ),
    {
        let (key, record) = entry;
        if record.stale_at(now) {
            let ghost before = keys@;
            keys.push(*key);
            assert(keys@[keys@.len() - 1] == *key);
            assert forall|k: K| before.contains(k) implies keys@.contains(k) by {
                let j = choose|j: int| 0 <= j < before.len() && before[j] == k;
                assert(keys@[j] == k);
            }
            assert forall|k: K| keys@.contains(k) implies m@.contains_key(k) && is_stale(
                m@[k],
                now,
            ) by {
                let j = choose|j: int| 0 <= j < keys@.len() && keys@[j] == k;
                if j < before.len() {
                    assert(before[j] == k);
                    assert(before.contains(k));
                }
            }
        }
    }
    assert forall|k: K| m@.contains_key(k) && is_stale(m@[k], now) implies keys@.contains(k) by {
        let entries = spec_hash_map_iter(m).remaining();
        assert(entries.contains((&k, &m@[k])));
        let j = choose|j: int| 0 <= j < entries.len() && entries[j] == (&k, &m@[k]);
        assert(*entries[j].0 == k);
    }
    keys
}

/// Removes from `m` the records that are stale at `now`.
fn remove_stale<K: Copy + Eq + Hash>(m: &mut HashMap<K, WindowRecord>, now: u64)
    requires
        obeys_key_model::<K>(),
    ensures
        forall|k: K|
            final(m)@.contains_key(k) <==> old(m)@.contains_key(k) && !is_stale(old(m)@[k], now),
        forall|k: K| final(m)@.contains_key(k) ==> final(m)@[k] == old(m)@[k],
{
    let keys = stale_keys(m, now);
    let ghost before = m@;
    let mut i: usize = 0;
    while i < keys.len()
        invariant
            obeys_key_model::<K>(),
            i <= keys.len(),
            forall|k: K| #[trigger]
                m@.contains_key(k) ==> before.contains_key(k) && m@[k] == before[k],
            forall|k: K|
                before.contains_key(k) && !keys@.subrange(0, i as int).contains(k)
                    ==> #[trigger] m@.contains_key(k),
            forall|j: int| 0 <= j < i ==> !m@.contains_key(keys@[j]),
        decreases keys.len() - i,
    {
        let key = keys[i];
        let ghost earlier = keys@.subrange(0, i as int);
        let ghost later = keys@.subrange(0, i + 1);
        m.remove(&key);
        assert forall|k: K| before.contains_key(k) && !later.contains(k) implies m@.contains_key(
            k,
        ) by {
            assert(later[i as int] == key);
            if earlier.contains(k) {
                let j = choose|j: int| 0 <= j < earlier.len() && earlier[j] == k;
                assert(later[j] == k);
            }
        }
        i += 1;
    }
    assert(keys@.subrange(0, i as int) =~= keys@);
    assert forall|k: K| keys@.contains(k) implies !m@.contains_key(k) by {
        let j = choose|j: int| 0 <= j < keys@.len() && keys@[j] == k;
    }
    assert forall|k: K| m@.contains_key(k) <==> before.contains_key(k) && !is_stale(
        before[k],
        now,
    ) by {
        if before.contains_key(k) && is_stale(before[k], now) {
            assert(keys@.contains(k));
        }
        if before.contains_key(k) && !is_stale(before[k], now) {
            assert(!keys@.contains(k));
        }
    }
}

/// The limiter's store: a record per client identity.
///
/// The view is the mapping from identity to record. Every method takes the
/// store exclusively, so concurrent callers are put in some order by whatever
/// lock holds the store, and each sees the records as the one before left
/// them.
pub struct RateLimiterState {
    v4: HashMap<u32, WindowRecord>,
    v6: HashMap<u128, WindowRecord>,
}

impl View for RateLimiterState {
    type V = Map<ClientIdentity, WindowRecord>;

    closed spec fn view(&self) -> Map<ClientIdentity, WindowRecord> {
        Map::new(
            |id: ClientIdentity|
                match id {
                    ClientIdentity::V4(a) => self.v4@.contains_key(a),
                    ClientIdentity::V6(a) => self.v6@.contains_key(a),
                },
            |id: ClientIdentity|
                match id {
                    ClientIdentity::V4(a) => self.v4@[a],
                    ClientIdentity::V6(a) => self.v6@[a],
                },
        )
    }
}

impl RateLimiterState {
    /// An empty store.
    pub fn new() -> (s: RateLimiterState)
        ensures
            s@ == Map::<ClientIdentity, WindowRecord>::empty(),
    {
        let s = RateLimiterState { v4: HashMap::new(), v6: HashMap::new() };
        assert(s@ =~= Map::<ClientIdentity, WindowRecord>::empty());
        s
    }

    /// The record kept for `id`, if there is one.
    pub fn record(&self, id: ClientIdentity) -> (r: Option<WindowRecord>)
        ensures
            r == lookup(self@, id),
    {
        match id {
            ClientIdentity::V4(a) => match self.v4.get(&a) {
                Some(r) => Some(*r),
                None => None,
            },
            ClientIdentity::V6(a) => match self.v6.get(&a) {
                Some(r) => Some(*r),
                None => None,
            },
        }
    }

    /// Counts a request from `identity` at `now` and decides on it.
    ///
    /// A client without a record, or whose window ran out more than a window
    /// length ago, starts a new window with this request. The request is
    /// counted whether or not it is admitted, and it is admitted while the
    /// count stays within the limit. No other client's record changes.
    pub fn check_and_increment(&mut self, identity: ClientIdentity, now: u64) -> (d: Decision)
        ensures
            final(self)@ == after_request(old(self)@, identity, now),
            d == decision_on(old(self)@, identity, now),
    {
        let next = match self.record(identity) {
            Some(r) => r.advance(now),
            None => WindowRecord::first(now),
        };
        match identity {
            ClientIdentity::V4(a) => {
                self.v4.insert(a, next);
            },
            ClientIdentity::V6(a) => {
                self.v6.insert(a, next);
            },
        }
        assert(self@ =~= after_request(old(self)@, identity, now));
        next.decision()
    }

    /// Handles a request: counts it under the address found for it, or under
    /// the loopback address where none was found, and says what becomes of
    /// it. A rejected request is refused with the too-many-requests reply; an
    /// admitted one is forwarded.
    pub fn handle(&mut self, ip: Option<ClientIdentity>, now: u64) -> (outcome: Admission)
        ensures
            final(self)@ == after_request(old(self)@, counted_as(ip), now),
            match outcome {
                Admission::Forward => decision_on(old(self)@, counted_as(ip), now)
                    == Decision::Admit,
                Admission::Refuse(reply) => decision_on(old(self)@, counted_as(ip), now)
                    == Decision::Reject && is_error_reply(
                    reply,
                    TOO_MANY_REQUESTS,
                    "Too many requests"@,
                ),
            },
    {
        let identity = identity_or_fallback(ip);
        match self.check_and_increment(identity, now) {
            Decision::Admit => Admission::Forward,
            Decision::Reject => Admission::Refuse(error(TOO_MANY_REQUESTS, "Too many requests")),
        }
    }

    /// Removes every record that is stale at `now` and leaves the others as
    /// they are.
    pub fn sweep(&mut self, now: u64)
        ensures
            final(self)@ == swept(old(self)@, now),
    {
        remove_stale(&mut self.v4, now);
        remove_stale(&mut self.v6, now);
        assert(self@ =~= swept(old(self)@, now));
    }
}

/// The schedule of the sweeps: one every sweep period, for as long as the
/// store lives. Whoever owns the timer waits for `wait_nanos`, takes the
/// store and calls `tick`.
#[derive(Clone, Copy, Debug, PartialEq, Eq, Structural)]
pub struct Evictor {
    pub next_sweep: u64,
}

impl Evictor {
    /// The schedule of a store made at `now`: the first sweep is due one
    /// period later.
    pub fn new(now: u64) -> (e: Evictor)
        ensures
            e.next_sweep == due_after(now),
    {
        Evictor { next_sweep: Self::period_after(now) }
    }

    fn period_after(now: u64) -> (due: u64)
        ensures
            due == due_after(now),
    {
        if now <= u64::MAX - SWEEP_PERIOD_NANOS {
            now + SWEEP_PERIOD_NANOS
        } else {
            u64::MAX
        }
    }

    /// How long to wait at `now` until the next sweep is due; zero where it
    /// is due already.
    pub fn wait_nanos(&self, now: u64) -> (wait: u64)
        ensures
            wait == elapsed(self.next_sweep, now),
    {
        if self.next_sweep >= now {
            self.next_sweep - now
        } else {
            0
        }
    }

    /// Sweeps `store` if a sweep is due at `now`, and says whether it did.
    /// After a sweep the next one is due a period later; without one nothing
    /// changes.
    pub fn tick(&mut self, store: &mut RateLimiterState, now: u64) -> (ran: bool)
        ensures
            ran == (now >= old(self).next_sweep),
            ran ==> final(store)@ == swept(old(store)@, now) && final(self).next_sweep
                == due_after(now),
            !ran ==> final(store)@ == old(store)@ && *final(self) == *old(self),
    {
        if now >= self.next_sweep {
            store.sweep(now);
            self.next_sweep = Self::period_after(now);
            true
        } else {
            false
        }
    }
}

} // verus!
