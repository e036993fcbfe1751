//! What the limiter guarantees, proved of the model that its contracts are
//! stated over: a store is a map from client to record, a request maps a
//! store to the next one and to a decision.

use crate::client_ip::ClientIdentity;
use crate::rate_limiting::{
    after_request, bumped, decision_on, elapsed, is_stale, lookup, record_after, swept, Decision,
    WindowRecord, LIMIT, WINDOW_NANOS,
};
use vstd::prelude::*;

verus! {

/// The store after requests from `id` at each of `times`, in that order.
pub open spec fn after_requests(
    m: Map<ClientIdentity, WindowRecord>,
    id: ClientIdentity,
    times: Seq<u64>,
) -> Map<ClientIdentity, WindowRecord>
    decreases times.len(),
{
    if times.len() == 0 {
        m
    } else {
        after_request(after_requests(m, id, times.drop_last()), id, times.last())
    }
}

/// The decision on request number `k` (from zero) of the requests that `id`
/// makes at `times`.
pub open spec fn nth_decision(
    m: Map<ClientIdentity, WindowRecord>,
    id: ClientIdentity,
    times: Seq<u64>,
    k: int,
) -> Decision {
    decision_on(after_requests(m, id, times.take(k)), id, times[k])
}

/// How many of the requests that `id` makes at `times` are admitted.
pub open spec fn admitted(
    m: Map<ClientIdentity, WindowRecord>,
    id: ClientIdentity,
    times: Seq<u64>,
) -> nat
    decreases times.len(),
{
    if times.len() == 0 {
        0
    } else {
        let before = times.drop_last();
        let last: nat = if decision_on(after_requests(m, id, before), id, times.last())
            == Decision::Admit {
            1
        } else {
            0
        };
        admitted(m, id, before) + last
    }
}

/// The store after the requests of `trace`, each a client and a time, in
/// that order.
pub open spec fn after_trace(
    m: Map<ClientIdentity, WindowRecord>,
    trace: Seq<(ClientIdentity, u64)>,
) -> Map<ClientIdentity, WindowRecord>
    decreases trace.len(),
{
    if trace.len() == 0 {
        m
    } else {
        after_request(after_trace(m, trace.drop_last()), trace.last().0, trace.last().1)
    }
}

/// The times of the requests in `trace` that `id` made, in order.
pub open spec fn times_of(trace: Seq<(ClientIdentity, u64)>, id: ClientIdentity) -> Seq<u64>
    decreases trace.len(),
{
    if trace.len() == 0 {
        Seq::empty()
    } else if trace.last().0 == id {
        times_of(trace.drop_last(), id).push(trace.last().1)
    } else {
        times_of(trace.drop_last(), id)
    }
}

/// How many of the requests in `trace` that `id` made are admitted.
pub open spec fn admitted_in_trace(
    m: Map<ClientIdentity, WindowRecord>,
    trace: Seq<(ClientIdentity, u64)>,
    id: ClientIdentity,
) -> nat
    decreases trace.len(),
{
    if trace.len() == 0 {
        0
    } else {
        let before = trace.drop_last();
        let last: nat = if trace.last().0 == id && decision_on(
            after_trace(m, before),
            id,
            trace.last().1,
        ) == Decision::Admit {
            1
        } else {
            0
        };
        admitted_in_trace(m, before, id) + last
    }
}

/// `n` as a count, held at the largest value a count can take.
pub open spec fn saturated(n: nat) -> u64 {
    if n < u64::MAX {
        n as u64
    } else {
        u64::MAX
    }
}

/// Whether a request from `id` at `now` begins a new window: the client has
/// no record, or its window began more than a window length ago.
pub open spec fn opens_window(
    m: Map<ClientIdentity, WindowRecord>,
    id: ClientIdentity,
    now: u64,
) -> bool {
    match lookup(m, id) {
        None => true,
        Some(r) => elapsed(now, r.window_start) > WINDOW_NANOS,
    }
}

/// A client without a record is admitted, and its record then counts one
/// request in a window that begins with it.
pub proof fn first_request_admitted(
    m: Map<ClientIdentity, WindowRecord>,
    id: ClientIdentity,
    now: u64,
)
    requires
        !m.contains_key(id),
    ensures
        decision_on(m, id, now) == Decision::Admit,
        lookup(after_request(m, id, now), id) == Some(WindowRecord { window_start: now, count: 1 }),
{
}

/// A client whose window began more than a window length ago is admitted,
/// however many requests that window had counted, and its record then counts
/// one request in a window that begins now.
pub proof fn idle_client_starts_new_window(
    m: Map<ClientIdentity, WindowRecord>,
    id: ClientIdentity,
    now: u64,
)
    requires
        m.contains_key(id),
        elapsed(now, m[id].window_start) > WINDOW_NANOS,
    ensures
        decision_on(m, id, now) == Decision::Admit,
        lookup(after_request(m, id, now), id) == Some(WindowRecord { window_start: now, count: 1 }),
{
}

/// Within a window every request is counted, admitted or not: the count goes
/// up by one (until it can go no higher) and the window's start stays.
pub proof fn every_request_counted(
    m: Map<ClientIdentity, WindowRecord>,
    id: ClientIdentity,
    now: u64,
)
    requires
        m.contains_key(id),
        elapsed(now, m[id].window_start) <= WINDOW_NANOS,
    ensures
        lookup(after_request(m, id, now), id) == Some(
            WindowRecord { window_start: m[id].window_start, count: bumped(m[id].count) },
        ),
        decision_on(m, id, now) == Decision::Admit <==> m[id].count < LIMIT,
{
}

/// A burst in one window: where the first of a client's requests opens a
/// window and the others fall within a window length of it, request number
/// `k` (from zero) leaves a record that counts `k + 1` requests since the
/// first, and is admitted exactly if `k` is below the limit. So the first
/// `LIMIT` are admitted and every later one is rejected.
pub proof fn burst_in_one_window(
    m: Map<ClientIdentity, WindowRecord>,
    id: ClientIdentity,
    times: Seq<u64>,
)
    requires
        times.len() > 0,
        opens_window(m, id, times[0]),
        forall|i: int| 0 <= i < times.len() ==> elapsed(#[trigger] times[i], times[0]) <= WINDOW_NANOS,
    ensures
        forall|k: int|
            0 <= k < times.len() ==> lookup(
                #[trigger] after_requests(m, id, times.take(k + 1)),
                id,
            ) == Some(WindowRecord { window_start: times[0], count: saturated((k + 1) as nat) }),
        forall|k: int|
            0 <= k < times.len() ==> (#[trigger] nth_decision(m, id, times, k) == Decision::Admit
                <==> k < LIMIT),
        admitted(m, id, times) == if times.len() <= LIMIT {
            times.len()
        } else {
            LIMIT as nat
        },
{
    assert forall|k: int| 0 <= k < times.len() implies lookup(
        #[trigger] after_requests(m, id, times.take(k + 1)),
        id,
    ) == Some(WindowRecord { window_start: times[0], count: saturated((k + 1) as nat) }) by {
        burst_record(m, id, times.take(k + 1));
    }
    assert forall|k: int| 0 <= k < times.len() implies (#[trigger] nth_decision(m, id, times, k)
        == Decision::Admit <==> k < LIMIT) by {
        if k > 0 {
            burst_record(m, id, times.take(k));
        } else {
            assert(times.take(0).len() == 0);
        }
    }
    burst_record(m, id, times);
}

/// The record and the number of admissions after a burst in one window.
proof fn burst_record(m: Map<ClientIdentity, WindowRecord>, id: ClientIdentity, times: Seq<u64>)
    requires
        times.len() > 0,
        opens_window(m, id, times[0]),
        forall|i: int| 0 <= i < times.len() ==> elapsed(#[trigger] times[i], times[0]) <= WINDOW_NANOS,
    ensures
        lookup(after_requests(m, id, times), id) == Some(
            WindowRecord { window_start: times[0], count: saturated(times.len()) },
        ),
        admitted(m, id, times) == if times.len() <= LIMIT {
            times.len()
        } else {
            LIMIT as nat
        },
    decreases times.len(),
{
    let before = times.drop_last();
    if times.len() == 1 {
        assert(before.len() == 0);
        assert(after_requests(m, id, before) == m);
        assert(admitted(m, id, before) == 0);
    } else {
        assert(before[0] == times[0]);
        burst_record(m, id, before);
    }
}

/// However a client's requests fall, those that stay in the window of the
/// first never see more than `LIMIT` admissions: whatever order a lock puts
/// simultaneous requests in, no more than the limit get through.
pub proof fn admissions_bounded_in_window(
    m: Map<ClientIdentity, WindowRecord>,
    id: ClientIdentity,
    times: Seq<u64>,
)
    requires
        times.len() > 0,
        forall|i: int|
            0 <= i < times.len() ==> elapsed(
                #[trigger] times[i],
                record_after(lookup(m, id), times[0]).window_start,
            ) <= WINDOW_NANOS,
    ensures
        admitted(m, id, times) <= LIMIT,
{
    bounded_record(m, id, times);
}

/// The induction behind `admissions_bounded_in_window`.
proof fn bounded_record(m: Map<ClientIdentity, WindowRecord>, id: ClientIdentity, times: Seq<u64>)
    requires
        times.len() > 0,
        forall|i: int|
            0 <= i < times.len() ==> elapsed(
                #[trigger] times[i],
                record_after(lookup(m, id), times[0]).window_start,
            ) <= WINDOW_NANOS,
    ensures
        after_requests(m, id, times).contains_key(id),
        after_requests(m, id, times)[id].window_start == record_after(
            lookup(m, id),
            times[0],
        ).window_start,
        after_requests(m, id, times)[id].count >= saturated(times.len()),
        admitted(m, id, times) <= times.len(),
        admitted(m, id, times) <= LIMIT,
    decreases times.len(),
{
    let before = times.drop_last();
    if times.len() == 1 {
        assert(before.len() == 0);
        assert(after_requests(m, id, before) == m);
        assert(admitted(m, id, before) == 0);
    } else {
        assert(before[0] == times[0]);
        bounded_record(m, id, before);
    }
}

/// Requests from one client leave every other client's record, and so every
/// decision on another client's request, as they were; and requests of two
/// clients give the same store in either order.
pub proof fn clients_independent(
    m: Map<ClientIdentity, WindowRecord>,
    a: ClientIdentity,
    b: ClientIdentity,
    now_a: u64,
    now_b: u64,
)
    requires
        a != b,
    ensures
        lookup(after_request(m, a, now_a), b) == lookup(m, b),
        decision_on(after_request(m, a, now_a), b, now_b) == decision_on(m, b, now_b),
        after_request(after_request(m, a, now_a), b, now_b) == after_request(
            after_request(m, b, now_b),
            a,
            now_a,
        ),
{
    assert(after_request(after_request(m, a, now_a), b, now_b) =~= after_request(
        after_request(m, b, now_b),
        a,
        now_a,
    ));
}

/// Any number of requests from one client leave every other client's record
/// and the decision on its next request as they were.
pub proof fn clients_independent_over_time(
    m: Map<ClientIdentity, WindowRecord>,
    a: ClientIdentity,
    b: ClientIdentity,
    times_a: Seq<u64>,
    now_b: u64,
)
    requires
        a != b,
    ensures
        lookup(after_requests(m, a, times_a), b) == lookup(m, b),
        decision_on(after_requests(m, a, times_a), b, now_b) == decision_on(m, b, now_b),
    decreases times_a.len(),
{
    if times_a.len() > 0 {
        clients_independent_over_time(m, a, b, times_a.drop_last(), now_b);
    }
}

/// However the requests of many clients are interleaved, one client's record
/// is what its own requests alone would have made it, and so is the decision
/// on its next request.
pub proof fn interleaving_is_not_seen(
    m: Map<ClientIdentity, WindowRecord>,
    trace: Seq<(ClientIdentity, u64)>,
    id: ClientIdentity,
    now: u64,
)
    ensures
        lookup(after_trace(m, trace), id) == lookup(after_requests(m, id, times_of(trace, id)), id),
        decision_on(after_trace(m, trace), id, now) == decision_on(
            after_requests(m, id, times_of(trace, id)),
            id,
            now,
        ),
    decreases trace.len(),
{
    if trace.len() > 0 {
        let before = trace.drop_last();
        interleaving_is_not_seen(m, before, id, now);
        if trace.last().0 == id {
            let own = times_of(before, id);
            assert(own.push(trace.last().1).drop_last() =~= own);
        }
    }
}

/// Among interleaved requests of many clients, as many of one client's
/// requests are admitted as if it had made them alone.
pub proof fn interleaving_admits_the_same(
    m: Map<ClientIdentity, WindowRecord>,
    trace: Seq<(ClientIdentity, u64)>,
    id: ClientIdentity,
)
    ensures
        admitted_in_trace(m, trace, id) == admitted(m, id, times_of(trace, id)),
    decreases trace.len(),
{
    if trace.len() > 0 {
        let before = trace.drop_last();
        interleaving_admits_the_same(m, before, id);
        if trace.last().0 == id {
            let own = times_of(before, id);
            assert(own.push(trace.last().1).drop_last() =~= own);
            interleaving_is_not_seen(m, before, id, trace.last().1);
        }
    }
}

/// In whatever order the requests of many clients reach the store, those of
/// one client that stay in the window of its first see no more than `LIMIT`
/// admissions.
pub proof fn interleaved_admissions_bounded(
    m: Map<ClientIdentity, WindowRecord>,
    trace: Seq<(ClientIdentity, u64)>,
    id: ClientIdentity,
)
    requires
        times_of(trace, id).len() > 0,
        forall|i: int|
            0 <= i < times_of(trace, id).len() ==> elapsed(
                #[trigger] times_of(trace, id)[i],
                record_after(lookup(m, id), times_of(trace, id)[0]).window_start,
            ) <= WINDOW_NANOS,
    ensures
        admitted_in_trace(m, trace, id) <= LIMIT,
{
    interleaving_admits_the_same(m, trace, id);
    admissions_bounded_in_window(m, id, times_of(trace, id));
}

/// A sweep removes a record that is stale and keeps every other record as it
/// is; the client whose record went is then treated as never seen: its next
/// request is admitted and opens a window.
pub proof fn stale_client_forgotten(
    m: Map<ClientIdentity, WindowRecord>,
    id: ClientIdentity,
    sweep_at: u64,
    now: u64,
)
    requires
        m.contains_key(id),
        is_stale(m[id], sweep_at),
    ensures
        !swept(m, sweep_at).contains_key(id),
        forall|other: ClientIdentity|
            m.contains_key(other) && !is_stale(m[other], sweep_at) ==> #[trigger] lookup(
                swept(m, sweep_at),
                other,
            ) == lookup(m, other),
        decision_on(swept(m, sweep_at), id, now) == Decision::Admit,
        lookup(after_request(swept(m, sweep_at), id, now), id) == Some(
            WindowRecord { window_start: now, count: 1 },
        ),
{
}

/// A sweep is not seen by later requests: on a clock that does not run
/// backwards, a request after the sweep gets the decision and leaves the
/// record that it would have without the sweep.
pub proof fn sweep_changes_no_decision(
    m: Map<ClientIdentity, WindowRecord>,
    id: ClientIdentity,
    sweep_at: u64,
    now: u64,
)
    requires
        sweep_at <= now,
    ensures
        decision_on(swept(m, sweep_at), id, now) == decision_on(m, id, now),
        lookup(after_request(swept(m, sweep_at), id, now), id) == lookup(
            after_request(m, id, now),
            id,
        ),
{
}

} // verus!
