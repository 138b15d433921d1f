//! Properties that hold across operations and sequences of them.

use vstd::prelude::*;
use crate::ledger::Ledger;
use crate::milestone::{Milestone, firings};
use crate::stream::{Stream, StreamError, StreamStatus};

verus! {

/// One call on a single stream, at time `now`, by `caller`.
pub enum Action {
    Tick { now: u64 },
    TopUp { caller: Seq<u8>, amount: u64, now: u64 },
    Pause { caller: Seq<u8>, now: u64 },
    Resume { caller: Seq<u8>, now: u64 },
    Cancel { caller: Seq<u8>, now: u64 },
    Claim { caller: Seq<u8>, now: u64 },
    Reclaim { caller: Seq<u8>, now: u64 },
}

/// When the call is made.
pub open spec fn time_of(a: Action) -> u64 {
    match a {
        Action::Tick { now } => now,
        Action::TopUp { now, .. } => now,
        Action::Pause { now, .. } => now,
        Action::Resume { now, .. } => now,
        Action::Cancel { now, .. } => now,
        Action::Claim { now, .. } => now,
        Action::Reclaim { now, .. } => now,
    }
}

/// The stream after the call.
pub open spec fn step(s: Stream, a: Action) -> Stream {
    match a {
        Action::Tick { now } => s.accrued(now),
        Action::TopUp { caller, amount, .. } => s.topped_up(caller, amount).1,
        Action::Pause { caller, .. } => s.paused(caller).1,
        Action::Resume { caller, now } => s.resumed(caller, now).1,
        Action::Cancel { caller, .. } => s.cancelled(caller).1,
        Action::Claim { caller, now } => s.claimed(caller, now).1,
        Action::Reclaim { caller, now } => s.reclaimed(caller, now).1,
    }
}

/// The stream after the calls `acts`, in order.
pub open spec fn run(s: Stream, acts: Seq<Action>) -> Stream
    decreases acts.len(),
{
    if acts.len() == 0 {
        s
    } else {
        run(step(s, acts[0]), acts.drop_first())
    }
}

/// The calls come on a clock that never goes back, and not before the
/// stream's last release.
pub open spec fn timely(s: Stream, acts: Seq<Action>) -> bool {
    &&& forall|k: int| 0 <= k < acts.len() ==> s.last_release_time <= time_of(#[trigger] acts[k])
    &&& forall|j: int, k: int| 0 <= j < k < acts.len() ==> time_of(#[trigger] acts[j]) <= time_of(#[trigger] acts[k])
}

proof fn lemma_step_keeps(s: Stream, a: Action)
    requires
        s.wf(),
        s.last_release_time <= time_of(a),
    ensures
        step(s, a).wf(),
        step(s, a).total_released >= s.total_released,
        step(s, a).last_release_time >= s.last_release_time,
        step(s, a).last_release_time <= time_of(a),
{
}

/// Conservation: in a well-formed ledger no stream has released more than
/// is locked, and what has left a stream's buffer (released less buffer) is
/// exactly the running total of its claims and reclaims, never negative.
pub proof fn lemma_conservation(l: Ledger, id: int)
    requires
        l.wf(),
        0 <= id < l.streams().len(),
    ensures
        l.streams()[id].total_released <= l.streams()[id].total_locked,
        l.streams()[id].total_released - l.streams()[id].buffer == l.withdrawn()[id],
        l.withdrawn()[id] >= 0,
{
    assert(l.stream_ok(id));
}

/// Monotonicity: over any sequence of calls on a clock that does not go
/// back, a stream's released total and last release time never decrease,
/// and its invariant holds throughout.
pub proof fn lemma_monotone(s: Stream, acts: Seq<Action>)
    requires
        s.wf(),
        timely(s, acts),
    ensures
        run(s, acts).wf(),
        run(s, acts).total_released >= s.total_released,
        run(s, acts).last_release_time >= s.last_release_time,
    decreases acts.len(),
{
    if acts.len() > 0 {
        let a = acts[0];
        assert(s.last_release_time <= time_of(acts[0]));
        lemma_step_keeps(s, a);
        let t = step(s, a);
        let rest = acts.drop_first();
        assert forall|k: int| 0 <= k < rest.len() implies t.last_release_time <= time_of(#[trigger] rest[k]) by {
            assert(rest[k] == acts[k + 1]);
            assert(time_of(acts[0]) <= time_of(acts[k + 1]));
        }
        assert forall|j: int, k: int| 0 <= j < k < rest.len() implies time_of(#[trigger] rest[j]) <= time_of(#[trigger] rest[k]) by {
            assert(rest[j] == acts[j + 1]);
            assert(rest[k] == acts[k + 1]);
        }
        lemma_monotone(t, rest);
    }
}

pub open spec fn is_resume(a: Action) -> bool {
    a is Resume
}

pub open spec fn is_withdrawal(a: Action) -> bool {
    a is Claim || a is Reclaim
}

/// No accrual while paused: whatever calls a paused stream receives before
/// it is resumed, it stays paused and releases nothing; resuming then keeps
/// its released total and buffer. Without claims or reclaims in between,
/// the buffer at resume is the buffer at pause.
pub proof fn lemma_no_accrual_while_paused(s: Stream, acts: Seq<Action>, caller: Seq<u8>, now: u64)
    requires
        s.status == StreamStatus::Paused,
        forall|k: int| 0 <= k < acts.len() ==> !is_resume(#[trigger] acts[k]),
    ensures
        run(s, acts).status == StreamStatus::Paused,
        run(s, acts).total_released == s.total_released,
        (forall|k: int| 0 <= k < acts.len() ==> !is_withdrawal(#[trigger] acts[k])) ==> run(s, acts).buffer == s.buffer,
        run(s, acts.push(Action::Resume { caller, now })).total_released == s.total_released,
        run(s, acts.push(Action::Resume { caller, now })).buffer == run(s, acts).buffer,
    decreases acts.len(),
{
    lemma_run_push(s, acts, Action::Resume { caller, now });
    if acts.len() > 0 {
        let rest = acts.drop_first();
        assert(!is_resume(acts[0]));
        assert forall|k: int| 0 <= k < rest.len() implies !is_resume(#[trigger] rest[k]) by {
            assert(rest[k] == acts[k + 1]);
        }
        lemma_no_accrual_while_paused(step(s, acts[0]), rest, caller, now);
        if forall|k: int| 0 <= k < acts.len() ==> !is_withdrawal(#[trigger] acts[k]) {
            assert(!is_withdrawal(acts[0]));
            assert forall|k: int| 0 <= k < rest.len() implies !is_withdrawal(#[trigger] rest[k]) by {
                assert(rest[k] == acts[k + 1]);
            }
        }
    }
}

proof fn lemma_run_push(s: Stream, acts: Seq<Action>, a: Action)
    ensures
        run(s, acts.push(a)) == step(run(s, acts), a),
    decreases acts.len(),
{
    if acts.len() > 0 {
        assert(acts.push(a).drop_first() =~= acts.drop_first().push(a));
        assert(acts.push(a)[0] == acts[0]);
        lemma_run_push(step(s, acts[0]), acts.drop_first(), a);
    } else {
        assert(acts.push(a)[0] == a);
        assert(acts.push(a).drop_first().len() == 0);
        assert(run(step(s, a), acts.push(a).drop_first()) == step(s, a));
    }
}

/// Idempotent milestone firing: over any number of evaluations of a stream,
/// a milestone fires at most once; never once it has fired; and exactly once
/// if it had not fired and some evaluation reached its trigger amount.
pub proof fn lemma_milestone_fires_once(m: Milestone, stream_id: u64, rels: Seq<u64>)
    ensures
        firings(m, stream_id, rels) <= 1,
        m.triggered ==> firings(m, stream_id, rels) == 0,
        !m.triggered && m.stream_id == stream_id && (exists|k: int|
            0 <= k < rels.len() && m.trigger_amount <= #[trigger] rels[k]) ==> firings(m, stream_id, rels) == 1,
    decreases rels.len(),
{
    if rels.len() > 0 {
        let m1 = m.evaluated(stream_id, rels[0]);
        let rest = rels.drop_first();
        lemma_milestone_fires_once(m1, stream_id, rest);
        if !m.triggered && m.stream_id == stream_id && (exists|k: int|
            0 <= k < rels.len() && m.trigger_amount <= #[trigger] rels[k]) {
            if !m.fires(stream_id, rels[0]) {
                let k = choose|k: int| 0 <= k < rels.len() && m.trigger_amount <= #[trigger] rels[k];
                assert(k > 0);
                assert(rest[k - 1] == rels[k]);
            }
        }
    }
}

/// Authorization: every call by someone other than the party it requires is
/// refused as unauthorized and leaves the stream as it was.
pub proof fn lemma_unauthorized_is_refused(s: Stream, caller: Seq<u8>, amount: u64, now: u64)
    ensures
        caller != s.sender@ ==> s.topped_up(caller, amount) == (Err::<(), StreamError>(StreamError::Unauthorized), s),
        caller != s.sender@ ==> s.paused(caller) == (Err::<(), StreamError>(StreamError::Unauthorized), s),
        caller != s.sender@ ==> s.resumed(caller, now) == (Err::<(), StreamError>(StreamError::Unauthorized), s),
        caller != s.sender@ ==> s.cancelled(caller).0 == Err::<crate::stream::CancelResult, StreamError>(StreamError::Unauthorized)
            && s.cancelled(caller).1 == s,
        caller != s.sender@ ==> s.reclaimed(caller, now) == (Err::<u64, StreamError>(StreamError::Unauthorized), s),
        caller != s.recipient@ ==> s.claimed(caller, now) == (Err::<u64, StreamError>(StreamError::Unauthorized), s),
{
}

} // verus!
