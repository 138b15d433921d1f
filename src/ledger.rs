//! The store of streams, milestones, notifications, templates and figures,
//! and the operations on it.

use vstd::prelude::*;
use crate::milestone::{Milestone, MilestoneAction, fired_notices};
use crate::notification::{Notification, NotificationType};
use crate::principal::PrincipalId;
use crate::stats::{StreamStats, UserStats};
use crate::stream::{CancelResult, Stream, StreamError, StreamStatus, sat_add};
use crate::template::StreamTemplate;
use crate::filter::StreamFilter;

verus! {

/// The elements of `xs` that `keep` accepts, in order.
pub open spec fn kept<T>(xs: Seq<T>, keep: spec_fn(T) -> bool) -> Seq<T>
    decreases xs.len(),
{
    if xs.len() == 0 {
        Seq::empty()
    } else {
        let before = kept(xs.drop_last(), keep);
        if keep(xs.last()) {
            before.push(xs.last())
        } else {
            before
        }
    }
}

/// Whether `user` is a party to `s`.
pub open spec fn involves(s: Stream, user: Seq<u8>) -> bool {
    s.sender@ == user || s.recipient@ == user
}

/// The authoritative store: every stream ever created (its id is its
/// position), the milestones attached to them, the notifications emitted,
/// the templates, and the statistics.
pub struct Ledger {
    streams: Vec<Stream>,
    milestones: Vec<Milestone>,
    notifications: Vec<Notification>,
    templates: Vec<StreamTemplate>,
    global_stats: StreamStats,
    user_stats: Vec<UserStats>,
    clock: u64,
    withdrawn: Ghost<Seq<int>>,
}

impl Ledger {
    pub closed spec fn streams(&self) -> Seq<Stream> {
        self.streams@
    }

    pub closed spec fn milestones(&self) -> Seq<Milestone> {
        self.milestones@
    }

    pub closed spec fn notifications(&self) -> Seq<Notification> {
        self.notifications@
    }

    pub closed spec fn templates(&self) -> Seq<StreamTemplate> {
        self.templates@
    }

    pub closed spec fn global_stats(&self) -> StreamStats {
        self.global_stats
    }

    pub closed spec fn user_stats(&self) -> Seq<UserStats> {
        self.user_stats@
    }

    /// The latest time the ledger has been told of.
    pub closed spec fn clock(&self) -> u64 {
        self.clock
    }

    /// For each stream, the cumulative amount claimed or reclaimed from it.
    pub closed spec fn withdrawn(&self) -> Seq<int> {
        self.withdrawn@
    }

    /// Stream `i` is sound: its own invariant holds, its id is its position,
    /// its times do not run ahead of the clock, and what has left its buffer
    /// is exactly what was withdrawn.
    pub open spec fn stream_ok(&self, i: int) -> bool {
        let s = self.streams()[i];
        &&& s.wf()
        &&& s.id == i
        &&& s.last_release_time <= self.clock()
        &&& s.last_claim_time <= self.clock()
        &&& s.total_released - s.buffer == self.withdrawn()[i]
    }

    pub open spec fn wf(&self) -> bool {
        &&& self.withdrawn().len() == self.streams().len()
        &&& forall|i: int| 0 <= i < self.streams().len() ==> #[trigger] self.stream_ok(i)
        &&& forall|j: int|
            0 <= j < self.milestones().len() ==> (#[trigger] self.milestones()[j]).id == j
        &&& forall|k: int|
            0 <= k < self.notifications().len() ==> (#[trigger] self.notifications()[k]).id == k
        &&& forall|t: int| 0 <= t < self.templates().len() ==> (#[trigger] self.templates()[t]).id == t
        &&& forall|a: int, b: int|
            0 <= a < b < self.user_stats().len() ==> (#[trigger] self.user_stats()[a]).user@
                != (#[trigger] self.user_stats()[b]).user@
    }

    /// Everything but the streams and the withdrawals is as in `o`.
    pub open spec fn same_tables(&self, o: &Ledger) -> bool {
        &&& self.milestones() == o.milestones()
        &&& self.notifications() == o.notifications()
        &&& self.templates() == o.templates()
        &&& self.global_stats() == o.global_stats()
        &&& self.user_stats() == o.user_stats()
    }

    /// Replacing one sound stream, on a clock that has not gone back, keeps
    /// the ledger well formed.
    proof fn lemma_one_stream_changed(before: Ledger, after: Ledger, id: int)
        requires
            before.wf(),
            0 <= id < before.streams().len(),
            after.streams() == before.streams().update(id, after.streams()[id]),
            after.same_tables(&before),
            after.withdrawn().len() == before.withdrawn().len(),
            forall|i: int| 0 <= i < before.streams().len() && i != id ==> after.withdrawn()[i] == before.withdrawn()[i],
            before.clock() <= after.clock(),
            after.stream_ok(id),
        ensures
            after.wf(),
    {
        assert forall|i: int| 0 <= i < after.streams().len() implies #[trigger] after.stream_ok(i) by {
            if i != id {
                assert(before.stream_ok(i));
            }
        }
    }

    pub fn new() -> (r: Ledger)
        ensures
            r.wf(),
            r.streams().len() == 0,
            r.milestones().len() == 0,
            r.notifications().len() == 0,
            r.templates().len() == 0,
            r.user_stats().len() == 0,
            r.global_stats() == StreamStats::zero_spec(),
            r.clock() == 0,
    {
        Ledger {
            streams: Vec::new(),
            milestones: Vec::new(),
            notifications: Vec::new(),
            templates: Vec::new(),
            global_stats: StreamStats::zero(),
            user_stats: Vec::new(),
            clock: 0,
            withdrawn: Ghost(Seq::empty()),
        }
    }

    pub fn current_time(&self) -> (r: u64)
        ensures
            r == self.clock(),
    {
        self.clock
    }

    pub fn stream_count(&self) -> (r: u64)
        ensures
            r == self.streams().len(),
    {
        self.streams.len() as u64
    }

    /// Lifts a stream-level operation's outcome to the ledger: only stream
    /// `id` changes, to `s`.
    pub open spec fn applied(&self, o: &Ledger, id: int, s: Stream, now: u64) -> bool {
        &&& self.streams() == o.streams().update(id, s)
        &&& self.same_tables(o)
        &&& self.clock() == now
    }

    pub fn top_up_stream(&mut self, stream_id: u64, caller: &PrincipalId, amount: u64) -> (r: Result<(), StreamError>)
        requires
            old(self).wf(),
        ensures
            final(self).wf(),
            stream_id >= old(self).streams().len() ==> r == Err::<(), StreamError>(StreamError::NotFound)
                && *final(self) == *old(self),
            stream_id < old(self).streams().len() ==> {
                let (res, s) = old(self).streams()[stream_id as int].topped_up(caller@, amount);
                &&& r == res
                &&& final(self).applied(old(self), stream_id as int, s, old(self).clock())
                &&& final(self).withdrawn() == old(self).withdrawn()
            },
    {
        if stream_id >= self.streams.len() as u64 {
            return Err(StreamError::NotFound);
        }
        let ghost before = *self;
        assert(self.stream_ok(stream_id as int));
        let r = self.streams[stream_id as usize].top_up(caller, amount);
        proof {
            Ledger::lemma_one_stream_changed(before, *self, stream_id as int);
        }
        r
    }

    /// Pauses a stream: no accrual until it is resumed.
    pub fn pause_stream(&mut self, stream_id: u64, caller: &PrincipalId) -> (r: Result<(), StreamError>)
        requires
            old(self).wf(),
        ensures
            final(self).wf(),
            stream_id >= old(self).streams().len() ==> r == Err::<(), StreamError>(StreamError::NotFound)
                && *final(self) == *old(self),
            stream_id < old(self).streams().len() ==> {
                let (res, s) = old(self).streams()[stream_id as int].paused(caller@);
                &&& r == res
                &&& final(self).applied(old(self), stream_id as int, s, old(self).clock())
                &&& final(self).withdrawn() == old(self).withdrawn()
            },
    {
        if stream_id >= self.streams.len() as u64 {
            return Err(StreamError::NotFound);
        }
        let ghost before = *self;
        assert(self.stream_ok(stream_id as int));
        let r = self.streams[stream_id as usize].pause(caller);
        proof {
            Ledger::lemma_one_stream_changed(before, *self, stream_id as int);
        }
        r
    }

    /// Resumes a paused stream; accrual restarts from `now`.
    pub fn resume_stream(&mut self, stream_id: u64, caller: &PrincipalId, now: u64) -> (r: Result<(), StreamError>)
        requires
            old(self).wf(),
            old(self).clock() <= now,
        ensures
            final(self).wf(),
            stream_id >= old(self).streams().len() ==> r == Err::<(), StreamError>(StreamError::NotFound)
                && *final(self) == *old(self),
            stream_id < old(self).streams().len() ==> {
                let (res, s) = old(self).streams()[stream_id as int].resumed(caller@, now);
                &&& r == res
                &&& final(self).applied(old(self), stream_id as int, s, now)
                &&& final(self).withdrawn() == old(self).withdrawn()
            },
    {
        if stream_id >= self.streams.len() as u64 {
            return Err(StreamError::NotFound);
        }
        let ghost before = *self;
        assert(self.stream_ok(stream_id as int));
        self.clock = now;
        let r = self.streams[stream_id as usize].resume(caller, now);
        proof {
            Ledger::lemma_one_stream_changed(before, *self, stream_id as int);
        }
        r
    }

    /// Cancels an active stream and reports what to refund and the fee.
    pub fn cancel_stream(&mut self, stream_id: u64, caller: &PrincipalId) -> (r: Result<CancelResult, StreamError>)
        requires
            old(self).wf(),
        ensures
            final(self).wf(),
            stream_id >= old(self).streams().len() ==> r == Err::<CancelResult, StreamError>(StreamError::NotFound)
                && *final(self) == *old(self),
            stream_id < old(self).streams().len() ==> {
                let (res, s) = old(self).streams()[stream_id as int].cancelled(caller@);
                &&& r == res
                &&& final(self).applied(old(self), stream_id as int, s, old(self).clock())
                &&& final(self).withdrawn() == old(self).withdrawn()
            },
    {
        if stream_id >= self.streams.len() as u64 {
            return Err(StreamError::NotFound);
        }
        let ghost before = *self;
        assert(self.stream_ok(stream_id as int));
        let r = self.streams[stream_id as usize].cancel(caller);
        proof {
            Ledger::lemma_one_stream_changed(before, *self, stream_id as int);
        }
        r
    }

    /// Pays the recipient the whole buffer.
    pub fn claim_stream(&mut self, stream_id: u64, caller: &PrincipalId, now: u64) -> (r: Result<u64, StreamError>)
        requires
            old(self).wf(),
            old(self).clock() <= now,
        ensures
            final(self).wf(),
            stream_id >= old(self).streams().len() ==> r == Err::<u64, StreamError>(StreamError::NotFound)
                && *final(self) == *old(self),
            stream_id < old(self).streams().len() ==> {
                let (res, s) = old(self).streams()[stream_id as int].claimed(caller@, now);
                &&& r == res
                &&& final(self).applied(old(self), stream_id as int, s, now)
                &&& final(self).withdrawn() == (match r {
                    Ok(amount) => old(self).withdrawn().update(stream_id as int, old(self).withdrawn()[stream_id as int] + amount),
                    Err(_) => old(self).withdrawn(),
                })
            },
    {
        if stream_id >= self.streams.len() as u64 {
            return Err(StreamError::NotFound);
        }
        let ghost before = *self;
        assert(self.stream_ok(stream_id as int));
        self.clock = now;
        let r = self.streams[stream_id as usize].claim(caller, now);
        if let Ok(amount) = r {
            self.withdrawn = Ghost(self.withdrawn@.update(stream_id as int, self.withdrawn@[stream_id as int] + amount));
        }
        proof {
            Ledger::lemma_one_stream_changed(before, *self, stream_id as int);
        }
        r
    }

    /// Returns an unclaimed buffer to the sender after the grace period.
    pub fn reclaim_unclaimed(&mut self, stream_id: u64, caller: &PrincipalId, now: u64) -> (r: Result<u64, StreamError>)
        requires
            old(self).wf(),
            old(self).clock() <= now,
        ensures
            final(self).wf(),
            stream_id >= old(self).streams().len() ==> r == Err::<u64, StreamError>(StreamError::NotFound)
                && *final(self) == *old(self),
            stream_id < old(self).streams().len() ==> {
                let (res, s) = old(self).streams()[stream_id as int].reclaimed(caller@, now);
                &&& r == res
                &&& final(self).applied(old(self), stream_id as int, s, now)
                &&& final(self).withdrawn() == (match r {
                    Ok(amount) => old(self).withdrawn().update(stream_id as int, old(self).withdrawn()[stream_id as int] + amount),
                    Err(_) => old(self).withdrawn(),
                })
            },
    {
        if stream_id >= self.streams.len() as u64 {
            return Err(StreamError::NotFound);
        }
        let ghost before = *self;
        assert(self.stream_ok(stream_id as int));
        self.clock = now;
        let r = self.streams[stream_id as usize].reclaim(caller, now);
        if let Ok(amount) = r {
            self.withdrawn = Ghost(self.withdrawn@.update(stream_id as int, self.withdrawn@[stream_id as int] + amount));
        }
        proof {
            Ledger::lemma_one_stream_changed(before, *self, stream_id as int);
        }
        r
    }

    /// The position of `p`'s statistics, or -1 when there are none.
    pub open spec fn user_slot(us: Seq<UserStats>, p: Seq<u8>) -> int {
        if exists|k: int| 0 <= k < us.len() && (#[trigger] us[k]).user@ == p {
            choose|k: int| 0 <= k < us.len() && (#[trigger] us[k]).user@ == p
        } else {
            -1
        }
    }

    /// `after` is `before` with `p`'s statistics recording one more stream
    /// of `locked` sent; a first stream adds an entry at the end.
    pub open spec fn user_stats_bumped(before: Seq<UserStats>, after: Seq<UserStats>, p: Seq<u8>, locked: u64) -> bool {
        let k = Ledger::user_slot(before, p);
        let at = if k < 0 { before.len() as int } else { k };
        let e = after[at];
        &&& after.len() == if k < 0 { before.len() + 1 } else { before.len() + 0 }
        &&& forall|i: int| 0 <= i < before.len() && i != k ==> #[trigger] after[i] == before[i]
        &&& e.user@ == p
        &&& e.streams_created == sat_add(if k < 0 { 0 } else { before[k].streams_created as int }, 1)
        &&& e.total_sent == sat_add(if k < 0 { 0 } else { before[k].total_sent as int }, locked as int)
        &&& e.streams_received == if k < 0 { 0 } else { before[k].streams_received }
        &&& e.total_received == if k < 0 { 0 } else { before[k].total_received }
        &&& e.total_fees_paid == if k < 0 { 0 } else { before[k].total_fees_paid }
        &&& e.avg_stream_size == e.total_sent / e.streams_created
    }

    /// The aggregate figures after one more stream of `locked` over `duration`.
    pub open spec fn global_bumped(g: StreamStats, locked: u64, duration: u64) -> StreamStats {
        StreamStats {
            total_streams_created: sat_add(g.total_streams_created as int, 1) as u64,
            total_volume_locked: sat_add(g.total_volume_locked as int, locked as int) as u64,
            active_streams: sat_add(g.active_streams as int, 1) as u64,
            average_stream_duration: ((g.average_stream_duration + duration) / 2) as u64,
            ..g
        }
    }

    fn update_stats_on_create(&mut self, sender: &PrincipalId, total_locked: u64, duration: u64)
        requires
            old(self).wf(),
        ensures
            final(self).wf(),
            final(self).streams() == old(self).streams(),
            final(self).withdrawn() == old(self).withdrawn(),
            final(self).clock() == old(self).clock(),
            final(self).milestones() == old(self).milestones(),
            final(self).notifications() == old(self).notifications(),
            final(self).templates() == old(self).templates(),
            final(self).global_stats() == Ledger::global_bumped(old(self).global_stats(), total_locked, duration),
            Ledger::user_stats_bumped(old(self).user_stats(), final(self).user_stats(), sender@, total_locked),
    {
        let g = self.global_stats;
        let avg = g.average_stream_duration;
        self.global_stats = StreamStats {
            total_streams_created: g.total_streams_created.saturating_add(1),
            total_volume_locked: g.total_volume_locked.saturating_add(total_locked),
            active_streams: g.active_streams.saturating_add(1),
            average_stream_duration: avg / 2 + duration / 2 + (avg % 2 + duration % 2) / 2,
            ..g
        };
        let ghost before = self.user_stats@;
        let mut k: usize = 0;
        let mut found = false;
        while k < self.user_stats.len() && !found
            invariant
                k <= self.user_stats@.len(),
                self.user_stats@ == before,
                found ==> k < before.len() && before[k as int].user@ == sender@,
                !found ==> forall|i: int| 0 <= i < k ==> (#[trigger] before[i]).user@ != sender@,
            decreases self.user_stats@.len() - k + if found { 0int } else { 1int },
        {
            if self.user_stats[k].user.same_as(sender) {
                found = true;
            } else {
                k = k + 1;
            }
        }
        if found {
            proof {
                let c = Ledger::user_slot(before, sender@);
                assert(0 <= c < before.len() && before[c].user@ == sender@);
                let us = old(self).user_stats();
                assert(us == before);
                if c < k {
                    assert(us[c].user@ != us[k as int].user@);
                } else if c > k {
                    assert(us[k as int].user@ != us[c].user@);
                }
            }
            let entry = &mut self.user_stats[k];
            entry.streams_created = entry.streams_created.saturating_add(1);
            entry.total_sent = entry.total_sent.saturating_add(total_locked);
            entry.avg_stream_size = entry.total_sent / entry.streams_created;
            proof {
                let us = old(self).user_stats();
                assert forall|a: int, b: int|
                    0 <= a < b < self.user_stats().len() implies (#[trigger] self.user_stats()[a]).user@
                        != (#[trigger] self.user_stats()[b]).user@ by {
                    assert(self.user_stats()[a].user@ == us[a].user@);
                    assert(self.user_stats()[b].user@ == us[b].user@);
                    assert(us[a].user@ != us[b].user@);
                }
                assert(Ledger::user_slot(us, sender@) == k);
                assert(self.user_stats()[k as int].user@ == sender@);
                assert(self.user_stats()[k as int].streams_created == sat_add(us[k as int].streams_created as int, 1));
                assert(self.user_stats()[k as int].total_sent == sat_add(us[k as int].total_sent as int, total_locked as int));
                assert(forall|i: int| 0 <= i < us.len() && i != k ==> #[trigger] self.user_stats()[i] == us[i]);
                assert(Ledger::user_stats_bumped(us, self.user_stats(), sender@, total_locked));
            }
        } else {
            proof {
                assert(Ledger::user_slot(before, sender@) == -1);
            }
            self.user_stats.push(UserStats {
                user: sender.duplicate(),
                streams_created: 1,
                streams_received: 0,
                total_sent: total_locked,
                total_received: 0,
                total_fees_paid: 0,
                avg_stream_size: total_locked,
            });
            proof {
                let us = old(self).user_stats();
                assert forall|a: int, b: int|
                    0 <= a < b < self.user_stats().len() implies (#[trigger] self.user_stats()[a]).user@
                        != (#[trigger] self.user_stats()[b]).user@ by {
                    assert(self.user_stats()[a] == us[a]);
                    if b < us.len() {
                        assert(self.user_stats()[b] == us[b]);
                        assert(us[a].user@ != us[b].user@);
                    } else {
                        assert(before[a].user@ != sender@);
                    }
                }
                assert(Ledger::user_slot(us, sender@) == -1);
                assert(Ledger::user_stats_bumped(us, self.user_stats(), sender@, total_locked));
            }
        }
        proof {
            assert forall|i: int| 0 <= i < self.streams().len() implies #[trigger] self.stream_ok(i) by {
                assert(old(self).stream_ok(i));
            }
            assert(self.templates() == old(self).templates());
            assert(self.milestones() == old(self).milestones());
            assert(self.notifications() == old(self).notifications());
        }
    }

    /// Records a notification for `user`, stamped with the ledger's clock.
    fn push_notification(&mut self, user: PrincipalId, stream_id: u64, notification_type: NotificationType, message: String)
        requires
            old(self).wf(),
        ensures
            final(self).wf(),
            final(self).streams() == old(self).streams(),
            final(self).withdrawn() == old(self).withdrawn(),
            final(self).clock() == old(self).clock(),
            final(self).milestones() == old(self).milestones(),
            final(self).templates() == old(self).templates(),
            final(self).global_stats() == old(self).global_stats(),
            final(self).user_stats() == old(self).user_stats(),
            final(self).notifications() == old(self).notifications().push(
                Notification {
                    id: old(self).notifications().len() as u64,
                    user,
                    stream_id,
                    notification_type,
                    message,
                    timestamp: old(self).clock(),
                    read: false,
                },
            ),
    {
        let id = self.notifications.len() as u64;
        self.notifications.push(
            Notification {
                id,
                user,
                stream_id,
                notification_type,
                message,
                timestamp: self.clock,
                read: false,
            },
        );
        proof {
            assert forall|i: int| 0 <= i < self.streams().len() implies #[trigger] self.stream_ok(i) by {
                assert(old(self).stream_ok(i));
            }
            assert forall|j: int| 0 <= j < self.notifications().len() implies (#[trigger] self.notifications()[j]).id == j by {
                if j < id {
                    assert(old(self).notifications()[j] == self.notifications()[j]);
                }
            }
            assert(self.templates() == old(self).templates());
            assert(self.user_stats() == old(self).user_stats());
        }
    }

    /// `s` is the stream that a create call at `now` records under `id`.
    pub open spec fn opened(
        s: Stream,
        id: u64,
        sender: Seq<u8>,
        recipient: Seq<u8>,
        sats_per_sec: u64,
        duration_secs: u64,
        total_locked: u64,
        now: u64,
    ) -> bool {
        &&& s.id == id
        &&& s.sender@ == sender
        &&& s.recipient@ == recipient
        &&& s.sats_per_sec == sats_per_sec
        &&& s.start_time == now
        &&& s.end_time == sat_add(now as int, duration_secs as int)
        &&& s.total_locked == total_locked
        &&& s.total_released == 0
        &&& s.buffer == 0
        &&& s.last_release_time == now
        &&& s.last_claim_time == now
        &&& s.status == StreamStatus::Active
        &&& s.metadata@.len() == 0
    }

    /// Notification `n` is the `k`-th one, sent at `now` to `user` about
    /// stream `stream_id`.
    pub open spec fn notice(n: Notification, k: int, user: Seq<u8>, stream_id: u64, kind: NotificationType, now: u64) -> bool {
        &&& n.id == k
        &&& n.user@ == user
        &&& n.stream_id == stream_id
        &&& n.notification_type == kind
        &&& n.timestamp == now
        &&& !n.read
    }

    /// Opens a new active stream starting at `now` and returns its id. The
    /// sender is told, and the statistics count it.
    pub fn create_stream(
        &mut self,
        sender: PrincipalId,
        recipient: PrincipalId,
        sats_per_sec: u64,
        duration_secs: u64,
        total_locked: u64,
        title: Option<String>,
        description: Option<String>,
        tags: Vec<String>,
        now: u64,
    ) -> (id: u64)
        requires
            old(self).wf(),
            old(self).clock() <= now,
        ensures
            final(self).wf(),
            id == old(self).streams().len(),
            final(self).streams().len() == old(self).streams().len() + 1,
            forall|i: int| 0 <= i < id ==> #[trigger] final(self).streams()[i] == old(self).streams()[i],
            Ledger::opened(final(self).streams()[id as int], id, sender@, recipient@, sats_per_sec, duration_secs, total_locked, now),
            final(self).streams()[id as int].title == title,
            final(self).streams()[id as int].description == description,
            final(self).streams()[id as int].tags == tags,
            final(self).withdrawn() == old(self).withdrawn().push(0),
            final(self).clock() == now,
            final(self).milestones() == old(self).milestones(),
            final(self).templates() == old(self).templates(),
            final(self).global_stats() == Ledger::global_bumped(old(self).global_stats(), total_locked, duration_secs),
            Ledger::user_stats_bumped(old(self).user_stats(), final(self).user_stats(), sender@, total_locked),
            final(self).notifications().len() == old(self).notifications().len() + 1,
            final(self).notifications().drop_last() == old(self).notifications(),
            Ledger::notice(final(self).notifications().last(), old(self).notifications().len() as int, sender@, id, NotificationType::StreamCreated, now),
            final(self).notifications().last().message@ == "Stream created successfully"@,
    {
        self.clock = now;
        let id = self.streams.len() as u64;
        let end_time = now.saturating_add(duration_secs);
        let notify_to = sender.duplicate();
        let stats_for = sender.duplicate();
        let stream = Stream {
            id,
            sender,
            recipient,
            sats_per_sec,
            start_time: now,
            end_time,
            total_locked,
            total_released: 0,
            last_release_time: now,
            buffer: 0,
            status: StreamStatus::Active,
            last_claim_time: now,
            title,
            description,
            tags,
            metadata: Vec::new(),
        };
        self.streams.push(stream);
        self.withdrawn = Ghost(self.withdrawn@.push(0));
        proof {
            assert forall|i: int| 0 <= i < self.streams().len() implies #[trigger] self.stream_ok(i) by {
                if i < id {
                    assert(old(self).stream_ok(i));
                    assert(self.streams()[i] == old(self).streams()[i]);
                }
            }
            assert(self.templates() == old(self).templates());
            assert(self.milestones() == old(self).milestones());
            assert(self.notifications() == old(self).notifications());
            assert(self.user_stats() == old(self).user_stats());
        }
        self.update_stats_on_create(&stats_for, total_locked, duration_secs);
        let message = "Stream created successfully".to_string();
        proof {
            reveal_strlit("Stream created successfully");
        }
        self.push_notification(notify_to, id, NotificationType::StreamCreated, message);
        id
    }

    /// Attaches a one-shot milestone to stream `stream_id` and returns its id.
    /// Anyone may attach one, and the stream need not exist.
    pub fn add_milestone(&mut self, stream_id: u64, trigger_amount: u64, action: MilestoneAction, creator: PrincipalId) -> (id: u64)
        requires
            old(self).wf(),
        ensures
            final(self).wf(),
            id == old(self).milestones().len(),
            final(self).milestones() == old(self).milestones().push(
                Milestone { id, stream_id, trigger_amount, action, triggered: false, created_by: creator },
            ),
            final(self).streams() == old(self).streams(),
            final(self).withdrawn() == old(self).withdrawn(),
            final(self).clock() == old(self).clock(),
            final(self).notifications() == old(self).notifications(),
            final(self).templates() == old(self).templates(),
            final(self).global_stats() == old(self).global_stats(),
            final(self).user_stats() == old(self).user_stats(),
    {
        let id = self.milestones.len() as u64;
        self.milestones.push(Milestone { id, stream_id, trigger_amount, action, triggered: false, created_by: creator });
        proof {
            assert forall|i: int| 0 <= i < self.streams().len() implies #[trigger] self.stream_ok(i) by {
                assert(old(self).stream_ok(i));
            }
            assert forall|j: int| 0 <= j < self.milestones().len() implies (#[trigger] self.milestones()[j]).id == j by {
                if j < id {
                    assert(old(self).milestones()[j] == self.milestones()[j]);
                }
            }
            assert(self.templates() == old(self).templates());
            assert(self.user_stats() == old(self).user_stats());
            assert(self.notifications() == old(self).notifications());
        }
        id
    }

    /// Notifications `from..` of `ns` are those of `fired`, in order, for
    /// stream `stream_id` at `now`.
    pub open spec fn notices_sent(ns: Seq<Notification>, from: int, fired: Seq<Milestone>, stream_id: u64, now: u64) -> bool {
        &&& ns.len() == from + fired.len()
        &&& forall|k: int|
            0 <= k < fired.len() ==> {
                let n = #[trigger] ns[from + k];
                &&& Ledger::notice(n, from + k, fired[k].created_by@, stream_id, NotificationType::StreamCreated, now)
                &&& fired[k].action matches MilestoneAction::SendNotification(msg) && n.message == msg
            }
    }

    /// Fires every untriggered milestone of stream `stream_id` whose trigger
    /// amount `current_released` has reached, in id order. Each fires once:
    /// its latch is set and never cleared. A notification milestone tells its
    /// creator; the other actions are not supported yet and only latch.
    pub fn check_and_execute_milestones(&mut self, stream_id: u64, current_released: u64)
        requires
            old(self).wf(),
        ensures
            final(self).wf(),
            final(self).milestones().len() == old(self).milestones().len(),
            forall|j: int|
                0 <= j < old(self).milestones().len() ==> #[trigger] final(self).milestones()[j]
                    == old(self).milestones()[j].evaluated(stream_id, current_released),
            final(self).notifications().subrange(0, old(self).notifications().len() as int)
                == old(self).notifications(),
            Ledger::notices_sent(
                final(self).notifications(),
                old(self).notifications().len() as int,
                fired_notices(old(self).milestones(), stream_id, current_released),
                stream_id,
                old(self).clock(),
            ),
            final(self).streams() == old(self).streams(),
            final(self).withdrawn() == old(self).withdrawn(),
            final(self).clock() == old(self).clock(),
            final(self).templates() == old(self).templates(),
            final(self).global_stats() == old(self).global_stats(),
            final(self).user_stats() == old(self).user_stats(),
    {
        let ghost ms0 = old(self).milestones();
        let ghost ns0 = old(self).notifications();
        let n = self.milestones.len();
        let mut j: usize = 0;
        while j < n
            invariant
                self.wf(),
                0 <= j <= n,
                n == ms0.len(),
                self.milestones().len() == n,
                forall|i: int| 0 <= i < j ==> #[trigger] self.milestones()[i] == ms0[i].evaluated(stream_id, current_released),
                forall|i: int| j <= i < n ==> #[trigger] self.milestones()[i] == ms0[i],
                self.notifications().subrange(0, ns0.len() as int) == ns0,
                Ledger::notices_sent(
                    self.notifications(),
                    ns0.len() as int,
                    fired_notices(ms0.subrange(0, j as int), stream_id, current_released),
                    stream_id,
                    old(self).clock(),
                ),
                self.streams() == old(self).streams(),
                self.withdrawn() == old(self).withdrawn(),
                self.clock() == old(self).clock(),
                self.templates() == old(self).templates(),
                self.global_stats() == old(self).global_stats(),
                self.user_stats() == old(self).user_stats(),
            decreases n - j,
        {
            proof {
                assert(ms0.subrange(0, j as int + 1).drop_last() =~= ms0.subrange(0, j as int));
                assert(ms0.subrange(0, j as int + 1).last() == ms0[j as int]);
            }
            let ghost ns_before = self.notifications();
            let fires = {
                let m = &self.milestones[j];
                m.stream_id == stream_id && !m.triggered && current_released >= m.trigger_amount
            };
            if fires {
                let ghost before = *self;
                let note = {
                    let m = &mut self.milestones[j];
                    m.triggered = true;
                    match &m.action {
                        MilestoneAction::SendNotification(msg) => Some((m.created_by.duplicate(), msg.clone())),
                        _ => None,
                    }
                };
                proof {
                    assert forall|i: int| 0 <= i < self.streams().len() implies #[trigger] self.stream_ok(i) by {
                        assert(before.stream_ok(i));
                    }
                    assert forall|i: int| 0 <= i < self.milestones().len() implies (#[trigger] self.milestones()[i]).id == i by {
                        assert(before.milestones()[i].id == i);
                    }
                    assert(self.templates() == before.templates());
                    assert(self.user_stats() == before.user_stats());
                    assert(self.notifications() == before.notifications());
                }
                if let Some((user, msg)) = note {
                    self.push_notification(user, stream_id, NotificationType::StreamCreated, msg);
                }
            }
            proof {
                let f0 = fired_notices(ms0.subrange(0, j as int), stream_id, current_released);
                let f1 = fired_notices(ms0.subrange(0, j as int + 1), stream_id, current_released);
                assert(self.notifications().subrange(0, ns0.len() as int) =~= ns0) by {
                    assert forall|k: int| 0 <= k < ns0.len() implies self.notifications()[k] == ns_before[k] by {}
                }
                assert forall|k: int| 0 <= k < f0.len() implies #[trigger] self.notifications()[ns0.len() + k] == ns_before[ns0.len() + k] by {}
                assert(Ledger::notices_sent(self.notifications(), ns0.len() as int, f1, stream_id, old(self).clock())) by {
                    assert forall|k: int| 0 <= k < f1.len() implies {
                        let n = #[trigger] self.notifications()[ns0.len() + k];
                        &&& Ledger::notice(n, ns0.len() + k, f1[k].created_by@, stream_id, NotificationType::StreamCreated, old(self).clock())
                        &&& f1[k].action matches MilestoneAction::SendNotification(msg) && n.message == msg
                    } by {
                        if k < f0.len() {
                            assert(f1[k] == f0[k]);
                            assert(self.notifications()[ns0.len() + k] == ns_before[ns0.len() + k]);
                        }
                    }
                }
            }
            j = j + 1;
        }
        proof {
            assert(ms0.subrange(0, n as int) =~= ms0);
        }
    }

    /// Milestone `m` after a tick at `now` has gone through streams `..upto`
    /// of `ss`: it is evaluated if its stream moved forward.
    pub open spec fn ticked(m: Milestone, ss: Seq<Stream>, now: u64, upto: int) -> Milestone {
        let sid = m.stream_id as int;
        if sid < upto && sid < ss.len() && ss[sid].accrues_at(now) {
            m.evaluated(m.stream_id, ss[sid].accrued(now).total_released)
        } else {
            m
        }
    }

    /// Notifications `from..` of `ns` tell both parties, `a` and `b`, that
    /// stream `id` completed at `now`.
    pub open spec fn completion_told(ns: Seq<Notification>, from: int, id: u64, a: Seq<u8>, b: Seq<u8>, now: u64) -> bool {
        &&& exists|k: int|
            from <= k < ns.len() && Ledger::notice(#[trigger] ns[k], k, a, id, NotificationType::StreamCompleted, now)
        &&& exists|k: int|
            from <= k < ns.len() && Ledger::notice(#[trigger] ns[k], k, b, id, NotificationType::StreamCompleted, now)
    }

    proof fn lemma_told_kept(na: Seq<Notification>, nb: Seq<Notification>, from: int, id: u64, a: Seq<u8>, b: Seq<u8>, now: u64)
        requires
            Ledger::completion_told(na, from, id, a, b, now),
            na.len() <= nb.len(),
            nb.subrange(0, na.len() as int) == na,
        ensures
            Ledger::completion_told(nb, from, id, a, b, now),
    {
        let k1 = choose|k: int|
            from <= k < na.len() && Ledger::notice(#[trigger] na[k], k, a, id, NotificationType::StreamCompleted, now);
        let k2 = choose|k: int|
            from <= k < na.len() && Ledger::notice(#[trigger] na[k], k, b, id, NotificationType::StreamCompleted, now);
        assert(nb[k1] == nb.subrange(0, na.len() as int)[k1]);
        assert(nb[k2] == nb.subrange(0, na.len() as int)[k2]);
    }

    /// One accrual pass at `now` over every stream: each active stream
    /// releases what has accrued since its last release (capped by what is
    /// locked), its milestones are evaluated, and a stream that has released
    /// everything or reached its end completes, with both parties told.
    pub fn tick(&mut self, now: u64)
        requires
            old(self).wf(),
            old(self).clock() <= now,
        ensures
            final(self).wf(),
            final(self).clock() == now,
            final(self).streams().len() == old(self).streams().len(),
            forall|i: int|
                0 <= i < old(self).streams().len() ==> #[trigger] final(self).streams()[i]
                    == old(self).streams()[i].accrued(now),
            final(self).withdrawn() == old(self).withdrawn(),
            final(self).milestones().len() == old(self).milestones().len(),
            forall|j: int|
                0 <= j < old(self).milestones().len() ==> #[trigger] final(self).milestones()[j]
                    == Ledger::ticked(old(self).milestones()[j], old(self).streams(), now, old(self).streams().len() as int),
            final(self).notifications().subrange(0, old(self).notifications().len() as int)
                == old(self).notifications(),
            forall|k: int|
                old(self).notifications().len() <= k < final(self).notifications().len() ==> (#[trigger] final(self).notifications()[k]).timestamp == now
                    && !final(self).notifications()[k].read,
            forall|i: int|
                0 <= i < old(self).streams().len() && old(self).streams()[i].accrues_at(now)
                    && (#[trigger] old(self).streams()[i].accrued(now)).status == StreamStatus::Completed
                    ==> Ledger::completion_told(
                    final(self).notifications(),
                    old(self).notifications().len() as int,
                    i as u64,
                    old(self).streams()[i].sender@,
                    old(self).streams()[i].recipient@,
                    now,
                ),
            final(self).templates() == old(self).templates(),
            final(self).global_stats() == old(self).global_stats(),
            final(self).user_stats() == old(self).user_stats(),
    {
        let ghost s0 = old(self).streams();
        let ghost m0 = old(self).milestones();
        let ghost ns0 = old(self).notifications();
        self.clock = now;
        proof {
            assert forall|i: int| 0 <= i < self.streams().len() implies #[trigger] self.stream_ok(i) by {
                assert(old(self).stream_ok(i));
            }
            assert(self.templates() == old(self).templates());
            assert(self.milestones() == old(self).milestones());
            assert(self.notifications() == old(self).notifications());
            assert(self.user_stats() == old(self).user_stats());
        }
        let n = self.streams.len();
        let mut i: usize = 0;
        while i < n
            invariant
                self.wf(),
                0 <= i <= n,
                n == s0.len(),
                self.clock() == now,
                self.streams().len() == n,
                forall|k: int| 0 <= k < i ==> #[trigger] self.streams()[k] == s0[k].accrued(now),
                forall|k: int| i <= k < n ==> #[trigger] self.streams()[k] == s0[k],
                self.withdrawn() == old(self).withdrawn(),
                self.milestones().len() == m0.len(),
                forall|j: int|
                    0 <= j < m0.len() ==> #[trigger] self.milestones()[j] == Ledger::ticked(m0[j], s0, now, i as int),
                ns0.len() <= self.notifications().len(),
                self.notifications().subrange(0, ns0.len() as int) == ns0,
                forall|k: int|
                    ns0.len() <= k < self.notifications().len() ==> (#[trigger] self.notifications()[k]).timestamp
                        == now && !self.notifications()[k].read,
                forall|k: int|
                    0 <= k < i && s0[k].accrues_at(now) && (#[trigger] s0[k].accrued(now)).status
                        == StreamStatus::Completed ==> Ledger::completion_told(
                        self.notifications(),
                        ns0.len() as int,
                        k as u64,
                        s0[k].sender@,
                        s0[k].recipient@,
                        now,
                    ),
                self.templates() == old(self).templates(),
                self.global_stats() == old(self).global_stats(),
                self.user_stats() == old(self).user_stats(),
            decreases n - i,
        {
            let ghost before = *self;
            assert(self.stream_ok(i as int));
            let moved = self.streams[i].accrue(now);
            proof {
                Ledger::lemma_one_stream_changed(before, *self, i as int);
            }
            if moved {
                let released = self.streams[i].total_released;
                let ghost mid = *self;
                self.check_and_execute_milestones(i as u64, released);
                proof {
                    assert forall|j: int| 0 <= j < m0.len() implies #[trigger] self.milestones()[j]
                        == Ledger::ticked(m0[j], s0, now, i as int + 1) by {
                        assert(mid.milestones()[j] == Ledger::ticked(m0[j], s0, now, i as int));
                    }
                    assert forall|k: int| ns0.len() <= k < self.notifications().len() implies (#[trigger] self.notifications()[k]).timestamp
                        == now && !self.notifications()[k].read by {
                        let from = mid.notifications().len() as int;
                        if k < from {
                            assert(self.notifications()[k] == self.notifications().subrange(0, from)[k]);
                        } else {
                            assert(self.notifications()[from + (k - from)] == self.notifications()[k]);
                        }
                    }
                    assert(self.notifications().subrange(0, ns0.len() as int) =~= ns0) by {
                        assert forall|k: int| 0 <= k < ns0.len() implies self.notifications()[k] == ns0[k] by {
                            assert(self.notifications()[k] == self.notifications().subrange(0, mid.notifications().len() as int)[k]);
                            assert(mid.notifications()[k] == mid.notifications().subrange(0, ns0.len() as int)[k]);
                        }
                    }
                    assert forall|k: int|
                        0 <= k < i && s0[k].accrues_at(now) && (#[trigger] s0[k].accrued(now)).status
                            == StreamStatus::Completed implies Ledger::completion_told(
                            self.notifications(), ns0.len() as int, k as u64, s0[k].sender@, s0[k].recipient@, now,
                        ) by {
                        Ledger::lemma_told_kept(mid.notifications(), self.notifications(), ns0.len() as int, k as u64, s0[k].sender@, s0[k].recipient@, now);
                    }
                }
                if self.streams[i].status == StreamStatus::Completed {
                    let sender = self.streams[i].sender.duplicate();
                    let recipient = self.streams[i].recipient.duplicate();
                    let ghost n1 = self.notifications();
                    self.push_notification(sender, i as u64, NotificationType::StreamCompleted, "Stream completed".to_string());
                    let ghost n2 = self.notifications();
                    self.push_notification(recipient, i as u64, NotificationType::StreamCompleted, "Stream completed".to_string());
                    proof {
                        let n3 = self.notifications();
                        assert(n3.subrange(0, n1.len() as int) =~= n1);
                        assert forall|k: int| ns0.len() <= k < n3.len() implies (#[trigger] n3[k]).timestamp == now && !n3[k].read by {
                            if k < n1.len() {
                                assert(n3[k] == n1[k]);
                            }
                        }
                        assert(n3[n1.len() as int] == n2[n1.len() as int]);
                        assert(Ledger::notice(n3[n1.len() as int], n1.len() as int, s0[i as int].sender@, i as u64, NotificationType::StreamCompleted, now));
                        assert(Ledger::notice(n3[n2.len() as int], n2.len() as int, s0[i as int].recipient@, i as u64, NotificationType::StreamCompleted, now));
                        assert(n3.subrange(0, ns0.len() as int) =~= ns0) by {
                            assert forall|k: int| 0 <= k < ns0.len() implies n3[k] == ns0[k] by {
                                assert(n1[k] == n1.subrange(0, ns0.len() as int)[k]);
                            }
                        }
                        assert forall|k: int|
                            0 <= k < i && s0[k].accrues_at(now) && (#[trigger] s0[k].accrued(now)).status
                                == StreamStatus::Completed implies Ledger::completion_told(
                                n3, ns0.len() as int, k as u64, s0[k].sender@, s0[k].recipient@, now,
                            ) by {
                            Ledger::lemma_told_kept(n1, n3, ns0.len() as int, k as u64, s0[k].sender@, s0[k].recipient@, now);
                        }
                    }
                }
            } else {
                proof {
                    assert forall|j: int| 0 <= j < m0.len() implies #[trigger] self.milestones()[j]
                        == Ledger::ticked(m0[j], s0, now, i as int + 1) by {
                        assert(before.milestones()[j] == Ledger::ticked(m0[j], s0, now, i as int));
                    }
                }
            }
            i = i + 1;
        }
    }

    /// A snapshot of stream `stream_id`, if it exists.
    pub fn get_stream(&self, stream_id: u64) -> (r: Option<Stream>)
        ensures
            stream_id < self.streams().len() ==> r is Some && r->Some_0.same_as(&self.streams()[stream_id as int]),
            stream_id >= self.streams().len() ==> r is None,
    {
        if stream_id < self.streams.len() as u64 {
            Some(self.streams[stream_id as usize].duplicate())
        } else {
            None
        }
    }

    /// Filters that accept the same values keep the same elements.
    proof fn lemma_kept_congruent<T>(xs: Seq<T>, f: spec_fn(T) -> bool, g: spec_fn(T) -> bool)
        requires
            forall|x: T| #[trigger] f(x) == g(x),
        ensures
            kept(xs, f) == kept(xs, g),
        decreases xs.len(),
    {
        if xs.len() > 0 {
            Ledger::lemma_kept_congruent(xs.drop_last(), f, g);
        }
    }

    /// Every stream that `user` sends or receives, in id order.
    pub fn list_streams_for_user(&self, user: &PrincipalId) -> (r: Vec<Stream>)
        requires
            self.wf(),
        ensures
            r@.len() == kept(self.streams(), |s: Stream| involves(s, user@)).len(),
            forall|k: int| 0 <= k < r@.len() ==> (#[trigger] r@[k]).same_as(&kept(self.streams(), |s: Stream| involves(s, user@))[k]),
    {
        let any = StreamFilter {
            status: None,
            min_amount: None,
            max_amount: None,
            min_duration: None,
            max_duration: None,
            sender: None,
            recipient: None,
            created_after: None,
            created_before: None,
        };
        proof {
            Ledger::lemma_kept_congruent(
                self.streams(),
                |s: Stream| any.selects(s, user@),
                |s: Stream| involves(s, user@),
            );
        }
        self.search_streams(&any, user)
    }

    /// The streams of `user` that meet every criterion of `filter`, in id order.
    pub fn search_streams(&self, filter: &StreamFilter, user: &PrincipalId) -> (r: Vec<Stream>)
        requires
            self.wf(),
        ensures
            r@.len() == kept(self.streams(), |s: Stream| filter.selects(s, user@)).len(),
            forall|k: int| 0 <= k < r@.len() ==> (#[trigger] r@[k]).same_as(&kept(self.streams(), |s: Stream| filter.selects(s, user@))[k]),
    {
        let ghost keep = |s: Stream| filter.selects(s, user@);
        let mut out: Vec<Stream> = Vec::new();
        let mut i: usize = 0;
        while i < self.streams.len()
            invariant
                self.wf(),
                forall|s: Stream| #[trigger] keep(s) == filter.selects(s, user@),
                i <= self.streams().len(),
                out@.len() == kept(self.streams().subrange(0, i as int), keep).len(),
                forall|k: int| 0 <= k < out@.len() ==> (#[trigger] out@[k]).same_as(&kept(self.streams().subrange(0, i as int), keep)[k]),
            decreases self.streams().len() - i,
        {
            proof {
                assert(self.streams().subrange(0, i as int + 1).drop_last() =~= self.streams().subrange(0, i as int));
                assert(self.streams().subrange(0, i as int + 1).last() == self.streams()[i as int]);
                assert(self.stream_ok(i as int));
            }
            if filter.admits(&self.streams[i], user) {
                out.push(self.streams[i].duplicate());
            }
            proof {
                let xs = self.streams().subrange(0, i as int + 1);
                assert(kept(xs, keep) == if keep(xs.last()) {
                    kept(xs.drop_last(), keep).push(xs.last())
                } else {
                    kept(xs.drop_last(), keep)
                });
            }
            i = i + 1;
        }
        proof {
            assert(self.streams().subrange(0, self.streams().len() as int) =~= self.streams());
        }
        out
    }

    /// The notifications addressed to `user`, in id order.
    pub fn get_notifications(&self, user: &PrincipalId) -> (r: Vec<Notification>)
        ensures
            r@.len() == kept(self.notifications(), |n: Notification| n.user@ == user@).len(),
            forall|k: int| 0 <= k < r@.len() ==> (#[trigger] r@[k]).same_as(&kept(self.notifications(), |n: Notification| n.user@ == user@)[k]),
    {
        let ghost keep = |n: Notification| n.user@ == user@;
        let mut out: Vec<Notification> = Vec::new();
        let mut i: usize = 0;
        while i < self.notifications.len()
            invariant
                forall|n: Notification| #[trigger] keep(n) == (n.user@ == user@),
                i <= self.notifications().len(),
                out@.len() == kept(self.notifications().subrange(0, i as int), keep).len(),
                forall|k: int| 0 <= k < out@.len() ==> (#[trigger] out@[k]).same_as(&kept(self.notifications().subrange(0, i as int), keep)[k]),
            decreases self.notifications().len() - i,
        {
            proof {
                assert(self.notifications().subrange(0, i as int + 1).drop_last() =~= self.notifications().subrange(0, i as int));
                assert(self.notifications().subrange(0, i as int + 1).last() == self.notifications()[i as int]);
            }
            if self.notifications[i].user.same_as(user) {
                out.push(self.notifications[i].duplicate());
            }
            proof {
                let xs = self.notifications().subrange(0, i as int + 1);
                assert(kept(xs, keep) == if keep(xs.last()) {
                    kept(xs.drop_last(), keep).push(xs.last())
                } else {
                    kept(xs.drop_last(), keep)
                });
            }
            i = i + 1;
        }
        proof {
            assert(self.notifications().subrange(0, self.notifications().len() as int) =~= self.notifications());
        }
        out
    }

    /// Marks notification `notification_id` read, if it is addressed to `user`.
    pub fn mark_notification_read(&mut self, notification_id: u64, user: &PrincipalId) -> (r: bool)
        requires
            old(self).wf(),
        ensures
            final(self).wf(),
            r == (notification_id < old(self).notifications().len()
                && old(self).notifications()[notification_id as int].user@ == user@),
            r ==> final(self).notifications() == old(self).notifications().update(
                notification_id as int,
                Notification { read: true, ..old(self).notifications()[notification_id as int] },
            ),
            !r ==> final(self).notifications() == old(self).notifications(),
            final(self).streams() == old(self).streams(),
            final(self).withdrawn() == old(self).withdrawn(),
            final(self).clock() == old(self).clock(),
            final(self).milestones() == old(self).milestones(),
            final(self).templates() == old(self).templates(),
            final(self).global_stats() == old(self).global_stats(),
            final(self).user_stats() == old(self).user_stats(),
    {
        if notification_id < self.notifications.len() as u64 {
            if self.notifications[notification_id as usize].user.same_as(user) {
                self.notifications[notification_id as usize].read = true;
                proof {
                    assert forall|i: int| 0 <= i < self.streams().len() implies #[trigger] self.stream_ok(i) by {
                        assert(old(self).stream_ok(i));
                    }
                    assert forall|k: int| 0 <= k < self.notifications().len() implies (#[trigger] self.notifications()[k]).id == k by {
                        assert(old(self).notifications()[k].id == k);
                    }
                    assert(self.templates() == old(self).templates());
                    assert(self.milestones() == old(self).milestones());
                    assert(self.user_stats() == old(self).user_stats());
                }
                return true;
            }
        }
        false
    }

    pub fn get_global_stats(&self) -> (r: StreamStats)
        ensures
            r == self.global_stats(),
    {
        self.global_stats
    }

    /// `user`'s statistics, if they ever created a stream.
    pub fn get_user_stats(&self, user: &PrincipalId) -> (r: Option<UserStats>)
        requires
            self.wf(),
        ensures
            Ledger::user_slot(self.user_stats(), user@) < 0 ==> r is None,
            Ledger::user_slot(self.user_stats(), user@) >= 0 ==> r is Some
                && r->Some_0.same_as(&self.user_stats()[Ledger::user_slot(self.user_stats(), user@)]),
    {
        let mut k: usize = 0;
        while k < self.user_stats.len()
            invariant
                self.wf(),
                k <= self.user_stats().len(),
                forall|i: int| 0 <= i < k ==> (#[trigger] self.user_stats()[i]).user@ != user@,
            decreases self.user_stats().len() - k,
        {
            if self.user_stats[k].user.same_as(user) {
                proof {
                    let us = self.user_stats();
                    let c = Ledger::user_slot(us, user@);
                    assert(us[k as int].user@ == user@);
                    assert(0 <= c < us.len() && us[c].user@ == user@);
                    if c < k {
                        assert(us[c].user@ != us[k as int].user@);
                    } else if c > k {
                        assert(us[k as int].user@ != us[c].user@);
                    }
                }
                return Some(self.user_stats[k].duplicate());
            }
            k = k + 1;
        }
        None
    }

    /// The figures of stream `stream_id` alone, if it exists.
    pub open spec fn stats_of(s: Stream) -> StreamStats {
        StreamStats {
            total_streams_created: 1,
            total_volume_locked: s.total_locked,
            total_volume_claimed: (s.total_released - s.buffer) as u64,
            active_streams: if s.status == StreamStatus::Active { 1 } else { 0 },
            completed_streams: if s.status == StreamStatus::Completed { 1 } else { 0 },
            cancelled_streams: if s.status == StreamStatus::Cancelled { 1 } else { 0 },
            average_stream_duration: (s.end_time - s.start_time) as u64,
            total_fees_collected: 0,
        }
    }

    pub fn get_stream_stats(&self, stream_id: u64) -> (r: Option<StreamStats>)
        requires
            self.wf(),
        ensures
            stream_id < self.streams().len() ==> r == Some(Ledger::stats_of(self.streams()[stream_id as int])),
            stream_id >= self.streams().len() ==> r is None,
    {
        if stream_id >= self.streams.len() as u64 {
            return None;
        }
        proof {
            assert(self.stream_ok(stream_id as int));
        }
        let s = &self.streams[stream_id as usize];
        Some(StreamStats {
            total_streams_created: 1,
            total_volume_locked: s.total_locked,
            total_volume_claimed: s.total_released - s.buffer,
            active_streams: if s.status == StreamStatus::Active { 1 } else { 0 },
            completed_streams: if s.status == StreamStatus::Completed { 1 } else { 0 },
            cancelled_streams: if s.status == StreamStatus::Cancelled { 1 } else { 0 },
            average_stream_duration: s.end_time - s.start_time,
            total_fees_collected: 0,
        })
    }

    /// Saves a (rate, duration) template and returns its id.
    pub fn create_template(&mut self, name: String, description: String, duration_secs: u64, sats_per_sec: u64, creator: PrincipalId, now: u64) -> (id: u64)
        requires
            old(self).wf(),
            old(self).clock() <= now,
        ensures
            final(self).wf(),
            id == old(self).templates().len(),
            final(self).templates() == old(self).templates().push(
                StreamTemplate { id, name, description, duration_secs, sats_per_sec, creator, created_at: now, usage_count: 0 },
            ),
            final(self).clock() == now,
            final(self).streams() == old(self).streams(),
            final(self).withdrawn() == old(self).withdrawn(),
            final(self).milestones() == old(self).milestones(),
            final(self).notifications() == old(self).notifications(),
            final(self).global_stats() == old(self).global_stats(),
            final(self).user_stats() == old(self).user_stats(),
    {
        self.clock = now;
        let id = self.templates.len() as u64;
        self.templates.push(StreamTemplate { id, name, description, duration_secs, sats_per_sec, creator, created_at: now, usage_count: 0 });
        proof {
            assert forall|i: int| 0 <= i < self.streams().len() implies #[trigger] self.stream_ok(i) by {
                assert(old(self).stream_ok(i));
            }
            assert forall|t: int| 0 <= t < self.templates().len() implies (#[trigger] self.templates()[t]).id == t by {
                if t < id {
                    assert(old(self).templates()[t] == self.templates()[t]);
                }
            }
            assert(self.milestones() == old(self).milestones());
            assert(self.user_stats() == old(self).user_stats());
            assert(self.notifications() == old(self).notifications());
        }
        id
    }

    /// Opens a stream from template `template_id`, with its rate and duration,
    /// exactly as `create_stream` would; the template counts one more use.
    pub fn create_stream_from_template(&mut self, template_id: u64, sender: PrincipalId, recipient: PrincipalId, total_locked: u64, now: u64) -> (r: Result<u64, StreamError>)
        requires
            old(self).wf(),
            old(self).clock() <= now,
        ensures
            final(self).wf(),
            template_id >= old(self).templates().len() ==> r == Err::<u64, StreamError>(StreamError::NotFound)
                && *final(self) == *old(self),
            template_id < old(self).templates().len() ==> {
                let t = old(self).templates()[template_id as int];
                &&& r == Ok::<u64, StreamError>(old(self).streams().len() as u64)
                &&& final(self).streams().len() == old(self).streams().len() + 1
                &&& forall|i: int| 0 <= i < old(self).streams().len() ==> #[trigger] final(self).streams()[i] == old(self).streams()[i]
                &&& Ledger::opened(final(self).streams()[old(self).streams().len() as int], old(self).streams().len() as u64,
                    sender@, recipient@, t.sats_per_sec, t.duration_secs, total_locked, now)
                &&& final(self).templates() == old(self).templates().update(
                    template_id as int,
                    StreamTemplate { usage_count: sat_add(t.usage_count as int, 1) as u64, ..t },
                )
                &&& final(self).withdrawn() == old(self).withdrawn().push(0)
                &&& final(self).clock() == now
                &&& final(self).milestones() == old(self).milestones()
                &&& final(self).global_stats() == Ledger::global_bumped(old(self).global_stats(), total_locked, t.duration_secs)
                &&& Ledger::user_stats_bumped(old(self).user_stats(), final(self).user_stats(), sender@, total_locked)
                &&& final(self).notifications().drop_last() == old(self).notifications()
                &&& Ledger::notice(final(self).notifications().last(), old(self).notifications().len() as int, sender@,
                    old(self).streams().len() as u64, NotificationType::StreamCreated, now)
            },
    {
        if template_id >= self.templates.len() as u64 {
            return Err(StreamError::NotFound);
        }
        let ghost before = *self;
        let t = &mut self.templates[template_id as usize];
        t.usage_count = t.usage_count.saturating_add(1);
        let sats_per_sec = t.sats_per_sec;
        let duration_secs = t.duration_secs;
        proof {
            assert forall|i: int| 0 <= i < self.streams().len() implies #[trigger] self.stream_ok(i) by {
                assert(before.stream_ok(i));
            }
            assert forall|k: int| 0 <= k < self.templates().len() implies (#[trigger] self.templates()[k]).id == k by {
                assert(before.templates()[k].id == k);
            }
            assert(self.milestones() == before.milestones());
            assert(self.user_stats() == before.user_stats());
            assert(self.notifications() == before.notifications());
        }
        let id = self.create_stream(sender, recipient, sats_per_sec, duration_secs, total_locked, None, None, Vec::new(), now);
        Ok(id)
    }

    /// Every saved template, in id order.
    pub fn list_templates(&self) -> (r: Vec<StreamTemplate>)
        ensures
            r@.len() == self.templates().len(),
            forall|k: int| 0 <= k < r@.len() ==> (#[trigger] r@[k]).same_as(&self.templates()[k]),
    {
        let mut out: Vec<StreamTemplate> = Vec::new();
        let mut i: usize = 0;
        while i < self.templates.len()
            invariant
                i <= self.templates().len(),
                out@.len() == i,
                forall|k: int| 0 <= k < i ==> (#[trigger] out@[k]).same_as(&self.templates()[k]),
            decreases self.templates().len() - i,
        {
            out.push(self.templates[i].duplicate());
            i = i + 1;
        }
        out
    }
}

} // verus!
