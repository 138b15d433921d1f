//! A single stream: its record, its invariant, and each operation on it,
//! stated as a function from the record before to the outcome and the record
//! after.

use vstd::prelude::*;
use crate::principal::PrincipalId;

verus! {

/// Grace period, in seconds, after a stream ends (or after its last claim)
/// before the sender may take back what the recipient left unclaimed.
pub const RECLAIM_TIMEOUT_SECS: u64 = 604800;

/// Where a stream stands in its lifecycle. `Cancelled` and `Completed` are final.
#[derive(Clone, Copy, Debug, PartialEq, Eq, Structural)]
pub enum StreamStatus {
    Active,
    Paused,
    Cancelled,
    Completed,
}

/// Why a lifecycle operation was refused.
#[derive(Clone, Copy, Debug, PartialEq, Eq, Structural)]
pub enum StreamError {
    NotFound,
    Unauthorized,
    NotActive,
    InvalidState,
    NothingToClaim,
    TimeoutNotReached,
}

/// What cancelling a stream leaves for settlement.
#[derive(Clone, Copy, Debug, PartialEq, Eq, Structural)]
pub struct CancelResult {
    pub refund: u64,
    pub fee: u64,
}

/// One time-proportional transfer from `sender` to `recipient`.
#[derive(Debug)]
pub struct Stream {
    pub id: u64,
    pub sender: PrincipalId,
    pub recipient: PrincipalId,
    pub sats_per_sec: u64,
    pub start_time: u64,
    pub end_time: u64,
    pub total_locked: u64,
    pub total_released: u64,
    pub last_release_time: u64,
    pub buffer: u64,
    pub status: StreamStatus,
    pub last_claim_time: u64,
    pub title: Option<String>,
    pub description: Option<String>,
    pub tags: Vec<String>,
    pub metadata: Vec<(String, String)>,
}

pub open spec fn min_int(a: int, b: int) -> int {
    if a < b { a } else { b }
}

pub open spec fn max_int(a: int, b: int) -> int {
    if a < b { b } else { a }
}

/// The fee kept on cancellation: one percent of `unused`, rounded to nearest,
/// halves rounded up.
pub open spec fn cancel_fee(unused: int) -> int {
    (unused + 50) / 100
}

/// `a + b`, saturated at the largest `u64`.
pub open spec fn sat_add(a: int, b: int) -> int {
    min_int(a + b, u64::MAX as int)
}

/// `a * b`, saturated at the largest `u64`.
pub open spec fn sat_mul(a: int, b: int) -> int {
    min_int(a * b, u64::MAX as int)
}

/// One percent of `unused`, rounded to nearest.
pub fn fee_for(unused: u64) -> (fee: u64)
    ensures
        fee as int == cancel_fee(unused as int),
{
    unused / 100 + if unused % 100 >= 50 { 1 } else { 0 }
}

impl Stream {
    /// Equality of everything a stream records.
    pub open spec fn same_as(&self, o: &Stream) -> bool {
        &&& self.id == o.id
        &&& self.sender@ == o.sender@
        &&& self.recipient@ == o.recipient@
        &&& self.sats_per_sec == o.sats_per_sec
        &&& self.start_time == o.start_time
        &&& self.end_time == o.end_time
        &&& self.total_locked == o.total_locked
        &&& self.total_released == o.total_released
        &&& self.last_release_time == o.last_release_time
        &&& self.buffer == o.buffer
        &&& self.status == o.status
        &&& self.last_claim_time == o.last_claim_time
        &&& self.title == o.title
        &&& self.description == o.description
        &&& self.tags@ == o.tags@
        &&& self.metadata@ == o.metadata@
    }

    /// A copy of the stream as it stands.
    pub fn duplicate(&self) -> (r: Stream)
        ensures
            r.same_as(self),
    {
        let mut tags: Vec<String> = Vec::new();
        let mut i: usize = 0;
        while i < self.tags.len()
            invariant
                i <= self.tags@.len(),
                tags@ == self.tags@.subrange(0, i as int),
            decreases self.tags@.len() - i,
        {
            tags.push(self.tags[i].clone());
            i = i + 1;
        }
        let mut metadata: Vec<(String, String)> = Vec::new();
        let mut j: usize = 0;
        while j < self.metadata.len()
            invariant
                j <= self.metadata@.len(),
                metadata@ == self.metadata@.subrange(0, j as int),
            decreases self.metadata@.len() - j,
        {
            let entry = &self.metadata[j];
            metadata.push((entry.0.clone(), entry.1.clone()));
            j = j + 1;
        }
        assert(tags@ =~= self.tags@);
        assert(metadata@ =~= self.metadata@);
        Stream {
            id: self.id,
            sender: self.sender.duplicate(),
            recipient: self.recipient.duplicate(),
            sats_per_sec: self.sats_per_sec,
            start_time: self.start_time,
            end_time: self.end_time,
            total_locked: self.total_locked,
            total_released: self.total_released,
            last_release_time: self.last_release_time,
            buffer: self.buffer,
            status: self.status,
            last_claim_time: self.last_claim_time,
            title: self.title.clone(),
            description: self.description.clone(),
            tags,
            metadata,
        }
    }

    /// The accounting invariant of a single stream.
    pub open spec fn wf(&self) -> bool {
        &&& self.total_released <= self.total_locked
        &&& self.buffer <= self.total_released
        &&& self.start_time <= self.end_time
        &&& self.start_time <= self.last_release_time
        &&& self.start_time <= self.last_claim_time
    }

    /// Whether a tick at `now` moves this stream forward.
    pub open spec fn accrues_at(&self, now: u64) -> bool {
        self.status == StreamStatus::Active && self.last_release_time < now
    }

    /// What a tick at `now` releases: the elapsed time at the stream's rate,
    /// capped by what is still locked.
    pub open spec fn release_at(&self, now: u64) -> int {
        min_int(
            sat_mul(now - self.last_release_time, self.sats_per_sec as int),
            self.total_locked - self.total_released,
        )
    }

    /// The stream after a tick at `now`.
    pub open spec fn accrued(self, now: u64) -> Stream {
        if !self.accrues_at(now) {
            self
        } else {
            let released = self.total_released + self.release_at(now);
            Stream {
                total_released: released as u64,
                buffer: (self.buffer + self.release_at(now)) as u64,
                last_release_time: now,
                status: if released >= self.total_locked || now >= self.end_time {
                    StreamStatus::Completed
                } else {
                    StreamStatus::Active
                },
                ..self
            }
        }
    }

    /// The earliest time at which the sender may reclaim the buffer.
    pub open spec fn reclaim_deadline(&self) -> int {
        sat_add(
            max_int(self.end_time as int, self.last_claim_time as int),
            RECLAIM_TIMEOUT_SECS as int,
        )
    }

    /// Releases what has accrued since the last release, and completes the
    /// stream once everything is released or its end time has come.
    /// Returns whether the stream moved forward.
    pub fn accrue(&mut self, now: u64) -> (moved: bool)
        requires
            old(self).wf(),
        ensures
            moved == old(self).accrues_at(now),
            *final(self) == old(self).accrued(now),
            final(self).wf(),
    {
        if self.status != StreamStatus::Active {
            return false;
        }
        let elapsed = now.saturating_sub(self.last_release_time);
        if elapsed == 0 {
            return false;
        }
        let releasable = match elapsed.checked_mul(self.sats_per_sec) {
            Some(product) => product,
            None => u64::MAX,
        };
        let remaining = self.total_locked.saturating_sub(self.total_released);
        let to_release = if releasable < remaining { releasable } else { remaining };
        self.total_released = self.total_released + to_release;
        self.last_release_time = now;
        self.buffer = self.buffer + to_release;
        if self.total_released >= self.total_locked || now >= self.end_time {
            self.status = StreamStatus::Completed;
        }
        true
    }

    /// Outcome of a top-up: `amount` is added to what is locked (saturating);
    /// only the sender may, and only while the stream is active.
    pub open spec fn topped_up(self, caller: Seq<u8>, amount: u64) -> (Result<(), StreamError>, Stream) {
        if caller != self.sender@ {
            (Err(StreamError::Unauthorized), self)
        } else if self.status != StreamStatus::Active {
            (Err(StreamError::NotActive), self)
        } else {
            (Ok(()), Stream { total_locked: sat_add(self.total_locked as int, amount as int) as u64, ..self })
        }
    }

    /// Outcome of a pause: only the sender may pause, and only an active stream.
    pub open spec fn paused(self, caller: Seq<u8>) -> (Result<(), StreamError>, Stream) {
        if caller != self.sender@ {
            (Err(StreamError::Unauthorized), self)
        } else if self.status != StreamStatus::Active {
            (Err(StreamError::InvalidState), self)
        } else {
            (Ok(()), Stream { status: StreamStatus::Paused, ..self })
        }
    }

    /// Outcome of a resume at `now`: accrual restarts from `now`, so the
    /// paused interval never accrues.
    pub open spec fn resumed(self, caller: Seq<u8>, now: u64) -> (Result<(), StreamError>, Stream) {
        if caller != self.sender@ {
            (Err(StreamError::Unauthorized), self)
        } else if self.status != StreamStatus::Paused {
            (Err(StreamError::InvalidState), self)
        } else {
            (Ok(()), Stream { status: StreamStatus::Active, last_release_time: now, ..self })
        }
    }

    /// Outcome of a cancellation: what is still locked goes back to the sender
    /// less a one percent fee; the buffer stays claimable.
    pub open spec fn cancelled(self, caller: Seq<u8>) -> (Result<CancelResult, StreamError>, Stream) {
        if caller != self.sender@ {
            (Err(StreamError::Unauthorized), self)
        } else if self.status != StreamStatus::Active {
            (Err(StreamError::InvalidState), self)
        } else {
            let unused = self.total_locked - self.total_released;
            (
                Ok(CancelResult { refund: (unused - cancel_fee(unused)) as u64, fee: cancel_fee(unused) as u64 }),
                Stream { status: StreamStatus::Cancelled, ..self },
            )
        }
    }

    /// Outcome of a claim at `now`: the recipient takes the whole buffer,
    /// whatever the status.
    pub open spec fn claimed(self, caller: Seq<u8>, now: u64) -> (Result<u64, StreamError>, Stream) {
        if caller != self.recipient@ {
            (Err(StreamError::Unauthorized), self)
        } else if self.buffer == 0 {
            (Err(StreamError::NothingToClaim), self)
        } else {
            (Ok(self.buffer), Stream { buffer: 0, last_claim_time: now, ..self })
        }
    }

    /// Outcome of a reclaim at `now`: the sender takes the buffer back once
    /// the grace period has passed.
    pub open spec fn reclaimed(self, caller: Seq<u8>, now: u64) -> (Result<u64, StreamError>, Stream) {
        if caller != self.sender@ {
            (Err(StreamError::Unauthorized), self)
        } else if self.buffer == 0 {
            (Err(StreamError::NothingToClaim), self)
        } else if now < self.reclaim_deadline() {
            (Err(StreamError::TimeoutNotReached), self)
        } else {
            (Ok(self.buffer), Stream { buffer: 0, ..self })
        }
    }

    pub fn top_up(&mut self, caller: &PrincipalId, amount: u64) -> (r: Result<(), StreamError>)
        requires
            old(self).wf(),
        ensures
            (r, *final(self)) == old(self).topped_up(caller@, amount),
            final(self).wf(),
    {
        if !self.sender.same_as(caller) {
            return Err(StreamError::Unauthorized);
        }
        if self.status != StreamStatus::Active {
            return Err(StreamError::NotActive);
        }
        self.total_locked = self.total_locked.saturating_add(amount);
        Ok(())
    }

    pub fn pause(&mut self, caller: &PrincipalId) -> (r: Result<(), StreamError>)
        requires
            old(self).wf(),
        ensures
            (r, *final(self)) == old(self).paused(caller@),
            final(self).wf(),
    {
        if !self.sender.same_as(caller) {
            return Err(StreamError::Unauthorized);
        }
        if self.status != StreamStatus::Active {
            return Err(StreamError::InvalidState);
        }
        self.status = StreamStatus::Paused;
        Ok(())
    }

    pub fn resume(&mut self, caller: &PrincipalId, now: u64) -> (r: Result<(), StreamError>)
        requires
            old(self).wf(),
            old(self).last_release_time <= now,
        ensures
            (r, *final(self)) == old(self).resumed(caller@, now),
            final(self).wf(),
    {
        if !self.sender.same_as(caller) {
            return Err(StreamError::Unauthorized);
        }
        if self.status != StreamStatus::Paused {
            return Err(StreamError::InvalidState);
        }
        self.status = StreamStatus::Active;
        self.last_release_time = now;
        Ok(())
    }

    pub fn cancel(&mut self, caller: &PrincipalId) -> (r: Result<CancelResult, StreamError>)
        requires
            old(self).wf(),
        ensures
            (r, *final(self)) == old(self).cancelled(caller@),
            final(self).wf(),
    {
        if !self.sender.same_as(caller) {
            return Err(StreamError::Unauthorized);
        }
        if self.status != StreamStatus::Active {
            return Err(StreamError::InvalidState);
        }
        self.status = StreamStatus::Cancelled;
        let unused = self.total_locked.saturating_sub(self.total_released);
        let fee = fee_for(unused);
        let refund = unused.saturating_sub(fee);
        Ok(CancelResult { refund, fee })
    }

    pub fn claim(&mut self, caller: &PrincipalId, now: u64) -> (r: Result<u64, StreamError>)
        requires
            old(self).wf(),
            old(self).start_time <= now,
        ensures
            (r, *final(self)) == old(self).claimed(caller@, now),
            final(self).wf(),
    {
        if !self.recipient.same_as(caller) {
            return Err(StreamError::Unauthorized);
        }
        if self.buffer == 0 {
            return Err(StreamError::NothingToClaim);
        }
        let claimed = self.buffer;
        self.buffer = 0;
        self.last_claim_time = now;
        Ok(claimed)
    }

    pub fn reclaim(&mut self, caller: &PrincipalId, now: u64) -> (r: Result<u64, StreamError>)
        requires
            old(self).wf(),
        ensures
            (r, *final(self)) == old(self).reclaimed(caller@, now),
            final(self).wf(),
    {
        if !self.sender.same_as(caller) {
            return Err(StreamError::Unauthorized);
        }
        if self.buffer == 0 {
            return Err(StreamError::NothingToClaim);
        }
        let anchor = if self.end_time < self.last_claim_time {
            self.last_claim_time
        } else {
            self.end_time
        };
        let claimable_time = anchor.saturating_add(RECLAIM_TIMEOUT_SECS);
        if now < claimable_time {
            return Err(StreamError::TimeoutNotReached);
        }
        let reclaimed = self.buffer;
        self.buffer = 0;
        Ok(reclaimed)
    }
}

} // verus!
