//! Conjunctive search over a user's streams.

use vstd::prelude::*;
use crate::principal::PrincipalId;
use crate::stream::{Stream, StreamStatus};

verus! {

/// Conjunctive search criteria; an absent field places no constraint.
#[derive(Debug)]
pub struct StreamFilter {
    pub status: Option<StreamStatus>,
    pub min_amount: Option<u64>,
    pub max_amount: Option<u64>,
    pub min_duration: Option<u64>,
    pub max_duration: Option<u64>,
    pub sender: Option<PrincipalId>,
    pub recipient: Option<PrincipalId>,
    pub created_after: Option<u64>,
    pub created_before: Option<u64>,
}

impl StreamFilter {
    /// Whether `s` is one of `user`'s streams and meets every criterion given.
    pub open spec fn selects(&self, s: Stream, user: Seq<u8>) -> bool {
        &&& s.sender@ == user || s.recipient@ == user
        &&& self.status matches Some(st) ==> s.status == st
        &&& self.min_amount matches Some(m) ==> s.total_locked >= m
        &&& self.max_amount matches Some(m) ==> s.total_locked <= m
        &&& self.min_duration matches Some(m) ==> s.end_time - s.start_time >= m
        &&& self.max_duration matches Some(m) ==> s.end_time - s.start_time <= m
        &&& self.sender matches Some(p) ==> s.sender@ == p@
        &&& self.recipient matches Some(p) ==> s.recipient@ == p@
        &&& self.created_after matches Some(t) ==> s.start_time >= t
        &&& self.created_before matches Some(t) ==> s.start_time <= t
    }

    pub fn admits(&self, s: &Stream, user: &PrincipalId) -> (r: bool)
        requires
            s.wf(),
        ensures
            r == self.selects(*s, user@),
    {
        if !s.sender.same_as(user) && !s.recipient.same_as(user) {
            return false;
        }
        if let Some(status) = self.status {
            if s.status != status {
                return false;
            }
        }
        if let Some(min_amount) = self.min_amount {
            if s.total_locked < min_amount {
                return false;
            }
        }
        if let Some(max_amount) = self.max_amount {
            if s.total_locked > max_amount {
                return false;
            }
        }
        let duration = s.end_time - s.start_time;
        if let Some(min_duration) = self.min_duration {
            if duration < min_duration {
                return false;
            }
        }
        if let Some(max_duration) = self.max_duration {
            if duration > max_duration {
                return false;
            }
        }
        if let Some(sender) = &self.sender {
            if !s.sender.same_as(sender) {
                return false;
            }
        }
        if let Some(recipient) = &self.recipient {
            if !s.recipient.same_as(recipient) {
                return false;
            }
        }
        if let Some(created_after) = self.created_after {
            if s.start_time < created_after {
                return false;
            }
        }
        if let Some(created_before) = self.created_before {
            if s.start_time > created_before {
                return false;
            }
        }
        true
    }
}

} // verus!
