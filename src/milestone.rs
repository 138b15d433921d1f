//! One-shot rules on a stream's cumulative released amount.

use vstd::prelude::*;
use crate::principal::PrincipalId;

verus! {

/// What a milestone does when it fires. Only `SendNotification` has an
/// effect today; the other three are accepted and latch, but change nothing.
#[derive(Debug)]
pub enum MilestoneAction {
    SendNotification(String),
    AutoClaim,
    PauseStream,
    TopUpStream(u64),
}

/// A one-shot rule on a stream's cumulative released amount.
#[derive(Debug)]
pub struct Milestone {
    pub id: u64,
    pub stream_id: u64,
    pub trigger_amount: u64,
    pub action: MilestoneAction,
    pub triggered: bool,
    pub created_by: PrincipalId,
}

impl Milestone {
    /// Whether evaluating stream `stream_id` at `released` fires this milestone.
    pub open spec fn fires(&self, stream_id: u64, released: u64) -> bool {
        self.stream_id == stream_id && !self.triggered && self.trigger_amount <= released
    }

    /// The milestone after one evaluation of stream `stream_id` at `released`.
    pub open spec fn evaluated(self, stream_id: u64, released: u64) -> Milestone {
        if self.fires(stream_id, released) {
            Milestone { triggered: true, ..self }
        } else {
            self
        }
    }

    pub open spec fn notifies(&self) -> bool {
        self.action is SendNotification
    }
}

/// The milestones of `ms`, in order, that fire at `released` and send a
/// notification.
pub open spec fn fired_notices(ms: Seq<Milestone>, stream_id: u64, released: u64) -> Seq<Milestone>
    decreases ms.len(),
{
    if ms.len() == 0 {
        Seq::empty()
    } else {
        let before = fired_notices(ms.drop_last(), stream_id, released);
        if ms.last().fires(stream_id, released) && ms.last().notifies() {
            before.push(ms.last())
        } else {
            before
        }
    }
}

/// How many times a milestone fires over successive evaluations of stream
/// `stream_id` at the released amounts `rels`.
pub open spec fn firings(m: Milestone, stream_id: u64, rels: Seq<u64>) -> nat
    decreases rels.len(),
{
    if rels.len() == 0 {
        0
    } else {
        (if m.fires(stream_id, rels[0]) { 1nat } else { 0nat }) + firings(
            m.evaluated(stream_id, rels[0]),
            stream_id,
            rels.drop_first(),
        )
    }
}

} // verus!
