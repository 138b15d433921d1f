//! Aggregate and per-user figures.

use vstd::prelude::*;
use crate::principal::PrincipalId;

verus! {

/// Aggregate figures over streams.
#[derive(Clone, Copy, Debug, PartialEq, Eq, Structural)]
pub struct StreamStats {
    pub total_streams_created: u64,
    pub total_volume_locked: u64,
    pub total_volume_claimed: u64,
    pub active_streams: u64,
    pub completed_streams: u64,
    pub cancelled_streams: u64,
    pub average_stream_duration: u64,
    pub total_fees_collected: u64,
}

/// Figures for one user.
#[derive(Debug)]
pub struct UserStats {
    pub user: PrincipalId,
    pub streams_created: u64,
    pub streams_received: u64,
    pub total_sent: u64,
    pub total_received: u64,
    pub total_fees_paid: u64,
    pub avg_stream_size: u64,
}

impl StreamStats {
    pub open spec fn zero_spec() -> StreamStats {
        StreamStats {
            total_streams_created: 0,
            total_volume_locked: 0,
            total_volume_claimed: 0,
            active_streams: 0,
            completed_streams: 0,
            cancelled_streams: 0,
            average_stream_duration: 0,
            total_fees_collected: 0,
        }
    }

    pub fn zero() -> (r: StreamStats)
        ensures
            r == (StreamStats {
                total_streams_created: 0,
                total_volume_locked: 0,
                total_volume_claimed: 0,
                active_streams: 0,
                completed_streams: 0,
                cancelled_streams: 0,
                average_stream_duration: 0,
                total_fees_collected: 0,
            }),
    {
        StreamStats {
            total_streams_created: 0,
            total_volume_locked: 0,
            total_volume_claimed: 0,
            active_streams: 0,
            completed_streams: 0,
            cancelled_streams: 0,
            average_stream_duration: 0,
            total_fees_collected: 0,
        }
    }
}

impl UserStats {
    pub open spec fn same_as(&self, o: &UserStats) -> bool {
        &&& self.user@ == o.user@
        &&& self.streams_created == o.streams_created
        &&& self.streams_received == o.streams_received
        &&& self.total_sent == o.total_sent
        &&& self.total_received == o.total_received
        &&& self.total_fees_paid == o.total_fees_paid
        &&& self.avg_stream_size == o.avg_stream_size
    }

    pub fn duplicate(&self) -> (r: UserStats)
        ensures
            r.same_as(self),
    {
        UserStats {
            user: self.user.duplicate(),
            streams_created: self.streams_created,
            streams_received: self.streams_received,
            total_sent: self.total_sent,
            total_received: self.total_received,
            total_fees_paid: self.total_fees_paid,
            avg_stream_size: self.avg_stream_size,
        }
    }
}

} // verus!
