//! Events addressed to the parties of a stream.

use vstd::prelude::*;
use crate::principal::PrincipalId;

verus! {

#[derive(Clone, Copy, Debug, PartialEq, Eq, Structural)]
pub enum NotificationType {
    StreamCreated,
    StreamClaimed,
    StreamTopUp,
    StreamCancelled,
    StreamCompleted,
    LowBalance,
    ClaimReminder,
}

/// An event addressed to one party of a stream.
#[derive(Debug)]
pub struct Notification {
    pub id: u64,
    pub user: PrincipalId,
    pub stream_id: u64,
    pub notification_type: NotificationType,
    pub message: String,
    pub timestamp: u64,
    pub read: bool,
}

impl Notification {
    pub open spec fn same_as(&self, o: &Notification) -> bool {
        &&& self.id == o.id
        &&& self.user@ == o.user@
        &&& self.stream_id == o.stream_id
        &&& self.notification_type == o.notification_type
        &&& self.message == o.message
        &&& self.timestamp == o.timestamp
        &&& self.read == o.read
    }

    pub fn duplicate(&self) -> (r: Notification)
        ensures
            r.same_as(self),
    {
        Notification {
            id: self.id,
            user: self.user.duplicate(),
            stream_id: self.stream_id,
            notification_type: self.notification_type,
            message: self.message.clone(),
            timestamp: self.timestamp,
            read: self.read,
        }
    }
}

} // verus!
