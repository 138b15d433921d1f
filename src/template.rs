//! Saved stream shapes.

use vstd::prelude::*;
use crate::principal::PrincipalId;

verus! {

/// A saved (rate, duration) pair from which streams can be created.
#[derive(Debug)]
pub struct StreamTemplate {
    pub id: u64,
    pub name: String,
    pub description: String,
    pub duration_secs: u64,
    pub sats_per_sec: u64,
    pub creator: PrincipalId,
    pub created_at: u64,
    pub usage_count: u64,
}

impl StreamTemplate {
    pub open spec fn same_as(&self, o: &StreamTemplate) -> bool {
        &&& self.id == o.id
        &&& self.name == o.name
        &&& self.description == o.description
        &&& self.duration_secs == o.duration_secs
        &&& self.sats_per_sec == o.sats_per_sec
        &&& self.creator@ == o.creator@
        &&& self.created_at == o.created_at
        &&& self.usage_count == o.usage_count
    }

    pub fn duplicate(&self) -> (r: StreamTemplate)
        ensures
            r.same_as(self),
    {
        StreamTemplate {
            id: self.id,
            name: self.name.clone(),
            description: self.description.clone(),
            duration_secs: self.duration_secs,
            sats_per_sec: self.sats_per_sec,
            creator: self.creator.duplicate(),
            created_at: self.created_at,
            usage_count: self.usage_count,
        }
    }
}

} // verus!
