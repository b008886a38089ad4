//! One supervised resource, as the registry records it and as observers see it.

use vstd::prelude::*;
use crate::status::Status;

verus! {

/// The record of one resource. A value of this type outside the registry is a
/// snapshot: a copy that no later change of the registry reaches.
#[derive(Debug, PartialEq, Eq)]
pub struct Resource {
    /// The index the resource got at start-up; it never changes.
    pub id: u64,
    /// The resource's definition, as the configuration gave it. This library
    /// carries it and never reads it.
    pub config: String,
    /// The status recorded last.
    pub status: Status,
    /// The time at which that status was recorded, on the caller's clock.
    pub observed_at: u64,
}

/// What a [`Resource`] is, as a mathematical value.
pub struct ResourceView {
    pub id: u64,
    pub config: Seq<char>,
    pub status: Status,
    pub observed_at: u64,
}

impl View for Resource {
    type V = ResourceView;

    open spec fn view(&self) -> ResourceView {
        ResourceView {
            id: self.id,
            config: self.config@,
            status: self.status,
            observed_at: self.observed_at,
        }
    }
}

impl Resource {
    /// A copy of this record.
    pub fn snapshot(&self) -> (copy: Resource)
        ensures
            copy@ == self@,
    {
        Resource {
            id: self.id,
            config: self.config.clone(),
            status: self.status,
            observed_at: self.observed_at,
        }
    }
}

impl Clone for Resource {
    fn clone(&self) -> (copy: Resource)
        ensures
            copy@ == self@,
    {
        self.snapshot()
    }
}

/// The views of a sequence of records, in the same order.
pub open spec fn views(records: Seq<Resource>) -> Seq<ResourceView> {
    records.map_values(|r: Resource| r@)
}

} // verus!
