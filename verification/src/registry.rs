//! The registry: the one authoritative record of every resource.

use vstd::prelude::*;
use crate::protocol::ErrorKind;
use crate::resource::{Resource, ResourceView, views};
use crate::status::Status;

verus! {

/// Every record sits at the index that is its id.
pub open spec fn well_formed(records: Seq<ResourceView>) -> bool {
    forall|i: int| 0 <= i < records.len() ==> (#[trigger] records[i]).id == i
}

/// The records after `status` was recorded for `id` at time `now`. Only the
/// record at `id` differs, and only in its status and its time.
pub open spec fn with_status(
    records: Seq<ResourceView>,
    id: int,
    status: Status,
    now: u64,
) -> Seq<ResourceView> {
    records.update(
        id,
        ResourceView {
            id: records[id].id,
            config: records[id].config,
            status: status,
            observed_at: now,
        },
    )
}

/// The records a registry starts with: one per definition, in order, each
/// `Stopped` and never yet observed.
pub open spec fn initial_records(configs: Seq<Seq<char>>) -> Seq<ResourceView> {
    Seq::new(
        configs.len(),
        |i: int|
            ResourceView {
                id: i as u64,
                config: configs[i],
                status: Status::Stopped,
                observed_at: 0,
            },
    )
}

/// The views of a sequence of strings, in the same order.
pub open spec fn texts(strings: Seq<String>) -> Seq<Seq<char>> {
    strings.map_values(|s: String| s@)
}

/// A fixed-length, ordered collection of resource records. Its length is set
/// when it is made; records are never added, removed or moved.
pub struct Registry {
    resources: Vec<Resource>,
}

impl View for Registry {
    type V = Seq<ResourceView>;

    closed spec fn view(&self) -> Seq<ResourceView> {
        views(self.resources@)
    }
}

impl Registry {
    #[verifier::type_invariant]
    spec fn inv(self) -> bool {
        well_formed(self@)
    }

    /// Makes the registry for the given definitions, in their order.
    pub fn new(configs: &Vec<String>) -> (registry: Registry)
        ensures
            registry@ == initial_records(texts(configs@)),
            well_formed(registry@),
    {
        let mut resources: Vec<Resource> = Vec::new();
        let mut i: usize = 0;
        while i < configs.len()
            invariant
                i <= configs@.len(),
                resources@.len() == i,
                forall|k: int|
                    0 <= k < i ==> (#[trigger] resources@[k])@ == initial_records(
                        texts(configs@),
                    )[k],
            decreases configs@.len() - i,
        {
            resources.push(
                Resource {
                    id: i as u64,
                    config: configs[i].clone(),
                    status: Status::Stopped,
                    observed_at: 0,
                },
            );
            i = i + 1;
        }
        assert(views(resources@) =~= initial_records(texts(configs@)));
        Registry { resources }
    }

    /// How many resources there are.
    pub fn len(&self) -> (n: usize)
        ensures
            n == self@.len(),
            well_formed(self@),
    {
        proof {
            use_type_invariant(self);
        }
        self.resources.len()
    }

    /// A snapshot of the resource with this id, or `ResourceNotFound` when no
    /// resource has it.
    pub fn get(&self, id: u64) -> (found: Result<Resource, ErrorKind>)
        ensures
            well_formed(self@),
            id < self@.len() ==> found is Ok && found->Ok_0@ == self@[id as int],
            id >= self@.len() ==> found == Err::<Resource, ErrorKind>(ErrorKind::ResourceNotFound),
    {
        proof {
            use_type_invariant(self);
        }
        if id < self.resources.len() as u64 {
            Ok(self.resources[id as usize].snapshot())
        } else {
            Err(ErrorKind::ResourceNotFound)
        }
    }

    /// A snapshot of every resource, in id order.
    pub fn list(&self) -> (all: Vec<Resource>)
        ensures
            well_formed(self@),
            views(all@) == self@,
    {
        proof {
            use_type_invariant(self);
        }
        let mut all: Vec<Resource> = Vec::new();
        let mut i: usize = 0;
        while i < self.resources.len()
            invariant
                i <= self.resources@.len(),
                all@.len() == i,
                forall|k: int| 0 <= k < i ==> (#[trigger] all@[k])@ == self.resources@[k]@,
            decreases self.resources@.len() - i,
        {
            all.push(self.resources[i].snapshot());
            i = i + 1;
        }
        assert(views(all@) =~= self@);
        all
    }

    /// Records `status` for the resource with this id, at time `now`, and
    /// returns the status that was recorded before; or returns
    /// `ResourceNotFound`, and changes nothing, when no resource has the id.
    pub fn set_status(&mut self, id: u64, status: Status, now: u64) -> (previous: Result<
        Status,
        ErrorKind,
    >)
        ensures
            well_formed(old(self)@),
            well_formed(final(self)@),
            id < old(self)@.len() ==> previous == Ok::<Status, ErrorKind>(
                old(self)@[id as int].status,
            ) && final(self)@ == with_status(old(self)@, id as int, status, now),
            id >= old(self)@.len() ==> previous == Err::<Status, ErrorKind>(
                ErrorKind::ResourceNotFound,
            ) && final(self)@ == old(self)@,
    {
        proof {
            use_type_invariant(&*self);
        }
        if id < self.resources.len() as u64 {
            let index: usize = id as usize;
            let mut records: Vec<Resource> = Vec::new();
            core::mem::swap(&mut records, &mut self.resources);
            let previous: Status = records[index].status;
            records[index].status = status;
            records[index].observed_at = now;
            assert(views(records@) =~= with_status(old(self)@, id as int, status, now));
            self.resources = records;
            Ok(previous)
        } else {
            Err(ErrorKind::ResourceNotFound)
        }
    }
}

} // verus!
