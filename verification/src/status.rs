//! The life-cycle status of a supervised resource.

use vstd::prelude::*;

verus! {

/// Where a resource stands in its life cycle.
#[derive(Clone, Copy, Debug, PartialEq, Eq, Structural)]
pub enum Status {
    Stopped,
    Starting,
    Running,
    Stopping,
}

impl Status {
    /// The number that stands for this status on the wire.
    pub open spec fn spec_code(self) -> u8 {
        match self {
            Status::Stopped => 0,
            Status::Starting => 1,
            Status::Running => 2,
            Status::Stopping => 3,
        }
    }

    /// The status that a wire number stands for, if it stands for one.
    pub open spec fn spec_from_code(code: u8) -> Option<Status> {
        if code == 0 {
            Some(Status::Stopped)
        } else if code == 1 {
            Some(Status::Starting)
        } else if code == 2 {
            Some(Status::Running)
        } else if code == 3 {
            Some(Status::Stopping)
        } else {
            None
        }
    }

    /// The number that stands for this status on the wire.
    pub fn code(self) -> (c: u8)
        ensures
            c == self.spec_code(),
    {
        match self {
            Status::Stopped => 0,
            Status::Starting => 1,
            Status::Running => 2,
            Status::Stopping => 3,
        }
    }

    /// Reads a status back from its wire number; `None` for a number that
    /// stands for no status.
    pub fn from_code(code: u8) -> (s: Option<Status>)
        ensures
            s == Status::spec_from_code(code),
    {
        if code == 0 {
            Some(Status::Stopped)
        } else if code == 1 {
            Some(Status::Starting)
        } else if code == 2 {
            Some(Status::Running)
        } else if code == 3 {
            Some(Status::Stopping)
        } else {
            None
        }
    }

    /// Every status is read back from its own wire number, and no other
    /// number is read as that status.
    pub proof fn lemma_code_round_trip(s: Status, code: u8)
        ensures
            Status::spec_from_code(s.spec_code()) == Some(s),
            Status::spec_from_code(code) == Some(s) ==> code == s.spec_code(),
    {
    }
}

} // verus!
