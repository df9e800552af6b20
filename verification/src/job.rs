//! Jobs that agents of the host simulation carry out. The world core only
//! needs to know when a job is finished; everything else about agents is
//! the host application's business.

use vstd::prelude::*;

verus! {

/// A task an agent can be assigned.
#[derive(Debug, Clone, PartialEq, Eq, Hash)]
pub enum Job {
    Idle,
    Move { target_x: i32, target_y: i32 },
    Gather { resource_type: String },
    Build { structure_type: String },
    Interact { target_id: String },
}

impl Job {
    /// Whether the job needs no further work. Only `Idle` is complete;
    /// every other job runs until the host simulation replaces it.
    pub fn is_complete(&self) -> (r: bool)
        ensures
            r == (self is Idle),
    {
        match self {
            Job::Idle => true,
            Job::Move { target_x: _, target_y: _ } => false,
            Job::Gather { resource_type: _ } => false,
            Job::Build { structure_type: _ } => false,
            Job::Interact { target_id: _ } => false,
        }
    }
}

} // verus!
