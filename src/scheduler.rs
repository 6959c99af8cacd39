//! Bookkeeping for machines that run on threads of their own.

use vstd::prelude::*;

verus! {

/// Bookkeeping for the machines started on threads of their own: the next
/// process number to hand out and the largest one allowed.
#[derive(Debug, Clone, Copy)]
pub struct Scheduler {
    pub next_pid: u32,
    pub max_pid: u32,
}

impl Scheduler {
    pub fn new() -> (r: Scheduler)
        ensures
            r.next_pid == 0,
            r.max_pid == 50000,
    {
        Scheduler { next_pid: 0, max_pid: 50000 }
    }
}

} // verus!
