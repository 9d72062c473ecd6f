//! The two-tier job queue: a high-priority list for the first two segments
//! of every video and a normal list for everything else, each first in,
//! first out.

use crate::domain::jobs::{high_priority, Job};
use vstd::prelude::*;

verus! {

/// An in-process queue with priority dispatch.
pub struct PriorityQueue {
    high: Vec<Job>,
    normal: Vec<Job>,
}

impl PriorityQueue {
    /// The waiting high-priority jobs, oldest first.
    pub closed spec fn high(&self) -> Seq<Job> {
        self.high@
    }

    /// The waiting normal jobs, oldest first.
    pub closed spec fn normal(&self) -> Seq<Job> {
        self.normal@
    }

    /// A queue with nothing waiting.
    pub fn new() -> (queue: Self)
        ensures
            queue.high() == Seq::<Job>::empty(),
            queue.normal() == Seq::<Job>::empty(),
    {
        PriorityQueue { high: Vec::new(), normal: Vec::new() }
    }

    /// How many jobs are waiting on the high-priority list.
    pub fn high_len(&self) -> (n: usize)
        ensures
            n == self.high().len(),
    {
        self.high.len()
    }

    /// How many jobs are waiting on the normal list.
    pub fn normal_len(&self) -> (n: usize)
        ensures
            n == self.normal().len(),
    {
        self.normal.len()
    }

    /// Puts `job` at the back of the list that its priority selects.
    pub fn enqueue_job(&mut self, job: Job)
        ensures
            high_priority(job) ==> final(self).high() == old(self).high().push(job) && final(self).normal() == old(self).normal(),
            !high_priority(job) ==> final(self).normal() == old(self).normal().push(job) && final(self).high() == old(self).high(),
    {
        if job.is_high_priority() {
            self.high.push(job);
        } else {
            self.normal.push(job);
        }
    }

    /// Takes the oldest high-priority job where there is one, else the
    /// oldest normal job, else nothing.
    pub fn dequeue_job(&mut self) -> (job: Option<Job>)
        ensures
            old(self).high().len() > 0 ==> job == Some(old(self).high()[0]) && final(self).high()
                == old(self).high().remove(0) && final(self).normal() == old(self).normal(),
            old(self).high().len() == 0 && old(self).normal().len() > 0 ==> job == Some(
                old(self).normal()[0],
            ) && final(self).normal() == old(self).normal().remove(0) && final(self).high() == old(self).high(),
            old(self).high().len() == 0 && old(self).normal().len() == 0 ==> job is None && final(self).high() == old(self).high() && final(self).normal() == old(self).normal(),
    {
        if self.high.len() > 0 {
            Some(self.high.remove(0))
        } else if self.normal.len() > 0 {
            Some(self.normal.remove(0))
        } else {
            None
        }
    }
}

} // verus!
