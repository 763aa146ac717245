//! The shared job queue of the worker pool: first in, first out, closed once at shutdown.
use vstd::prelude::*;

verus! {

/// What a worker does after looking at the queue.
#[derive(Debug)]
pub enum WorkerAction<T> {
    /// Process this job.
    Run(T),
    /// The queue is empty but open: wait until a job is pushed or the queue is closed.
    Wait,
    /// The queue is empty and closed: stop.
    Exit,
}

/// Connection jobs waiting for a worker, oldest first.
pub struct JobQueue<T> {
    jobs: Vec<T>,
    closed: bool,
}

impl<T> JobQueue<T> {
    /// The waiting jobs, oldest first.
    pub closed spec fn jobs(&self) -> Seq<T> {
        self.jobs@
    }

    /// Whether shutdown has begun.
    pub closed spec fn is_closed_spec(&self) -> bool {
        self.closed
    }

    /// An open queue with no job.
    pub fn new() -> (r: JobQueue<T>)
        ensures
            r.jobs() == Seq::<T>::empty(),
            !r.is_closed_spec(),
    {
        JobQueue { jobs: Vec::new(), closed: false }
    }

    /// Adds a job behind all waiting ones.
    pub fn push_job(&mut self, job: T)
        requires
            !old(self).is_closed_spec(),
        ensures
            final(self).jobs() == old(self).jobs().push(job),
            !final(self).is_closed_spec(),
    {
        self.jobs.push(job);
    }

    /// Takes the oldest job, if there is one; says whether to wait or stop otherwise.
    pub fn next_job(&mut self) -> (r: WorkerAction<T>)
        ensures
            old(self).jobs().len() > 0 ==> r == WorkerAction::Run(old(self).jobs()[0])
                && final(self).jobs() == old(self).jobs().drop_first(),
            old(self).jobs().len() == 0 ==> final(self).jobs() == old(self).jobs() && (if old(
                self,
            ).is_closed_spec() {
                r is Exit
            } else {
                r is Wait
            }),
            final(self).is_closed_spec() == old(self).is_closed_spec(),
    {
        if self.jobs.len() > 0 {
            let job = self.jobs.remove(0);
            assert(self.jobs@ =~= old(self).jobs@.drop_first());
            WorkerAction::Run(job)
        } else if self.closed {
            WorkerAction::Exit
        } else {
            WorkerAction::Wait
        }
    }

    /// Begins shutdown: no job may be pushed any more; workers stop once it is empty.
    pub fn close(&mut self)
        ensures
            final(self).jobs() == old(self).jobs(),
            final(self).is_closed_spec(),
    {
        self.closed = true;
    }

    /// The number of waiting jobs.
    pub fn len(&self) -> (r: usize)
        ensures
            r == self.jobs().len(),
    {
        self.jobs.len()
    }

    /// Whether no job is waiting.
    pub fn is_empty(&self) -> (r: bool)
        ensures
            r == (self.jobs().len() == 0),
    {
        self.jobs.len() == 0
    }

    /// Whether shutdown has begun.
    pub fn is_closed(&self) -> (r: bool)
        ensures
            r == self.is_closed_spec(),
    {
        self.closed
    }
}

} // verus!
