//! The print queue shared by all connections: submitted jobs wait in order,
//! workers take them one at a time and report them finished.

use vstd::prelude::*;
use std::collections::VecDeque;
use crate::task::{PrintTask, TaskView};
use crate::text::str_equal;

verus! {

/// A print job: a task and whether to print it without dialogs.
#[derive(Debug)]
pub struct PrintJob {
    pub job_id: String,
    pub task: PrintTask,
    pub silent: bool,
}

/// The mathematical form of a job.
pub struct JobView {
    pub job_id: Seq<char>,
    pub task: TaskView,
    pub silent: bool,
}

impl View for PrintJob {
    type V = JobView;

    open spec fn view(&self) -> JobView {
        JobView { job_id: self.job_id@, task: self.task@, silent: self.silent }
    }
}

/// The queue of waiting jobs and the ids of the jobs being printed.
#[derive(Debug)]
pub struct PrintManager {
    queue: VecDeque<PrintJob>,
    running: Vec<String>,
    max_concurrent: usize,
}

/// The mathematical form of the queue.
pub struct QueueView {
    /// Waiting jobs, oldest first.
    pub waiting: Seq<JobView>,
    /// Ids of the jobs taken and not yet finished, in the order taken.
    pub running: Seq<Seq<char>>,
    pub max_concurrent: usize,
}

impl View for PrintManager {
    type V = QueueView;

    closed spec fn view(&self) -> QueueView {
        QueueView {
            waiting: self.queue@.map_values(|j: PrintJob| j@),
            running: self.running@.map_values(|s: String| s@),
            max_concurrent: self.max_concurrent,
        }
    }
}

/// The running ids without `id`.
pub open spec fn without_id(s: Seq<Seq<char>>, id: Seq<char>) -> Seq<Seq<char>> {
    s.filter(|x: Seq<char>| x != id)
}

impl PrintManager {
    /// An empty queue for this many concurrent workers.
    pub fn new(max_concurrent: usize) -> (m: PrintManager)
        ensures
            m@ == (QueueView { waiting: Seq::empty(), running: Seq::empty(), max_concurrent }),
    {
        let m = PrintManager { queue: VecDeque::new(), running: Vec::new(), max_concurrent };
        assert(m@.waiting =~= Seq::<JobView>::empty());
        assert(m@.running =~= Seq::<Seq<char>>::empty());
        m
    }

    /// Adds a task at the end of the queue; the job's id is the task's id.
    pub fn submit(&mut self, task: PrintTask, silent: bool) -> (job_id: String)
        ensures
            job_id@ == task@.task_id,
            final(self)@ == (QueueView {
                waiting: old(self)@.waiting.push(JobView { job_id: task@.task_id, task: task@, silent }),
                ..old(self)@
            }),
    {
        let job_id = task.task_id.clone();
        let job = PrintJob { job_id: job_id.clone(), task, silent };
        self.queue.push_back(job);
        assert(self@.waiting =~= old(self)@.waiting.push(JobView { job_id: job_id@, task: task@, silent }));
        job_id
    }

    /// Takes the oldest waiting job, if any, and marks it running.
    pub fn next_job(&mut self) -> (r: Option<PrintJob>)
        ensures
            old(self)@.waiting.len() == 0 ==> r is None && final(self)@ == old(self)@,
            old(self)@.waiting.len() > 0 ==> (r matches Some(j) && j@ == old(self)@.waiting[0]
                && final(self)@ == (QueueView {
                waiting: old(self)@.waiting.drop_first(),
                running: old(self)@.running.push(j@.job_id),
                ..old(self)@
            })),
    {
        match self.queue.pop_front() {
            Some(job) => {
                self.running.push(job.job_id.clone());
                assert(self@.waiting =~= old(self)@.waiting.drop_first());
                assert(self@.running =~= old(self)@.running.push(job@.job_id));
                Some(job)
            },
            None => {
                assert(self@.waiting =~= old(self)@.waiting);
                None
            },
        }
    }

    /// Marks a job finished: every running entry with its id is dropped.
    pub fn finish(&mut self, job: &PrintJob)
        ensures
            final(self)@ == (QueueView {
                running: without_id(old(self)@.running, job@.job_id),
                ..old(self)@
            }),
    {
        let mut kept: Vec<String> = Vec::new();
        let ghost old_run = old(self)@.running;
        let n = self.running.len();
        for i in 0..n
            invariant
                n == self.running.len(),
                old_run == self.running@.map_values(|s: String| s@),
                kept@.map_values(|s: String| s@) == without_id(old_run.take(i as int), job@.job_id),
        {
            let ghost before = kept@.map_values(|s: String| s@);
            assert(old_run.take(i + 1).drop_last() =~= old_run.take(i as int));
            assert(old_run.take(i + 1).last() == self.running@[i as int]@);
            if !str_equal(self.running[i].as_str(), job.job_id.as_str()) {
                kept.push(self.running[i].clone());
                assert(kept@.map_values(|s: String| s@) =~= before.push(self.running@[i as int]@));
            }
            assert(without_id(old_run.take(i + 1), job@.job_id) == if old_run[i as int] != job@.job_id {
                without_id(old_run.take(i as int), job@.job_id).push(old_run[i as int])
            } else {
                without_id(old_run.take(i as int), job@.job_id)
            }) by {
                reveal(Seq::filter);
            }
        }
        assert(old_run.take(n as int) =~= old_run);
        self.running = kept;
        assert(self@.waiting =~= old(self)@.waiting);
    }

    /// How many jobs are running.
    pub fn running_count(&self) -> (n: usize)
        ensures
            n == self@.running.len(),
    {
        self.running.len()
    }

    /// How many jobs are waiting.
    pub fn queue_len(&self) -> (n: usize)
        ensures
            n == self@.waiting.len(),
    {
        self.queue.len()
    }
}

} // verus!
