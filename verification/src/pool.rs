//! The worker pool's coordination, modelled exactly: a fixed worker
//! count, one shared first-in-first-out queue of work, and one
//! sentinel per worker at shutdown. The conservation invariant ties
//! what was submitted to what has completed plus what still queues, so
//! a drained pool has completed every job exactly once, in order.
//!
//! The surrounding process runs this protocol with real threads and a
//! channel; every decision — what a worker receives, when it exits —
//! is the one taken here.

use vstd::prelude::*;

verus! {

/// One unit on the pool's queue: a job, or the sentinel ("no more
/// work") that tells the receiving worker to exit.
#[derive(Clone, Copy, Debug, PartialEq, Eq, Structural)]
pub enum PoolWork {
    /// A job, named by its number.
    Job(u64),
    /// The poison pill: the receiving worker exits its loop.
    Sentinel,
}

/// The jobs a queue holds, in queue order, sentinels left out.
pub open spec fn spec_queued_jobs(q: Seq<PoolWork>) -> Seq<u64>
    decreases q.len(),
{
    if q.len() == 0 {
        Seq::empty()
    } else {
        match q[0] {
            PoolWork::Job(id) => seq![id] + spec_queued_jobs(q.drop_first()),
            PoolWork::Sentinel => spec_queued_jobs(q.drop_first()),
        }
    }
}

/// The number of sentinels a queue holds.
pub open spec fn spec_sentinel_count(q: Seq<PoolWork>) -> nat
    decreases q.len(),
{
    if q.len() == 0 {
        0
    } else {
        match q[0] {
            PoolWork::Job(_) => spec_sentinel_count(q.drop_first()),
            PoolWork::Sentinel => spec_sentinel_count(q.drop_first()) + 1,
        }
    }
}

/// Appending one unit extends the queued jobs and sentinel count in
/// the evident way.
pub proof fn lemma_queue_push(q: Seq<PoolWork>, w: PoolWork)
    ensures
        spec_queued_jobs(q.push(w)) == spec_queued_jobs(q) + (match w {
            PoolWork::Job(id) => seq![id],
            PoolWork::Sentinel => Seq::<u64>::empty(),
        }),
        spec_sentinel_count(q.push(w)) == spec_sentinel_count(q) + (match w {
            PoolWork::Job(_) => 0,
            PoolWork::Sentinel => 1nat,
        }),
    decreases q.len(),
{
    let t = q.push(w);
    if q.len() == 0 {
        assert(t.len() == 1);
        assert(t[0] == w);
        assert(t.drop_first().len() == 0);
        assert(spec_queued_jobs(t.drop_first()) == Seq::<u64>::empty());
        assert(spec_sentinel_count(t.drop_first()) == 0);
        assert(spec_queued_jobs(q) == Seq::<u64>::empty());
        assert(spec_sentinel_count(q) == 0);
        match w {
            PoolWork::Job(id) => {
                assert(spec_queued_jobs(t) =~= spec_queued_jobs(q) + seq![id]);
            },
            PoolWork::Sentinel => {
                assert(spec_queued_jobs(t) =~= spec_queued_jobs(q) + Seq::<u64>::empty());
            },
        }
    } else {
        lemma_queue_push(q.drop_first(), w);
        assert(t[0] == q[0]);
        assert(t.drop_first() =~= q.drop_first().push(w));
        match q[0] {
            PoolWork::Job(id) => {
                assert(spec_queued_jobs(t) == seq![id] + spec_queued_jobs(
                    q.drop_first().push(w),
                ));
                match w {
                    PoolWork::Job(id2) => {
                        assert(seq![id] + (spec_queued_jobs(q.drop_first()) + seq![id2]) =~= (
                        seq![id] + spec_queued_jobs(q.drop_first())) + seq![id2]);
                    },
                    PoolWork::Sentinel => {
                        assert(seq![id] + (spec_queued_jobs(q.drop_first())
                            + Seq::<u64>::empty()) =~= (seq![id] + spec_queued_jobs(
                            q.drop_first(),
                        )) + Seq::<u64>::empty());
                    },
                }
            },
            PoolWork::Sentinel => {
            },
        }
    }
}

/// A model of the worker pool's coordination; see the module doc.
pub struct ThreadPool {
    /// The shared first-in-first-out work queue; the front is at
    /// position zero.
    pub queue: Vec<PoolWork>,
    /// The fixed number of workers the pool was built with.
    pub workers_count: usize,
    /// How many workers have received a sentinel and exited.
    pub stopped: usize,
    /// Whether the pool still accepts work; shutdown ends it.
    pub accepting: bool,
    /// The jobs run to completion, in the order they were taken.
    pub completed: Vec<u64>,
    /// Every job ever submitted, in submission order.
    pub submitted: Ghost<Seq<u64>>,
}

impl ThreadPool {
    /// Conservation: what was submitted is what has completed followed
    /// by what still queues; sentinels exist only after shutdown, one
    /// per worker not yet exited.
    pub open spec fn wf(self) -> bool {
        &&& self.submitted@ == self.completed@ + spec_queued_jobs(self.queue@)
        &&& (self.accepting ==> spec_sentinel_count(self.queue@) == 0 && self.stopped == 0)
        &&& (!self.accepting ==> spec_sentinel_count(self.queue@) + self.stopped
            == self.workers_count)
        &&& self.stopped <= self.workers_count
    }

    /// A fresh pool of `workers_count` workers with an empty queue.
    pub fn new(workers_count: usize) -> (r: Self)
        ensures
            r.wf(),
            r.workers_count == workers_count,
            r.accepting,
            r.queue@.len() == 0,
            r.completed@.len() == 0,
            r.submitted@.len() == 0,
    {
        ThreadPool {
            queue: Vec::new(),
            workers_count,
            stopped: 0,
            accepting: true,
            completed: Vec::new(),
            submitted: Ghost(Seq::empty()),
        }
    }

    /// Enqueues one job at the back of the queue.
    pub fn execute(&mut self, job: u64)
        requires
            old(self).wf(),
            old(self).accepting,
        ensures
            final(self).wf(),
            final(self).accepting,
            final(self).submitted@ == old(self).submitted@.push(job),
            final(self).queue@ == old(self).queue@.push(PoolWork::Job(job)),
            final(self).completed == old(self).completed,
            final(self).workers_count == old(self).workers_count,
            final(self).stopped == old(self).stopped,
    {
        self.queue.push(PoolWork::Job(job));
        proof {
            self.submitted@ = self.submitted@.push(job);
            lemma_queue_push(old(self).queue@, PoolWork::Job(job));
            assert(self.submitted@ =~= self.completed@ + spec_queued_jobs(self.queue@));
        }
    }

    /// Stops accepting work and enqueues one sentinel per worker, so
    /// every worker exits once the queue drains.
    pub fn shutdown(&mut self)
        requires
            old(self).wf(),
            old(self).accepting,
        ensures
            final(self).wf(),
            !final(self).accepting,
            final(self).submitted == old(self).submitted,
            final(self).completed == old(self).completed,
            final(self).workers_count == old(self).workers_count,
            final(self).stopped == old(self).stopped,
            spec_queued_jobs(final(self).queue@) == spec_queued_jobs(old(self).queue@),
    {
        let n = self.workers_count;
        let mut k: usize = 0;
        while k < n
            invariant
                n == self.workers_count,
                k <= n,
                self.workers_count == old(self).workers_count,
                self.stopped == old(self).stopped,
                self.stopped == 0,
                self.accepting,
                self.submitted == old(self).submitted,
                self.completed == old(self).completed,
                spec_queued_jobs(self.queue@) == spec_queued_jobs(old(self).queue@),
                spec_sentinel_count(self.queue@) == k,
                self.submitted@ == self.completed@ + spec_queued_jobs(self.queue@),
            decreases n - k,
        {
            proof {
                lemma_queue_push(self.queue@, PoolWork::Sentinel);
            }
            self.queue.push(PoolWork::Sentinel);
            proof {
                assert(self.submitted@ =~= self.completed@ + spec_queued_jobs(self.queue@));
            }
            k += 1;
        }
        self.accepting = false;
    }

    /// One worker takes the unit at the front of the queue, if any: a
    /// job is run to completion, a sentinel makes the worker exit.
    pub fn step(&mut self) -> (r: Option<PoolWork>)
        requires
            old(self).wf(),
        ensures
            final(self).wf(),
            final(self).submitted == old(self).submitted,
            final(self).workers_count == old(self).workers_count,
            final(self).accepting == old(self).accepting,
            old(self).queue@.len() == 0 ==> r is None && *final(self) == *old(self),
            old(self).queue@.len() > 0 ==> r == Some(old(self).queue@[0]) && final(self).queue@
                == old(self).queue@.drop_first() && (match old(self).queue@[0] {
                PoolWork::Job(id) => final(self).completed@ == old(self).completed@.push(id)
                    && final(self).stopped == old(self).stopped,
                PoolWork::Sentinel => final(self).completed == old(self).completed
                    && final(self).stopped == old(self).stopped + 1,
            }),
    {
        if self.queue.len() == 0 {
            return None;
        }
        let w = self.queue.remove(0);
        proof {
            assert(old(self).queue@.drop_first() =~= self.queue@);
        }
        match w {
            PoolWork::Job(id) => {
                self.completed.push(id);
                proof {
                    assert(spec_queued_jobs(old(self).queue@) == seq![id] + spec_queued_jobs(
                        self.queue@,
                    ));
                    assert(old(self).completed@ + (seq![id] + spec_queued_jobs(self.queue@)) =~= (
                    old(self).completed@ + seq![id]) + spec_queued_jobs(self.queue@));
                    assert(old(self).completed@ + seq![id] =~= self.completed@);
                }
                Some(PoolWork::Job(id))
            },
            PoolWork::Sentinel => {
                proof {
                    assert(spec_sentinel_count(old(self).queue@) == spec_sentinel_count(
                        self.queue@,
                    ) + 1);
                }
                self.stopped = self.stopped + 1;
                Some(PoolWork::Sentinel)
            },
        }
    }

    /// Workers take units until the queue is empty: every queued job
    /// completes, in order, and every queued sentinel stops a worker.
    pub fn drain(&mut self)
        requires
            old(self).wf(),
        ensures
            final(self).wf(),
            final(self).queue@.len() == 0,
            final(self).submitted == old(self).submitted,
            final(self).workers_count == old(self).workers_count,
            final(self).accepting == old(self).accepting,
            final(self).completed@ == old(self).completed@ + spec_queued_jobs(old(self).queue@),
            final(self).stopped == old(self).stopped + spec_sentinel_count(old(self).queue@),
    {
        while self.queue.len() != 0
            invariant
                self.wf(),
                self.submitted == old(self).submitted,
                self.workers_count == old(self).workers_count,
                self.accepting == old(self).accepting,
                old(self).completed@ + spec_queued_jobs(old(self).queue@) == self.completed@
                    + spec_queued_jobs(self.queue@),
                old(self).stopped + spec_sentinel_count(old(self).queue@) == self.stopped
                    + spec_sentinel_count(self.queue@),
            decreases self.queue@.len(),
        {
            let ghost before = *self;
            let _ = self.step();
            proof {
                if before.queue@[0] is Job {
                    let id = before.queue@[0]->0;
                    assert(spec_queued_jobs(before.queue@) == seq![id] + spec_queued_jobs(
                        self.queue@,
                    ));
                    assert(before.completed@ + (seq![id] + spec_queued_jobs(self.queue@)) =~= (
                    before.completed@ + seq![id]) + spec_queued_jobs(self.queue@));
                    assert(before.completed@ + seq![id] =~= self.completed@);
                } else {
                    assert(spec_queued_jobs(before.queue@) == spec_queued_jobs(self.queue@));
                    assert(spec_sentinel_count(before.queue@) == spec_sentinel_count(self.queue@)
                        + 1);
                }
            }
        }
        proof {
            assert(spec_queued_jobs(self.queue@) == Seq::<u64>::empty());
            assert(spec_sentinel_count(self.queue@) == 0);
            assert(old(self).completed@ + spec_queued_jobs(old(self).queue@) =~= self.completed@);
        }
    }
}

/// Once the queue is drained, every job ever submitted has completed,
/// in submission order: each exactly once, none lost, none run twice.
pub proof fn lemma_drained_pool_ran_everything(p: ThreadPool)
    requires
        p.wf(),
        p.queue@.len() == 0,
    ensures
        p.completed@ == p.submitted@,
{
    assert(spec_queued_jobs(p.queue@) == Seq::<u64>::empty());
    assert(p.completed@ + Seq::<u64>::empty() =~= p.completed@);
}

/// Once the pool has shut down and the queue is drained, every worker
/// has received its sentinel and exited.
pub proof fn lemma_drained_pool_stopped_workers(p: ThreadPool)
    requires
        p.wf(),
        p.queue@.len() == 0,
        !p.accepting,
    ensures
        p.stopped == p.workers_count,
{
    assert(spec_sentinel_count(p.queue@) == 0);
}

} // verus!
