//! Coordination model of the fixed-size worker pool.
//!
//! The pool owns one FIFO work queue and a fixed set of workers. Each
//! submitted unit of work carries a fresh identifier; a worker takes the
//! front of the queue, executes it, and goes back for more. Closing the
//! queue is the shutdown signal: a worker observes closure only once the
//! queue has drained, and may be joined only after the queue is closed —
//! joining first would wait forever on a worker that is still blocked on
//! an open queue.
//!
//! The threads themselves run outside this crate; they drive this model,
//! whose contracts pin down the delivery discipline: nothing is lost,
//! nothing runs twice, and never more units at once than workers.

use vstd::prelude::*;

verus! {

use vstd::multiset::Multiset;
use vstd::seq_lib::*;

broadcast use vstd::multiset::group_multiset_axioms;

/// Why a pool could not be constructed.
#[derive(Debug, PartialEq, Eq, Clone, Copy, Structural)]
pub enum PoolCreationError {
    InvalidSize,
}

impl PoolCreationError {
    /// A short account of the error, as it is logged.
    pub fn message(&self) -> (r: &'static str)
        ensures
            r@ == "The pool size must be greater than 0"@,
    {
        "The pool size must be greater than 0"
    }
}

/// One worker's place in its lifecycle: waiting at the queue, executing
/// the unit with the given identifier, terminated after observing closure,
/// or joined during teardown.
#[derive(Debug, PartialEq, Eq, Clone, Copy, Structural)]
pub enum WorkerPhase {
    Idle,
    Busy(u64),
    Done,
    Joined,
}

/// The units of work a single worker is executing: one when busy, none
/// otherwise.
pub open spec fn phase_jobs(ph: WorkerPhase) -> Multiset<u64> {
    match ph {
        WorkerPhase::Busy(j) => Multiset::empty().insert(j),
        _ => Multiset::empty(),
    }
}

/// All units of work currently executing across the workers.
pub open spec fn busy_jobs(ws: Seq<WorkerPhase>) -> Multiset<u64>
    decreases ws.len(),
{
    if ws.len() == 0 {
        Multiset::empty()
    } else {
        phase_jobs(ws[0]).add(busy_jobs(ws.drop_first()))
    }
}

proof fn lemma_busy_jobs_update(ws: Seq<WorkerPhase>, w: int, ph: WorkerPhase)
    requires
        0 <= w < ws.len(),
    ensures
        busy_jobs(ws.update(w, ph)).add(phase_jobs(ws[w])) =~= busy_jobs(ws).add(phase_jobs(ph)),
    decreases ws.len(),
{
    let u = ws.update(w, ph);
    assert(u.len() == ws.len());
    if w == 0 {
        assert(u.drop_first() =~= ws.drop_first());
        assert(busy_jobs(u) == phase_jobs(ph).add(busy_jobs(ws.drop_first())));
        assert(busy_jobs(ws) == phase_jobs(ws[0]).add(busy_jobs(ws.drop_first())));
        assert forall|x: u64|
            busy_jobs(u).add(phase_jobs(ws[0])).count(x) == busy_jobs(ws).add(
                phase_jobs(ph),
            ).count(x) by {}
        assert(busy_jobs(u).add(phase_jobs(ws[0])) =~= busy_jobs(ws).add(phase_jobs(ph)));
    } else {
        assert(u.drop_first() =~= ws.drop_first().update(w - 1, ph));
        lemma_busy_jobs_update(ws.drop_first(), w - 1, ph);
        assert(u[0] == ws[0]);
        assert(busy_jobs(u) == phase_jobs(ws[0]).add(busy_jobs(ws.drop_first().update(w - 1, ph))));
        assert(busy_jobs(ws) == phase_jobs(ws[0]).add(busy_jobs(ws.drop_first())));
        assert(ws.drop_first()[w - 1] == ws[w]);
        assert forall|x: u64|
            busy_jobs(u).add(phase_jobs(ws[w])).count(x) == busy_jobs(ws).add(
                phase_jobs(ph),
            ).count(x) by {
            assert(busy_jobs(ws.drop_first().update(w - 1, ph)).add(phase_jobs(ws[w])).count(x)
                == busy_jobs(ws.drop_first()).add(phase_jobs(ph)).count(x));
        }
        assert(busy_jobs(u).add(phase_jobs(ws[w])) =~= busy_jobs(ws).add(phase_jobs(ph)));
    }
}

proof fn lemma_busy_jobs_none_busy(ws: Seq<WorkerPhase>)
    requires
        forall|w: int| 0 <= w < ws.len() ==> !(ws[w] is Busy),
    ensures
        busy_jobs(ws) =~= Multiset::empty(),
    decreases ws.len(),
{
    if ws.len() > 0 {
        assert(forall|w: int| 0 <= w < ws.drop_first().len() ==> !(ws.drop_first()[w] is Busy));
        lemma_busy_jobs_none_busy(ws.drop_first());
    }
}

proof fn lemma_busy_jobs_len(ws: Seq<WorkerPhase>)
    ensures
        busy_jobs(ws).len() <= ws.len(),
    decreases ws.len(),
{
    if ws.len() > 0 {
        lemma_busy_jobs_len(ws.drop_first());
    }
}

/// The pool's coordination state: the queue of submitted identifiers, the
/// closure flag, each worker's phase, and the identifiers of the units
/// already executed to completion. The ghost histories record every
/// submission and every delivery in order.
pub struct PoolState {
    /// Identifier handed to the next submission.
    pub next_id: u64,
    /// Identifiers submitted but not yet taken by a worker, front first.
    pub pending: Vec<u64>,
    /// Whether the producer side of the queue has been dropped.
    pub closed: bool,
    /// Phase of each worker, indexed by worker id.
    pub workers: Vec<WorkerPhase>,
    /// Identifiers of units executed to completion, in completion order.
    pub executed: Vec<u64>,
    /// Every identifier ever submitted, in submission order.
    pub submitted: Ghost<Seq<u64>>,
    /// Every identifier handed to a worker, in delivery order.
    pub delivered: Ghost<Seq<u64>>,
}

impl PoolState {
    /// The pool's invariant. Submissions are numbered consecutively;
    /// whatever was submitted is delivered or still pending, in order; and
    /// whatever was delivered is executed or still in a worker's hands.
    pub open spec fn wf(self) -> bool {
        &&& self.submitted@.len() == self.next_id
        &&& forall|i: int| 0 <= i < self.submitted@.len() ==> self.submitted@[i] == i as u64
        &&& self.delivered@ + self.pending@ == self.submitted@
        &&& self.delivered@.to_multiset() == self.executed@.to_multiset().add(
            busy_jobs(self.workers@),
        )
    }

    /// A pool that has just been built: `size` idle workers, an open and
    /// empty queue, and no history.
    pub open spec fn fresh(self, size: u32) -> bool {
        &&& self.wf()
        &&& self.workers@.len() == size
        &&& forall|w: int| 0 <= w < self.workers@.len() ==> self.workers@[w] is Idle
        &&& self.next_id == 0
        &&& self.pending@.len() == 0
        &&& self.executed@.len() == 0
        &&& !self.closed
        &&& self.submitted@ =~= Seq::<u64>::empty()
        &&& self.delivered@ =~= Seq::<u64>::empty()
    }

    fn make(size: u32) -> (p: PoolState)
        requires
            size >= 1,
        ensures
            p.fresh(size),
    {
        let mut workers: Vec<WorkerPhase> = Vec::new();
        let mut w: usize = 0;
        while w < size as usize
            invariant
                w <= size as usize,
                workers@.len() == w,
                forall|k: int| 0 <= k < workers@.len() ==> workers@[k] is Idle,
            decreases size as usize - w,
        {
            workers.push(WorkerPhase::Idle);
            w = w + 1;
        }
        let p = PoolState {
            next_id: 0,
            pending: Vec::new(),
            closed: false,
            workers,
            executed: Vec::new(),
            submitted: Ghost(Seq::empty()),
            delivered: Ghost(Seq::empty()),
        };
        proof {
            assert(p.delivered@ + p.pending@ =~= p.submitted@);
            p.executed@.to_multiset_ensures();
            p.delivered@.to_multiset_ensures();
            lemma_busy_jobs_none_busy(p.workers@);
            assert(p.delivered@.to_multiset() =~= p.executed@.to_multiset().add(
                busy_jobs(p.workers@),
            ));
        }
        p
    }

    /// Builds a pool of `size` workers. A size of zero is refused with
    /// `InvalidSize`; no workers are created in that case.
    pub fn build(size: u32) -> (r: Result<PoolState, PoolCreationError>)
        ensures
            size == 0 <==> r is Err,
            r matches Err(e) ==> e == PoolCreationError::InvalidSize,
            r matches Ok(p) ==> p.fresh(size),
    {
        if size == 0 {
            Err(PoolCreationError::InvalidSize)
        } else {
            Ok(PoolState::make(size))
        }
    }

    /// Builds a pool of `size` workers; a size of zero is a caller error
    /// (the unchecked counterpart of `build`).
    pub fn new(size: u32) -> (p: PoolState)
        requires
            size >= 1,
        ensures
            p.fresh(size),
    {
        PoolState::make(size)
    }

    /// Submits one unit of work: it joins the back of the queue under a
    /// fresh identifier, which is returned.
    pub fn execute(&mut self) -> (id: u64)
        requires
            old(self).wf(),
            !old(self).closed,
            old(self).next_id < u64::MAX,
        ensures
            final(self).wf(),
            id == old(self).next_id,
            final(self).next_id == old(self).next_id + 1,
            final(self).submitted@ == old(self).submitted@.push(id),
            final(self).pending@ == old(self).pending@.push(id),
            final(self).delivered == old(self).delivered,
            final(self).executed == old(self).executed,
            final(self).workers == old(self).workers,
            final(self).closed == old(self).closed,
    {
        let id = self.next_id;
        self.next_id = self.next_id + 1;
        self.pending.push(id);
        self.submitted = Ghost(self.submitted@.push(id));
        proof {
            assert(self.delivered@ + self.pending@ =~= self.submitted@);
        }
        id
    }

    /// Drops the producer side of the queue: the shutdown signal. Workers
    /// still drain whatever is pending before they observe closure.
    pub fn close(&mut self)
        requires
            old(self).wf(),
        ensures
            final(self).wf(),
            final(self).closed,
            *final(self) == (PoolState { closed: true, ..*old(self) }),
    {
        self.closed = true;
    }

    /// One worker's turn at the queue. If a unit is pending, the worker
    /// takes the front one — FIFO, and closure is never observed while
    /// work is pending, so no submitted unit is dropped. Only on an empty,
    /// closed queue does the worker observe closure and terminate. A
    /// worker with nothing pending on an open queue stays blocked, so this
    /// turn requires one or the other.
    pub fn worker_fetch(&mut self, w: usize) -> (msg: Option<u64>)
        requires
            old(self).wf(),
            w < old(self).workers@.len(),
            (old(self).workers@[w as int] is Idle),
            old(self).pending@.len() > 0 || old(self).closed,
        ensures
            final(self).wf(),
            final(self).next_id == old(self).next_id,
            final(self).closed == old(self).closed,
            final(self).executed == old(self).executed,
            final(self).submitted == old(self).submitted,
            if old(self).pending@.len() > 0 {
                &&& msg == Some(old(self).pending@[0])
                &&& final(self).pending@ == old(self).pending@.drop_first()
                &&& final(self).workers@ == old(self).workers@.update(
                    w as int,
                    WorkerPhase::Busy(old(self).pending@[0]),
                )
                &&& final(self).delivered@ == old(self).delivered@.push(old(self).pending@[0])
            } else {
                &&& msg is None
                &&& final(self).pending == old(self).pending
                &&& final(self).workers@ == old(self).workers@.update(w as int, WorkerPhase::Done)
                &&& final(self).delivered == old(self).delivered
            },
    {
        if self.pending.len() > 0 {
            let job = self.pending.remove(0);
            self.workers[w] = WorkerPhase::Busy(job);
            self.delivered = Ghost(self.delivered@.push(job));
            proof {
                let ws0 = old(self).workers@;
                let ph = WorkerPhase::Busy(job);
                assert(self.pending@ =~= old(self).pending@.drop_first());
                assert(self.delivered@ + self.pending@ =~= old(self).delivered@
                    + old(self).pending@);
                old(self).delivered@.to_multiset_ensures();
                assert(self.workers@ == ws0.update(w as int, ph));
                lemma_busy_jobs_update(ws0, w as int, ph);
                assert forall|x: u64|
                    busy_jobs(self.workers@).count(x) == busy_jobs(ws0).insert(job).count(x) by {
                    assert(busy_jobs(ws0.update(w as int, ph)).add(phase_jobs(ws0[w as int])).count(
                        x,
                    ) == busy_jobs(ws0).add(phase_jobs(ph)).count(x));
                }
                assert(busy_jobs(self.workers@) =~= busy_jobs(ws0).insert(job));
                assert(self.delivered@.to_multiset() =~= self.executed@.to_multiset().add(
                    busy_jobs(self.workers@),
                ));
            }
            Some(job)
        } else {
            self.workers[w] = WorkerPhase::Done;
            proof {
                let ws0 = old(self).workers@;
                assert(self.workers@ == ws0.update(w as int, WorkerPhase::Done));
                lemma_busy_jobs_update(ws0, w as int, WorkerPhase::Done);
                assert forall|x: u64|
                    busy_jobs(self.workers@).count(x) == busy_jobs(ws0).count(x) by {
                    assert(busy_jobs(ws0.update(w as int, WorkerPhase::Done)).add(
                        phase_jobs(ws0[w as int]),
                    ).count(x) == busy_jobs(ws0).add(phase_jobs(WorkerPhase::Done)).count(x));
                }
                assert(busy_jobs(self.workers@) =~= busy_jobs(ws0));
            }
            None
        }
    }

    /// A worker finishes the unit it was executing and returns to the
    /// queue; the unit's identifier is recorded as executed.
    pub fn worker_finish(&mut self, w: usize)
        requires
            old(self).wf(),
            w < old(self).workers@.len(),
            (old(self).workers@[w as int] is Busy),
        ensures
            final(self).wf(),
            final(self).next_id == old(self).next_id,
            final(self).closed == old(self).closed,
            final(self).pending == old(self).pending,
            final(self).submitted == old(self).submitted,
            final(self).delivered == old(self).delivered,
            final(self).workers@ == old(self).workers@.update(w as int, WorkerPhase::Idle),
            final(self).executed@ == old(self).executed@.push(old(self).workers@[w as int]->Busy_0),
    {
        let ph = self.workers[w];
        match ph {
            WorkerPhase::Busy(job) => {
                self.workers[w] = WorkerPhase::Idle;
                self.executed.push(job);
                proof {
                    let ws0 = old(self).workers@;
                    old(self).executed@.to_multiset_ensures();
                    assert(self.workers@ == ws0.update(w as int, WorkerPhase::Idle));
                    lemma_busy_jobs_update(ws0, w as int, WorkerPhase::Idle);
                    assert forall|x: u64|
                        busy_jobs(self.workers@).insert(job).count(x) == busy_jobs(ws0).count(
                            x,
                        ) by {
                        assert(busy_jobs(ws0.update(w as int, WorkerPhase::Idle)).add(
                            phase_jobs(ws0[w as int]),
                        ).count(x) == busy_jobs(ws0).add(phase_jobs(WorkerPhase::Idle)).count(x));
                    }
                    assert(busy_jobs(self.workers@).insert(job) =~= busy_jobs(ws0));
                    assert(self.executed@.to_multiset().add(busy_jobs(self.workers@))
                        =~= old(self).executed@.to_multiset().add(busy_jobs(ws0)));
                }
            },
            _ => {
                proof {
                    assert(false);
                }
            },
        }
    }

    /// Joins one terminated worker during teardown. The queue must already
    /// be closed: joining before closing would wait forever on a worker
    /// that is still blocked on the open queue.
    pub fn join_worker(&mut self, w: usize)
        requires
            old(self).wf(),
            old(self).closed,
            w < old(self).workers@.len(),
            (old(self).workers@[w as int] is Done),
        ensures
            final(self).wf(),
            final(self).workers@ == old(self).workers@.update(w as int, WorkerPhase::Joined),
            *final(self) == (PoolState { workers: final(self).workers, ..*old(self) }),
    {
        self.workers[w] = WorkerPhase::Joined;
        proof {
            let ws0 = old(self).workers@;
            assert(self.workers@ == ws0.update(w as int, WorkerPhase::Joined));
            lemma_busy_jobs_update(ws0, w as int, WorkerPhase::Joined);
            assert forall|x: u64| busy_jobs(self.workers@).count(x) == busy_jobs(ws0).count(x) by {
                assert(busy_jobs(ws0.update(w as int, WorkerPhase::Joined)).add(
                    phase_jobs(ws0[w as int]),
                ).count(x) == busy_jobs(ws0).add(phase_jobs(WorkerPhase::Joined)).count(x));
            }
            assert(busy_jobs(self.workers@) =~= busy_jobs(ws0));
        }
    }

    /// Teardown's second half: joins every worker, leaving none behind.
    /// It comes after the close and after each worker has observed
    /// closure; afterwards every worker has been joined — no thread is
    /// leaked.
    pub fn join_all(&mut self)
        requires
            old(self).wf(),
            old(self).closed,
            forall|w: int|
                0 <= w < old(self).workers@.len() ==> (old(self).workers@[w] is Done
                    || old(self).workers@[w] is Joined),
        ensures
            final(self).wf(),
            final(self).workers@.len() == old(self).workers@.len(),
            forall|w: int| 0 <= w < final(self).workers@.len() ==> (final(self).workers@[w] is Joined),
            *final(self) == (PoolState { workers: final(self).workers, ..*old(self) }),
    {
        let n = self.workers.len();
        let mut w: usize = 0;
        while w < n
            invariant
                n == self.workers@.len(),
                w <= n,
                self.wf(),
                self.closed,
                forall|k: int| 0 <= k < w ==> self.workers@[k] is Joined,
                forall|k: int|
                    w <= k < n ==> self.workers@[k] is Done || self.workers@[k] is Joined,
                *self == (PoolState { workers: self.workers, ..*old(self) }),
            decreases n - w,
        {
            let ph = self.workers[w];
            match ph {
                WorkerPhase::Done => {
                    self.join_worker(w);
                },
                _ => {},
            }
            w = w + 1;
        }
    }
}

/// Once the queue has drained and every worker has come to rest, every
/// submitted unit of work has been executed exactly once — none lost, none
/// run twice — and as many units were executed as were submitted.
pub proof fn lemma_all_work_executed_once(p: PoolState)
    requires
        p.wf(),
        p.pending@.len() == 0,
        forall|w: int| 0 <= w < p.workers@.len() ==> !(p.workers@[w] is Busy),
    ensures
        p.executed@.to_multiset() == p.submitted@.to_multiset(),
        p.executed@.len() == p.submitted@.len(),
        forall|i: int|
            0 <= i < p.submitted@.len() ==> p.executed@.to_multiset().count(p.submitted@[i]) == 1,
{
    lemma_busy_jobs_none_busy(p.workers@);
    assert(p.delivered@ + p.pending@ =~= p.delivered@);
    assert(p.delivered@ =~= p.submitted@);
    p.executed@.to_multiset_ensures();
    p.submitted@.to_multiset_ensures();
    assert(p.executed@.to_multiset() =~= p.executed@.to_multiset().add(Multiset::empty()));
    assert(p.executed@.to_multiset() =~= p.submitted@.to_multiset());
    assert(p.submitted@.no_duplicates());
    p.submitted@.lemma_multiset_has_no_duplicates();
    assert forall|i: int| 0 <= i < p.submitted@.len() implies p.executed@.to_multiset().count(
        p.submitted@[i],
    ) == 1 by {
        assert(p.submitted@.contains(p.submitted@[i]));
    }
}

/// Never more units of work in execution at once than the pool has
/// workers.
pub proof fn lemma_concurrency_bounded(p: PoolState)
    ensures
        busy_jobs(p.workers@).len() <= p.workers@.len(),
{
    lemma_busy_jobs_len(p.workers@);
}

} // verus!
