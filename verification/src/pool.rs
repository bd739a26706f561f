//! The books of a worker pool: a queue of jobs and a fixed set of workers.
//!
//! The pool itself does not run anything. Whoever owns the threads keeps one
//! [`WorkerPool`] behind a lock: submitters call [`WorkerPool::submit`], every worker
//! calls [`WorkerPool::next_job`] whenever it is free and does what it is told, and
//! the owner calls [`WorkerPool::shutdown`] before it joins the workers.
//!
//! Jobs leave the queue in the order in which they came, each to the one worker
//! that asked. A worker that asks again has finished the job it held. Closing the
//! queue turns away new jobs; the queued ones are still handed out, and a worker is
//! sent home only when the queue is closed and empty.
//!
//! [`PoolView`] is the mathematical model, with the transitions as spec functions
//! and a ledger of what was accepted and what was finished. The laws at the end of
//! the model are proved of every sequence of events.

use vstd::prelude::*;
use vstd::multiset::Multiset;
use vstd::seq_lib::to_multiset_build;
use std::collections::VecDeque;

verus! {

/// What a worker is doing, as far as the pool knows.
#[derive(Clone, Copy, Debug, PartialEq, Eq, Structural)]
pub enum WorkerState {
    /// Waiting for a job.
    Idle,
    /// Running the job it was handed last.
    Busy,
    /// Sent home; it gets no more jobs.
    Exited,
}

/// What a worker is told when it asks for its next job.
pub enum Directive<J> {
    /// Run this job, then ask again.
    Run(J),
    /// Nothing is queued: wait until something changes, then ask again.
    Wait,
    /// The queue is closed and empty: stop.
    Exit,
}

/// A worker in the model: a busy worker holds its job.
pub enum Worker<J> {
    Idle,
    Busy(J),
    Exited,
}

impl<J> Worker<J> {
    /// The job that the worker holds, as a multiset of at most one job.
    pub open spec fn held(self) -> Multiset<J> {
        match self {
            Worker::Busy(job) => Multiset::singleton(job),
            _ => Multiset::empty(),
        }
    }

    /// The state that the pool shows for the worker.
    pub open spec fn state(self) -> WorkerState {
        match self {
            Worker::Idle => WorkerState::Idle,
            Worker::Busy(_) => WorkerState::Busy,
            Worker::Exited => WorkerState::Exited,
        }
    }
}

/// An entry of the ledger: `worker` ran `job` to its end.
pub struct Run<J> {
    pub worker: int,
    pub job: J,
}

/// Something that happens to a pool.
pub enum PoolEvent<J> {
    /// A job is submitted.
    Submit(J),
    /// The worker with this number asks for its next job.
    Ask(int),
    /// The queue is closed.
    Shutdown,
}

/// The jobs that the workers hold.
pub open spec fn in_flight<J>(workers: Seq<Worker<J>>) -> Multiset<J>
    decreases workers.len(),
{
    if workers.len() == 0 {
        Multiset::empty()
    } else {
        in_flight(workers.drop_last()).add(workers.last().held())
    }
}

/// The jobs of the entries of a ledger, in order.
pub open spec fn jobs_of<J>(runs: Seq<Run<J>>) -> Seq<J> {
    runs.map_values(|run: Run<J>| run.job)
}

/// The model of a pool.
pub struct PoolView<J> {
    /// The workers, by number.
    pub workers: Seq<Worker<J>>,
    /// The queue: the jobs that no worker has taken yet, oldest first.
    pub pending: Seq<J>,
    /// Whether the queue still takes jobs.
    pub open: bool,
    /// Ledger: every job that was ever accepted, in order.
    pub accepted: Seq<J>,
    /// Ledger: every job that a worker has finished, in order, with the worker.
    pub finished: Seq<Run<J>>,
}

impl<J> PoolView<J> {
    /// A new pool of `size` idle workers.
    pub open spec fn fresh(size: nat) -> Self {
        PoolView {
            workers: Seq::new(size, |w: int| Worker::Idle),
            pending: Seq::empty(),
            open: true,
            accepted: Seq::empty(),
            finished: Seq::empty(),
        }
    }

    /// Whether `worker` is the number of a worker of this pool.
    pub open spec fn in_pool(self, worker: int) -> bool {
        0 <= worker < self.workers.len()
    }

    /// Whether `worker` is a worker of this pool that has not been sent home.
    pub open spec fn serves(self, worker: int) -> bool {
        self.in_pool(worker) && !(self.workers[worker] is Exited)
    }

    /// Whether every worker has been sent home.
    pub open spec fn terminated(self) -> bool {
        forall|w: int| 0 <= w < self.workers.len() ==> self.workers[w] is Exited
    }

    /// The accepted jobs that have left the queue, in order.
    pub open spec fn started(self) -> Seq<J> {
        self.accepted.take(self.accepted.len() - self.pending.len())
    }

    /// The finished jobs, in order.
    pub open spec fn completed(self) -> Seq<J> {
        jobs_of(self.finished)
    }

    /// The pool after `job` was submitted: queued if the queue is open, and turned
    /// away otherwise.
    pub open spec fn submit(self, job: J) -> Self {
        if self.open {
            PoolView {
                pending: self.pending.push(job),
                accepted: self.accepted.push(job),
                ..self
            }
        } else {
            self
        }
    }

    /// The pool after its queue was closed.
    pub open spec fn shutdown(self) -> Self {
        PoolView { open: false, ..self }
    }

    /// What `worker` is told when it asks: the oldest queued job if there is one;
    /// else to wait while the queue is open, and to stop once it is closed. Whoever
    /// is no worker of the pool, or was sent home before, is told to stop.
    pub open spec fn directive(self, worker: int) -> Directive<J> {
        if !self.serves(worker) {
            Directive::Exit
        } else if self.pending.len() > 0 {
            Directive::Run(self.pending[0])
        } else if self.open {
            Directive::Wait
        } else {
            Directive::Exit
        }
    }

    /// The ledger of finished jobs once `worker` has asked again: the job it held,
    /// if any, is finished.
    pub open spec fn settled(self, worker: int) -> Seq<Run<J>> {
        match self.workers[worker] {
            Worker::Busy(job) => self.finished.push(Run { worker, job }),
            _ => self.finished,
        }
    }

    /// The pool after `worker` asked for its next job.
    pub open spec fn next_job(self, worker: int) -> Self {
        if !self.serves(worker) {
            self
        } else {
            match self.directive(worker) {
                Directive::Run(job) => PoolView {
                    workers: self.workers.update(worker, Worker::Busy(job)),
                    pending: self.pending.drop_first(),
                    finished: self.settled(worker),
                    ..self
                },
                Directive::Wait => PoolView {
                    workers: self.workers.update(worker, Worker::Idle),
                    finished: self.settled(worker),
                    ..self
                },
                Directive::Exit => PoolView {
                    workers: self.workers.update(worker, Worker::Exited),
                    finished: self.settled(worker),
                    ..self
                },
            }
        }
    }

    /// The pool after `worker` asked for its next job `times` times in a row.
    pub open spec fn asks(self, worker: int, times: nat) -> Self
        decreases times,
    {
        if times == 0 {
            self
        } else {
            self.next_job(worker).asks(worker, (times - 1) as nat)
        }
    }

    /// The pool after each of the first `upto` workers asked once, in the order of
    /// their numbers.
    pub open spec fn round(self, upto: nat) -> Self
        decreases upto,
    {
        if upto == 0 {
            self
        } else {
            self.round((upto - 1) as nat).next_job(upto - 1)
        }
    }

    /// The pool after one way of winding up: the first worker asks until the queue
    /// is empty and once more, then every worker asks once.
    pub open spec fn wound_up(self) -> Self {
        self.asks(0, self.pending.len() + 1).round(self.workers.len())
    }

    /// The pool after `event`.
    pub open spec fn apply(self, event: PoolEvent<J>) -> Self {
        match event {
            PoolEvent::Submit(job) => self.submit(job),
            PoolEvent::Ask(worker) => self.next_job(worker),
            PoolEvent::Shutdown => self.shutdown(),
        }
    }

    /// The pool that `size` workers reach through `events`.
    pub open spec fn run(size: nat, events: Seq<PoolEvent<J>>) -> Self
        decreases events.len(),
    {
        if events.len() == 0 {
            Self::fresh(size)
        } else {
            Self::run(size, events.drop_last()).apply(events.last())
        }
    }

    /// What holds of every pool that can be reached: it has a worker; the accepted
    /// jobs are those that were started, followed by the queue; each started job is
    /// either finished or held by a worker, and only once; each finished job ran on
    /// a worker of the pool; and no worker was sent home before the queue was closed
    /// and empty.
    pub open spec fn inv(self) -> bool {
        &&& self.workers.len() > 0
        &&& self.pending.len() <= self.accepted.len()
        &&& self.accepted == self.started() + self.pending
        &&& self.started().to_multiset() == self.completed().to_multiset().add(
            in_flight(self.workers),
        )
        &&& forall|i: int|
            0 <= i < self.finished.len() ==> self.in_pool(#[trigger] self.finished[i].worker)
        &&& forall|w: int|
            0 <= w < self.workers.len() && #[trigger] self.workers[w] is Exited ==> !self.open
                && self.pending.len() == 0
    }
}

/// Replacing one worker takes the job it held out of flight and puts the job of its
/// replacement in.
pub proof fn lemma_in_flight_update<J>(workers: Seq<Worker<J>>, w: int, worker: Worker<J>)
    requires
        0 <= w < workers.len(),
    ensures
        in_flight(workers.update(w, worker)).add(workers[w].held()) == in_flight(workers).add(
            worker.held(),
        ),
    decreases workers.len(),
{
    broadcast use vstd::multiset::group_multiset_axioms;

    let updated = workers.update(w, worker);
    let front = workers.drop_last();
    assert(in_flight(workers) == in_flight(front).add(workers.last().held()));
    assert(in_flight(updated) == in_flight(updated.drop_last()).add(updated.last().held()));
    if w == workers.len() - 1 {
        assert(updated.drop_last() =~= front);
        assert(updated.last() == worker);
        assert(in_flight(front).add(worker.held()).add(workers[w].held()) =~= in_flight(front).add(
            workers[w].held(),
        ).add(worker.held()));
    } else {
        assert(updated.drop_last() =~= front.update(w, worker));
        assert(updated.last() == workers.last());
        assert(front[w] == workers[w]);
        lemma_in_flight_update(front, w, worker);
        let rest = in_flight(front.update(w, worker));
        assert(rest.add(workers.last().held()).add(workers[w].held()) =~= rest.add(
            workers[w].held(),
        ).add(workers.last().held()));
        assert(in_flight(front).add(worker.held()).add(workers.last().held()) =~= in_flight(
            front,
        ).add(workers.last().held()).add(worker.held()));
    }
}

/// Workers that were all sent home hold no job.
pub proof fn lemma_in_flight_exited<J>(workers: Seq<Worker<J>>)
    requires
        forall|w: int| 0 <= w < workers.len() ==> workers[w] is Exited,
    ensures
        in_flight(workers) == Multiset::<J>::empty(),
    decreases workers.len(),
{
    if workers.len() > 0 {
        lemma_in_flight_exited(workers.drop_last());
        assert(in_flight(workers) =~= Multiset::<J>::empty());
    }
}

/// Idle workers hold no job.
pub proof fn lemma_in_flight_fresh<J>(size: nat)
    ensures
        in_flight(PoolView::<J>::fresh(size).workers) == Multiset::<J>::empty(),
    decreases size,
{
    let workers = PoolView::<J>::fresh(size).workers;
    if size > 0 {
        assert(workers.drop_last() == PoolView::<J>::fresh((size - 1) as nat).workers);
        lemma_in_flight_fresh::<J>((size - 1) as nat);
        assert(in_flight(workers) =~= Multiset::<J>::empty());
    }
}

/// A new pool with at least one worker satisfies the invariant.
pub proof fn lemma_fresh_inv<J>(size: nat)
    requires
        size >= 1,
    ensures
        PoolView::<J>::fresh(size).inv(),
{
    let pool = PoolView::<J>::fresh(size);
    lemma_in_flight_fresh::<J>(size);
    assert(pool.started() =~= Seq::<J>::empty());
    assert(pool.completed() =~= Seq::<J>::empty());
    assert(pool.accepted =~= pool.started() + pool.pending);
    assert(pool.started().to_multiset() =~= pool.completed().to_multiset().add(
        in_flight(pool.workers),
    ));
}

/// Every event keeps the invariant.
pub proof fn lemma_apply_inv<J>(pool: PoolView<J>, event: PoolEvent<J>)
    requires
        pool.inv(),
    ensures
        pool.apply(event).inv(),
{
    let next = pool.apply(event);
    match event {
        PoolEvent::Submit(job) => {
            if pool.open {
                assert(next.started() =~= pool.started());
                assert(next.accepted =~= next.started() + next.pending);
            }
        },
        PoolEvent::Shutdown => {},
        PoolEvent::Ask(worker) => {
            if pool.serves(worker) {
                broadcast use to_multiset_build;
                broadcast use vstd::multiset::group_multiset_axioms;

                let held = pool.workers[worker].held();
                let taken = next.workers[worker].held();
                let done = pool.completed().to_multiset();
                let flying = in_flight(pool.workers);
                let still_flying = in_flight(next.workers);
                lemma_in_flight_update(pool.workers, worker, next.workers[worker]);
                assert(still_flying.add(held) == flying.add(taken));
                match pool.workers[worker] {
                    Worker::Busy(job) => {
                        assert(next.completed() =~= pool.completed().push(job));
                        assert(next.completed().to_multiset() =~= done.add(held));
                    },
                    _ => {
                        assert(next.completed() =~= pool.completed());
                        assert(next.completed().to_multiset() =~= done.add(held));
                    },
                }
                if pool.pending.len() > 0 {
                    let job = pool.pending[0];
                    assert(pool.accepted[pool.started().len() as int] == job);
                    assert(next.started() =~= pool.started().push(job));
                    assert(next.accepted =~= next.started() + next.pending);
                    assert(next.started().to_multiset() =~= done.add(flying).add(taken));
                } else {
                    assert(next.started() =~= pool.started());
                    assert(next.started().to_multiset() =~= done.add(flying).add(taken));
                }
                assert(done.add(flying).add(taken) =~= done.add(flying.add(taken)));
                assert(done.add(still_flying.add(held)) =~= done.add(held).add(still_flying));
                assert forall|i: int| 0 <= i < next.finished.len() implies next.in_pool(
                    #[trigger] next.finished[i].worker,
                ) by {
                    if i < pool.finished.len() {
                        assert(pool.in_pool(pool.finished[i].worker));
                    }
                }
                assert forall|w: int|
                    0 <= w < next.workers.len() && #[trigger] next.workers[w] is Exited implies !next.open
                    && next.pending.len() == 0 by {
                    if w != worker {
                        assert(pool.workers[w] is Exited);
                    }
                }
            }
        },
    }
}

/// The invariant holds of whatever a pool with at least one worker reaches, and the
/// number of workers never changes.
pub proof fn lemma_run_inv<J>(size: nat, events: Seq<PoolEvent<J>>)
    requires
        size >= 1,
    ensures
        PoolView::<J>::run(size, events).inv(),
        PoolView::<J>::run(size, events).workers.len() == size,
    decreases events.len(),
{
    if events.len() == 0 {
        lemma_fresh_inv::<J>(size);
    } else {
        lemma_run_inv::<J>(size, events.drop_last());
        lemma_apply_inv(PoolView::<J>::run(size, events.drop_last()), events.last());
    }
}

/// No job is lost and none runs twice. Whatever happens to a pool of at least one
/// worker: the jobs it accepted are those that were handed out, in the order of
/// their submission, followed by those still queued; every job that was handed out
/// is either finished or held by a worker, as often as it was accepted; every
/// finished job ran on a worker of the pool. Once every worker has been sent home,
/// nothing is queued and the finished jobs are the accepted jobs.
pub proof fn law_every_job_runs_once<J>(size: nat, events: Seq<PoolEvent<J>>)
    requires
        size >= 1,
    ensures
        ({
            let pool = PoolView::<J>::run(size, events);
            &&& pool.workers.len() == size
            &&& pool.accepted == pool.started() + pool.pending
            &&& pool.started().to_multiset() == pool.completed().to_multiset().add(
                in_flight(pool.workers),
            )
            &&& forall|i: int|
                0 <= i < pool.finished.len() ==> 0 <= #[trigger] pool.finished[i].worker < size
            &&& pool.terminated() ==> pool.pending.len() == 0 && pool.completed().to_multiset()
                == pool.accepted.to_multiset()
        }),
{
    let pool = PoolView::<J>::run(size, events);
    lemma_run_inv::<J>(size, events);
    assert forall|i: int| 0 <= i < pool.finished.len() implies 0
        <= #[trigger] pool.finished[i].worker < size by {
        assert(pool.in_pool(pool.finished[i].worker));
    }
    if pool.terminated() {
        law_terminated_pool_is_at_rest(pool, PoolEvent::Shutdown);
    }
}

/// A pool whose workers have all been sent home is at rest: its queue is closed and
/// empty, no worker holds a job, every accepted job is finished, and no event
/// changes it any more.
pub proof fn law_terminated_pool_is_at_rest<J>(pool: PoolView<J>, event: PoolEvent<J>)
    requires
        pool.inv(),
        pool.terminated(),
    ensures
        !pool.open,
        pool.pending.len() == 0,
        forall|w: int| 0 <= w < pool.workers.len() ==> !(#[trigger] pool.workers[w] is Busy),
        pool.completed().to_multiset() == pool.accepted.to_multiset(),
        pool.apply(event) == pool,
{
    broadcast use vstd::multiset::group_multiset_axioms;

    assert(pool.workers[0] is Exited);
    lemma_in_flight_exited(pool.workers);
    assert(pool.started() =~= pool.accepted);
    assert(pool.completed().to_multiset().add(Multiset::<J>::empty())
        =~= pool.completed().to_multiset());
}

/// Shutdown closes the queue for good: a job submitted afterwards is turned away
/// and changes nothing, and a second shutdown changes nothing either. What was
/// queued before stays queued.
pub proof fn law_shutdown_turns_jobs_away<J>(pool: PoolView<J>, job: J)
    ensures
        !pool.shutdown().open,
        pool.shutdown().pending == pool.pending,
        pool.shutdown().submit(job) == pool.shutdown(),
        pool.shutdown().shutdown() == pool.shutdown(),
{
}

/// Workers leave last: whatever happens to a pool, a worker is sent home only once
/// the queue is closed and empty, so the pool keeps all its workers while there is
/// work or more may come.
pub proof fn law_workers_leave_last<J>(size: nat, events: Seq<PoolEvent<J>>, worker: int)
    requires
        size >= 1,
        0 <= worker < size,
        PoolView::<J>::run(size, events).workers[worker] is Exited,
    ensures
        !PoolView::<J>::run(size, events).open,
        PoolView::<J>::run(size, events).pending.len() == 0,
{
    lemma_run_inv::<J>(size, events);
}

/// A closed pool winds down: each time a worker of it asks, the queue gets shorter
/// by one job or that worker is sent home, and whoever was sent home stays home.
pub proof fn law_closed_pool_winds_down<J>(pool: PoolView<J>, worker: int)
    requires
        !pool.open,
        pool.serves(worker),
    ensures
        !pool.next_job(worker).open,
        pool.next_job(worker).pending.len() + 1 == pool.pending.len() || (
        pool.next_job(worker).workers[worker] is Exited && pool.pending.len() == 0),
        forall|w: int|
            0 <= w < pool.workers.len() && pool.workers[w] is Exited ==> #[trigger] pool.next_job(
                worker,
            ).workers[w] is Exited,
{
}

/// Asking keeps the invariant and leaves the ledger of accepted jobs, the number of
/// workers and the state of the queue's door alone.
pub proof fn lemma_asks_inv<J>(pool: PoolView<J>, worker: int, times: nat)
    requires
        pool.inv(),
    ensures
        pool.asks(worker, times).inv(),
        pool.asks(worker, times).open == pool.open,
        pool.asks(worker, times).accepted == pool.accepted,
        pool.asks(worker, times).workers.len() == pool.workers.len(),
    decreases times,
{
    if times > 0 {
        lemma_apply_inv(pool, PoolEvent::Ask(worker));
        lemma_asks_inv(pool.next_job(worker), worker, (times - 1) as nat);
    }
}

/// In a closed pool the first worker works off the queue when it asks once more
/// than there are queued jobs.
pub proof fn lemma_first_worker_drains<J>(pool: PoolView<J>)
    requires
        pool.inv(),
        !pool.open,
    ensures
        pool.asks(0, pool.pending.len() + 1).pending.len() == 0,
    decreases pool.pending.len(),
{
    let next = pool.next_job(0);
    assert(pool.asks(0, pool.pending.len() + 1) == next.asks(0, pool.pending.len()));
    if pool.pending.len() == 0 {
        assert(next.asks(0, 0) == next);
    } else {
        assert(pool.serves(0));
        lemma_apply_inv(pool, PoolEvent::Ask(0));
        lemma_first_worker_drains(next);
    }
}

/// In a closed pool with an empty queue, every worker that asks is sent home.
pub proof fn lemma_round_sends_home<J>(pool: PoolView<J>, upto: nat)
    requires
        pool.inv(),
        !pool.open,
        pool.pending.len() == 0,
        upto <= pool.workers.len(),
    ensures
        pool.round(upto).inv(),
        !pool.round(upto).open,
        pool.round(upto).pending.len() == 0,
        pool.round(upto).accepted == pool.accepted,
        pool.round(upto).workers.len() == pool.workers.len(),
        forall|w: int| 0 <= w < upto ==> #[trigger] pool.round(upto).workers[w] is Exited,
    decreases upto,
{
    if upto > 0 {
        let before = pool.round((upto - 1) as nat);
        lemma_round_sends_home(pool, (upto - 1) as nat);
        lemma_apply_inv(before, PoolEvent::Ask(upto - 1));
        assert forall|w: int| 0 <= w < upto implies #[trigger] pool.round(upto).workers[w] is Exited by {
            if w < upto - 1 {
                assert(before.workers[w] is Exited);
            }
        }
    }
}

/// Shutdown can come to its end. Once the queue is closed it takes no more than
/// that the workers go on asking: wound up in the one way that [`PoolView::wound_up`]
/// describes, every worker has been sent home, nothing is queued, nothing was
/// accepted in between, and every job that was ever accepted is finished.
pub proof fn law_closed_pool_comes_to_rest<J>(pool: PoolView<J>)
    requires
        pool.inv(),
        !pool.open,
    ensures
        pool.wound_up().inv(),
        pool.wound_up().terminated(),
        pool.wound_up().pending.len() == 0,
        pool.wound_up().accepted == pool.accepted,
        pool.wound_up().completed().to_multiset() == pool.accepted.to_multiset(),
{
    let drained = pool.asks(0, pool.pending.len() + 1);
    lemma_asks_inv(pool, 0, pool.pending.len() + 1);
    lemma_first_worker_drains(pool);
    lemma_round_sends_home(drained, drained.workers.len());
    law_terminated_pool_is_at_rest(pool.wound_up(), PoolEvent::Shutdown);
}

/// A worker that is busy holds up nobody else: what a worker is told depends on the
/// queue and on that worker alone, whatever the others are doing. With a job in the
/// queue, a worker that asks gets the oldest one.
pub proof fn law_busy_workers_hold_up_nobody<J>(
    pool: PoolView<J>,
    worker: int,
    others: Seq<Worker<J>>,
)
    requires
        pool.serves(worker),
        others.len() == pool.workers.len(),
        others[worker] == pool.workers[worker],
    ensures
        (PoolView { workers: others, ..pool }).directive(worker) == pool.directive(worker),
        pool.pending.len() > 0 ==> pool.directive(worker) == Directive::Run(pool.pending[0]),
{
}

/// One slow job does not keep the others waiting. In a pool where one worker is
/// busy and another one serves, the other one alone works off the whole queue: when
/// it has asked once more than there are queued jobs, the job it held and every
/// queued job are finished, in order, and the busy worker is still at its job.
pub proof fn law_queue_drains_beside_a_busy_worker<J>(pool: PoolView<J>, busy: int, free: int)
    requires
        pool.in_pool(busy),
        pool.workers[busy] is Busy,
        pool.serves(free),
        free != busy,
    ensures
        ({
            let after = pool.asks(free, pool.pending.len() + 1);
            &&& after.workers[busy] == pool.workers[busy]
            &&& after.pending.len() == 0
            &&& after.completed() == jobs_of(pool.settled(free)) + pool.pending
        }),
    decreases pool.pending.len(),
{
    let next = pool.next_job(free);
    let after = pool.asks(free, pool.pending.len() + 1);
    assert(after == next.asks(free, pool.pending.len()));
    if pool.pending.len() == 0 {
        assert(next.asks(free, 0) == next);
        assert(after.completed() =~= jobs_of(pool.settled(free)) + pool.pending);
    } else {
        law_queue_drains_beside_a_busy_worker(next, busy, free);
        assert(jobs_of(next.settled(free)) =~= jobs_of(pool.settled(free)).push(pool.pending[0]));
        assert(after.completed() =~= jobs_of(pool.settled(free)) + pool.pending);
    }
}

/// A pool of workers, a queue of jobs for them, and the ledger of the model.
pub struct WorkerPool<J> {
    queue: VecDeque<J>,
    states: Vec<WorkerState>,
    open: bool,
    model: Ghost<PoolView<J>>,
}

impl<J> View for WorkerPool<J> {
    type V = PoolView<J>;

    closed spec fn view(&self) -> PoolView<J> {
        self.model@
    }
}

impl<J> WorkerPool<J> {
    /// Whether the fields agree with the model.
    pub closed spec fn consistent(&self) -> bool {
        &&& self.model@.pending == self.queue@
        &&& self.model@.open == self.open
        &&& self.model@.workers.len() == self.states@.len()
        &&& forall|w: int|
            0 <= w < self.states@.len() ==> (#[trigger] self.model@.workers[w]).state()
                == self.states@[w]
    }

    /// Whether the pool is well formed: its fields agree with the model, and the
    /// model satisfies its invariant. Every pool that this module hands out is.
    pub open spec fn wf(&self) -> bool {
        self.consistent() && self@.inv()
    }

    /// A pool of `size` idle workers with an empty, open queue.
    pub fn new(size: usize) -> (pool: Self)
        requires
            size > 0,
        ensures
            pool.wf(),
            pool@ == PoolView::<J>::fresh(size as nat),
    {
        let mut states: Vec<WorkerState> = Vec::new();
        let mut n: usize = 0;
        while n < size
            invariant
                n <= size,
                states@.len() == n,
                forall|w: int| 0 <= w < n ==> states@[w] == WorkerState::Idle,
            decreases size - n,
        {
            states.push(WorkerState::Idle);
            n += 1;
        }
        proof {
            lemma_fresh_inv::<J>(size as nat);
        }
        WorkerPool {
            queue: VecDeque::new(),
            states,
            open: true,
            model: Ghost(PoolView::<J>::fresh(size as nat)),
        }
    }

    /// The number of workers.
    pub fn size(&self) -> (n: usize)
        requires
            self.wf(),
        ensures
            n == self@.workers.len(),
            n > 0,
    {
        self.states.len()
    }

    /// The number of queued jobs.
    pub fn pending(&self) -> (n: usize)
        requires
            self.wf(),
        ensures
            n == self@.pending.len(),
    {
        self.queue.len()
    }

    /// Whether the queue still takes jobs.
    pub fn is_open(&self) -> (open: bool)
        requires
            self.wf(),
        ensures
            open == self@.open,
    {
        self.open
    }

    /// What the worker with this number is doing; `None` if the pool has no such
    /// worker.
    pub fn state(&self, worker: usize) -> (state: Option<WorkerState>)
        requires
            self.wf(),
        ensures
            state == if self@.in_pool(worker as int) {
                Some(self@.workers[worker as int].state())
            } else {
                None
            },
    {
        if worker < self.states.len() {
            Some(self.states[worker])
        } else {
            None
        }
    }

    /// Whether every worker has been sent home.
    pub fn is_terminated(&self) -> (done: bool)
        requires
            self.wf(),
        ensures
            done == self@.terminated(),
    {
        let mut w: usize = 0;
        while w < self.states.len()
            invariant
                self.wf(),
                w <= self.states@.len(),
                forall|v: int| 0 <= v < w ==> self@.workers[v] is Exited,
            decreases self.states@.len() - w,
        {
            match self.states[w] {
                WorkerState::Exited => {},
                _ => {
                    assert(self@.workers[w as int].state() == self.states@[w as int]);
                    return false;
                },
            }
            assert(self@.workers[w as int].state() == self.states@[w as int]);
            w += 1;
        }
        true
    }

    /// Queues `job` if the queue is open. A closed queue hands the job back and
    /// changes nothing.
    pub fn submit(&mut self, job: J) -> (outcome: Result<(), J>)
        requires
            old(self).wf(),
        ensures
            final(self).wf(),
            final(self)@ == old(self)@.submit(job),
            match outcome {
                Ok(_) => old(self)@.open,
                Err(back) => !old(self)@.open && back == job,
            },
    {
        if !self.open {
            return Err(job);
        }
        proof {
            lemma_apply_inv(self.model@, PoolEvent::Submit(job));
        }
        self.model = Ghost(self.model@.submit(job));
        self.queue.push_back(job);
        Ok(())
    }

    /// Closes the queue. What is queued is still handed out.
    pub fn shutdown(&mut self)
        requires
            old(self).wf(),
        ensures
            final(self).wf(),
            final(self)@ == old(self)@.shutdown(),
    {
        proof {
            lemma_apply_inv(self.model@, PoolEvent::<J>::Shutdown);
        }
        self.model = Ghost(self.model@.shutdown());
        self.open = false;
    }

    /// Answers the worker with this number, which asks for its next job and has
    /// thereby finished the one it held.
    pub fn next_job(&mut self, worker: usize) -> (directive: Directive<J>)
        requires
            old(self).wf(),
        ensures
            final(self).wf(),
            directive == old(self)@.directive(worker as int),
            final(self)@ == old(self)@.next_job(worker as int),
    {
        if worker >= self.states.len() {
            return Directive::Exit;
        }
        assert(self.model@.workers[worker as int].state() == self.states@[worker as int]);
        match self.states[worker] {
            WorkerState::Exited => {
                return Directive::Exit;
            },
            _ => {},
        }
        let ghost before = self.model@;
        proof {
            lemma_apply_inv(before, PoolEvent::Ask(worker as int));
        }
        self.model = Ghost(before.next_job(worker as int));
        match self.queue.pop_front() {
            Some(job) => {
                self.states.set(worker, WorkerState::Busy);
                assert(self.queue@ =~= before.pending.drop_first());
                Directive::Run(job)
            },
            None => {
                if self.open {
                    self.states.set(worker, WorkerState::Idle);
                    Directive::Wait
                } else {
                    self.states.set(worker, WorkerState::Exited);
                    Directive::Exit
                }
            },
        }
    }
}

} // verus!
