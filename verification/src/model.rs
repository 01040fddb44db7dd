//! The crawl as a mathematical state machine: its state, its transitions
//! and the accounting that every transition keeps.

use vstd::prelude::*;
use crate::error::Fault;
use crate::work::{lemma_work_count_push, work_count, Command, Outcome};
use crate::worker::{
    claimed, file_fetched, file_written, page_fetched, received, stay, Activity, Move, Task,
};

verus! {

/// How many of `workers` hold a command that they have not answered yet.
pub open spec fn busy_count(workers: Seq<Activity>) -> nat
    decreases workers.len(),
{
    if workers.len() == 0 {
        0
    } else {
        busy_count(workers.drop_last()) + if workers.last().is_busy() {
            1nat
        } else {
            0nat
        }
    }
}

/// `count` times `Stop`.
pub open spec fn stops(count: nat) -> Seq<Command> {
    Seq::new(count, |i: int| Command::Stop)
}

/// One visit for each of `urls`, in their order.
pub open spec fn visits(urls: Seq<Seq<char>>) -> Seq<Command> {
    urls.map_values(|url: Seq<char>| Command::Navigate { url })
}

/// `count` idle workers.
pub open spec fn idle(count: nat) -> Seq<Activity> {
    Seq::new(count, |i: int| Activity::Idle)
}

/// What a worker's turn has come to, as its caller is told.
pub enum Step {
    /// Nothing happened: the worker has nothing to receive, waits for I/O
    /// of another kind, or does not exist.
    Waiting,
    /// The worker asks for this I/O.
    Task(Task),
    /// The worker has sent a result to the orchestrator.
    Emitted,
    /// The worker could not send its result, because the result queue is
    /// closed; its run ended on that fault and it was restarted.
    Restarted,
    /// The worker has stopped.
    Stopped,
}

/// How far the orchestrator has come.
pub enum Advance {
    /// No result waits: the orchestrator would wait for one.
    Waiting,
    /// A result was processed and work is still in flight.
    Continue,
    /// The crawl is over and shut down: completed, or ended by a fault.
    Done(Result<(), Fault>),
}

/// The state of a crawl.
pub struct CrawlState {
    /// The URLs that workers have claimed.
    pub visited: Set<Seq<char>>,
    /// The commands that wait for a worker, oldest first.
    pub work: Seq<Command>,
    /// Whether the work queue is closed.
    pub work_closed: bool,
    /// The results that wait for the orchestrator, oldest first.
    pub results: Seq<Outcome>,
    /// Whether the result queue is closed.
    pub results_closed: bool,
    /// The in-flight counter.
    pub in_flight: nat,
    /// What each worker of the pool is doing.
    pub workers: Seq<Activity>,
    /// How many commands other than `Stop` were ever enqueued.
    pub enqueued: nat,
    /// How many results the orchestrator has ever fully processed.
    pub processed: nat,
}

impl CrawlState {
    /// The state of a crawl that has just been created.
    pub open spec fn initial() -> CrawlState {
        CrawlState {
            visited: Set::empty(),
            work: Seq::empty(),
            work_closed: false,
            results: Seq::empty(),
            results_closed: false,
            in_flight: 0,
            workers: Seq::empty(),
            enqueued: 0,
            processed: 0,
        }
    }

    /// How many commands are at some stage between the work queue and the
    /// orchestrator: waiting for a worker, held by a worker, or waiting as
    /// a result.
    pub open spec fn outstanding(self) -> nat {
        work_count(self.work) + busy_count(self.workers) + self.results.len()
    }

    /// The accounting that holds of every crawl. The counter is the number
    /// of commands enqueued less the number of results processed. Until
    /// shutdown it is also the number of commands at some stage, so that
    /// each enqueued command is at exactly one stage or has been processed;
    /// after shutdown it is at least that number. The two queues are closed
    /// together. No `Stop` waits as a result: a worker that stops sends
    /// nothing on, so that every result that the orchestrator meets stands
    /// for one command.
    pub open spec fn inv(self) -> bool {
        &&& forall|i: int| 0 <= i < self.results.len() ==> !(#[trigger] self.results[i] is Stop)
        &&& self.processed <= self.enqueued
        &&& self.in_flight == self.enqueued - self.processed
        &&& self.work_closed == self.results_closed
        &&& self.in_flight >= self.outstanding()
        &&& !self.work_closed ==> self.in_flight == self.outstanding()
    }

    /// The state after `commands` were put on the open work queue, each
    /// counted as in flight unless it is `Stop`.
    pub open spec fn enqueue_all(self, commands: Seq<Command>) -> CrawlState {
        CrawlState {
            work: self.work + commands,
            in_flight: self.in_flight + work_count(commands),
            enqueued: self.enqueued + work_count(commands),
            ..self
        }
    }

    /// The state after `command` was put on the open work queue, counted
    /// as in flight unless it is `Stop`.
    pub open spec fn enqueue(self, command: Command) -> CrawlState {
        let count = if command.is_work() {
            1nat
        } else {
            0nat
        };
        CrawlState {
            work: self.work.push(command),
            in_flight: self.in_flight + count,
            enqueued: self.enqueued + count,
            ..self
        }
    }

    /// The state after an attempt to enqueue `command`: a closed work queue
    /// refuses it and nothing changes.
    pub open spec fn submitted(self, command: Command) -> CrawlState {
        if self.work_closed {
            self
        } else {
            self.enqueue(command)
        }
    }

    /// What the one who enqueues is told.
    pub open spec fn submission(self) -> Result<(), Fault> {
        if self.work_closed {
            Err(Fault::QueueClosed)
        } else {
            Ok(())
        }
    }

    /// The state after one idle worker was added to the pool.
    pub open spec fn start_worker(self) -> CrawlState {
        CrawlState { workers: self.workers.push(Activity::Idle), ..self }
    }

    /// The state after a crawl was started: a visit of each of `urls` is
    /// enqueued, in their order, and then `workers` idle workers join the
    /// pool. If the work queue is closed and there is a URL to enqueue,
    /// nothing changes.
    pub open spec fn started(self, urls: Seq<Seq<char>>, workers: nat) -> CrawlState {
        if self.work_closed && urls.len() > 0 {
            self
        } else {
            let seeded = if self.work_closed {
                self
            } else {
                self.enqueue_all(visits(urls))
            };
            CrawlState { workers: seeded.workers + idle(workers), ..seeded }
        }
    }

    /// The state after shutdown: one `Stop` for each worker of the pool is
    /// put on the work queue, unless it is closed already, and both queues
    /// are closed.
    pub open spec fn shutdown(self) -> CrawlState {
        CrawlState {
            work: if self.work_closed {
                self.work
            } else {
                self.work + stops(self.workers.len())
            },
            work_closed: true,
            results_closed: true,
            ..self
        }
    }

    /// The state after worker `worker` has made `turn`: the worker does
    /// what the move says, and its result, if it has one, joins the result
    /// queue unless that is closed.
    pub open spec fn after_move(self, worker: int, turn: Move) -> CrawlState {
        CrawlState {
            workers: self.workers.update(worker, turn.activity),
            results: match turn.outcome {
                Some(outcome) if !self.results_closed => self.results.push(outcome),
                _ => self.results,
            },
            ..self
        }
    }

    /// What the caller is told of `turn`.
    pub open spec fn report(self, turn: Move) -> Step {
        match turn.task {
            Some(task) => Step::Task(task),
            None => match turn.outcome {
                Some(_) => if self.results_closed {
                    Step::Restarted
                } else {
                    Step::Emitted
                },
                None => if turn.activity is Stopped {
                    Step::Stopped
                } else {
                    Step::Waiting
                },
            },
        }
    }

    /// Whether `worker` is a worker of the pool.
    pub open spec fn has_worker(self, worker: int) -> bool {
        0 <= worker < self.workers.len()
    }

    /// Whether `worker` can take a command: it is idle and a command waits.
    pub open spec fn can_receive(self, worker: int) -> bool {
        self.has_worker(worker) && self.workers[worker] is Idle && self.work.len() > 0
    }

    /// The move of `worker` when it is given its turn: an idle worker takes
    /// the oldest command, if one waits; any other worker stays.
    pub open spec fn poll_move(self, worker: int) -> Move {
        if self.can_receive(worker) {
            received(self.work.first(), self.visited)
        } else if self.has_worker(worker) {
            stay(self.workers[worker])
        } else {
            stay(Activity::Idle)
        }
    }

    /// The state after `worker` was given its turn.
    pub open spec fn polled(self, worker: int) -> CrawlState {
        if self.can_receive(worker) {
            CrawlState {
                work: self.work.drop_first(),
                visited: claimed(self.work.first(), self.visited),
                ..self
            }.after_move(worker, self.poll_move(worker))
        } else {
            self
        }
    }

    /// The state after `worker` was handed the outcome of its I/O and has
    /// made `turn` of it.
    pub open spec fn completed(self, worker: int, turn: Move) -> CrawlState {
        if self.has_worker(worker) {
            self.after_move(worker, turn)
        } else {
            self
        }
    }

    /// What the caller is told when `worker` was handed the outcome of its
    /// I/O and has made `turn` of it.
    pub open spec fn completion(self, worker: int, turn: Move) -> Step {
        if self.has_worker(worker) {
            self.report(turn)
        } else {
            Step::Waiting
        }
    }

    /// Whether the orchestrator can have taken the crawl from `earlier` to
    /// this state: it claims no URL and touches no worker, it only adds to
    /// the work queue and only takes from the front of the result queue,
    /// and it opens no queue again.
    pub open spec fn follows(self, earlier: CrawlState) -> bool {
        &&& self.visited == earlier.visited
        &&& self.workers == earlier.workers
        &&& self.enqueued >= earlier.enqueued
        &&& self.processed >= earlier.processed
        &&& earlier.work.is_prefix_of(self.work)
        &&& self.results.is_suffix_of(earlier.results)
        &&& (earlier.work_closed ==> self.work_closed)
        &&& (earlier.results_closed ==> self.results_closed)
    }

    /// The state after the result that was dispatched last was counted as
    /// processed, and how the orchestrator goes on: the crawl is complete,
    /// and shut down, exactly when the counter has come to zero.
    pub open spec fn finish_one(self) -> (CrawlState, Advance) {
        let counted = CrawlState {
            in_flight: (self.in_flight - 1) as nat,
            processed: self.processed + 1,
            ..self
        };
        if counted.in_flight == 0 {
            (counted.shutdown(), Advance::Done(Ok(())))
        } else {
            (counted, Advance::Continue)
        }
    }

    /// The state after the handlers have been called for the oldest result,
    /// have scheduled `scheduled` and have ended with `verdict`, and how the
    /// orchestrator goes on.
    ///
    /// With no result waiting nothing changes, unless the result queue is
    /// closed: then the crawl ends on that fault. Otherwise the result
    /// leaves the queue, and what was scheduled is enqueued and counted
    /// before the result is counted as processed. A failed handler ends the
    /// crawl with its fault, and the result is not counted. So does work
    /// scheduled for a closed work queue, with `QueueClosed`.
    pub open spec fn settled(self, scheduled: Seq<Command>, verdict: Result<(), Fault>) -> (
        CrawlState,
        Advance,
    ) {
        if self.results.len() == 0 {
            if self.results_closed {
                (self.shutdown(), Advance::Done(Err(Fault::QueueClosed)))
            } else {
                (self, Advance::Waiting)
            }
        } else {
            let taken = CrawlState { results: self.results.drop_first(), ..self };
            let grown = if taken.work_closed {
                taken
            } else {
                taken.enqueue_all(scheduled)
            };
            match verdict {
                Err(fault) => (grown.shutdown(), Advance::Done(Err(fault))),
                Ok(()) => if taken.work_closed && scheduled.len() > 0 {
                    (grown.shutdown(), Advance::Done(Err(Fault::QueueClosed)))
                } else {
                    grown.finish_one()
                },
            }
        }
    }
}

/// What the handlers have made of one result: what they have scheduled,
/// and their verdict.
pub struct Handled {
    pub scheduled: Seq<Command>,
    pub verdict: Result<(), Fault>,
}

/// Whether `work` ends with `count` times `Stop`.
pub open spec fn ends_with_stops(work: Seq<Command>, count: nat) -> bool {
    exists|front: Seq<Command>| work == #[trigger] (front + stops(count))
}

impl CrawlState {
    /// The state after the orchestrator has processed one result for each
    /// of `steps`, oldest first, the handlers answering as the steps say.
    pub open spec fn settled_through(self, steps: Seq<Handled>) -> CrawlState
        decreases steps.len(),
    {
        if steps.len() == 0 {
            self
        } else {
            self.settled_through(steps.drop_last()).settled(
                steps.last().scheduled,
                steps.last().verdict,
            ).0
        }
    }

    /// How the orchestrator goes on after the last of `steps`.
    pub open spec fn advance_after(self, steps: Seq<Handled>) -> Advance {
        self.settled_through(steps.drop_last()).settled(
            steps.last().scheduled,
            steps.last().verdict,
        ).1
    }

    /// Whether a run of the orchestrator's loop from this state takes
    /// exactly `steps`: there is at least one, the loop goes on after each
    /// but the last, and it ends after the last.
    pub open spec fn runs(self, steps: Seq<Handled>) -> bool {
        &&& steps.len() > 0
        &&& forall|i: int|
            0 < i < steps.len() ==> (#[trigger] self.advance_after(steps.take(i))) is Continue
        &&& !(self.advance_after(steps) is Continue)
    }

    /// Whether a run of the orchestrator's loop from this state can end in
    /// `end` with `advance`: it takes some steps, the handlers answering
    /// in whatever way at each, and `end` and `advance` are the state
    /// after the last step and what that step says.
    pub open spec fn ran(self, end: CrawlState, advance: Advance) -> bool {
        exists|steps: Seq<Handled>|
            #[trigger] self.runs(steps) && end == self.settled_through(steps) && advance
                == self.advance_after(steps)
    }
}

/// The outcomes of the I/O that one command can ask for: of the fetch of a
/// page, of the fetch of a file, and of the write of a file.
pub struct Io {
    pub page: Result<(u16, Seq<char>), Fault>,
    pub file: Result<Seq<u8>, Fault>,
    pub written: Result<(), Fault>,
}

impl CrawlState {
    /// The state after `worker` has taken one command and has been handed
    /// the outcome of each piece of I/O that it asked for on the way, up to
    /// the point where it waits for a command again.
    pub open spec fn served(self, worker: int, io: Io) -> CrawlState {
        let taken = self.polled(worker);
        match taken.workers[worker] {
            Activity::FetchingPage { .. } => taken.completed(
                worker,
                page_fetched(taken.workers[worker], io.page),
            ),
            Activity::FetchingFile { .. } => {
                let fetched = taken.completed(
                    worker,
                    file_fetched(taken.workers[worker], io.file),
                );
                match fetched.workers[worker] {
                    Activity::WritingFile { .. } => fetched.completed(
                        worker,
                        file_written(fetched.workers[worker], io.written),
                    ),
                    _ => fetched,
                }
            },
            _ => taken,
        }
    }

    /// The state after `worker` has taken one command for each of `ios`,
    /// one after the other, with the outcomes that they give.
    pub open spec fn served_all(self, worker: int, ios: Seq<Io>) -> CrawlState
        decreases ios.len(),
    {
        if ios.len() == 0 {
            self
        } else {
            self.served_all(worker, ios.drop_last()).served(worker, ios.last())
        }
    }
}

/// What can happen to a crawl.
pub enum Event {
    /// A visit of `url` is submitted.
    Navigate { url: Seq<char> },
    /// A download of `url` into `destination` is submitted.
    Download { url: Seq<char>, destination: Seq<char> },
    /// A worker joins the pool.
    StartWorker,
    /// Worker `worker` is given its turn.
    Poll { worker: int },
    /// Worker `worker` is handed a fetched page, or the fault.
    PageFetched { worker: int, fetched: Result<(u16, Seq<char>), Fault> },
    /// Worker `worker` is handed fetched bytes, or the fault.
    FileFetched { worker: int, bytes: Result<Seq<u8>, Fault> },
    /// Worker `worker` is handed the end of a write.
    FileWritten { worker: int, written: Result<(), Fault> },
    /// The orchestrator processes the oldest result; its handlers have
    /// scheduled `scheduled` and have ended with `verdict`.
    Settle { scheduled: Seq<Command>, verdict: Result<(), Fault> },
    /// The crawl is shut down.
    Shutdown,
}

impl CrawlState {
    /// The state after `event`.
    pub open spec fn after(self, event: Event) -> CrawlState {
        match event {
            Event::Navigate { url } => self.submitted(Command::Navigate { url }),
            Event::Download { url, destination } => self.submitted(
                Command::Download { url, destination },
            ),
            Event::StartWorker => self.start_worker(),
            Event::Poll { worker } => self.polled(worker),
            Event::PageFetched { worker, fetched } => self.completed(
                worker,
                page_fetched(self.workers[worker], fetched),
            ),
            Event::FileFetched { worker, bytes } => self.completed(
                worker,
                file_fetched(self.workers[worker], bytes),
            ),
            Event::FileWritten { worker, written } => self.completed(
                worker,
                file_written(self.workers[worker], written),
            ),
            Event::Settle { scheduled, verdict } => self.settled(scheduled, verdict).0,
            Event::Shutdown => self.shutdown(),
        }
    }

    /// The state after `events`, one after the other.
    pub open spec fn after_all(self, events: Seq<Event>) -> CrawlState
        decreases events.len(),
    {
        if events.len() == 0 {
            self
        } else {
            self.after_all(events.drop_last()).after(events.last())
        }
    }
}

/// Replacing what one worker does changes the number of busy workers by
/// that worker alone.
pub proof fn lemma_busy_count_update(workers: Seq<Activity>, worker: int, activity: Activity)
    requires
        0 <= worker < workers.len(),
    ensures
        busy_count(workers.update(worker, activity)) + if workers[worker].is_busy() {
            1nat
        } else {
            0nat
        } == busy_count(workers) + if activity.is_busy() {
            1nat
        } else {
            0nat
        },
    decreases workers.len(),
{
    let updated = workers.update(worker, activity);
    if worker == workers.len() - 1 {
        assert(updated.drop_last() =~= workers.drop_last());
    } else {
        lemma_busy_count_update(workers.drop_last(), worker, activity);
        assert(updated.drop_last() =~= workers.drop_last().update(worker, activity));
    }
}

/// No more workers are busy than there are workers.
pub proof fn lemma_busy_count_bound(workers: Seq<Activity>)
    ensures
        busy_count(workers) <= workers.len(),
    decreases workers.len(),
{
    if workers.len() > 0 {
        lemma_busy_count_bound(workers.drop_last());
    }
}

/// A new idle worker leaves the number of busy workers as it was.
pub proof fn lemma_busy_count_push_idle(workers: Seq<Activity>)
    ensures
        busy_count(workers.push(Activity::Idle)) == busy_count(workers),
{
    assert(workers.push(Activity::Idle).drop_last() =~= workers);
}

/// The work count of two sequences put together is the sum of their work
/// counts.
pub proof fn lemma_work_count_add(front: Seq<Command>, back: Seq<Command>)
    ensures
        work_count(front + back) == work_count(front) + work_count(back),
    decreases back.len(),
{
    if back.len() == 0 {
        assert(front + back =~= front);
    } else {
        lemma_work_count_add(front, back.drop_last());
        assert((front + back).drop_last() =~= front + back.drop_last());
    }
}

/// Enqueueing one command is enqueueing a sequence of that command alone.
pub proof fn lemma_enqueue_one(state: CrawlState, command: Command)
    ensures
        state.enqueue(command) == state.enqueue_all(seq![command]),
{
    assert(seq![command] =~= Seq::<Command>::empty().push(command));
    lemma_work_count_push(Seq::<Command>::empty(), command);
    assert(state.work.push(command) =~= state.work + seq![command]);
}

/// Stops are no work.
pub proof fn lemma_work_count_stops(count: nat)
    ensures
        work_count(stops(count)) == 0,
    decreases count,
{
    if count > 0 {
        lemma_work_count_stops((count - 1) as nat);
        assert(stops(count).drop_last() =~= stops((count - 1) as nat));
    }
}

} // verus!
