//! The crawl: the queues, the set of claimed URLs, the in-flight counter and
//! the pool of workers, and the steps that take them from state to state.

use vstd::prelude::*;
use crate::channel::{Channels, Received};
use crate::dispatch::{dispatch, owned_selectors, plan_calls, texts_of, Dispatched};
use crate::error::{CrablerError, Fault};
use crate::laws::{
    law_every_end_sends_the_stops, law_every_end_shuts_down,
    lemma_file_fetched_keeps_accounting,
    lemma_file_written_keeps_accounting, lemma_follows_is_transitive,
    lemma_page_fetched_keeps_accounting, lemma_poll_keeps_accounting,
    lemma_settle_follows, lemma_settle_keeps_accounting, lemma_shutdown_keeps_accounting,
    lemma_start_worker_keeps_accounting, lemma_submission_keeps_accounting,
};
use crate::model::{
    ends_with_stops, idle, lemma_busy_count_bound, stops, visits, Advance, CrawlState, Handled,
    Step,
};
use crate::scraper::MutableWebScraper;
use crate::visited::VisitedSet;
use crate::work::{
    commands_of, lemma_work_count_bound, lemma_work_count_push, outcomes_of, work_count, Command,
    WorkItem, WorkResult,
};
use crate::worker::{
    done_of, file_fetched, file_of, file_written, page_fetched, page_of, supervise, Activity,
    Supervision, Turn, Worker, WorkerTask,
};

verus! {

/// What the workers of `workers` are doing, in their order.
pub open spec fn activities_of(workers: Seq<Worker>) -> Seq<Activity> {
    workers.map_values(|worker: Worker| worker@)
}

/// What a worker's turn has come to.
#[derive(Debug)]
pub enum Poll {
    /// Nothing happened: the worker has nothing to receive, waits for I/O
    /// of another kind, or does not exist.
    Waiting,
    /// The worker asks for this I/O. Its outcome is handed back through
    /// `page_fetched`, `file_fetched` or `file_written`.
    Task(WorkerTask),
    /// The worker has sent a result to the orchestrator.
    Emitted,
    /// The worker could not send its result, because the result queue is
    /// closed; its run ended on that fault and it was restarted.
    Restarted,
    /// The worker has stopped.
    Stopped,
}

impl View for Poll {
    type V = Step;

    open spec fn view(&self) -> Step {
        match *self {
            Poll::Waiting => Step::Waiting,
            Poll::Task(task) => Step::Task(task@),
            Poll::Emitted => Step::Emitted,
            Poll::Restarted => Step::Restarted,
            Poll::Stopped => Step::Stopped,
        }
    }
}

/// How far the orchestrator has come.
#[derive(Debug)]
pub enum Progress {
    /// No result waits: the workers have to be given their turns, and the
    /// I/O that they ask for has to be performed, before the orchestrator
    /// can go on.
    Waiting,
    /// A result was processed and work is still in flight.
    Continue,
    /// The crawl is over and shut down: completed, or ended by a fault.
    Done(Result<(), CrablerError>),
}

impl View for Progress {
    type V = Advance;

    open spec fn view(&self) -> Advance {
        match *self {
            Progress::Waiting => Advance::Waiting,
            Progress::Continue => Advance::Continue,
            Progress::Done(end) => Advance::Done(done_of(end)),
        }
    }
}

/// The state of a crawl.
///
/// The counter is wider than any number of commands that the queues and the
/// pool can hold, so that it never overflows.
pub struct Crawl {
    visited: VisitedSet,
    work: Channels<WorkItem>,
    results: Channels<WorkResult>,
    counter: u128,
    workers: Vec<Worker>,
    enqueued: Ghost<nat>,
    processed: Ghost<nat>,
}

impl View for Crawl {
    type V = CrawlState;

    closed spec fn view(&self) -> CrawlState {
        CrawlState {
            visited: self.visited@,
            work: commands_of(self.work@),
            work_closed: self.work.closed(),
            results: outcomes_of(self.results@),
            results_closed: self.results.closed(),
            in_flight: self.counter as nat,
            workers: activities_of(self.workers@),
            enqueued: self.enqueued@,
            processed: self.processed@,
        }
    }
}

impl Crawl {
    /// A crawl with nothing enqueued, nothing claimed and no worker.
    pub fn new() -> (crawl: Self)
        ensures
            crawl@ == CrawlState::initial(),
            crawl@.inv(),
    {
        let crawl = Crawl {
            visited: VisitedSet::new(),
            work: Channels::new(),
            results: Channels::new(),
            counter: 0,
            workers: Vec::new(),
            enqueued: Ghost(0),
            processed: Ghost(0),
        };
        assert(crawl@.work =~= Seq::<Command>::empty());
        assert(crawl@.results =~= Seq::empty());
        assert(crawl@.workers =~= Seq::<Activity>::empty());
        crawl
    }

    /// The in-flight counter: how many commands were enqueued and have not
    /// been processed.
    pub fn in_flight(&self) -> (count: u128)
        ensures
            count == self@.in_flight,
    {
        self.counter
    }

    /// How many workers the pool has, the stopped ones included.
    pub fn worker_count(&self) -> (count: usize)
        ensures
            count == self@.workers.len(),
    {
        self.workers.len()
    }

    /// How many commands wait for a worker.
    pub fn waiting_work(&self) -> (count: usize)
        ensures
            count == self@.work.len(),
    {
        self.work.len()
    }

    /// How many results wait for the orchestrator.
    pub fn waiting_results(&self) -> (count: usize)
        ensures
            count == self@.results.len(),
    {
        self.results.len()
    }

    /// Whether `url` has been claimed by a worker.
    pub fn is_visited(&self, url: &str) -> (visited: bool)
        ensures
            visited == self@.visited.contains(url@),
    {
        self.visited.contains(url)
    }

    /// Whether the crawl has been shut down.
    pub fn is_shut_down(&self) -> (down: bool)
        ensures
            down == (self@.work_closed && self@.results_closed),
    {
        self.work.is_closed() && self.results.is_closed()
    }

    /// The oldest result that waits for the orchestrator, if one does.
    pub fn next_result(&self) -> (next: Option<&WorkResult>)
        ensures
            self@.results.len() == 0 ==> next is None,
            self@.results.len() > 0 ==> next is Some && next->0@ == self@.results.first(),
    {
        self.results.peek()
    }

    /// Puts `item` on the work queue and counts it as in flight, unless the
    /// queue is closed.
    fn submit(&mut self, item: WorkItem) -> (submitted: Result<(), CrablerError>)
        requires
            old(self)@.inv(),
        ensures
            final(self)@ == old(self)@.submitted(item@),
            done_of(submitted) == old(self)@.submission(),
            final(self)@.inv(),
    {
        if self.work.is_closed() {
            return Err(CrablerError::QueueClosed);
        }
        proof {
            self.lemma_outstanding_fits();
            lemma_submission_keeps_accounting(self@, item@);
        }
        if item.is_work() {
            self.counter = self.counter + 1;
            self.enqueued = Ghost(self.enqueued@ + 1);
        }
        let sent = self.work.send(item);
        assert(commands_of(self.work@) =~= commands_of(old(self).work@).push(item@));
        sent
    }

    /// Until shutdown the counter is far below the limit of its type.
    proof fn lemma_outstanding_fits(&self)
        requires
            self@.inv(),
        ensures
            self@.outstanding() <= 3 * usize::MAX,
            !self@.work_closed ==> self.counter <= 3 * usize::MAX,
    {
        lemma_work_count_bound(self@.work);
        lemma_busy_count_bound(self@.workers);
        assert(self.work@.len() <= usize::MAX) by {
            self.work.lemma_len_fits();
        }
        assert(self.results@.len() <= usize::MAX) by {
            self.results.lemma_len_fits();
        }
        assert(self.workers@.len() <= usize::MAX) by {
            vstd::std_specs::vec::axiom_spec_len(&self.workers);
        }
        assert(self@.work.len() == self.work@.len());
        assert(self@.results.len() == self.results@.len());
        assert(self@.workers.len() == self.workers@.len());
    }

    /// Schedules a visit of `url`, to be made by one of the workers. A
    /// crawl that has been shut down refuses it with `QueueClosed`, and
    /// nothing changes.
    pub fn navigate(&mut self, url: &str) -> (scheduled: Result<(), CrablerError>)
        requires
            old(self)@.inv(),
        ensures
            final(self)@ == old(self)@.submitted(Command::Navigate { url: url@ }),
            done_of(scheduled) == old(self)@.submission(),
            final(self)@.inv(),
    {
        self.submit(WorkItem::Navigate { url: url.to_owned() })
    }

    /// Schedules a download of what is at `url` into the file
    /// `destination`. A crawl that has been shut down refuses it with
    /// `QueueClosed`, and nothing changes.
    pub fn download_file(&mut self, url: &str, destination: &str) -> (scheduled: Result<
        (),
        CrablerError,
    >)
        requires
            old(self)@.inv(),
        ensures
            final(self)@ == old(self)@.submitted(
                Command::Download { url: url@, destination: destination@ },
            ),
            done_of(scheduled) == old(self)@.submission(),
            final(self)@.inv(),
    {
        self.submit(
            WorkItem::Download { url: url.to_owned(), destination: destination.to_owned() },
        )
    }

    /// Adds one idle worker to the pool.
    pub fn start_worker(&mut self)
        requires
            old(self)@.inv(),
        ensures
            final(self)@ == old(self)@.start_worker(),
            final(self)@.inv(),
    {
        proof {
            lemma_start_worker_keeps_accounting(self@);
        }
        self.workers.push(Worker::new());
        assert(activities_of(self.workers@) =~= activities_of(old(self).workers@).push(
            Activity::Idle,
        ));
    }

    /// Starts the crawl: enqueues a visit of each of `urls`, in their
    /// order, and then adds `workers` workers to the pool. A crawl that has
    /// been shut down refuses the first URL with `QueueClosed`, and nothing
    /// changes.
    pub fn start(&mut self, urls: &Vec<String>, workers: usize) -> (started: Result<
        (),
        CrablerError,
    >)
        requires
            old(self)@.inv(),
        ensures
            final(self)@ == old(self)@.started(texts_of(urls@), workers as nat),
            done_of(started) == if old(self)@.work_closed && urls@.len() > 0 {
                Err::<(), Fault>(Fault::QueueClosed)
            } else {
                Ok::<(), Fault>(())
            },
            final(self)@.inv(),
    {
        let ghost texts = texts_of(urls@);
        let mut i: usize = 0;
        assert(old(self)@.enqueue_all(visits(texts.take(0))) == old(self)@) by {
            assert(visits(texts.take(0)) =~= Seq::<Command>::empty());
            assert(old(self)@.work + Seq::<Command>::empty() =~= old(self)@.work);
        }
        while i < urls.len()
            invariant
                i <= urls@.len(),
                texts == texts_of(urls@),
                self@.inv(),
                self@.work_closed == old(self)@.work_closed,
                i > 0 ==> !self@.work_closed,
                self@ == old(self)@.enqueue_all(visits(texts.take(i as int))),
            decreases urls@.len() - i,
        {
            let ghost before = self@;
            let ghost command = Command::Navigate { url: urls@[i as int]@ };
            let sent = self.navigate(urls[i].as_str());
            if sent.is_err() {
                return sent;
            }
            proof {
                let sofar = visits(texts.take(i as int));
                assert(visits(texts.take(i + 1)) =~= sofar.push(command));
                assert(old(self)@.work + sofar.push(command) =~= (old(self)@.work + sofar).push(
                    command,
                ));
                lemma_work_count_push(sofar, command);
            }
            i = i + 1;
        }
        assert(texts.take(urls@.len() as int) =~= texts);
        let ghost seeded = self@;
        assert(seeded.workers + idle(0) =~= seeded.workers);
        let mut started: usize = 0;
        while started < workers
            invariant
                started <= workers,
                self@.inv(),
                self@ == (CrawlState { workers: seeded.workers + idle(started as nat), ..seeded }),
            decreases workers - started,
        {
            self.start_worker();
            assert(seeded.workers + idle((started + 1) as nat) =~= (seeded.workers + idle(
                started as nat,
            )).push(Activity::Idle));
            started = started + 1;
        }
        Ok(())
    }

    /// Sends one `Stop` for each worker of the pool, unless the work queue
    /// is closed already, and closes both queues. Shutting down a crawl
    /// that has been shut down changes nothing.
    pub fn shutdown(&mut self)
        requires
            old(self)@.inv(),
        ensures
            final(self)@ == old(self)@.shutdown(),
            final(self)@.inv(),
    {
        proof {
            lemma_shutdown_keeps_accounting(self@);
        }
        self.close_down();
    }

    /// The steps of shutdown, whatever the counter says.
    fn close_down(&mut self)
        ensures
            final(self)@ == old(self)@.shutdown(),
    {
        let count = self.workers.len();
        let mut sent: usize = 0;
        while sent < count && !self.work.is_closed()
            invariant
                sent <= count,
                count == self.workers@.len(),
                self.work.closed() == old(self).work.closed(),
                old(self).work.closed() ==> self.work@ == old(self).work@,
                !old(self).work.closed() ==> commands_of(self.work@) == commands_of(
                    old(self).work@,
                ) + stops(sent as nat),
                self.workers == old(self).workers,
                self.results == old(self).results,
                self.visited == old(self).visited,
                self.counter == old(self).counter,
                self.enqueued == old(self).enqueued,
                self.processed == old(self).processed,
            decreases count - sent,
        {
            let ghost before = self.work@;
            let _ = self.work.send(WorkItem::Stop);
            sent = sent + 1;
            assert(commands_of(self.work@) =~= commands_of(old(self).work@) + stops(sent as nat))
                by {
                assert(commands_of(self.work@) =~= commands_of(before).push(Command::Stop));
                assert(stops(sent as nat) =~= stops((sent - 1) as nat).push(Command::Stop));
            }
        }
        assert(!old(self).work.closed() ==> commands_of(self.work@) == commands_of(
            old(self).work@,
        ) + stops(count as nat)) by {
            if !old(self).work.closed() && count == 0 {
                assert(stops(0) =~= Seq::<Command>::empty());
            }
        }
        self.work.close();
        self.results.close();
    }

    /// Makes worker `worker` do what `turn` says: the worker takes up its
    /// next activity, and its result, if it has one, is sent to the
    /// orchestrator. A worker whose run has ended is dealt with as its
    /// supervisor decides: retired after `Stop`, restarted after a fault.
    fn apply_turn(&mut self, worker: usize, turn: Turn) -> (poll: Poll)
        requires
            worker < old(self).workers@.len(),
            turn@.outcome is Some ==> turn@.activity is Idle,
            turn@.activity is Stopped ==> turn@.task is None,
        ensures
            final(self)@ == old(self)@.after_move(worker as int, turn@),
            poll@ == old(self)@.report(turn@),
    {
        let Turn { worker: next, result, task } = turn;
        let stopped = next.is_stopped();
        self.workers.set(worker, next);
        assert(activities_of(self.workers@) =~= activities_of(old(self).workers@).update(
            worker as int,
            turn@.activity,
        ));
        let emitted = result.is_some();
        let ended: Option<Result<(), CrablerError>> = match result {
            Some(result) => {
                let sent = self.results.send(result);
                assert(!old(self).results.closed() ==> outcomes_of(self.results@) =~= outcomes_of(
                    old(self).results@,
                ).push(result@));
                match sent {
                    Ok(()) => None,
                    Err(fault) => Some(Err(fault)),
                }
            },
            None => if stopped {
                Some(Ok(()))
            } else {
                None
            },
        };
        let restarted = match ended {
            Some(exit) => match supervise(&exit) {
                Supervision::Retire => {
                    self.workers.set(worker, Worker::Stopped);
                    false
                },
                Supervision::Restart => {
                    self.workers.set(worker, Worker::new());
                    true
                },
            },
            None => false,
        };
        assert(activities_of(self.workers@) =~= activities_of(old(self).workers@).update(
            worker as int,
            turn@.activity,
        ));
        match task {
            Some(task) => Poll::Task(task),
            None => if restarted {
                Poll::Restarted
            } else if emitted {
                Poll::Emitted
            } else if stopped {
                Poll::Stopped
            } else {
                Poll::Waiting
            },
        }
    }

    /// Takes worker `worker` out of the pool for a moment, leaving an idle
    /// worker in its place.
    fn take_worker(&mut self, worker: usize) -> (taken: Worker)
        requires
            worker < old(self).workers@.len(),
        ensures
            taken == old(self).workers@[worker as int],
            final(self).workers@ == old(self).workers@.update(worker as int, Worker::Idle),
            final(self).visited == old(self).visited,
            final(self).work == old(self).work,
            final(self).results == old(self).results,
            final(self).counter == old(self).counter,
            final(self).enqueued == old(self).enqueued,
            final(self).processed == old(self).processed,
    {
        self.workers.push(Worker::Idle);
        let taken = self.workers.swap_remove(worker);
        assert(self.workers@ =~= old(self).workers@.update(worker as int, Worker::Idle));
        taken
    }

    /// Gives worker `worker` its turn. An idle worker takes the oldest
    /// command, if one waits: it claims the command's URL and skips it if
    /// it had been claimed, asks for its fetch if it had not, or stops on
    /// `Stop`. Any other worker stays as it is.
    pub fn poll_worker(&mut self, worker: usize) -> (poll: Poll)
        requires
            old(self)@.inv(),
        ensures
            final(self)@ == old(self)@.polled(worker as int),
            poll@ == old(self)@.report(old(self)@.poll_move(worker as int)),
            final(self)@.inv(),
    {
        proof {
            lemma_poll_keeps_accounting(self@, worker as int);
        }
        if worker >= self.workers.len() {
            return Poll::Waiting;
        }
        if !self.workers[worker].is_idle() {
            return if self.workers[worker].is_stopped() {
                Poll::Stopped
            } else {
                Poll::Waiting
            };
        }
        match self.work.recv() {
            Received::Item(item) => {
                assert(commands_of(self.work@) =~= commands_of(old(self).work@).drop_first());
                let turn = Worker::process_message(item, &mut self.visited);
                self.apply_turn(worker, turn)
            },
            _ => Poll::Waiting,
        }
    }

    /// Hands worker `worker` the page that was fetched for it: its status
    /// and text, or the fault. A worker that waits for a page sends it on
    /// as `Page`, or as `Failed`, and goes idle; with any other worker, or
    /// none, nothing changes.
    pub fn page_fetched(&mut self, worker: usize, fetched: Result<(u16, String), CrablerError>) -> (poll:
        Poll)
        requires
            old(self)@.inv(),
        ensures
            final(self)@ == old(self)@.completed(
                worker as int,
                page_fetched(old(self)@.workers[worker as int], page_of(fetched)),
            ),
            poll@ == old(self)@.completion(
                worker as int,
                page_fetched(old(self)@.workers[worker as int], page_of(fetched)),
            ),
            final(self)@.inv(),
    {
        if worker >= self.workers.len() {
            return Poll::Waiting;
        }
        proof {
            lemma_page_fetched_keeps_accounting(self@, worker as int, page_of(fetched));
        }
        let turn = self.take_worker(worker).page_fetched(fetched);
        let poll = self.apply_turn(worker, turn);
        assert(self@ == old(self)@.after_move(worker as int, turn@)) by {
            assert(activities_of(old(self).workers@.update(worker as int, Worker::Idle)).update(
                worker as int,
                turn@.activity,
            ) =~= activities_of(old(self).workers@).update(worker as int, turn@.activity));
        }
        poll
    }

    /// Hands worker `worker` the bytes that were fetched for it, or the
    /// fault. A worker that waits for them asks for exactly these bytes to
    /// be written to its destination, or sends the fault on as `Failed` and
    /// goes idle; with any other worker, or none, nothing changes.
    pub fn file_fetched(&mut self, worker: usize, fetched: Result<Vec<u8>, CrablerError>) -> (poll:
        Poll)
        requires
            old(self)@.inv(),
        ensures
            final(self)@ == old(self)@.completed(
                worker as int,
                file_fetched(old(self)@.workers[worker as int], file_of(fetched)),
            ),
            poll@ == old(self)@.completion(
                worker as int,
                file_fetched(old(self)@.workers[worker as int], file_of(fetched)),
            ),
            final(self)@.inv(),
    {
        if worker >= self.workers.len() {
            return Poll::Waiting;
        }
        proof {
            lemma_file_fetched_keeps_accounting(self@, worker as int, file_of(fetched));
        }
        let turn = self.take_worker(worker).file_fetched(fetched);
        let poll = self.apply_turn(worker, turn);
        assert(self@ == old(self)@.after_move(worker as int, turn@)) by {
            assert(activities_of(old(self).workers@.update(worker as int, Worker::Idle)).update(
                worker as int,
                turn@.activity,
            ) =~= activities_of(old(self).workers@).update(worker as int, turn@.activity));
        }
        poll
    }

    /// Hands worker `worker` the end of the write that was made for it. A
    /// worker that waits for it sends `Downloaded`, or the fault as
    /// `Failed`, and goes idle; with any other worker, or none, nothing
    /// changes.
    pub fn file_written(&mut self, worker: usize, written: Result<(), CrablerError>) -> (poll:
        Poll)
        requires
            old(self)@.inv(),
        ensures
            final(self)@ == old(self)@.completed(
                worker as int,
                file_written(old(self)@.workers[worker as int], done_of(written)),
            ),
            poll@ == old(self)@.completion(
                worker as int,
                file_written(old(self)@.workers[worker as int], done_of(written)),
            ),
            final(self)@.inv(),
    {
        if worker >= self.workers.len() {
            return Poll::Waiting;
        }
        proof {
            lemma_file_written_keeps_accounting(self@, worker as int, done_of(written));
        }
        let turn = self.take_worker(worker).file_written(written);
        let poll = self.apply_turn(worker, turn);
        assert(self@ == old(self)@.after_move(worker as int, turn@)) by {
            assert(activities_of(old(self).workers@.update(worker as int, Worker::Idle)).update(
                worker as int,
                turn@.activity,
            ) =~= activities_of(old(self).workers@).update(worker as int, turn@.activity));
        }
        poll
    }

    /// Puts `scheduled` on the open work queue, in its order, and counts
    /// each command but `Stop` as in flight.
    fn enqueue_all(&mut self, scheduled: Vec<WorkItem>)
        requires
            !old(self)@.work_closed,
            old(self).counter <= 3 * usize::MAX,
        ensures
            final(self)@ == old(self)@.enqueue_all(commands_of(scheduled@)),
    {
        let ghost all = commands_of(scheduled@);
        proof {
            assert(scheduled@.len() <= usize::MAX) by {
                vstd::std_specs::vec::axiom_spec_len(&scheduled);
            }
            assert(all.take(0) =~= Seq::<Command>::empty());
            assert(commands_of(self.work@) + all.take(0) =~= commands_of(self.work@));
        }
        for item in iter: scheduled
            invariant
                iter.seq() == scheduled@,
                all == commands_of(scheduled@),
                scheduled@.len() <= usize::MAX,
                old(self).counter <= 3 * usize::MAX,
                !self.work.closed(),
                commands_of(self.work@) == commands_of(old(self).work@) + all.take(
                    iter.index() as int,
                ),
                self.counter == old(self).counter + work_count(all.take(iter.index() as int)),
                self.enqueued@ == old(self).enqueued@ + work_count(all.take(iter.index() as int)),
                self.workers == old(self).workers,
                self.results == old(self).results,
                self.visited == old(self).visited,
                self.processed == old(self).processed,
        {
            let ghost done = iter.index() as int;
            proof {
                lemma_work_count_bound(all.take(done));
                lemma_work_count_push(all.take(done), item@);
                assert(all.take(done + 1) =~= all.take(done).push(item@));
            }
            if item.is_work() {
                self.counter = self.counter + 1;
                self.enqueued = Ghost(self.enqueued@ + 1);
            }
            let ghost before = self.work@;
            let _ = self.work.send(item);
            assert(commands_of(self.work@) =~= commands_of(before).push(item@));
            assert(commands_of(old(self).work@) + all.take(done + 1) =~= (commands_of(
                old(self).work@,
            ) + all.take(done)).push(item@));
        }
        assert(all.take(scheduled@.len() as int) =~= all);
    }

    /// Counts the oldest result as dealt with, after the handlers have been
    /// called for it, have scheduled `scheduled` and have ended with
    /// `verdict`, and says how the orchestrator goes on.
    ///
    /// With no result waiting nothing changes, unless the result queue is
    /// closed: then the crawl ends with `QueueClosed`. Otherwise the result
    /// leaves the queue, and what was scheduled is enqueued and counted as
    /// in flight before the result is counted as processed. The crawl is
    /// complete when the counter has come to zero by that. A failed handler
    /// ends the crawl with its fault, and so does work scheduled after the
    /// work queue was closed, with `QueueClosed`. A crawl that ends, either
    /// way, is shut down.
    pub fn settle(&mut self, scheduled: Vec<WorkItem>, verdict: Result<(), CrablerError>) -> (progress:
        Progress)
        requires
            old(self)@.inv(),
        ensures
            final(self)@ == old(self)@.settled(commands_of(scheduled@), done_of(verdict)).0,
            progress@ == old(self)@.settled(commands_of(scheduled@), done_of(verdict)).1,
            final(self)@.inv(),
    {
        proof {
            lemma_settle_keeps_accounting(self@, commands_of(scheduled@), done_of(verdict));
            self.lemma_outstanding_fits();
        }
        match self.results.recv() {
            Received::Empty => {
                return Progress::Waiting;
            },
            Received::Closed => {
                self.close_down();
                return Progress::Done(Err(CrablerError::QueueClosed));
            },
            Received::Item(_) => {},
        }
        assert(outcomes_of(self.results@) =~= outcomes_of(old(self).results@).drop_first());
        let refused = if self.work.is_closed() {
            scheduled.len() > 0
        } else {
            self.enqueue_all(scheduled);
            false
        };
        match verdict {
            Err(fault) => {
                self.close_down();
                Progress::Done(Err(fault))
            },
            Ok(()) => if refused {
                self.close_down();
                Progress::Done(Err(CrablerError::QueueClosed))
            } else {
                self.counter = self.counter - 1;
                self.processed = Ghost(self.processed@ + 1);
                if self.counter == 0 {
                    self.close_down();
                    Progress::Done(Ok(()))
                } else {
                    Progress::Continue
                }
            },
        }
    }

    /// Takes the orchestrator one step on: the handlers of `scraper` are
    /// called for the oldest result, and the result is settled with what
    /// they have scheduled and with their verdict. With no result waiting
    /// no handler is called.
    pub fn event_step<S: MutableWebScraper>(&mut self, scraper: &mut S) -> (progress: Progress)
        requires
            old(self)@.inv(),
        ensures
            exists|scheduled: Seq<Command>, verdict: Result<(), Fault>|
                final(self)@ == (#[trigger] old(self)@.settled(scheduled, verdict)).0 && progress@
                    == old(self)@.settled(scheduled, verdict).1,
            old(self)@.results.len() == 0 ==> final(self)@ == old(self)@.settled(
                Seq::empty(),
                Ok(()),
            ).0 && progress@ == old(self)@.settled(Seq::empty(), Ok(())).1,
            old(self)@.results.len() == 0 ==> *final(scraper) == *old(scraper),
            final(self)@.inv(),
    {
        let dispatched = match self.next_result() {
            None => Dispatched { scheduled: Vec::new(), verdict: Ok(()) },
            Some(result) => {
                let selectors = match result {
                    WorkResult::Page { .. } => owned_selectors(scraper.all_html_selectors()),
                    _ => Vec::new(),
                };
                match plan_calls(result, &selectors) {
                    Ok(plan) => dispatch(scraper, plan),
                    Err(fault) => Dispatched { scheduled: Vec::new(), verdict: Err(fault) },
                }
            },
        };
        let ghost scheduled = commands_of(dispatched.scheduled@);
        let ghost verdict = done_of(dispatched.verdict);
        assert(old(self)@.results.len() == 0 ==> scheduled =~= Seq::<Command>::empty());
        let progress = self.settle(dispatched.scheduled, dispatched.verdict);
        assert(self@ == old(self)@.settled(scheduled, verdict).0);
        progress
    }

    /// Runs the orchestrator's loop: results are processed, oldest first,
    /// until the crawl is complete, a fault ends it, or no result waits.
    ///
    /// The run takes one step for each result that it processes, and every
    /// step is a step of `settle` with what the handlers have scheduled and
    /// with their verdict. It ends with the first step that does not say
    /// `Continue`, and what it returns is what that step says: `Done` with
    /// `Ok` once the counter has come to zero, `Done` with the fault when a
    /// handler failed or a queue was found closed, and `Waiting` when no
    /// result waits and the workers have to go on first. A crawl that ends
    /// is shut down: one `Stop` for each worker stands at the end of the
    /// work queue, and both queues are closed.
    pub fn run<S: MutableWebScraper>(&mut self, scraper: &mut S) -> (progress: Progress)
        requires
            old(self)@.inv(),
        ensures
            old(self)@.ran(final(self)@, progress@),
            final(self)@.inv(),
            final(self)@.follows(old(self)@),
            !(progress@ is Continue),
            progress@ is Waiting ==> final(self)@.results.len() == 0 && final(self)@.results_closed
                == old(self)@.results_closed && !final(self)@.results_closed,
            progress@ is Done ==> final(self)@.work_closed && final(self)@.results_closed,
            progress@ is Done && !old(self)@.work_closed ==> ends_with_stops(
                final(self)@.work,
                final(self)@.workers.len(),
            ),
            progress@ == Advance::Done(Ok(())) ==> final(self)@.in_flight == 0,
            old(self)@.results.len() == 0 ==> final(self)@ == old(self)@.settled(
                Seq::empty(),
                Ok(()),
            ).0 && progress@ == old(self)@.settled(Seq::empty(), Ok(())).1,
            old(self)@.results.len() == 0 ==> *final(scraper) == *old(scraper),
    {
        let mut first = true;
        let ghost mut steps: Seq<Handled> = Seq::empty();
        loop
            invariant
                self@.inv(),
                self@.follows(old(self)@),
                first ==> self@ == old(self)@,
                first ==> *scraper == *old(scraper),
                !first ==> old(self)@.results.len() > 0,
                first == (steps.len() == 0),
                self@ == old(self)@.settled_through(steps),
                self@.work_closed == old(self)@.work_closed,
                self@.results_closed == old(self)@.results_closed,
                forall|i: int|
                    0 < i <= steps.len() ==> (#[trigger] old(self)@.advance_after(
                        steps.take(i),
                    )) is Continue,
            decreases self@.results.len(),
        {
            let ghost before = self@;
            let ghost taken = steps;
            let progress = self.event_step(scraper);
            proof {
                let (scheduled, verdict) = choose|scheduled: Seq<Command>, verdict: Result<(), Fault>|
                    self@ == (#[trigger] before.settled(scheduled, verdict)).0 && progress@
                        == before.settled(scheduled, verdict).1;
                lemma_settle_follows(before, scheduled, verdict);
                lemma_follows_is_transitive(old(self)@, before, self@);
                law_every_end_shuts_down(before, scheduled, verdict);
                if progress@ is Done && !before.work_closed {
                    law_every_end_sends_the_stops(before, scheduled, verdict);
                }
                steps = taken.push(Handled { scheduled, verdict });
                assert(steps.drop_last() =~= taken);
                assert(steps.take(steps.len() as int) =~= steps);
                assert forall|i: int| 0 < i < steps.len() implies (#[trigger] old(
                    self,
                )@.advance_after(steps.take(i))) is Continue by {
                    assert(steps.take(i) =~= taken.take(i));
                }
                assert(progress@ == old(self)@.advance_after(steps));
            }
            match progress {
                Progress::Continue => {
                    first = false;
                },
                other => {
                    assert(old(self)@.runs(steps));
                    return other;
                },
            }
        }
    }
}

} // verus!
