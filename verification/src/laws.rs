//! What holds of every crawl: the accounting is kept by every transition,
//! and the laws that follow from it.

use vstd::prelude::*;
use crate::error::Fault;
use crate::model::{
    busy_count, lemma_enqueue_one, lemma_busy_count_push_idle, lemma_busy_count_update, lemma_work_count_add,
    lemma_work_count_stops, ends_with_stops, stops, Advance, CrawlState, Event, Handled, Io,
    Step,
};
use crate::response::visit_of;
use crate::work::{
    lemma_work_count_drop_first, lemma_work_count_push, work_count, Command, Outcome,
};
use crate::worker::{
    claimed, file_fetched, file_written, page_fetched, received, Activity, Move, Task,
};

verus! {

/// Enqueueing on an open work queue keeps the accounting.
pub proof fn lemma_enqueue_keeps_accounting(state: CrawlState, commands: Seq<Command>)
    requires
        state.inv(),
        !state.work_closed,
    ensures
        state.enqueue_all(commands).inv(),
        state.enqueue_all(commands).outstanding() == state.outstanding() + work_count(commands),
{
    lemma_work_count_add(state.work, commands);
}

/// An attempt to enqueue keeps the accounting, whether the queue takes the
/// command or refuses it.
pub proof fn lemma_submission_keeps_accounting(state: CrawlState, command: Command)
    requires
        state.inv(),
    ensures
        state.submitted(command).inv(),
{
    if !state.work_closed {
        lemma_enqueue_one(state, command);
        lemma_enqueue_keeps_accounting(state, seq![command]);
    }
}

/// A new worker keeps the accounting.
pub proof fn lemma_start_worker_keeps_accounting(state: CrawlState)
    requires
        state.inv(),
    ensures
        state.start_worker().inv(),
{
    lemma_busy_count_push_idle(state.workers);
}

/// Shutdown keeps the accounting.
pub proof fn lemma_shutdown_keeps_accounting(state: CrawlState)
    requires
        state.inv(),
    ensures
        state.shutdown().inv(),
{
    if !state.work_closed {
        lemma_work_count_add(state.work, stops(state.workers.len()));
        lemma_work_count_stops(state.workers.len());
    }
}

/// A move of a worker that answers as many commands as it lets go of, and
/// takes `taken` commands on, changes the number of commands at some stage
/// by `taken`, less the result that a closed result queue has refused.
pub proof fn lemma_move_accounts(state: CrawlState, worker: int, turn: Move, taken: nat)
    requires
        state.has_worker(worker),
        (if state.workers[worker].is_busy() {
            1nat
        } else {
            0nat
        }) + taken == (if turn.activity.is_busy() {
            1nat
        } else {
            0nat
        }) + (if turn.outcome is Some {
            1nat
        } else {
            0nat
        }),
    ensures
        !state.results_closed ==> state.after_move(worker, turn).outstanding()
            == state.outstanding() + taken,
        state.after_move(worker, turn).outstanding() <= state.outstanding() + taken,
{
    lemma_busy_count_update(state.workers, worker, turn.activity);
}

/// A worker's turn keeps the accounting.
pub proof fn lemma_poll_keeps_accounting(state: CrawlState, worker: int)
    requires
        state.inv(),
    ensures
        state.polled(worker).inv(),
{
    if state.can_receive(worker) {
        let command = state.work.first();
        let turn = received(command, state.visited);
        let taken = CrawlState {
            work: state.work.drop_first(),
            visited: claimed(command, state.visited),
            ..state
        };
        lemma_work_count_drop_first(state.work);
        lemma_move_accounts(
            taken,
            worker,
            turn,
            if command.is_work() {
                1nat
            } else {
                0nat
            },
        );
    }
}

/// Handing a fetched page to a worker keeps the accounting.
pub proof fn lemma_page_fetched_keeps_accounting(
    state: CrawlState,
    worker: int,
    fetched: Result<(u16, Seq<char>), Fault>,
)
    requires
        state.inv(),
        state.has_worker(worker),
    ensures
        state.completed(worker, page_fetched(state.workers[worker], fetched)).inv(),
{
    lemma_move_accounts(state, worker, page_fetched(state.workers[worker], fetched), 0);
}

/// Handing fetched bytes to a worker keeps the accounting.
pub proof fn lemma_file_fetched_keeps_accounting(
    state: CrawlState,
    worker: int,
    fetched: Result<Seq<u8>, Fault>,
)
    requires
        state.inv(),
        state.has_worker(worker),
    ensures
        state.completed(worker, file_fetched(state.workers[worker], fetched)).inv(),
{
    lemma_move_accounts(state, worker, file_fetched(state.workers[worker], fetched), 0);
}

/// Handing the end of a write to a worker keeps the accounting.
pub proof fn lemma_file_written_keeps_accounting(
    state: CrawlState,
    worker: int,
    written: Result<(), Fault>,
)
    requires
        state.inv(),
        state.has_worker(worker),
    ensures
        state.completed(worker, file_written(state.workers[worker], written)).inv(),
{
    lemma_move_accounts(state, worker, file_written(state.workers[worker], written), 0);
}

/// Processing a result keeps the accounting, whatever the handlers have
/// scheduled and however they have ended. While the result waits the
/// counter is at least one, so that counting it as processed never takes
/// the counter below zero.
pub proof fn lemma_settle_keeps_accounting(
    state: CrawlState,
    scheduled: Seq<Command>,
    verdict: Result<(), Fault>,
)
    requires
        state.inv(),
    ensures
        state.settled(scheduled, verdict).0.inv(),
        state.results.len() > 0 ==> state.in_flight >= 1,
{
    if state.results.len() == 0 {
        lemma_shutdown_keeps_accounting(state);
    } else {
        let taken = CrawlState { results: state.results.drop_first(), ..state };
        let grown = if taken.work_closed {
            taken
        } else {
            taken.enqueue_all(scheduled)
        };
        if !taken.work_closed {
            lemma_work_count_add(taken.work, scheduled);
        }
        if !grown.work_closed {
            lemma_work_count_add(grown.work, stops(grown.workers.len()));
            lemma_work_count_stops(grown.workers.len());
        }
        let counted = CrawlState {
            in_flight: (grown.in_flight - 1) as nat,
            processed: grown.processed + 1,
            ..grown
        };
        lemma_shutdown_keeps_accounting(counted);
    }
}

/// Processing a result leads to a state that follows the one before.
pub proof fn lemma_settle_follows(
    state: CrawlState,
    scheduled: Seq<Command>,
    verdict: Result<(), Fault>,
)
    ensures
        state.settled(scheduled, verdict).0.follows(state),
        state.settled(scheduled, verdict).1 is Continue ==> state.settled(
            scheduled,
            verdict,
        ).0.results.len() < state.results.len(),
{
}

/// What follows a state that follows another follows that one too.
pub proof fn lemma_follows_is_transitive(first: CrawlState, second: CrawlState, third: CrawlState)
    requires
        second.follows(first),
        third.follows(second),
    ensures
        third.follows(first),
{
}

/// Whatever happens to a crawl, the accounting is kept.
pub proof fn lemma_event_keeps_accounting(state: CrawlState, event: Event)
    requires
        state.inv(),
    ensures
        state.after(event).inv(),
{
    match event {
        Event::Navigate { url } => {
            lemma_submission_keeps_accounting(state, Command::Navigate { url });
        },
        Event::Download { url, destination } => {
            lemma_submission_keeps_accounting(state, Command::Download { url, destination });
        },
        Event::StartWorker => {
            lemma_start_worker_keeps_accounting(state);
        },
        Event::Poll { worker } => {
            lemma_poll_keeps_accounting(state, worker);
        },
        Event::PageFetched { worker, fetched } => {
            if state.has_worker(worker) {
                lemma_page_fetched_keeps_accounting(state, worker, fetched);
            }
        },
        Event::FileFetched { worker, bytes } => {
            if state.has_worker(worker) {
                lemma_file_fetched_keeps_accounting(state, worker, bytes);
            }
        },
        Event::FileWritten { worker, written } => {
            if state.has_worker(worker) {
                lemma_file_written_keeps_accounting(state, worker, written);
            }
        },
        Event::Settle { scheduled, verdict } => {
            lemma_settle_keeps_accounting(state, scheduled, verdict);
        },
        Event::Shutdown => {
            lemma_shutdown_keeps_accounting(state);
        },
    }
}

/// In every state that a new crawl can come to, by whatever is submitted,
/// whatever the workers do and in whatever order, and however the handlers
/// answer, the accounting holds: the counter is the number of commands
/// enqueued less the number of results processed, and it is zero exactly
/// when every command that was enqueued has been processed.
pub proof fn law_accounting_holds_on_every_path(events: Seq<Event>)
    ensures
        CrawlState::initial().after_all(events).inv(),
        CrawlState::initial().after_all(events).in_flight == 0 <==> CrawlState::initial().after_all(
            events,
        ).processed == CrawlState::initial().after_all(events).enqueued,
    decreases events.len(),
{
    if events.len() > 0 {
        law_accounting_holds_on_every_path(events.drop_last());
        lemma_event_keeps_accounting(
            CrawlState::initial().after_all(events.drop_last()),
            events.last(),
        );
    }
}

/// A URL that was claimed stays claimed, whatever happens.
pub proof fn law_claims_are_kept(state: CrawlState, event: Event, url: Seq<char>)
    requires
        state.visited.contains(url),
    ensures
        state.after(event).visited.contains(url),
{
}

/// The counter is zero exactly when every command that was enqueued has
/// been processed. Until shutdown it is zero exactly when no command waits
/// for a worker, no worker holds one and no result waits: each command that
/// was enqueued and has not been processed is at exactly one of these
/// stages.
pub proof fn law_counter_is_zero_iff_all_processed(state: CrawlState)
    requires
        state.inv(),
    ensures
        state.in_flight == 0 <==> state.processed == state.enqueued,
        state.enqueued == state.processed + state.in_flight,
        !state.work_closed ==> state.enqueued == state.processed + work_count(state.work)
            + busy_count(state.workers) + state.results.len(),
        !state.work_closed ==> (state.in_flight == 0 <==> work_count(state.work) == 0
            && busy_count(state.workers) == 0 && state.results.len() == 0),
{
}

/// The orchestrator declares the crawl complete exactly when the counter,
/// after what the handlers have scheduled was counted and the result was
/// counted as processed, is zero; and work that a handler has scheduled
/// keeps the crawl going.
pub proof fn law_completion_waits_for_scheduled_work(state: CrawlState, scheduled: Seq<Command>)
    requires
        state.inv(),
        !state.work_closed,
        state.results.len() > 0,
    ensures
        state.settled(scheduled, Ok(())).1 == Advance::Done(Ok(())) <==> state.in_flight
            + work_count(scheduled) == 1,
        state.settled(scheduled, Ok(())).1 != Advance::Done(Ok(())) ==> state.settled(
            scheduled,
            Ok(()),
        ).1 == Advance::Continue,
        work_count(scheduled) > 0 ==> state.settled(scheduled, Ok(())).1 == Advance::Continue,
        state.settled(scheduled, Ok(())).0.in_flight == state.in_flight + work_count(scheduled)
            - 1,
{
    lemma_settle_keeps_accounting(state, scheduled, Ok(()));
}

/// Of two commands for one URL that a worker receives one after the other,
/// the second is skipped; and if the URL had not been claimed before, the
/// first is fetched and ends as a page or as a failure. So the two give one
/// page or failure and one skip, never two pages.
pub proof fn law_second_visit_is_skipped(
    url: Seq<char>,
    visited: Set<Seq<char>>,
    fetched: Result<(u16, Seq<char>), Fault>,
)
    ensures
        received(Command::Navigate { url }, claimed(Command::Navigate { url }, visited))
            == (Move {
            activity: Activity::Idle,
            outcome: Some(Outcome::Skipped { url }),
            task: None,
        }),
        !visited.contains(url) ==> {
            let first = received(Command::Navigate { url }, visited);
            let answer = page_fetched(first.activity, fetched);
            &&& first.outcome is None
            &&& first.task == Some(Task::FetchPage { url })
            &&& answer.activity is Idle
            &&& answer.outcome is Some
            &&& answer.outcome->0 is Page || answer.outcome->0 is Failed
            &&& visit_of(answer.outcome->0) is Some && visit_of(answer.outcome->0)->0.url == url
        },
{
}

/// A failed fetch of `failed` becomes the result `Failed` for that URL and
/// leaves the worker idle; the worker then takes a command for another URL
/// that has not been claimed, and completes it as a page.
pub proof fn law_failure_is_isolated(
    failed: Seq<char>,
    fault: Fault,
    next: Seq<char>,
    visited: Set<Seq<char>>,
    status: u16,
    body: Seq<char>,
)
    requires
        !visited.contains(failed),
        !visited.contains(next),
        next != failed,
    ensures
        ({
            let first = received(Command::Navigate { url: failed }, visited);
            let answer = page_fetched(first.activity, Err(fault));
            let claimed_then = claimed(Command::Navigate { url: failed }, visited);
            let second = received(Command::Navigate { url: next }, claimed_then);
            let done = page_fetched(second.activity, Ok((status, body)));
            &&& answer.outcome == Some(Outcome::Failed { url: failed, error: fault })
            &&& answer.activity is Idle
            &&& second.task == Some(Task::FetchPage { url: next })
            &&& done.outcome == Some(Outcome::Page { url: next, body, status })
            &&& done.activity is Idle
        }),
{
}

/// A download whose fetch and write succeed asks for exactly the fetched
/// bytes to be written to its destination, and ends as `Downloaded` for
/// its URL and destination.
pub proof fn law_download_writes_what_was_fetched(
    url: Seq<char>,
    destination: Seq<char>,
    visited: Set<Seq<char>>,
    bytes: Seq<u8>,
)
    requires
        !visited.contains(url),
    ensures
        ({
            let first = received(Command::Download { url, destination }, visited);
            let write = file_fetched(first.activity, Ok(bytes));
            let done = file_written(write.activity, Ok(()));
            &&& first.task == Some(Task::FetchFile { url })
            &&& write.task == Some(Task::WriteFile { destination, bytes })
            &&& write.outcome is None
            &&& done.outcome == Some(Outcome::Downloaded { url, destination })
            &&& done.activity is Idle
        }),
{
}

/// Shutdown closes both queues, and a second shutdown changes nothing: the
/// queues are closed once, and each worker is sent one `Stop`.
pub proof fn law_shutdown_closes_once(state: CrawlState)
    ensures
        state.shutdown().work_closed,
        state.shutdown().results_closed,
        state.shutdown().shutdown() == state.shutdown(),
        !state.work_closed ==> state.shutdown().work == state.work + stops(state.workers.len()),
{
}

/// When the orchestrator's loop ends a crawl that was not shut down
/// before, one `Stop` for each worker stands at the end of the work queue,
/// behind everything that was enqueued, and the queues were closed after
/// that.
pub proof fn law_every_end_sends_the_stops(
    state: CrawlState,
    scheduled: Seq<Command>,
    verdict: Result<(), Fault>,
)
    requires
        !state.work_closed,
        !state.results_closed,
        state.settled(scheduled, verdict).1 is Done,
    ensures
        ends_with_stops(state.settled(scheduled, verdict).0.work, state.workers.len()),
        state.settled(scheduled, verdict).0.workers == state.workers,
        state.settled(scheduled, verdict).0.work_closed,
        state.settled(scheduled, verdict).0.results_closed,
{
    let end = state.settled(scheduled, verdict).0;
    let front = state.work + scheduled;
    assert(end.work == front + stops(state.workers.len()));
}

/// Every result that waits is told to the handlers: no `Stop` reaches the
/// orchestrator.
pub proof fn law_no_stop_reaches_the_orchestrator(state: CrawlState)
    requires
        state.inv(),
        state.results.len() > 0,
    ensures
        !(state.results.first() is Stop),
        visit_of(state.results.first()) is Some,
{
}

/// While the orchestrator's loop goes on it closes no queue, touches no
/// worker and claims no URL, and each step takes a result off the queue.
pub proof fn lemma_going_on_keeps_the_queues_open(state: CrawlState, steps: Seq<Handled>)
    requires
        forall|i: int|
            0 < i <= steps.len() ==> (#[trigger] state.advance_after(steps.take(i))) is Continue,
    ensures
        state.settled_through(steps).work_closed == state.work_closed,
        state.settled_through(steps).results_closed == state.results_closed,
        state.settled_through(steps).workers == state.workers,
        state.settled_through(steps).visited == state.visited,
        state.settled_through(steps).results.len() + steps.len() == state.results.len(),
    decreases steps.len(),
{
    if steps.len() > 0 {
        let before = steps.drop_last();
        assert forall|i: int| 0 < i <= before.len() implies (#[trigger] state.advance_after(
            before.take(i),
        )) is Continue by {
            assert(before.take(i) =~= steps.take(i));
        }
        lemma_going_on_keeps_the_queues_open(state, before);
        assert(steps.take(steps.len() as int) =~= steps);
        assert(state.advance_after(steps) is Continue);
    }
}

/// A run of the orchestrator's loop that ends a crawl which had not been
/// shut down leaves one `Stop` for each worker at the end of the work
/// queue, and both queues closed; and it has taken one result off the
/// queue for each of its steps but the last, and one more with the last
/// unless the queue was empty then.
pub proof fn law_finished_run_has_sent_the_stops(state: CrawlState, steps: Seq<Handled>)
    requires
        !state.work_closed,
        !state.results_closed,
        state.runs(steps),
        state.advance_after(steps) is Done,
    ensures
        ends_with_stops(state.settled_through(steps).work, state.workers.len()),
        state.settled_through(steps).work_closed,
        state.settled_through(steps).results_closed,
        state.settled_through(steps).workers == state.workers,
{
    let before = steps.drop_last();
    assert forall|i: int| 0 < i <= before.len() implies (#[trigger] state.advance_after(
        before.take(i),
    )) is Continue by {
        assert(before.take(i) =~= steps.take(i));
    }
    lemma_going_on_keeps_the_queues_open(state, before);
    law_every_end_sends_the_stops(
        state.settled_through(before),
        steps.last().scheduled,
        steps.last().verdict,
    );
}

/// In a run of the orchestrator's loop a step at which a handler fails,
/// while a result waits, is the last: no result is processed behind it,
/// and the run returns the handler's fault.
pub proof fn law_run_ends_on_the_first_fault(state: CrawlState, steps: Seq<Handled>, at: int)
    requires
        state.runs(steps),
        0 <= at < steps.len(),
        steps[at].verdict is Err,
        state.settled_through(steps.take(at)).results.len() > 0,
    ensures
        at == steps.len() - 1,
        state.advance_after(steps) == Advance::Done(steps[at].verdict),
{
    let upto = steps.take(at + 1);
    assert(upto.drop_last() =~= steps.take(at));
    assert(upto.last() == steps[at]);
    assert(state.advance_after(upto) == Advance::Done(steps[at].verdict));
    assert(steps.take(steps.len() as int) =~= steps);
}

/// A run of the orchestrator's loop that finds a result waiting processes
/// it: it does not end before it has taken that result off the queue.
pub proof fn law_run_takes_what_waits(state: CrawlState, steps: Seq<Handled>)
    requires
        state.runs(steps),
        state.results.len() > 0,
    ensures
        state.settled_through(steps).results.len() < state.results.len(),
        !(state.advance_after(steps) is Waiting) || steps.len() > 1,
{
    let before = steps.drop_last();
    assert forall|i: int| 0 < i <= before.len() implies (#[trigger] state.advance_after(
        before.take(i),
    )) is Continue by {
        assert(before.take(i) =~= steps.take(i));
    }
    lemma_going_on_keeps_the_queues_open(state, before);
    lemma_settle_follows(state.settled_through(before), steps.last().scheduled, steps.last().verdict);
}

/// A visit or a download that a handler schedules through its response is
/// put on the work queue behind what waited there, and is counted as in
/// flight before the result that the handler was called for is counted as
/// processed: the counter does not fall by that result, and the crawl goes
/// on.
pub proof fn law_scheduled_work_is_counted_first(
    state: CrawlState,
    scheduled: Seq<Command>,
    command: Command,
)
    requires
        state.inv(),
        !state.work_closed,
        state.results.len() > 0,
        command.is_work(),
    ensures
        state.settled(scheduled.push(command), Ok(())).1 == Advance::Continue,
        state.settled(scheduled.push(command), Ok(())).0.work == state.work + scheduled.push(
            command,
        ),
        state.settled(scheduled.push(command), Ok(())).0.in_flight == state.in_flight
            + work_count(scheduled),
        state.settled(scheduled.push(command), Ok(())).0.enqueued == state.enqueued + work_count(
            scheduled,
        ) + 1,
        state.settled(scheduled.push(command), Ok(())).0.processed == state.processed + 1,
{
    lemma_work_count_push(scheduled, command);
    lemma_settle_keeps_accounting(state, scheduled.push(command), Ok(()));
}

/// A worker that takes a command and is handed the outcome of its I/O
/// sends exactly one result, which is about the URL of the command, and
/// waits for a command again; whatever the outcome of the I/O is.
pub proof fn law_one_result_for_one_command(state: CrawlState, worker: int, io: Io)
    requires
        state.has_worker(worker),
        state.workers[worker] is Idle,
        state.work.len() > 0,
        state.work.first().is_work(),
        !state.results_closed,
    ensures
        state.served(worker, io).work == state.work.drop_first(),
        state.served(worker, io).workers == state.workers,
        state.served(worker, io).results.drop_last() == state.results,
        state.served(worker, io).results.len() == state.results.len() + 1,
        visit_of(state.served(worker, io).results.last()) is Some,
        Some(visit_of(state.served(worker, io).results.last())->0.url) == state.work.first().url(),
        state.served(worker, io).results_closed == state.results_closed,
        state.served(worker, io).work_closed == state.work_closed,
{
    let end = state.served(worker, io);
    assert(end.workers =~= state.workers);
    assert(end.results.drop_last() =~= state.results);
}

/// A worker that finds `n` commands at the head of the work queue, none of
/// them `Stop`, and takes them one after the other sends exactly `n`
/// results, in the order of the commands, each about the URL of its
/// command; it takes nothing from behind them, and it waits for a command
/// at the end.
pub proof fn law_one_result_for_each_command(state: CrawlState, worker: int, ios: Seq<Io>)
    requires
        state.has_worker(worker),
        state.workers[worker] is Idle,
        !state.results_closed,
        ios.len() <= state.work.len(),
        forall|k: int| 0 <= k < ios.len() ==> (#[trigger] state.work[k]).is_work(),
    ensures
        state.served_all(worker, ios).work == state.work.skip(ios.len() as int),
        state.served_all(worker, ios).workers == state.workers,
        state.served_all(worker, ios).results.len() == state.results.len() + ios.len(),
        state.served_all(worker, ios).results.take(state.results.len() as int) == state.results,
        forall|k: int|
            0 <= k < ios.len() ==> visit_of(
                #[trigger] state.served_all(worker, ios).results[state.results.len() + k],
            ) is Some && Some(
                visit_of(state.served_all(worker, ios).results[state.results.len() + k])->0.url,
            ) == state.work[k].url(),
        state.served_all(worker, ios).results_closed == state.results_closed,
        state.served_all(worker, ios).work_closed == state.work_closed,
    decreases ios.len(),
{
    let end = state.served_all(worker, ios);
    if ios.len() == 0 {
        assert(state.work.skip(0) =~= state.work);
        assert(state.results.take(state.results.len() as int) =~= state.results);
    } else {
        let before = ios.drop_last();
        let mid = state.served_all(worker, before);
        law_one_result_for_each_command(state, worker, before);
        assert(mid.work.first() == state.work[before.len() as int]);
        law_one_result_for_one_command(mid, worker, ios.last());
        assert(end.work =~= state.work.skip(ios.len() as int));
        assert(end.results.take(state.results.len() as int) =~= state.results) by {
            assert(end.results.drop_last() == mid.results);
            assert(mid.results.take(state.results.len() as int) == state.results);
        }
        assert forall|k: int| 0 <= k < ios.len() implies visit_of(
            #[trigger] end.results[state.results.len() + k],
        ) is Some && Some(visit_of(end.results[state.results.len() + k])->0.url)
            == state.work[k].url() by {
            if k < before.len() {
                assert(end.results[state.results.len() + k] == end.results.drop_last()[state.results.len()
                    + k]);
                assert(visit_of(mid.results[state.results.len() + k]) is Some);
            } else {
                assert(end.results[state.results.len() + k] == end.results.last());
            }
        }
    }
}

/// A worker that takes `Stop` stops and sends nothing on; and a worker that
/// has stopped takes nothing more, whatever waits and whatever it is
/// handed.
pub proof fn law_stop_ends_the_worker(state: CrawlState, worker: int, io: Io)
    requires
        state.has_worker(worker),
    ensures
        state.workers[worker] is Idle && state.work.len() > 0 && state.work.first() is Stop ==> {
            &&& state.polled(worker).workers[worker] is Stopped
            &&& state.polled(worker).results == state.results
            &&& state.polled(worker).work == state.work.drop_first()
            &&& state.report(state.poll_move(worker)) == Step::Stopped
        },
        state.workers[worker] is Stopped ==> state.served(worker, io) == state,
        state.workers[worker] is Stopped ==> state.completed(
            worker,
            page_fetched(state.workers[worker], io.page),
        ) == state,
{
    if state.workers[worker] is Stopped {
        assert(state.workers.update(worker, state.workers[worker]) =~= state.workers);
    }
}

/// However the orchestrator's loop ends, by completion or by a fault, the
/// crawl is shut down then; and while it goes on or waits, nothing has been
/// closed.
pub proof fn law_every_end_shuts_down(
    state: CrawlState,
    scheduled: Seq<Command>,
    verdict: Result<(), Fault>,
)
    requires
        state.inv(),
    ensures
        state.settled(scheduled, verdict).1 is Done ==> state.settled(scheduled, verdict).0.work_closed
            && state.settled(scheduled, verdict).0.results_closed,
        !(state.settled(scheduled, verdict).1 is Done) ==> state.settled(
            scheduled,
            verdict,
        ).0.work_closed == state.work_closed,
        verdict is Err && state.results.len() > 0 ==> state.settled(scheduled, verdict).1
            == Advance::Done(verdict),
{
}

} // verus!
