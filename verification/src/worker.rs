//! One worker of the pool: what it does with a command, and what it makes of
//! the outcome of the I/O that it asked for.

use vstd::prelude::*;
use crate::error::{CrablerError, Fault};
use crate::visited::VisitedSet;
use crate::work::{Command, Outcome, WorkItem, WorkResult};

verus! {

/// What a worker is doing.
#[derive(Debug)]
pub enum Worker {
    /// It waits for a command.
    Idle,
    /// It waits for the page at `url` to be fetched.
    FetchingPage { url: String },
    /// It waits for the bytes at `url` to be fetched, to save them at
    /// `destination`.
    FetchingFile { url: String, destination: String },
    /// It waits for the bytes of `url` to be written to `destination`.
    WritingFile { url: String, destination: String },
    /// It has received `Stop` and takes no more commands.
    Stopped,
}

/// What a worker is doing, as a mathematical value.
pub enum Activity {
    Idle,
    FetchingPage { url: Seq<char> },
    FetchingFile { url: Seq<char>, destination: Seq<char> },
    WritingFile { url: Seq<char>, destination: Seq<char> },
    Stopped,
}

impl View for Worker {
    type V = Activity;

    open spec fn view(&self) -> Activity {
        match *self {
            Worker::Idle => Activity::Idle,
            Worker::FetchingPage { url } => Activity::FetchingPage { url: url@ },
            Worker::FetchingFile { url, destination } => Activity::FetchingFile {
                url: url@,
                destination: destination@,
            },
            Worker::WritingFile { url, destination } => Activity::WritingFile {
                url: url@,
                destination: destination@,
            },
            Worker::Stopped => Activity::Stopped,
        }
    }
}

impl Activity {
    /// Whether the worker holds a command that it has not answered yet.
    pub open spec fn is_busy(self) -> bool {
        self is FetchingPage || self is FetchingFile || self is WritingFile
    }
}

/// The I/O that a worker asks its caller to perform.
#[derive(Debug)]
pub enum WorkerTask {
    /// Fetch the page at `url`; hand back its status and its text.
    FetchPage { url: String },
    /// Fetch what is at `url`; hand back its bytes.
    FetchFile { url: String },
    /// Create the file `destination` and write `bytes` to it.
    WriteFile { destination: String, bytes: Vec<u8> },
}

/// A task as a mathematical value.
pub enum Task {
    FetchPage { url: Seq<char> },
    FetchFile { url: Seq<char> },
    WriteFile { destination: Seq<char>, bytes: Seq<u8> },
}

impl View for WorkerTask {
    type V = Task;

    open spec fn view(&self) -> Task {
        match *self {
            WorkerTask::FetchPage { url } => Task::FetchPage { url: url@ },
            WorkerTask::FetchFile { url } => Task::FetchFile { url: url@ },
            WorkerTask::WriteFile { destination, bytes } => Task::WriteFile {
                destination: destination@,
                bytes: bytes@,
            },
        }
    }
}

/// Where a worker's run has led: what the worker does next, the result that
/// it has to send, if it has one, and the task that it asks for, if it asks
/// for one.
pub struct Turn {
    pub worker: Worker,
    pub result: Option<WorkResult>,
    pub task: Option<WorkerTask>,
}

/// A turn as a mathematical value.
pub struct Move {
    pub activity: Activity,
    pub outcome: Option<Outcome>,
    pub task: Option<Task>,
}

impl View for Turn {
    type V = Move;

    open spec fn view(&self) -> Move {
        Move {
            activity: self.worker@,
            outcome: match self.result {
                Some(result) => Some(result@),
                None => None,
            },
            task: match self.task {
                Some(task) => Some(task@),
                None => None,
            },
        }
    }
}

/// The fetch of a page as a mathematical value: its status and text, or the
/// fault.
pub open spec fn page_of(fetched: Result<(u16, String), CrablerError>) -> Result<
    (u16, Seq<char>),
    Fault,
> {
    match fetched {
        Ok((status, text)) => Ok((status, text@)),
        Err(error) => Err(error@),
    }
}

/// The fetch of a file as a mathematical value: its bytes, or the fault.
pub open spec fn file_of(fetched: Result<Vec<u8>, CrablerError>) -> Result<Seq<u8>, Fault> {
    match fetched {
        Ok(bytes) => Ok(bytes@),
        Err(error) => Err(error@),
    }
}

/// The end of a write, or of a worker's run, as a mathematical value.
pub open spec fn done_of(done: Result<(), CrablerError>) -> Result<(), Fault> {
    match done {
        Ok(()) => Ok(()),
        Err(error) => Err(error@),
    }
}

/// The claimed URLs after a worker has received `command`: its URL is
/// claimed, whether it had been before or not.
pub open spec fn claimed(command: Command, visited: Set<Seq<char>>) -> Set<Seq<char>> {
    match command {
        Command::Navigate { url } => visited.insert(url),
        Command::Download { url, .. } => visited.insert(url),
        Command::Stop => visited,
    }
}

/// What an idle worker does with `command` when `visited` are the URLs
/// claimed so far: it skips a URL that has been claimed, asks for the fetch
/// of one that has not, and stops on `Stop`, with nothing to send.
pub open spec fn received(command: Command, visited: Set<Seq<char>>) -> Move {
    match command {
        Command::Navigate { url } => if visited.contains(url) {
            Move {
                activity: Activity::Idle,
                outcome: Some(Outcome::Skipped { url }),
                task: None,
            }
        } else {
            Move {
                activity: Activity::FetchingPage { url },
                outcome: None,
                task: Some(Task::FetchPage { url }),
            }
        },
        Command::Download { url, destination } => if visited.contains(url) {
            Move {
                activity: Activity::Idle,
                outcome: Some(Outcome::Skipped { url }),
                task: None,
            }
        } else {
            Move {
                activity: Activity::FetchingFile { url, destination },
                outcome: None,
                task: Some(Task::FetchFile { url }),
            }
        },
        Command::Stop => Move { activity: Activity::Stopped, outcome: None, task: None },
    }
}

/// A move in which the worker stays as it is, with nothing to send and
/// nothing to ask for.
pub open spec fn stay(activity: Activity) -> Move {
    Move { activity, outcome: None, task: None }
}

/// What a worker makes of a fetched page: a worker that waits for one goes
/// idle and sends the page, or the failure of its URL; any other stays.
pub open spec fn page_fetched(activity: Activity, fetched: Result<(u16, Seq<char>), Fault>) -> Move {
    match activity {
        Activity::FetchingPage { url } => Move {
            activity: Activity::Idle,
            outcome: Some(
                match fetched {
                    Ok((status, body)) => Outcome::Page { url, body, status },
                    Err(error) => Outcome::Failed { url, error },
                },
            ),
            task: None,
        },
        _ => stay(activity),
    }
}

/// What a worker makes of fetched bytes: a worker that waits for them asks
/// for exactly these bytes to be written to its destination, or goes idle
/// and sends the failure of its URL; any other stays.
pub open spec fn file_fetched(activity: Activity, fetched: Result<Seq<u8>, Fault>) -> Move {
    match activity {
        Activity::FetchingFile { url, destination } => match fetched {
            Ok(bytes) => Move {
                activity: Activity::WritingFile { url, destination },
                outcome: None,
                task: Some(Task::WriteFile { destination, bytes }),
            },
            Err(error) => Move {
                activity: Activity::Idle,
                outcome: Some(Outcome::Failed { url, error }),
                task: None,
            },
        },
        _ => stay(activity),
    }
}

/// What a worker makes of the end of a write: a worker that waits for it
/// goes idle and sends the download, or the failure of its URL; any other
/// stays.
pub open spec fn file_written(activity: Activity, written: Result<(), Fault>) -> Move {
    match activity {
        Activity::WritingFile { url, destination } => Move {
            activity: Activity::Idle,
            outcome: Some(
                match written {
                    Ok(()) => Outcome::Downloaded { url, destination },
                    Err(error) => Outcome::Failed { url, error },
                },
            ),
            task: None,
        },
        _ => stay(activity),
    }
}

/// What a supervisor does when its worker's run has ended.
#[derive(Clone, Copy, Debug, PartialEq, Eq, Structural)]
pub enum Supervision {
    /// The run ended on `Stop`: the slot is given up for good.
    Retire,
    /// The run ended on a fault: a fresh run is started on the same queues
    /// and the same set of claimed URLs.
    Restart,
}

/// What a supervisor does with the end of its worker's run.
pub fn supervise(exit: &Result<(), CrablerError>) -> (supervision: Supervision)
    ensures
        supervision == if exit is Ok {
            Supervision::Retire
        } else {
            Supervision::Restart
        },
{
    match exit {
        Ok(()) => Supervision::Retire,
        Err(_) => Supervision::Restart,
    }
}

/// The result for a page that was fetched with `status` and `text`.
pub fn workresult_from_response(status: u16, text: String, url: String) -> (result: WorkResult)
    ensures
        result == (WorkResult::Page { url, body: text, status }),
{
    WorkResult::Page { status, url, body: text }
}

impl Worker {
    /// A worker that waits for its first command.
    pub fn new() -> (worker: Self)
        ensures
            worker == Worker::Idle,
    {
        Worker::Idle
    }

    /// Whether the worker waits for a command.
    pub fn is_idle(&self) -> (idle: bool)
        ensures
            idle == (self@ is Idle),
    {
        match self {
            Worker::Idle => true,
            _ => false,
        }
    }

    /// Whether the worker has stopped.
    pub fn is_stopped(&self) -> (stopped: bool)
        ensures
            stopped == (self@ is Stopped),
    {
        match self {
            Worker::Stopped => true,
            _ => false,
        }
    }

    /// What an idle worker does with `item`, claiming its URL in `visited`.
    pub fn process_message(item: WorkItem, visited: &mut VisitedSet) -> (turn: Turn)
        ensures
            turn@ == received(item@, old(visited)@),
            final(visited)@ == claimed(item@, old(visited)@),
    {
        match item {
            WorkItem::Navigate { url } => Worker::navigate(url, visited),
            WorkItem::Download { url, destination } => Worker::download(url, destination, visited),
            WorkItem::Stop => Turn { worker: Worker::Stopped, result: None, task: None },
        }
    }

    /// What an idle worker does when told to visit `url`.
    pub fn navigate(url: String, visited: &mut VisitedSet) -> (turn: Turn)
        ensures
            turn@ == received(Command::Navigate { url: url@ }, old(visited)@),
            final(visited)@ == old(visited)@.insert(url@),
    {
        if visited.try_claim(url.as_str()) {
            let task = WorkerTask::FetchPage { url: url.clone() };
            Turn { worker: Worker::FetchingPage { url }, result: None, task: Some(task) }
        } else {
            Turn { worker: Worker::Idle, result: Some(WorkResult::Skipped { url }), task: None }
        }
    }

    /// What an idle worker does when told to save `url` at `destination`.
    pub fn download(url: String, destination: String, visited: &mut VisitedSet) -> (turn: Turn)
        ensures
            turn@ == received(
                Command::Download { url: url@, destination: destination@ },
                old(visited)@,
            ),
            final(visited)@ == old(visited)@.insert(url@),
    {
        if visited.try_claim(url.as_str()) {
            let task = WorkerTask::FetchFile { url: url.clone() };
            Turn {
                worker: Worker::FetchingFile { url, destination },
                result: None,
                task: Some(task),
            }
        } else {
            Turn { worker: Worker::Idle, result: Some(WorkResult::Skipped { url }), task: None }
        }
    }

    /// What the worker makes of the page that was fetched for it. A failed
    /// fetch becomes a result like any other.
    pub fn page_fetched(self, fetched: Result<(u16, String), CrablerError>) -> (turn: Turn)
        ensures
            turn@ == page_fetched(self@, page_of(fetched)),
    {
        match self {
            Worker::FetchingPage { url } => {
                let result = match fetched {
                    Ok((status, text)) => workresult_from_response(status, text, url),
                    Err(error) => WorkResult::Failed { url, error },
                };
                Turn { worker: Worker::Idle, result: Some(result), task: None }
            },
            other => Turn { worker: other, result: None, task: None },
        }
    }

    /// What the worker makes of the bytes that were fetched for it.
    pub fn file_fetched(self, fetched: Result<Vec<u8>, CrablerError>) -> (turn: Turn)
        ensures
            turn@ == file_fetched(self@, file_of(fetched)),
    {
        match self {
            Worker::FetchingFile { url, destination } => match fetched {
                Ok(bytes) => {
                    let task = WorkerTask::WriteFile { destination: destination.clone(), bytes };
                    Turn {
                        worker: Worker::WritingFile { url, destination },
                        result: None,
                        task: Some(task),
                    }
                },
                Err(error) => Turn {
                    worker: Worker::Idle,
                    result: Some(WorkResult::Failed { url, error }),
                    task: None,
                },
            },
            other => Turn { worker: other, result: None, task: None },
        }
    }

    /// What the worker makes of the end of the write that was made for it.
    pub fn file_written(self, written: Result<(), CrablerError>) -> (turn: Turn)
        ensures
            turn@ == file_written(self@, done_of(written)),
    {
        match self {
            Worker::WritingFile { url, destination } => {
                let result = match written {
                    Ok(()) => WorkResult::Downloaded { url, destination },
                    Err(error) => WorkResult::Failed { url, error },
                };
                Turn { worker: Worker::Idle, result: Some(result), task: None }
            },
            other => Turn { worker: other, result: None, task: None },
        }
    }
}

} // verus!
