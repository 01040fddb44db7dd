//! The commands that workers consume and the outcomes that they produce.

use vstd::prelude::*;
use crate::error::{CrablerError, Fault};

verus! {

/// A command for a worker.
#[derive(Debug)]
pub enum WorkItem {
    /// Fetch the page at `url`.
    Navigate { url: String },
    /// Fetch what is at `url` and save it at `destination`.
    Download { url: String, destination: String },
    /// Stop working.
    Stop,
}

/// A command as a mathematical value.
pub enum Command {
    Navigate { url: Seq<char> },
    Download { url: Seq<char>, destination: Seq<char> },
    Stop,
}

impl View for WorkItem {
    type V = Command;

    open spec fn view(&self) -> Command {
        match *self {
            WorkItem::Navigate { url } => Command::Navigate { url: url@ },
            WorkItem::Download { url, destination } => Command::Download {
                url: url@,
                destination: destination@,
            },
            WorkItem::Stop => Command::Stop,
        }
    }
}

impl Command {
    /// Whether the command is outstanding work: every command but `Stop` is.
    pub open spec fn is_work(self) -> bool {
        !(self is Stop)
    }

    /// The URL that the command is about, if it is about one.
    pub open spec fn url(self) -> Option<Seq<char>> {
        match self {
            Command::Navigate { url } => Some(url),
            Command::Download { url, .. } => Some(url),
            Command::Stop => None,
        }
    }
}

/// How many commands of `commands` are outstanding work.
pub open spec fn work_count(commands: Seq<Command>) -> nat
    decreases commands.len(),
{
    if commands.len() == 0 {
        0
    } else {
        work_count(commands.drop_last()) + if commands.last().is_work() {
            1nat
        } else {
            0nat
        }
    }
}

/// The commands of `items`, in their order.
pub open spec fn commands_of(items: Seq<WorkItem>) -> Seq<Command> {
    items.map_values(|item: WorkItem| item@)
}

/// What a worker has made of one command.
#[derive(Debug)]
pub enum WorkResult {
    /// The page at `url` was fetched.
    Page { url: String, body: String, status: u16 },
    /// What is at `url` was saved at `destination`.
    Downloaded { url: String, destination: String },
    /// `url` had been claimed before and was not fetched again.
    Skipped { url: String },
    /// Fetching `url`, or saving it, failed.
    Failed { url: String, error: CrablerError },
    /// A worker's own mark that it has stopped; no worker sends it on.
    Stop,
}

/// A worker's result as a mathematical value.
pub enum Outcome {
    Page { url: Seq<char>, body: Seq<char>, status: u16 },
    Downloaded { url: Seq<char>, destination: Seq<char> },
    Skipped { url: Seq<char> },
    Failed { url: Seq<char>, error: Fault },
    Stop,
}

impl View for WorkResult {
    type V = Outcome;

    open spec fn view(&self) -> Outcome {
        match *self {
            WorkResult::Page { url, body, status } => Outcome::Page {
                url: url@,
                body: body@,
                status,
            },
            WorkResult::Downloaded { url, destination } => Outcome::Downloaded {
                url: url@,
                destination: destination@,
            },
            WorkResult::Skipped { url } => Outcome::Skipped { url: url@ },
            WorkResult::Failed { url, error } => Outcome::Failed { url: url@, error: error@ },
            WorkResult::Stop => Outcome::Stop,
        }
    }
}

/// The outcomes of `results`, in their order.
pub open spec fn outcomes_of(results: Seq<WorkResult>) -> Seq<Outcome> {
    results.map_values(|result: WorkResult| result@)
}

impl WorkItem {
    /// Whether the command is outstanding work: every command but `Stop` is.
    pub fn is_work(&self) -> (work: bool)
        ensures
            work == self@.is_work(),
    {
        match self {
            WorkItem::Stop => false,
            _ => true,
        }
    }
}

/// Adding one command to a sequence adds one to its work count if the command
/// is work, and nothing otherwise.
pub proof fn lemma_work_count_push(commands: Seq<Command>, command: Command)
    ensures
        work_count(commands.push(command)) == work_count(commands) + if command.is_work() {
            1nat
        } else {
            0nat
        },
{
    assert(commands.push(command).drop_last() =~= commands);
}

/// Taking the first command off a sequence takes one off its work count if
/// that command is work, and nothing otherwise.
pub proof fn lemma_work_count_drop_first(commands: Seq<Command>)
    requires
        commands.len() > 0,
    ensures
        work_count(commands) == work_count(commands.drop_first()) + if commands.first().is_work() {
            1nat
        } else {
            0nat
        },
    decreases commands.len(),
{
    if commands.len() == 1 {
        assert(commands.drop_last() =~= Seq::<Command>::empty());
        assert(commands.drop_first() =~= Seq::<Command>::empty());
    } else {
        lemma_work_count_drop_first(commands.drop_last());
        assert(commands.drop_last().drop_first() =~= commands.drop_first().drop_last());
    }
}

/// A sequence holds no more work than it has commands.
pub proof fn lemma_work_count_bound(commands: Seq<Command>)
    ensures
        work_count(commands) <= commands.len(),
    decreases commands.len(),
{
    if commands.len() > 0 {
        lemma_work_count_bound(commands.drop_last());
    }
}

} // verus!
