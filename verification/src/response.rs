//! What a scraper is told of one visit, and what it asks for in return.

use vstd::prelude::*;
use crate::error::CrablerError;
use crate::work::{commands_of, Command, Outcome, WorkItem, WorkResult};

verus! {

/// The status reported for a download that succeeded.
pub const STATUS_DOWNLOADED: u16 = 200;

/// The status reported for a URL that was skipped as already claimed.
pub const STATUS_SKIPPED: u16 = 304;

/// The status reported for a URL whose fetch or save failed.
pub const STATUS_FAILED: u16 = 500;

/// The outcome of one visit, as the scraper's handlers see it.
///
/// Through `navigate` and `download_file` a handler schedules more work. The
/// crawl enqueues what was scheduled, and counts it as in flight, before it
/// counts the visit that the handler was called for as done.
pub struct Response {
    /// The URL that was visited.
    pub url: String,
    /// The HTTP status of the visit, or the status that stands for its outcome.
    pub status: u16,
    /// Where the download was saved, if the visit was a download.
    pub download_destination: Option<String>,
    scheduled: Vec<WorkItem>,
}

/// A response as a mathematical value.
pub struct Visit {
    /// The URL that was visited.
    pub url: Seq<char>,
    /// The status of the visit.
    pub status: u16,
    /// Where the download was saved, if the visit was a download.
    pub destination: Option<Seq<char>>,
    /// The work that handlers have scheduled through the response and that
    /// the crawl has not taken yet, in the order of the calls.
    pub scheduled: Seq<Command>,
}

/// The characters of a path that may be absent.
pub open spec fn path_of(path: Option<String>) -> Option<Seq<char>> {
    match path {
        Some(path) => Some(path@),
        None => None,
    }
}

impl View for Response {
    type V = Visit;

    closed spec fn view(&self) -> Visit {
        Visit {
            url: self.url@,
            status: self.status,
            destination: path_of(self.download_destination),
            scheduled: commands_of(self.scheduled@),
        }
    }
}

/// What the handlers are told for `outcome`, before they have scheduled
/// anything: its URL; a page's own status and a fixed one for each other
/// outcome; and the destination of a download. Of `Stop`, which no worker
/// sends on, they are told nothing.
pub open spec fn visit_of(outcome: Outcome) -> Option<Visit> {
    match outcome {
        Outcome::Page { url, status, .. } => Some(
            Visit { url, status, destination: None, scheduled: Seq::empty() },
        ),
        Outcome::Downloaded { url, destination } => Some(
            Visit {
                url,
                status: STATUS_DOWNLOADED,
                destination: Some(destination),
                scheduled: Seq::empty(),
            },
        ),
        Outcome::Skipped { url } => Some(
            Visit { url, status: STATUS_SKIPPED, destination: None, scheduled: Seq::empty() },
        ),
        Outcome::Failed { url, .. } => Some(
            Visit { url, status: STATUS_FAILED, destination: None, scheduled: Seq::empty() },
        ),
        Outcome::Stop => None,
    }
}

impl Response {
    /// A response with nothing scheduled.
    pub fn new(status: u16, url: String, download_destination: Option<String>) -> (response: Self)
        ensures
            response@ == (Visit {
                url: url@,
                status,
                destination: path_of(download_destination),
                scheduled: Seq::<Command>::empty(),
            }),
    {
        let response = Response { status, url, download_destination, scheduled: Vec::new() };
        assert(commands_of(response.scheduled@) =~= Seq::<Command>::empty());
        response
    }

    /// The response that tells a worker's result to the handlers, or
    /// `None` for `Stop`, of which the handlers are told nothing.
    pub fn from_result(result: &WorkResult) -> (response: Option<Self>)
        ensures
            response is Some <==> visit_of(result@) is Some,
            response is Some ==> response->0@ == visit_of(result@)->0,
    {
        match result {
            WorkResult::Page { url, status, .. } => Some(Response::new(*status, url.clone(), None)),
            WorkResult::Downloaded { url, destination } => Some(
                Response::new(STATUS_DOWNLOADED, url.clone(), Some(destination.clone())),
            ),
            WorkResult::Skipped { url } => Some(Response::new(STATUS_SKIPPED, url.clone(), None)),
            WorkResult::Failed { url, .. } => Some(
                Response::new(STATUS_FAILED, url.clone(), None),
            ),
            WorkResult::Stop => None,
        }
    }

    /// Schedules a visit of `url`, to be made by one of the workers.
    pub fn navigate(&mut self, url: String) -> (scheduled: Result<(), CrablerError>)
        ensures
            scheduled is Ok,
            final(self)@ == (Visit {
                scheduled: old(self)@.scheduled.push(Command::Navigate { url: url@ }),
                ..old(self)@
            }),
    {
        let item = WorkItem::Navigate { url };
        self.scheduled.push(item);
        assert(commands_of(self.scheduled@) =~= commands_of(old(self).scheduled@).push(item@));
        Ok(())
    }

    /// Schedules a download of what is at `url` into the file `destination`.
    pub fn download_file(&mut self, url: String, destination: String) -> (scheduled: Result<
        (),
        CrablerError,
    >)
        ensures
            scheduled is Ok,
            final(self)@ == (Visit {
                scheduled: old(self)@.scheduled.push(
                    Command::Download { url: url@, destination: destination@ },
                ),
                ..old(self)@
            }),
    {
        let item = WorkItem::Download { url, destination };
        self.scheduled.push(item);
        assert(commands_of(self.scheduled@) =~= commands_of(old(self).scheduled@).push(item@));
        Ok(())
    }

    /// Hands out what was scheduled, in the order of the calls, and leaves
    /// nothing scheduled.
    pub fn take_scheduled(&mut self) -> (items: Vec<WorkItem>)
        ensures
            commands_of(items@) == old(self)@.scheduled,
            final(self)@ == (Visit { scheduled: Seq::<Command>::empty(), ..old(self)@ }),
    {
        let mut items: Vec<WorkItem> = Vec::new();
        std::mem::swap(&mut self.scheduled, &mut items);
        assert(commands_of(self.scheduled@) =~= Seq::<Command>::empty());
        items
    }
}

} // verus!
