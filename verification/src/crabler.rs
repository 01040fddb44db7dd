//! A crawl together with the scraper whose handlers it calls.

use vstd::prelude::*;
use crate::crawl::{Crawl, Progress};
use crate::error::CrablerError;
use crate::model::{ends_with_stops, Advance, CrawlState};
use crate::scraper::{ImmutableWebScraper, MutableWebScraper, Shared};
use crate::work::Command;
use crate::worker::done_of;

verus! {

/// A crawl for a scraper whose handlers may change it.
pub struct MutableCrabler<'a, T: MutableWebScraper> {
    scraper: &'a mut T,
    crawl: Crawl,
}

impl<'a, T: MutableWebScraper> View for MutableCrabler<'a, T> {
    type V = CrawlState;

    /// The state of the crawl.
    closed spec fn view(&self) -> CrawlState {
        self.crawl@
    }
}

impl<'a, T: MutableWebScraper> MutableCrabler<'a, T> {
    /// A crawl for `scraper` with nothing enqueued and no worker.
    pub fn new(scraper: &'a mut T) -> (crabler: Self)
        ensures
            crabler@ == CrawlState::initial(),
            crabler@.inv(),
    {
        MutableCrabler { scraper, crawl: Crawl::new() }
    }

    /// The crawl, for its workers to be given their turns.
    pub fn crawl(&mut self) -> (crawl: &mut Crawl)
        ensures
            crawl@ == old(self)@,
            final(self)@ == final(crawl)@,
    {
        &mut self.crawl
    }

    /// Schedules a visit of `url`, to be made by one of the workers.
    pub fn navigate(&mut self, url: &str) -> (scheduled: Result<(), CrablerError>)
        requires
            old(self)@.inv(),
        ensures
            final(self)@ == old(self)@.submitted(Command::Navigate { url: url@ }),
            done_of(scheduled) == old(self)@.submission(),
            final(self)@.inv(),
    {
        self.crawl.navigate(url)
    }

    /// Adds one worker to the pool.
    pub fn start_worker(&mut self)
        requires
            old(self)@.inv(),
        ensures
            final(self)@ == old(self)@.start_worker(),
            final(self)@.inv(),
    {
        self.crawl.start_worker()
    }

    /// Runs the orchestrator's loop with the handlers of the scraper, as
    /// `Crawl::run` does: step by step, each a step of `settle`, up to the
    /// first that does not say `Continue`. A crawl that ends is shut down,
    /// with one `Stop` for each worker at the end of the work queue.
    pub fn run(&mut self) -> (progress: Progress)
        requires
            old(self)@.inv(),
        ensures
            old(self)@.ran(final(self)@, progress@),
            final(self)@.inv(),
            final(self)@.follows(old(self)@),
            !(progress@ is Continue),
            progress@ is Waiting ==> final(self)@.results.len() == 0,
            progress@ is Waiting ==> !final(self)@.results_closed,
            progress@ is Done ==> final(self)@.work_closed && final(self)@.results_closed,
            progress@ is Done && !old(self)@.work_closed ==> ends_with_stops(
                final(self)@.work,
                final(self)@.workers.len(),
            ),
            progress@ == Advance::Done(Ok(())) ==> final(self)@.in_flight == 0,
            old(self)@.results.len() == 0 ==> final(self)@ == old(self)@.settled(
                Seq::empty(),
                Ok(()),
            ).0 && progress@ == old(self)@.settled(Seq::empty(), Ok(())).1,
    {
        self.crawl.run(self.scraper)
    }
}

/// A crawl for a scraper whose handlers leave it as it is.
pub struct ImmutableCrabler<'a, T: ImmutableWebScraper> {
    scraper: &'a T,
    crawl: Crawl,
}

impl<'a, T: ImmutableWebScraper> View for ImmutableCrabler<'a, T> {
    type V = CrawlState;

    /// The state of the crawl.
    closed spec fn view(&self) -> CrawlState {
        self.crawl@
    }
}

impl<'a, T: ImmutableWebScraper> ImmutableCrabler<'a, T> {
    /// A crawl for `scraper` with nothing enqueued and no worker.
    pub fn new(scraper: &'a T) -> (crabler: Self)
        ensures
            crabler@ == CrawlState::initial(),
            crabler@.inv(),
    {
        ImmutableCrabler { scraper, crawl: Crawl::new() }
    }

    /// The crawl, for its workers to be given their turns.
    pub fn crawl(&mut self) -> (crawl: &mut Crawl)
        ensures
            crawl@ == old(self)@,
            final(self)@ == final(crawl)@,
    {
        &mut self.crawl
    }

    /// Schedules a visit of `url`, to be made by one of the workers.
    pub fn navigate(&mut self, url: &str) -> (scheduled: Result<(), CrablerError>)
        requires
            old(self)@.inv(),
        ensures
            final(self)@ == old(self)@.submitted(Command::Navigate { url: url@ }),
            done_of(scheduled) == old(self)@.submission(),
            final(self)@.inv(),
    {
        self.crawl.navigate(url)
    }

    /// Adds one worker to the pool.
    pub fn start_worker(&mut self)
        requires
            old(self)@.inv(),
        ensures
            final(self)@ == old(self)@.start_worker(),
            final(self)@.inv(),
    {
        self.crawl.start_worker()
    }

    /// Runs the orchestrator's loop with the handlers of the scraper, as
    /// `Crawl::run` does: step by step, each a step of `settle`, up to the
    /// first that does not say `Continue`. A crawl that ends is shut down,
    /// with one `Stop` for each worker at the end of the work queue.
    pub fn run(&mut self) -> (progress: Progress)
        requires
            old(self)@.inv(),
        ensures
            old(self)@.ran(final(self)@, progress@),
            final(self)@.inv(),
            final(self)@.follows(old(self)@),
            !(progress@ is Continue),
            progress@ is Waiting ==> final(self)@.results.len() == 0,
            progress@ is Waiting ==> !final(self)@.results_closed,
            progress@ is Done ==> final(self)@.work_closed && final(self)@.results_closed,
            progress@ is Done && !old(self)@.work_closed ==> ends_with_stops(
                final(self)@.work,
                final(self)@.workers.len(),
            ),
            progress@ == Advance::Done(Ok(())) ==> final(self)@.in_flight == 0,
            old(self)@.results.len() == 0 ==> final(self)@ == old(self)@.settled(
                Seq::empty(),
                Ok(()),
            ).0 && progress@ == old(self)@.settled(Seq::empty(), Ok(())).1,
    {
        let mut shared = Shared { scraper: self.scraper };
        self.crawl.run(&mut shared)
    }
}

} // verus!
