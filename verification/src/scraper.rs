//! What a scraper offers to the crawl: its handlers and the selectors that
//! they are registered for.

use vstd::prelude::*;
use crabquery::Element;
use crate::error::CrablerError;
use crate::response::Response;

verus! {

/// A scraper whose handlers may change it.
///
/// Nothing is promised of what the handlers return: the crawl is verified
/// for every outcome of theirs.
pub trait MutableWebScraper {
    /// Calls the handler that is registered for `selector` with an element
    /// of a fetched page that matches it.
    fn dispatch_on_html(
        &mut self,
        selector: &str,
        response: &mut Response,
        element: Element,
    ) -> Result<(), CrablerError>;

    /// Calls the handler for a completed visit.
    fn dispatch_on_response(&mut self, response: &mut Response) -> Result<(), CrablerError>;

    /// The selectors that handlers are registered for, in the order of
    /// their registration.
    fn all_html_selectors(&self) -> Vec<&str>;
}

/// A scraper whose handlers leave it as it is.
///
/// Nothing is promised of what the handlers return: the crawl is verified
/// for every outcome of theirs.
pub trait ImmutableWebScraper {
    /// Calls the handler that is registered for `selector` with an element
    /// of a fetched page that matches it.
    fn dispatch_on_html(
        &self,
        selector: &str,
        response: &mut Response,
        element: Element,
    ) -> Result<(), CrablerError>;

    /// Calls the handler for a completed visit.
    fn dispatch_on_response(&self, response: &mut Response) -> Result<(), CrablerError>;

    /// The selectors that handlers are registered for, in the order of
    /// their registration.
    fn all_html_selectors(&self) -> Vec<&str>;
}

/// A scraper that does not change, taken where one that may change is
/// asked for. Each of its handlers is the handler of the scraper behind it:
/// it hands on what it is given, returns what comes back, and leaves the
/// response as that handler has left it.
pub struct Shared<'a, T: ImmutableWebScraper> {
    pub scraper: &'a T,
}

impl<'a, T: ImmutableWebScraper> MutableWebScraper for Shared<'a, T> {
    /// Calls the scraper's handler for `selector` with `element` and with
    /// the response as it is, and returns its verdict; the response is
    /// afterwards as the handler has left it.
    fn dispatch_on_html(
        &mut self,
        selector: &str,
        response: &mut Response,
        element: Element,
    ) -> (verdict: Result<(), CrablerError>)
        ensures
            exists|handed: &mut Response|
                *handed == *old(response) && *final(handed) == *final(response)
                    && #[trigger] call_ensures(
                    T::dispatch_on_html,
                    (old(self).scraper, selector, handed, element),
                    verdict,
                ),
            final(self).scraper == old(self).scraper,
    {
        self.scraper.dispatch_on_html(selector, response, element)
    }

    /// Calls the scraper's handler for completed visits with the response
    /// as it is, and returns its verdict; the response is afterwards as the
    /// handler has left it.
    fn dispatch_on_response(&mut self, response: &mut Response) -> (verdict: Result<
        (),
        CrablerError,
    >)
        ensures
            exists|handed: &mut Response|
                *handed == *old(response) && *final(handed) == *final(response)
                    && #[trigger] call_ensures(
                    T::dispatch_on_response,
                    (old(self).scraper, handed),
                    verdict,
                ),
            final(self).scraper == old(self).scraper,
    {
        self.scraper.dispatch_on_response(response)
    }

    /// The selectors that the scraper names.
    fn all_html_selectors(&self) -> (selectors: Vec<&str>)
        ensures
            call_ensures(T::all_html_selectors, (self.scraper,), selectors),
    {
        self.scraper.all_html_selectors()
    }
}

} // verus!
