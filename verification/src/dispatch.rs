//! The calls of a scraper's handlers that one result gives rise to: which
//! calls, in which order, and what comes back from making them.

use vstd::prelude::*;
use crabquery::Element;
use crate::error::{CrablerError, Fault};
use crate::markup::{match_count, selector_supported, Page};
use crate::response::{visit_of, Response, Visit};
use crate::scraper::MutableWebScraper;
use crate::work::{commands_of, Command, Outcome, WorkItem, WorkResult};

verus! {

/// One call of a handler.
pub enum Call {
    /// The handler registered for `selector` is called with `element`,
    /// which matches it.
    Element { selector: String, response: Response, element: Element },
    /// The handler for completed visits is called.
    Visit { response: Response },
}

/// A call as a mathematical value: which handler is called, and what it is
/// told of the visit. The element of a call is not part of it.
pub enum Invocation {
    Element { selector: Seq<char>, visit: Visit },
    Visit { visit: Visit },
}

impl View for Call {
    type V = Invocation;

    open spec fn view(&self) -> Invocation {
        match *self {
            Call::Element { selector, response, element } => Invocation::Element {
                selector: selector@,
                visit: response@,
            },
            Call::Visit { response } => Invocation::Visit { visit: response@ },
        }
    }
}

/// The invocations of `calls`, in their order.
pub open spec fn invocations_of(calls: Seq<Call>) -> Seq<Invocation> {
    calls.map_values(|call: Call| call@)
}

/// The characters of each of `strings`, in their order.
pub open spec fn texts_of(strings: Seq<String>) -> Seq<Seq<char>> {
    strings.map_values(|string: String| string@)
}

/// What the handler of an element is told of its page: the page's URL and
/// status, and no destination.
pub open spec fn page_visit(url: Seq<char>, status: u16) -> Visit {
    Visit { url, status, destination: None, scheduled: Seq::empty() }
}

/// `count` calls of the handler registered for `selector`.
pub open spec fn element_calls(visit: Visit, selector: Seq<char>, count: nat) -> Seq<Invocation> {
    Seq::new(count, |i: int| Invocation::Element { selector, visit })
}

/// The calls for the elements of the page with the text `body`: selector
/// by selector in the order of registration, and for each selector one call
/// for each element that matches it.
pub open spec fn page_calls(visit: Visit, body: Seq<char>, selectors: Seq<Seq<char>>) -> Seq<
    Invocation,
>
    decreases selectors.len(),
{
    if selectors.len() == 0 {
        Seq::empty()
    } else {
        page_calls(visit, body, selectors.drop_last()) + element_calls(
            visit,
            selectors.last(),
            match_count(body, selectors.last()),
        )
    }
}

/// The calls that `outcome` gives rise to when `selectors` are registered:
/// for a page the calls for its elements, and then, for every outcome but
/// `Stop`, one call of the handler for completed visits. For `Stop` no call
/// is made.
pub open spec fn planned(outcome: Outcome, selectors: Seq<Seq<char>>) -> Seq<Invocation> {
    let elements = match outcome {
        Outcome::Page { url, body, status } => page_calls(page_visit(url, status), body, selectors),
        _ => Seq::empty(),
    };
    match visit_of(outcome) {
        Some(visit) => elements.push(Invocation::Visit { visit }),
        None => elements,
    }
}

/// The calls to make for one result, with the page that their elements
/// belong to. An element is whole only as long as its page is kept.
pub struct Plan {
    /// The calls, in the order in which they are to be made.
    pub calls: Vec<Call>,
    /// The page of the elements, if the result is a page.
    pub page: Option<Page>,
}

/// Whether the matcher can take the first `count` of `selectors`.
pub open spec fn supported_up_to(selectors: Seq<Seq<char>>, count: int) -> bool {
    forall|i: int| 0 <= i < count ==> selector_supported(#[trigger] selectors[i])
}

/// One call of the handler registered for `selector` for each element of
/// `found`, in their order: the call for an element is made with that
/// element, and is told the URL and the status of the page.
pub fn calls_for_elements(selector: &String, url: &String, status: u16, found: Vec<Element>) -> (calls:
    Vec<Call>)
    ensures
        calls@.len() == found@.len(),
        forall|i: int|
            0 <= i < found@.len() ==> (#[trigger] calls@[i]) is Element
                && calls@[i]->element == found@[i] && calls@[i]@ == (Invocation::Element {
                selector: selector@,
                visit: page_visit(url@, status),
            }),
{
    let mut calls: Vec<Call> = Vec::new();
    for element in iter: found
        invariant
            iter.seq() == found@,
            calls@.len() == iter.index(),
            forall|i: int|
                0 <= i < iter.index() ==> (#[trigger] calls@[i]) is Element
                    && calls@[i]->element == found@[i] && calls@[i]@ == (Invocation::Element {
                    selector: selector@,
                    visit: page_visit(url@, status),
                }),
    {
        let response = Response::new(status, url.clone(), None);
        calls.push(Call::Element { selector: selector.clone(), response, element });
    }
    calls
}

/// The calls that `result` gives rise to when `selectors` are registered.
///
/// For a page with a registered selector that the matcher cannot take, no
/// call is made: the plan fails with `CallbackFailed` and the first such
/// selector. For every other result the selectors are not looked at.
pub fn plan_calls(result: &WorkResult, selectors: &Vec<String>) -> (plan: Result<
    Plan,
    CrablerError,
>)
    ensures
        result@ is Page && !supported_up_to(texts_of(selectors@), selectors@.len() as int)
            ==> plan is Err && exists|i: int|
            0 <= i < selectors@.len() && supported_up_to(texts_of(selectors@), i)
                && !selector_supported(#[trigger] selectors@[i]@) && plan->Err_0@
                == Fault::CallbackFailed(selectors@[i]@),
        !(result@ is Page) || supported_up_to(texts_of(selectors@), selectors@.len() as int)
            ==> plan is Ok && invocations_of(plan->Ok_0.calls@) == planned(
            result@,
            texts_of(selectors@),
        ),
        plan is Ok ==> (plan->Ok_0.page is Some <==> result@ is Page),
{
    let mut calls: Vec<Call> = Vec::new();
    let mut kept: Option<Page> = None;
    if let WorkResult::Page { url, body, status } = result {
        let page = Page::parse(body.as_str());
        let ghost visit = page_visit(url@, *status);
        let ghost texts = texts_of(selectors@);
        assert(page_calls(visit, body@, texts.take(0)) =~= Seq::<Invocation>::empty());
        let mut i: usize = 0;
        while i < selectors.len()
            invariant
                i <= selectors@.len(),
                result@ is Page,
                texts == texts_of(selectors@),
                visit == page_visit(url@, *status),
                page.text() == body@,
                supported_up_to(texts, i as int),
                invocations_of(calls@) == page_calls(visit, body@, texts.take(i as int)),
            decreases selectors@.len() - i,
        {
            let selector = &selectors[i];
            let found = match page.select(selector.as_str()) {
                Some(found) => found,
                None => {
                    assert(!selector_supported(texts[i as int]));
                    return Err(CrablerError::CallbackFailed(selector.clone()));
                },
            };
            let ghost before = calls@;
            let mut more = calls_for_elements(selector, url, *status, found);
            let ghost added = more@;
            calls.append(&mut more);
            proof {
                assert(invocations_of(added) =~= element_calls(
                    visit,
                    selector@,
                    match_count(body@, selector@),
                ));
                assert(invocations_of(calls@) =~= invocations_of(before) + invocations_of(added));
                assert(texts.take(i + 1).drop_last() =~= texts.take(i as int));
                assert(texts.take(i + 1).last() == selector@);
            }
            i = i + 1;
        }
        assert(texts.take(selectors@.len() as int) =~= texts);
        kept = Some(page);
    }
    match Response::from_result(result) {
        Some(response) => {
            let call = Call::Visit { response };
            let ghost sofar = calls@;
            calls.push(call);
            assert(invocations_of(calls@) =~= invocations_of(sofar).push(call@));
        },
        None => {
            assert(invocations_of(calls@) =~= Seq::<Invocation>::empty());
        },
    }
    Ok(Plan { calls, page: kept })
}

/// What came of calling handlers: of one call, or of the calls for one
/// result.
pub struct Dispatched {
    /// The work that the handlers have scheduled, in the order in which
    /// they scheduled it.
    pub scheduled: Vec<WorkItem>,
    /// `Ok` if every handler succeeded, and otherwise the fault of the
    /// first that failed, after which no other was called.
    pub verdict: Result<(), CrablerError>,
}

/// What `answers` have scheduled, one after the other.
pub open spec fn gathered(answers: Seq<Dispatched>) -> Seq<Command>
    decreases answers.len(),
{
    if answers.len() == 0 {
        Seq::empty()
    } else {
        gathered(answers.drop_last()) + commands_of(answers.last().scheduled@)
    }
}

/// The verdict on `answers`: the fault of the last, if it failed, and `Ok`
/// otherwise.
pub open spec fn verdict_on(answers: Seq<Dispatched>) -> Result<(), CrablerError> {
    if answers.len() > 0 && answers.last().verdict is Err {
        answers.last().verdict
    } else {
        Ok(())
    }
}

/// The selectors of `borrowed` as strings of their own.
pub fn owned_selectors(borrowed: Vec<&str>) -> (selectors: Vec<String>)
    ensures
        selectors@.len() == borrowed@.len(),
        forall|i: int| 0 <= i < borrowed@.len() ==> (#[trigger] selectors@[i])@ == borrowed@[i]@,
{
    let mut selectors: Vec<String> = Vec::new();
    let mut i: usize = 0;
    while i < borrowed.len()
        invariant
            i <= borrowed@.len(),
            selectors@.len() == i,
            forall|j: int| 0 <= j < i ==> (#[trigger] selectors@[j])@ == borrowed@[j]@,
        decreases borrowed@.len() - i,
    {
        selectors.push(borrowed[i].to_owned());
        i = i + 1;
    }
    selectors
}

/// Calls the handler for completed visits once, with `response`, and
/// returns its verdict with what it has scheduled through the response.
pub fn tell_visit<S: MutableWebScraper>(scraper: &mut S, response: Response) -> (answer: Dispatched)
    ensures
        exists|teller: &mut S, handed: &mut Response|
            *teller == *old(scraper) && *final(teller) == *final(scraper) && *handed == response
                && #[trigger] call_ensures(
                S::dispatch_on_response,
                (teller, handed),
                answer.verdict,
            ) && commands_of(answer.scheduled@) == (*final(handed))@.scheduled,
{
    let mut response = response;
    let verdict = scraper.dispatch_on_response(&mut response);
    let scheduled = response.take_scheduled();
    Dispatched { scheduled, verdict }
}

/// Calls the handler registered for `selector` once, with `response` and
/// `element`, and returns its verdict with what it has scheduled through
/// the response.
pub fn tell_element<S: MutableWebScraper>(
    scraper: &mut S,
    selector: &str,
    response: Response,
    element: Element,
) -> (answer: Dispatched)
    ensures
        exists|teller: &mut S, handed: &mut Response|
            *teller == *old(scraper) && *final(teller) == *final(scraper) && *handed == response
                && #[trigger] call_ensures(
                S::dispatch_on_html,
                (teller, selector, handed, element),
                answer.verdict,
            ) && commands_of(answer.scheduled@) == (*final(handed))@.scheduled,
{
    let mut response = response;
    let verdict = scraper.dispatch_on_html(selector, &mut response, element);
    let scheduled = response.take_scheduled();
    Dispatched { scheduled, verdict }
}

/// Makes `call` and returns what came of it: the handler that the call
/// names is called once with what the call holds, on the scraper as it is;
/// the verdict is what the handler returned, and the schedule is what the
/// response held when it returned.
pub fn make_call<S: MutableWebScraper>(scraper: &mut S, call: Call) -> (answer: Dispatched)
    ensures
        match call {
            Call::Element { selector, response, element } => exists|
                teller: &mut S,
                name: &str,
                handed: &mut Response,
            |
                *teller == *old(scraper) && *final(teller) == *final(scraper) && name@ == selector@
                    && *handed == response && #[trigger] call_ensures(
                    S::dispatch_on_html,
                    (teller, name, handed, element),
                    answer.verdict,
                ) && commands_of(answer.scheduled@) == (*final(handed))@.scheduled,
            Call::Visit { response } => exists|teller: &mut S, handed: &mut Response|
                *teller == *old(scraper) && *final(teller) == *final(scraper) && *handed
                    == response && #[trigger] call_ensures(
                    S::dispatch_on_response,
                    (teller, handed),
                    answer.verdict,
                ) && commands_of(answer.scheduled@) == (*final(handed))@.scheduled,
        },
{
    match call {
        Call::Element { selector, response, element } => tell_element(
            scraper,
            selector.as_str(),
            response,
            element,
        ),
        Call::Visit { response } => tell_visit(scraper, response),
    }
}

/// Joins the answer of one more call to what was gathered from the calls
/// before it: its schedule goes behind theirs, and its verdict is the
/// verdict from now on. Says whether the next call is to be made: it is
/// exactly when this one did not fail.
pub fn join(gathered: &mut Dispatched, answer: Dispatched) -> (go_on: bool)
    ensures
        commands_of(final(gathered).scheduled@) == commands_of(old(gathered).scheduled@)
            + commands_of(answer.scheduled@),
        final(gathered).verdict == answer.verdict,
        go_on == answer.verdict is Ok,
{
    let Dispatched { scheduled, verdict } = answer;
    let mut scheduled = scheduled;
    gathered.scheduled.append(&mut scheduled);
    assert(commands_of(gathered.scheduled@) =~= commands_of(old(gathered).scheduled@)
        + commands_of(answer.scheduled@));
    let go_on = verdict.is_ok();
    gathered.verdict = verdict;
    go_on
}

/// Makes the calls of `plan` in their order, up to the first that fails;
/// the page is kept until the last call has been made.
///
/// Of what a handler returns and schedules nothing is known. What is
/// stated is what is done with it. There is one answer for each call that
/// was made: the handler that the call names was called once with what the
/// call holds, on the scraper as the call before had left it, and the
/// answer holds its verdict and what it scheduled. The calls were made in
/// the order of the plan; every answer but the last is `Ok`, and a call is
/// left unmade only behind one that failed. What is scheduled is what the
/// answers hold, one after the other, and the verdict is the fault of the
/// last answer, or `Ok` if it did not fail.
pub fn dispatch<S: MutableWebScraper>(scraper: &mut S, plan: Plan) -> (dispatched: Dispatched)
    ensures
        exists|states: Seq<S>, answers: Seq<Dispatched>|
            #![trigger states.len(), answers.len()]
            {
                &&& answers.len() <= plan.calls@.len()
                &&& states.len() == answers.len() + 1
                &&& states.first() == *old(scraper)
                &&& states.last() == *final(scraper)
                &&& forall|i: int|
                    0 <= i < answers.len() ==> match plan.calls@[i] {
                        Call::Element { selector, response, element } => exists|
                            teller: &mut S,
                            name: &str,
                            handed: &mut Response,
                        |
                            *teller == states[i] && *final(teller) == states[i + 1] && name@
                                == selector@ && *handed == response && #[trigger] call_ensures(
                                S::dispatch_on_html,
                                (teller, name, handed, element),
                                (#[trigger] answers[i]).verdict,
                            ) && commands_of(answers[i].scheduled@) == (*final(handed))@.scheduled,
                        Call::Visit { response } => exists|teller: &mut S, handed: &mut Response|
                            *teller == states[i] && *final(teller) == states[i + 1] && *handed
                                == response && #[trigger] call_ensures(
                                S::dispatch_on_response,
                                (teller, handed),
                                answers[i].verdict,
                            ) && commands_of(answers[i].scheduled@) == (*final(handed))@.scheduled,
                    }
                &&& forall|i: int| 0 <= i < answers.len() - 1 ==> (#[trigger] answers[i]).verdict is Ok
                &&& answers.len() < plan.calls@.len() ==> answers.len() > 0
                    && answers.last().verdict is Err
                &&& commands_of(dispatched.scheduled@) == gathered(answers)
                &&& dispatched.verdict == verdict_on(answers)
            },
        plan.calls@.len() == 0 ==> dispatched.scheduled@.len() == 0 && dispatched.verdict is Ok
            && *final(scraper) == *old(scraper),
{
    let Plan { calls, page: _kept } = plan;
    let mut dispatched = Dispatched { scheduled: Vec::new(), verdict: Ok(()) };
    let ghost mut states: Seq<S> = seq![*scraper];
    let ghost mut answers: Seq<Dispatched> = Seq::empty();
    assert(commands_of(dispatched.scheduled@) =~= gathered(answers));
    for call in iter: calls
        invariant
            iter.seq() == plan.calls@,
            iter.index() == 0 ==> dispatched.scheduled@.len() == 0,
            answers.len() == iter.index(),
            states.len() == answers.len() + 1,
            states.first() == *old(scraper),
            states.last() == *scraper,
            forall|i: int|
                0 <= i < answers.len() ==> match plan.calls@[i] {
                    Call::Element { selector, response, element } => exists|
                        teller: &mut S,
                        name: &str,
                        handed: &mut Response,
                    |
                        *teller == states[i] && *final(teller) == states[i + 1] && name@
                            == selector@ && *handed == response && #[trigger] call_ensures(
                            S::dispatch_on_html,
                            (teller, name, handed, element),
                            (#[trigger] answers[i]).verdict,
                        ) && commands_of(answers[i].scheduled@) == (*final(handed))@.scheduled,
                    Call::Visit { response } => exists|teller: &mut S, handed: &mut Response|
                        *teller == states[i] && *final(teller) == states[i + 1] && *handed
                            == response && #[trigger] call_ensures(
                            S::dispatch_on_response,
                            (teller, handed),
                            answers[i].verdict,
                        ) && commands_of(answers[i].scheduled@) == (*final(handed))@.scheduled,
                },
            forall|i: int| 0 <= i < answers.len() ==> (#[trigger] answers[i]).verdict is Ok,
            commands_of(dispatched.scheduled@) == gathered(answers),
            dispatched.verdict is Ok,
    {
        let answer = make_call(scraper, call);
        let ghost answers_before = answers;
        proof {
            states = states.push(*scraper);
            answers = answers.push(answer);
            assert(answers.drop_last() =~= answers_before);
        }
        if !join(&mut dispatched, answer) {
            assert(states.len() == answers.len() + 1);
            return dispatched;
        }
    }
    assert(dispatched.verdict == Ok::<(), CrablerError>(())) by {
        assert(dispatched.verdict->Ok_0 == ());
    }
    dispatched
}

} // verus!
