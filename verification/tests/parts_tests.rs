use crabler::channel::{Channels, Received};
use crabler::dispatch::{
    calls_for_elements, dispatch, join, make_call, owned_selectors, plan_calls, tell_element,
    tell_visit, Call, Dispatched, Plan,
};
use crabler::error::CrablerError;
use crabler::markup::{char_is_space, chars_of, is_supported_selector, Page};
use crabler::response::{Response, STATUS_DOWNLOADED, STATUS_FAILED, STATUS_SKIPPED};
use crabler::scraper::MutableWebScraper;
use crabler::visited::VisitedSet;
use crabler::work::{WorkItem, WorkResult};
use crabler::worker::{supervise, workresult_from_response, Supervision, Worker, WorkerTask};
use crabquery::Element;

#[test]
fn queue_is_first_in_first_out() {
    let mut queue: Channels<u32> = Channels::new();
    assert!(queue.is_empty());
    assert!(matches!(queue.recv(), Received::Empty));
    queue.send(1).unwrap();
    queue.send(2).unwrap();
    queue.send(3).unwrap();
    assert_eq!(queue.len(), 3);
    assert_eq!(queue.peek(), Some(&1));
    assert!(matches!(queue.recv(), Received::Item(1)));
    assert!(matches!(queue.recv(), Received::Item(2)));
    assert_eq!(queue.len(), 1);
    assert!(!queue.is_closed());
}

#[test]
fn closed_queue_refuses_items_and_hands_out_what_it_holds() {
    let mut queue: Channels<u32> = Channels::new();
    queue.send(7).unwrap();
    queue.close();
    assert!(queue.is_closed());
    queue.close();
    assert!(queue.is_closed());
    assert!(matches!(queue.send(8), Err(CrablerError::QueueClosed)));
    assert_eq!(queue.len(), 1);
    assert!(matches!(queue.recv(), Received::Item(7)));
    assert!(matches!(queue.recv(), Received::Closed));
    assert!(matches!(queue.recv(), Received::Closed));
    assert_eq!(queue.peek(), None);
}

#[test]
fn claim_succeeds_once() {
    let mut visited = VisitedSet::new();
    assert!(!visited.contains("http://a"));
    assert!(visited.try_claim("http://a"));
    assert!(visited.contains("http://a"));
    assert!(!visited.try_claim("http://a"));
    assert!(visited.try_claim("http://a/"));
    assert!(visited.try_claim(""));
    assert!(!visited.try_claim(""));
    assert!(visited.contains("http://a"));
}

#[test]
fn response_tells_each_result() {
    let page = WorkResult::Page { url: "u".to_string(), body: "b".to_string(), status: 203 };
    let response = Response::from_result(&page).unwrap();
    assert_eq!((response.url.as_str(), response.status), ("u", 203));
    assert_eq!(response.download_destination, None);

    let downloaded = WorkResult::Downloaded { url: "u".to_string(), destination: "d".to_string() };
    let response = Response::from_result(&downloaded).unwrap();
    assert_eq!((response.url.as_str(), response.status), ("u", 200));
    assert_eq!(response.download_destination, Some("d".to_string()));

    let skipped = WorkResult::Skipped { url: "u".to_string() };
    let response = Response::from_result(&skipped).unwrap();
    assert_eq!((response.url.as_str(), response.status), ("u", 304));
    assert_eq!(response.download_destination, None);

    let failed = WorkResult::Failed { url: "u".to_string(), error: CrablerError::QueueClosed };
    let response = Response::from_result(&failed).unwrap();
    assert_eq!((response.url.as_str(), response.status), ("u", 500));
    assert_eq!(response.download_destination, None);

    assert_eq!((STATUS_DOWNLOADED, STATUS_SKIPPED, STATUS_FAILED), (200, 304, 500));
}

#[test]
fn handlers_are_told_nothing_of_a_stop() {
    assert!(Response::from_result(&WorkResult::Stop).is_none());
    let plan = plan_calls(&WorkResult::Stop, &owned_selectors(vec!["a", "[=x]"])).unwrap();
    assert!(plan.calls.is_empty());
    assert!(plan.page.is_none());
    let mut scraper = Picky { seen: Vec::new() };
    let dispatched = dispatch(&mut scraper, plan);
    assert!(dispatched.verdict.is_ok());
    assert!(dispatched.scheduled.is_empty());
    assert!(scraper.seen.is_empty());
}

#[test]
fn one_call_returns_the_verdict_and_what_was_scheduled() {
    let mut scraper = Picky { seen: Vec::new() };
    let answer = tell_visit(&mut scraper, Response::new(200, "http://v".to_string(), None));
    assert!(answer.verdict.is_ok());
    assert_eq!(scraper.seen, vec!["visit:http://v"]);
    assert_eq!(answer.scheduled.len(), 1);
    assert!(
        matches!(&answer.scheduled[0], WorkItem::Download { url, destination } if url == "http://file" && destination == "/tmp/f")
    );

    let page = Page::parse("<b>bad</b><b>good</b>");
    let mut found = page.select("b").unwrap();
    let good = found.pop().unwrap();
    let bad = found.pop().unwrap();
    let answer = tell_element(&mut scraper, "b", Response::new(200, "http://p".to_string(), None), bad);
    assert!(matches!(&answer.verdict, Err(CrablerError::CallbackFailed(m)) if m == "bad"));
    assert_eq!(answer.scheduled.len(), 1);
    assert!(matches!(&answer.scheduled[0], WorkItem::Navigate { url } if url == "http://next/bad"));

    let call = Call::Element {
        selector: "b".to_string(),
        response: Response::new(200, "http://p".to_string(), None),
        element: good,
    };
    let answer = make_call(&mut scraper, call);
    assert!(answer.verdict.is_ok());
    assert!(matches!(&answer.scheduled[0], WorkItem::Navigate { url } if url == "http://next/good"));
    let call = Call::Visit { response: Response::new(304, "http://w".to_string(), None) };
    let answer = make_call(&mut scraper, call);
    assert!(answer.verdict.is_ok());
    assert_eq!(scraper.seen, vec!["visit:http://v", "b:bad", "b:good", "visit:http://w"]);
}

#[test]
fn join_puts_the_answer_behind_what_was_gathered() {
    let mut gathered = Dispatched {
        scheduled: vec![WorkItem::Navigate { url: "one".to_string() }],
        verdict: Ok(()),
    };
    let answer = Dispatched {
        scheduled: vec![WorkItem::Stop, WorkItem::Navigate { url: "two".to_string() }],
        verdict: Ok(()),
    };
    assert!(join(&mut gathered, answer));
    assert_eq!(gathered.scheduled.len(), 3);
    assert!(matches!(&gathered.scheduled[0], WorkItem::Navigate { url } if url == "one"));
    assert!(matches!(&gathered.scheduled[1], WorkItem::Stop));
    assert!(matches!(&gathered.scheduled[2], WorkItem::Navigate { url } if url == "two"));
    assert!(gathered.verdict.is_ok());

    let failed = Dispatched {
        scheduled: Vec::new(),
        verdict: Err(CrablerError::IoFailed("disk".to_string())),
    };
    assert!(!join(&mut gathered, failed));
    assert_eq!(gathered.scheduled.len(), 3);
    assert!(matches!(&gathered.verdict, Err(CrablerError::IoFailed(m)) if m == "disk"));
}

#[test]
fn response_collects_what_is_scheduled() {
    let mut response = Response::new(200, "u".to_string(), Some("d".to_string()));
    assert!(response.take_scheduled().is_empty());
    assert!(response.navigate("n".to_string()).is_ok());
    assert!(response.download_file("f".to_string(), "p".to_string()).is_ok());
    assert!(response.navigate("m".to_string()).is_ok());
    let scheduled = response.take_scheduled();
    assert_eq!(scheduled.len(), 3);
    assert!(matches!(&scheduled[0], WorkItem::Navigate { url } if url == "n"));
    assert!(
        matches!(&scheduled[1], WorkItem::Download { url, destination } if url == "f" && destination == "p")
    );
    assert!(matches!(&scheduled[2], WorkItem::Navigate { url } if url == "m"));
    assert!(response.take_scheduled().is_empty());
    assert_eq!(response.url, "u");
    assert_eq!(response.status, 200);
    assert_eq!(response.download_destination, Some("d".to_string()));
}

#[test]
fn work_is_everything_but_stop() {
    assert!(WorkItem::Navigate { url: String::new() }.is_work());
    assert!(WorkItem::Download { url: String::new(), destination: String::new() }.is_work());
    assert!(!WorkItem::Stop.is_work());
}

#[test]
fn worker_skips_what_was_claimed() {
    let mut visited = VisitedSet::new();
    let turn = Worker::process_message(WorkItem::Navigate { url: "u".to_string() }, &mut visited);
    assert!(matches!(&turn.worker, Worker::FetchingPage { url } if url == "u"));
    assert!(matches!(&turn.task, Some(WorkerTask::FetchPage { url }) if url == "u"));
    assert!(turn.result.is_none());
    assert!(!turn.worker.is_idle());

    let turn = Worker::process_message(
        WorkItem::Download { url: "u".to_string(), destination: "d".to_string() },
        &mut visited,
    );
    assert!(turn.worker.is_idle());
    assert!(matches!(&turn.result, Some(WorkResult::Skipped { url }) if url == "u"));
    assert!(turn.task.is_none());

    let turn = Worker::process_message(
        WorkItem::Download { url: "v".to_string(), destination: "d".to_string() },
        &mut visited,
    );
    assert!(
        matches!(&turn.worker, Worker::FetchingFile { url, destination } if url == "v" && destination == "d")
    );
    assert!(matches!(&turn.task, Some(WorkerTask::FetchFile { url }) if url == "v"));

    let turn = Worker::navigate("v".to_string(), &mut visited);
    assert!(matches!(&turn.result, Some(WorkResult::Skipped { url }) if url == "v"));
    let turn = Worker::download("w".to_string(), "d".to_string(), &mut visited);
    assert!(turn.result.is_none());
    assert!(visited.contains("w"));

    let turn = Worker::process_message(WorkItem::Stop, &mut visited);
    assert!(turn.worker.is_stopped());
    assert!(turn.result.is_none() && turn.task.is_none());
}

#[test]
fn worker_turns_outcomes_into_results() {
    let fetching = Worker::FetchingPage { url: "u".to_string() };
    let turn = fetching.page_fetched(Ok((201, "text".to_string())));
    assert!(turn.worker.is_idle());
    assert!(
        matches!(&turn.result, Some(WorkResult::Page { url, body, status }) if url == "u" && body == "text" && *status == 201)
    );

    let fetching = Worker::FetchingPage { url: "u".to_string() };
    let turn = fetching.page_fetched(Err(CrablerError::FetchFailed("down".to_string())));
    assert!(turn.worker.is_idle());
    assert!(
        matches!(&turn.result, Some(WorkResult::Failed { url, error: CrablerError::FetchFailed(m) }) if url == "u" && m == "down")
    );

    let fetching = Worker::FetchingFile { url: "u".to_string(), destination: "d".to_string() };
    let turn = fetching.file_fetched(Ok(vec![9, 8]));
    assert!(
        matches!(&turn.worker, Worker::WritingFile { url, destination } if url == "u" && destination == "d")
    );
    assert!(
        matches!(&turn.task, Some(WorkerTask::WriteFile { destination, bytes }) if destination == "d" && bytes == &vec![9, 8])
    );
    assert!(turn.result.is_none());
    let turn = turn.worker.file_written(Ok(()));
    assert!(turn.worker.is_idle());
    assert!(
        matches!(&turn.result, Some(WorkResult::Downloaded { url, destination }) if url == "u" && destination == "d")
    );

    let writing = Worker::WritingFile { url: "u".to_string(), destination: "d".to_string() };
    let turn = writing.file_written(Err(CrablerError::IoFailed("full".to_string())));
    assert!(
        matches!(&turn.result, Some(WorkResult::Failed { url, error: CrablerError::IoFailed(m) }) if url == "u" && m == "full")
    );

    let fetching = Worker::FetchingFile { url: "u".to_string(), destination: "d".to_string() };
    let turn = fetching.file_fetched(Err(CrablerError::FetchFailed("down".to_string())));
    assert!(turn.worker.is_idle());
    assert!(matches!(&turn.result, Some(WorkResult::Failed { .. })));

    // An outcome that the worker does not wait for leaves it as it is.
    let turn = Worker::new().page_fetched(Ok((200, String::new())));
    assert!(turn.worker.is_idle() && turn.result.is_none() && turn.task.is_none());
    let turn = Worker::Stopped.file_written(Ok(()));
    assert!(turn.worker.is_stopped() && turn.result.is_none());
    let turn = Worker::FetchingPage { url: "u".to_string() }.file_fetched(Ok(Vec::new()));
    assert!(matches!(&turn.worker, Worker::FetchingPage { url } if url == "u"));
    assert!(turn.result.is_none() && turn.task.is_none());
}

#[test]
fn page_result_keeps_status_text_and_url() {
    let result = workresult_from_response(418, String::new(), "http://tea".to_string());
    assert!(
        matches!(&result, WorkResult::Page { url, body, status } if url == "http://tea" && body.is_empty() && *status == 418)
    );
}

#[test]
fn supervisor_retires_after_stop_and_restarts_after_a_fault() {
    assert_eq!(supervise(&Ok(())), Supervision::Retire);
    assert_eq!(supervise(&Err(CrablerError::QueueClosed)), Supervision::Restart);
    assert_eq!(supervise(&Err(CrablerError::IoFailed(String::new()))), Supervision::Restart);
}

#[test]
fn white_space_is_what_splits_a_selector() {
    for c in [' ', '\t', '\n', '\u{b}', '\u{c}', '\r', '\u{85}', '\u{a0}', '\u{1680}', '\u{2000}',
        '\u{200a}', '\u{2028}', '\u{2029}', '\u{202f}', '\u{205f}', '\u{3000}']
    {
        assert!(char_is_space(c), "{:?}", c);
        assert!(c.is_whitespace());
    }
    for c in ['a', '[', '\u{8}', '\u{e}', '\u{1f}', '\u{200b}', '\u{180e}', '\u{2060}', '\u{feff}'] {
        assert!(!char_is_space(c), "{:?}", c);
        assert!(!c.is_whitespace());
    }
    assert_eq!(chars_of("a\u{e9}[b"), vec!['a', '\u{e9}', '[', 'b']);
    assert!(chars_of("").is_empty());
}

#[test]
fn selectors_that_the_matcher_takes() {
    for selector in [
        "",
        "   ",
        "a",
        "a[href]",
        "div.container > form#feedback input.button",
        "a[href=\"/x\"]",
        "a[href^=\"/\"]",
        "a[href$=\"z\"]",
        "a[href*=\"y\"]",
        "a[x==]",
        "[a=b=\u{e9}=c]",
        "\u{e9}=x",
        "a]=x",
        "a[b]=x",
        "a[b.=x]",
        "a[b#=x]",
        "[=x]>",
        ">[=x]",
        "a[\u{e9}]",
        "a[\u{e9}x=1]",
        "=",
        "[",
        "a[b =x]",
        "a[b\u{e9} =x]",
    ] {
        assert!(is_supported_selector(selector), "{:?}", selector);
        let page = Page::parse("<a href=\"/x\" b>one</a>");
        assert!(page.select(selector).is_some(), "{:?}", selector);
    }
}

#[test]
fn selectors_that_the_matcher_cannot_take() {
    for selector in [
        "[=x]",
        "a[=\"x\"]",
        "a[href] b[=]",
        "a[b\u{e9}=x]",
        "a[\u{e9}=x]",
        "a[b][=x]",
        "a[b[=x]",
        "x >y [=1]",
        "a\u{a0}[=x]\u{2003}b>c",
        "[\u{4e2d}=x",
    ] {
        assert!(!is_supported_selector(selector), "{:?}", selector);
        let page = Page::parse("<a href=\"/x\">one</a>");
        assert!(page.select(selector).is_none(), "{:?}", selector);
    }
}

#[test]
fn page_hands_out_the_matching_elements_in_order() {
    let page = Page::parse(
        "<div><a href=\"/1\" class=\"k\">one</a><span><a href=\"/2\">two</a></span><a>none</a></div>",
    );
    let found = page.select("a[href]").unwrap();
    let hrefs: Vec<String> = found.iter().map(|e| e.attr("href").unwrap()).collect();
    assert_eq!(hrefs, vec!["/1", "/2"]);
    assert_eq!(page.select("a").unwrap().len(), 3);
    assert_eq!(page.select("a.k").unwrap().len(), 1);
    assert_eq!(page.select("a[href$=\"2\"]").unwrap()[0].text().unwrap(), "two");
    assert!(page.select("table").unwrap().is_empty());
    // The same question has the same answer.
    assert_eq!(page.select("a[href]").unwrap().len(), 2);
    assert!(Page::parse("").select("a").unwrap().is_empty());
}

#[test]
fn calls_are_planned_selector_by_selector_and_the_visit_last() {
    let page = WorkResult::Page {
        url: "http://p".to_string(),
        body: "<p id=\"first\">1</p><a href=\"/l\">l</a><p id=\"second\">2</p>".to_string(),
        status: 202,
    };
    let selectors = owned_selectors(vec!["p", "img", "a[href]", "p"]);
    assert_eq!(selectors, vec!["p", "img", "a[href]", "p"]);
    let plan = plan_calls(&page, &selectors).unwrap();
    assert!(plan.page.is_some());
    let told: Vec<(String, String)> = plan
        .calls
        .iter()
        .map(|call| match call {
            Call::Element { selector, response, element } => {
                assert_eq!(response.url, "http://p");
                assert_eq!(response.status, 202);
                assert_eq!(response.download_destination, None);
                let name = element.attr("id").or(element.attr("href")).unwrap();
                (selector.clone(), name)
            }
            Call::Visit { response } => {
                assert_eq!(response.url, "http://p");
                assert_eq!(response.status, 202);
                ("visit".to_string(), String::new())
            }
        })
        .collect();
    let expected: Vec<(String, String)> = [
        ("p", "first"),
        ("p", "second"),
        ("a[href]", "/l"),
        ("p", "first"),
        ("p", "second"),
        ("visit", ""),
    ]
    .iter()
    .map(|(s, n)| (s.to_string(), n.to_string()))
    .collect();
    assert_eq!(told, expected);
}

#[test]
fn each_element_gets_its_own_call() {
    let page = Page::parse("<ul><li>a</li><li>b</li><li>c</li></ul>");
    let found = page.select("li").unwrap();
    let calls = calls_for_elements(&"li".to_string(), &"http://p".to_string(), 207, found);
    let texts: Vec<String> = calls
        .iter()
        .map(|call| match call {
            Call::Element { selector, response, element } => {
                assert_eq!(selector, "li");
                assert_eq!((response.url.as_str(), response.status), ("http://p", 207));
                assert_eq!(response.download_destination, None);
                element.text().unwrap()
            }
            Call::Visit { .. } => panic!("no visit is planned here"),
        })
        .collect();
    assert_eq!(texts, vec!["a", "b", "c"]);
    assert!(calls_for_elements(&String::new(), &String::new(), 0, Vec::new()).is_empty());
}

#[test]
fn plan_for_other_results_is_the_visit_alone() {
    let selectors = owned_selectors(vec!["a", "[=x]"]);
    let skipped = WorkResult::Skipped { url: "u".to_string() };
    let plan = plan_calls(&skipped, &selectors).unwrap();
    assert_eq!(plan.calls.len(), 1);
    assert!(plan.page.is_none());
    assert!(matches!(&plan.calls[0], Call::Visit { response } if response.status == 304));

    let page = WorkResult::Page { url: "u".to_string(), body: String::new(), status: 200 };
    match plan_calls(&page, &selectors) {
        Err(CrablerError::CallbackFailed(selector)) => assert_eq!(selector, "[=x]"),
        _ => panic!("the plan should fail"),
    }
    let plan = plan_calls(&page, &Vec::new()).unwrap();
    assert_eq!(plan.calls.len(), 1);
}

struct Picky {
    seen: Vec<String>,
}

impl MutableWebScraper for Picky {
    fn dispatch_on_html(
        &mut self,
        selector: &str,
        response: &mut Response,
        element: Element,
    ) -> Result<(), CrablerError> {
        let text = element.text().unwrap();
        self.seen.push(format!("{}:{}", selector, text));
        response.navigate(format!("http://next/{}", text))?;
        if text == "bad" {
            Err(CrablerError::CallbackFailed(text))
        } else {
            Ok(())
        }
    }

    fn dispatch_on_response(&mut self, response: &mut Response) -> Result<(), CrablerError> {
        self.seen.push(format!("visit:{}", response.url));
        response.download_file("http://file".to_string(), "/tmp/f".to_string())
    }

    fn all_html_selectors(&self) -> Vec<&str> {
        vec!["b"]
    }
}

#[test]
fn dispatch_stops_at_the_first_failure_and_keeps_what_was_scheduled() {
    let mut scraper = Picky { seen: Vec::new() };
    let page = WorkResult::Page {
        url: "http://p".to_string(),
        body: "<b>one</b><b>bad</b><b>three</b>".to_string(),
        status: 200,
    };
    let plan = plan_calls(&page, &owned_selectors(scraper.all_html_selectors())).unwrap();
    assert_eq!(plan.calls.len(), 4);
    let dispatched = dispatch(&mut scraper, plan);
    assert!(
        matches!(&dispatched.verdict, Err(CrablerError::CallbackFailed(m)) if m == "bad"),
        "{:?} {:?}",
        dispatched.verdict,
        scraper.seen
    );
    assert_eq!(scraper.seen, vec!["b:one", "b:bad"]);
    assert_eq!(dispatched.scheduled.len(), 2);
    assert!(matches!(&dispatched.scheduled[1], WorkItem::Navigate { url } if url == "http://next/bad"));

    let mut scraper = Picky { seen: Vec::new() };
    let page = WorkResult::Page {
        url: "http://p".to_string(),
        body: "<b>one</b><i>x</i><b>two</b>".to_string(),
        status: 200,
    };
    let plan = plan_calls(&page, &owned_selectors(scraper.all_html_selectors())).unwrap();
    let dispatched = dispatch(&mut scraper, plan);
    assert!(dispatched.verdict.is_ok());
    assert_eq!(scraper.seen, vec!["b:one", "b:two", "visit:http://p"]);
    assert_eq!(dispatched.scheduled.len(), 3);
    assert!(matches!(&dispatched.scheduled[2], WorkItem::Download { .. }));

    let dispatched = dispatch(&mut scraper, Plan { calls: Vec::new(), page: None });
    assert!(dispatched.verdict.is_ok() && dispatched.scheduled.is_empty());
}
