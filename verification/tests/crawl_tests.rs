use crabler::crawl::{Crawl, Poll, Progress};
use crabler::error::CrablerError;
use crabler::work::{WorkItem, WorkResult};
use crabler::worker::WorkerTask;
use crabler::{
    ImmutableCrabler, ImmutableWebScraper, MutableCrabler, MutableWebScraper, Response,
};
use crabquery::Element;
use std::cell::RefCell;

const THREE_LINKS: &str =
    "<html><body><a href=\"/x\">x</a><p><a href=\"/y\">y</a></p><a href=\"/z\">z</a></body></html>";

/// Records what its handlers are told, and follows what it is told to.
struct Recorder {
    selectors: Vec<String>,
    visits: Vec<(String, u16, Option<String>)>,
    links: Vec<String>,
    follow_links: bool,
    download_links: bool,
    fail_on_visit: bool,
    fail_on_element: bool,
}

impl Recorder {
    fn new(selectors: &[&str]) -> Self {
        Recorder {
            selectors: selectors.iter().map(|s| s.to_string()).collect(),
            visits: Vec::new(),
            links: Vec::new(),
            follow_links: false,
            download_links: false,
            fail_on_visit: false,
            fail_on_element: false,
        }
    }
}

impl MutableWebScraper for Recorder {
    fn dispatch_on_html(
        &mut self,
        selector: &str,
        response: &mut Response,
        element: Element,
    ) -> Result<(), CrablerError> {
        assert!(self.selectors.iter().any(|s| s == selector));
        if let Some(href) = element.attr("href") {
            if self.follow_links {
                response.navigate(format!("{}{}", response.url, href))?;
            }
            if self.download_links {
                response.download_file(format!("{}{}", response.url, href), format!("/tmp{}", href))?;
            }
            self.links.push(href);
        }
        if self.fail_on_element {
            return Err(CrablerError::CallbackFailed("element".to_string()));
        }
        Ok(())
    }

    fn dispatch_on_response(&mut self, response: &mut Response) -> Result<(), CrablerError> {
        self.visits.push((
            response.url.clone(),
            response.status,
            response.download_destination.clone(),
        ));
        if self.fail_on_visit {
            return Err(CrablerError::CallbackFailed("visit".to_string()));
        }
        Ok(())
    }

    fn all_html_selectors(&self) -> Vec<&str> {
        self.selectors.iter().map(|s| s.as_str()).collect()
    }
}

/// The fetch that the tests perform in place of the network.
fn fetch(url: &str) -> Result<(u16, String), CrablerError> {
    if url.contains("broken") {
        Err(CrablerError::FetchFailed(format!("no route to {}", url)))
    } else if url.contains("missing") {
        Ok((404, String::new()))
    } else if url == "http://a" || url == "https://www.rust-lang.org/" {
        Ok((200, page_for(url)))
    } else {
        Ok((200, "<html><body><p>leaf</p></body></html>".to_string()))
    }
}

fn page_for(url: &str) -> String {
    if url == "http://a" {
        THREE_LINKS.to_string()
    } else {
        let mut page = String::from("<html><body>");
        for i in 0..12 {
            page.push_str(&format!("<a href=\"/page{}\">page {}</a>", i, i));
        }
        page.push_str("<a name=\"top\">no link</a></body></html>");
        page
    }
}

/// Gives every worker its turn once and performs the I/O that it asks for.
/// Returns whether any worker did anything, and records the files written.
fn turn_workers(crawl: &mut Crawl, files: &mut Vec<(String, Vec<u8>)>) -> bool {
    let mut moved = false;
    for worker in 0..crawl.worker_count() {
        match crawl.poll_worker(worker) {
            Poll::Task(WorkerTask::FetchPage { url }) => {
                crawl.page_fetched(worker, fetch(&url));
                moved = true;
            }
            Poll::Task(WorkerTask::FetchFile { url }) => {
                let fetched = fetch(&url).map(|(_, text)| text.into_bytes());
                match crawl.file_fetched(worker, fetched) {
                    Poll::Task(WorkerTask::WriteFile { destination, bytes }) => {
                        let written = if destination.contains("readonly") {
                            Err(CrablerError::IoFailed("read-only".to_string()))
                        } else {
                            files.push((destination, bytes));
                            Ok(())
                        };
                        crawl.file_written(worker, written);
                    }
                    Poll::Emitted | Poll::Restarted => {}
                    other => panic!("unexpected {:?}", other),
                }
                moved = true;
            }
            Poll::Task(other) => panic!("unexpected {:?}", other),
            Poll::Emitted | Poll::Restarted => moved = true,
            Poll::Stopped | Poll::Waiting => {}
        }
    }
    moved
}

/// Runs the crawl to its end, as a program around the library would.
fn run_to_completion<S: MutableWebScraper>(
    crawl: &mut Crawl,
    scraper: &mut S,
    files: &mut Vec<(String, Vec<u8>)>,
) -> Result<(), CrablerError> {
    loop {
        match crawl.run(scraper) {
            Progress::Done(end) => return end,
            Progress::Continue => unreachable!(),
            Progress::Waiting => {}
        }
        assert!(turn_workers(crawl, files), "the crawl has stalled");
    }
}

#[test]
fn end_to_end_three_links() {
    let mut scraper = Recorder::new(&["a[href]"]);
    let mut crawl = Crawl::new();
    crawl.start(&vec!["http://a".to_string()], 2).unwrap();
    let mut files = Vec::new();
    let end = run_to_completion(&mut crawl, &mut scraper, &mut files);
    assert!(end.is_ok());
    assert_eq!(scraper.links, vec!["/x", "/y", "/z"]);
    assert_eq!(scraper.visits, vec![("http://a".to_string(), 200, None)]);
    assert_eq!(crawl.in_flight(), 0);
    assert!(crawl.is_shut_down());
}

#[test]
fn test_roundtrip() {
    let mut scraper = Recorder::new(&["a[href]"]);
    {
        let mut crabler = MutableCrabler::new(&mut scraper);
        crabler.navigate("https://www.rust-lang.org/").unwrap();
        for _ in 0..4 {
            crabler.start_worker();
        }
        let mut files = Vec::new();
        loop {
            match crabler.run() {
                Progress::Done(end) => {
                    end.unwrap();
                    break;
                }
                Progress::Continue => unreachable!(),
                Progress::Waiting => {}
            }
            assert!(turn_workers(crabler.crawl(), &mut files));
        }
    }
    assert_eq!(scraper.visits.len(), 1);
    println!("Found {} urls", scraper.links.len());
    assert!(scraper.links.len() > 10);
    assert_eq!(scraper.visits.first().unwrap().0, "https://www.rust-lang.org/");
}

/// A scraper behind a shared reference, which records through a cell.
struct SharedRecorder {
    visits: RefCell<Vec<(String, u16)>>,
    links: RefCell<Vec<String>>,
}

impl ImmutableWebScraper for SharedRecorder {
    fn dispatch_on_html(
        &self,
        _selector: &str,
        _response: &mut Response,
        element: Element,
    ) -> Result<(), CrablerError> {
        self.links.borrow_mut().push(element.attr("href").unwrap());
        Ok(())
    }

    fn dispatch_on_response(&self, response: &mut Response) -> Result<(), CrablerError> {
        self.visits.borrow_mut().push((response.url.clone(), response.status));
        Ok(())
    }

    fn all_html_selectors(&self) -> Vec<&str> {
        vec!["a[href]"]
    }
}

#[test]
fn immutable_crabler_runs_the_same_crawl() {
    let scraper = SharedRecorder { visits: RefCell::new(Vec::new()), links: RefCell::new(Vec::new()) };
    let mut crabler = ImmutableCrabler::new(&scraper);
    crabler.navigate("http://a").unwrap();
    crabler.start_worker();
    let mut files = Vec::new();
    let end = loop {
        match crabler.run() {
            Progress::Done(end) => break end,
            Progress::Continue => unreachable!(),
            Progress::Waiting => {}
        }
        assert!(turn_workers(crabler.crawl(), &mut files));
    };
    assert!(end.is_ok());
    assert_eq!(*scraper.links.borrow(), vec!["/x", "/y", "/z"]);
    assert_eq!(*scraper.visits.borrow(), vec![("http://a".to_string(), 200)]);
}

#[test]
fn counter_counts_what_is_enqueued_and_not_yet_processed() {
    let mut scraper = Recorder::new(&[]);
    let mut crawl = Crawl::new();
    assert_eq!(crawl.in_flight(), 0);
    crawl.navigate("http://one").unwrap();
    crawl.navigate("http://two").unwrap();
    crawl.download_file("http://three", "/tmp/three").unwrap();
    assert_eq!(crawl.in_flight(), 3);
    assert_eq!(crawl.waiting_work(), 3);
    crawl.start_worker();

    // A worker that holds a command, and a result that waits, still count.
    assert!(matches!(crawl.poll_worker(0), Poll::Task(WorkerTask::FetchPage { .. })));
    assert_eq!(crawl.in_flight(), 3);
    assert!(matches!(crawl.page_fetched(0, fetch("http://one")), Poll::Emitted));
    assert_eq!(crawl.in_flight(), 3);
    assert_eq!(crawl.waiting_results(), 1);

    assert!(matches!(crawl.run(&mut scraper), Progress::Waiting));
    assert_eq!(crawl.in_flight(), 2);
    assert!(!crawl.is_shut_down());

    let mut files = Vec::new();
    assert!(turn_workers(&mut crawl, &mut files));
    assert!(matches!(crawl.run(&mut scraper), Progress::Waiting));
    assert_eq!(crawl.in_flight(), 1);
    assert!(turn_workers(&mut crawl, &mut files));
    assert!(matches!(crawl.run(&mut scraper), Progress::Done(Ok(()))));
    assert_eq!(crawl.in_flight(), 0);
    assert_eq!(crawl.waiting_results(), 0);
    assert_eq!(scraper.visits.len(), 3);
}

#[test]
fn run_without_work_waits() {
    let mut scraper = Recorder::new(&[]);
    let mut crawl = Crawl::new();
    crawl.start_worker();
    assert!(matches!(crawl.run(&mut scraper), Progress::Waiting));
    assert!(matches!(crawl.poll_worker(0), Poll::Waiting));
    assert!(!crawl.is_shut_down());
    assert!(scraper.visits.is_empty());
}

#[test]
fn same_url_twice_gives_one_page_and_one_skip() {
    let mut scraper = Recorder::new(&[]);
    let mut crawl = Crawl::new();
    crawl.start(&vec!["http://leaf".to_string(), "http://leaf".to_string()], 1).unwrap();
    assert!(!crawl.is_visited("http://leaf"));
    let mut files = Vec::new();
    run_to_completion(&mut crawl, &mut scraper, &mut files).unwrap();
    assert!(crawl.is_visited("http://leaf"));
    assert_eq!(
        scraper.visits,
        vec![("http://leaf".to_string(), 200, None), ("http://leaf".to_string(), 304, None)]
    );
}

#[test]
fn a_download_claims_its_url_too() {
    let mut scraper = Recorder::new(&[]);
    let mut crawl = Crawl::new();
    crawl.download_file("http://leaf", "/tmp/leaf").unwrap();
    crawl.navigate("http://leaf").unwrap();
    crawl.download_file("http://leaf", "/tmp/again").unwrap();
    crawl.start_worker();
    let mut files = Vec::new();
    run_to_completion(&mut crawl, &mut scraper, &mut files).unwrap();
    assert_eq!(
        scraper.visits,
        vec![
            ("http://leaf".to_string(), 200, Some("/tmp/leaf".to_string())),
            ("http://leaf".to_string(), 304, None),
            ("http://leaf".to_string(), 304, None),
        ]
    );
    assert_eq!(files.len(), 1);
}

#[test]
fn failed_fetch_does_not_stop_the_pool() {
    let mut scraper = Recorder::new(&[]);
    let mut crawl = Crawl::new();
    crawl.start(&vec!["http://broken".to_string(), "http://leaf".to_string()], 1).unwrap();

    assert!(matches!(crawl.poll_worker(0), Poll::Task(WorkerTask::FetchPage { .. })));
    assert!(matches!(crawl.page_fetched(0, fetch("http://broken")), Poll::Emitted));
    match crawl.next_result() {
        Some(WorkResult::Failed { url, error: CrablerError::FetchFailed(message) }) => {
            assert_eq!(url, "http://broken");
            assert_eq!(message, "no route to http://broken");
        }
        other => panic!("unexpected {:?}", other),
    }

    let mut files = Vec::new();
    run_to_completion(&mut crawl, &mut scraper, &mut files).unwrap();
    assert_eq!(
        scraper.visits,
        vec![("http://broken".to_string(), 500, None), ("http://leaf".to_string(), 200, None)]
    );
}

#[test]
fn page_status_is_passed_on() {
    let mut scraper = Recorder::new(&[]);
    let mut crawl = Crawl::new();
    crawl.start(&vec!["http://missing".to_string()], 1).unwrap();
    let mut files = Vec::new();
    run_to_completion(&mut crawl, &mut scraper, &mut files).unwrap();
    assert_eq!(scraper.visits, vec![("http://missing".to_string(), 404, None)]);
}

#[test]
fn download_asks_for_the_fetched_bytes_to_be_written() {
    let mut scraper = Recorder::new(&[]);
    let mut crawl = Crawl::new();
    crawl.download_file("http://file", "/tmp/file.bin").unwrap();
    crawl.start_worker();
    match crawl.poll_worker(0) {
        Poll::Task(WorkerTask::FetchFile { url }) => assert_eq!(url, "http://file"),
        other => panic!("unexpected {:?}", other),
    }
    // The worker waits for bytes: a page or the end of a write is not for it.
    assert!(matches!(crawl.page_fetched(0, Ok((200, String::new()))), Poll::Waiting));
    assert!(matches!(crawl.file_written(0, Ok(())), Poll::Waiting));
    match crawl.file_fetched(0, Ok(vec![1, 2, 3, 255])) {
        Poll::Task(WorkerTask::WriteFile { destination, bytes }) => {
            assert_eq!(destination, "/tmp/file.bin");
            assert_eq!(bytes, vec![1, 2, 3, 255]);
        }
        other => panic!("unexpected {:?}", other),
    }
    assert_eq!(crawl.waiting_results(), 0);
    assert!(matches!(crawl.file_written(0, Ok(())), Poll::Emitted));
    assert!(matches!(crawl.run(&mut scraper), Progress::Done(Ok(()))));
    assert_eq!(
        scraper.visits,
        vec![("http://file".to_string(), 200, Some("/tmp/file.bin".to_string()))]
    );
}

#[test]
fn failed_write_and_failed_download_are_results() {
    let mut scraper = Recorder::new(&[]);
    let mut crawl = Crawl::new();
    crawl.download_file("http://file", "/readonly/file").unwrap();
    crawl.download_file("http://broken/file", "/tmp/file").unwrap();
    crawl.start_worker();
    let mut files = Vec::new();
    run_to_completion(&mut crawl, &mut scraper, &mut files).unwrap();
    assert!(files.is_empty());
    assert_eq!(
        scraper.visits,
        vec![("http://file".to_string(), 500, None), ("http://broken/file".to_string(), 500, None)]
    );
}

#[test]
fn work_scheduled_by_a_handler_keeps_the_crawl_going() {
    let mut scraper = Recorder::new(&["a[href]"]);
    scraper.follow_links = true;
    let mut crawl = Crawl::new();
    crawl.start(&vec!["http://a".to_string()], 1).unwrap();
    assert!(matches!(crawl.poll_worker(0), Poll::Task(_)));
    crawl.page_fetched(0, fetch("http://a"));
    assert_eq!(crawl.in_flight(), 1);
    // Three links are followed: three commands join before the page is counted.
    assert!(matches!(crawl.run(&mut scraper), Progress::Waiting));
    assert_eq!(crawl.in_flight(), 3);
    assert_eq!(crawl.waiting_work(), 3);
    assert!(!crawl.is_shut_down());

    let mut files = Vec::new();
    run_to_completion(&mut crawl, &mut scraper, &mut files).unwrap();
    let urls: Vec<&str> = scraper.visits.iter().map(|v| v.0.as_str()).collect();
    assert_eq!(urls, vec!["http://a", "http://a/x", "http://a/y", "http://a/z"]);
    assert_eq!(crawl.in_flight(), 0);
}

#[test]
fn downloads_scheduled_by_a_handler_are_made() {
    let mut scraper = Recorder::new(&["a[href]"]);
    scraper.download_links = true;
    let mut crawl = Crawl::new();
    crawl.start(&vec!["http://a".to_string()], 3).unwrap();
    let mut files = Vec::new();
    run_to_completion(&mut crawl, &mut scraper, &mut files).unwrap();
    let destinations: Vec<&str> = files.iter().map(|f| f.0.as_str()).collect();
    assert_eq!(destinations, vec!["/tmp/x", "/tmp/y", "/tmp/z"]);
    assert_eq!(scraper.visits.len(), 4);
    assert_eq!(scraper.visits[1], ("http://a/x".to_string(), 200, Some("/tmp/x".to_string())));
}

#[test]
fn shutdown_after_completion_closes_everything_once() {
    let mut scraper = Recorder::new(&[]);
    let mut crawl = Crawl::new();
    crawl.start(&vec!["http://leaf".to_string()], 3).unwrap();
    let mut files = Vec::new();
    run_to_completion(&mut crawl, &mut scraper, &mut files).unwrap();
    assert!(crawl.is_shut_down());
    // One Stop for each worker, and nothing else.
    assert_eq!(crawl.waiting_work(), 3);
    crawl.shutdown();
    assert!(crawl.is_shut_down());
    assert_eq!(crawl.waiting_work(), 3);
    for worker in 0..3 {
        assert!(matches!(crawl.poll_worker(worker), Poll::Stopped));
    }
    assert_eq!(crawl.waiting_work(), 0);
    // A worker that stops sends nothing on.
    assert_eq!(crawl.waiting_results(), 0);
    for worker in 0..3 {
        assert!(matches!(crawl.poll_worker(worker), Poll::Stopped));
    }
    assert!(matches!(crawl.navigate("http://late"), Err(CrablerError::QueueClosed)));
    assert_eq!(crawl.in_flight(), 0);
    assert_eq!(crawl.waiting_work(), 0);
    assert!(matches!(crawl.run(&mut scraper), Progress::Done(Err(CrablerError::QueueClosed))));
}

#[test]
fn failing_handler_ends_the_crawl_and_shuts_it_down() {
    let mut scraper = Recorder::new(&[]);
    scraper.fail_on_visit = true;
    let mut crawl = Crawl::new();
    crawl.start(&vec!["http://leaf".to_string(), "http://other".to_string()], 2).unwrap();
    let mut files = Vec::new();
    let end = run_to_completion(&mut crawl, &mut scraper, &mut files);
    match end {
        Err(CrablerError::CallbackFailed(message)) => assert_eq!(message, "visit"),
        other => panic!("unexpected {:?}", other),
    }
    assert!(crawl.is_shut_down());
    assert_eq!(scraper.visits.len(), 1);
    // The visit whose handler failed was not counted as processed.
    assert_eq!(crawl.in_flight(), 2);
    crawl.shutdown();
    assert!(crawl.is_shut_down());
}

#[test]
fn failing_element_handler_ends_the_crawl_before_the_visit_is_told() {
    let mut scraper = Recorder::new(&["a[href]"]);
    scraper.fail_on_element = true;
    scraper.follow_links = true;
    let mut crawl = Crawl::new();
    crawl.start(&vec!["http://a".to_string()], 1).unwrap();
    let mut files = Vec::new();
    let end = run_to_completion(&mut crawl, &mut scraper, &mut files);
    assert!(matches!(end, Err(CrablerError::CallbackFailed(_))));
    assert_eq!(scraper.links, vec!["/x"]);
    assert!(scraper.visits.is_empty());
    assert!(crawl.is_shut_down());
    // What the handler scheduled before it failed was enqueued, ahead of the Stop.
    assert_eq!(crawl.waiting_work(), 2);
    assert_eq!(crawl.in_flight(), 2);
}

#[test]
fn selector_that_the_matcher_cannot_take_ends_the_crawl() {
    let mut scraper = Recorder::new(&["a[href]", "a[=\"x\"]"]);
    let mut crawl = Crawl::new();
    crawl.start(&vec!["http://a".to_string()], 1).unwrap();
    let mut files = Vec::new();
    let end = run_to_completion(&mut crawl, &mut scraper, &mut files);
    match end {
        Err(CrablerError::CallbackFailed(message)) => assert_eq!(message, "a[=\"x\"]"),
        other => panic!("unexpected {:?}", other),
    }
    assert!(scraper.links.is_empty());
    assert!(scraper.visits.is_empty());
    assert!(crawl.is_shut_down());
}

#[test]
fn workers_drain_what_was_queued_ahead_of_their_stop() {
    let mut crawl = Crawl::new();
    crawl.start(&vec!["http://one".to_string(), "http://one".to_string()], 1).unwrap();
    crawl.shutdown();
    assert_eq!(crawl.waiting_work(), 3);
    // The result queue is closed: the worker's run ends on the fault and is restarted.
    assert!(matches!(crawl.poll_worker(0), Poll::Task(WorkerTask::FetchPage { .. })));
    assert!(matches!(crawl.page_fetched(0, fetch("http://one")), Poll::Restarted));
    assert!(matches!(crawl.poll_worker(0), Poll::Restarted));
    assert_eq!(crawl.waiting_results(), 0);
    assert!(matches!(crawl.poll_worker(0), Poll::Stopped));
    assert!(matches!(crawl.poll_worker(0), Poll::Stopped));
    assert_eq!(crawl.in_flight(), 2);
}

#[test]
fn settle_says_how_the_orchestrator_goes_on() {
    let mut crawl = Crawl::new();
    assert!(matches!(crawl.settle(Vec::new(), Ok(())), Progress::Waiting));
    assert!(matches!(
        crawl.settle(vec![WorkItem::Navigate { url: "http://n".to_string() }], Ok(())),
        Progress::Waiting
    ));
    assert_eq!(crawl.in_flight(), 0);

    crawl.start(&vec!["http://one".to_string(), "http://two".to_string()], 2).unwrap();
    assert!(matches!(crawl.poll_worker(0), Poll::Task(_)));
    assert!(matches!(crawl.poll_worker(1), Poll::Task(_)));
    crawl.page_fetched(1, fetch("http://two"));
    crawl.page_fetched(0, fetch("http://one"));
    match crawl.next_result() {
        Some(WorkResult::Page { url, status, .. }) => {
            assert_eq!(url, "http://two");
            assert_eq!(*status, 200);
        }
        other => panic!("unexpected {:?}", other),
    }
    let scheduled = vec![
        WorkItem::Download { url: "http://d".to_string(), destination: "/tmp/d".to_string() },
        WorkItem::Stop,
    ];
    assert!(matches!(crawl.settle(scheduled, Ok(())), Progress::Continue));
    // Two were in flight, one more was scheduled, one was processed; a Stop is no work.
    assert_eq!(crawl.in_flight(), 2);
    assert_eq!(crawl.waiting_work(), 2);
    assert_eq!(crawl.waiting_results(), 1);

    let fault = Err(CrablerError::IoFailed("disk".to_string()));
    match crawl.settle(Vec::new(), fault) {
        Progress::Done(Err(CrablerError::IoFailed(message))) => assert_eq!(message, "disk"),
        other => panic!("unexpected {:?}", other),
    }
    assert!(crawl.is_shut_down());
    assert_eq!(crawl.in_flight(), 2);
    assert_eq!(crawl.waiting_work(), 4);
    assert!(matches!(
        crawl.settle(Vec::new(), Ok(())),
        Progress::Done(Err(CrablerError::QueueClosed))
    ));
}

#[test]
fn settle_refuses_work_for_a_closed_queue() {
    let mut crawl = Crawl::new();
    crawl.start(&vec!["http://one".to_string(), "http://two".to_string()], 1).unwrap();
    assert!(matches!(crawl.poll_worker(0), Poll::Task(_)));
    crawl.page_fetched(0, fetch("http://one"));
    assert!(matches!(crawl.poll_worker(0), Poll::Task(_)));
    crawl.page_fetched(0, fetch("http://two"));
    crawl.shutdown();
    assert_eq!(crawl.waiting_results(), 2);
    // Results that wait in a closed queue are still processed.
    assert!(matches!(crawl.settle(Vec::new(), Ok(())), Progress::Continue));
    assert_eq!(crawl.in_flight(), 1);
    let late = vec![WorkItem::Navigate { url: "http://late".to_string() }];
    assert!(matches!(crawl.settle(late, Ok(())), Progress::Done(Err(CrablerError::QueueClosed))));
    assert_eq!(crawl.in_flight(), 1);
    assert_eq!(crawl.waiting_work(), 1);
}

#[test]
fn start_seeds_and_launches_the_pool() {
    let mut crawl = Crawl::new();
    crawl.start(&vec!["http://one".to_string(), "http://two".to_string()], 3).unwrap();
    assert_eq!(crawl.in_flight(), 2);
    assert_eq!(crawl.waiting_work(), 2);
    assert_eq!(crawl.worker_count(), 3);
    crawl.shutdown();
    assert!(matches!(
        crawl.start(&vec!["http://three".to_string()], 2),
        Err(CrablerError::QueueClosed)
    ));
    assert_eq!(crawl.worker_count(), 3);
    assert_eq!(crawl.in_flight(), 2);
    assert!(crawl.start(&Vec::new(), 1).is_ok());
    assert_eq!(crawl.worker_count(), 4);
}

#[test]
fn polling_a_worker_that_is_not_there_changes_nothing() {
    let mut crawl = Crawl::new();
    crawl.navigate("http://one").unwrap();
    assert!(matches!(crawl.poll_worker(0), Poll::Waiting));
    assert!(matches!(crawl.page_fetched(0, Ok((200, String::new()))), Poll::Waiting));
    assert!(matches!(crawl.file_fetched(7, Ok(Vec::new())), Poll::Waiting));
    assert!(matches!(crawl.file_written(7, Ok(())), Poll::Waiting));
    assert_eq!(crawl.waiting_work(), 1);
    assert_eq!(crawl.in_flight(), 1);
}

#[test]
fn busy_worker_takes_no_second_command() {
    let mut crawl = Crawl::new();
    crawl.start(&vec!["http://one".to_string(), "http://two".to_string()], 1).unwrap();
    assert!(matches!(crawl.poll_worker(0), Poll::Task(_)));
    assert!(matches!(crawl.poll_worker(0), Poll::Waiting));
    assert_eq!(crawl.waiting_work(), 1);
}

#[test]
fn one_worker_gives_one_result_for_each_command_in_order() {
    let mut crawl = Crawl::new();
    crawl.navigate("http://one").unwrap();
    crawl.download_file("http://broken/two", "/tmp/two").unwrap();
    crawl.navigate("http://one").unwrap();
    crawl.download_file("http://four", "/tmp/four").unwrap();
    crawl.start_worker();
    let mut files = Vec::new();
    for done in 1..=4 {
        assert!(turn_workers(&mut crawl, &mut files));
        assert_eq!(crawl.waiting_results(), done);
        assert_eq!(crawl.waiting_work(), 4 - done);
    }
    assert!(!turn_workers(&mut crawl, &mut files));
    assert_eq!(crawl.in_flight(), 4);

    let mut scraper = Recorder::new(&[]);
    assert!(matches!(crawl.run(&mut scraper), Progress::Done(Ok(()))));
    assert_eq!(
        scraper.visits,
        vec![
            ("http://one".to_string(), 200, None),
            ("http://broken/two".to_string(), 500, None),
            ("http://one".to_string(), 304, None),
            ("http://four".to_string(), 200, Some("/tmp/four".to_string())),
        ]
    );
    assert_eq!(files.len(), 1);
    // The run has ended the crawl: one Stop waits for the one worker.
    assert_eq!(crawl.waiting_work(), 1);
    assert!(matches!(crawl.poll_worker(0), Poll::Stopped));
    assert_eq!(crawl.waiting_results(), 0);
}

#[test]
fn run_returns_the_fault_of_the_handler_and_sends_the_stops() {
    let mut scraper = Recorder::new(&["a[href]"]);
    scraper.fail_on_visit = true;
    let mut crawl = Crawl::new();
    crawl.start(&vec!["http://a".to_string(), "http://leaf".to_string()], 3).unwrap();
    let mut files = Vec::new();
    assert!(turn_workers(&mut crawl, &mut files));
    assert_eq!(crawl.waiting_results(), 2);
    match crawl.run(&mut scraper) {
        Progress::Done(Err(CrablerError::CallbackFailed(message))) => assert_eq!(message, "visit"),
        other => panic!("unexpected {:?}", other),
    }
    // The first result was taken and the second was left; three Stops were sent.
    assert_eq!(crawl.waiting_results(), 1);
    assert_eq!(crawl.waiting_work(), 3);
    assert!(crawl.is_shut_down());
    assert_eq!(scraper.links, vec!["/x", "/y", "/z"]);
    assert_eq!(scraper.visits.len(), 1);
    for worker in 0..3 {
        assert!(matches!(crawl.poll_worker(worker), Poll::Stopped));
    }
}
