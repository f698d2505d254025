use broken_links::engine::CrawlError;
use broken_links::engine::Engine;
use broken_links::engine::FetchEvent;
use broken_links::engine::StepOutcome;
use broken_links::messages::ChannelMessage;
use broken_links::supervisor::Supervisor;
use broken_links::supervisor::SupervisorEvent;

fn expect_continue(out: StepOutcome) {
    assert!(matches!(out, StepOutcome::Continue));
}

#[test]
fn root_with_one_broken_link() {
    let mut engine = Engine::new(String::from("https://ex.com/"), None).unwrap();
    let root = engine.next_to_fetch().expect("root is queued");
    assert_eq!(root, "https://ex.com/");
    let html = String::from(
        "<html><body><a href=\"/a\">a</a><a href=\"/missing\">m</a></body></html>",
    );
    expect_continue(engine.handle_fetch(FetchEvent::Body(html)));

    // depth-first: the later link is popped first
    let second = engine.next_to_fetch().expect("a link is queued");
    assert_eq!(second, "https://ex.com/missing");
    let reported = match engine.handle_fetch(FetchEvent::HttpStatus(404)) {
        StepOutcome::Report(u) => u,
        _ => panic!("a not-found page must be reported"),
    };
    assert_eq!(reported, "https://ex.com/missing");

    let third = engine.next_to_fetch().expect("the other link is queued");
    assert_eq!(third, "https://ex.com/a");
    expect_continue(engine.handle_fetch(FetchEvent::Body(String::from("<p>fine</p>"))));

    assert!(engine.next_to_fetch().is_none());
    let done = engine.finish();
    assert!(matches!(done, ChannelMessage::Done));

    let mut supervisor = Supervisor::new();
    assert!(supervisor.step(SupervisorEvent::Message(ChannelMessage::Found(reported))));
    assert!(!supervisor.step(SupervisorEvent::Message(done)));
    let records = supervisor.into_records();
    assert_eq!(records.len(), 1);
    assert_eq!(records[0].url, "https://ex.com/missing");
    assert!(records[0].title.is_none());
}

#[test]
fn fuzzy_substring_widens_the_scope() {
    let mut engine = Engine::new(String::from("https://ex.com/"), Some(String::from("ex")))
        .unwrap();
    let root = engine.next_to_fetch().unwrap();
    assert_eq!(root, "https://ex.com/");
    let html = String::from("<a href=\"https://mirror-ex.com/x\">mirror</a>");
    expect_continue(engine.handle_fetch(FetchEvent::Body(html)));
    let mirrored = engine.next_to_fetch().expect("fuzzy match keeps the link");
    assert_eq!(mirrored, "https://mirror-ex.com/x");
}

#[test]
fn foreign_domain_is_out_of_scope_without_fuzzy() {
    let mut engine = Engine::new(String::from("https://ex.com/"), None).unwrap();
    engine.next_to_fetch().unwrap();
    let html = String::from("<a href=\"https://mirror-ex.com/x\">m</a>");
    expect_continue(engine.handle_fetch(FetchEvent::Body(html)));
    assert!(engine.next_to_fetch().is_none());
}

#[test]
fn denied_targets_never_reach_the_frontier() {
    let mut engine = Engine::new(String::from("https://ex.com/"), None).unwrap();
    engine.next_to_fetch().unwrap();
    let html = String::from(
        "<a href=\"javascript:void(0)\">x</a><a href=\"#\">y</a>\
         <a href=\"mailto:a@ex.com\">z</a><a href=\"tel:123\">t</a>\
         <a href=\"ftp://ex.com/f\">f</a>",
    );
    expect_continue(engine.handle_fetch(FetchEvent::Body(html)));
    assert!(engine.next_to_fetch().is_none());
}

#[test]
fn rediscovered_url_is_skipped_and_reported_once() {
    let mut engine = Engine::new(String::from("https://ex.com/"), None).unwrap();
    engine.next_to_fetch().unwrap();
    let html = String::from("<a href=\"/dup\">first</a><a href=\"/dup\">second</a>");
    expect_continue(engine.handle_fetch(FetchEvent::Body(html)));

    let first = engine.next_to_fetch().expect("first discovery is fetched");
    assert_eq!(first, "https://ex.com/dup");
    let reported = match engine.handle_fetch(FetchEvent::HttpStatus(404)) {
        StepOutcome::Report(u) => u,
        _ => panic!("a not-found page must be reported"),
    };
    assert_eq!(reported, "https://ex.com/dup");

    // the second discovery is still in the frontier, but it is visited
    // now: it is skipped without a fetch and without a second report
    assert!(engine.next_to_fetch().is_none());
    assert!(matches!(engine.finish(), ChannelMessage::Done));
}

#[test]
fn visited_page_linking_to_itself_is_not_refetched() {
    let mut engine = Engine::new(String::from("https://ex.com/"), None).unwrap();
    let root = engine.next_to_fetch().unwrap();
    let html = String::from("<a href=\"https://ex.com/\">home</a>");
    expect_continue(engine.handle_fetch(FetchEvent::Body(html)));
    // the self-link was queued before the root entered the visited set,
    // so it is popped and discarded by the idempotent skip
    assert!(engine.next_to_fetch().is_none());
    let _ = root;
}

#[test]
fn domainless_link_is_skipped_not_fatal() {
    let mut engine = Engine::new(String::from("https://ex.com/"), None).unwrap();
    engine.next_to_fetch().unwrap();
    let html = String::from("<a href=\"https://127.0.0.1/x\">ip</a><a href=\"/ok\">ok</a>");
    expect_continue(engine.handle_fetch(FetchEvent::Body(html)));
    let kept = engine.next_to_fetch().expect("the in-scope link survives");
    assert_eq!(kept, "https://ex.com/ok");
}

#[test]
fn root_without_domain_is_refused() {
    match Engine::new(String::from("https://127.0.0.1/"), None) {
        Err(CrawlError::NoRootDomain) => {},
        _ => panic!("an IP root has no domain and must be refused"),
    }
}

#[test]
fn unparsable_root_is_refused() {
    match Engine::new(String::from("not a url at all"), None) {
        Err(CrawlError::NoRootDomain) => {},
        _ => panic!("a root that does not parse names no domain"),
    }
}

#[test]
fn two_broken_pages_give_two_records() {
    let mut engine = Engine::new(String::from("https://ex.com/"), None).unwrap();
    engine.next_to_fetch().unwrap();
    let html = String::from("<a href=\"/gone1\">1</a><a href=\"/gone2\">2</a>");
    expect_continue(engine.handle_fetch(FetchEvent::Body(html)));

    let mut supervisor = Supervisor::new();
    while let Some(_url) = engine.next_to_fetch() {
        match engine.handle_fetch(FetchEvent::HttpStatus(404)) {
            StepOutcome::Report(u) => {
                assert!(supervisor.step(SupervisorEvent::Message(ChannelMessage::Found(u))));
            },
            _ => panic!("each page is broken here"),
        }
    }
    assert!(!supervisor.step(SupervisorEvent::Message(engine.finish())));
    let records = supervisor.into_records();
    assert_eq!(records.len(), 2);
    // depth-first: the later link is visited first
    assert_eq!(records[0].url, "https://ex.com/gone2");
    assert_eq!(records[1].url, "https://ex.com/gone1");
}

#[test]
fn unresolvable_link_aborts_the_run() {
    let mut engine = Engine::new(String::from("https://ex.com/"), None).unwrap();
    engine.next_to_fetch().unwrap();
    let html = String::from("<a href=\"https://[bad\">broken</a>");
    match engine.handle_fetch(FetchEvent::Body(html)) {
        StepOutcome::Failed(CrawlError::BadLink(href)) => {
            assert_eq!(href, "https://[bad");
        },
        _ => panic!("an unresolvable link is fatal to the run"),
    }
}

#[test]
fn other_http_status_aborts_the_run() {
    let mut engine = Engine::new(String::from("https://ex.com/"), None).unwrap();
    let root = engine.next_to_fetch().unwrap();
    match engine.handle_fetch(FetchEvent::HttpStatus(500)) {
        StepOutcome::Failed(CrawlError::FetchFailed(url, status)) => {
            assert_eq!(url, root);
            assert_eq!(status, Some(500));
        },
        _ => panic!("a non-404 failure status is fatal to the run"),
    }
}

#[test]
fn network_error_aborts_the_run() {
    let mut engine = Engine::new(String::from("https://ex.com/"), None).unwrap();
    let root = engine.next_to_fetch().unwrap();
    match engine.handle_fetch(FetchEvent::NetworkError) {
        StepOutcome::Failed(CrawlError::FetchFailed(url, status)) => {
            assert_eq!(url, root);
            assert_eq!(status, None);
        },
        _ => panic!("a transport error is fatal to the run"),
    }
}

#[test]
fn links_resolve_against_the_page_not_the_root() {
    let mut engine = Engine::new(String::from("https://ex.com/"), None).unwrap();
    engine.next_to_fetch().unwrap();
    expect_continue(engine.handle_fetch(FetchEvent::Body(String::from(
        "<a href=\"/sub/page\">deep</a>",
    ))));
    let page = engine.next_to_fetch().unwrap();
    assert_eq!(page, "https://ex.com/sub/page");
    expect_continue(engine.handle_fetch(FetchEvent::Body(String::from(
        "<a href=\"sibling\">rel</a>",
    ))));
    let sibling = engine.next_to_fetch().unwrap();
    assert_eq!(sibling, "https://ex.com/sub/sibling");
}
