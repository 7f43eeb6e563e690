use rusty_dash::config::Config;
use rusty_dash::error::{DashError, FailureKind};
use rusty_dash::github::client::{Client, Header, Request, BASE_URL, DELAY};
use rusty_dash::github::link::next_link_of;
use rusty_dash::github::models::PullRequestUrls;
use rusty_dash::github::paging::{replay, FetchFailure, FetchStep, PageFetch, PageResult};
use rusty_dash::github::params::ParameterMap;
use rusty_dash::time::Timestamp;

fn client() -> Client {
    Client::new(&Config {
        db_url: "db".to_string(),
        db_pool_size: 1,
        github_access_token: "SECRET-REDACTED".to_string(),
        github_user_agent: "dash-agent".to_string(),
        github_interval_mins: 1,
        release_interval_mins: 1,
        buildbot_interval_mins: 1,
    })
}

fn header(name: &str, value: &str) -> Header {
    Header { name: name.to_string(), value: value.to_string() }
}

fn headers() -> Vec<Header> {
    vec![
        header("Authorization", "token SECRET-REDACTED"),
        header("User-Agent", "dash-agent"),
        header("Time-Zone", "UTC"),
        header("Accept", "application/vnd.github.v3"),
        header("Connection", "close"),
    ]
}

fn next(page: u32) -> Option<String> {
    Some(format!(
        "<https://api.github.com/r?page={}>; rel=\"next\", <https://api.github.com/r?page=9>; rel=\"last\"",
        page
    ))
}

fn page(items: Vec<u32>, link: Option<String>) -> PageResult<u32> {
    PageResult::Page { items, link }
}

#[test]
fn link_list_names_the_next_page() {
    let h = "<https://api.github.com/repos/a/b/issues?page=2>; rel=\"next\", \
             <https://api.github.com/repos/a/b/issues?page=5>; rel=\"last\"";
    assert_eq!(
        next_link_of(h),
        Some("https://api.github.com/repos/a/b/issues?page=2".to_string())
    );
    let h = "<https://x/1>; rel=\"prev\" ,  <https://x/3>  ;  rel=\"next\"  ";
    assert_eq!(next_link_of(h), Some("https://x/3".to_string()));
    assert_eq!(next_link_of("<<a>>>; rel=\"next\""), Some("a".to_string()));
    assert_eq!(next_link_of("; rel=\"next\""), Some(String::new()));
}

#[test]
fn link_list_without_next_names_nothing() {
    assert_eq!(next_link_of(""), None);
    assert_eq!(next_link_of("garbage"), None);
    assert_eq!(next_link_of("<https://x/1>; rel=\"last\""), None);
    assert_eq!(next_link_of("<https://x/1>; rel=next"), None);
    assert_eq!(next_link_of("<https://x/1>; rel=\"next\"; title=\"t\""), None);
    assert_eq!(next_link_of("<https://x/1> rel=\"next\""), None);
    assert_eq!(next_link_of(",,;,"), None);
    assert_eq!(Client::next_page(&None), None);
    assert_eq!(Client::next_page(&Some("<u>; rel=\"next\"".to_string())), Some("u".to_string()));
}

#[test]
fn first_of_two_next_links_wins() {
    assert_eq!(
        next_link_of("<a>; rel=\"next\", <b>; rel=\"next\""),
        Some("a".to_string())
    );
}

#[test]
fn parameters_stay_in_name_order() {
    let mut m = ParameterMap::new();
    m.insert("state", "all".to_string());
    m.insert("since", "t".to_string());
    m.insert("state", "open".to_string());
    m.insert("per_page", "100".to_string());
    m.insert("direction", "asc".to_string());
    assert_eq!(m.len(), 4);
    let names: Vec<&str> = (0..m.len()).map(|i| m.get(i).name).collect();
    assert_eq!(names, vec!["direction", "per_page", "since", "state"]);
    assert_eq!(m.get(3).value, "open");
}

#[test]
fn request_appends_query_and_headers() {
    let c = client();
    let mut m = ParameterMap::new();
    m.insert("b", "2".to_string());
    m.insert("a", "1".to_string());
    let r = c.request("https://h/p", Some(&m), 7);
    assert_eq!(
        r,
        Request { url: "https://h/p?a=1&b=2".to_string(), headers: headers(), delay_ms: 7 }
    );
    let r = c.request("https://h/p", Some(&ParameterMap::new()), 0);
    assert_eq!(r.url, "https://h/p?");
    let r = c.request("https://h/p", None, 0);
    assert_eq!(r.url, "https://h/p");
}

#[test]
fn issue_listing_request() {
    let c = client();
    let r = c.issues_request("rust-lang/rust", "2016-05-01T00:00:00Z");
    assert_eq!(
        r.url,
        "https://api.github.com/repos/rust-lang/rust/issues?direction=asc&per_page=100&since=2016-05-01T00:00:00Z&sort=updated&state=all"
    );
    assert_eq!(r.headers, headers());
    assert_eq!(r.delay_ms, 0);
    assert_eq!(BASE_URL, "https://api.github.com");
}

#[test]
fn comment_listing_request() {
    let c = client();
    let r = c.comments_request("rust-lang/rust", "2016-05-01T00:00:00Z");
    assert_eq!(
        r.url,
        "https://api.github.com/repos/rust-lang/rust/issues/comments?direction=asc&per_page=100&since=2016-05-01T00:00:00Z&sort=updated"
    );
    assert_eq!(r.delay_ms, 0);
}

#[test]
fn watermark_is_rendered_in_utc() {
    let c = client();
    let start = Timestamp { secs: 1462060800, nanos: 0 };
    assert_eq!(start.render(), Some("2016-05-01T00:00:00Z".to_string()));
    assert_eq!(
        Timestamp { secs: 1462060800, nanos: 500_000_000 }.render(),
        Some("2016-05-01T00:00:00.500Z".to_string())
    );
    assert_eq!(Timestamp { secs: 0, nanos: 0 }.render(), Some("1970-01-01T00:00:00Z".to_string()));
    let r = c.issues_since("o/r", start).unwrap();
    assert_eq!(r, c.issues_request("o/r", "2016-05-01T00:00:00Z"));
    let r = c.comments_since("o/r", start).unwrap();
    assert_eq!(r, c.comments_request("o/r", "2016-05-01T00:00:00Z"));
}

#[test]
fn watermark_outside_the_calendar_gives_no_request() {
    let c = client();
    let start = Timestamp { secs: i64::MAX, nanos: 0 };
    assert_eq!(start.render(), None);
    assert_eq!(c.issues_since("o/r", start), None);
    assert_eq!(c.comments_since("o/r", start), None);
    assert_eq!(Timestamp { secs: 0, nanos: 2_000_000_000 }.render(), None);
}

#[test]
fn pull_request_detail_request() {
    let c = client();
    let stub = PullRequestUrls {
        url: Some("https://api.github.com/repos/o/r/pulls/11".to_string()),
        html_url: None,
        diff_url: None,
        patch_url: None,
    };
    let r = c.fetch_pull_request(&stub).unwrap();
    assert_eq!(r.url, "https://api.github.com/repos/o/r/pulls/11");
    assert_eq!(r.headers, headers());
    let stub = PullRequestUrls {
        url: None,
        html_url: Some("https://github.com/o/r/pull/11".to_string()),
        diff_url: None,
        patch_url: None,
    };
    assert_eq!(c.fetch_pull_request(&stub), Err(DashError::Misc(None)));
}

#[test]
fn pagination_takes_exactly_the_pages_there_are() {
    let c = client();
    let r = replay(
        &c,
        vec![page(vec![1, 2], next(2)), page(vec![3], next(3)), page(vec![4, 5], None)],
    );
    assert_eq!(r.consumed, 3);
    let f = r.fetched.unwrap();
    assert_eq!(f.entities, vec![1, 2, 3, 4, 5]);
    assert_eq!(f.pages, 3);
    assert_eq!(f.failure, None);
    assert_eq!(r.requests.len(), 2);
    assert_eq!(r.requests[0].url, "https://api.github.com/r?page=2");
    assert_eq!(r.requests[1].url, "https://api.github.com/r?page=3");
    assert_eq!(r.requests[0].headers, headers());
}

#[test]
fn pagination_ends_on_a_malformed_link_list() {
    let c = client();
    let r = replay(
        &c,
        vec![
            page(vec![1], next(2)),
            page(vec![2], Some("https://api.github.com/r?page=3 rel=next".to_string())),
            page(vec![3], None),
        ],
    );
    assert_eq!(r.consumed, 2);
    let f = r.fetched.unwrap();
    assert_eq!(f.entities, vec![1, 2]);
    assert_eq!(f.pages, 2);
    assert_eq!(f.failure, None);
}

#[test]
fn empty_first_page_is_a_normal_end() {
    let c = client();
    let r = replay(&c, vec![page(vec![], None)]);
    let f = r.fetched.unwrap();
    assert_eq!(f.entities, Vec::<u32>::new());
    assert_eq!(f.pages, 1);
    assert_eq!(f.failure, None);
    assert_eq!(r.requests.len(), 0);
}

#[test]
fn failed_second_page_keeps_the_first() {
    let c = client();
    let r = replay(
        &c,
        vec![
            page(vec![10, 11], next(2)),
            PageResult::Failed(DashError::Serde("expected value".to_string())),
            page(vec![12], None),
        ],
    );
    assert_eq!(r.consumed, 2);
    let f = r.fetched.unwrap();
    assert_eq!(f.entities, vec![10, 11]);
    assert_eq!(f.pages, 1);
    assert_eq!(
        f.failure,
        Some(FetchFailure {
            kind: FailureKind::DecodeFailure,
            page: 2,
            cause: DashError::Serde("expected value".to_string()),
        })
    );
}

#[test]
fn failed_first_page_yields_nothing() {
    let c = client();
    let r = replay::<u32>(&c, vec![PageResult::Failed(DashError::Hyper("refused".to_string()))]);
    let f = r.fetched.unwrap();
    assert_eq!(f.entities, Vec::<u32>::new());
    assert_eq!(f.pages, 0);
    assert_eq!(
        f.failure,
        Some(FetchFailure {
            kind: FailureKind::TransportFailure,
            page: 1,
            cause: DashError::Hyper("refused".to_string()),
        })
    );
    let r = replay::<u32>(&c, vec![PageResult::Failed(DashError::Io("reset".to_string()))]);
    assert_eq!(r.fetched.unwrap().failure.unwrap().kind, FailureKind::TransportFailure);
}

#[test]
fn three_pages_ask_for_two_delays() {
    let c = client();
    let r = replay(&c, vec![page(vec![1], next(2)), page(vec![2], next(3)), page(vec![3], None)]);
    let waits: Vec<u64> = r.requests.iter().map(|q| q.delay_ms).collect();
    assert_eq!(waits, vec![DELAY, DELAY]);
    assert_eq!(waits.iter().sum::<u64>(), 2 * 300);
}

#[test]
fn outcomes_that_run_out_leave_the_fetch_open() {
    let c = client();
    let r = replay(&c, vec![page(vec![1], next(2))]);
    assert!(r.fetched.is_none());
    assert_eq!(r.consumed, 1);
    assert_eq!(r.requests.len(), 1);
    let r = replay::<u32>(&c, vec![]);
    assert!(r.fetched.is_none());
    assert_eq!(r.consumed, 0);
}

#[test]
fn fetch_advances_step_by_step() {
    let c = client();
    let fetch: PageFetch<u32> = PageFetch::new();
    let fetch = match fetch.receive(&c, page(vec![7], next(2))) {
        FetchStep::Next(fetch, request) => {
            assert_eq!(request.url, "https://api.github.com/r?page=2");
            assert_eq!(request.delay_ms, 300);
            fetch
        }
        FetchStep::Done(_) => panic!("the first page names a second"),
    };
    match fetch.receive(&c, page(vec![8], None)) {
        FetchStep::Done(f) => {
            assert_eq!(f.entities, vec![7, 8]);
            assert_eq!(f.pages, 2);
        }
        FetchStep::Next(_, _) => panic!("the second page names no third"),
    }
}
