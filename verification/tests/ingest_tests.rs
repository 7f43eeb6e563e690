use rusty_dash::config::Config;
use rusty_dash::domain::github::{GitHubUser, IssueComment, IssuePartial, Milestone, PullRequest};
use rusty_dash::error::{DashError, FailureKind};
use rusty_dash::github::client::{Client, Request};
use rusty_dash::github::gather::Gathered;
use rusty_dash::github::memory::MemoryStore;
use rusty_dash::github::models::{
    issue_number, CommentFromJson, IssueFromJson, LabelFromJson, MilestoneFromJson,
    NormalizedComment, NormalizedIssue, NormalizedPullRequest, PullRequestFromJson,
    PullRequestUrls,
};
use rusty_dash::github::paging::PageResult;
use rusty_dash::github::reconcile::{LookupResult, Report};
use rusty_dash::github::record::{Key, Phase, Record};
use rusty_dash::github::users::add_user;
use rusty_dash::github::{
    begin_ingest, ingest_since, IngestFailure, IngestStep, Stage, SyncReport,
};
use rusty_dash::time::Timestamp;
use std::collections::VecDeque;

const REPO: &str = "rust-lang/rust";

fn at(secs: i64) -> Timestamp {
    Timestamp { secs, nanos: 0 }
}

fn client() -> Client {
    Client::new(&Config {
        db_url: "db".to_string(),
        db_pool_size: 1,
        github_access_token: "SECRET-REDACTED".to_string(),
        github_user_agent: "dash-agent".to_string(),
        github_interval_mins: 1,
        release_interval_mins: 1,
        buildbot_interval_mins: 1,
    })
}

fn user(id: i32, login: &str) -> GitHubUser {
    GitHubUser { id, login: login.to_string() }
}

fn wire_milestone(id: i32, creator: GitHubUser) -> MilestoneFromJson {
    MilestoneFromJson {
        id,
        number: 3,
        state: "closed".to_string(),
        title: "1.0".to_string(),
        description: Some("first".to_string()),
        creator,
        open_issues: 0,
        closed_issues: 5,
        created_at: at(10),
        updated_at: at(20),
        closed_at: Some(at(30)),
        due_on: None,
    }
}

fn wire_issue(number: i32, author: GitHubUser) -> IssueFromJson {
    IssueFromJson {
        number,
        user: author,
        assignee: None,
        state: "open".to_string(),
        title: format!("issue {}", number),
        body: Some("text".to_string()),
        locked: false,
        closed_at: None,
        created_at: at(100),
        updated_at: at(200),
        labels: vec![
            LabelFromJson { name: "P-high".to_string(), color: "ff0000".to_string() },
            LabelFromJson { name: "A-lang".to_string(), color: "00ff00".to_string() },
        ],
        milestone: None,
        pull_request: None,
    }
}

fn stub(number: i32) -> PullRequestUrls {
    PullRequestUrls {
        url: Some(detail_url(number)),
        html_url: Some(format!("https://github.com/rust-lang/rust/pull/{}", number)),
        diff_url: None,
        patch_url: None,
    }
}

fn detail_url(number: i32) -> String {
    format!("https://api.github.com/repos/rust-lang/rust/pulls/{}", number)
}

fn wire_comment(id: i32, issue: i32, author: GitHubUser) -> CommentFromJson {
    CommentFromJson {
        id,
        html_url: format!("https://github.com/rust-lang/rust/issues/{}#issuecomment-{}", issue, id),
        body: "a comment".to_string(),
        user: author,
        created_at: at(300),
        updated_at: at(400),
    }
}

fn wire_pull(number: i32) -> PullRequestFromJson {
    PullRequestFromJson {
        number,
        state: "open".to_string(),
        title: format!("pull {}", number),
        body: None,
        assignee: None,
        milestone: None,
        locked: false,
        created_at: at(100),
        updated_at: at(200),
        closed_at: None,
        merged_at: None,
        commits: 3,
        additions: 10,
        deletions: 4,
        changed_files: 2,
    }
}

fn next(url: &str) -> Option<String> {
    Some(format!("<{}>; rel=\"next\"", url))
}

struct Remote {
    issues: VecDeque<PageResult<IssueFromJson>>,
    comments: VecDeque<PageResult<CommentFromJson>>,
    details: VecDeque<Result<PullRequestFromJson, DashError>>,
    requests: Vec<Request>,
}

fn remote(
    issues: Vec<PageResult<IssueFromJson>>,
    comments: Vec<PageResult<CommentFromJson>>,
    details: Vec<Result<PullRequestFromJson, DashError>>,
) -> Remote {
    Remote {
        issues: issues.into(),
        comments: comments.into(),
        details: details.into(),
        requests: Vec::new(),
    }
}

fn drive(mut step: IngestStep, remote: &mut Remote, store: &mut MemoryStore) -> SyncReport {
    loop {
        step = match step {
            IngestStep::FetchIssues(request, pending) => {
                remote.requests.push(request);
                pending.answer(remote.issues.pop_front().expect("an issue page was scripted"))
            }
            IngestStep::FetchComments(request, pending) => {
                remote.requests.push(request);
                pending.answer(remote.comments.pop_front().expect("a comment page was scripted"))
            }
            IngestStep::FetchPullRequest(request, pending) => {
                remote.requests.push(request);
                pending.answer(remote.details.pop_front().expect("a detail was scripted"))
            }
            IngestStep::Lookup(lookup, summary) => {
                let found = store.lookup(&lookup.key());
                summary.resume(lookup.answer(found))
            }
            IngestStep::Write(statement, pending, summary) => {
                let written = store.execute(statement);
                summary.resume(pending.answer(written))
            }
            IngestStep::Finished(report) => return report,
        };
    }
}

fn start() -> IngestStep {
    begin_ingest(client(), REPO.to_string(), "2016-05-01T00:00:00Z".to_string())
}

fn issue_key(number: i32) -> Key {
    Key::Issue { repository: REPO.to_string(), number }
}

fn pull_key(number: i32) -> Key {
    Key::PullRequest { repository: REPO.to_string(), number }
}

#[test]
fn two_issues_one_of_them_a_pull_request() {
    let mut ten = wire_issue(10, user(1, "bob"));
    ten.assignee = Some(user(2, "alice"));
    let mut eleven = wire_issue(11, user(3, "carol"));
    eleven.pull_request = Some(stub(11));
    let mut r = remote(
        vec![PageResult::Page { items: vec![ten, eleven], link: None }],
        vec![PageResult::Page { items: vec![], link: None }],
        vec![Ok(wire_pull(11))],
    );
    let mut store = MemoryStore::new();
    let step =
        ingest_since(client(), REPO.to_string(), Timestamp { secs: 1462060800, nanos: 0 }).unwrap();
    let report = drive(step, &mut r, &mut store);
    assert_eq!(
        report,
        SyncReport {
            issues: 2,
            comments: 0,
            pull_requests: 1,
            fetch_failure: None,
            report: Report { written: 6, failure: None },
        }
    );
    assert_eq!(report.clone().into_result(), Ok(()));
    assert_eq!(store.record(&Key::User(2)), Some(&Record::User(user(2, "alice"))));
    assert_eq!(store.record(&Key::User(1)), Some(&Record::User(user(1, "bob"))));
    assert_eq!(store.record(&Key::User(3)), Some(&Record::User(user(3, "carol"))));
    assert!(store.holds(&issue_key(10)));
    assert!(store.holds(&issue_key(11)));
    assert!(store.holds(&pull_key(11)));
    assert!(!store.holds(&pull_key(10)));
    assert_eq!(store.len(), 6);
    match store.record(&issue_key(11)) {
        Some(Record::Issue(i)) => {
            assert!(i.is_pull_request);
            assert_eq!(i.fk_milestone, None);
        }
        _ => panic!("issue 11 is stored"),
    }
    match store.record(&issue_key(10)) {
        Some(Record::Issue(i)) => {
            assert!(!i.is_pull_request);
            assert_eq!(i.fk_assignee, Some(2));
            assert_eq!(i.fk_user, 1);
        }
        _ => panic!("issue 10 is stored"),
    }
    let urls: Vec<&str> = r.requests.iter().map(|q| q.url.as_str()).collect();
    assert_eq!(
        urls,
        vec![
            "https://api.github.com/repos/rust-lang/rust/issues?direction=asc&per_page=100&since=2016-05-01T00:00:00Z&sort=updated&state=all",
            "https://api.github.com/repos/rust-lang/rust/issues/comments?direction=asc&per_page=100&since=2016-05-01T00:00:00Z&sort=updated",
            "https://api.github.com/repos/rust-lang/rust/pulls/11",
        ]
    );
}

#[test]
fn no_pass_for_a_watermark_outside_the_calendar() {
    assert!(ingest_since(client(), REPO.to_string(), Timestamp { secs: i64::MIN, nanos: 0 }).is_none());
}

#[test]
fn pages_are_followed_with_a_delay() {
    let mut r = remote(
        vec![
            PageResult::Page {
                items: vec![wire_issue(1, user(1, "a"))],
                link: next("https://api.github.com/i?page=2"),
            },
            PageResult::Page { items: vec![wire_issue(2, user(1, "a"))], link: None },
        ],
        vec![
            PageResult::Page {
                items: vec![wire_comment(50, 1, user(2, "b"))],
                link: next("https://api.github.com/c?page=2"),
            },
            PageResult::Page { items: vec![wire_comment(51, 2, user(2, "b"))], link: None },
        ],
        vec![],
    );
    let mut store = MemoryStore::new();
    let report = drive(start(), &mut r, &mut store);
    assert_eq!(report.issues, 2);
    assert_eq!(report.comments, 2);
    assert_eq!(report.fetch_failure, None);
    assert_eq!(report.report, Report { written: 6, failure: None });
    let seen: Vec<(&str, u64)> = r.requests.iter().map(|q| (q.url.as_str(), q.delay_ms)).collect();
    assert_eq!(seen[0].1, 0);
    assert_eq!(seen[1], ("https://api.github.com/i?page=2", 300));
    assert_eq!(seen[2].1, 0);
    assert_eq!(seen[3], ("https://api.github.com/c?page=2", 300));
    match store.record(&Key::Comment(51)) {
        Some(Record::Comment(c)) => assert_eq!(c.fk_issue, 2),
        _ => panic!("comment 51 is stored"),
    }
}

#[test]
fn failed_issue_page_ends_fetching_and_writes_earlier_pages() {
    let mut r = remote(
        vec![
            PageResult::Page {
                items: vec![wire_issue(1, user(1, "a"))],
                link: next("https://api.github.com/i?page=2"),
            },
            PageResult::Failed(DashError::Serde("eof".to_string())),
        ],
        vec![],
        vec![],
    );
    let mut store = MemoryStore::new();
    let report = drive(start(), &mut r, &mut store);
    assert_eq!(
        report,
        SyncReport {
            issues: 1,
            comments: 0,
            pull_requests: 0,
            fetch_failure: Some(IngestFailure {
                stage: Stage::Issues,
                kind: FailureKind::DecodeFailure,
                page: 2,
                cause: DashError::Serde("eof".to_string()),
            }),
            report: Report { written: 2, failure: None },
        }
    );
    assert_eq!(report.into_result(), Err(DashError::Serde("eof".to_string())));
    assert!(store.holds(&issue_key(1)));
    assert_eq!(r.requests.len(), 2);
}

#[test]
fn failed_first_issue_page_writes_nothing() {
    let mut r = remote(vec![PageResult::Failed(DashError::Hyper("down".to_string()))], vec![], vec![]);
    let mut store = MemoryStore::new();
    let report = drive(start(), &mut r, &mut store);
    assert_eq!(report.issues, 0);
    assert_eq!(report.report, Report { written: 0, failure: None });
    let failure = report.fetch_failure.unwrap();
    assert_eq!(failure.stage, Stage::Issues);
    assert_eq!(failure.kind, FailureKind::TransportFailure);
    assert_eq!(failure.page, 1);
    assert_eq!(store.len(), 0);
}

#[test]
fn failed_comment_page_skips_details_and_writes_what_was_fetched() {
    let mut pr = wire_issue(2, user(1, "a"));
    pr.pull_request = Some(stub(2));
    let mut r = remote(
        vec![PageResult::Page { items: vec![wire_issue(1, user(1, "a")), pr], link: None }],
        vec![
            PageResult::Page {
                items: vec![wire_comment(50, 1, user(2, "b"))],
                link: next("https://api.github.com/c?page=2"),
            },
            PageResult::Failed(DashError::Io("reset".to_string())),
        ],
        vec![],
    );
    let mut store = MemoryStore::new();
    let report = drive(start(), &mut r, &mut store);
    assert_eq!(report.issues, 2);
    assert_eq!(report.comments, 1);
    assert_eq!(report.pull_requests, 0);
    let failure = report.fetch_failure.unwrap();
    assert_eq!(failure.stage, Stage::Comments);
    assert_eq!(failure.kind, FailureKind::TransportFailure);
    assert_eq!(failure.page, 2);
    assert_eq!(report.report, Report { written: 5, failure: None });
    assert!(store.holds(&Key::Comment(50)));
    assert!(!store.holds(&pull_key(2)));
}

#[test]
fn comment_without_issue_number_fails_its_page() {
    let mut bad = wire_comment(51, 1, user(2, "b"));
    bad.html_url = "https://github.com/rust-lang/rust/issues/".to_string();
    let mut r = remote(
        vec![PageResult::Page { items: vec![wire_issue(1, user(1, "a"))], link: None }],
        vec![PageResult::Page { items: vec![wire_comment(50, 1, user(2, "b")), bad], link: None }],
        vec![],
    );
    let mut store = MemoryStore::new();
    let report = drive(start(), &mut r, &mut store);
    assert_eq!(report.comments, 0);
    assert_eq!(
        report.fetch_failure,
        Some(IngestFailure {
            stage: Stage::Comments,
            kind: FailureKind::DecodeFailure,
            page: 1,
            cause: DashError::Serde("comment address names no issue".to_string()),
        })
    );
    assert_eq!(report.report, Report { written: 2, failure: None });
}

#[test]
fn failed_detail_stops_further_details_only() {
    let mut a = wire_issue(1, user(1, "a"));
    a.pull_request = Some(stub(1));
    let mut b = wire_issue(2, user(1, "a"));
    b.pull_request = Some(stub(2));
    let mut c = wire_issue(3, user(1, "a"));
    c.pull_request = Some(stub(3));
    let mut r = remote(
        vec![PageResult::Page { items: vec![a, wire_issue(9, user(1, "a")), b, c], link: None }],
        vec![PageResult::Page { items: vec![wire_comment(50, 9, user(2, "b"))], link: None }],
        vec![Ok(wire_pull(1)), Err(DashError::Hyper("timeout".to_string())), Ok(wire_pull(3))],
    );
    let mut store = MemoryStore::new();
    let report = drive(start(), &mut r, &mut store);
    assert_eq!(report.issues, 4);
    assert_eq!(report.comments, 1);
    assert_eq!(report.pull_requests, 1);
    assert_eq!(
        report.fetch_failure,
        Some(IngestFailure {
            stage: Stage::PullRequests,
            kind: FailureKind::TransportFailure,
            page: 2,
            cause: DashError::Hyper("timeout".to_string()),
        })
    );
    assert_eq!(report.report, Report { written: 8, failure: None });
    assert!(store.holds(&pull_key(1)));
    assert!(!store.holds(&pull_key(2)));
    assert!(!store.holds(&pull_key(3)));
    assert!(store.holds(&issue_key(3)));
    assert_eq!(r.details.len(), 1);
    let details: Vec<&str> = r.requests[2..].iter().map(|q| q.url.as_str()).collect();
    assert_eq!(details, vec![detail_url(1), detail_url(2)]);
}

#[test]
fn stub_without_detail_link_ends_the_detail_phase() {
    let mut a = wire_issue(1, user(1, "a"));
    a.pull_request = Some(stub(1));
    let mut b = wire_issue(2, user(1, "a"));
    b.pull_request = Some(PullRequestUrls { url: None, html_url: None, diff_url: None, patch_url: None });
    let mut c = wire_issue(3, user(1, "a"));
    c.pull_request = Some(stub(3));
    let mut r = remote(
        vec![PageResult::Page { items: vec![a, b, c], link: None }],
        vec![PageResult::Page { items: vec![], link: None }],
        vec![Ok(wire_pull(1)), Ok(wire_pull(3))],
    );
    let mut store = MemoryStore::new();
    let report = drive(start(), &mut r, &mut store);
    assert_eq!(report.pull_requests, 1);
    assert_eq!(
        report.fetch_failure,
        Some(IngestFailure {
            stage: Stage::PullRequests,
            kind: FailureKind::MissingDetailURL,
            page: 2,
            cause: DashError::Misc(None),
        })
    );
    assert_eq!(report.report, Report { written: 5, failure: None });
    assert_eq!(r.requests.len(), 3);
    assert_eq!(report.into_result(), Err(DashError::Misc(None)));
}

#[test]
fn rejected_write_is_reported_after_a_complete_fetch() {
    let mut r = remote(
        vec![PageResult::Page { items: vec![wire_issue(1, user(1, "a"))], link: None }],
        vec![PageResult::Page { items: vec![wire_comment(50, 77, user(2, "b"))], link: None }],
        vec![],
    );
    let mut store = MemoryStore::new();
    let report = drive(start(), &mut r, &mut store);
    assert_eq!(report.fetch_failure, None);
    assert_eq!(report.report.written, 3);
    let failure = report.report.failure.clone().unwrap();
    assert_eq!(failure.kind, FailureKind::PersistFailure);
    assert_eq!(failure.phase, Phase::Comments);
    assert_eq!(failure.key, Key::Comment(50));
    assert!(matches!(report.into_result(), Err(DashError::DieselError(_))));
}

#[test]
fn second_pass_over_the_same_pages_changes_nothing() {
    let pages = || {
        let mut ten = wire_issue(10, user(1, "bob"));
        ten.assignee = Some(user(2, "alice"));
        ten.milestone = Some(wire_milestone(5, user(4, "dave")));
        let mut eleven = wire_issue(11, user(3, "carol"));
        eleven.pull_request = Some(stub(11));
        remote(
            vec![PageResult::Page { items: vec![ten, eleven], link: None }],
            vec![PageResult::Page { items: vec![wire_comment(50, 10, user(3, "carol"))], link: None }],
            vec![Ok(wire_pull(11))],
        )
    };
    let keys = vec![
        Key::User(1),
        Key::User(2),
        Key::User(3),
        Key::User(4),
        Key::Milestone(5),
        issue_key(10),
        issue_key(11),
        Key::Comment(50),
        pull_key(11),
    ];
    let mut store = MemoryStore::new();
    let first = drive(start(), &mut pages(), &mut store);
    assert_eq!(first.report, Report { written: 9, failure: None });
    let before: Vec<(Option<Record>, LookupResult)> =
        keys.iter().map(|k| (store.record(k).cloned(), store.lookup(k))).collect();
    assert!(before.iter().all(|(r, _)| r.is_some()));
    let second = drive(start(), &mut pages(), &mut store);
    assert_eq!(second, first);
    assert_eq!(store.len(), 9);
    let after: Vec<(Option<Record>, LookupResult)> =
        keys.iter().map(|k| (store.record(k).cloned(), store.lookup(k))).collect();
    assert_eq!(after, before);
}

#[test]
fn issue_is_normalised_with_its_sub_records() {
    let mut wire = wire_issue(7, user(1, "bob"));
    wire.assignee = Some(user(2, "alice"));
    wire.milestone = Some(wire_milestone(5, user(4, "dave")));
    wire.pull_request = Some(stub(7));
    wire.state = "closed".to_string();
    wire.body = None;
    wire.closed_at = Some(at(500));
    let n = wire.with_repo(REPO);
    assert_eq!(
        n,
        NormalizedIssue {
            issue: IssuePartial {
                number: 7,
                fk_milestone: Some(5),
                fk_user: 1,
                fk_assignee: Some(2),
                open: false,
                is_pull_request: true,
                title: "issue 7".to_string(),
                body: String::new(),
                locked: false,
                closed_at: Some(at(500)),
                created_at: at(100),
                updated_at: at(200),
                labels: vec!["P-high".to_string(), "A-lang".to_string()],
                repository: REPO.to_string(),
            },
            author: user(1, "bob"),
            assignee: Some(user(2, "alice")),
            milestone: Some(Milestone {
                id: 5,
                number: 3,
                open: false,
                title: "1.0".to_string(),
                description: Some("first".to_string()),
                fk_creator: 4,
                open_issues: 0,
                closed_issues: 5,
                created_at: at(10),
                updated_at: at(20),
                closed_at: Some(at(30)),
                due_on: None,
                repository: REPO.to_string(),
            }),
            milestone_creator: Some(user(4, "dave")),
            pull_request: Some(stub(7)),
        }
    );
    let plain = wire_issue(8, user(1, "bob")).with_repo(REPO);
    assert!(plain.issue.open);
    assert!(!plain.issue.is_pull_request);
    assert_eq!(plain.issue.body, "text");
    assert_eq!(plain.milestone, None);
    assert_eq!(plain.milestone_creator, None);
    assert_eq!(plain.pull_request, None);
    let mut m = wire_milestone(6, user(4, "dave"));
    m.state = "open".to_string();
    assert!(m.with_repo(REPO).0.open);
}

#[test]
fn comment_is_normalised_with_its_issue_number() {
    let n = wire_comment(50, 1234, user(2, "b")).with_repo(REPO).unwrap();
    assert_eq!(
        n,
        NormalizedComment {
            comment: IssueComment {
                id: 50,
                fk_issue: 1234,
                fk_user: 2,
                body: "a comment".to_string(),
                created_at: at(300),
                updated_at: at(400),
                repository: REPO.to_string(),
            },
            author: user(2, "b"),
        }
    );
    let mut bad = wire_comment(50, 1, user(2, "b"));
    bad.html_url = "https://github.com/rust-lang/rust/issues/abc#issuecomment-5".to_string();
    assert_eq!(bad.with_repo(REPO), None);
}

#[test]
fn issue_numbers_in_addresses() {
    assert_eq!(issue_number("https://github.com/o/r/issues/12#issuecomment-99"), Some(12));
    assert_eq!(issue_number("https://github.com/o/r/pull/7#issuecomment-1"), Some(7));
    assert_eq!(issue_number("https://github.com/o/r/issues/12"), Some(12));
    assert_eq!(issue_number("12"), Some(12));
    assert_eq!(issue_number("https://github.com/o/r/issues/12/#x"), None);
    assert_eq!(issue_number("https://github.com/o/r/issues/#12"), None);
    assert_eq!(issue_number("#5"), None);
    assert_eq!(issue_number(""), None);
    assert_eq!(issue_number("a/2147483647#b#c/9"), Some(i32::MAX));
    assert_eq!(issue_number("a/2147483648"), None);
    assert_eq!(issue_number("a/-3"), None);
}

#[test]
fn pull_request_is_normalised_with_its_assignee() {
    let mut wire = wire_pull(11);
    wire.assignee = Some(user(2, "alice"));
    wire.milestone = Some(wire_milestone(5, user(4, "dave")));
    wire.body = Some("why".to_string());
    wire.merged_at = Some(at(900));
    let n = wire.with_repo(REPO);
    assert_eq!(
        n,
        NormalizedPullRequest {
            pull_request: PullRequest {
                number: 11,
                state: "open".to_string(),
                title: "pull 11".to_string(),
                body: Some("why".to_string()),
                fk_assignee: Some(2),
                fk_milestone: Some(5),
                locked: false,
                created_at: at(100),
                updated_at: at(200),
                closed_at: None,
                merged_at: Some(at(900)),
                commits: 3,
                additions: 10,
                deletions: 4,
                changed_files: 2,
                repository: REPO.to_string(),
            },
            assignee: Some(user(2, "alice")),
        }
    );
}

#[test]
fn user_set_is_ordered_and_without_repetition() {
    let mut set = Vec::new();
    for (id, login) in [(5, "e"), (1, "b"), (5, "e"), (3, "c"), (1, "a"), (1, "b"), (9, "z"), (3, "c")] {
        add_user(&mut set, user(id, login));
    }
    assert_eq!(set, vec![user(1, "a"), user(1, "b"), user(3, "c"), user(5, "e"), user(9, "z")]);
    let mut expected = set.clone();
    expected.sort();
    expected.dedup();
    assert_eq!(set, expected);
}

#[test]
fn batch_holds_every_named_user_once() {
    let mut ten = wire_issue(10, user(1, "bob"));
    ten.assignee = Some(user(2, "alice"));
    ten.milestone = Some(wire_milestone(5, user(4, "dave")));
    let eleven = wire_issue(11, user(2, "alice"));
    let mut pull = wire_pull(11);
    pull.assignee = Some(user(7, "eve"));
    let gathered = Gathered {
        issues: vec![ten.with_repo(REPO), eleven.with_repo(REPO)],
        comments: vec![
            wire_comment(50, 10, user(4, "dave")).with_repo(REPO).unwrap(),
            wire_comment(51, 10, user(6, "frank")).with_repo(REPO).unwrap(),
        ],
        pull_requests: vec![pull.with_repo(REPO)],
    };
    let batch = gathered.into_batch();
    assert_eq!(
        batch.users,
        vec![user(1, "bob"), user(2, "alice"), user(4, "dave"), user(6, "frank"), user(7, "eve")]
    );
    assert_eq!(batch.milestones.len(), 1);
    assert_eq!(batch.milestones[0].id, 5);
    assert_eq!(batch.milestones[0].fk_creator, 4);
    let numbers: Vec<i32> = batch.issues.iter().map(|i| i.number).collect();
    assert_eq!(numbers, vec![10, 11]);
    let ids: Vec<i32> = batch.comments.iter().map(|c| c.id).collect();
    assert_eq!(ids, vec![50, 51]);
    assert_eq!(batch.pull_requests.len(), 1);
    assert_eq!(batch.pull_requests[0].fk_assignee, Some(7));
}
