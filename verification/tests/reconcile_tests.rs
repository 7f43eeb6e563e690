use rusty_dash::domain::github::{
    GitHubUser, Issue, IssueComment, IssuePartial, Milestone, PullRequest,
};
use rusty_dash::error::{DashError, FailureKind};
use rusty_dash::github::memory::{reconcile, MemoryStore};
use rusty_dash::github::reconcile::{
    begin, Batch, LookupResult, ReconcileFailure, Report, Statement, Step, WriteResult,
};
use rusty_dash::github::record::{Key, Phase, Record, Row};
use rusty_dash::time::Timestamp;

const REPO: &str = "rust-lang/rust";

fn at(secs: i64) -> Timestamp {
    Timestamp { secs, nanos: 0 }
}

fn user(id: i32, login: &str) -> GitHubUser {
    GitHubUser { id, login: login.to_string() }
}

fn milestone(id: i32, creator: i32) -> Milestone {
    Milestone {
        id,
        number: id,
        open: true,
        title: format!("milestone {}", id),
        description: None,
        fk_creator: creator,
        open_issues: 1,
        closed_issues: 0,
        created_at: at(1),
        updated_at: at(2),
        closed_at: None,
        due_on: None,
        repository: REPO.to_string(),
    }
}

fn issue(number: i32, author: i32, title: &str) -> IssuePartial {
    IssuePartial {
        number,
        fk_milestone: None,
        fk_user: author,
        fk_assignee: None,
        open: true,
        is_pull_request: false,
        title: title.to_string(),
        body: String::new(),
        locked: false,
        closed_at: None,
        created_at: at(1),
        updated_at: at(2),
        labels: vec!["A-lang".to_string(), "P-high".to_string()],
        repository: REPO.to_string(),
    }
}

fn comment(id: i32, issue: i32, author: i32) -> IssueComment {
    IssueComment {
        id,
        fk_issue: issue,
        fk_user: author,
        body: "@bors retry".to_string(),
        created_at: at(3),
        updated_at: at(3),
        repository: REPO.to_string(),
    }
}

fn pull_request(number: i32) -> PullRequest {
    PullRequest {
        number,
        state: "open".to_string(),
        title: "a change".to_string(),
        body: None,
        fk_assignee: None,
        fk_milestone: None,
        locked: false,
        created_at: at(1),
        updated_at: at(2),
        closed_at: None,
        merged_at: None,
        commits: 1,
        additions: 2,
        deletions: 3,
        changed_files: 4,
        repository: REPO.to_string(),
    }
}

fn issue_key(number: i32) -> Key {
    Key::Issue { repository: REPO.to_string(), number }
}

fn pull_key(number: i32) -> Key {
    Key::PullRequest { repository: REPO.to_string(), number }
}

fn empty() -> Batch {
    Batch { users: vec![], milestones: vec![], issues: vec![], comments: vec![], pull_requests: vec![] }
}

fn full_batch() -> Batch {
    let mut with_refs = issue(7, 1, "with everything");
    with_refs.fk_assignee = Some(2);
    with_refs.fk_milestone = Some(30);
    let mut pr = pull_request(8);
    pr.fk_assignee = Some(2);
    Batch {
        users: vec![user(1, "author"), user(2, "assignee"), user(3, "creator")],
        milestones: vec![milestone(30, 3)],
        issues: vec![with_refs, issue(8, 1, "a pull request")],
        comments: vec![comment(100, 7, 2), comment(101, 8, 1)],
        pull_requests: vec![pr],
    }
}

fn snapshot(store: &MemoryStore, keys: &[Key]) -> Vec<(Option<Record>, LookupResult)> {
    keys.iter().map(|k| (store.record(k).cloned(), store.lookup(k))).collect()
}

fn all_keys() -> Vec<Key> {
    vec![
        Key::User(1),
        Key::User(2),
        Key::User(3),
        Key::Milestone(30),
        issue_key(7),
        issue_key(8),
        Key::Comment(100),
        Key::Comment(101),
        pull_key(8),
    ]
}

#[test]
fn a_batch_with_its_references_is_written_in_full() {
    let mut store = MemoryStore::new();
    let report = reconcile(full_batch(), &mut store);
    assert_eq!(report, Report { written: 9, failure: None });
    assert_eq!(store.len(), 9);
    for key in all_keys() {
        assert!(store.holds(&key));
    }
    assert_eq!(store.lookup(&issue_key(7)), LookupResult::Found { id: 1 });
    assert_eq!(store.lookup(&issue_key(8)), LookupResult::Found { id: 2 });
    assert_eq!(store.lookup(&Key::User(2)), LookupResult::Found { id: 2 });
    assert_eq!(store.lookup(&pull_key(8)), LookupResult::Found { id: 8 });
    assert_eq!(store.lookup(&pull_key(7)), LookupResult::Missing);
}

#[test]
fn reconciling_twice_changes_nothing() {
    let mut store = MemoryStore::new();
    let first = reconcile(full_batch(), &mut store);
    let before = snapshot(&store, &all_keys());
    let count = store.len();
    let second = reconcile(full_batch(), &mut store);
    assert_eq!(first, second);
    assert_eq!(store.len(), count);
    assert_eq!(snapshot(&store, &all_keys()), before);
}

#[test]
fn reconciling_twice_changes_nothing_after_a_failure() {
    let mut batch = full_batch();
    batch.comments.insert(1, comment(102, 999, 1));
    let again = batch.clone();
    let mut store = MemoryStore::new();
    let first = reconcile(batch, &mut store);
    assert_eq!(first.written, 7);
    let failure = first.failure.clone().unwrap();
    assert_eq!(failure.kind, FailureKind::PersistFailure);
    assert_eq!(failure.phase, Phase::Comments);
    assert_eq!(failure.key, Key::Comment(102));
    let before = snapshot(&store, &all_keys());
    let second = reconcile(again, &mut store);
    assert_eq!(second, first);
    assert_eq!(store.len(), 7);
    assert_eq!(snapshot(&store, &all_keys()), before);
    assert!(!store.holds(&Key::Comment(101)));
    assert!(!store.holds(&pull_key(8)));
}

#[test]
fn same_issue_number_is_one_row_with_the_latest_title() {
    let mut store = MemoryStore::new();
    let mut batch = empty();
    batch.users.push(user(1, "author"));
    batch.issues.push(issue(42, 1, "first title"));
    assert_eq!(reconcile(batch, &mut store), Report { written: 2, failure: None });
    let id = store.lookup(&issue_key(42));
    assert_eq!(id, LookupResult::Found { id: 1 });
    let mut batch = empty();
    batch.issues.push(issue(42, 1, "second title"));
    assert_eq!(reconcile(batch, &mut store), Report { written: 1, failure: None });
    assert_eq!(store.len(), 2);
    assert_eq!(store.lookup(&issue_key(42)), id);
    assert_eq!(store.record(&issue_key(42)), Some(&Record::Issue(issue(42, 1, "second title"))));
}

#[test]
fn same_number_in_another_repository_is_another_row() {
    let mut store = MemoryStore::new();
    let mut other = issue(42, 1, "elsewhere");
    other.repository = "rust-lang/cargo".to_string();
    let mut batch = empty();
    batch.users.push(user(1, "author"));
    batch.issues.push(issue(42, 1, "here"));
    batch.issues.push(other);
    assert_eq!(reconcile(batch, &mut store).written, 3);
    assert_eq!(store.len(), 3);
    assert_eq!(store.lookup(&issue_key(42)), LookupResult::Found { id: 1 });
    assert_eq!(
        store.lookup(&Key::Issue { repository: "rust-lang/cargo".to_string(), number: 42 }),
        LookupResult::Found { id: 2 }
    );
}

#[test]
fn an_issue_is_rejected_while_its_user_or_milestone_is_missing() {
    let mut wanted = issue(7, 1, "needs both");
    wanted.fk_milestone = Some(30);
    let mut store = MemoryStore::new();
    let insert = Statement::Insert(Record::Issue(wanted.clone()));
    assert_eq!(
        store.execute(insert.clone()),
        WriteResult::Failed(DashError::DieselError("foreign key violation".to_string()))
    );
    assert_eq!(store.execute(Statement::Insert(Record::User(user(1, "a")))), WriteResult::Written);
    assert!(matches!(store.execute(insert.clone()), WriteResult::Failed(_)));
    assert!(matches!(
        store.execute(Statement::Insert(Record::Milestone(milestone(30, 3)))),
        WriteResult::Failed(_)
    ));
    assert_eq!(store.execute(Statement::Insert(Record::User(user(3, "c")))), WriteResult::Written);
    assert_eq!(
        store.execute(Statement::Insert(Record::Milestone(milestone(30, 3)))),
        WriteResult::Written
    );
    assert_eq!(store.execute(insert.clone()), WriteResult::Written);
    assert_eq!(
        store.execute(insert),
        WriteResult::Failed(DashError::DieselError("duplicate key".to_string()))
    );
    assert_eq!(store.len(), 4);
}

#[test]
fn failed_write_ends_the_pass_and_keeps_what_was_written() {
    let mut batch = full_batch();
    batch.users.remove(2);
    let mut store = MemoryStore::new();
    let report = reconcile(batch, &mut store);
    assert_eq!(report.written, 2);
    let failure = report.failure.unwrap();
    assert_eq!(failure.kind, FailureKind::PersistFailure);
    assert_eq!(failure.phase, Phase::Milestones);
    assert_eq!(failure.key, Key::Milestone(30));
    assert_eq!(store.len(), 2);
    assert!(store.holds(&Key::User(1)));
    assert!(store.holds(&Key::User(2)));
    assert!(!store.holds(&issue_key(7)));
    assert!(!store.holds(&issue_key(8)));
}

fn written_kinds(batch: Batch, store: &mut MemoryStore) -> (Vec<Phase>, Report) {
    let mut phases = Vec::new();
    let mut step = begin(batch);
    loop {
        step = match step {
            Step::Lookup(lookup) => {
                let found = store.lookup(&lookup.key());
                lookup.answer(found)
            }
            Step::Write(statement, pending) => {
                let phase = match &statement {
                    Statement::Insert(r) => r.phase(),
                    Statement::Update(Row::User(_)) => Phase::Users,
                    Statement::Update(Row::Milestone(_)) => Phase::Milestones,
                    Statement::Update(Row::Issue(_)) => Phase::Issues,
                    Statement::Update(Row::Comment(_)) => Phase::Comments,
                    Statement::Update(Row::PullRequest(_)) => Phase::PullRequests,
                };
                phases.push(phase);
                let result = store.execute(statement);
                pending.answer(result)
            }
            Step::Finished(report) => return (phases, report),
        };
    }
}

fn rotate<T>(v: &mut Vec<T>, by: usize) {
    if !v.is_empty() {
        let k = by % v.len();
        v.rotate_left(k);
    }
}

#[test]
fn every_order_within_a_phase_is_free_of_violations() {
    for seed in 0..24usize {
        let mut batch = full_batch();
        rotate(&mut batch.users, seed);
        rotate(&mut batch.issues, seed / 3);
        rotate(&mut batch.comments, seed / 6);
        if seed % 2 == 1 {
            batch.users.reverse();
            batch.comments.reverse();
        }
        let mut store = MemoryStore::new();
        let (phases, report) = written_kinds(batch, &mut store);
        assert_eq!(report, Report { written: 9, failure: None });
        assert_eq!(
            phases,
            vec![
                Phase::Users,
                Phase::Users,
                Phase::Users,
                Phase::Milestones,
                Phase::Issues,
                Phase::Issues,
                Phase::Comments,
                Phase::Comments,
                Phase::PullRequests,
            ]
        );
        assert_eq!(store.len(), 9);
    }
}

#[test]
fn writing_issues_before_users_is_rejected() {
    let batch = full_batch();
    let mut store = MemoryStore::new();
    for i in batch.issues.iter() {
        assert!(matches!(
            store.execute(Statement::Insert(Record::Issue(i.clone()))),
            WriteResult::Failed(_)
        ));
    }
    assert_eq!(store.len(), 0);
}

#[test]
fn found_records_are_updated_and_missing_ones_inserted() {
    let mut batch = empty();
    batch.users.push(user(1, "author"));
    batch.issues.push(issue(5, 1, "t"));
    let step = begin(batch);
    let lookup = match step {
        Step::Lookup(l) => l,
        _ => panic!("a batch with records starts with a lookup"),
    };
    assert_eq!(lookup.key(), Key::User(1));
    let pending = match lookup.answer(LookupResult::Missing) {
        Step::Write(statement, pending) => {
            assert_eq!(statement, Statement::Insert(Record::User(user(1, "author"))));
            assert_eq!(statement.key(), Key::User(1));
            pending
        }
        _ => panic!("a missing record is inserted"),
    };
    let lookup = match pending.answer(WriteResult::Written) {
        Step::Lookup(l) => l,
        _ => panic!("the issue is next"),
    };
    assert_eq!(lookup.key(), issue_key(5));
    let pending = match lookup.answer(LookupResult::Found { id: 77 }) {
        Step::Write(statement, pending) => {
            let expected: Issue = issue(5, 1, "t").complete(77);
            assert_eq!(statement, Statement::Update(Row::Issue(expected)));
            pending
        }
        _ => panic!("a found record is updated"),
    };
    match pending.answer(WriteResult::Written) {
        Step::Finished(report) => assert_eq!(report, Report { written: 2, failure: None }),
        _ => panic!("nothing is left"),
    }
}

#[test]
fn failed_lookup_ends_the_pass() {
    let mut batch = empty();
    batch.users.push(user(1, "author"));
    batch.users.push(user(2, "other"));
    let lookup = match begin(batch) {
        Step::Lookup(l) => l,
        _ => panic!("a batch with records starts with a lookup"),
    };
    let cause = DashError::R2d2Timeout("no connection".to_string());
    match lookup.answer(LookupResult::Failed(cause.clone())) {
        Step::Finished(report) => assert_eq!(
            report,
            Report {
                written: 0,
                failure: Some(ReconcileFailure {
                    kind: FailureKind::LookupFailure,
                    phase: Phase::Users,
                    key: Key::User(1),
                    cause,
                }),
            }
        ),
        _ => panic!("a failed lookup ends the pass"),
    }
}

#[test]
fn failed_write_is_reported_with_phase_and_key() {
    let mut batch = empty();
    batch.pull_requests.push(pull_request(9));
    let lookup = match begin(batch) {
        Step::Lookup(l) => l,
        _ => panic!("a batch with records starts with a lookup"),
    };
    let pending = match lookup.answer(LookupResult::Missing) {
        Step::Write(_, pending) => pending,
        _ => panic!("a missing record is inserted"),
    };
    let cause = DashError::DieselError("violates foreign key".to_string());
    match pending.answer(WriteResult::Failed(cause.clone())) {
        Step::Finished(report) => assert_eq!(
            report,
            Report {
                written: 0,
                failure: Some(ReconcileFailure {
                    kind: FailureKind::PersistFailure,
                    phase: Phase::PullRequests,
                    key: pull_key(9),
                    cause,
                }),
            }
        ),
        _ => panic!("a failed write ends the pass"),
    }
}

#[test]
fn empty_batch_finishes_at_once() {
    match begin(empty()) {
        Step::Finished(report) => assert_eq!(report, Report { written: 0, failure: None }),
        _ => panic!("nothing to write"),
    }
    let mut store = MemoryStore::new();
    assert_eq!(reconcile(empty(), &mut store), Report { written: 0, failure: None });
    assert_eq!(store.len(), 0);
}

#[test]
fn update_of_a_missing_row_changes_nothing() {
    let mut store = MemoryStore::new();
    assert_eq!(
        store.execute(Statement::Update(Row::User(user(1, "ghost")))),
        WriteResult::Written
    );
    assert_eq!(store.len(), 0);
    assert_eq!(store.record(&Key::User(1)), None);
}

#[test]
fn update_keeps_the_storage_identifier() {
    let mut store = MemoryStore::new();
    store.execute(Statement::Insert(Record::User(user(1, "a"))));
    store.execute(Statement::Insert(Record::Issue(issue(5, 1, "old"))));
    let changed = issue(5, 1, "new").complete(999);
    assert_eq!(store.execute(Statement::Update(Row::Issue(changed))), WriteResult::Written);
    assert_eq!(store.lookup(&issue_key(5)), LookupResult::Found { id: 1 });
    assert_eq!(store.record(&issue_key(5)), Some(&Record::Issue(issue(5, 1, "new"))));
}

#[test]
fn keys_and_references_of_records() {
    let mut i = issue(7, 1, "t");
    i.fk_assignee = Some(2);
    i.fk_milestone = Some(30);
    let r = Record::Issue(i);
    assert_eq!(r.key(), issue_key(7));
    assert_eq!(r.phase(), Phase::Issues);
    assert_eq!(r.references(), vec![Key::User(1), Key::User(2), Key::Milestone(30)]);
    assert!(r.has_key(&issue_key(7)));
    assert!(!r.has_key(&issue_key(8)));
    assert!(!r.has_key(&pull_key(7)));
    let r = Record::Comment(comment(100, 7, 2));
    assert_eq!(r.references(), vec![issue_key(7), Key::User(2)]);
    let r = Record::Milestone(milestone(30, 3));
    assert_eq!(r.references(), vec![Key::User(3)]);
    let r = Record::PullRequest(pull_request(8));
    assert_eq!(r.references(), vec![issue_key(8)]);
    assert_eq!(r.key(), pull_key(8));
    let r = Record::User(user(1, "a"));
    assert_eq!(r.references(), Vec::<Key>::new());
    assert!(Key::User(1).same(&Key::User(1)));
    assert!(!Key::User(1).same(&Key::Milestone(1)));
    assert!(!issue_key(1).same(&pull_key(1)));
    assert_eq!(pull_key(1).duplicate(), pull_key(1));
    assert_eq!(Key::Comment(4).phase(), Phase::Comments);
}

#[test]
fn rows_split_into_record_and_identifier() {
    let row = Row::Issue(issue(5, 1, "t").complete(12));
    assert_eq!(row.id(), 12);
    assert_eq!(row.key(), issue_key(5));
    assert_eq!(row.into_record(), (Record::Issue(issue(5, 1, "t")), 12));
    assert_eq!(Record::Issue(issue(5, 1, "t")).into_row(12), Row::Issue(issue(5, 1, "t").complete(12)));
    assert_eq!(Row::PullRequest(pull_request(8)).id(), 8);
    assert_eq!(Row::User(user(3, "c")).into_record(), (Record::User(user(3, "c")), 3));
}

#[test]
fn complete_carries_every_field() {
    let mut partial = issue(5, 1, "title");
    partial.fk_milestone = Some(3);
    partial.fk_assignee = Some(4);
    partial.closed_at = Some(at(9));
    partial.body = "body".to_string();
    partial.locked = true;
    partial.is_pull_request = true;
    partial.open = false;
    let done = partial.clone().complete(17);
    assert_eq!(
        done,
        Issue {
            id: 17,
            number: 5,
            fk_milestone: Some(3),
            fk_user: 1,
            fk_assignee: Some(4),
            open: false,
            is_pull_request: true,
            title: "title".to_string(),
            body: "body".to_string(),
            locked: true,
            closed_at: Some(at(9)),
            created_at: at(1),
            updated_at: at(2),
            labels: vec!["A-lang".to_string(), "P-high".to_string()],
            repository: REPO.to_string(),
        }
    );
}
