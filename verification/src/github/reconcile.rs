//! Writing a batch of records in the order of their phases.
//!
//! The reconciler never touches storage.  It hands the caller one lookup or
//! one write at a time and is told what storage answered.  A record whose
//! natural key is found is updated under the identifier found; one that is
//! missing is inserted.  The first failure ends the pass: what was written
//! stays written, nothing after the failing record is attempted.

use crate::domain::github::{
    GitHubUser, GitHubUserView, IssueComment, IssueCommentView, IssuePartial, IssuePartialView,
    Milestone, MilestoneView, PullRequest, PullRequestView,
};
use crate::error::{DashError, FailureKind};
use crate::github::record::{Key, KeyView, Phase, Record, RecordView, Row, RowView};
use crate::github::store::in_phase_order;
use std::collections::VecDeque;
use vstd::prelude::*;

verus! {

/// The records of one pass, by kind.
#[derive(Clone, Debug, PartialEq, Eq)]
pub struct Batch {
    pub users: Vec<GitHubUser>,
    pub milestones: Vec<Milestone>,
    pub issues: Vec<IssuePartial>,
    pub comments: Vec<IssueComment>,
    pub pull_requests: Vec<PullRequest>,
}

/// The records that a list of users becomes.
pub open spec fn user_records(s: Seq<GitHubUser>) -> Seq<RecordView> {
    Seq::new(s.len(), |i: int| RecordView::User(s[i]@))
}

/// The records that a list of milestones becomes.
pub open spec fn milestone_records(s: Seq<Milestone>) -> Seq<RecordView> {
    Seq::new(s.len(), |i: int| RecordView::Milestone(s[i]@))
}

/// The records that a list of issues becomes.
pub open spec fn issue_records(s: Seq<IssuePartial>) -> Seq<RecordView> {
    Seq::new(s.len(), |i: int| RecordView::Issue(s[i]@))
}

/// The records that a list of comments becomes.
pub open spec fn comment_records(s: Seq<IssueComment>) -> Seq<RecordView> {
    Seq::new(s.len(), |i: int| RecordView::Comment(s[i]@))
}

/// The records that a list of pull requests becomes.
pub open spec fn pull_request_records(s: Seq<PullRequest>) -> Seq<RecordView> {
    Seq::new(s.len(), |i: int| RecordView::PullRequest(s[i]@))
}

/// The records of a batch, each in its view.
pub ghost struct BatchView {
    pub users: Seq<GitHubUserView>,
    pub milestones: Seq<MilestoneView>,
    pub issues: Seq<IssuePartialView>,
    pub comments: Seq<IssueCommentView>,
    pub pull_requests: Seq<PullRequestView>,
}

impl View for Batch {
    type V = BatchView;

    open spec fn view(&self) -> BatchView {
        BatchView {
            users: Seq::new(self.users@.len(), |i: int| self.users@[i]@),
            milestones: Seq::new(self.milestones@.len(), |i: int| self.milestones@[i]@),
            issues: Seq::new(self.issues@.len(), |i: int| self.issues@[i]@),
            comments: Seq::new(self.comments@.len(), |i: int| self.comments@[i]@),
            pull_requests: Seq::new(self.pull_requests@.len(), |i: int| self.pull_requests@[i]@),
        }
    }
}

impl BatchView {
    /// The records in the order in which they are written: users, then
    /// milestones, issues, comments and pull requests, each kind in the
    /// order of its list.
    pub open spec fn ordered(self) -> Seq<RecordView> {
        Seq::new(self.users.len(), |i: int| RecordView::User(self.users[i])) + Seq::new(
            self.milestones.len(),
            |i: int| RecordView::Milestone(self.milestones[i]),
        ) + Seq::new(self.issues.len(), |i: int| RecordView::Issue(self.issues[i])) + Seq::new(
            self.comments.len(),
            |i: int| RecordView::Comment(self.comments[i]),
        ) + Seq::new(
            self.pull_requests.len(),
            |i: int| RecordView::PullRequest(self.pull_requests[i]),
        )
    }
}

impl Batch {
    /// The records of the batch in the order in which they are written.
    pub open spec fn ordered(&self) -> Seq<RecordView> {
        self@.ordered()
    }
}

/// The order of writing never puts a record before one of an earlier
/// phase.
pub proof fn lemma_ordered_by_phase(batch: BatchView)
    ensures
        in_phase_order(batch.ordered()),
{
    let r = batch.ordered();
    let a = batch.users.len();
    let b = a + batch.milestones.len();
    let c = b + batch.issues.len();
    let d = c + batch.comments.len();
    assert forall|i: int| 0 <= i < r.len() implies (#[trigger] r[i]).phase().rank() == (if i < a {
        0nat
    } else if i < b {
        1nat
    } else if i < c {
        2nat
    } else if i < d {
        3nat
    } else {
        4nat
    }) by {}
}

/// What storage answered to a lookup.
#[derive(Clone, Debug, PartialEq, Eq)]
pub enum LookupResult {
    /// A row has the key; `id` is the identifier it is stored under.
    Found { id: i32 },
    /// No row has the key.
    Missing,
    /// The lookup itself failed.
    Failed(DashError),
}

/// What storage answered to a write.
#[derive(Clone, Debug, PartialEq, Eq)]
pub enum WriteResult {
    Written,
    Failed(DashError),
}

/// A write for the caller to perform.
#[derive(Clone, Debug, PartialEq, Eq)]
pub enum Statement {
    Insert(Record),
    Update(Row),
}

/// A statement, with the row it writes in its view.
pub ghost enum StatementView {
    Insert(RecordView),
    Update(RowView),
}

impl View for Statement {
    type V = StatementView;

    open spec fn view(&self) -> StatementView {
        match self {
            Statement::Insert(r) => StatementView::Insert(r@),
            Statement::Update(r) => StatementView::Update(r@),
        }
    }
}

impl StatementView {
    /// The natural key of the row that the statement writes.
    pub open spec fn key(self) -> KeyView {
        match self {
            StatementView::Insert(r) => r.key(),
            StatementView::Update(r) => r.key(),
        }
    }
}

impl Statement {
    /// The natural key of the row that the statement writes.
    pub fn key(&self) -> (k: Key)
        ensures
            k@ == self@.key(),
    {
        match self {
            Statement::Insert(r) => r.key(),
            Statement::Update(r) => r.key(),
        }
    }
}

/// The failure that ended a pass.
#[derive(Clone, Debug, PartialEq, Eq)]
pub struct ReconcileFailure {
    /// `LookupFailure` or `PersistFailure`.
    pub kind: FailureKind,
    /// The phase of the record at which the pass ended.
    pub phase: Phase,
    /// The natural key of that record.
    pub key: Key,
    /// What storage reported.
    pub cause: DashError,
}

/// A failure of the writing, with the key in its view.
pub ghost struct FailureView {
    pub kind: FailureKind,
    pub phase: Phase,
    pub key: KeyView,
    pub cause: DashError,
}

impl View for ReconcileFailure {
    type V = FailureView;

    open spec fn view(&self) -> FailureView {
        FailureView { kind: self.kind, phase: self.phase, key: self.key@, cause: self.cause }
    }
}

/// How a pass ended: the number of records written, and the failure that
/// cut it short, if one did.
#[derive(Clone, Debug, PartialEq, Eq)]
pub struct Report {
    pub written: usize,
    pub failure: Option<ReconcileFailure>,
}

/// The end of the writing: the number of records written and the failure, if
/// any.
pub ghost struct ReportView {
    pub written: nat,
    pub failure: Option<FailureView>,
}

impl View for Report {
    type V = ReportView;

    open spec fn view(&self) -> ReportView {
        ReportView {
            written: self.written as nat,
            failure: match self.failure {
                Some(f) => Some(f@),
                None => None,
            },
        }
    }
}

/// The views of a list of records.
pub open spec fn record_views(s: Seq<Record>) -> Seq<RecordView> {
    Seq::new(s.len(), |i: int| s[i]@)
}

/// A lookup that the caller is to perform.
#[derive(Debug)]
pub struct PendingLookup {
    record: Record,
    rest: VecDeque<Record>,
    written: usize,
}

/// The state of a pass that waits for the answer to a lookup.
pub ghost struct LookupView {
    /// The record whose natural key is looked up.
    pub record: RecordView,
    /// The records after it.
    pub rest: Seq<RecordView>,
    /// Number of records written so far.
    pub written: nat,
}

/// A pass that waits for the answer to a write.
#[derive(Debug)]
pub struct PendingWrite {
    key: Key,
    rest: VecDeque<Record>,
    written: usize,
}

/// The state of a pass that waits for the answer to a write.
pub ghost struct WriteView {
    /// The natural key of the row being written.
    pub key: KeyView,
    /// The records after the one being written.
    pub rest: Seq<RecordView>,
    /// Number of records written so far.
    pub written: nat,
}

/// Where a pass stands.
#[derive(Debug)]
pub enum Step {
    /// The caller is to look up the key of the pending lookup.
    Lookup(PendingLookup),
    /// The caller is to perform the statement.
    Write(Statement, PendingWrite),
    /// The pass is over.
    Finished(Report),
}

/// A step of the writing, each part in its view.
pub ghost enum StepView {
    Lookup(LookupView),
    Write(StatementView, WriteView),
    Finished(ReportView),
}

/// The step that takes up the records `rest` after `written` writes: the
/// lookup of the first record, or the end of the pass if none is left.
pub open spec fn proceed(rest: Seq<RecordView>, written: nat) -> StepView {
    if rest.len() == 0 {
        StepView::Finished(ReportView { written, failure: None })
    } else {
        StepView::Lookup(LookupView { record: rest[0], rest: rest.drop_first(), written })
    }
}

impl LookupView {
    /// The step after storage answered the lookup.  A record that is found
    /// is updated under the identifier found, one that is missing is
    /// inserted, and a failed lookup ends the pass.
    pub open spec fn answer(self, result: LookupResult) -> StepView {
        match result {
            LookupResult::Found { id } => StepView::Write(
                StatementView::Update(self.record.row(id)),
                WriteView { key: self.record.key(), rest: self.rest, written: self.written },
            ),
            LookupResult::Missing => StepView::Write(
                StatementView::Insert(self.record),
                WriteView { key: self.record.key(), rest: self.rest, written: self.written },
            ),
            LookupResult::Failed(cause) => StepView::Finished(
                ReportView {
                    written: self.written,
                    failure: Some(
                        FailureView {
                            kind: FailureKind::LookupFailure,
                            phase: self.record.phase(),
                            key: self.record.key(),
                            cause,
                        },
                    ),
                },
            ),
        }
    }
}

impl WriteView {
    /// The step after storage answered the write.  After a write the pass
    /// takes up the next record; a failed write ends the pass.
    pub open spec fn answer(self, result: WriteResult) -> StepView {
        match result {
            WriteResult::Written => proceed(self.rest, self.written + 1),
            WriteResult::Failed(cause) => StepView::Finished(
                ReportView {
                    written: self.written,
                    failure: Some(
                        FailureView {
                            kind: FailureKind::PersistFailure,
                            phase: self.key.phase(),
                            key: self.key,
                            cause,
                        },
                    ),
                },
            ),
        }
    }
}

impl View for PendingLookup {
    type V = LookupView;

    closed spec fn view(&self) -> LookupView {
        LookupView {
            record: self.record@,
            rest: record_views(self.rest@),
            written: self.written as nat,
        }
    }
}

impl View for PendingWrite {
    type V = WriteView;

    closed spec fn view(&self) -> WriteView {
        WriteView { key: self.key@, rest: record_views(self.rest@), written: self.written as nat }
    }
}

impl View for Step {
    type V = StepView;

    open spec fn view(&self) -> StepView {
        match self {
            Step::Lookup(l) => StepView::Lookup(l@),
            Step::Write(s, w) => StepView::Write(s@, w@),
            Step::Finished(r) => StepView::Finished(r@),
        }
    }
}

fn take_up(rest: VecDeque<Record>, written: usize) -> (step: Step)
    requires
        written + rest@.len() <= usize::MAX,
    ensures
        step@ == proceed(record_views(rest@), written as nat),
{
    let mut rest = rest;
    let ghost before = rest@;
    match rest.pop_front() {
        None => Step::Finished(Report { written, failure: None }),
        Some(record) => {
            assert(record_views(rest@) =~= record_views(before).drop_first());
            Step::Lookup(PendingLookup { record, rest, written })
        },
    }
}

impl PendingLookup {
    #[verifier::type_invariant]
    spec fn inv(&self) -> bool {
        self.written + self.rest@.len() < usize::MAX
    }

    /// The key to look up.
    pub fn key(&self) -> (k: Key)
        ensures
            k@ == self@.record.key(),
    {
        self.record.key()
    }

    /// Takes the answer of storage to the lookup.
    pub fn answer(self, result: LookupResult) -> (step: Step)
        ensures
            step@ == self@.answer(result),
    {
        proof {
            use_type_invariant(&self);
        }
        let PendingLookup { record, rest, written } = self;
        match result {
            LookupResult::Found { id } => {
                let key = record.key();
                Step::Write(
                    Statement::Update(record.into_row(id)),
                    PendingWrite { key, rest, written },
                )
            },
            LookupResult::Missing => {
                let key = record.key();
                Step::Write(Statement::Insert(record), PendingWrite { key, rest, written })
            },
            LookupResult::Failed(cause) => Step::Finished(
                Report {
                    written,
                    failure: Some(
                        ReconcileFailure {
                            kind: FailureKind::LookupFailure,
                            phase: record.phase(),
                            key: record.key(),
                            cause,
                        },
                    ),
                },
            ),
        }
    }
}

impl PendingWrite {
    #[verifier::type_invariant]
    spec fn inv(&self) -> bool {
        self.written + self.rest@.len() < usize::MAX
    }

    /// Takes the answer of storage to the write.
    pub fn answer(self, result: WriteResult) -> (step: Step)
        ensures
            step@ == self@.answer(result),
    {
        proof {
            use_type_invariant(&self);
        }
        let PendingWrite { key, rest, written } = self;
        match result {
            WriteResult::Written => take_up(rest, written + 1),
            WriteResult::Failed(cause) => Step::Finished(
                Report {
                    written,
                    failure: Some(
                        ReconcileFailure {
                            kind: FailureKind::PersistFailure,
                            phase: key.phase(),
                            key,
                            cause,
                        },
                    ),
                },
            ),
        }
    }
}

fn queue_users(queue: &mut VecDeque<Record>, users: Vec<GitHubUser>)
    ensures
        record_views(final(queue)@) == record_views(old(queue)@) + user_records(users@),
{
    let ghost all = users@;
    let ghost before = record_views(queue@);
    assert(before + user_records(all).take(0) =~= before);
    for user in it: users
        invariant
            it.seq() == all,
            record_views(queue@) == before + user_records(all).take(it.index() as int),
    {
        let ghost sofar = record_views(queue@);
        queue.push_back(Record::User(user));
        assert(record_views(queue@) =~= sofar + seq![RecordView::User(user@)]);
        assert(before + user_records(all).take(it.index() + 1) =~= sofar + seq![
            RecordView::User(user@),
        ]);
    }
    assert(user_records(all).take(all.len() as int) =~= user_records(all));
}

fn queue_milestones(queue: &mut VecDeque<Record>, milestones: Vec<Milestone>)
    ensures
        record_views(final(queue)@) == record_views(old(queue)@) + milestone_records(milestones@),
{
    let ghost all = milestones@;
    let ghost before = record_views(queue@);
    assert(before + milestone_records(all).take(0) =~= before);
    for milestone in it: milestones
        invariant
            it.seq() == all,
            record_views(queue@) == before + milestone_records(all).take(it.index() as int),
    {
        let ghost sofar = record_views(queue@);
        queue.push_back(Record::Milestone(milestone));
        assert(record_views(queue@) =~= sofar + seq![RecordView::Milestone(milestone@)]);
        assert(before + milestone_records(all).take(it.index() + 1) =~= sofar + seq![
            RecordView::Milestone(milestone@),
        ]);
    }
    assert(milestone_records(all).take(all.len() as int) =~= milestone_records(all));
}

fn queue_issues(queue: &mut VecDeque<Record>, issues: Vec<IssuePartial>)
    ensures
        record_views(final(queue)@) == record_views(old(queue)@) + issue_records(issues@),
{
    let ghost all = issues@;
    let ghost before = record_views(queue@);
    assert(before + issue_records(all).take(0) =~= before);
    for issue in it: issues
        invariant
            it.seq() == all,
            record_views(queue@) == before + issue_records(all).take(it.index() as int),
    {
        let ghost sofar = record_views(queue@);
        queue.push_back(Record::Issue(issue));
        assert(record_views(queue@) =~= sofar + seq![RecordView::Issue(issue@)]);
        assert(before + issue_records(all).take(it.index() + 1) =~= sofar + seq![
            RecordView::Issue(issue@),
        ]);
    }
    assert(issue_records(all).take(all.len() as int) =~= issue_records(all));
}

fn queue_comments(queue: &mut VecDeque<Record>, comments: Vec<IssueComment>)
    ensures
        record_views(final(queue)@) == record_views(old(queue)@) + comment_records(comments@),
{
    let ghost all = comments@;
    let ghost before = record_views(queue@);
    assert(before + comment_records(all).take(0) =~= before);
    for comment in it: comments
        invariant
            it.seq() == all,
            record_views(queue@) == before + comment_records(all).take(it.index() as int),
    {
        let ghost sofar = record_views(queue@);
        queue.push_back(Record::Comment(comment));
        assert(record_views(queue@) =~= sofar + seq![RecordView::Comment(comment@)]);
        assert(before + comment_records(all).take(it.index() + 1) =~= sofar + seq![
            RecordView::Comment(comment@),
        ]);
    }
    assert(comment_records(all).take(all.len() as int) =~= comment_records(all));
}

fn queue_pull_requests(queue: &mut VecDeque<Record>, pull_requests: Vec<PullRequest>)
    ensures
        record_views(final(queue)@) == record_views(old(queue)@) + pull_request_records(
            pull_requests@,
        ),
{
    let ghost all = pull_requests@;
    let ghost before = record_views(queue@);
    assert(before + pull_request_records(all).take(0) =~= before);
    for pull_request in it: pull_requests
        invariant
            it.seq() == all,
            record_views(queue@) == before + pull_request_records(all).take(it.index() as int),
    {
        let ghost sofar = record_views(queue@);
        queue.push_back(Record::PullRequest(pull_request));
        assert(record_views(queue@) =~= sofar + seq![RecordView::PullRequest(pull_request@)]);
        assert(before + pull_request_records(all).take(it.index() + 1) =~= sofar + seq![
            RecordView::PullRequest(pull_request@),
        ]);
    }
    assert(pull_request_records(all).take(all.len() as int) =~= pull_request_records(all));
}

/// Starts a pass over `batch`: the first step of writing its records in
/// phase order.
pub fn begin(batch: Batch) -> (step: Step)
    ensures
        step@ == proceed(batch.ordered(), 0),
{
    let Batch { users, milestones, issues, comments, pull_requests } = batch;
    let mut queue: VecDeque<Record> = VecDeque::new();
    assert(record_views(queue@) =~= Seq::empty());
    queue_users(&mut queue, users);
    queue_milestones(&mut queue, milestones);
    queue_issues(&mut queue, issues);
    queue_comments(&mut queue, comments);
    queue_pull_requests(&mut queue, pull_requests);
    assert(record_views(queue@) =~= batch.ordered());
    assert(queue@.len() == queue.len());
    take_up(queue, 0)
}

} // verus!
