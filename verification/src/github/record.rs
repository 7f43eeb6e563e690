//! Records of the five kinds that a pass writes, their natural keys and
//! the rows they refer to.

use crate::domain::github::{
    GitHubUser, GitHubUserView, Issue, IssueComment, IssueCommentView, IssuePartial,
    IssuePartialView, IssueView, Milestone, MilestoneView, PullRequest, PullRequestView,
};
use crate::text::text_eq;
use vstd::prelude::*;

verus! {

/// The five groups in which rows are written.  A row refers only to rows
/// of earlier groups.
#[derive(Clone, Copy, Debug, PartialEq, Eq, Structural)]
pub enum Phase {
    Users,
    Milestones,
    Issues,
    Comments,
    PullRequests,
}

impl Phase {
    /// Position of the phase in the order of writing.
    pub open spec fn rank(self) -> nat {
        match self {
            Phase::Users => 0,
            Phase::Milestones => 1,
            Phase::Issues => 2,
            Phase::Comments => 3,
            Phase::PullRequests => 4,
        }
    }
}

/// The natural key of a row: what tells whether the row is stored already.
#[derive(Clone, Debug, PartialEq, Eq)]
pub enum Key {
    User(i32),
    Milestone(i32),
    Issue { repository: String, number: i32 },
    Comment(i32),
    PullRequest { repository: String, number: i32 },
}

/// A natural key, with the repository as a character sequence.
pub ghost enum KeyView {
    User(i32),
    Milestone(i32),
    Issue(Seq<char>, i32),
    Comment(i32),
    PullRequest(Seq<char>, i32),
}

impl View for Key {
    type V = KeyView;

    open spec fn view(&self) -> KeyView {
        match self {
            Key::User(id) => KeyView::User(*id),
            Key::Milestone(id) => KeyView::Milestone(*id),
            Key::Issue { repository, number } => KeyView::Issue(repository@, *number),
            Key::Comment(id) => KeyView::Comment(*id),
            Key::PullRequest { repository, number } => KeyView::PullRequest(repository@, *number),
        }
    }
}

impl DeepView for Key {
    type V = KeyView;

    open spec fn deep_view(&self) -> KeyView {
        self@
    }
}

impl KeyView {
    /// The phase in which rows with this key are written.
    pub open spec fn phase(self) -> Phase {
        match self {
            KeyView::User(_) => Phase::Users,
            KeyView::Milestone(_) => Phase::Milestones,
            KeyView::Issue(_, _) => Phase::Issues,
            KeyView::Comment(_) => Phase::Comments,
            KeyView::PullRequest(_, _) => Phase::PullRequests,
        }
    }
}

impl Key {
    /// Whether two keys name the same row.
    pub fn same(&self, other: &Key) -> (b: bool)
        ensures
            b == (self@ == other@),
    {
        match (self, other) {
            (Key::User(a), Key::User(b)) => *a == *b,
            (Key::Milestone(a), Key::Milestone(b)) => *a == *b,
            (Key::Comment(a), Key::Comment(b)) => *a == *b,
            (
                Key::Issue { repository: r1, number: n1 },
                Key::Issue { repository: r2, number: n2 },
            ) => *n1 == *n2 && text_eq(r1.as_str(), r2.as_str()),
            (
                Key::PullRequest { repository: r1, number: n1 },
                Key::PullRequest { repository: r2, number: n2 },
            ) => *n1 == *n2 && text_eq(r1.as_str(), r2.as_str()),
            _ => false,
        }
    }

    /// The phase in which rows with this key are written.
    pub fn phase(&self) -> (p: Phase)
        ensures
            p == self@.phase(),
    {
        match self {
            Key::User(_) => Phase::Users,
            Key::Milestone(_) => Phase::Milestones,
            Key::Issue { .. } => Phase::Issues,
            Key::Comment(_) => Phase::Comments,
            Key::PullRequest { .. } => Phase::PullRequests,
        }
    }

    /// A copy of the key.
    pub fn duplicate(&self) -> (k: Key)
        ensures
            k@ == self@,
    {
        match self {
            Key::User(id) => Key::User(*id),
            Key::Milestone(id) => Key::Milestone(*id),
            Key::Comment(id) => Key::Comment(*id),
            Key::Issue { repository, number } => Key::Issue {
                repository: repository.clone(),
                number: *number,
            },
            Key::PullRequest { repository, number } => Key::PullRequest {
                repository: repository.clone(),
                number: *number,
            },
        }
    }
}

/// A record of a batch.  An issue is held without its storage identifier.
#[derive(Clone, Debug, PartialEq, Eq)]
pub enum Record {
    User(GitHubUser),
    Milestone(Milestone),
    Issue(IssuePartial),
    Comment(IssueComment),
    PullRequest(PullRequest),
}

/// A record, with the row it holds in its view.
pub ghost enum RecordView {
    User(GitHubUserView),
    Milestone(MilestoneView),
    Issue(IssuePartialView),
    Comment(IssueCommentView),
    PullRequest(PullRequestView),
}

impl View for Record {
    type V = RecordView;

    open spec fn view(&self) -> RecordView {
        match self {
            Record::User(u) => RecordView::User(u@),
            Record::Milestone(m) => RecordView::Milestone(m@),
            Record::Issue(i) => RecordView::Issue(i@),
            Record::Comment(c) => RecordView::Comment(c@),
            Record::PullRequest(p) => RecordView::PullRequest(p@),
        }
    }
}

/// A row as an update statement carries it.  An issue is complete.
#[derive(Clone, Debug, PartialEq, Eq)]
pub enum Row {
    User(GitHubUser),
    Milestone(Milestone),
    Issue(Issue),
    Comment(IssueComment),
    PullRequest(PullRequest),
}

/// A row, with its content in its view.
pub ghost enum RowView {
    User(GitHubUserView),
    Milestone(MilestoneView),
    Issue(IssueView),
    Comment(IssueCommentView),
    PullRequest(PullRequestView),
}

impl View for Row {
    type V = RowView;

    open spec fn view(&self) -> RowView {
        match self {
            Row::User(u) => RowView::User(u@),
            Row::Milestone(m) => RowView::Milestone(m@),
            Row::Issue(i) => RowView::Issue(i@),
            Row::Comment(c) => RowView::Comment(c@),
            Row::PullRequest(p) => RowView::PullRequest(p@),
        }
    }
}

/// The key of an optional user reference, nothing where there is none.
pub open spec fn user_ref(id: Option<i32>) -> Seq<KeyView> {
    match id {
        Some(id) => seq![KeyView::User(id)],
        None => Seq::empty(),
    }
}

/// The key of an optional milestone reference, nothing where there is none.
pub open spec fn milestone_ref(id: Option<i32>) -> Seq<KeyView> {
    match id {
        Some(id) => seq![KeyView::Milestone(id)],
        None => Seq::empty(),
    }
}

impl RecordView {
    /// The natural key: the remote identifier of a user, a milestone or a
    /// comment; repository and number of an issue; for a pull request,
    /// repository and number of its issue.
    pub open spec fn key(self) -> KeyView {
        match self {
            RecordView::User(u) => KeyView::User(u.id),
            RecordView::Milestone(m) => KeyView::Milestone(m.id),
            RecordView::Issue(i) => KeyView::Issue(i.repository, i.number),
            RecordView::Comment(c) => KeyView::Comment(c.id),
            RecordView::PullRequest(p) => KeyView::PullRequest(p.repository, p.number),
        }
    }

    /// The phase in which the record is written.
    pub open spec fn phase(self) -> Phase {
        self.key().phase()
    }

    /// The keys of the rows that must be stored before this record can be:
    /// a milestone's creator; an issue's author, assignee and milestone; a
    /// comment's issue and author; a pull request's issue and assignee.
    pub open spec fn references(self) -> Seq<KeyView> {
        match self {
            RecordView::User(_) => Seq::empty(),
            RecordView::Milestone(m) => seq![KeyView::User(m.fk_creator)],
            RecordView::Issue(i) => seq![KeyView::User(i.fk_user)] + user_ref(i.fk_assignee)
                + milestone_ref(i.fk_milestone),
            RecordView::Comment(c) => seq![
                KeyView::Issue(c.repository, c.fk_issue),
                KeyView::User(c.fk_user),
            ],
            RecordView::PullRequest(p) => seq![KeyView::Issue(p.repository, p.number)] + user_ref(
                p.fk_assignee,
            ),
        }
    }

    /// The row that the record becomes when it is stored under the
    /// identifier `id`.  Only an issue takes the identifier.
    pub open spec fn row(self, id: i32) -> RowView {
        match self {
            RecordView::User(u) => RowView::User(u),
            RecordView::Milestone(m) => RowView::Milestone(m),
            RecordView::Issue(i) => RowView::Issue(i.complete(id)),
            RecordView::Comment(c) => RowView::Comment(c),
            RecordView::PullRequest(p) => RowView::PullRequest(p),
        }
    }
}

impl RowView {
    /// The natural key of the row.
    pub open spec fn key(self) -> KeyView {
        match self {
            RowView::User(u) => KeyView::User(u.id),
            RowView::Milestone(m) => KeyView::Milestone(m.id),
            RowView::Issue(i) => KeyView::Issue(i.repository, i.number),
            RowView::Comment(c) => KeyView::Comment(c.id),
            RowView::PullRequest(p) => KeyView::PullRequest(p.repository, p.number),
        }
    }

    /// The row without a storage identifier.
    pub open spec fn record(self) -> RecordView {
        match self {
            RowView::User(u) => RecordView::User(u),
            RowView::Milestone(m) => RecordView::Milestone(m),
            RowView::Issue(i) => RecordView::Issue(
                IssuePartialView {
                    number: i.number,
                    fk_milestone: i.fk_milestone,
                    fk_user: i.fk_user,
                    fk_assignee: i.fk_assignee,
                    open: i.open,
                    is_pull_request: i.is_pull_request,
                    title: i.title,
                    body: i.body,
                    locked: i.locked,
                    closed_at: i.closed_at,
                    created_at: i.created_at,
                    updated_at: i.updated_at,
                    labels: i.labels,
                    repository: i.repository,
                },
            ),
            RowView::Comment(c) => RecordView::Comment(c),
            RowView::PullRequest(p) => RecordView::PullRequest(p),
        }
    }
}

/// A record refers only to rows of earlier phases.
pub proof fn lemma_references_are_earlier(record: RecordView, k: int)
    requires
        0 <= k < record.references().len(),
    ensures
        record.references()[k].phase().rank() < record.phase().rank(),
{
}

/// Completing a record and dropping the identifier gives the record back.
pub proof fn lemma_row_record(record: RecordView, id: i32)
    ensures
        record.row(id).record() == record,
        record.row(id).key() == record.key(),
{
}

impl Record {
    /// The natural key of the record.
    pub fn key(&self) -> (k: Key)
        ensures
            k@ == self@.key(),
    {
        match self {
            Record::User(u) => Key::User(u.id),
            Record::Milestone(m) => Key::Milestone(m.id),
            Record::Issue(i) => Key::Issue { repository: i.repository.clone(), number: i.number },
            Record::Comment(c) => Key::Comment(c.id),
            Record::PullRequest(p) => Key::PullRequest {
                repository: p.repository.clone(),
                number: p.number,
            },
        }
    }

    /// Whether `key` is the natural key of the record.
    pub fn has_key(&self, key: &Key) -> (b: bool)
        ensures
            b == (self@.key() == key@),
    {
        match (self, key) {
            (Record::User(u), Key::User(id)) => u.id == *id,
            (Record::Milestone(m), Key::Milestone(id)) => m.id == *id,
            (Record::Comment(c), Key::Comment(id)) => c.id == *id,
            (Record::Issue(i), Key::Issue { repository, number }) => i.number == *number
                && text_eq(i.repository.as_str(), repository.as_str()),
            (Record::PullRequest(p), Key::PullRequest { repository, number }) => p.number
                == *number && text_eq(p.repository.as_str(), repository.as_str()),
            _ => false,
        }
    }

    /// The phase in which the record is written.
    pub fn phase(&self) -> (p: Phase)
        ensures
            p == self@.phase(),
    {
        match self {
            Record::User(_) => Phase::Users,
            Record::Milestone(_) => Phase::Milestones,
            Record::Issue(_) => Phase::Issues,
            Record::Comment(_) => Phase::Comments,
            Record::PullRequest(_) => Phase::PullRequests,
        }
    }

    /// The keys of the rows that the record refers to.
    pub fn references(&self) -> (keys: Vec<Key>)
        ensures
            keys.deep_view() == self@.references(),
    {
        let mut keys: Vec<Key> = Vec::new();
        match self {
            Record::User(_) => {},
            Record::Milestone(m) => {
                keys.push(Key::User(m.fk_creator));
            },
            Record::Issue(i) => {
                keys.push(Key::User(i.fk_user));
                if let Some(id) = i.fk_assignee {
                    keys.push(Key::User(id));
                }
                if let Some(id) = i.fk_milestone {
                    keys.push(Key::Milestone(id));
                }
            },
            Record::Comment(c) => {
                keys.push(Key::Issue { repository: c.repository.clone(), number: c.fk_issue });
                keys.push(Key::User(c.fk_user));
            },
            Record::PullRequest(p) => {
                keys.push(Key::Issue { repository: p.repository.clone(), number: p.number });
                if let Some(id) = p.fk_assignee {
                    keys.push(Key::User(id));
                }
            },
        }
        assert(keys.deep_view() =~= self@.references());
        keys
    }

    /// The row that the record becomes under the identifier `id`.
    pub fn into_row(self, id: i32) -> (row: Row)
        ensures
            row@ == self@.row(id),
    {
        match self {
            Record::User(u) => Row::User(u),
            Record::Milestone(m) => Row::Milestone(m),
            Record::Issue(i) => Row::Issue(i.complete(id)),
            Record::Comment(c) => Row::Comment(c),
            Record::PullRequest(p) => Row::PullRequest(p),
        }
    }
}

impl Row {
    /// The natural key of the row.
    pub fn key(&self) -> (k: Key)
        ensures
            k@ == self@.key(),
    {
        match self {
            Row::User(u) => Key::User(u.id),
            Row::Milestone(m) => Key::Milestone(m.id),
            Row::Issue(i) => Key::Issue { repository: i.repository.clone(), number: i.number },
            Row::Comment(c) => Key::Comment(c.id),
            Row::PullRequest(p) => Key::PullRequest {
                repository: p.repository.clone(),
                number: p.number,
            },
        }
    }

    /// The storage identifier of an issue row; that of every other row is
    /// its remote identifier or number.
    pub fn id(&self) -> (id: i32)
        ensures
            id == self@.id(),
    {
        match self {
            Row::User(u) => u.id,
            Row::Milestone(m) => m.id,
            Row::Issue(i) => i.id,
            Row::Comment(c) => c.id,
            Row::PullRequest(p) => p.number,
        }
    }

    /// Splits a row into the record and the identifier it is stored under.
    pub fn into_record(self) -> (r: (Record, i32))
        ensures
            r.0@ == self@.record(),
            r.1 == self@.id(),
    {
        match self {
            Row::User(u) => {
                let id = u.id;
                (Record::User(u), id)
            },
            Row::Milestone(m) => {
                let id = m.id;
                (Record::Milestone(m), id)
            },
            Row::Issue(i) => {
                let id = i.id;
                let partial = IssuePartial {
                    number: i.number,
                    fk_milestone: i.fk_milestone,
                    fk_user: i.fk_user,
                    fk_assignee: i.fk_assignee,
                    open: i.open,
                    is_pull_request: i.is_pull_request,
                    title: i.title,
                    body: i.body,
                    locked: i.locked,
                    closed_at: i.closed_at,
                    created_at: i.created_at,
                    updated_at: i.updated_at,
                    labels: i.labels,
                    repository: i.repository,
                };
                (Record::Issue(partial), id)
            },
            Row::Comment(c) => {
                let id = c.id;
                (Record::Comment(c), id)
            },
            Row::PullRequest(p) => {
                let id = p.number;
                (Record::PullRequest(p), id)
            },
        }
    }
}

impl RowView {
    /// The identifier under which the row is found: the storage identifier
    /// of an issue, the remote identifier or number of any other row.
    pub open spec fn id(self) -> i32 {
        match self {
            RowView::User(u) => u.id,
            RowView::Milestone(m) => m.id,
            RowView::Issue(i) => i.id,
            RowView::Comment(c) => c.id,
            RowView::PullRequest(p) => p.number,
        }
    }
}

} // verus!
