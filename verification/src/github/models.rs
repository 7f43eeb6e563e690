//! Records as the remote API delivers them, and their normal form.
//!
//! Normalising a wire record yields the row that is stored for it and the
//! rows it refers to: the users it names and, for an issue, its milestone.

use crate::domain::github::{
    GitHubUser, GitHubUserView, IssueComment, IssueCommentView, IssuePartial, IssuePartialView,
    Milestone, MilestoneView, PullRequest, PullRequestView,
};
use crate::text::{chars_of, find, index_of, parse_bounded, parse_unsigned, text_eq};
use crate::time::Timestamp;
use vstd::prelude::*;

verus! {

/// The links of a pull-request stub inside an issue.
#[derive(Clone, Debug, PartialEq, Eq)]
pub struct PullRequestUrls {
    pub url: Option<String>,
    pub html_url: Option<String>,
    pub diff_url: Option<String>,
    pub patch_url: Option<String>,
}

/// A label attached to an issue.
#[derive(Clone, Debug, PartialEq, Eq)]
pub struct LabelFromJson {
    pub name: String,
    pub color: String,
}

/// A milestone as embedded in an issue or pull request.
#[derive(Clone, Debug, PartialEq, Eq)]
pub struct MilestoneFromJson {
    pub id: i32,
    pub number: i32,
    pub state: String,
    pub title: String,
    pub description: Option<String>,
    pub creator: GitHubUser,
    pub open_issues: i32,
    pub closed_issues: i32,
    pub created_at: Timestamp,
    pub updated_at: Timestamp,
    pub closed_at: Option<Timestamp>,
    pub due_on: Option<Timestamp>,
}

/// An issue as listed by the remote API.
#[derive(Clone, Debug, PartialEq, Eq)]
pub struct IssueFromJson {
    pub number: i32,
    pub user: GitHubUser,
    pub assignee: Option<GitHubUser>,
    pub state: String,
    pub title: String,
    pub body: Option<String>,
    pub locked: bool,
    pub closed_at: Option<Timestamp>,
    pub created_at: Timestamp,
    pub updated_at: Timestamp,
    pub labels: Vec<LabelFromJson>,
    pub milestone: Option<MilestoneFromJson>,
    pub pull_request: Option<PullRequestUrls>,
}

/// An issue comment as listed by the remote API.
#[derive(Clone, Debug, PartialEq, Eq)]
pub struct CommentFromJson {
    pub id: i32,
    pub html_url: String,
    pub body: String,
    pub user: GitHubUser,
    pub created_at: Timestamp,
    pub updated_at: Timestamp,
}

/// The detail of a pull request.
#[derive(Clone, Debug, PartialEq, Eq)]
pub struct PullRequestFromJson {
    pub number: i32,
    pub state: String,
    pub title: String,
    pub body: Option<String>,
    pub assignee: Option<GitHubUser>,
    pub milestone: Option<MilestoneFromJson>,
    pub locked: bool,
    pub created_at: Timestamp,
    pub updated_at: Timestamp,
    pub closed_at: Option<Timestamp>,
    pub merged_at: Option<Timestamp>,
    pub commits: i32,
    pub additions: i32,
    pub deletions: i32,
    pub changed_files: i32,
}

/// The state text that marks an issue or milestone as open.
pub open spec fn open_state() -> Seq<char> {
    "open"@
}

/// The names of a list of labels, in the order of the list.
pub open spec fn label_names(labels: Seq<LabelFromJson>) -> Seq<Seq<char>> {
    Seq::new(labels.len(), |i: int| labels[i].name@)
}

/// The identifier of an optional user.
pub open spec fn user_id(user: Option<GitHubUser>) -> Option<i32> {
    match user {
        Some(u) => Some(u.id),
        None => None,
    }
}

/// The identifier of an optional milestone.
pub open spec fn milestone_id(milestone: Option<MilestoneFromJson>) -> Option<i32> {
    match milestone {
        Some(m) => Some(m.id),
        None => None,
    }
}

/// The text of an optional body, empty where there is none.
pub open spec fn body_text(body: Option<String>) -> Seq<char> {
    match body {
        Some(b) => b@,
        None => Seq::empty(),
    }
}

fn into_names(labels: Vec<LabelFromJson>) -> (names: Vec<String>)
    ensures
        names.deep_view() == label_names(labels@),
{
    let mut names: Vec<String> = Vec::new();
    let ghost all = labels@;
    for label in it: labels
        invariant
            it.seq() == all,
            names.len() == it.index(),
            forall|j: int| 0 <= j < names.len() ==> names@[j]@ == all[j].name@,
    {
        names.push(label.name);
    }
    assert(names.deep_view() =~= label_names(all));
    names
}

impl MilestoneFromJson {
    /// The row that this milestone becomes in repository `repo`.
    pub open spec fn row(self, repo: Seq<char>) -> MilestoneView {
        MilestoneView {
            id: self.id,
            number: self.number,
            open: self.state@ == open_state(),
            title: self.title@,
            description: self.description.deep_view(),
            fk_creator: self.creator.id,
            open_issues: self.open_issues,
            closed_issues: self.closed_issues,
            created_at: self.created_at,
            updated_at: self.updated_at,
            closed_at: self.closed_at,
            due_on: self.due_on,
            repository: repo,
        }
    }

    /// Splits the milestone into its row and the user who created it.
    pub fn with_repo(self, repo: &str) -> (r: (Milestone, GitHubUser))
        ensures
            r.0@ == self.row(repo@),
            r.1@ == self.creator@,
    {
        let open = text_eq(self.state.as_str(), "open");
        let row = Milestone {
            id: self.id,
            number: self.number,
            open,
            title: self.title,
            description: self.description,
            fk_creator: self.creator.id,
            open_issues: self.open_issues,
            closed_issues: self.closed_issues,
            created_at: self.created_at,
            updated_at: self.updated_at,
            closed_at: self.closed_at,
            due_on: self.due_on,
            repository: repo.to_owned(),
        };
        (row, self.creator)
    }
}

/// An issue in normal form: its row, the rows it refers to, and the
/// pull-request stub if the issue is a pull request.
#[derive(Clone, Debug, PartialEq, Eq)]
pub struct NormalizedIssue {
    pub issue: IssuePartial,
    pub author: GitHubUser,
    pub assignee: Option<GitHubUser>,
    pub milestone: Option<Milestone>,
    pub milestone_creator: Option<GitHubUser>,
    pub pull_request: Option<PullRequestUrls>,
}

/// A normalised issue, each row in its view.
pub ghost struct NormalizedIssueView {
    pub issue: IssuePartialView,
    pub author: GitHubUserView,
    pub assignee: Option<GitHubUserView>,
    pub milestone: Option<MilestoneView>,
    pub milestone_creator: Option<GitHubUserView>,
    pub pull_request: Option<PullRequestUrls>,
}

/// The view of an optional user.
pub open spec fn user_view(user: Option<GitHubUser>) -> Option<GitHubUserView> {
    match user {
        Some(u) => Some(u@),
        None => None,
    }
}

impl View for NormalizedIssue {
    type V = NormalizedIssueView;

    open spec fn view(&self) -> NormalizedIssueView {
        NormalizedIssueView {
            issue: self.issue@,
            author: self.author@,
            assignee: user_view(self.assignee),
            milestone: match self.milestone {
                Some(m) => Some(m@),
                None => None,
            },
            milestone_creator: user_view(self.milestone_creator),
            pull_request: self.pull_request,
        }
    }
}

impl NormalizedIssueView {
    /// Whether the row names exactly the rows that come with it: its
    /// author, its assignee, its milestone and the milestone's creator.
    pub open spec fn consistent(self) -> bool {
        &&& self.issue.fk_user == self.author.id
        &&& self.issue.fk_assignee == (match self.assignee {
            Some(a) => Some(a.id),
            None => None,
        })
        &&& self.issue.fk_milestone == (match self.milestone {
            Some(m) => Some(m.id),
            None => None,
        })
        &&& self.milestone matches Some(m) ==> self.milestone_creator matches Some(c) && m.fk_creator
            == c.id
    }
}

impl IssueFromJson {
    /// The normal form of this issue in repository `repo`: its row, the
    /// users and the milestone it names, and its pull-request stub.
    pub open spec fn normal(self, repo: Seq<char>) -> NormalizedIssueView {
        NormalizedIssueView {
            issue: self.row(repo),
            author: self.user@,
            assignee: user_view(self.assignee),
            milestone: match self.milestone {
                Some(m) => Some(m.row(repo)),
                None => None,
            },
            milestone_creator: match self.milestone {
                Some(m) => Some(m.creator@),
                None => None,
            },
            pull_request: self.pull_request,
        }
    }

    /// The row that this issue becomes in repository `repo`.
    pub open spec fn row(self, repo: Seq<char>) -> IssuePartialView {
        IssuePartialView {
            number: self.number,
            fk_milestone: milestone_id(self.milestone),
            fk_user: self.user.id,
            fk_assignee: user_id(self.assignee),
            open: self.state@ == open_state(),
            is_pull_request: self.pull_request is Some,
            title: self.title@,
            body: body_text(self.body),
            locked: self.locked,
            closed_at: self.closed_at,
            created_at: self.created_at,
            updated_at: self.updated_at,
            labels: label_names(self.labels@),
            repository: repo,
        }
    }

    /// Normalises the issue for repository `repo`.  The issue is tagged as a
    /// pull request exactly when the payload carries a pull-request stub; the
    /// stub itself is handed on for the detail fetch.
    pub fn with_repo(self, repo: &str) -> (n: NormalizedIssue)
        ensures
            n@ == self.normal(repo@),
            n@.consistent(),
    {
        let open = text_eq(self.state.as_str(), "open");
        let fk_assignee = match &self.assignee {
            Some(a) => Some(a.id),
            None => None,
        };
        let fk_milestone = match &self.milestone {
            Some(m) => Some(m.id),
            None => None,
        };
        let body = match self.body {
            Some(b) => b,
            None => String::new(),
        };
        let issue = IssuePartial {
            number: self.number,
            fk_milestone,
            fk_user: self.user.id,
            fk_assignee,
            open,
            is_pull_request: self.pull_request.is_some(),
            title: self.title,
            body,
            locked: self.locked,
            closed_at: self.closed_at,
            created_at: self.created_at,
            updated_at: self.updated_at,
            labels: into_names(self.labels),
            repository: repo.to_owned(),
        };
        let (milestone, milestone_creator) = match self.milestone {
            Some(m) => {
                let (row, creator) = m.with_repo(repo);
                (Some(row), Some(creator))
            },
            None => (None, None),
        };
        NormalizedIssue {
            issue,
            author: self.user,
            assignee: self.assignee,
            milestone,
            milestone_creator,
            pull_request: self.pull_request,
        }
    }
}

/// The part of `s` after its last `c`; all of `s` if it holds no `c`.
pub open spec fn after_last(s: Seq<char>, c: char) -> Seq<char>
    decreases s.len(),
{
    let i = index_of(s, c) as int;
    if i < s.len() {
        after_last(s.subrange(i + 1, s.len() as int), c)
    } else {
        s
    }
}

/// The number of the issue that a comment's page address names: the last
/// path segment of the address, read without its fragment.
pub open spec fn issue_number_of(url: Seq<char>) -> Option<i32> {
    let path = url.subrange(0, index_of(url, '#') as int);
    match parse_unsigned(after_last(path, '/'), i32::MAX as nat) {
        Some(n) => Some(n as i32),
        None => None,
    }
}

/// Reads the issue number out of a comment's page address.
pub fn issue_number(url: &str) -> (r: Option<i32>)
    ensures
        r == issue_number_of(url@),
{
    let v = chars_of(url);
    let end = find(&v, 0, v.len(), '#');
    assert(v@.subrange(0, v.len() as int) == v@);
    let ghost path = v@.subrange(0, end as int);
    let mut start: usize = 0;
    loop
        invariant
            start <= end <= v.len(),
            path == v@.subrange(0, end as int),
            after_last(path, '/') == after_last(v@.subrange(start as int, end as int), '/'),
        ensures
            start <= end <= v.len(),
            after_last(path, '/') == v@.subrange(start as int, end as int),
        decreases end - start,
    {
        let i = find(&v, start, end, '/');
        if i >= end {
            break ;
        }
        assert(v@.subrange(start as int, end as int).subrange(
            i - start + 1,
            end - start,
        ) == v@.subrange(i + 1, end as int));
        start = i + 1;
    }
    let piece = url.substring_char(start, end);
    match parse_bounded(piece, 0x7FFF_FFFF) {
        Some(n) => Some(n as i32),
        None => None,
    }
}

/// A comment in normal form: its row and the user who wrote it.
#[derive(Clone, Debug, PartialEq, Eq)]
pub struct NormalizedComment {
    pub comment: IssueComment,
    pub author: GitHubUser,
}

/// A normalised comment, each row in its view.
pub ghost struct NormalizedCommentView {
    pub comment: IssueCommentView,
    pub author: GitHubUserView,
}

impl View for NormalizedComment {
    type V = NormalizedCommentView;

    open spec fn view(&self) -> NormalizedCommentView {
        NormalizedCommentView { comment: self.comment@, author: self.author@ }
    }
}

impl NormalizedCommentView {
    /// Whether the row names the author that comes with it.
    pub open spec fn consistent(self) -> bool {
        self.comment.fk_user == self.author.id
    }
}

impl CommentFromJson {
    /// The normal form of this comment in repository `repo`; `None` if its
    /// page address names no issue.
    pub open spec fn normal(self, repo: Seq<char>) -> Option<NormalizedCommentView> {
        match issue_number_of(self.html_url@) {
            Some(issue) => Some(
                NormalizedCommentView { comment: self.row(repo, issue), author: self.user@ },
            ),
            None => None,
        }
    }

    /// The row that this comment becomes in repository `repo`, given the
    /// number of the issue it belongs to.
    pub open spec fn row(self, repo: Seq<char>, issue: i32) -> IssueCommentView {
        IssueCommentView {
            id: self.id,
            fk_issue: issue,
            fk_user: self.user.id,
            body: self.body@,
            created_at: self.created_at,
            updated_at: self.updated_at,
            repository: repo,
        }
    }

    /// Normalises the comment for repository `repo`.  The result is `None`
    /// exactly when the comment's page address names no issue.
    pub fn with_repo(self, repo: &str) -> (n: Option<NormalizedComment>)
        ensures
            n is Some == self.normal(repo@) is Some,
            n matches Some(c) ==> Some(c@) == self.normal(repo@) && c@.consistent(),
    {
        match issue_number(self.html_url.as_str()) {
            Some(issue) => {
                let comment = IssueComment {
                    id: self.id,
                    fk_issue: issue,
                    fk_user: self.user.id,
                    body: self.body,
                    created_at: self.created_at,
                    updated_at: self.updated_at,
                    repository: repo.to_owned(),
                };
                Some(NormalizedComment { comment, author: self.user })
            },
            None => None,
        }
    }
}

/// A pull request in normal form: its row and the user it is assigned to.
#[derive(Clone, Debug, PartialEq, Eq)]
pub struct NormalizedPullRequest {
    pub pull_request: PullRequest,
    pub assignee: Option<GitHubUser>,
}

/// A normalised pull request, each row in its view.
pub ghost struct NormalizedPullRequestView {
    pub pull_request: PullRequestView,
    pub assignee: Option<GitHubUserView>,
}

impl View for NormalizedPullRequest {
    type V = NormalizedPullRequestView;

    open spec fn view(&self) -> NormalizedPullRequestView {
        NormalizedPullRequestView {
            pull_request: self.pull_request@,
            assignee: user_view(self.assignee),
        }
    }
}

impl NormalizedPullRequestView {
    /// Whether the row names the assignee that comes with it.
    pub open spec fn consistent(self) -> bool {
        self.pull_request.fk_assignee == (match self.assignee {
            Some(a) => Some(a.id),
            None => None,
        })
    }
}

impl PullRequestFromJson {
    /// The normal form of this pull request in repository `repo`.
    pub open spec fn normal(self, repo: Seq<char>) -> NormalizedPullRequestView {
        NormalizedPullRequestView { pull_request: self.row(repo), assignee: user_view(self.assignee) }
    }

    /// The row that this pull request becomes in repository `repo`.
    pub open spec fn row(self, repo: Seq<char>) -> PullRequestView {
        PullRequestView {
            number: self.number,
            state: self.state@,
            title: self.title@,
            body: self.body.deep_view(),
            fk_assignee: user_id(self.assignee),
            fk_milestone: milestone_id(self.milestone),
            locked: self.locked,
            created_at: self.created_at,
            updated_at: self.updated_at,
            closed_at: self.closed_at,
            merged_at: self.merged_at,
            commits: self.commits,
            additions: self.additions,
            deletions: self.deletions,
            changed_files: self.changed_files,
            repository: repo,
        }
    }

    /// Normalises the pull request for repository `repo`.
    pub fn with_repo(self, repo: &str) -> (n: NormalizedPullRequest)
        ensures
            n@ == self.normal(repo@),
            n@.consistent(),
    {
        let fk_assignee = match &self.assignee {
            Some(a) => Some(a.id),
            None => None,
        };
        let fk_milestone = match &self.milestone {
            Some(m) => Some(m.id),
            None => None,
        };
        let pull_request = PullRequest {
            number: self.number,
            state: self.state,
            title: self.title,
            body: self.body,
            fk_assignee,
            fk_milestone,
            locked: self.locked,
            created_at: self.created_at,
            updated_at: self.updated_at,
            closed_at: self.closed_at,
            merged_at: self.merged_at,
            commits: self.commits,
            additions: self.additions,
            deletions: self.deletions,
            changed_files: self.changed_files,
            repository: repo.to_owned(),
        };
        NormalizedPullRequest { pull_request, assignee: self.assignee }
    }
}

} // verus!
