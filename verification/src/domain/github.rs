//! Rows mirrored from the remote tracker.
//!
//! Each row type has a view in which texts are character sequences; two
//! rows are the same row content exactly when their views are equal.

use crate::time::Timestamp;
use vstd::prelude::*;

verus! {

/// A user of the tracker.
#[derive(Clone, Debug, Eq, Ord, PartialEq, PartialOrd)]
pub struct GitHubUser {
    pub id: i32,
    pub login: String,
}

/// A user, with the login as a character sequence.
pub ghost struct GitHubUserView {
    pub id: i32,
    pub login: Seq<char>,
}

impl View for GitHubUser {
    type V = GitHubUserView;

    open spec fn view(&self) -> GitHubUserView {
        GitHubUserView { id: self.id, login: self.login@ }
    }
}

/// A milestone of a repository.
#[derive(Clone, Debug, Eq, Ord, PartialEq, PartialOrd)]
pub struct Milestone {
    pub id: i32,
    pub number: i32,
    pub open: bool,
    pub title: String,
    pub description: Option<String>,
    pub fk_creator: i32,
    pub open_issues: i32,
    pub closed_issues: i32,
    pub created_at: Timestamp,
    pub updated_at: Timestamp,
    pub closed_at: Option<Timestamp>,
    pub due_on: Option<Timestamp>,
    pub repository: String,
}

/// A milestone, with its texts as character sequences.
pub ghost struct MilestoneView {
    pub id: i32,
    pub number: i32,
    pub open: bool,
    pub title: Seq<char>,
    pub description: Option<Seq<char>>,
    pub fk_creator: i32,
    pub open_issues: i32,
    pub closed_issues: i32,
    pub created_at: Timestamp,
    pub updated_at: Timestamp,
    pub closed_at: Option<Timestamp>,
    pub due_on: Option<Timestamp>,
    pub repository: Seq<char>,
}

impl View for Milestone {
    type V = MilestoneView;

    open spec fn view(&self) -> MilestoneView {
        MilestoneView {
            id: self.id,
            number: self.number,
            open: self.open,
            title: self.title@,
            description: self.description.deep_view(),
            fk_creator: self.fk_creator,
            open_issues: self.open_issues,
            closed_issues: self.closed_issues,
            created_at: self.created_at,
            updated_at: self.updated_at,
            closed_at: self.closed_at,
            due_on: self.due_on,
            repository: self.repository@,
        }
    }
}

/// An issue as fetched: everything but the identifier that storage assigns.
#[derive(Clone, Debug, Eq, Ord, PartialEq, PartialOrd)]
pub struct IssuePartial {
    pub number: i32,
    pub fk_milestone: Option<i32>,
    pub fk_user: i32,
    pub fk_assignee: Option<i32>,
    pub open: bool,
    pub is_pull_request: bool,
    pub title: String,
    pub body: String,
    pub locked: bool,
    pub closed_at: Option<Timestamp>,
    pub created_at: Timestamp,
    pub updated_at: Timestamp,
    pub labels: Vec<String>,
    pub repository: String,
}

/// A fetched issue, with its texts as character sequences.
pub ghost struct IssuePartialView {
    pub number: i32,
    pub fk_milestone: Option<i32>,
    pub fk_user: i32,
    pub fk_assignee: Option<i32>,
    pub open: bool,
    pub is_pull_request: bool,
    pub title: Seq<char>,
    pub body: Seq<char>,
    pub locked: bool,
    pub closed_at: Option<Timestamp>,
    pub created_at: Timestamp,
    pub updated_at: Timestamp,
    pub labels: Seq<Seq<char>>,
    pub repository: Seq<char>,
}

impl View for IssuePartial {
    type V = IssuePartialView;

    open spec fn view(&self) -> IssuePartialView {
        IssuePartialView {
            number: self.number,
            fk_milestone: self.fk_milestone,
            fk_user: self.fk_user,
            fk_assignee: self.fk_assignee,
            open: self.open,
            is_pull_request: self.is_pull_request,
            title: self.title@,
            body: self.body@,
            locked: self.locked,
            closed_at: self.closed_at,
            created_at: self.created_at,
            updated_at: self.updated_at,
            labels: self.labels.deep_view(),
            repository: self.repository@,
        }
    }
}

impl IssuePartialView {
    /// The stored issue that this content becomes under identifier `id`.
    pub open spec fn complete(self, id: i32) -> IssueView {
        IssueView {
            id,
            number: self.number,
            fk_milestone: self.fk_milestone,
            fk_user: self.fk_user,
            fk_assignee: self.fk_assignee,
            open: self.open,
            is_pull_request: self.is_pull_request,
            title: self.title,
            body: self.body,
            locked: self.locked,
            closed_at: self.closed_at,
            created_at: self.created_at,
            updated_at: self.updated_at,
            labels: self.labels,
            repository: self.repository,
        }
    }
}

impl IssuePartial {
    /// Completes the issue with the identifier that storage assigned to it.
    /// Every other field is carried over unchanged.
    pub fn complete(self, id: i32) -> (issue: Issue)
        ensures
            issue@ == self@.complete(id),
    {
        Issue {
            id: id,
            number: self.number,
            fk_milestone: self.fk_milestone,
            fk_user: self.fk_user,
            fk_assignee: self.fk_assignee,
            open: self.open,
            is_pull_request: self.is_pull_request,
            title: self.title,
            body: self.body,
            locked: self.locked,
            closed_at: self.closed_at,
            created_at: self.created_at,
            updated_at: self.updated_at,
            labels: self.labels,
            repository: self.repository,
        }
    }
}

/// A stored issue.
#[derive(Clone, Debug, Eq, Ord, PartialEq, PartialOrd)]
pub struct Issue {
    pub id: i32,
    pub number: i32,
    pub fk_milestone: Option<i32>,
    pub fk_user: i32,
    pub fk_assignee: Option<i32>,
    pub open: bool,
    pub is_pull_request: bool,
    pub title: String,
    pub body: String,
    pub locked: bool,
    pub closed_at: Option<Timestamp>,
    pub created_at: Timestamp,
    pub updated_at: Timestamp,
    pub labels: Vec<String>,
    pub repository: String,
}

/// A stored issue, with its texts as character sequences.
pub ghost struct IssueView {
    pub id: i32,
    pub number: i32,
    pub fk_milestone: Option<i32>,
    pub fk_user: i32,
    pub fk_assignee: Option<i32>,
    pub open: bool,
    pub is_pull_request: bool,
    pub title: Seq<char>,
    pub body: Seq<char>,
    pub locked: bool,
    pub closed_at: Option<Timestamp>,
    pub created_at: Timestamp,
    pub updated_at: Timestamp,
    pub labels: Seq<Seq<char>>,
    pub repository: Seq<char>,
}

impl View for Issue {
    type V = IssueView;

    open spec fn view(&self) -> IssueView {
        IssueView {
            id: self.id,
            number: self.number,
            fk_milestone: self.fk_milestone,
            fk_user: self.fk_user,
            fk_assignee: self.fk_assignee,
            open: self.open,
            is_pull_request: self.is_pull_request,
            title: self.title@,
            body: self.body@,
            locked: self.locked,
            closed_at: self.closed_at,
            created_at: self.created_at,
            updated_at: self.updated_at,
            labels: self.labels.deep_view(),
            repository: self.repository@,
        }
    }
}

/// A comment on an issue.
#[derive(Clone, Debug, Eq, Ord, PartialEq, PartialOrd)]
pub struct IssueComment {
    pub id: i32,
    pub fk_issue: i32,
    pub fk_user: i32,
    pub body: String,
    pub created_at: Timestamp,
    pub updated_at: Timestamp,
    pub repository: String,
}

/// A comment, with its texts as character sequences.
pub ghost struct IssueCommentView {
    pub id: i32,
    pub fk_issue: i32,
    pub fk_user: i32,
    pub body: Seq<char>,
    pub created_at: Timestamp,
    pub updated_at: Timestamp,
    pub repository: Seq<char>,
}

impl View for IssueComment {
    type V = IssueCommentView;

    open spec fn view(&self) -> IssueCommentView {
        IssueCommentView {
            id: self.id,
            fk_issue: self.fk_issue,
            fk_user: self.fk_user,
            body: self.body@,
            created_at: self.created_at,
            updated_at: self.updated_at,
            repository: self.repository@,
        }
    }
}

/// The pull-request side of an issue, keyed by the issue's number.
#[derive(Clone, Debug, Eq, Ord, PartialEq, PartialOrd)]
pub struct PullRequest {
    pub number: i32,
    pub state: String,
    pub title: String,
    pub body: Option<String>,
    pub fk_assignee: Option<i32>,
    pub fk_milestone: Option<i32>,
    pub locked: bool,
    pub created_at: Timestamp,
    pub updated_at: Timestamp,
    pub closed_at: Option<Timestamp>,
    pub merged_at: Option<Timestamp>,
    pub commits: i32,
    pub additions: i32,
    pub deletions: i32,
    pub changed_files: i32,
    pub repository: String,
}

/// A pull request, with its texts as character sequences.
pub ghost struct PullRequestView {
    pub number: i32,
    pub state: Seq<char>,
    pub title: Seq<char>,
    pub body: Option<Seq<char>>,
    pub fk_assignee: Option<i32>,
    pub fk_milestone: Option<i32>,
    pub locked: bool,
    pub created_at: Timestamp,
    pub updated_at: Timestamp,
    pub closed_at: Option<Timestamp>,
    pub merged_at: Option<Timestamp>,
    pub commits: i32,
    pub additions: i32,
    pub deletions: i32,
    pub changed_files: i32,
    pub repository: Seq<char>,
}

impl View for PullRequest {
    type V = PullRequestView;

    open spec fn view(&self) -> PullRequestView {
        PullRequestView {
            number: self.number,
            state: self.state@,
            title: self.title@,
            body: self.body.deep_view(),
            fk_assignee: self.fk_assignee,
            fk_milestone: self.fk_milestone,
            locked: self.locked,
            created_at: self.created_at,
            updated_at: self.updated_at,
            closed_at: self.closed_at,
            merged_at: self.merged_at,
            commits: self.commits,
            additions: self.additions,
            deletions: self.deletions,
            changed_files: self.changed_files,
            repository: self.repository@,
        }
    }
}

/// A team of the organisation.  Teams are entered by hand, not mirrored.
#[derive(Clone, Debug, Eq, Ord, PartialEq, PartialOrd)]
pub struct Team {
    pub id: i32,
    pub name: String,
    pub ping: String,
    pub label: String,
}

/// Membership of a user in a team.  Entered by hand, not mirrored.
#[derive(Clone, Debug, Eq, Ord, PartialEq, PartialOrd)]
pub struct Membership {
    pub id: i32,
    pub fk_member: i32,
    pub fk_team: i32,
}

} // verus!
