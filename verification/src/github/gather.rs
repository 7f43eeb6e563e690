//! From what a pass fetched to the batch it writes.
//!
//! The batch holds every user that a fetched record names, once; the
//! milestone of every issue that has one; and the rows of the issues,
//! comments and pull requests, each kind in the order it was fetched.

use crate::domain::github::{
    GitHubUser, GitHubUserView, IssueComment, IssuePartial, Milestone, MilestoneView, PullRequest,
};
use crate::github::models::{
    user_view, NormalizedComment, NormalizedCommentView, NormalizedIssue, NormalizedIssueView,
    NormalizedPullRequest, NormalizedPullRequestView,
};
use crate::github::reconcile::{lemma_ordered_by_phase, Batch, BatchView};
use crate::github::record::{KeyView, RecordView};
use crate::github::store::{lemma_closed_run_writes_all, lemma_phase_order_closes, run, StoreView};
use crate::github::users::{
    add_user, lemma_with_user_ascending, lemma_with_user_members, lemma_with_users_ascending,
    lemma_with_users_members, user_views, users_ascending, with_user, with_users,
};
use vstd::prelude::*;

verus! {

/// The normalised records that a pass fetched.
#[derive(Clone, Debug, PartialEq, Eq)]
pub struct Gathered {
    pub issues: Vec<NormalizedIssue>,
    pub comments: Vec<NormalizedComment>,
    pub pull_requests: Vec<NormalizedPullRequest>,
}

/// The fetched records, each in its view.
pub ghost struct GatheredView {
    pub issues: Seq<NormalizedIssueView>,
    pub comments: Seq<NormalizedCommentView>,
    pub pull_requests: Seq<NormalizedPullRequestView>,
}

/// The views of a list of normalised issues.
pub open spec fn issue_views(s: Seq<NormalizedIssue>) -> Seq<NormalizedIssueView> {
    Seq::new(s.len(), |i: int| s[i]@)
}

/// The views of a list of normalised comments.
pub open spec fn comment_views(s: Seq<NormalizedComment>) -> Seq<NormalizedCommentView> {
    Seq::new(s.len(), |i: int| s[i]@)
}

/// The views of a list of normalised pull requests.
pub open spec fn pull_request_views(s: Seq<NormalizedPullRequest>) -> Seq<
    NormalizedPullRequestView,
> {
    Seq::new(s.len(), |i: int| s[i]@)
}

impl View for Gathered {
    type V = GatheredView;

    open spec fn view(&self) -> GatheredView {
        GatheredView {
            issues: issue_views(self.issues@),
            comments: comment_views(self.comments@),
            pull_requests: pull_request_views(self.pull_requests@),
        }
    }
}

/// The one element of an option, or nothing.
pub open spec fn optional<T>(o: Option<T>) -> Seq<T> {
    match o {
        Some(x) => seq![x],
        None => Seq::empty(),
    }
}

/// The users that an issue names: its author, its assignee and the creator
/// of its milestone.
pub open spec fn issue_users(n: NormalizedIssueView) -> Seq<GitHubUserView> {
    seq![n.author] + optional(n.assignee) + optional(n.milestone_creator)
}

/// The set `set` with the users that the issues `s` name.
pub open spec fn users_with_issues(set: Seq<GitHubUserView>, s: Seq<NormalizedIssueView>) -> Seq<
    GitHubUserView,
>
    decreases s.len(),
{
    if s.len() == 0 {
        set
    } else {
        users_with_issues(with_users(set, issue_users(s[0])), s.drop_first())
    }
}

/// The set `set` with the authors of the comments `s`.
pub open spec fn users_with_comments(
    set: Seq<GitHubUserView>,
    s: Seq<NormalizedCommentView>,
) -> Seq<GitHubUserView>
    decreases s.len(),
{
    if s.len() == 0 {
        set
    } else {
        users_with_comments(with_user(set, s[0].author), s.drop_first())
    }
}

/// The set `set` with the assignees of the pull requests `s`.
pub open spec fn users_with_pull_requests(
    set: Seq<GitHubUserView>,
    s: Seq<NormalizedPullRequestView>,
) -> Seq<GitHubUserView>
    decreases s.len(),
{
    if s.len() == 0 {
        set
    } else {
        users_with_pull_requests(with_users(set, optional(s[0].assignee)), s.drop_first())
    }
}

/// The milestones of the issues `s` that have one, in the order of `s`.
pub open spec fn milestones_of(s: Seq<NormalizedIssueView>) -> Seq<MilestoneView>
    decreases s.len(),
{
    if s.len() == 0 {
        Seq::empty()
    } else {
        milestones_of(s.drop_last()) + optional(s.last().milestone)
    }
}

impl GatheredView {
    /// The set of users that the fetched records name.
    pub open spec fn users(self) -> Seq<GitHubUserView> {
        users_with_pull_requests(
            users_with_comments(users_with_issues(Seq::empty(), self.issues), self.comments),
            self.pull_requests,
        )
    }

    /// The batch that is written for the fetched records.
    pub open spec fn batch(self) -> BatchView {
        BatchView {
            users: self.users(),
            milestones: milestones_of(self.issues),
            issues: Seq::new(self.issues.len(), |i: int| self.issues[i].issue),
            comments: Seq::new(self.comments.len(), |i: int| self.comments[i].comment),
            pull_requests: Seq::new(
                self.pull_requests.len(),
                |i: int| self.pull_requests[i].pull_request,
            ),
        }
    }

    /// Whether every fetched row names exactly the users and the milestone
    /// that were fetched with it.
    pub open spec fn consistent(self) -> bool {
        &&& forall|i: int| 0 <= i < self.issues.len() ==> (#[trigger] self.issues[i]).consistent()
        &&& forall|i: int|
            0 <= i < self.comments.len() ==> (#[trigger] self.comments[i]).consistent()
        &&& forall|i: int|
            0 <= i < self.pull_requests.len() ==> (#[trigger] self.pull_requests[i]).consistent()
    }
}

/// Adding one list of users after another adds their concatenation.
pub proof fn lemma_with_users_append(
    set: Seq<GitHubUserView>,
    first: Seq<GitHubUserView>,
    second: Seq<GitHubUserView>,
)
    ensures
        with_users(set, first + second) == with_users(with_users(set, first), second),
    decreases first.len(),
{
    if first.len() == 0 {
        assert(first + second == second);
    } else {
        assert((first + second)[0] == first[0]);
        assert((first + second).drop_first() == first.drop_first() + second);
        lemma_with_users_append(with_user(set, first[0]), first.drop_first(), second);
    }
}

fn add_optional_user(users: &mut Vec<GitHubUser>, user: Option<GitHubUser>)
    ensures
        user_views(final(users)@) == with_users(user_views(old(users)@), optional(user_view(user))),
{
    match user {
        Some(u) => {
            add_user(users, u);
            assert(optional(user_view(user)).drop_first().len() == 0);
            assert(with_users(user_views(old(users)@), optional(user_view(user))) == with_users(
                with_user(user_views(old(users)@), u@),
                optional(user_view(user)).drop_first(),
            ));
        },
        None => {},
    }
}

impl Gathered {
    /// Builds the batch that is written for the fetched records.
    pub fn into_batch(self) -> (batch: Batch)
        ensures
            batch@ == self@.batch(),
    {
        let Gathered { issues, comments, pull_requests } = self;
        let ghost g = self@;
        let mut users: Vec<GitHubUser> = Vec::new();
        let mut milestones: Vec<Milestone> = Vec::new();
        let mut issue_rows: Vec<IssuePartial> = Vec::new();
        let mut comment_rows: Vec<IssueComment> = Vec::new();
        let mut pull_request_rows: Vec<PullRequest> = Vec::new();
        let ghost all_issues = issues@;
        assert(g.issues.skip(0) == g.issues);
        assert(user_views(users@) =~= Seq::empty());
        assert(g.issues.take(0) =~= Seq::empty());
        for issue in it: issues
            invariant
                it.seq() == all_issues,
                g.issues == issue_views(all_issues),
                users_with_issues(user_views(users@), g.issues.skip(it.index() as int))
                    == users_with_issues(Seq::empty(), g.issues),
                Seq::new(milestones@.len(), |i: int| milestones@[i]@) == milestones_of(
                    g.issues.take(it.index() as int),
                ),
                issue_rows@.len() == it.index(),
                forall|j: int| 0 <= j < issue_rows@.len() ==> issue_rows@[j]@ == g.issues[j].issue,
        {
            let ghost i = it.index() as int;
            let ghost n = g.issues[i];
            let ghost before = user_views(users@);
            let ghost kept = Seq::new(milestones@.len(), |i: int| milestones@[i]@);
            assert(n == issue@);
            assert(g.issues.skip(i)[0] == n);
            assert(g.issues.skip(i).drop_first() == g.issues.skip(i + 1));
            assert(g.issues.take(i + 1).drop_last() == g.issues.take(i));
            assert(g.issues.take(i + 1).last() == n);
            let NormalizedIssue { issue: row, author, assignee, milestone, milestone_creator, .. } =
                issue;
            add_user(&mut users, author);
            let ghost one = user_views(users@);
            add_optional_user(&mut users, assignee);
            add_optional_user(&mut users, milestone_creator);
            proof {
                let first = seq![n.author];
                assert(with_users(before, first) == one) by {
                    assert(first.drop_first().len() == 0);
                    assert(with_users(with_user(before, first[0]), first.drop_first()) == one);
                }
                lemma_with_users_append(before, first, optional(n.assignee));
                lemma_with_users_append(
                    before,
                    first + optional(n.assignee),
                    optional(n.milestone_creator),
                );
            }
            match milestone {
                Some(m) => {
                    milestones.push(m);
                    assert(Seq::new(milestones@.len(), |i: int| milestones@[i]@) =~= kept + seq![
                        m@,
                    ]);
                },
                None => {
                    assert(kept + Seq::<MilestoneView>::empty() =~= kept);
                },
            }
            issue_rows.push(row);
        }
        assert(g.issues.take(all_issues.len() as int) == g.issues);
        let ghost all_comments = comments@;
        let ghost after_issues = user_views(users@);
        assert(g.comments.skip(0) == g.comments);
        for comment in it: comments
            invariant
                it.seq() == all_comments,
                g.comments == comment_views(all_comments),
                users_with_comments(user_views(users@), g.comments.skip(it.index() as int))
                    == users_with_comments(after_issues, g.comments),
                comment_rows@.len() == it.index(),
                forall|j: int|
                    0 <= j < comment_rows@.len() ==> comment_rows@[j]@ == g.comments[j].comment,
        {
            let ghost i = it.index() as int;
            assert(g.comments[i] == comment@);
            assert(g.comments.skip(i)[0] == comment@);
            assert(g.comments.skip(i).drop_first() == g.comments.skip(i + 1));
            let NormalizedComment { comment: row, author } = comment;
            add_user(&mut users, author);
            comment_rows.push(row);
        }
        let ghost all_pull_requests = pull_requests@;
        let ghost after_comments = user_views(users@);
        assert(g.pull_requests.skip(0) == g.pull_requests);
        for pull_request in it: pull_requests
            invariant
                it.seq() == all_pull_requests,
                g.pull_requests == pull_request_views(all_pull_requests),
                users_with_pull_requests(
                    user_views(users@),
                    g.pull_requests.skip(it.index() as int),
                ) == users_with_pull_requests(after_comments, g.pull_requests),
                pull_request_rows@.len() == it.index(),
                forall|j: int|
                    0 <= j < pull_request_rows@.len() ==> pull_request_rows@[j]@
                        == g.pull_requests[j].pull_request,
        {
            let ghost i = it.index() as int;
            assert(g.pull_requests[i] == pull_request@);
            assert(g.pull_requests.skip(i)[0] == pull_request@);
            assert(g.pull_requests.skip(i).drop_first() == g.pull_requests.skip(i + 1));
            let NormalizedPullRequest { pull_request: row, assignee } = pull_request;
            add_optional_user(&mut users, assignee);
            pull_request_rows.push(row);
        }
        let batch = Batch {
            users,
            milestones,
            issues: issue_rows,
            comments: comment_rows,
            pull_requests: pull_request_rows,
        };
        assert(batch@.users =~= g.batch().users);
        assert(batch@.milestones =~= g.batch().milestones);
        assert(batch@.issues =~= g.batch().issues);
        assert(batch@.comments =~= g.batch().comments);
        assert(batch@.pull_requests =~= g.batch().pull_requests);
        batch
    }
}

/// The set built from issues holds every user it held before and every
/// user that one of the issues names.
pub proof fn lemma_issue_users_are_members(set: Seq<GitHubUserView>, s: Seq<NormalizedIssueView>)
    ensures
        forall|x: GitHubUserView| set.contains(x) ==> users_with_issues(set, s).contains(x),
        forall|i: int, x: GitHubUserView|
            0 <= i < s.len() && issue_users(s[i]).contains(x) ==> users_with_issues(
                set,
                s,
            ).contains(x),
    decreases s.len(),
{
    if s.len() > 0 {
        let next = with_users(set, issue_users(s[0]));
        let rest = s.drop_first();
        lemma_with_users_members(set, issue_users(s[0]));
        lemma_issue_users_are_members(next, rest);
        assert forall|i: int, x: GitHubUserView|
            0 <= i < s.len() && issue_users(s[i]).contains(x) implies users_with_issues(
            set,
            s,
        ).contains(x) by {
            if i > 0 {
                assert(rest[i - 1] == s[i]);
            } else {
                assert(next.contains(x));
            }
        }
    }
}

/// The set built from comments holds every user it held before and the
/// author of every comment.
pub proof fn lemma_comment_users_are_members(
    set: Seq<GitHubUserView>,
    s: Seq<NormalizedCommentView>,
)
    ensures
        forall|x: GitHubUserView| set.contains(x) ==> users_with_comments(set, s).contains(x),
        forall|i: int| 0 <= i < s.len() ==> users_with_comments(set, s).contains(s[i].author),
    decreases s.len(),
{
    if s.len() > 0 {
        let next = with_user(set, s[0].author);
        let rest = s.drop_first();
        lemma_with_user_members(set, s[0].author);
        lemma_comment_users_are_members(next, rest);
        assert forall|i: int| 0 <= i < s.len() implies users_with_comments(set, s).contains(
            s[i].author,
        ) by {
            if i > 0 {
                assert(rest[i - 1] == s[i]);
            } else {
                assert(next.contains(s[0].author));
            }
        }
    }
}

/// The set built from pull requests holds every user it held before and
/// the assignee of every pull request that has one.
pub proof fn lemma_pull_request_users_are_members(
    set: Seq<GitHubUserView>,
    s: Seq<NormalizedPullRequestView>,
)
    ensures
        forall|x: GitHubUserView| set.contains(x) ==> users_with_pull_requests(set, s).contains(x),
        forall|i: int|
            0 <= i < s.len() && s[i].assignee is Some ==> users_with_pull_requests(
                set,
                s,
            ).contains(s[i].assignee->0),
    decreases s.len(),
{
    if s.len() > 0 {
        let next = with_users(set, optional(s[0].assignee));
        let rest = s.drop_first();
        lemma_with_users_members(set, optional(s[0].assignee));
        lemma_pull_request_users_are_members(next, rest);
        assert forall|i: int| 0 <= i < s.len() && s[i].assignee is Some implies
            users_with_pull_requests(set, s).contains(s[i].assignee->0) by {
            if i > 0 {
                assert(rest[i - 1] == s[i]);
            } else {
                assert(optional(s[0].assignee)[0] == s[0].assignee->0);
                assert(optional(s[0].assignee).contains(s[0].assignee->0));
                assert(next.contains(s[0].assignee->0));
            }
        }
    }
}

/// The milestones of a list of issues are exactly the milestones that its
/// issues have.
pub proof fn lemma_milestones_are_members(s: Seq<NormalizedIssueView>)
    ensures
        forall|i: int|
            0 <= i < s.len() && s[i].milestone is Some ==> milestones_of(s).contains(
                s[i].milestone->0,
            ),
        forall|m: MilestoneView|
            milestones_of(s).contains(m) ==> exists|i: int|
                0 <= i < s.len() && #[trigger] s[i].milestone == Some(m),
    decreases s.len(),
{
    if s.len() > 0 {
        let head = s.drop_last();
        let all = milestones_of(s);
        lemma_milestones_are_members(head);
        assert forall|i: int| 0 <= i < s.len() && s[i].milestone is Some implies all.contains(
            s[i].milestone->0,
        ) by {
            let m = s[i].milestone->0;
            if i < s.len() - 1 {
                assert(head[i] == s[i]);
                assert(milestones_of(head).contains(m));
                let k = choose|k: int| 0 <= k < milestones_of(head).len() && milestones_of(head)[k] == m;
                assert(all[k] == m);
            } else {
                assert(all[milestones_of(head).len() as int] == m);
            }
        }
        assert forall|m: MilestoneView| all.contains(m) implies exists|i: int|
            0 <= i < s.len() && #[trigger] s[i].milestone == Some(m) by {
            let k = choose|k: int| 0 <= k < all.len() && all[k] == m;
            if k < milestones_of(head).len() {
                assert(milestones_of(head)[k] == m);
                assert(milestones_of(head).contains(m));
                let i = choose|i: int| 0 <= i < head.len() && #[trigger] head[i].milestone == Some(m);
                assert(s[i].milestone == Some(m));
            } else {
                assert(s[s.len() - 1].milestone == Some(m));
            }
        }
    }
}

proof fn lemma_issue_users_ascending(set: Seq<GitHubUserView>, s: Seq<NormalizedIssueView>)
    requires
        users_ascending(set),
    ensures
        users_ascending(users_with_issues(set, s)),
    decreases s.len(),
{
    if s.len() > 0 {
        lemma_with_users_ascending(set, issue_users(s[0]));
        lemma_issue_users_ascending(with_users(set, issue_users(s[0])), s.drop_first());
    }
}

proof fn lemma_comment_users_ascending(set: Seq<GitHubUserView>, s: Seq<NormalizedCommentView>)
    requires
        users_ascending(set),
    ensures
        users_ascending(users_with_comments(set, s)),
    decreases s.len(),
{
    if s.len() > 0 {
        lemma_with_user_ascending(set, s[0].author);
        lemma_comment_users_ascending(with_user(set, s[0].author), s.drop_first());
    }
}

proof fn lemma_pull_request_users_ascending(
    set: Seq<GitHubUserView>,
    s: Seq<NormalizedPullRequestView>,
)
    requires
        users_ascending(set),
    ensures
        users_ascending(users_with_pull_requests(set, s)),
    decreases s.len(),
{
    if s.len() > 0 {
        lemma_with_users_ascending(set, optional(s[0].assignee));
        lemma_pull_request_users_ascending(
            with_users(set, optional(s[0].assignee)),
            s.drop_first(),
        );
    }
}

/// The users of a batch stand in strictly increasing order of identifier
/// and login: each user that the fetched records name is in the batch
/// once.
pub proof fn lemma_batch_users_ascending(g: GatheredView)
    ensures
        users_ascending(g.batch().users),
{
    let from_issues = users_with_issues(Seq::empty(), g.issues);
    let from_comments = users_with_comments(from_issues, g.comments);
    lemma_issue_users_ascending(Seq::empty(), g.issues);
    lemma_comment_users_ascending(from_issues, g.comments);
    lemma_pull_request_users_ascending(from_comments, g.pull_requests);
}

/// Whether the list holds a record with the natural key `key`.
pub open spec fn has_record(records: Seq<RecordView>, key: KeyView) -> bool {
    exists|h: int| 0 <= h < records.len() && (#[trigger] records[h]).key() == key
}

/// The batch built from fetched records holds the row of every user and of
/// every milestone that one of its records refers to.
pub proof fn lemma_batch_holds_users_and_milestones(g: GatheredView)
    requires
        g.consistent(),
    ensures
        forall|i: int, j: int|
            0 <= i < g.batch().ordered().len() && 0 <= j < g.batch().ordered()[i].references().len()
                && !(#[trigger] g.batch().ordered()[i].references()[j] is Issue) ==> has_record(
                g.batch().ordered(),
                g.batch().ordered()[i].references()[j],
            ),
{
    let b = g.batch();
    let o = b.ordered();
    let n1 = b.users.len() as int;
    let n2 = n1 + b.milestones.len();
    let n3 = n2 + b.issues.len();
    let n4 = n3 + b.comments.len();
    let from_issues = users_with_issues(Seq::empty(), g.issues);
    let from_comments = users_with_comments(from_issues, g.comments);
    lemma_issue_users_are_members(Seq::empty(), g.issues);
    lemma_comment_users_are_members(from_issues, g.comments);
    lemma_pull_request_users_are_members(from_comments, g.pull_requests);
    lemma_milestones_are_members(g.issues);
    assert forall|u: GitHubUserView| b.users.contains(u) implies has_record(
        o,
        KeyView::User(u.id),
    ) by {
        let h = choose|h: int| 0 <= h < b.users.len() && b.users[h] == u;
        assert(o[h] == RecordView::User(u));
    }
    assert forall|m: MilestoneView| b.milestones.contains(m) implies has_record(
        o,
        KeyView::Milestone(m.id),
    ) by {
        let h = choose|h: int| 0 <= h < b.milestones.len() && b.milestones[h] == m;
        assert(o[n1 + h] == RecordView::Milestone(m));
    }
    assert forall|k: int, x: GitHubUserView|
        0 <= k < g.issues.len() && issue_users(g.issues[k]).contains(x) implies b.users.contains(
        x,
    ) by {
        assert(from_issues.contains(x));
        assert(from_comments.contains(x));
    }
    assert forall|i: int, j: int|
        0 <= i < o.len() && 0 <= j < o[i].references().len() && !(
        #[trigger] o[i].references()[j] is Issue) implies has_record(o, o[i].references()[j]) by {
        let wanted = o[i].references()[j];
        if i < n1 {
        } else if i < n2 {
            let m = b.milestones[i - n1];
            assert(o[i] == RecordView::Milestone(m));
            assert(b.milestones.contains(m));
            let k = choose|k: int| 0 <= k < g.issues.len() && #[trigger] g.issues[k].milestone == Some(m);
            assert(g.issues[k].consistent());
            let c = g.issues[k].milestone_creator->0;
            let named = issue_users(g.issues[k]);
            assert(named[named.len() - 1] == c);
            assert(named.contains(c));
            assert(b.users.contains(c));
        } else if i < n3 {
            let n = g.issues[i - n2];
            assert(o[i] == RecordView::Issue(n.issue));
            assert(n.consistent());
            let named = issue_users(n);
            assert(named[0] == n.author);
            assert(named.contains(n.author));
            assert(b.users.contains(n.author));
            if n.assignee is Some {
                assert(named[1] == n.assignee->0);
                assert(named.contains(n.assignee->0));
                assert(b.users.contains(n.assignee->0));
            }
            if n.milestone is Some {
                assert(b.milestones.contains(n.milestone->0));
            }
        } else if i < n4 {
            let c = g.comments[i - n3];
            assert(o[i] == RecordView::Comment(c.comment));
            assert(c.consistent());
            assert(from_comments.contains(c.author));
            assert(b.users.contains(c.author));
        } else {
            let p = g.pull_requests[i - n4];
            assert(o[i] == RecordView::PullRequest(p.pull_request));
            assert(p.consistent());
            if p.assignee is Some {
                assert(b.users.contains(p.assignee->0));
            }
        }
    }
}

/// Whether the issue that a comment or a pull request of the list belongs
/// to is stored or is a record of the list.
pub open spec fn issues_resolve(store: StoreView, records: Seq<RecordView>) -> bool {
    forall|i: int, j: int|
        0 <= i < records.len() && 0 <= j < records[i].references().len() && (
        #[trigger] records[i].references()[j] is Issue) ==> store.holds(records[i].references()[j])
            || has_record(records, records[i].references()[j])
}

/// A batch built from fetched records is written in full, whatever storage
/// held before, provided that the issue of every fetched comment and pull
/// request was fetched too or is stored, and that storage has identifiers
/// left for the new issues.  The users and milestones that the records
/// name need not be stored: the batch brings them, and its order puts them
/// first.
pub proof fn lemma_gathered_batch_is_written(store: StoreView, g: GatheredView)
    requires
        g.consistent(),
        issues_resolve(store, g.batch().ordered()),
        store.next_id + g.batch().ordered().len() <= i32::MAX,
    ensures
        run(store, g.batch().ordered()).rejected is None,
        run(store, g.batch().ordered()).written == g.batch().ordered().len(),
{
    let o = g.batch().ordered();
    lemma_batch_holds_users_and_milestones(g);
    lemma_ordered_by_phase(g.batch());
    assert forall|i: int, j: int|
        0 <= i < o.len() && 0 <= j < o[i].references().len() implies store.holds(
        #[trigger] o[i].references()[j],
    ) || exists|h: int| 0 <= h < o.len() && (#[trigger] o[h]).key() == o[i].references()[j] by {
        let wanted = o[i].references()[j];
        if !store.holds(wanted) {
            assert(has_record(o, wanted));
        }
    }
    lemma_phase_order_closes(store, o);
    lemma_closed_run_writes_all(store, o);
}

} // verus!
