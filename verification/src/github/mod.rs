//! The synchronisation pass against the remote tracker.
//!
//! A pass fetches the issues updated since a watermark, then the comments,
//! then the detail of every fetched issue that is a pull request, one at a
//! time.  The first failed fetch ends all fetching.  Whatever was fetched
//! until then is written: users first, then milestones, issues, comments
//! and pull requests.
//!
//! The pass is a sequence of steps.  Each step tells the caller what to do
//! next, a request to send or a storage operation to perform, and takes
//! the outcome to produce the step after it.

pub mod client;
pub mod gather;
pub mod link;
pub mod memory;
pub mod models;
pub mod paging;
pub mod params;
pub mod reconcile;
pub mod record;
pub mod store;
pub mod users;

use crate::error::{DashError, DashErrorView, DashResult, FailureKind};
use crate::github::client::{Client, ClientView, Request, RequestView, DELAY};
use crate::github::gather::{comment_views, issue_views, Gathered, GatheredView};
use crate::github::link::next_page_of;
use crate::github::models::{
    CommentFromJson, IssueFromJson, NormalizedComment, NormalizedCommentView, NormalizedIssue,
    NormalizedIssueView, NormalizedPullRequest, PullRequestFromJson,
};
use crate::github::paging::{succ, FetchStep, PageFetch, PageResult};
use crate::github::reconcile::{
    begin, proceed, LookupView, PendingLookup, PendingWrite, Report, ReportView, Statement,
    StatementView, Step, StepView, WriteView,
};
use crate::time::Timestamp;
use vstd::prelude::*;
use vstd::string::StringExecFns;

verus! {

/// The part of the fetching in which a failure occurred.
#[derive(Clone, Copy, Debug, PartialEq, Eq, Structural)]
pub enum Stage {
    Issues,
    Comments,
    PullRequests,
}

/// The failure that ended the fetching of a pass.
#[derive(Clone, Debug, PartialEq, Eq)]
pub struct IngestFailure {
    pub stage: Stage,
    pub kind: FailureKind,
    /// For a collection, the number of the page that failed; for pull
    /// requests, the ordinal of the detail that failed.  Counted from 1.
    pub page: u64,
    pub cause: DashError,
}

/// A fetch failure, with the cause in its view.
pub ghost struct IngestFailureView {
    pub stage: Stage,
    pub kind: FailureKind,
    pub page: u64,
    pub cause: DashErrorView,
}

impl View for IngestFailure {
    type V = IngestFailureView;

    open spec fn view(&self) -> IngestFailureView {
        IngestFailureView { stage: self.stage, kind: self.kind, page: self.page, cause: self.cause@ }
    }
}

/// How a pass ended.
#[derive(Clone, Debug, PartialEq, Eq)]
pub struct SyncReport {
    /// Number of issues fetched.
    pub issues: usize,
    /// Number of comments fetched.
    pub comments: usize,
    /// Number of pull-request details fetched.
    pub pull_requests: usize,
    /// The failure that ended the fetching, if one did.
    pub fetch_failure: Option<IngestFailure>,
    /// How the writing of what was fetched ended.
    pub report: Report,
}

/// The counts of what was fetched and the failure that ended the fetching.
pub ghost struct SummaryView {
    pub issues: nat,
    pub comments: nat,
    pub pull_requests: nat,
    pub fetch_failure: Option<IngestFailureView>,
}

/// The end of a pass: what was fetched and how the writing ended.
pub ghost struct SyncReportView {
    pub summary: SummaryView,
    pub report: ReportView,
}

impl View for SyncReport {
    type V = SyncReportView;

    open spec fn view(&self) -> SyncReportView {
        SyncReportView {
            summary: SummaryView {
                issues: self.issues as nat,
                comments: self.comments as nat,
                pull_requests: self.pull_requests as nat,
                fetch_failure: match self.fetch_failure {
                    Some(f) => Some(f@),
                    None => None,
                },
            },
            report: self.report@,
        }
    }
}

impl SyncReport {
    /// Whether the pass fetched and wrote everything.
    pub open spec fn complete(&self) -> bool {
        self.fetch_failure is None && self.report.failure is None
    }

    /// The pass as a result: the error of the fetch failure if there is
    /// one, otherwise that of the write failure, otherwise success.
    pub fn into_result(self) -> (r: DashResult<()>)
        ensures
            r is Ok == self.complete(),
            r matches Err(e) ==> e == (match self.fetch_failure {
                Some(f) => f.cause,
                None => self.report.failure->0.cause,
            }),
    {
        match self.fetch_failure {
            Some(f) => Err(f.cause),
            None => match self.report.failure {
                Some(f) => Err(f.cause),
                None => Ok(()),
            },
        }
    }
}

/// What every step of a pass needs to make requests.
#[derive(Debug)]
pub struct Context {
    client: Client,
    repo: String,
    since: String,
}

/// The client, the repository and the text of the watermark of a pass.
pub ghost struct ContextView {
    pub client: ClientView,
    pub repo: Seq<char>,
    pub since: Seq<char>,
}

impl View for Context {
    type V = ContextView;

    closed spec fn view(&self) -> ContextView {
        ContextView { client: self.client@, repo: self.repo@, since: self.since@ }
    }
}

/// A pass that waits for a page of issues.
#[derive(Debug)]
pub struct IssuesPending {
    context: Context,
    fetch: PageFetch<NormalizedIssue>,
}

/// The state of a pass that waits for a page of issues.
pub ghost struct IssuesView {
    pub context: ContextView,
    /// The issues fetched so far.
    pub issues: Seq<NormalizedIssueView>,
    /// Number of pages they came on.
    pub pages: u64,
}

impl View for IssuesPending {
    type V = IssuesView;

    closed spec fn view(&self) -> IssuesView {
        IssuesView {
            context: self.context@,
            issues: issue_views(self.fetch@.entities),
            pages: self.fetch@.pages,
        }
    }
}

/// A pass that waits for a page of comments.
#[derive(Debug)]
pub struct CommentsPending {
    context: Context,
    issues: Vec<NormalizedIssue>,
    fetch: PageFetch<NormalizedComment>,
}

/// The state of a pass that waits for a page of comments.
pub ghost struct CommentsView {
    pub context: ContextView,
    pub issues: Seq<NormalizedIssueView>,
    /// The comments fetched so far.
    pub comments: Seq<NormalizedCommentView>,
    /// Number of pages they came on.
    pub pages: u64,
}

impl View for CommentsPending {
    type V = CommentsView;

    closed spec fn view(&self) -> CommentsView {
        CommentsView {
            context: self.context@,
            issues: issue_views(self.issues@),
            comments: comment_views(self.fetch@.entities),
            pages: self.fetch@.pages,
        }
    }
}

/// A pass that waits for the detail of a pull request.
#[derive(Debug)]
pub struct DetailPending {
    context: Context,
    gathered: Gathered,
    cursor: usize,
}

/// The state of a pass that waits for a pull-request detail.
pub ghost struct DetailView {
    pub context: ContextView,
    /// What was fetched so far.
    pub gathered: GatheredView,
    /// Position of the issue whose detail is awaited.
    pub cursor: nat,
}

impl View for DetailPending {
    type V = DetailView;

    closed spec fn view(&self) -> DetailView {
        DetailView { context: self.context@, gathered: self.gathered@, cursor: self.cursor as nat }
    }
}

/// The counts and the fetch failure that the final report carries.
#[derive(Debug)]
pub struct Summary {
    issues: usize,
    comments: usize,
    pull_requests: usize,
    fetch_failure: Option<IngestFailure>,
}

impl View for Summary {
    type V = SummaryView;

    closed spec fn view(&self) -> SummaryView {
        SummaryView {
            issues: self.issues as nat,
            comments: self.comments as nat,
            pull_requests: self.pull_requests as nat,
            fetch_failure: match self.fetch_failure {
                Some(f) => Some(f@),
                None => None,
            },
        }
    }
}

/// Where a pass stands, and what the caller is to do next.
#[derive(Debug)]
pub enum IngestStep {
    /// Send the request and decode the body as a list of issues.
    FetchIssues(Request, IssuesPending),
    /// Send the request and decode the body as a list of comments.
    FetchComments(Request, CommentsPending),
    /// Send the request and decode the body as one pull request.
    FetchPullRequest(Request, DetailPending),
    /// Look up the key of the pending lookup.
    Lookup(PendingLookup, Summary),
    /// Perform the statement.
    Write(Statement, PendingWrite, Summary),
    /// The pass is over.
    Finished(SyncReport),
}

/// A step of a pass, each part in its view.
pub ghost enum IngestView {
    FetchIssues(RequestView, IssuesView),
    FetchComments(RequestView, CommentsView),
    FetchPullRequest(RequestView, DetailView),
    Lookup(LookupView, SummaryView),
    Write(StatementView, WriteView, SummaryView),
    Finished(SyncReportView),
}

impl View for IngestStep {
    type V = IngestView;

    open spec fn view(&self) -> IngestView {
        match self {
            IngestStep::FetchIssues(r, p) => IngestView::FetchIssues(r@, p@),
            IngestStep::FetchComments(r, p) => IngestView::FetchComments(r@, p@),
            IngestStep::FetchPullRequest(r, p) => IngestView::FetchPullRequest(r@, p@),
            IngestStep::Lookup(l, s) => IngestView::Lookup(l@, s@),
            IngestStep::Write(s, w, x) => IngestView::Write(s@, w@, x@),
            IngestStep::Finished(r) => IngestView::Finished(r@),
        }
    }
}

/// A step of the writing, as a step of the pass.
pub open spec fn writing(step: StepView, summary: SummaryView) -> IngestView {
    match step {
        StepView::Lookup(l) => IngestView::Lookup(l, summary),
        StepView::Write(s, w) => IngestView::Write(s, w, summary),
        StepView::Finished(report) => IngestView::Finished(SyncReportView { summary, report }),
    }
}

/// The step that ends the fetching: the writing of everything fetched
/// begins, with the fetch failure, if any, kept for the final report.
pub open spec fn reconcile_from(g: GatheredView, failure: Option<IngestFailureView>) -> IngestView {
    writing(
        proceed(g.batch().ordered(), 0),
        SummaryView {
            issues: g.issues.len(),
            comments: g.comments.len(),
            pull_requests: g.pull_requests.len(),
            fetch_failure: failure,
        },
    )
}

/// Position of the first issue at or after `from` that carries a
/// pull-request stub; the number of issues if there is none.
pub open spec fn next_stub(issues: Seq<NormalizedIssueView>, from: nat) -> nat
    decreases issues.len() - from,
{
    if from >= issues.len() {
        issues.len()
    } else if issues[from as int].pull_request is Some {
        from
    } else {
        next_stub(issues, from + 1)
    }
}

/// The ordinal of the detail that follows `fetched` details.
pub open spec fn ordinal(fetched: nat) -> u64 {
    if fetched < u64::MAX {
        (fetched + 1) as u64
    } else {
        u64::MAX
    }
}

/// The step that looks for the next pull-request detail to fetch, from the
/// issue at position `from` on.  When no issue with a stub is left the
/// writing begins.  A stub without a detail link ends the fetching.
pub open spec fn seek_detail(context: ContextView, g: GatheredView, from: nat) -> IngestView {
    let k = next_stub(g.issues, from);
    if k >= g.issues.len() {
        reconcile_from(g, None)
    } else {
        match g.issues[k as int].pull_request->0.url {
            Some(url) => IngestView::FetchPullRequest(
                context.client.request(url@, None, 0),
                DetailView { context, gathered: g, cursor: k },
            ),
            None => reconcile_from(
                g,
                Some(
                    IngestFailureView {
                        stage: Stage::PullRequests,
                        kind: FailureKind::MissingDetailURL,
                        page: ordinal(g.pull_requests.len()),
                        cause: DashErrorView::Misc(None),
                    },
                ),
            ),
        }
    }
}

/// The normal forms of a page of issues.
pub open spec fn normal_issues(items: Seq<IssueFromJson>, repo: Seq<char>) -> Seq<
    NormalizedIssueView,
> {
    Seq::new(items.len(), |i: int| items[i].normal(repo))
}

/// Whether every comment of a page names its issue.
pub open spec fn comments_decode(items: Seq<CommentFromJson>, repo: Seq<char>) -> bool {
    forall|i: int| 0 <= i < items.len() ==> (#[trigger] items[i]).normal(repo) is Some
}

/// The normal forms of a page of comments that all name their issue.
pub open spec fn normal_comments(items: Seq<CommentFromJson>, repo: Seq<char>) -> Seq<
    NormalizedCommentView,
> {
    Seq::new(items.len(), |i: int| items[i].normal(repo)->0)
}

/// The text of the error for a page with a comment that names no issue.
pub open spec fn malformed_comment() -> DashErrorView {
    DashErrorView::Serde("comment address names no issue"@)
}

impl IssuesView {
    /// The step after the outcome of a request for a page of issues.
    ///
    /// A failure ends the fetching; the issues of earlier pages are
    /// written.  A page adds its issues in normal form.  If its link list
    /// names a next page, that page is requested after the delay;
    /// otherwise the comments are requested.
    pub open spec fn answer(self, result: PageResult<IssueFromJson>) -> IngestView {
        match result {
            PageResult::Failed(cause) => reconcile_from(
                GatheredView {
                    issues: self.issues,
                    comments: Seq::empty(),
                    pull_requests: Seq::empty(),
                },
                Some(
                    IngestFailureView {
                        stage: Stage::Issues,
                        kind: cause.fetch_kind(),
                        page: succ(self.pages),
                        cause: cause@,
                    },
                ),
            ),
            PageResult::Page { items, link } => {
                let issues = self.issues + normal_issues(items@, self.context.repo);
                match next_page_of(link) {
                    Some(url) => IngestView::FetchIssues(
                        self.context.client.request(url, None, DELAY),
                        IssuesView { context: self.context, issues, pages: succ(self.pages) },
                    ),
                    None => IngestView::FetchComments(
                        self.context.client.comments_request(self.context.repo, self.context.since),
                        CommentsView {
                            context: self.context,
                            issues,
                            comments: Seq::empty(),
                            pages: 0,
                        },
                    ),
                }
            },
        }
    }
}

impl CommentsView {
    /// What was fetched when the fetching of comments ends with the
    /// comments `comments`.
    pub open spec fn gathered(self, comments: Seq<NormalizedCommentView>) -> GatheredView {
        GatheredView { issues: self.issues, comments, pull_requests: Seq::empty() }
    }

    /// The step after the outcome of a request for a page of comments.
    ///
    /// A failure ends the fetching, and so does a page with a comment
    /// whose address names no issue, which counts as a page that does not
    /// decode; the issues and the comments of earlier pages are written.
    /// Otherwise the page adds its comments in normal form.  If its link
    /// list names a next page, that page is requested after the delay;
    /// otherwise the pull-request details are fetched.
    pub open spec fn answer(self, result: PageResult<CommentFromJson>) -> IngestView {
        match result {
            PageResult::Failed(cause) => reconcile_from(
                self.gathered(self.comments),
                Some(
                    IngestFailureView {
                        stage: Stage::Comments,
                        kind: cause.fetch_kind(),
                        page: succ(self.pages),
                        cause: cause@,
                    },
                ),
            ),
            PageResult::Page { items, link } => {
                if !comments_decode(items@, self.context.repo) {
                    reconcile_from(
                        self.gathered(self.comments),
                        Some(
                            IngestFailureView {
                                stage: Stage::Comments,
                                kind: FailureKind::DecodeFailure,
                                page: succ(self.pages),
                                cause: malformed_comment(),
                            },
                        ),
                    )
                } else {
                    let comments = self.comments + normal_comments(items@, self.context.repo);
                    match next_page_of(link) {
                        Some(url) => IngestView::FetchComments(
                            self.context.client.request(url, None, DELAY),
                            CommentsView {
                                context: self.context,
                                issues: self.issues,
                                comments,
                                pages: succ(self.pages),
                            },
                        ),
                        None => seek_detail(self.context, self.gathered(comments), 0),
                    }
                }
            },
        }
    }
}

impl DetailView {
    /// The step after the outcome of a request for a pull-request detail.
    ///
    /// A failure ends the fetching: no further detail is requested, and
    /// everything fetched so far is written.  A detail is added in normal
    /// form, and the next issue with a stub is looked for.
    pub open spec fn answer(self, result: DashResult<PullRequestFromJson>) -> IngestView {
        match result {
            Err(cause) => reconcile_from(
                self.gathered,
                Some(
                    IngestFailureView {
                        stage: Stage::PullRequests,
                        kind: cause.fetch_kind(),
                        page: ordinal(self.gathered.pull_requests.len()),
                        cause: cause@,
                    },
                ),
            ),
            Ok(detail) => seek_detail(
                self.context,
                GatheredView {
                    pull_requests: self.gathered.pull_requests.push(
                        detail.normal(self.context.repo),
                    ),
                    ..self.gathered
                },
                self.cursor + 1,
            ),
        }
    }
}

/// The first step of a pass over `repo` since the instant spelled `since`:
/// the request for the first page of issues.
pub open spec fn first_step(client: ClientView, repo: Seq<char>, since: Seq<char>) -> IngestView {
    IngestView::FetchIssues(
        client.issues_request(repo, since),
        IssuesView {
            context: ContextView { client, repo, since },
            issues: Seq::empty(),
            pages: 0,
        },
    )
}

fn ordinal_of(fetched: usize) -> (n: u64)
    ensures
        n == ordinal(fetched as nat),
{
    let fetched: u64 = fetched as u64;
    if fetched < u64::MAX {
        fetched + 1
    } else {
        u64::MAX
    }
}

impl Summary {
    /// Carries a step of the writing on as a step of the pass.
    pub fn resume(self, step: Step) -> (r: IngestStep)
        ensures
            r@ == writing(step@, self@),
    {
        match step {
            Step::Lookup(l) => IngestStep::Lookup(l, self),
            Step::Write(s, w) => IngestStep::Write(s, w, self),
            Step::Finished(report) => IngestStep::Finished(
                SyncReport {
                    issues: self.issues,
                    comments: self.comments,
                    pull_requests: self.pull_requests,
                    fetch_failure: self.fetch_failure,
                    report,
                },
            ),
        }
    }
}

fn start_writing(gathered: Gathered, failure: Option<IngestFailure>) -> (r: IngestStep)
    ensures
        r@ == reconcile_from(
            gathered@,
            match failure {
                Some(f) => Some(f@),
                None => None,
            },
        ),
{
    let summary = Summary {
        issues: gathered.issues.len(),
        comments: gathered.comments.len(),
        pull_requests: gathered.pull_requests.len(),
        fetch_failure: failure,
    };
    let batch = gathered.into_batch();
    summary.resume(begin(batch))
}

fn seek(context: Context, gathered: Gathered, from: usize) -> (r: IngestStep)
    ensures
        r@ == seek_detail(context@, gathered@, from as nat),
{
    let mut k: usize = from;
    while k < gathered.issues.len() && gathered.issues[k].pull_request.is_none()
        invariant
            next_stub(gathered@.issues, from as nat) == next_stub(gathered@.issues, k as nat),
        decreases gathered.issues.len() - k,
    {
        k = k + 1;
    }
    if k >= gathered.issues.len() {
        return start_writing(gathered, None);
    }
    assert(gathered@.issues[k as int].pull_request == gathered.issues@[k as int].pull_request);
    let outcome = match &gathered.issues[k].pull_request {
        Some(urls) => context.client.fetch_pull_request(urls),
        None => Err(DashError::Misc(None)),
    };
    match outcome {
        Ok(request) => IngestStep::FetchPullRequest(
            request,
            DetailPending { context, gathered, cursor: k },
        ),
        Err(cause) => {
            let page = ordinal_of(gathered.pull_requests.len());
            start_writing(
                gathered,
                Some(
                    IngestFailure {
                        stage: Stage::PullRequests,
                        kind: FailureKind::MissingDetailURL,
                        page,
                        cause,
                    },
                ),
            )
        },
    }
}

fn normalize_issues(items: Vec<IssueFromJson>, repo: &str) -> (v: Vec<NormalizedIssue>)
    ensures
        issue_views(v@) == normal_issues(items@, repo@),
{
    let mut v: Vec<NormalizedIssue> = Vec::new();
    let ghost all = items@;
    for item in it: items
        invariant
            it.seq() == all,
            v@.len() == it.index(),
            forall|j: int| 0 <= j < v@.len() ==> v@[j]@ == all[j].normal(repo@),
    {
        v.push(item.with_repo(repo));
    }
    assert(issue_views(v@) =~= normal_issues(all, repo@));
    v
}

fn normalize_comments(items: Vec<CommentFromJson>, repo: &str) -> (r: Option<
    Vec<NormalizedComment>,
>)
    ensures
        r is Some == comments_decode(items@, repo@),
        r matches Some(v) ==> comment_views(v@) == normal_comments(items@, repo@),
{
    let mut v: Vec<NormalizedComment> = Vec::new();
    let ghost all = items@;
    for item in it: items
        invariant
            it.seq() == all,
            v@.len() == it.index(),
            forall|j: int|
                0 <= j < v@.len() ==> (#[trigger] all[j]).normal(repo@) == Some(v@[j]@),
    {
        match item.with_repo(repo) {
            Some(n) => {
                v.push(n);
            },
            None => {
                assert(all[it.index() as int].normal(repo@) is None);
                return None;
            },
        }
    }
    assert(comment_views(v@) =~= normal_comments(all, repo@));
    Some(v)
}

impl IssuesPending {
    /// Takes the outcome of the request for a page of issues.
    pub fn answer(self, result: PageResult<IssueFromJson>) -> (step: IngestStep)
        ensures
            step@ == self@.answer(result),
    {
        let IssuesPending { context, fetch } = self;
        let ghost before = issue_views(fetch@.entities);
        let converted = match result {
            PageResult::Failed(cause) => PageResult::Failed(cause),
            PageResult::Page { items, link } => PageResult::Page {
                items: normalize_issues(items, context.repo.as_str()),
                link,
            },
        };
        match fetch.receive(&context.client, converted) {
            FetchStep::Next(fetch, request) => {
                assert(issue_views(fetch@.entities) =~= before + normal_issues(
                    result->items@,
                    context@.repo,
                ));
                IngestStep::FetchIssues(request, IssuesPending { context, fetch })
            },
            FetchStep::Done(fetched) => {
                let issues = fetched.entities;
                match fetched.failure {
                    Some(f) => {
                        let comments: Vec<NormalizedComment> = Vec::new();
                        let pull_requests: Vec<NormalizedPullRequest> = Vec::new();
                        let gathered = Gathered { issues, comments, pull_requests };
                        assert(gathered@.comments =~= Seq::empty());
                        assert(gathered@.pull_requests =~= Seq::empty());
                        start_writing(
                            gathered,
                            Some(
                                IngestFailure {
                                    stage: Stage::Issues,
                                    kind: f.kind,
                                    page: f.page,
                                    cause: f.cause,
                                },
                            ),
                        )
                    },
                    None => {
                        assert(issue_views(issues@) =~= before + normal_issues(
                            result->items@,
                            context@.repo,
                        ));
                        let request = context.client.comments_request(
                            context.repo.as_str(),
                            context.since.as_str(),
                        );
                        let fetch: PageFetch<NormalizedComment> = PageFetch::new();
                        assert(comment_views(fetch@.entities) =~= Seq::empty());
                        IngestStep::FetchComments(request, CommentsPending { context, issues, fetch })
                    },
                }
            },
        }
    }
}

impl CommentsPending {
    /// Takes the outcome of the request for a page of comments.
    pub fn answer(self, result: PageResult<CommentFromJson>) -> (step: IngestStep)
        ensures
            step@ == self@.answer(result),
    {
        let CommentsPending { context, issues, fetch } = self;
        let ghost before = comment_views(fetch@.entities);
        let converted = match result {
            PageResult::Failed(cause) => PageResult::Failed(cause),
            PageResult::Page { items, link } => match normalize_comments(
                items,
                context.repo.as_str(),
            ) {
                Some(comments) => PageResult::Page { items: comments, link },
                None => PageResult::Failed(
                    DashError::Serde(String::from_str("comment address names no issue")),
                ),
            },
        };
        match fetch.receive(&context.client, converted) {
            FetchStep::Next(fetch, request) => {
                assert(comment_views(fetch@.entities) =~= before + normal_comments(
                    result->items@,
                    context@.repo,
                ));
                IngestStep::FetchComments(request, CommentsPending { context, issues, fetch })
            },
            FetchStep::Done(fetched) => {
                let comments = fetched.entities;
                let pull_requests: Vec<NormalizedPullRequest> = Vec::new();
                let gathered = Gathered { issues, comments, pull_requests };
                assert(gathered@.pull_requests =~= Seq::empty());
                match fetched.failure {
                    Some(f) => start_writing(
                        gathered,
                        Some(
                            IngestFailure {
                                stage: Stage::Comments,
                                kind: f.kind,
                                page: f.page,
                                cause: f.cause,
                            },
                        ),
                    ),
                    None => {
                        assert(comment_views(comments@) =~= before + normal_comments(
                            result->items@,
                            context@.repo,
                        ));
                        seek(context, gathered, 0)
                    },
                }
            },
        }
    }
}

impl DetailPending {
    #[verifier::type_invariant]
    spec fn inv(&self) -> bool {
        self.cursor < self.gathered.issues@.len()
    }

    /// Takes the outcome of the request for a pull-request detail.
    pub fn answer(self, result: DashResult<PullRequestFromJson>) -> (step: IngestStep)
        ensures
            step@ == self@.answer(result),
    {
        proof {
            use_type_invariant(&self);
        }
        let DetailPending { context, gathered, cursor } = self;
        match result {
            Err(cause) => {
                let kind = cause.classify_fetch();
                let page = ordinal_of(gathered.pull_requests.len());
                start_writing(
                    gathered,
                    Some(IngestFailure { stage: Stage::PullRequests, kind, page, cause }),
                )
            },
            Ok(detail) => {
                let normal = detail.with_repo(context.repo.as_str());
                let Gathered { issues, comments, pull_requests } = gathered;
                let count = issues.len();
                assert(cursor < count);
                let mut pull_requests = pull_requests;
                pull_requests.push(normal);
                let more = Gathered { issues, comments, pull_requests };
                assert(more@.pull_requests =~= gathered@.pull_requests.push(
                    detail.normal(context@.repo),
                ));
                seek(context, more, cursor + 1)
            },
        }
    }
}

/// Starts a pass over the repository `repo` with the issues and comments
/// updated since the instant that `since` spells.
pub fn begin_ingest(client: Client, repo: String, since: String) -> (step: IngestStep)
    ensures
        step@ == first_step(client@, repo@, since@),
{
    let request = client.issues_request(repo.as_str(), since.as_str());
    let fetch: PageFetch<NormalizedIssue> = PageFetch::new();
    assert(issue_views(fetch@.entities) =~= Seq::empty());
    IngestStep::FetchIssues(request, IssuesPending { context: Context { client, repo, since }, fetch })
}

/// Starts a pass over the repository `repo` with the issues and comments
/// updated at or after `start`.  There is no pass exactly when `start`
/// lies outside the calendar.
pub fn ingest_since(client: Client, repo: String, start: Timestamp) -> (r: Option<IngestStep>)
    ensures
        r is Some == start.text() is Some,
        r matches Some(step) ==> step@ == first_step(client@, repo@, start.text()->0),
{
    match start.render() {
        Some(since) => Some(begin_ingest(client, repo, since)),
        None => None,
    }
}

} // verus!
