//! Paging through a collection of the remote API.
//!
//! A fetch is a state that the caller advances with the outcome of each
//! request: a decoded page with the link list of its response, or the error
//! that the request ended in.  Each step answers with the next request or
//! with the finished fetch.  A failure ends the fetch; what earlier pages
//! delivered is kept.

use crate::error::{DashError, FailureKind};
use crate::github::client::{Client, ClientView, Request, RequestView, DELAY};
use crate::github::link::next_page_of;
use vstd::prelude::*;

verus! {

/// What a request for a page ended in.
#[derive(Debug)]
pub enum PageResult<M> {
    /// The records of the page and the link list of the response, if any.
    Page { items: Vec<M>, link: Option<String> },
    /// The request or the decoding of its body failed.
    Failed(DashError),
}

/// Why a fetch ended early.
#[derive(Debug, Clone, PartialEq, Eq)]
pub struct FetchFailure {
    pub kind: FailureKind,
    /// Number of the page that failed, the first page being 1.
    pub page: u64,
    pub cause: DashError,
}

/// A fetch in progress: the records gathered and the number of pages they
/// came on.
#[derive(Debug)]
pub struct PageFetch<M> {
    entities: Vec<M>,
    pages: u64,
}

/// A fetch in progress: the records gathered so far and the number of pages
/// decoded.
pub ghost struct FetchView<M> {
    pub entities: Seq<M>,
    pub pages: u64,
}

impl<M> View for PageFetch<M> {
    type V = FetchView<M>;

    closed spec fn view(&self) -> FetchView<M> {
        FetchView { entities: self.entities@, pages: self.pages }
    }
}

/// A finished fetch: every record decoded before it ended, the number of
/// pages decoded, and the failure that ended it, if one did.
#[derive(Debug)]
pub struct Fetched<M> {
    pub entities: Vec<M>,
    pub pages: u64,
    pub failure: Option<FetchFailure>,
}

/// A finished fetch, with its records as a sequence.
pub ghost struct FetchedView<M> {
    pub entities: Seq<M>,
    pub pages: u64,
    pub failure: Option<FetchFailure>,
}

impl<M> View for Fetched<M> {
    type V = FetchedView<M>;

    open spec fn view(&self) -> FetchedView<M> {
        FetchedView { entities: self.entities@, pages: self.pages, failure: self.failure }
    }
}

/// The answer to a page outcome.
#[derive(Debug)]
pub enum FetchStep<M> {
    /// More pages follow: the fetch, and the request for the next page.
    Next(PageFetch<M>, Request),
    /// The fetch is over.
    Done(Fetched<M>),
}

/// The answer to a page outcome, each part in its view.
pub ghost enum StepView<M> {
    Next(FetchView<M>, RequestView),
    Done(FetchedView<M>),
}

impl<M> View for FetchStep<M> {
    type V = StepView<M>;

    open spec fn view(&self) -> StepView<M> {
        match self {
            FetchStep::Next(fetch, request) => StepView::Next(fetch@, request@),
            FetchStep::Done(fetched) => StepView::Done(fetched@),
        }
    }
}

/// One more than `pages`, staying at the largest count once it is reached.
pub open spec fn succ(pages: u64) -> u64 {
    if pages < u64::MAX {
        (pages + 1) as u64
    } else {
        pages
    }
}

fn next_count(pages: u64) -> (n: u64)
    ensures
        n == succ(pages),
{
    if pages < u64::MAX {
        pages + 1
    } else {
        pages
    }
}

/// The answer to the outcome `result` in state `fetch`.
///
/// A failure ends the fetch with the records gathered so far.  A page adds
/// its records; the fetch goes on, after the delay, to the address that the
/// link list names as next, and ends if it names none.
pub open spec fn step<M>(client: ClientView, fetch: FetchView<M>, result: PageResult<M>) -> StepView<
    M,
> {
    match result {
        PageResult::Failed(cause) => StepView::Done(
            FetchedView {
                entities: fetch.entities,
                pages: fetch.pages,
                failure: Some(
                    FetchFailure { kind: cause.fetch_kind(), page: succ(fetch.pages), cause },
                ),
            },
        ),
        PageResult::Page { items, link } => {
            let entities = fetch.entities + items@;
            let pages = succ(fetch.pages);
            match next_page_of(link) {
                Some(url) => StepView::Next(
                    FetchView { entities, pages },
                    client.request(url, None, DELAY),
                ),
                None => StepView::Done(FetchedView { entities, pages, failure: None }),
            }
        },
    }
}

impl<M> PageFetch<M> {
    /// The state before the first page.
    pub open spec fn start() -> FetchView<M> {
        FetchView { entities: Seq::empty(), pages: 0 }
    }

    /// A fetch that has received nothing yet.
    pub fn new() -> (fetch: PageFetch<M>)
        ensures
            fetch@ == Self::start(),
    {
        PageFetch { entities: Vec::new(), pages: 0 }
    }

    /// Advances the fetch with the outcome of the request last issued.
    pub fn receive(self, client: &Client, result: PageResult<M>) -> (next: FetchStep<M>)
        ensures
            next@ == step(client@, self@, result),
    {
        let PageFetch { entities, pages } = self;
        match result {
            PageResult::Failed(cause) => {
                let kind = cause.classify_fetch();
                FetchStep::Done(
                    Fetched {
                        entities,
                        pages,
                        failure: Some(FetchFailure { kind, page: next_count(pages), cause }),
                    },
                )
            },
            PageResult::Page { items, link } => {
                let mut entities = entities;
                let mut items = items;
                entities.append(&mut items);
                let pages = next_count(pages);
                match Client::next_page(&link) {
                    Some(url) => {
                        let request = client.request(url.as_str(), None, DELAY);
                        FetchStep::Next(PageFetch { entities, pages }, request)
                    },
                    None => FetchStep::Done(Fetched { entities, pages, failure: None }),
                }
            },
        }
    }
}

/// What a sequence of outcomes leads to.
#[derive(Debug)]
pub struct Replay<M> {
    /// The requests for further pages, in the order they were issued.
    pub requests: Vec<Request>,
    /// The finished fetch; `None` if the outcomes ran out before it ended.
    pub fetched: Option<Fetched<M>>,
    /// Number of outcomes that the fetch took.
    pub consumed: usize,
}

/// The course of a fetch: the requests issued, the finished fetch and the
/// outcomes taken.
pub ghost struct ReplayView<M> {
    pub requests: Seq<RequestView>,
    pub fetched: Option<FetchedView<M>>,
    pub consumed: nat,
}

/// The views of a list of requests.
pub open spec fn request_views(requests: Seq<Request>) -> Seq<RequestView> {
    Seq::new(requests.len(), |i: int| requests[i]@)
}

impl<M> View for Replay<M> {
    type V = ReplayView<M>;

    open spec fn view(&self) -> ReplayView<M> {
        ReplayView {
            requests: request_views(self.requests@),
            fetched: match self.fetched {
                Some(f) => Some(f@),
                None => None,
            },
            consumed: self.consumed as nat,
        }
    }
}

/// The course of a fetch that starts in state `fetch` and meets the
/// outcomes `results` in turn.  Outcomes after the one that ends the fetch
/// are not taken.
pub open spec fn run<M>(client: ClientView, fetch: FetchView<M>, results: Seq<PageResult<M>>) -> ReplayView<
    M,
>
    decreases results.len(),
{
    if results.len() == 0 {
        ReplayView { requests: Seq::empty(), fetched: None, consumed: 0 }
    } else {
        match step(client, fetch, results[0]) {
            StepView::Done(fetched) => ReplayView {
                requests: Seq::empty(),
                fetched: Some(fetched),
                consumed: 1,
            },
            StepView::Next(then, request) => {
                let rest = run(client, then, results.drop_first());
                ReplayView {
                    requests: seq![request] + rest.requests,
                    fetched: rest.fetched,
                    consumed: rest.consumed + 1,
                }
            },
        }
    }
}

/// Runs a fetch from its start against a prepared sequence of outcomes.
pub fn replay<M>(client: &Client, results: Vec<PageResult<M>>) -> (r: Replay<M>)
    ensures
        r@ == run(client@, PageFetch::<M>::start(), results@),
{
    let ghost all = results@;
    let ghost total = run(client@, PageFetch::<M>::start(), all);
    let mut fetch: PageFetch<M> = PageFetch::new();
    let mut requests: Vec<Request> = Vec::new();
    let mut consumed: usize = 0;
    let count = results.len();
    assert(all.skip(0) == all);
    assert(request_views(requests@) + total.requests == total.requests);
    for result in it: results
        invariant
            it.seq() == all,
            all.len() == count,
            consumed == it.index(),
            total == run(client@, PageFetch::<M>::start(), all),
            total.requests == request_views(requests@) + run(
                client@,
                fetch@,
                all.skip(it.index() as int),
            ).requests,
            total.fetched == run(client@, fetch@, all.skip(it.index() as int)).fetched,
            total.consumed == consumed + run(client@, fetch@, all.skip(it.index() as int)).consumed,
    {
        let ghost here = all.skip(consumed as int);
        assert(here[0] == result);
        assert(here.drop_first() == all.skip(consumed + 1));
        let ghost sofar = request_views(requests@);
        match fetch.receive(client, result) {
            FetchStep::Done(fetched) => {
                let r = Replay { requests, fetched: Some(fetched), consumed: consumed + 1 };
                assert(r@.requests == total.requests);
                return r;
            },
            FetchStep::Next(then, request) => {
                fetch = then;
                requests.push(request);
                consumed = consumed + 1;
                assert(request_views(requests@) == sofar + seq![request@]);
            },
        }
    }
    let r = Replay { requests, fetched: None, consumed };
    assert(r@.requests == total.requests);
    r
}

/// The records that an outcome delivers: those of a page, none on failure.
pub open spec fn page_items<M>(result: PageResult<M>) -> Seq<M> {
    match result {
        PageResult::Page { items, .. } => items@,
        PageResult::Failed(_) => Seq::empty(),
    }
}

/// The records that a sequence of outcomes delivers, in order.
pub open spec fn all_items<M>(results: Seq<PageResult<M>>) -> Seq<M>
    decreases results.len(),
{
    if results.len() == 0 {
        Seq::empty()
    } else {
        page_items(results[0]) + all_items(results.drop_first())
    }
}

/// Whether `result` is a page whose link list names a next page.
pub open spec fn continues<M>(result: PageResult<M>) -> bool {
    result matches PageResult::Page { link, .. } && next_page_of(link) is Some
}

/// Whether `result` is a page whose link list names no next page, be the
/// list absent, malformed or without a `next` relation.
pub open spec fn is_last_page<M>(result: PageResult<M>) -> bool {
    result matches PageResult::Page { link, .. } && next_page_of(link) is None
}

/// The sum of the delays that a list of requests asks for.
pub open spec fn total_delay(requests: Seq<RequestView>) -> nat
    decreases requests.len(),
{
    if requests.len() == 0 {
        0
    } else {
        requests[0].delay_ms as nat + total_delay(requests.drop_first())
    }
}

/// A collection whose pages all name a next page, but for the last, is
/// fetched in exactly as many steps as it has pages: the fetch ends there
/// without failure, holds the records of every page in order, and has
/// asked for the delay before each page after the first.
pub proof fn lemma_fetch_takes_every_page<M>(
    client: ClientView,
    fetch: FetchView<M>,
    results: Seq<PageResult<M>>,
)
    requires
        results.len() >= 1,
        forall|i: int| 0 <= i < results.len() - 1 ==> continues(#[trigger] results[i]),
        is_last_page(results.last()),
        fetch.pages + results.len() <= u64::MAX,
    ensures
        run(client, fetch, results).consumed == results.len(),
        run(client, fetch, results).requests.len() == results.len() - 1,
        total_delay(run(client, fetch, results).requests) == (results.len() - 1) * DELAY,
        run(client, fetch, results).fetched == Some(
            FetchedView {
                entities: fetch.entities + all_items(results),
                pages: (fetch.pages + results.len()) as u64,
                failure: None,
            },
        ),
    decreases results.len(),
{
    let rest = results.drop_first();
    if results.len() == 1 {
        assert(results[0] == results.last());
        assert(all_items(rest) =~= Seq::empty());
        assert(fetch.entities + all_items(results) =~= fetch.entities + page_items(results[0]));
    } else {
        assert(continues(results[0]));
        match step(client, fetch, results[0]) {
            StepView::Next(then, request) => {
                assert forall|i: int| 0 <= i < rest.len() - 1 implies continues(
                    #[trigger] rest[i],
                ) by {
                    assert(rest[i] == results[i + 1]);
                }
                assert(rest.last() == results.last());
                lemma_fetch_takes_every_page(client, then, rest);
                let tail = run(client, then, rest);
                assert((seq![request] + tail.requests).drop_first() =~= tail.requests);
                assert(fetch.entities + all_items(results) =~= then.entities + all_items(rest));
                assert((results.len() - 2) * DELAY + DELAY == (results.len() - 1) * DELAY)
                    by (nonlinear_arith);
            },
            StepView::Done(_) => {},
        }
    }
}

/// When the pages before a failing request all name a next page, the fetch
/// ends at the failure and still holds the records of every earlier page.
/// The failure names the page that failed and the class of the error.
pub proof fn lemma_failure_keeps_earlier_pages<M>(
    client: ClientView,
    fetch: FetchView<M>,
    results: Seq<PageResult<M>>,
)
    requires
        results.len() >= 1,
        forall|i: int| 0 <= i < results.len() - 1 ==> continues(#[trigger] results[i]),
        results.last() is Failed,
        fetch.pages + results.len() <= u64::MAX,
    ensures
        run(client, fetch, results).consumed == results.len(),
        run(client, fetch, results).fetched == Some(
            FetchedView {
                entities: fetch.entities + all_items(results.drop_last()),
                pages: (fetch.pages + results.len() - 1) as u64,
                failure: Some(
                    FetchFailure {
                        kind: results.last()->Failed_0.fetch_kind(),
                        page: (fetch.pages + results.len()) as u64,
                        cause: results.last()->Failed_0,
                    },
                ),
            },
        ),
    decreases results.len(),
{
    let rest = results.drop_first();
    if results.len() == 1 {
        assert(results[0] == results.last());
        assert(all_items(results.drop_last()) =~= Seq::empty());
        assert(fetch.entities + all_items(results.drop_last()) =~= fetch.entities);
    } else {
        assert(continues(results[0]));
        match step(client, fetch, results[0]) {
            StepView::Next(then, request) => {
                assert forall|i: int| 0 <= i < rest.len() - 1 implies continues(
                    #[trigger] rest[i],
                ) by {
                    assert(rest[i] == results[i + 1]);
                }
                assert(rest.last() == results.last());
                lemma_failure_keeps_earlier_pages(client, then, rest);
                assert(results.drop_last().drop_first() =~= rest.drop_last());
                assert(results.drop_last()[0] == results[0]);
                assert(fetch.entities + all_items(results.drop_last()) =~= then.entities
                    + all_items(rest.drop_last()));
            },
            StepView::Done(_) => {},
        }
    }
}

} // verus!
