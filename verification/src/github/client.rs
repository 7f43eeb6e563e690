//! Requests to the remote API and the protocol for paging through a
//! collection.
//!
//! Nothing here touches the network.  A [`Request`] says what is to be sent
//! and how long to wait before sending it; the caller sends it and reports
//! what came back as a [`PageResult`].

use crate::config::Config;
use crate::error::{DashError, DashResult};
use crate::github::models::PullRequestUrls;
use crate::github::link::{next_link_of, next_page_of};
use crate::github::params::{bind, Pairs, ParameterMap};
use crate::text::text_lt;
use crate::time::Timestamp;
use vstd::prelude::*;
use vstd::string::StringExecFns;

verus! {

/// Root of every collection address.
pub const BASE_URL: &'static str = "https://api.github.com";

/// Milliseconds to wait before each request for a further page.
pub const DELAY: u64 = 300;

/// Number of records asked for per page, as the query carries it.
pub const PER_PAGE: &'static str = "100";

/// A header line of a request.
#[derive(Clone, Debug, PartialEq, Eq)]
pub struct Header {
    pub name: String,
    pub value: String,
}

/// A request for the caller to send, after waiting `delay_ms` milliseconds.
#[derive(Clone, Debug, PartialEq, Eq)]
pub struct Request {
    pub url: String,
    pub headers: Vec<Header>,
    pub delay_ms: u64,
}

/// A request: its address, its header lines as pairs of name and value, and
/// its delay.
pub ghost struct RequestView {
    pub url: Seq<char>,
    pub headers: Pairs,
    pub delay_ms: u64,
}

impl View for Request {
    type V = RequestView;

    open spec fn view(&self) -> RequestView {
        RequestView {
            url: self.url@,
            headers: Seq::new(
                self.headers@.len(),
                |i: int| (self.headers@[i].name@, self.headers@[i].value@),
            ),
            delay_ms: self.delay_ms,
        }
    }
}

/// The `name=value` pairs of a query, joined by `&`.
pub open spec fn pairs_text(p: Pairs) -> Seq<char>
    decreases p.len(),
{
    if p.len() == 0 {
        Seq::empty()
    } else {
        let head = p.drop_last();
        let joined = if head.len() > 0 {
            pairs_text(head) + "&"@
        } else {
            Seq::empty()
        };
        joined + p.last().0 + "="@ + p.last().1
    }
}

/// The query that is appended to an address: nothing without parameters,
/// otherwise `?` and the pairs.
pub open spec fn query_text(params: Option<Pairs>) -> Seq<char> {
    match params {
        Some(p) => "?"@ + pairs_text(p),
        None => Seq::empty(),
    }
}

/// The header lines of every request made with the given credential and
/// user agent.
pub open spec fn request_headers(token: Seq<char>, ua: Seq<char>) -> Pairs {
    seq![
        ("Authorization"@, "token "@ + token),
        ("User-Agent"@, ua),
        ("Time-Zone"@, "UTC"@),
        ("Accept"@, "application/vnd.github.v3"@),
        ("Connection"@, "close"@),
    ]
}

/// The credential and the identifying string that every request carries.
#[derive(Debug)]
pub struct Client {
    token: String,
    ua: String,
}

/// What a client sends with every request.
pub ghost struct ClientView {
    pub token: Seq<char>,
    pub ua: Seq<char>,
}

impl View for Client {
    type V = ClientView;

    closed spec fn view(&self) -> ClientView {
        ClientView { token: self.token@, ua: self.ua@ }
    }
}

impl ClientView {
    /// The request for `url` with the given parameters.
    pub open spec fn request(self, url: Seq<char>, params: Option<Pairs>, delay_ms: u64) -> RequestView {
        RequestView {
            url: url + query_text(params),
            headers: request_headers(self.token, self.ua),
            delay_ms,
        }
    }

    /// The parameters of the issue listing since the instant spelled
    /// `since`: every state, oldest update first.
    pub open spec fn issues_params(since: Seq<char>) -> Pairs {
        seq![
            ("direction"@, "asc"@),
            ("per_page"@, PER_PAGE@),
            ("since"@, since),
            ("sort"@, "updated"@),
            ("state"@, "all"@),
        ]
    }

    /// The parameters of the comment listing since the instant spelled
    /// `since`: oldest update first.
    pub open spec fn comments_params(since: Seq<char>) -> Pairs {
        seq![
            ("direction"@, "asc"@),
            ("per_page"@, PER_PAGE@),
            ("since"@, since),
            ("sort"@, "updated"@),
        ]
    }

    /// The first request of the issue listing of `repo`.
    pub open spec fn issues_request(self, repo: Seq<char>, since: Seq<char>) -> RequestView {
        self.request(
            BASE_URL@ + "/repos/"@ + repo + "/issues"@,
            Some(Self::issues_params(since)),
            0,
        )
    }

    /// The first request of the comment listing of `repo`.
    pub open spec fn comments_request(self, repo: Seq<char>, since: Seq<char>) -> RequestView {
        self.request(
            BASE_URL@ + "/repos/"@ + repo + "/issues/comments"@,
            Some(Self::comments_params(since)),
            0,
        )
    }
}

fn header(name: &str, value: String) -> (h: Header)
    ensures
        h.name@ == name@,
        h.value@ == value@,
{
    Header { name: name.to_owned(), value }
}

fn query_string(params: Option<&ParameterMap>) -> (q: String)
    ensures
        q@ == query_text(
            match params {
                Some(p) => Some(p@),
                None => None,
            },
        ),
{
    match params {
        None => String::new(),
        Some(p) => {
            let mut q = String::from_str("?");
            let mut i: usize = 0;
            assert(p@.take(0) =~= Seq::empty());
            assert(q@ =~= "?"@ + pairs_text(p@.take(0)));
            while i < p.len()
                invariant
                    i <= p@.len(),
                    q@ == "?"@ + pairs_text(p@.take(i as int)),
                decreases p@.len() - i,
            {
                let ghost before = q@;
                if i > 0 {
                    q.append("&");
                }
                let entry = p.get(i);
                q.append(entry.name);
                q.append("=");
                q.append(entry.value.as_str());
                proof {
                    let upto = p@.take(i + 1);
                    assert(upto.drop_last() =~= p@.take(i as int));
                    assert(upto.last() == p@[i as int]);
                    assert(q@ =~= "?"@ + pairs_text(upto));
                }
                i = i + 1;
            }
            assert(p@.take(i as int) =~= p@);
            q
        },
    }
}

impl Client {
    /// A client that sends the credential and the user agent of `config`.
    pub fn new(config: &Config) -> (c: Client)
        ensures
            c@ == (ClientView {
                token: config.github_access_token@,
                ua: config.github_user_agent@,
            }),
    {
        Client { token: config.github_access_token.clone(), ua: config.github_user_agent.clone() }
    }

    /// The request for `url` with the given parameters, to be sent after
    /// `delay_ms` milliseconds.
    pub fn request(&self, url: &str, params: Option<&ParameterMap>, delay_ms: u64) -> (r: Request)
        ensures
            r@ == self@.request(
                url@,
                match params {
                    Some(p) => Some(p@),
                    None => None,
                },
                delay_ms,
            ),
    {
        let query = query_string(params);
        let mut full = String::from_str(url);
        full.append(query.as_str());
        let mut credential = String::from_str("token ");
        credential.append(self.token.as_str());
        let mut headers: Vec<Header> = Vec::new();
        headers.push(header("Authorization", credential));
        headers.push(header("User-Agent", self.ua.clone()));
        headers.push(header("Time-Zone", String::from_str("UTC")));
        headers.push(header("Accept", String::from_str("application/vnd.github.v3")));
        headers.push(header("Connection", String::from_str("close")));
        let r = Request { url: full, headers, delay_ms };
        assert(r@.headers =~= request_headers(self@.token, self@.ua));
        r
    }

    /// The first request of the issue listing of `repo`, given the text of
    /// the instant since which issues are wanted.
    pub fn issues_request(&self, repo: &str, since: &str) -> (r: Request)
        ensures
            r@ == self@.issues_request(repo@, since@),
    {
        let mut url = String::from_str(BASE_URL);
        url.append("/repos/");
        url.append(repo);
        url.append("/issues");
        let mut params = ParameterMap::new();
        params.insert("state", String::from_str("all"));
        params.insert("since", String::from_str(since));
        params.insert("sort", String::from_str("updated"));
        params.insert("per_page", String::from_str(PER_PAGE));
        params.insert("direction", String::from_str("asc"));
        proof {
            lemma_issue_params(since@);
        }
        self.request(url.as_str(), Some(&params), 0)
    }

    /// The first request of the comment listing of `repo`, given the text
    /// of the instant since which comments are wanted.
    pub fn comments_request(&self, repo: &str, since: &str) -> (r: Request)
        ensures
            r@ == self@.comments_request(repo@, since@),
    {
        let mut url = String::from_str(BASE_URL);
        url.append("/repos/");
        url.append(repo);
        url.append("/issues/comments");
        let mut params = ParameterMap::new();
        params.insert("sort", String::from_str("updated"));
        params.insert("direction", String::from_str("asc"));
        params.insert("since", String::from_str(since));
        params.insert("per_page", String::from_str(PER_PAGE));
        proof {
            lemma_comment_params(since@);
        }
        self.request(url.as_str(), Some(&params), 0)
    }

    /// The first request for the issues of `repo` updated at or after
    /// `start`; `None` exactly when `start` lies outside the calendar.
    pub fn issues_since(&self, repo: &str, start: Timestamp) -> (r: Option<Request>)
        ensures
            r is Some == start.text() is Some,
            r matches Some(q) ==> q@ == self@.issues_request(repo@, start.text()->0),
    {
        match start.render() {
            Some(since) => Some(self.issues_request(repo, since.as_str())),
            None => None,
        }
    }

    /// The first request for the comments of `repo` updated at or after
    /// `start`; `None` exactly when `start` lies outside the calendar.
    pub fn comments_since(&self, repo: &str, start: Timestamp) -> (r: Option<Request>)
        ensures
            r is Some == start.text() is Some,
            r matches Some(q) ==> q@ == self@.comments_request(repo@, start.text()->0),
    {
        match start.render() {
            Some(since) => Some(self.comments_request(repo, since.as_str())),
            None => None,
        }
    }

    /// The request for the detail of the pull request behind a stub.  A
    /// stub without a detail link is an error.
    pub fn fetch_pull_request(&self, pr_info: &PullRequestUrls) -> (r: DashResult<Request>)
        ensures
            match pr_info.url {
                Some(url) => r matches Ok(q) && q@ == self@.request(url@, None, 0),
                None => r == Err::<Request, DashError>(DashError::Misc(None)),
            },
    {
        match &pr_info.url {
            Some(url) => Ok(self.request(url.as_str(), None, 0)),
            None => Err(DashError::Misc(None)),
        }
    }

    /// The address of the next page that a response's link list names.  An
    /// absent or malformed list names none.
    pub fn next_page(link: &Option<String>) -> (r: Option<String>)
        ensures
            r.deep_view() == next_page_of(*link),
    {
        match link {
            Some(header) => next_link_of(header.as_str()),
            None => None,
        }
    }
}

proof fn lemma_issue_params(since: Seq<char>)
    ensures
        bind(
            bind(
                bind(bind(bind(Seq::empty(), "state"@, "all"@), "since"@, since), "sort"@, "updated"@),
                "per_page"@,
                PER_PAGE@,
            ),
            "direction"@,
            "asc"@,
        ) == ClientView::issues_params(since),
{
    reveal_strlit("state");
    reveal_strlit("since");
    reveal_strlit("sort");
    reveal_strlit("per_page");
    reveal_strlit("direction");
    reveal_with_fuel(bind, 5);
    reveal_with_fuel(text_lt, 3);
    let one = bind(Seq::empty(), "state"@, "all"@);
    assert(one =~= seq![("state"@, "all"@)]);
    assert(text_lt("since"@, "state"@));
    let two = bind(one, "since"@, since);
    assert(two =~= seq![("since"@, since), ("state"@, "all"@)]);
    assert(text_lt("sort"@, "state"@));
    assert(!text_lt("sort"@, "since"@));
    let three = bind(two, "sort"@, "updated"@);
    assert(three =~= seq![("since"@, since), ("sort"@, "updated"@), ("state"@, "all"@)]);
    assert(text_lt("per_page"@, "since"@));
    let four = bind(three, "per_page"@, PER_PAGE@);
    assert(four =~= seq![
        ("per_page"@, PER_PAGE@),
        ("since"@, since),
        ("sort"@, "updated"@),
        ("state"@, "all"@),
    ]);
    assert(text_lt("direction"@, "per_page"@));
}

proof fn lemma_comment_params(since: Seq<char>)
    ensures
        bind(
            bind(bind(bind(Seq::empty(), "sort"@, "updated"@), "direction"@, "asc"@), "since"@, since),
            "per_page"@,
            PER_PAGE@,
        ) == ClientView::comments_params(since),
{
    reveal_strlit("sort");
    reveal_strlit("since");
    reveal_strlit("per_page");
    reveal_strlit("direction");
    reveal_with_fuel(bind, 5);
    reveal_with_fuel(text_lt, 3);
}

} // verus!
