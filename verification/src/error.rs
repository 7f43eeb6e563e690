//! Errors of a synchronisation pass.

use vstd::prelude::*;

verus! {

/// What went wrong outside the library, by the layer that reported it.
/// Each variant carries the message of the underlying error.
#[derive(Debug, Clone, PartialEq, Eq)]
pub enum DashError {
    /// The HTTP client failed.
    Hyper(String),
    /// Reading a response body failed.
    Io(String),
    /// A response body was not the expected JSON.
    Serde(String),
    /// No storage connection became available in time.
    R2d2Timeout(String),
    /// The storage engine rejected a statement.
    DieselError(String),
    /// A report template could not be rendered.
    Template(String),
    /// Anything else; here, a pull-request stub without a detail link.
    Misc(Option<String>),
}

/// The classes of failure that a pass distinguishes.
#[derive(Debug, Clone, Copy, PartialEq, Eq, Structural)]
pub enum FailureKind {
    /// The network or the HTTP layer failed.
    TransportFailure,
    /// A page body was malformed.
    DecodeFailure,
    /// A storage read failed.
    LookupFailure,
    /// A storage write failed, constraint violations included.
    PersistFailure,
    /// A pull-request stub carried no link to its detail.
    MissingDetailURL,
}

/// The result of an operation that can fail with a [`DashError`].
pub type DashResult<T> = Result<T, DashError>;

/// An error, with its message as a character sequence.
pub ghost enum DashErrorView {
    Hyper(Seq<char>),
    Io(Seq<char>),
    Serde(Seq<char>),
    R2d2Timeout(Seq<char>),
    DieselError(Seq<char>),
    Template(Seq<char>),
    Misc(Option<Seq<char>>),
}

impl View for DashError {
    type V = DashErrorView;

    open spec fn view(&self) -> DashErrorView {
        match self {
            DashError::Hyper(m) => DashErrorView::Hyper(m@),
            DashError::Io(m) => DashErrorView::Io(m@),
            DashError::Serde(m) => DashErrorView::Serde(m@),
            DashError::R2d2Timeout(m) => DashErrorView::R2d2Timeout(m@),
            DashError::DieselError(m) => DashErrorView::DieselError(m@),
            DashError::Template(m) => DashErrorView::Template(m@),
            DashError::Misc(m) => DashErrorView::Misc(m.deep_view()),
        }
    }
}

impl DashError {
    /// The class of a failed page request: a body that does not decode is a
    /// decode failure, everything else a transport failure.
    pub open spec fn fetch_kind(&self) -> FailureKind {
        match self {
            DashError::Serde(_) => FailureKind::DecodeFailure,
            _ => FailureKind::TransportFailure,
        }
    }

    /// Executable form of [`DashError::fetch_kind`].
    pub fn classify_fetch(&self) -> (kind: FailureKind)
        ensures
            kind == self.fetch_kind(),
    {
        match self {
            DashError::Serde(_) => FailureKind::DecodeFailure,
            _ => FailureKind::TransportFailure,
        }
    }
}

} // verus!
