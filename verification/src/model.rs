//! The data model of an export run: documents, pages, and the classified
//! outcomes of the two backend calls (snapshot open and page search).

use vstd::prelude::*;
use crate::text::newline_free;

verus! {

/// One exported document: its body, already serialized as a single compact
/// JSON line, and the backend-assigned sort key it arrived with. The sort
/// key is only ever read to derive the next cursor; it is never emitted.
pub struct Hit {
    pub source: String,
    pub sort: Vec<u64>,
}

/// The mathematical value of a [`Hit`].
pub ghost struct HitView {
    pub source: Seq<char>,
    pub sort: Seq<u64>,
}

impl View for Hit {
    type V = HitView;

    open spec fn view(&self) -> HitView {
        HitView { source: self.source@, sort: self.sort@ }
    }
}

/// The views of a sequence of hits, in order.
pub open spec fn hits_view(hs: Seq<Hit>) -> Seq<HitView> {
    hs.map_values(|h: Hit| h@)
}

/// A hit is well formed when its serialized body holds no newline, so that
/// it occupies exactly one output line.
pub open spec fn hit_wf(h: HitView) -> bool {
    newline_free(h.source)
}

pub open spec fn hits_wf(hs: Seq<HitView>) -> bool {
    forall|i: int| 0 <= i < hs.len() ==> hit_wf(#[trigger] hs[i])
}

/// One page of results: the rotated snapshot token that the next request
/// must use, and the documents in backend order.
pub struct SearchPage {
    pub pit_id: String,
    pub hits: Vec<Hit>,
}

/// The mathematical value of a [`SearchPage`].
pub ghost struct SearchPageView {
    pub pit_id: Seq<char>,
    pub hits: Seq<HitView>,
}

impl View for SearchPage {
    type V = SearchPageView;

    open spec fn view(&self) -> SearchPageView {
        SearchPageView { pit_id: self.pit_id@, hits: hits_view(self.hits@) }
    }
}

impl SearchPage {
    /// Every document of the page sits on a single output line.
    pub open spec fn wf(&self) -> bool {
        hits_wf(hits_view(self.hits@))
    }
}

/// The classified outcome of decoding one search response body. The backend
/// reuses a successful transport status for application errors, so the body
/// alone decides which case holds.
pub enum SearchOutcome {
    /// The body decoded as a result page.
    Page(SearchPage),
    /// The body decoded as an application error envelope; the detail names
    /// the backend's error type and reason.
    AppError(String),
    /// The body matched neither shape; the raw body is kept for diagnostics.
    Malformed(String),
}

/// The mathematical value of a [`SearchOutcome`].
pub ghost enum SearchOutcomeView {
    Page(SearchPageView),
    AppError(Seq<char>),
    Malformed(Seq<char>),
}

impl View for SearchOutcome {
    type V = SearchOutcomeView;

    open spec fn view(&self) -> SearchOutcomeView {
        match self {
            SearchOutcome::Page(p) => SearchOutcomeView::Page(p@),
            SearchOutcome::AppError(d) => SearchOutcomeView::AppError(d@),
            SearchOutcome::Malformed(b) => SearchOutcomeView::Malformed(b@),
        }
    }
}

/// The classified outcome of one snapshot-open call.
pub enum OpenOutcome {
    /// The snapshot was opened; the token all following requests must carry.
    Opened(String),
    /// The open call came back with a non-success transport status.
    Http { status: u16, body: String },
    /// A success status whose body nonetheless encodes an application error.
    AppError(String),
    /// A success status whose body matched neither expected shape.
    Malformed(String),
}

/// The mathematical value of an [`OpenOutcome`].
pub ghost enum OpenOutcomeView {
    Opened(Seq<char>),
    Http { status: u16, body: Seq<char> },
    AppError(Seq<char>),
    Malformed(Seq<char>),
}

impl View for OpenOutcome {
    type V = OpenOutcomeView;

    open spec fn view(&self) -> OpenOutcomeView {
        match self {
            OpenOutcome::Opened(t) => OpenOutcomeView::Opened(t@),
            OpenOutcome::Http { status, body } => OpenOutcomeView::Http {
                status: *status,
                body: body@,
            },
            OpenOutcome::AppError(d) => OpenOutcomeView::AppError(d@),
            OpenOutcome::Malformed(b) => OpenOutcomeView::Malformed(b@),
        }
    }
}

} // verus!
