//! The export loop, as a state machine. The backend calls themselves are
//! asynchronous I/O and live with the caller: the caller asks the exporter
//! for the next action, performs it, and hands the classified outcome back.
//! Every decision — which request to send, how to classify a failure, when
//! an index is finished, what to write to the sink — is made and verified
//! here.
//!
//! Per index the machine passes through the states of the design: idle
//! (snapshot not yet opened), fetching (token held, cursor tracked), and the
//! two terminal states, done and failed, both of which advance the run to
//! the next index.
//!
//! Of the three failure tiers, the two index-level ones (a failed snapshot
//! open, an error or malformed body on a fetch) flow through the machine as
//! classified outcomes and skip one index. The fatal tier — a transport or
//! sink failure — never produces an outcome at all: the caller aborts the
//! whole run, so the machine only ever sees calls that reached the backend.

use vstd::prelude::*;
use crate::cursor::{next_cursor, next_cursor_spec};
use crate::encode::{encode_page, encoded_page, lemma_page_line_count};
use crate::model::{HitView, OpenOutcome, SearchOutcome, hits_view, hits_wf};
use crate::request::{build_search_request, search_request};
use crate::text::{dec_rep, lemma_newline_count_concat, newline_count, strs_view, u64_to_dec};

verus! {

/// The configuration of one export run: the indices to dump in order, the
/// page size to request, the snapshot keep-alive duration, and the output
/// destination (a path, or standard output when absent).
pub struct Dump {
    pub indices: Vec<String>,
    pub size: usize,
    pub keep_alive: String,
    pub output: Option<String>,
}

impl Dump {
    pub fn new(
        indices: Vec<String>,
        size: usize,
        keep_alive: String,
        output: Option<String>,
    ) -> (r: Dump)
        ensures
            r.indices == indices,
            r.size == size,
            r.keep_alive == keep_alive,
            r.output == output,
    {
        Dump { indices, size, keep_alive, output }
    }
}

/// Where the run stands inside the current index.
pub enum Phase {
    /// No snapshot is open for the current index yet.
    Opening,
    /// A snapshot is open; `token` is the most recently rotated snapshot
    /// token and `cursor` the forward-pagination position, absent before
    /// the first page.
    Fetching { token: String, cursor: Option<u64> },
}

/// What the caller must do next.
pub enum Action {
    /// Open a point-in-time snapshot of `index` with the given keep-alive.
    Open { index: String, keep_alive: String },
    /// Send the search request `body` against the open snapshot of `index`.
    Fetch { index: String, body: String },
    /// Every requested index has reached a terminal state.
    Finished,
}

/// What one step of the machine produced: bytes owed to the sink, and at
/// most one diagnostic line owed to the error stream.
pub struct StepReport {
    pub output: String,
    pub diagnostic: Option<String>,
}

/// One record of the run's history: the position (into the requested index
/// list) a page was fetched for, and the documents it held.
pub ghost struct PageRecord {
    pub pos: int,
    pub hits: Seq<HitView>,
}

/// The views of the requested index names, in order.
pub open spec fn names_view(names: Seq<String>) -> Seq<Seq<char>> {
    strs_view(names)
}

/// The output a history of page records denotes: each page encoded for the
/// index it was fetched from, concatenated in record order.
pub open spec fn trace_output(names: Seq<Seq<char>>, trace: Seq<PageRecord>) -> Seq<char>
    decreases trace.len(),
{
    if trace.len() == 0 {
        Seq::<char>::empty()
    } else {
        trace_output(names, trace.drop_last()) + encoded_page(
            names[trace.last().pos],
            trace.last().hits,
        )
    }
}

/// Every record points into the requested index list.
pub open spec fn trace_positions_valid(trace: Seq<PageRecord>, n: int) -> bool {
    forall|i: int| 0 <= i < trace.len() ==> 0 <= (#[trigger] trace[i]).pos < n
}

/// Pages arrive grouped by index, indices in input order.
pub open spec fn trace_in_input_order(trace: Seq<PageRecord>) -> bool {
    forall|i: int, j: int| 0 <= i <= j < trace.len() ==> trace[i].pos <= trace[j].pos
}

/// No record lies past the index currently being processed.
pub open spec fn trace_at_or_before(trace: Seq<PageRecord>, pos: int) -> bool {
    forall|i: int| 0 <= i < trace.len() ==> (#[trigger] trace[i]).pos <= pos
}

/// Every recorded page is well formed: each document on a single line.
pub open spec fn trace_hits_wf(trace: Seq<PageRecord>) -> bool {
    forall|i: int| 0 <= i < trace.len() ==> hits_wf((#[trigger] trace[i]).hits)
}

/// How many documents the recorded pages hold altogether.
pub open spec fn trace_doc_count(trace: Seq<PageRecord>) -> nat
    decreases trace.len(),
{
    if trace.len() == 0 {
        0
    } else {
        trace_doc_count(trace.drop_last()) + trace.last().hits.len()
    }
}

/// The export state machine.
pub struct Exporter {
    pub indices: Vec<String>,
    pub size: usize,
    pub keep_alive: String,
    /// Position of the index currently being processed; the run is finished
    /// once it reaches the end of the list.
    pub pos: usize,
    pub phase: Phase,
    /// Ghost history of every page written so far.
    pub trace: Ghost<Seq<PageRecord>>,
    /// Ghost log of every character handed to the caller for the sink.
    pub emitted: Ghost<Seq<char>>,
}

impl Exporter {
    /// The machine's invariant: the current position is inside (or just
    /// past) the index list, fetching only happens on a real index, and the
    /// emitted output is exactly the ordered encoding of the page history.
    pub open spec fn wf(&self) -> bool {
        &&& self.pos <= self.indices@.len()
        &&& (self.phase matches Phase::Fetching { .. } ==> self.pos < self.indices@.len())
        &&& self.emitted@ == trace_output(names_view(self.indices@), self.trace@)
        &&& trace_positions_valid(self.trace@, self.indices@.len() as int)
        &&& trace_in_input_order(self.trace@)
        &&& trace_at_or_before(self.trace@, self.pos as int)
        &&& trace_hits_wf(self.trace@)
    }

    /// Starts a run over `indices`, in the order given.
    pub fn new(indices: Vec<String>, size: usize, keep_alive: String) -> (r: Exporter)
        ensures
            r.wf(),
            r.indices == indices,
            r.size == size,
            r.keep_alive == keep_alive,
            r.pos == 0,
            r.phase matches Phase::Opening,
            r.trace@ == Seq::<PageRecord>::empty(),
            r.emitted@ == Seq::<char>::empty(),
    {
        Exporter {
            indices,
            size,
            keep_alive,
            pos: 0,
            phase: Phase::Opening,
            trace: Ghost(Seq::empty()),
            emitted: Ghost(Seq::empty()),
        }
    }

    /// What the caller must do now: open a snapshot of the current index,
    /// fetch the next page with the current token and cursor, or stop.
    pub fn next_action(&self) -> (a: Action)
        requires
            self.wf(),
        ensures
            self.pos == self.indices@.len() ==> (a matches Action::Finished),
            self.pos < self.indices@.len() && (self.phase matches Phase::Opening) ==> (a matches
                Action::Open { index, keep_alive } && index@ == self.indices@[self.pos as int]@
                && keep_alive@ == self.keep_alive@),
            self.phase matches Phase::Fetching { token, cursor } ==> (a matches Action::Fetch {
                index,
                body,
            } && index@ == self.indices@[self.pos as int]@ && body@ == search_request(
                self.size as nat,
                token@,
                self.keep_alive@,
                cursor,
            )),
    {
        if self.pos == self.indices.len() {
            Action::Finished
        } else {
            match &self.phase {
                Phase::Opening => Action::Open {
                    index: self.indices[self.pos].clone(),
                    keep_alive: self.keep_alive.clone(),
                },
                Phase::Fetching { token, cursor } => Action::Fetch {
                    index: self.indices[self.pos].clone(),
                    body: build_search_request(
                        self.size,
                        token.as_str(),
                        self.keep_alive.as_str(),
                        *cursor,
                    ),
                },
            }
        }
    }

    /// Feeds back the classified outcome of the snapshot-open call. On
    /// success the machine starts fetching the first page, with no cursor;
    /// on any index-level failure it reports a diagnostic naming the index
    /// and skips to the next index, leaving the output untouched.
    pub fn on_open_outcome(&mut self, oc: OpenOutcome) -> (r: Option<String>)
        requires
            old(self).wf(),
            old(self).phase matches Phase::Opening,
            old(self).pos < old(self).indices@.len(),
        ensures
            final(self).wf(),
            final(self).indices == old(self).indices,
            final(self).size == old(self).size,
            final(self).keep_alive == old(self).keep_alive,
            final(self).trace@ == old(self).trace@,
            final(self).emitted@ == old(self).emitted@,
            oc matches OpenOutcome::Opened(token) ==> (final(self).pos == old(self).pos && final(self).phase == (Phase::Fetching { token, cursor: Option::None }) && (r matches
                Option::None)),
            !(oc matches OpenOutcome::Opened(_)) ==> (final(self).pos == old(self).pos + 1 && (
            final(self).phase matches Phase::Opening)),
            oc matches OpenOutcome::Http { status, body } ==> (r matches Option::Some(d) && d@
                == open_http_diag(old(self).indices@[old(self).pos as int]@, status, body@)),
            oc matches OpenOutcome::AppError(detail) ==> (r matches Option::Some(d) && d@
                == index_diag(
                "error opening snapshot for index"@,
                old(self).indices@[old(self).pos as int]@,
                detail@,
            )),
            oc matches OpenOutcome::Malformed(body) ==> (r matches Option::Some(d) && d@
                == index_diag(
                "malformed snapshot-open response for index"@,
                old(self).indices@[old(self).pos as int]@,
                body@,
            )),
    {
        let index = self.indices[self.pos].clone();
        match oc {
            OpenOutcome::Opened(token) => {
                self.phase = Phase::Fetching { token, cursor: None };
                None
            },
            OpenOutcome::Http { status, body } => {
                let diag = build_open_http_diag(index.as_str(), status, body.as_str());
                proof {
                    assert(self.indices.len() == self.indices@.len());
                }
                self.pos = self.pos + 1;
                self.phase = Phase::Opening;
                Some(diag)
            },
            OpenOutcome::AppError(detail) => {
                let diag = build_index_diag(
                    "error opening snapshot for index",
                    index.as_str(),
                    detail.as_str(),
                );
                proof {
                    assert(self.indices.len() == self.indices@.len());
                }
                self.pos = self.pos + 1;
                self.phase = Phase::Opening;
                Some(diag)
            },
            OpenOutcome::Malformed(body) => {
                let diag = build_index_diag(
                    "malformed snapshot-open response for index",
                    index.as_str(),
                    body.as_str(),
                );
                proof {
                    assert(self.indices.len() == self.indices@.len());
                }
                self.pos = self.pos + 1;
                self.phase = Phase::Opening;
                Some(diag)
            },
        }
    }

    /// Feeds back the classified outcome of one page fetch.
    ///
    /// An empty page is the normal end of the current index: the machine
    /// advances with no output and no diagnostic. A non-empty page is
    /// encoded for the sink in arrival order, the token is rotated to the
    /// page's reissued one, and the cursor moves to the last document's
    /// sort key — should that key be missing, a data-anomaly diagnostic is
    /// reported and fetching continues without a cursor. An application
    /// error or a malformed body ends the current index only: the partial
    /// output already written is kept, a diagnostic names the index, and
    /// the run continues with the next index.
    pub fn on_page_outcome(&mut self, oc: SearchOutcome) -> (r: StepReport)
        requires
            old(self).wf(),
            old(self).phase matches Phase::Fetching { .. },
            oc matches SearchOutcome::Page(p) ==> p.wf(),
        ensures
            final(self).wf(),
            final(self).indices == old(self).indices,
            final(self).size == old(self).size,
            final(self).keep_alive == old(self).keep_alive,
            final(self).emitted@ == old(self).emitted@ + r.output@,
            oc matches SearchOutcome::Page(p) ==> ((p.hits@.len() == 0 ==> (final(self).pos == old(self).pos + 1 && (final(self).phase matches Phase::Opening) && r.output@
                == Seq::<char>::empty() && (r.diagnostic matches Option::None) && final(self).trace@
                == old(self).trace@)) && (p.hits@.len() > 0 ==> (final(self).pos == old(self).pos
                && final(self).phase == (Phase::Fetching {
                token: p.pit_id,
                cursor: next_cursor_spec(hits_view(p.hits@)),
            }) && r.output@ == encoded_page(
                old(self).indices@[old(self).pos as int]@,
                hits_view(p.hits@),
            ) && final(self).trace@ == old(self).trace@ + seq![
                PageRecord { pos: old(self).pos as int, hits: hits_view(p.hits@) },
            ] && ((r.diagnostic matches Option::None) <==> (next_cursor_spec(hits_view(p.hits@))
                matches Option::Some(_)))))),
            oc matches SearchOutcome::AppError(detail) ==> (final(self).pos == old(self).pos + 1
                && (final(self).phase matches Phase::Opening) && r.output@ == Seq::<char>::empty()
                && final(self).trace@ == old(self).trace@ && (r.diagnostic matches Option::Some(d)
                && d@ == index_diag(
                "error fetching page for index"@,
                old(self).indices@[old(self).pos as int]@,
                detail@,
            ))),
            oc matches SearchOutcome::Malformed(body) ==> (final(self).pos == old(self).pos + 1
                && (final(self).phase matches Phase::Opening) && r.output@ == Seq::<char>::empty()
                && final(self).trace@ == old(self).trace@ && (r.diagnostic matches Option::Some(d)
                && d@ == index_diag(
                "malformed search response for index"@,
                old(self).indices@[old(self).pos as int]@,
                body@,
            ))),
    {
        let index = self.indices[self.pos].clone();
        match oc {
            SearchOutcome::Page(p) => {
                if p.hits.len() == 0 {
                    proof {
                        assert(self.indices.len() == self.indices@.len());
                    }
                    self.pos = self.pos + 1;
                    self.phase = Phase::Opening;
                    let r = StepReport { output: String::new(), diagnostic: None };
                    proof {
                        assert(self.emitted@ =~= old(self).emitted@ + r.output@);
                    }
                    r
                } else {
                    let output = encode_page(index.as_str(), &p.hits);
                    let cur = next_cursor(&p.hits);
                    let diagnostic = match cur {
                        Option::Some(_) => None,
                        Option::None => Some(
                            build_index_diag(
                                "data anomaly: page without usable sort key for index",
                                index.as_str(),
                                "continuing without a cursor",
                            ),
                        ),
                    };
                    let ghost rec = PageRecord {
                        pos: self.pos as int,
                        hits: hits_view(p.hits@),
                    };
                    self.phase = Phase::Fetching { token: p.pit_id, cursor: cur };
                    self.trace = Ghost(self.trace@ + seq![rec]);
                    self.emitted = Ghost(self.emitted@ + output@);
                    proof {
                        let names = names_view(self.indices@);
                        assert((old(self).trace@ + seq![rec]).drop_last() =~= old(self).trace@);
                        assert((old(self).trace@ + seq![rec]).last() == rec);
                        assert(trace_output(names, self.trace@) == trace_output(
                            names,
                            old(self).trace@,
                        ) + encoded_page(names[rec.pos], rec.hits));
                        assert(names[rec.pos] == self.indices@[old(self).pos as int]@);
                    }
                    StepReport { output, diagnostic }
                }
            },
            SearchOutcome::AppError(detail) => {
                let diag = build_index_diag(
                    "error fetching page for index",
                    index.as_str(),
                    detail.as_str(),
                );
                proof {
                    assert(self.indices.len() == self.indices@.len());
                }
                self.pos = self.pos + 1;
                self.phase = Phase::Opening;
                let r = StepReport { output: String::new(), diagnostic: Some(diag) };
                proof {
                    assert(self.emitted@ =~= old(self).emitted@ + r.output@);
                }
                r
            },
            SearchOutcome::Malformed(body) => {
                let diag = build_index_diag(
                    "malformed search response for index",
                    index.as_str(),
                    body.as_str(),
                );
                proof {
                    assert(self.indices.len() == self.indices@.len());
                }
                self.pos = self.pos + 1;
                self.phase = Phase::Opening;
                let r = StepReport { output: String::new(), diagnostic: Some(diag) };
                proof {
                    assert(self.emitted@ =~= old(self).emitted@ + r.output@);
                }
                r
            },
        }
    }
}

/// The shape every index-level diagnostic takes: a label, the quoted index
/// name, and the failure detail.
pub open spec fn index_diag(label: Seq<char>, index: Seq<char>, detail: Seq<char>) -> Seq<char> {
    label + " '"@ + index + "': "@ + detail
}

/// The diagnostic for a snapshot-open call answered with a non-success
/// transport status.
pub open spec fn open_http_diag(index: Seq<char>, status: u16, body: Seq<char>) -> Seq<char> {
    index_diag(
        "failed to open snapshot for index"@,
        index,
        "status "@ + dec_rep(status as nat) + " - "@ + body,
    )
}

fn build_index_diag(label: &str, index: &str, detail: &str) -> (r: String)
    ensures
        r@ == index_diag(label@, index@, detail@),
{
    proof {
        reveal_strlit(" '");
        reveal_strlit("': ");
    }
    let mut out = label.to_owned();
    out.append(" '");
    out.append(index);
    out.append("': ");
    out.append(detail);
    proof {
        assert(out@ =~= index_diag(label@, index@, detail@));
    }
    out
}

fn build_open_http_diag(index: &str, status: u16, body: &str) -> (r: String)
    ensures
        r@ == open_http_diag(index@, status, body@),
{
    proof {
        reveal_strlit("status ");
        reveal_strlit(" - ");
    }
    let mut detail = "status ".to_owned();
    let status_dec = u64_to_dec(status as u64);
    detail.append(status_dec.as_str());
    detail.append(" - ");
    detail.append(body);
    proof {
        assert(detail@ =~= "status "@ + dec_rep(status as nat) + " - "@ + body@);
    }
    build_index_diag("failed to open snapshot for index", index, detail.as_str())
}

/// Law: every index-level diagnostic carries the failing index's name
/// verbatim, right after the label and a quote.
pub proof fn lemma_diag_names_index(label: Seq<char>, index: Seq<char>, detail: Seq<char>)
    ensures
        index_diag(label, index, detail).subrange(
            label.len() as int + 2,
            label.len() as int + 2 + index.len(),
        ) == index,
{
    reveal_strlit(" '");
    assert(index_diag(label, index, detail).subrange(
        label.len() as int + 2,
        label.len() as int + 2 + index.len(),
    ) =~= index);
}

/// The page records fetched for the index at position `k`, in arrival order.
pub open spec fn records_of(trace: Seq<PageRecord>, k: int) -> Seq<PageRecord> {
    trace.filter(|r: PageRecord| r.pos == k)
}

/// The output of the first `k` indices: each index's own pages, encoded and
/// concatenated in arrival order, the indices in input order.
pub open spec fn outputs_through(names: Seq<Seq<char>>, trace: Seq<PageRecord>, k: int) -> Seq<
    char,
>
    decreases k,
{
    if k <= 0 {
        Seq::<char>::empty()
    } else {
        outputs_through(names, trace, k - 1) + trace_output(names, records_of(trace, k - 1))
    }
}

proof fn lemma_records_of_snoc(t: Seq<PageRecord>, r: PageRecord, k: int)
    ensures
        records_of(t + seq![r], k) == if r.pos == k {
            records_of(t, k).push(r)
        } else {
            records_of(t, k)
        },
{
    reveal(Seq::filter);
    assert((t + seq![r]).drop_last() =~= t);
    assert((t + seq![r]).last() == r);
}

proof fn lemma_records_of_absent(t: Seq<PageRecord>, k: int)
    requires
        forall|i: int| 0 <= i < t.len() ==> (#[trigger] t[i]).pos != k,
    ensures
        records_of(t, k) == Seq::<PageRecord>::empty(),
    decreases t.len(),
{
    reveal(Seq::filter);
    if t.len() > 0 {
        lemma_records_of_absent(t.drop_last(), k);
        assert(t.last().pos != k);
        assert(records_of(t, k) =~= Seq::<PageRecord>::empty());
    } else {
        assert(records_of(t, k) =~= Seq::<PageRecord>::empty());
    }
}

proof fn lemma_outputs_through_empty(names: Seq<Seq<char>>, k: int)
    ensures
        outputs_through(names, Seq::<PageRecord>::empty(), k) == Seq::<char>::empty(),
    decreases k,
{
    if k > 0 {
        lemma_outputs_through_empty(names, k - 1);
        lemma_records_of_absent(Seq::<PageRecord>::empty(), k - 1);
        assert(outputs_through(names, Seq::<PageRecord>::empty(), k) =~= Seq::<char>::empty());
    }
}

/// Appending one record for the run's most advanced index extends that
/// index's block and leaves every other index's block unchanged.
proof fn lemma_outputs_through_snoc(
    names: Seq<Seq<char>>,
    t: Seq<PageRecord>,
    r: PageRecord,
    k: int,
)
    requires
        0 <= r.pos,
        forall|i: int| 0 <= i < t.len() ==> (#[trigger] t[i]).pos <= r.pos,
    ensures
        k <= r.pos ==> outputs_through(names, t + seq![r], k) == outputs_through(names, t, k),
        k > r.pos ==> outputs_through(names, t + seq![r], k) == outputs_through(names, t, k)
            + encoded_page(names[r.pos], r.hits),
    decreases k,
{
    if k > 0 {
        lemma_outputs_through_snoc(names, t, r, k - 1);
        lemma_records_of_snoc(t, r, k - 1);
        if r.pos == k - 1 {
            let block = records_of(t, k - 1);
            assert(block.push(r).drop_last() =~= block);
            assert(trace_output(names, block.push(r)) == trace_output(names, block)
                + encoded_page(names[r.pos], r.hits));
        } else if k - 1 > r.pos {
            assert(forall|i: int| 0 <= i < t.len() ==> (#[trigger] t[i]).pos != k - 1);
            lemma_records_of_absent(t, k - 1);
        }
    }
}

proof fn lemma_trace_output_splits(names: Seq<Seq<char>>, trace: Seq<PageRecord>, n: int)
    requires
        trace_positions_valid(trace, n),
        trace_in_input_order(trace),
    ensures
        trace_output(names, trace) == outputs_through(names, trace, n),
    decreases trace.len(),
{
    if trace.len() == 0 {
        assert(trace =~= Seq::<PageRecord>::empty());
        lemma_outputs_through_empty(names, n);
    } else {
        let t = trace.drop_last();
        let r = trace.last();
        assert(forall|i: int| 0 <= i < t.len() ==> (#[trigger] t[i]).pos <= r.pos) by {
            assert(forall|i: int|
                0 <= i < t.len() ==> (#[trigger] trace[i]).pos <= trace[trace.len() - 1].pos);
        }
        lemma_trace_output_splits(names, t, n);
        assert(trace =~= t + seq![r]);
        lemma_outputs_through_snoc(names, t, r, n);
    }
}

/// Law: across a whole run, the output handed to the sink is exactly the
/// concatenation, index by index in the order requested, of each index's
/// encoded pages in arrival order.
pub proof fn lemma_output_is_ordered_concatenation(e: &Exporter)
    requires
        e.wf(),
    ensures
        e.emitted@ == outputs_through(names_view(e.indices@), e.trace@, e.indices@.len() as int),
        trace_in_input_order(e.trace@),
{
    lemma_trace_output_splits(names_view(e.indices@), e.trace@, e.indices@.len() as int);
}

proof fn lemma_trace_output_line_count(names: Seq<Seq<char>>, trace: Seq<PageRecord>)
    requires
        trace_hits_wf(trace),
    ensures
        newline_count(trace_output(names, trace)) == 2 * trace_doc_count(trace),
    decreases trace.len(),
{
    if trace.len() > 0 {
        assert(trace_hits_wf(trace.drop_last()));
        lemma_trace_output_line_count(names, trace.drop_last());
        lemma_newline_count_concat(
            trace_output(names, trace.drop_last()),
            encoded_page(names[trace.last().pos], trace.last().hits),
        );
        lemma_page_line_count(names[trace.last().pos], trace.last().hits);
    }
}

/// Law: across a whole run, the output handed to the sink holds exactly two
/// newline-terminated lines for every document fetched.
pub proof fn lemma_run_line_count(e: &Exporter)
    requires
        e.wf(),
    ensures
        newline_count(e.emitted@) == 2 * trace_doc_count(e.trace@),
{
    lemma_trace_output_line_count(names_view(e.indices@), e.trace@);
}

} // verus!
