//! Response decoding. The backend answers both the snapshot-open call and
//! the search call with HTTP 200 whether the request succeeded or failed at
//! the application level, so the body's shape alone decides the outcome:
//! first the success shape is tried, then the error envelope, and a body
//! matching neither is kept raw for diagnostics.
//!
//! Only the raw JSON parsing is trusted, and `json_of` names its outcome as
//! a function of the body alone; the shape interpretation — which bodies
//! form a page, a token, or an error envelope, and what each one yields —
//! is verified against that name, clause by clause.

use vstd::prelude::*;
use crate::json::{
    Json, JsonView, json_member, json_text, json_view, json_wf, json_write, lemma_json_text_newline_free,
    lemma_obj_lookup_wf, lemma_views_of, obj_lookup, views_of,
};
use crate::model::{
    Hit, HitView, OpenOutcome, OpenOutcomeView, SearchOutcome, SearchOutcomeView, SearchPage,
    SearchPageView, hits_view, hits_wf,
};
use crate::text::newline_free;

verus! {

#[verifier::external_type_specification]
#[verifier::external_body]
pub struct ExValue(serde_json::Value);

/// What parsing a body yields: nothing when the body is not one valid JSON
/// document, and the modeled document otherwise. `serde_json::from_str`
/// decides this from the body alone, so the outcome is a function of it.
pub uninterp spec fn json_of(body: Seq<char>) -> Option<JsonView>;

/// The model of a parsed value: what it holds, read as plain values.
pub uninterp spec fn json_view_of(v: serde_json::Value) -> JsonView;

/// Relies on serde_json::from_str: parses one JSON document, or fails on
/// anything that is not valid JSON. The outcome depends on the body alone;
/// a returned value carries exactly the model that `json_of` names.
#[verifier::external_body]
fn parse_value(body: &str) -> (r: Option<serde_json::Value>)
    ensures
        r matches Some(v) ==> json_of(body@) == Option::Some(json_view_of(v)),
        r matches None ==> json_of(body@) == Option::<JsonView>::None,
{
    serde_json::from_str(body).ok()
}

/// Relies on serde_json::Value's variants: converts a parsed value into the
/// library's model, one arm per variant, moving fields — objects in the
/// map's sorted key order, integers as machine words, and any other number
/// as its canonical serialized text, which is digits, sign, dot and
/// exponent and so never holds a newline.
#[verifier::external_body]
fn value_to_json(v: serde_json::Value) -> (j: Json)
    ensures
        j@ == json_view_of(v),
        json_wf(j@),
{
    match v {
        serde_json::Value::Null => Json::Null,
        serde_json::Value::Bool(b) => Json::Bool(b),
        serde_json::Value::Number(n) => match (n.as_u64(), n.as_i64()) {
            (Some(u), _) => Json::UInt(u),
            (None, Some(i)) => Json::Int(i),
            _ => Json::Num(n.to_string()),
        },
        serde_json::Value::String(s) => Json::Str(s),
        serde_json::Value::Array(a) => Json::Arr(a.into_iter().map(value_to_json).collect()),
        serde_json::Value::Object(o) => Json::Obj(
            o.into_iter().map(|(k, w)| (k, value_to_json(w))).collect(),
        ),
    }
}

/// Parses one body into the model, exactly as `json_of` says.
fn parse_json_model(body: &str) -> (r: Option<Json>)
    ensures
        r matches Some(j) ==> json_of(body@) == Option::Some(j@) && json_wf(j@),
        r matches None ==> json_of(body@) == Option::<JsonView>::None,
{
    match parse_value(body) {
        Some(v) => Some(value_to_json(v)),
        None => None,
    }
}

/// The sort key of a hit: every element must be an unsigned integer.
pub open spec fn uints_of(elems: Seq<JsonView>) -> Option<Seq<u64>>
    decreases elems.len(),
{
    if elems.len() == 0 {
        Option::Some(Seq::<u64>::empty())
    } else {
        match uints_of(elems.drop_last()) {
            Option::Some(pre) => match elems.last() {
                JsonView::UInt(u) => Option::Some(pre.push(u)),
                _ => Option::None,
            },
            Option::None => Option::None,
        }
    }
}

proof fn lemma_uints_of_prefix_none(elems: Seq<JsonView>, k: int)
    requires
        0 <= k <= elems.len(),
        uints_of(elems.take(k)) == Option::<Seq<u64>>::None,
    ensures
        uints_of(elems) == Option::<Seq<u64>>::None,
    decreases elems.len(),
{
    if k == elems.len() {
        assert(elems.take(k) =~= elems);
    } else {
        assert(elems.drop_last().take(k) =~= elems.take(k));
        lemma_uints_of_prefix_none(elems.drop_last(), k);
    }
}

/// What one hit yields: its body re-serialized as one compact line, and its
/// sort key as plain integers.
pub open spec fn hit_of(j: JsonView) -> Option<HitView> {
    match j {
        JsonView::Obj(pairs) => match obj_lookup(pairs, "_source"@) {
            Option::Some(src) => match obj_lookup(pairs, "sort"@) {
                Option::Some(JsonView::Arr(elems)) => match uints_of(elems) {
                    Option::Some(sort) => Option::Some(
                        HitView { source: json_text(src), sort },
                    ),
                    Option::None => Option::None,
                },
                _ => Option::None,
            },
            Option::None => Option::None,
        },
        _ => Option::None,
    }
}

/// What a hits array yields: every element must form a hit.
pub open spec fn hits_of(elems: Seq<JsonView>) -> Option<Seq<HitView>>
    decreases elems.len(),
{
    if elems.len() == 0 {
        Option::Some(Seq::<HitView>::empty())
    } else {
        match hits_of(elems.drop_last()) {
            Option::Some(pre) => match hit_of(elems.last()) {
                Option::Some(h) => Option::Some(pre.push(h)),
                Option::None => Option::None,
            },
            Option::None => Option::None,
        }
    }
}

proof fn lemma_hits_of_prefix_none(elems: Seq<JsonView>, k: int)
    requires
        0 <= k <= elems.len(),
        hits_of(elems.take(k)) == Option::<Seq<HitView>>::None,
    ensures
        hits_of(elems) == Option::<Seq<HitView>>::None,
    decreases elems.len(),
{
    if k == elems.len() {
        assert(elems.take(k) =~= elems);
    } else {
        assert(elems.drop_last().take(k) =~= elems.take(k));
        lemma_hits_of_prefix_none(elems.drop_last(), k);
    }
}

/// What a search success body yields: the rotated token under `pit_id` and
/// the documents under `hits.hits`.
pub open spec fn page_of(j: JsonView) -> Option<SearchPageView> {
    match j {
        JsonView::Obj(pairs) => match obj_lookup(pairs, "pit_id"@) {
            Option::Some(JsonView::Str(pit)) => match obj_lookup(pairs, "hits"@) {
                Option::Some(JsonView::Obj(hp)) => match obj_lookup(hp, "hits"@) {
                    Option::Some(JsonView::Arr(elems)) => match hits_of(elems) {
                        Option::Some(hs) => Option::Some(SearchPageView { pit_id: pit, hits: hs }),
                        Option::None => Option::None,
                    },
                    _ => Option::None,
                },
                _ => Option::None,
            },
            _ => Option::None,
        },
        _ => Option::None,
    }
}

/// Whether a `status` member is a signed 64-bit integer.
pub open spec fn int_status(j: JsonView) -> bool {
    match j {
        JsonView::Int(_) => true,
        JsonView::UInt(u) => u <= 0x7fff_ffff_ffff_ffff,
        _ => false,
    }
}

/// What an application error envelope yields: "type: reason", present
/// exactly when the body carries an `error` object with `type` and `reason`
/// strings beside an integer top-level `status`.
pub open spec fn error_detail_of(j: JsonView) -> Option<Seq<char>> {
    match j {
        JsonView::Obj(pairs) => match obj_lookup(pairs, "error"@) {
            Option::Some(JsonView::Obj(ep)) => match (
                obj_lookup(ep, "type"@),
                obj_lookup(ep, "reason"@),
                obj_lookup(pairs, "status"@),
            ) {
                (
                    Option::Some(JsonView::Str(kind)),
                    Option::Some(JsonView::Str(reason)),
                    Option::Some(st),
                ) => if int_status(st) {
                    Option::Some(kind + ": "@ + reason)
                } else {
                    Option::None
                },
                _ => Option::None,
            },
            _ => Option::None,
        },
        _ => Option::None,
    }
}

/// What a snapshot-open success body yields: the issued token under `id`.
pub open spec fn token_of(j: JsonView) -> Option<Seq<char>> {
    match j {
        JsonView::Obj(pairs) => match obj_lookup(pairs, "id"@) {
            Option::Some(JsonView::Str(t)) => Option::Some(t),
            _ => Option::None,
        },
        _ => Option::None,
    }
}

/// The outcome of decoding one search response body: the page it encodes,
/// else the error envelope it encodes, else malformed with the raw body.
pub open spec fn search_outcome_of(body: Seq<char>) -> SearchOutcomeView {
    match json_of(body) {
        Option::None => SearchOutcomeView::Malformed(body),
        Option::Some(j) => match page_of(j) {
            Option::Some(pg) => SearchOutcomeView::Page(pg),
            Option::None => match error_detail_of(j) {
                Option::Some(d) => SearchOutcomeView::AppError(d),
                Option::None => SearchOutcomeView::Malformed(body),
            },
        },
    }
}

/// The outcome of decoding one snapshot-open response body.
pub open spec fn open_body_outcome_of(body: Seq<char>) -> OpenOutcomeView {
    match json_of(body) {
        Option::None => OpenOutcomeView::Malformed(body),
        Option::Some(j) => match token_of(j) {
            Option::Some(t) => OpenOutcomeView::Opened(t),
            Option::None => match error_detail_of(j) {
                Option::Some(d) => OpenOutcomeView::AppError(d),
                Option::None => OpenOutcomeView::Malformed(body),
            },
        },
    }
}

/// The classified outcome of one snapshot-open call: a non-success
/// transport status by itself, else whatever the body encodes.
pub open spec fn open_outcome_of(status: u16, body: Seq<char>) -> OpenOutcomeView {
    if status != 200 {
        OpenOutcomeView::Http { status, body }
    } else {
        open_body_outcome_of(body)
    }
}

proof fn lemma_hit_of_wf(j: JsonView)
    requires
        json_wf(j),
    ensures
        hit_of(j) matches Option::Some(h) ==> newline_free(h.source),
{
    match j {
        JsonView::Obj(pairs) => {
            lemma_obj_lookup_wf(pairs, "_source"@);
            match obj_lookup(pairs, "_source"@) {
                Option::Some(src) => {
                    lemma_json_text_newline_free(src);
                },
                Option::None => {},
            }
        },
        _ => {},
    }
}

proof fn lemma_hits_of_wf(elems: Seq<JsonView>)
    requires
        forall|k: int| 0 <= k < elems.len() ==> json_wf(#[trigger] elems[k]),
    ensures
        hits_of(elems) matches Option::Some(hs) ==> hits_wf(hs),
    decreases elems.len(),
{
    if elems.len() > 0 {
        assert(forall|k: int|
            0 <= k < elems.drop_last().len() ==> json_wf(#[trigger] elems.drop_last()[k]));
        lemma_hits_of_wf(elems.drop_last());
        lemma_hit_of_wf(elems.last());
    }
}

/// A page read out of a well-formed document is itself well formed: each of
/// its documents sits on one line.
proof fn lemma_page_of_wf(j: JsonView)
    requires
        json_wf(j),
    ensures
        page_of(j) matches Option::Some(pg) ==> hits_wf(pg.hits),
{
    match j {
        JsonView::Obj(pairs) => {
            lemma_obj_lookup_wf(pairs, "hits"@);
            match obj_lookup(pairs, "hits"@) {
                Option::Some(JsonView::Obj(hp)) => {
                    lemma_obj_lookup_wf(hp, "hits"@);
                    match obj_lookup(hp, "hits"@) {
                        Option::Some(JsonView::Arr(elems)) => {
                            lemma_hits_of_wf(elems);
                        },
                        _ => {},
                    }
                },
                _ => {},
            }
        },
        _ => {},
    }
}

/// Reads one document out of a decoded hit, exactly as [`hit_of`] says.
fn hit_from_json(elem: &Json) -> (r: Option<Hit>)
    ensures
        r matches Some(h) ==> hit_of(elem@) == Option::Some(h@),
        r matches None ==> hit_of(elem@) == Option::<HitView>::None,
{
    let src = match json_member(elem, "_source") {
        Some(s) => s,
        None => {
            return None;
        },
    };
    let source = json_write(src);
    let sort_vec = match json_member(elem, "sort") {
        Some(sj) => match sj {
            Json::Arr(items) => items,
            _ => {
                return None;
            },
        },
        None => {
            return None;
        },
    };
    let ghost sv = views_of(sort_vec@);
    let ghost src_text = json_text((*src)@);
    proof {
        lemma_views_of(sort_vec@);
        assert(hit_of(elem@) == (match uints_of(sv) {
            Option::Some(sort) => Option::Some(HitView { source: src_text, sort }),
            Option::None => Option::<HitView>::None,
        }));
    }
    let mut sort: Vec<u64> = Vec::new();
    let mut i: usize = 0;
    while i < sort_vec.len()
        invariant
            0 <= i <= sort_vec@.len(),
            sv == views_of(sort_vec@),
            sv.len() == sort_vec@.len(),
            forall|k: int| 0 <= k < sort_vec@.len() ==> #[trigger] sv[k] == json_view(
                sort_vec@[k],
            ),
            uints_of(sv.take(i as int)) == Option::Some(sort@),
            src_text == source@,
            hit_of(elem@) == (match uints_of(sv) {
                Option::Some(sort) => Option::Some(HitView { source: src_text, sort }),
                Option::None => Option::<HitView>::None,
            }),
        decreases sort_vec@.len() - i,
    {
        proof {
            assert(sv.take(i + 1).drop_last() =~= sv.take(i as int));
            assert(sv.take(i + 1).last() == sv[i as int]);
        }
        match &sort_vec[i] {
            Json::UInt(u) => {
                sort.push(*u);
            },
            _ => {
                proof {
                    assert(uints_of(sv.take(i + 1)) == Option::<Seq<u64>>::None);
                    lemma_uints_of_prefix_none(sv, i + 1);
                }
                return None;
            },
        }
        i = i + 1;
    }
    proof {
        assert(sv.take(sv.len() as int) =~= sv);
        assert(uints_of(sv) == Option::Some(sort@));
    }
    Some(Hit { source, sort })
}

/// Reads a whole result page, exactly as [`page_of`] says.
fn page_from_json(j: &Json) -> (r: Option<SearchPage>)
    ensures
        r matches Some(p) ==> page_of(j@) == Option::Some(p@),
        r matches None ==> page_of(j@) == Option::<SearchPageView>::None,
{
    let pit_id = match json_member(j, "pit_id") {
        Some(pj) => match pj {
            Json::Str(s) => s.clone(),
            _ => {
                return None;
            },
        },
        None => {
            return None;
        },
    };
    let hits_obj = match json_member(j, "hits") {
        Some(h) => h,
        None => {
            return None;
        },
    };
    let elems_vec = match json_member(hits_obj, "hits") {
        Some(hj) => match hj {
            Json::Arr(items) => items,
            _ => {
                return None;
            },
        },
        None => {
            return None;
        },
    };
    let ghost ev = views_of(elems_vec@);
    let ghost pit_v = pit_id@;
    proof {
        lemma_views_of(elems_vec@);
        assert(page_of(j@) == (match hits_of(ev) {
            Option::Some(hs) => Option::Some(SearchPageView { pit_id: pit_v, hits: hs }),
            Option::None => Option::<SearchPageView>::None,
        }));
    }
    let mut hits: Vec<Hit> = Vec::new();
    let mut i: usize = 0;
    while i < elems_vec.len()
        invariant
            0 <= i <= elems_vec@.len(),
            ev == views_of(elems_vec@),
            ev.len() == elems_vec@.len(),
            forall|k: int| 0 <= k < elems_vec@.len() ==> #[trigger] ev[k] == json_view(
                elems_vec@[k],
            ),
            hits_of(ev.take(i as int)) == Option::Some(hits_view(hits@)),
            pit_v == pit_id@,
            page_of(j@) == (match hits_of(ev) {
                Option::Some(hs) => Option::Some(SearchPageView { pit_id: pit_v, hits: hs }),
                Option::None => Option::<SearchPageView>::None,
            }),
        decreases elems_vec@.len() - i,
    {
        proof {
            assert(ev.take(i + 1).drop_last() =~= ev.take(i as int));
            assert(ev.take(i + 1).last() == ev[i as int]);
        }
        match hit_from_json(&elems_vec[i]) {
            Some(h) => {
                proof {
                    assert(hits_view(hits@.push(h)) =~= hits_view(hits@).push(h@));
                }
                hits.push(h);
            },
            None => {
                proof {
                    assert(hits_of(ev.take(i + 1)) == Option::<Seq<HitView>>::None);
                    lemma_hits_of_prefix_none(ev, i + 1);
                }
                return None;
            },
        }
        i = i + 1;
    }
    proof {
        assert(ev.take(ev.len() as int) =~= ev);
        assert(hits_of(ev) == Option::Some(hits_view(hits@)));
    }
    Some(SearchPage { pit_id, hits })
}

/// Reads the application error envelope, exactly as [`error_detail_of`]
/// says.
fn error_detail_from_json(j: &Json) -> (r: Option<String>)
    ensures
        r matches Some(d) ==> error_detail_of(j@) == Option::Some(d@),
        r matches None ==> error_detail_of(j@) == Option::<Seq<char>>::None,
{
    let err = match json_member(j, "error") {
        Some(e) => e,
        None => {
            return None;
        },
    };
    let kind = match json_member(err, "type") {
        Some(t) => match t {
            Json::Str(s) => s.clone(),
            _ => {
                return None;
            },
        },
        None => {
            return None;
        },
    };
    let reason = match json_member(err, "reason") {
        Some(t) => match t {
            Json::Str(s) => s,
            _ => {
                return None;
            },
        },
        None => {
            return None;
        },
    };
    let status_ok = match json_member(j, "status") {
        Some(st) => match st {
            Json::Int(_) => true,
            Json::UInt(u) => *u <= 0x7fff_ffff_ffff_ffff,
            _ => false,
        },
        None => false,
    };
    if !status_ok {
        return None;
    }
    proof {
        reveal_strlit(": ");
    }
    let mut detail = kind;
    detail.append(": ");
    detail.append(reason.as_str());
    Some(detail)
}

/// Decodes one search response body: first as a result page, then as an
/// application error envelope, keeping the raw body when neither fits —
/// exactly as [`search_outcome_of`] says of the parse outcome.
pub fn decode_search_body(body: &str) -> (r: SearchOutcome)
    ensures
        r@ == search_outcome_of(body@),
        r matches SearchOutcome::Page(p) ==> p.wf(),
{
    match parse_json_model(body) {
        None => SearchOutcome::Malformed(body.to_owned()),
        Some(j) => match page_from_json(&j) {
            Some(p) => {
                proof {
                    lemma_page_of_wf(j@);
                }
                SearchOutcome::Page(p)
            },
            None => match error_detail_from_json(&j) {
                Some(d) => SearchOutcome::AppError(d),
                None => SearchOutcome::Malformed(body.to_owned()),
            },
        },
    }
}

/// Decodes one snapshot-open response body: first as the issued token under
/// `id`, then as an application error envelope, keeping the raw body when
/// neither fits — exactly as [`open_body_outcome_of`] says of the parse
/// outcome.
pub fn decode_open_body(body: &str) -> (r: OpenOutcome)
    ensures
        r@ == open_body_outcome_of(body@),
{
    match parse_json_model(body) {
        None => OpenOutcome::Malformed(body.to_owned()),
        Some(j) => {
            let token: Option<String> = match json_member(&j, "id") {
                Some(t) => match t {
                    Json::Str(s) => Some(s.clone()),
                    _ => None,
                },
                None => None,
            };
            match token {
                Some(t) => OpenOutcome::Opened(t),
                None => match error_detail_from_json(&j) {
                    Some(d) => OpenOutcome::AppError(d),
                    None => OpenOutcome::Malformed(body.to_owned()),
                },
            }
        },
    }
}

/// Classifies one snapshot-open response. A non-success transport status is
/// an index-level failure by itself; only a success status has its body
/// decoded — exactly as [`open_outcome_of`] says.
pub fn classify_open_response(status: u16, body: String) -> (r: OpenOutcome)
    ensures
        r@ == open_outcome_of(status, body@),
{
    if status != 200 {
        OpenOutcome::Http { status, body }
    } else {
        decode_open_body(body.as_str())
    }
}

} // verus!
