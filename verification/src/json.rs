//! A JSON value modeled in plain values, so that the shape interpretation
//! of backend responses can be verified. Integers are machine words, any
//! other number keeps its canonical serialized text, and objects keep their
//! members in the (sorted, duplicate-free) order the parser yields.
//!
//! The module also carries the compact serializer: one line, no spaces,
//! strings escaped exactly as the record encoder escapes them.

use vstd::prelude::*;
use crate::text::{
    dec_rep, i64_to_dec, int_rep, json_escape, json_escaped, lemma_dec_rep_newline_free,
    lemma_int_rep_newline_free, lemma_json_escaped_newline_free, newline_free, str_eq, u64_to_dec,
};

verus! {

/// One JSON value.
pub enum Json {
    Null,
    Bool(bool),
    /// A number that is an unsigned 64-bit integer.
    UInt(u64),
    /// A number that is a negative 64-bit integer.
    Int(i64),
    /// Any other number, kept as its canonical serialized text.
    Num(String),
    Str(String),
    Arr(Vec<Json>),
    Obj(Vec<(String, Json)>),
}

/// The mathematical value of a [`Json`].
pub ghost enum JsonView {
    Null,
    Bool(bool),
    UInt(u64),
    Int(i64),
    Num(Seq<char>),
    Str(Seq<char>),
    Arr(Seq<JsonView>),
    Obj(Seq<(Seq<char>, JsonView)>),
}

pub open spec fn json_view(j: Json) -> JsonView
    decreases j, 2int,
{
    match j {
        Json::Null => JsonView::Null,
        Json::Bool(b) => JsonView::Bool(b),
        Json::UInt(u) => JsonView::UInt(u),
        Json::Int(i) => JsonView::Int(i),
        Json::Num(s) => JsonView::Num(s@),
        Json::Str(s) => JsonView::Str(s@),
        Json::Arr(items) => JsonView::Arr(views_of(items@)),
        Json::Obj(pairs) => JsonView::Obj(pair_views_of(pairs@)),
    }
}

/// The views of a sequence of values, in order.
pub open spec fn views_of(items: Seq<Json>) -> Seq<JsonView>
    decreases items, 1int,
{
    if items.len() == 0 {
        Seq::<JsonView>::empty()
    } else {
        views_of(items.drop_last()).push(json_view(items.last()))
    }
}

/// The views of a sequence of object members, in order.
pub open spec fn pair_views_of(pairs: Seq<(String, Json)>) -> Seq<(Seq<char>, JsonView)>
    decreases pairs, 1int,
{
    if pairs.len() == 0 {
        Seq::<(Seq<char>, JsonView)>::empty()
    } else {
        pair_views_of(pairs.drop_last()).push(
            (pairs.last().0@, json_view(pairs.last().1)),
        )
    }
}

pub proof fn lemma_views_of(items: Seq<Json>)
    ensures
        views_of(items).len() == items.len(),
        forall|k: int| 0 <= k < items.len() ==> #[trigger] views_of(items)[k] == json_view(
            items[k],
        ),
    decreases items.len(),
{
    if items.len() > 0 {
        lemma_views_of(items.drop_last());
    }
}

pub proof fn lemma_pair_views_of(pairs: Seq<(String, Json)>)
    ensures
        pair_views_of(pairs).len() == pairs.len(),
        forall|k: int| 0 <= k < pairs.len() ==> #[trigger] pair_views_of(pairs)[k] == (
            pairs[k].0@,
            json_view(pairs[k].1),
        ),
    decreases pairs.len(),
{
    if pairs.len() > 0 {
        lemma_pair_views_of(pairs.drop_last());
    }
}

impl View for Json {
    type V = JsonView;

    open spec fn view(&self) -> JsonView {
        json_view(*self)
    }
}

/// Every number kept as text sits on a single line. The parser's conversion
/// guarantees this; it is what keeps a serialized value single-line.
pub open spec fn json_wf(j: JsonView) -> bool
    decreases j,
{
    match j {
        JsonView::Num(s) => newline_free(s),
        JsonView::Arr(items) => forall|k: int|
            0 <= k < items.len() ==> json_wf(#[trigger] items[k]),
        JsonView::Obj(pairs) => forall|k: int|
            0 <= k < pairs.len() ==> json_wf((#[trigger] pairs[k]).1),
        _ => true,
    }
}

/// The member of an object under `key`: the first pair that carries it.
pub open spec fn obj_lookup(pairs: Seq<(Seq<char>, JsonView)>, key: Seq<char>) -> Option<JsonView>
    decreases pairs.len(),
{
    if pairs.len() == 0 {
        Option::None
    } else if pairs.first().0 == key {
        Option::Some(pairs.first().1)
    } else {
        obj_lookup(pairs.drop_first(), key)
    }
}

proof fn lemma_obj_lookup_at(pairs: Seq<(Seq<char>, JsonView)>, key: Seq<char>, i: int)
    requires
        0 <= i < pairs.len(),
        forall|m: int| 0 <= m < i ==> (#[trigger] pairs[m]).0 != key,
        pairs[i].0 == key,
    ensures
        obj_lookup(pairs, key) == Option::Some(pairs[i].1),
    decreases i,
{
    if i > 0 {
        let rest = pairs.drop_first();
        assert(forall|m: int| 0 <= m < i - 1 ==> (#[trigger] rest[m]).0 != key);
        lemma_obj_lookup_at(rest, key, i - 1);
    }
}

proof fn lemma_obj_lookup_none(pairs: Seq<(Seq<char>, JsonView)>, key: Seq<char>)
    requires
        forall|m: int| 0 <= m < pairs.len() ==> (#[trigger] pairs[m]).0 != key,
    ensures
        obj_lookup(pairs, key) == Option::<JsonView>::None,
    decreases pairs.len(),
{
    if pairs.len() > 0 {
        let rest = pairs.drop_first();
        assert(forall|m: int| 0 <= m < rest.len() ==> (#[trigger] rest[m]).0 != key);
        lemma_obj_lookup_none(rest, key);
    }
}

/// A member found by lookup is as well formed as the object it came from.
pub proof fn lemma_obj_lookup_wf(pairs: Seq<(Seq<char>, JsonView)>, key: Seq<char>)
    requires
        forall|k: int| 0 <= k < pairs.len() ==> json_wf((#[trigger] pairs[k]).1),
    ensures
        obj_lookup(pairs, key) matches Option::Some(x) ==> json_wf(x),
    decreases pairs.len(),
{
    if pairs.len() > 0 && pairs.first().0 != key {
        let rest = pairs.drop_first();
        assert(forall|k: int| 0 <= k < rest.len() ==> json_wf((#[trigger] rest[k]).1));
        lemma_obj_lookup_wf(rest, key);
    }
}

/// Looks a member up in an object; nothing on any other kind of value.
pub fn json_member<'a>(j: &'a Json, key: &str) -> (r: Option<&'a Json>)
    ensures
        j@ matches JsonView::Obj(pairs) ==> ((r matches Option::Some(x) ==> obj_lookup(pairs, key@)
            == Option::Some((*x)@)) && (r matches Option::None ==> obj_lookup(pairs, key@)
            == Option::<JsonView>::None)),
        !(j@ matches JsonView::Obj(_)) ==> (r matches Option::None),
{
    match j {
        Json::Obj(pairs) => {
            let ghost pv = pair_views_of(pairs@);
            proof {
                lemma_pair_views_of(pairs@);
            }
            let mut i: usize = 0;
            while i < pairs.len()
                invariant
                    0 <= i <= pairs@.len(),
                    j@ == JsonView::Obj(pv),
                    pv == pair_views_of(pairs@),
                    pv.len() == pairs@.len(),
                    forall|k: int| 0 <= k < pairs@.len() ==> #[trigger] pv[k] == (
                        pairs@[k].0@,
                        json_view(pairs@[k].1),
                    ),
                    forall|m: int| 0 <= m < i ==> (#[trigger] pv[m]).0 != key@,
                decreases pairs@.len() - i,
            {
                if str_eq(pairs[i].0.as_str(), key) {
                    proof {
                        lemma_obj_lookup_at(pv, key@, i as int);
                    }
                    return Some(&pairs[i].1);
                }
                i = i + 1;
            }
            proof {
                lemma_obj_lookup_none(pv, key@);
            }
            None
        },
        _ => None,
    }
}

/// A string as it stands inside JSON text: quoted and escaped.
pub open spec fn quoted_text(s: Seq<char>) -> Seq<char> {
    seq!['"'] + json_escaped(s) + seq!['"']
}

/// The compact serialization of a value: one line, no spaces, members in
/// model order.
pub open spec fn json_text(j: JsonView) -> Seq<char>
    decreases j, 1int,
{
    match j {
        JsonView::Null => "null"@,
        JsonView::Bool(b) => if b {
            "true"@
        } else {
            "false"@
        },
        JsonView::UInt(u) => dec_rep(u as nat),
        JsonView::Int(i) => int_rep(i as int),
        JsonView::Num(s) => s,
        JsonView::Str(s) => quoted_text(s),
        JsonView::Arr(items) => seq!['['] + arr_text(items) + seq![']'],
        JsonView::Obj(pairs) => seq!['{'] + obj_text(pairs) + seq!['}'],
    }
}

/// The elements of an array, serialized and joined with commas.
pub open spec fn arr_text(items: Seq<JsonView>) -> Seq<char>
    decreases items, 0int,
{
    if items.len() == 0 {
        Seq::<char>::empty()
    } else if items.len() == 1 {
        json_text(items[0])
    } else {
        arr_text(items.drop_last()) + ","@ + json_text(items.last())
    }
}

/// One object member, serialized.
pub open spec fn member_text(p: (Seq<char>, JsonView)) -> Seq<char>
    decreases p, 0int,
{
    quoted_text(p.0) + seq![':'] + json_text(p.1)
}

/// The members of an object, serialized and joined with commas.
pub open spec fn obj_text(pairs: Seq<(Seq<char>, JsonView)>) -> Seq<char>
    decreases pairs, 1int,
{
    if pairs.len() == 0 {
        Seq::<char>::empty()
    } else if pairs.len() == 1 {
        member_text(pairs[0])
    } else {
        obj_text(pairs.drop_last()) + ","@ + member_text(pairs.last())
    }
}

proof fn lemma_arr_text_newline_free(items: Seq<JsonView>)
    requires
        forall|k: int| 0 <= k < items.len() ==> json_wf(#[trigger] items[k]),
    ensures
        newline_free(arr_text(items)),
    decreases items, 0int,
{
    reveal_strlit(",");
    if items.len() == 1 {
        lemma_json_text_newline_free(items[0]);
    } else if items.len() > 1 {
        lemma_arr_text_newline_free(items.drop_last());
        lemma_json_text_newline_free(items.last());
    }
}

proof fn lemma_obj_text_newline_free(pairs: Seq<(Seq<char>, JsonView)>)
    requires
        forall|k: int| 0 <= k < pairs.len() ==> json_wf((#[trigger] pairs[k]).1),
    ensures
        newline_free(obj_text(pairs)),
    decreases pairs, 1int,
{
    reveal_strlit(",");
    if pairs.len() == 1 {
        lemma_member_text_newline_free(pairs[0]);
    } else if pairs.len() > 1 {
        lemma_obj_text_newline_free(pairs.drop_last());
        lemma_member_text_newline_free(pairs.last());
    }
}

proof fn lemma_member_text_newline_free(p: (Seq<char>, JsonView))
    requires
        json_wf(p.1),
    ensures
        newline_free(member_text(p)),
    decreases p, 0int,
{
    lemma_json_escaped_newline_free(p.0);
    lemma_json_text_newline_free(p.1);
}

/// The serialization of a well-formed value never holds a newline: strings
/// are escaped, numbers are digits, and the frame is punctuation.
pub proof fn lemma_json_text_newline_free(j: JsonView)
    requires
        json_wf(j),
    ensures
        newline_free(json_text(j)),
    decreases j, 1int,
{
    match j {
        JsonView::Null => {
            reveal_strlit("null");
        },
        JsonView::Bool(b) => {
            reveal_strlit("true");
            reveal_strlit("false");
        },
        JsonView::UInt(u) => {
            lemma_dec_rep_newline_free(u as nat);
        },
        JsonView::Int(i) => {
            lemma_int_rep_newline_free(i as int);
        },
        JsonView::Num(s) => {},
        JsonView::Str(s) => {
            lemma_json_escaped_newline_free(s);
        },
        JsonView::Arr(items) => {
            lemma_arr_text_newline_free(items);
        },
        JsonView::Obj(pairs) => {
            lemma_obj_text_newline_free(pairs);
        },
    }
}

fn write_quoted(s: &str) -> (r: String)
    ensures
        r@ == quoted_text(s@),
{
    proof {
        reveal_strlit("\"");
    }
    let mut out = "\"".to_owned();
    let escaped = json_escape(s);
    out.append(escaped.as_str());
    out.append("\"");
    proof {
        assert(out@ =~= quoted_text(s@));
    }
    out
}

/// Serializes a value compactly, exactly as [`json_text`] says.
pub fn json_write(j: &Json) -> (r: String)
    ensures
        r@ == json_text(j@),
    decreases j,
{
    match j {
        Json::Null => {
            proof {
                reveal_strlit("null");
            }
            "null".to_owned()
        },
        Json::Bool(b) => {
            proof {
                reveal_strlit("true");
                reveal_strlit("false");
            }
            if *b {
                "true".to_owned()
            } else {
                "false".to_owned()
            }
        },
        Json::UInt(u) => u64_to_dec(*u),
        Json::Int(i) => i64_to_dec(*i),
        Json::Num(s) => s.clone(),
        Json::Str(s) => write_quoted(s.as_str()),
        Json::Arr(items) => {
            proof {
                reveal_strlit("[");
                reveal_strlit("]");
            }
            let ghost dv = views_of(items@);
            proof {
                lemma_views_of(items@);
            }
            let mut out = "[".to_owned();
            proof {
                assert(out@ =~= "["@ + arr_text(dv.take(0)));
            }
            let mut i: usize = 0;
            while i < items.len()
                invariant
                    0 <= i <= items@.len(),
                    *j == (Json::Arr(*items)),
                    dv == views_of(items@),
                    dv.len() == items@.len(),
                    forall|k: int| 0 <= k < items@.len() ==> #[trigger] dv[k] == json_view(
                        items@[k],
                    ),
                    out@ == "["@ + arr_text(dv.take(i as int)),
                decreases items@.len() - i,
            {
                proof {
                    reveal_strlit(",");
                }
                if i > 0 {
                    out.append(",");
                }
                proof {
                    assert(decreases_to!(*j => (*j)->Arr_0));
                    assert(decreases_to!(*items => items@));
                    assert(decreases_to!(items@ => items@[i as int]));
                    assert(decreases_to!(*j => items@[i as int]));
                }
                let piece = json_write(&items[i]);
                out.append(piece.as_str());
                proof {
                    assert(dv.take(i + 1).drop_last() =~= dv.take(i as int));
                    assert(dv.take(i + 1).last() == dv[i as int]);
                    if i == 0 {
                        assert(dv.take(1) =~= seq![dv[0]]);
                    }
                    assert(out@ =~= "["@ + arr_text(dv.take(i + 1)));
                }
                i = i + 1;
            }
            out.append("]");
            proof {
                assert(dv.take(dv.len() as int) =~= dv);
                assert(out@ =~= json_text(j@));
            }
            out
        },
        Json::Obj(pairs) => {
            proof {
                reveal_strlit("{");
                reveal_strlit("}");
            }
            let ghost dv = pair_views_of(pairs@);
            proof {
                lemma_pair_views_of(pairs@);
            }
            let mut out = "{".to_owned();
            proof {
                assert(out@ =~= "{"@ + obj_text(dv.take(0)));
            }
            let mut i: usize = 0;
            while i < pairs.len()
                invariant
                    0 <= i <= pairs@.len(),
                    *j == (Json::Obj(*pairs)),
                    dv == pair_views_of(pairs@),
                    dv.len() == pairs@.len(),
                    forall|k: int| 0 <= k < pairs@.len() ==> #[trigger] dv[k] == (
                        pairs@[k].0@,
                        json_view(pairs@[k].1),
                    ),
                    out@ == "{"@ + obj_text(dv.take(i as int)),
                decreases pairs@.len() - i,
            {
                proof {
                    reveal_strlit(",");
                    reveal_strlit(":");
                }
                if i > 0 {
                    out.append(",");
                }
                let quoted_key = write_quoted(pairs[i].0.as_str());
                out.append(quoted_key.as_str());
                out.append(":");
                proof {
                    assert(decreases_to!(*j => (*j)->Obj_0));
                    assert(decreases_to!(*pairs => pairs@));
                    assert(decreases_to!(pairs@ => pairs@[i as int]));
                    assert(decreases_to!(*j => pairs@[i as int]));
                }
                let piece = json_write(&pairs[i].1);
                out.append(piece.as_str());
                proof {
                    assert(":"@ =~= seq![':']);
                    assert(member_text(dv[i as int]) == quoted_text(dv[i as int].0) + seq![':']
                        + json_text(dv[i as int].1));
                    assert(dv.take(i + 1).drop_last() =~= dv.take(i as int));
                    assert(dv.take(i + 1).last() == dv[i as int]);
                    if i == 0 {
                        assert(dv.take(1) =~= seq![dv[0]]);
                    }
                    assert(out@ =~= "{"@ + obj_text(dv.take(i + 1)));
                }
                i = i + 1;
            }
            out.append("}");
            proof {
                assert(dv.take(dv.len() as int) =~= dv);
                assert(out@ =~= json_text(j@));
            }
            out
        },
    }
}

} // verus!
