//! The record encoder: one document becomes an action line naming the
//! target index followed by the document body, both newline-terminated,
//! in newline-delimited JSON bulk format.

use vstd::prelude::*;
use crate::model::{Hit, HitView, hits_view, hits_wf};
use crate::text::{
    json_escape, json_escaped, lemma_json_escaped_newline_free, lemma_json_escaped_plain,
    lemma_newline_count_concat, lemma_newline_free_count_zero, must_escape, newline_count,
    newline_free,
};

verus! {

/// The action line announcing one bulk "index" operation for `index`.
pub open spec fn action_line(index: Seq<char>) -> Seq<char> {
    "{\"index\":{\"_index\":\""@ + json_escaped(index) + "\"}}"@
}

/// The two newline-terminated lines one document contributes.
pub open spec fn encoded_doc(index: Seq<char>, source: Seq<char>) -> Seq<char> {
    action_line(index) + seq!['\n'] + source + seq!['\n']
}

/// A whole page: each document's pair of lines, in page order.
pub open spec fn encoded_page(index: Seq<char>, hits: Seq<HitView>) -> Seq<char>
    decreases hits.len(),
{
    if hits.len() == 0 {
        Seq::<char>::empty()
    } else {
        encoded_page(index, hits.drop_last()) + encoded_doc(index, hits.last().source)
    }
}

/// Builds the action line for `index`.
pub fn encode_action_line(index: &str) -> (r: String)
    ensures
        r@ == action_line(index@),
{
    proof {
        reveal_strlit("{\"index\":{\"_index\":\"");
        reveal_strlit("\"}}");
    }
    let mut out = "{\"index\":{\"_index\":\"".to_owned();
    let escaped = json_escape(index);
    out.append(escaped.as_str());
    out.append("\"}}");
    out
}

/// Encodes one document as its action line and body line.
pub fn encode_doc(index: &str, source: &str) -> (r: String)
    ensures
        r@ == encoded_doc(index@, source@),
{
    proof {
        reveal_strlit("\n");
    }
    let mut out = encode_action_line(index);
    out.append("\n");
    out.append(source);
    out.append("\n");
    proof {
        assert(out@ =~= encoded_doc(index@, source@));
    }
    out
}

/// Encodes a whole page of documents for `index`, in page order.
pub fn encode_page(index: &str, hits: &Vec<Hit>) -> (r: String)
    ensures
        r@ == encoded_page(index@, hits_view(hits@)),
{
    proof {
        reveal_strlit("\n");
    }
    let action = encode_action_line(index);
    let mut out = String::new();
    let mut i: usize = 0;
    while i < hits.len()
        invariant
            0 <= i <= hits@.len(),
            action@ == action_line(index@),
            out@ == encoded_page(index@, hits_view(hits@).take(i as int)),
        decreases hits@.len() - i,
    {
        out.append(action.as_str());
        out.append("\n");
        out.append(hits[i].source.as_str());
        out.append("\n");
        proof {
            reveal_strlit("\n");
            let hv = hits_view(hits@);
            assert(hv.take(i + 1).drop_last() =~= hv.take(i as int));
            assert(hv.take(i + 1).last() == hits@[i as int]@);
            assert(out@ =~= encoded_page(index@, hv.take(i as int)) + encoded_doc(
                index@,
                hits@[i as int]@.source,
            ));
        }
        i = i + 1;
    }
    proof {
        assert(hits_view(hits@).take(hits@.len() as int) =~= hits_view(hits@));
    }
    out
}

/// The action line never holds a newline: the fixed frame is newline-free
/// and escaping removes every control character from the index name.
pub proof fn lemma_action_line_newline_free(index: Seq<char>)
    ensures
        newline_free(action_line(index)),
{
    reveal_strlit("{\"index\":{\"_index\":\"");
    reveal_strlit("\"}}");
    lemma_json_escaped_newline_free(index);
}

/// Law: for an index name that needs no JSON escaping, the action line is
/// the name dropped verbatim into the fixed frame.
pub proof fn lemma_action_line_plain_index(index: Seq<char>)
    requires
        forall|i: int| 0 <= i < index.len() ==> !must_escape(index[i]),
    ensures
        action_line(index) == "{\"index\":{\"_index\":\""@ + index + "\"}}"@,
{
    lemma_json_escaped_plain(index);
}

/// Law: a page of N documents encodes to exactly 2·N newline-terminated
/// output lines.
pub proof fn lemma_page_line_count(index: Seq<char>, hits: Seq<HitView>)
    requires
        hits_wf(hits),
    ensures
        newline_count(encoded_page(index, hits)) == 2 * hits.len(),
    decreases hits.len(),
{
    if hits.len() > 0 {
        assert(hits_wf(hits.drop_last()));
        lemma_page_line_count(index, hits.drop_last());
        let doc = encoded_doc(index, hits.last().source);
        lemma_newline_count_concat(encoded_page(index, hits.drop_last()), doc);
        lemma_action_line_newline_free(index);
        lemma_newline_free_count_zero(action_line(index));
        assert(hit_last_source_newline_free(hits));
        lemma_newline_free_count_zero(hits.last().source);
        lemma_newline_count_concat(action_line(index), seq!['\n']);
        lemma_newline_count_concat(action_line(index) + seq!['\n'], hits.last().source);
        lemma_newline_count_concat(
            action_line(index) + seq!['\n'] + hits.last().source,
            seq!['\n'],
        );
        assert(newline_count(seq!['\n']) == 1) by {
            assert(seq!['\n'].drop_last() =~= Seq::<char>::empty());
            assert(newline_count(Seq::<char>::empty()) == 0);
            assert(seq!['\n'].last() == '\n');
        }
    }
}

spec fn hit_last_source_newline_free(hits: Seq<HitView>) -> bool {
    hits.len() > 0 ==> newline_free(hits.last().source)
}

/// Law: the encoding of a page is the flattening of 2·N lines, each with
/// its terminator — action lines at the even positions, document bodies at
/// the odd ones, in page order.
pub proof fn lemma_page_alternation(index: Seq<char>, hits: Seq<HitView>)
    ensures
        encoded_page(index, hits) == Seq::new(
            2 * hits.len(),
            |k: int|
                if k % 2 == 0 {
                    action_line(index) + seq!['\n']
                } else {
                    hits[k / 2].source + seq!['\n']
                },
        ).flatten(),
    decreases hits.len(),
{
    let f = |k: int|
        if k % 2 == 0 {
            action_line(index) + seq!['\n']
        } else {
            hits[k / 2].source + seq!['\n']
        };
    let lines = Seq::new(2 * hits.len(), f);
    if hits.len() == 0 {
        assert(lines =~= Seq::<Seq<char>>::empty());
        assert(lines.flatten() =~= Seq::<char>::empty());
    } else {
        let prev = hits.drop_last();
        lemma_page_alternation(index, prev);
        let g = |k: int|
            if k % 2 == 0 {
                action_line(index) + seq!['\n']
            } else {
                prev[k / 2].source + seq!['\n']
            };
        let prev_lines = Seq::new(2 * prev.len(), g);
        let act = action_line(index) + seq!['\n'];
        let src = hits.last().source + seq!['\n'];
        assert(lines =~= prev_lines + seq![act, src]);
        vstd::seq_lib::lemma_flatten_concat(prev_lines, seq![act, src]);
        assert(seq![act, src].flatten() =~= act + src) by {
            assert(seq![act, src].drop_first() =~= seq![src]);
            seq![src].lemma_flatten_one_element();
        }
        assert(encoded_page(index, hits) =~= prev_lines.flatten() + (act + src));
    }
}

/// Law: encoding is deterministic — the same document body under the same
/// index name always yields the same action/source line pair, so encoding a
/// document twice is byte-identical to encoding it once, twice over.
pub proof fn lemma_encode_deterministic(index: Seq<char>, a: HitView, b: HitView)
    requires
        a.source == b.source,
    ensures
        encoded_doc(index, a.source) == encoded_doc(index, b.source),
{
}

} // verus!
