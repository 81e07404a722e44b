//! The page-scoped search request: size-bounded, snapshot-pinned, match-all,
//! sorted by the backend's internal shard+document order, and carrying the
//! cursor as a single-element search-after array when one is present.

use vstd::prelude::*;
use crate::text::{dec_rep, json_escaped, json_escape, u64_to_dec};

verus! {

/// The search-after clause: absent without a cursor, a one-element array
/// holding the cursor otherwise.
pub open spec fn search_after_clause(cursor: Option<u64>) -> Seq<char> {
    match cursor {
        Option::None => Seq::<char>::empty(),
        Option::Some(c) => ",\"search_after\":["@ + dec_rep(c as nat) + "]"@,
    }
}

/// The whole request body for one page fetch.
pub open spec fn search_request(
    size: nat,
    pit_id: Seq<char>,
    keep_alive: Seq<char>,
    cursor: Option<u64>,
) -> Seq<char> {
    "{\"size\":"@ + dec_rep(size) + ",\"pit\":{\"id\":\""@ + json_escaped(pit_id)
        + "\",\"keep_alive\":\""@ + json_escaped(keep_alive)
        + "\"},\"query\":{\"match_all\":{}},\"sort\":[{\"_shard_doc\":{\"order\":\"asc\"}}]"@
        + search_after_clause(cursor) + "}"@
}

/// Builds the request body for one page fetch against the snapshot `pit_id`.
pub fn build_search_request(
    size: usize,
    pit_id: &str,
    keep_alive: &str,
    cursor: Option<u64>,
) -> (r: String)
    ensures
        r@ == search_request(size as nat, pit_id@, keep_alive@, cursor),
{
    proof {
        reveal_strlit("{\"size\":");
        reveal_strlit(",\"pit\":{\"id\":\"");
        reveal_strlit("\",\"keep_alive\":\"");
        reveal_strlit("\"},\"query\":{\"match_all\":{}},\"sort\":[{\"_shard_doc\":{\"order\":\"asc\"}}]");
        reveal_strlit(",\"search_after\":[");
        reveal_strlit("]");
        reveal_strlit("}");
    }
    let mut out = "{\"size\":".to_owned();
    let size_dec = u64_to_dec(size as u64);
    out.append(size_dec.as_str());
    out.append(",\"pit\":{\"id\":\"");
    let pit_escaped = json_escape(pit_id);
    out.append(pit_escaped.as_str());
    out.append("\",\"keep_alive\":\"");
    let ka_escaped = json_escape(keep_alive);
    out.append(ka_escaped.as_str());
    out.append("\"},\"query\":{\"match_all\":{}},\"sort\":[{\"_shard_doc\":{\"order\":\"asc\"}}]");
    match cursor {
        Option::None => {},
        Option::Some(c) => {
            out.append(",\"search_after\":[");
            let cur_dec = u64_to_dec(c);
            out.append(cur_dec.as_str());
            out.append("]");
        },
    }
    out.append("}");
    proof {
        assert(out@ =~= search_request(size as nat, pit_id@, keep_alive@, cursor));
    }
    out
}

/// Law: the request built from cursor `c` carries exactly the one-element
/// search-after array `[c]`, and the request built without a cursor omits
/// the clause entirely, the two otherwise byte-identical.
pub proof fn lemma_cursor_propagation(
    size: nat,
    pit_id: Seq<char>,
    keep_alive: Seq<char>,
    c: u64,
)
    ensures
        search_request(size, pit_id, keep_alive, Option::Some(c)) == search_request(
            size,
            pit_id,
            keep_alive,
            Option::None,
        ).drop_last() + ",\"search_after\":["@ + dec_rep(c as nat) + "]"@ + "}"@,
{
    let prefix = "{\"size\":"@ + dec_rep(size) + ",\"pit\":{\"id\":\""@ + json_escaped(pit_id)
        + "\",\"keep_alive\":\""@ + json_escaped(keep_alive)
        + "\"},\"query\":{\"match_all\":{}},\"sort\":[{\"_shard_doc\":{\"order\":\"asc\"}}]"@;
    reveal_strlit("}");
    assert("}"@.len() == 1);
    assert(search_request(size, pit_id, keep_alive, Option::None) =~= prefix + "}"@);
    assert((prefix + "}"@).drop_last() =~= prefix + Seq::<char>::empty());
    assert(prefix + Seq::<char>::empty() =~= prefix);
    assert(search_request(size, pit_id, keep_alive, Option::Some(c)) =~= prefix
        + ",\"search_after\":["@ + dec_rep(c as nat) + "]"@ + "}"@);
}

} // verus!
