//! The cursor tracker: the forward-pagination position is the first sort-key
//! value of the last document of the previously fetched page, absent for the
//! first page of an index.

use vstd::prelude::*;
use crate::model::{Hit, HitView, hits_view};

verus! {

/// The cursor the next fetch must pass back: the first sort-key value of the
/// last document, or nothing when the page is empty or the last document
/// carries no sort key (a data anomaly the caller flags in diagnostics).
pub open spec fn next_cursor_spec(hits: Seq<HitView>) -> Option<u64> {
    if hits.len() == 0 {
        None
    } else if hits.last().sort.len() == 0 {
        None
    } else {
        Some(hits.last().sort[0])
    }
}

/// Derives the cursor for the fetch after this page.
pub fn next_cursor(hits: &Vec<Hit>) -> (r: Option<u64>)
    ensures
        r == next_cursor_spec(hits_view(hits@)),
{
    if hits.len() == 0 {
        None
    } else {
        let last = &hits[hits.len() - 1];
        proof {
            assert(hits_view(hits@).last() == hits@.last()@);
        }
        if last.sort.len() == 0 {
            None
        } else {
            Some(last.sort[0])
        }
    }
}

} // verus!
