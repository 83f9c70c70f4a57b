//! Bounded previews of cached result bodies, and the structured response
//! served on a cache hit. The total count comes from the entry's identifier,
//! the preview from a bounded prefix of the body: how many results exist and
//! how many are shown are decoupled, so serving a preview never requires a
//! full read of a large body.

use vstd::prelude::*;
use crate::cache::decoded_total;
use crate::cache::decode_total;

verus! {

/// A structured response served from the cache: the total match count, a
/// bounded preview of the result lines, and the cache-hit flag.
pub struct PreviewResult {
    pub total: u64,
    pub lines: Vec<String>,
    pub using_cache: bool,
}

/// Length of the preview of a body of `body_len` lines under `bound`.
pub open spec fn preview_len(body_len: int, bound: int) -> int {
    if bound <= body_len {
        bound
    } else {
        body_len
    }
}

/// The bounded preview of a body: its first `bound` lines, or all of them
/// when it has fewer.
pub open spec fn spec_preview(body: Seq<Seq<char>>, bound: int) -> Seq<Seq<char>> {
    body.take(preview_len(body.len() as int, bound))
}

/// The preview is determined by the first `bound` lines alone: two bodies
/// that agree on them have equal previews, however many lines follow.
pub proof fn lemma_preview_independent_of_total(
    b1: Seq<Seq<char>>,
    b2: Seq<Seq<char>>,
    bound: int,
)
    requires
        0 <= bound <= b1.len(),
        bound <= b2.len(),
        b1.take(bound) == b2.take(bound),
    ensures
        spec_preview(b1, bound) == spec_preview(b2, bound),
{
}

/// Read the preview of a body: its first `bound` lines, stopping early at
/// the bound or at the end of the body, whichever comes first.
pub fn read_preview(body: &Vec<String>, bound: usize) -> (r: Vec<String>)
    ensures
        r.deep_view() == spec_preview(body.deep_view(), bound as int),
        r@.len() == preview_len(body@.len() as int, bound as int),
{
    let n = if bound <= body.len() {
        bound
    } else {
        body.len()
    };
    let mut out: Vec<String> = Vec::new();
    let mut i: usize = 0;
    while i < n
        invariant
            n == preview_len(body@.len() as int, bound as int),
            0 <= i <= n <= body@.len(),
            out@.len() == i,
            forall|j: int| 0 <= j < i ==> out.deep_view()[j] == body.deep_view()[j],
        decreases n - i,
    {
        out.push(body[i].clone());
        i = i + 1;
    }
    proof {
        assert(out.deep_view() =~= spec_preview(body.deep_view(), bound as int));
    }
    out
}

/// Serve a result from a cache entry. The identifier must decode, else the
/// entry is no hit and the result is `None`; the preview comes from the
/// body's first `bound` lines, or stays empty when the body could not be
/// read even though the identifier decoded.
pub fn cached_result(identifier: &str, body: Option<&Vec<String>>, bound: usize) -> (r: Option<
    PreviewResult,
>)
    ensures
        r is Some <==> decoded_total(identifier@) is Some,
        r is Some ==> {
            &&& r->Some_0.total == decoded_total(identifier@)->Some_0
            &&& r->Some_0.using_cache == true
            &&& match body {
                Some(b) => r->Some_0.lines.deep_view() == spec_preview(
                    b.deep_view(),
                    bound as int,
                ),
                None => r->Some_0.lines@.len() == 0,
            }
        },
{
    match decode_total(identifier) {
        None => None,
        Some(total) => {
            let lines: Vec<String> = match body {
                Some(b) => read_preview(b, bound),
                None => Vec::new(),
            };
            Some(PreviewResult { total: total, lines: lines, using_cache: true })
        },
    }
}

} // verus!
