//! Bounded fuzzy search: score every record, keep the best twenty.
//!
//! The approximate string-similarity score itself comes from an outside
//! scorer; the selection around it is verified. Ties are broken
//! deterministically by snapshot order: of two equally scored records the
//! earlier one ranks higher.

use vstd::prelude::*;
use vstd::string::StringSliceAdditionalSpecFns;
use vstd::utf8::decode_utf8;
use vstd::utf8::valid_utf8;

use crate::codec::lower_of;
use crate::codec::lowercase;
use crate::codec::pct_decoded;
use crate::codec::percent_decode_str;
use crate::codec::utf8_string;
use crate::query::QueryError;
use crate::snapshot::Person;
use crate::store::LifecycleState;

verus! {

/// How many results a fuzzy search returns at most.
pub const SEARCH_LIMIT: usize = 20;

/// A sequence of indices as mathematical integers.
pub open spec fn as_ints(s: Seq<usize>) -> Seq<int> {
    s.map_values(|u: usize| u as int)
}

/// The rank order on indices of `scores`: `i` ranks before `j` when its
/// score is higher, or equal with `i` earlier. A strict total order on
/// distinct indices.
pub open spec fn ranks_before(scores: Seq<u64>, i: int, j: int) -> bool {
    scores[i] > scores[j] || (scores[i] == scores[j] && i < j)
}

/// What a correct bounded selection is: as many indices as there are
/// records, up to `k`; all in range; listed in rank order (which makes
/// them distinct); and every selected index ranking before every index
/// left out.
pub open spec fn is_top_selection(scores: Seq<u64>, k: int, sel: Seq<int>) -> bool {
    &&& sel.len() == if scores.len() < k {
        scores.len() as int
    } else {
        k
    }
    &&& forall|a: int| 0 <= a < sel.len() ==> 0 <= #[trigger] sel[a] < scores.len()
    &&& forall|a: int, b: int| 0 <= a < b < sel.len() ==> ranks_before(scores, sel[a], sel[b])
    &&& forall|j: int|
        0 <= j < scores.len() && !sel.contains(j) ==> forall|a: int|
            0 <= a < sel.len() ==> ranks_before(scores, #[trigger] sel[a], j)
}

/// Decides `ranks_before(scores, i, j)`.
fn ranks_before_exec(scores: &Vec<u64>, i: usize, j: usize) -> (r: bool)
    requires
        i < scores@.len(),
        j < scores@.len(),
    ensures
        r == ranks_before(scores@, i as int, j as int),
{
    scores[i] > scores[j] || (scores[i] == scores[j] && i < j)
}

/// The indices of the `k` best-scored entries, best first, ties broken by
/// index order: every selected index ranks before every unselected one.
pub fn top_k(scores: &Vec<u64>, k: usize) -> (r: Vec<usize>)
    ensures
        is_top_selection(scores@, k as int, as_ints(r@)),
{
    let n: usize = scores.len();
    let mut idx: Vec<usize> = Vec::new();
    for i in 0..n
        invariant
            idx@.len() == i,
            forall|a: int| 0 <= a < i ==> #[trigger] idx@[a] == a,
    {
        idx.push(i);
    }
    proof {
        assert forall|v: int| 0 <= v < n implies as_ints(idx@).contains(v) by {
            assert(as_ints(idx@)[v] == v);
        }
    }
    let rounds: usize = if k < n {
        k
    } else {
        n
    };
    for round in 0..rounds
        invariant
            rounds <= n,
            rounds == if k < n {
                k as int
            } else {
                n as int
            },
            n == scores@.len(),
            idx@.len() == n,
            forall|a: int| 0 <= a < n ==> 0 <= #[trigger] idx@[a] < n,
            forall|a: int, b: int| 0 <= a < b < n ==> idx@[a] != idx@[b],
            forall|v: int| 0 <= v < n ==> as_ints(idx@).contains(v),
            forall|a: int, b: int|
                0 <= a < b < round ==> ranks_before(scores@, idx@[a] as int, idx@[b] as int),
            forall|a: int, b: int|
                0 <= a < round && round <= b < n ==> ranks_before(
                    scores@,
                    idx@[a] as int,
                    idx@[b] as int,
                ),
    {
        let mut best: usize = round;
        let end: usize = n;
        for m in (round + 1)..end
            invariant
                end == n,
                n == scores@.len(),
                idx@.len() == n,
                round < m <= n,
                round <= best < m,
                forall|a: int| 0 <= a < n ==> 0 <= #[trigger] idx@[a] < n,
                forall|a: int, b: int| 0 <= a < b < n ==> idx@[a] != idx@[b],
                forall|p: int|
                    round <= p < m && p != best ==> ranks_before(
                        scores@,
                        idx@[best as int] as int,
                        #[trigger] idx@[p] as int,
                    ),
        {
            if ranks_before_exec(scores, idx[m], idx[best]) {
                best = m;
            }
        }
        let chosen: usize = idx[best];
        let displaced: usize = idx[round];
        let ghost pre = idx@;
        idx.set(best, displaced);
        idx.set(round, chosen);
        proof {
            let post = idx@;
            assert forall|v: int| 0 <= v < n implies as_ints(post).contains(v) by {
                assert(as_ints(pre).contains(v));
                let w = choose|w: int| 0 <= w < n && as_ints(pre)[w] == v;
                let w2: int = if w == round as int {
                    best as int
                } else if w == best as int {
                    round as int
                } else {
                    w
                };
                assert(as_ints(post)[w2] == v);
            }
            assert forall|a: int, b: int| 0 <= a < b < n implies post[a] != post[b] by {
                assert(pre[if a == round as int {
                    best as int
                } else if a == best as int {
                    round as int
                } else {
                    a
                }] == post[a]);
                assert(pre[if b == round as int {
                    best as int
                } else if b == best as int {
                    round as int
                } else {
                    b
                }] == post[b]);
            }
            assert forall|a: int, b: int|
                0 <= a < round + 1 && round + 1 <= b < n implies ranks_before(
                scores@,
                post[a] as int,
                post[b] as int,
            ) by {
                if a < round {
                    if b == best as int {
                        assert(post[b] == pre[round as int]);
                    } else {
                        assert(post[b] == pre[b]);
                    }
                } else {
                    assert(post[a] == chosen);
                    if b == best as int {
                        assert(post[b] == pre[round as int]);
                        assert(round as int != best as int);
                    } else {
                        assert(post[b] == pre[b]);
                    }
                }
            }
        }
    }
    let mut out: Vec<usize> = Vec::new();
    for i in 0..rounds
        invariant
            rounds <= idx@.len(),
            out@.len() == i,
            forall|a: int| 0 <= a < i ==> #[trigger] out@[a] == idx@[a],
    {
        out.push(idx[i]);
    }
    proof {
        let sel = as_ints(out@);
        let full = as_ints(idx@);
        assert(sel =~= full.take(rounds as int));
        assert forall|j: int|
            0 <= j < scores@.len() && !sel.contains(j) implies forall|a: int|
            0 <= a < sel.len() ==> ranks_before(scores@, #[trigger] sel[a], j) by {
            assert(full.contains(j));
            let w = choose|w: int| 0 <= w < full.len() && full[w] == j;
            if w < rounds as int {
                assert(sel[w] == j);
                assert(false);
            }
            assert forall|a: int| 0 <= a < sel.len() implies ranks_before(
                scores@,
                #[trigger] sel[a],
                j,
            ) by {
                assert(ranks_before(scores@, idx@[a] as int, idx@[w] as int));
            }
        }
    }
    out
}

/// What the scored query of a raw route segment is: percent-decoded,
/// required to be UTF-8, case-folded.
pub open spec fn query_of(raw: Seq<u8>) -> Option<Seq<char>> {
    if valid_utf8(pct_decoded(raw)) {
        Some(lower_of(decode_utf8(pct_decoded(raw))))
    } else {
        None
    }
}

/// Turns a raw route segment into the text that is scored: percent-decoded
/// and case-folded. `None` when the decoded bytes are not UTF-8.
pub fn search_query(raw: &str) -> (r: Option<String>)
    ensures
        match query_of(raw.spec_bytes()) {
            Some(q) => r matches Some(s) && s@ == q,
            None => r is None,
        },
{
    let decoded = percent_decode_str(raw);
    match utf8_string(decoded) {
        Some(s) => Some(lowercase(s.as_str())),
        None => None,
    }
}

/// Picks the people the given scores select: the `SEARCH_LIMIT` top-scored
/// records, best first, ties broken by snapshot order, with every selected
/// record scoring at least as high as every record left out. `scores`
/// holds one score per person, in snapshot order.
pub fn select_people<'a>(state: &'a LifecycleState, scores: &Vec<u64>) -> (r: Result<
    Vec<&'a Person>,
    QueryError,
>)
    requires
        state@ matches crate::store::StateView::Loaded(snap) ==> scores@.len()
            == snap.people.len(),
    ensures
        !(state@ is Loaded) ==> (r matches Err(e) && e == QueryError::NotReady),
        state@ matches crate::store::StateView::Loaded(snap) ==> r matches Ok(v) && v@.len()
            <= SEARCH_LIMIT && exists|sel: Seq<int>|
            {
                &&& is_top_selection(scores@, SEARCH_LIMIT as int, sel)
                &&& v@.len() == sel.len()
                &&& forall|a: int| 0 <= a < sel.len() ==> (#[trigger] v@[a])@ == snap.people[sel[a]]
            },
{
    match state {
        LifecycleState::Loaded(snap) => {
            let picked = top_k(scores, SEARCH_LIMIT);
            let mut out: Vec<&'a Person> = Vec::new();
            let m: usize = picked.len();
            for a in 0..m
                invariant
                    m == picked@.len(),
                    state@ matches crate::store::StateView::Loaded(sv) && sv == snap@,
                    is_top_selection(scores@, SEARCH_LIMIT as int, as_ints(picked@)),
                    scores@.len() == snap.people@.len(),
                    out@.len() == a,
                    forall|b: int|
                        0 <= b < a ==> (#[trigger] out@[b])@ == snap@.people[as_ints(picked@)[b]],
            {
                proof {
                    assert(as_ints(picked@)[a as int] == picked@[a as int] as int);
                }
                out.push(&snap.people[picked[a]]);
            }
            proof {
                let sel = as_ints(picked@);
                assert(is_top_selection(scores@, SEARCH_LIMIT as int, sel) && out@.len()
                    == sel.len() && forall|a: int|
                    0 <= a < sel.len() ==> (#[trigger] out@[a])@ == snap@.people[sel[a]]);
                assert(sel.len() <= SEARCH_LIMIT as int);
            }
            Ok(out)
        },
        _ => Err(QueryError::NotReady),
    }
}

} // verus!
