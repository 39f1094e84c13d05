//! The capture history: which saved captures are kept and in what order.
//! Each capture is known by its timestamp (milliseconds since the epoch);
//! the newest ones are shown first and only the most recent are kept.

use vstd::prelude::*;
use vstd::seq_lib::*;

verus! {

/// How many captures the history keeps.
pub const MAX_HISTORY: usize = 20;

/// The timestamps are newest first (no later one is larger).
pub open spec fn newest_first(s: Seq<u64>) -> bool {
    forall|i: int, j: int| 0 <= i <= j < s.len() ==> s[i] >= s[j]
}

/// How many entries the history keeps out of `n`.
pub open spec fn kept_count(n: nat) -> nat {
    if n < MAX_HISTORY { n } else { MAX_HISTORY as nat }
}

/// The history entries to keep, newest first: the `MAX_HISTORY` largest
/// timestamps (all of them when there are fewer). Every timestamp that is
/// dropped is no newer than every one that is kept.
pub fn history_order(stamps: Vec<u64>) -> (kept: Vec<u64>)
    ensures
        newest_first(kept@),
        kept@.len() == kept_count(stamps@.len()),
        kept@.to_multiset().subset_of(stamps@.to_multiset()),
        forall|x: u64, y: u64|
            #![trigger stamps@.to_multiset().count(x), kept@.contains(y)]
            kept@.contains(y) && stamps@.to_multiset().count(x) > kept@.to_multiset().count(x) ==> x <= y,
{
    let mut sorted: Vec<u64> = Vec::new();
    let mut i: usize = 0;
    assert(stamps@.take(0) =~= sorted@);
    while i < stamps.len()
        invariant
            i <= stamps@.len(),
            newest_first(sorted@),
            sorted@.to_multiset() == stamps@.take(i as int).to_multiset(),
        decreases stamps@.len() - i,
    {
        let x = stamps[i];
        let mut j: usize = 0;
        while j < sorted.len() && sorted[j] >= x
            invariant
                j <= sorted@.len(),
                forall|k: int| 0 <= k < j ==> sorted@[k] >= x,
            decreases sorted@.len() - j,
        {
            j += 1;
        }
        let ghost before = sorted@;
        sorted.insert(j, x);
        proof {
            assert(forall|k: int| j <= k < before.len() ==> before[k] < x);
            assert forall|a: int, b: int| 0 <= a <= b < sorted@.len() implies sorted@[a] >= sorted@[b] by {
                assert(sorted@[a] == if a < j { before[a] } else if a == j { x } else { before[a - 1] });
                assert(sorted@[b] == if b < j { before[b] } else if b == j { x } else { before[b - 1] });
            }
            to_multiset_insert(before, j as int, x);
            assert(stamps@.take(i + 1) =~= stamps@.take(i as int).push(x));
            to_multiset_build(stamps@.take(i as int), x);
        }
        i += 1;
    }
    assert(stamps@.take(stamps@.len() as int) =~= stamps@);
    let ghost full = sorted@;
    proof {
        to_multiset_len(full);
        to_multiset_len(stamps@);
    }
    sorted.truncate(MAX_HISTORY);
    proof {
        let k = kept_count(full.len()) as int;
        let rest = full.subrange(k, full.len() as int);
        assert(sorted@ =~= full.subrange(0, k));
        assert(full =~= sorted@ + rest);
        lemma_multiset_commutative(sorted@, rest);
        broadcast use vstd::multiset::group_multiset_axioms;
        assert(full.to_multiset() == stamps@.to_multiset());
        assert forall|v: u64| sorted@.to_multiset().count(v) <= stamps@.to_multiset().count(v) by {
            assert(full.to_multiset().count(v) == sorted@.to_multiset().count(v) + rest.to_multiset().count(v));
        }
        assert(sorted@.to_multiset().subset_of(stamps@.to_multiset()));
        assert forall|x: u64, y: u64|
            #![trigger stamps@.to_multiset().count(x), sorted@.contains(y)]
            sorted@.contains(y) && stamps@.to_multiset().count(x) > sorted@.to_multiset().count(x)
                implies x <= y by {
            to_multiset_contains(rest, x);
            let m = choose|m: int| 0 <= m < rest.len() && rest[m] == x;
            let l = choose|l: int| 0 <= l < sorted@.len() && sorted@[l] == y;
            assert(full[k + m] == x);
            assert(full[l] == y);
        }
    }
    sorted
}

} // verus!
