//! Ranking by score, highest first.

use vstd::prelude::*;

verus! {

/// Whether `order` ranks the positions of `scores` from the highest score to
/// the lowest, equal scores in the order they came in. Every position occurs
/// exactly once.
pub open spec fn is_ranking(scores: Seq<u32>, order: Seq<usize>) -> bool {
    &&& order.len() == scores.len()
    &&& order.no_duplicates()
    &&& forall|j: int| 0 <= j < order.len() ==> #[trigger] order[j] < scores.len()
    &&& forall|a: int, b: int|
        0 <= a < b < order.len() ==> scores[#[trigger] order[a] as int] > scores[#[trigger] order[b] as int]
            || (scores[order[a] as int] == scores[order[b] as int] && order[a] < order[b])
}

spec fn ranked_prefix(scores: Seq<u32>, order: Seq<usize>, n: int) -> bool {
    &&& order.len() == n
    &&& order.no_duplicates()
    &&& forall|j: int| 0 <= j < order.len() ==> #[trigger] order[j] < n
    &&& forall|a: int, b: int|
        0 <= a < b < order.len() ==> scores[#[trigger] order[a] as int] > scores[#[trigger] order[b] as int]
            || (scores[order[a] as int] == scores[order[b] as int] && order[a] < order[b])
}

/// Ranks the positions of `scores`, highest score first; positions with
/// equal scores keep their order.
pub fn ranking(scores: &Vec<u32>) -> (order: Vec<usize>)
    ensures
        is_ranking(scores@, order@),
{
    let mut order: Vec<usize> = Vec::new();
    let mut i: usize = 0;
    while i < scores.len()
        invariant
            0 <= i <= scores.len(),
            ranked_prefix(scores@, order@, i as int),
        decreases scores.len() - i,
    {
        let score: u32 = scores[i];
        let mut p: usize = 0;
        while p < order.len() && scores[order[p]] >= score
            invariant
                0 <= p <= order.len(),
                i < scores.len(),
                score == scores@[i as int],
                ranked_prefix(scores@, order@, i as int),
                forall|j: int| 0 <= j < p ==> scores@[#[trigger] order@[j] as int] >= score,
            decreases order.len() - p,
        {
            p = p + 1;
        }
        let ghost before = order@;
        order.insert(p, i);
        proof {
            let after = order@;
            assert(after == before.insert(p as int, i));
            assert forall|k: int| 0 <= k < after.len() implies (if k < p {
                after[k] == before[k]
            } else if k == p {
                after[k] == i
            } else {
                after[k] == before[k - 1]
            }) by {}
            assert forall|k: int| p <= k < before.len() implies scores@[#[trigger] before[k] as int]
                < score by {
                if k > p {
                    assert(scores@[before[p as int] as int] > scores@[before[k] as int]
                        || scores@[before[p as int] as int] == scores@[before[k] as int]);
                }
            }
            assert forall|a: int, b: int| 0 <= a < after.len() && 0 <= b < after.len() && a
                != b implies after[a] != after[b] by {
                let x = if a < p { a } else { a - 1 };
                let y = if b < p { b } else { b - 1 };
                if a != p && b != p {
                    assert(before[x] != before[y]);
                } else if a == p {
                    assert(before[y] < i);
                } else {
                    assert(before[x] < i);
                }
            }
            assert forall|a: int, b: int| 0 <= a < b < after.len() implies scores@[#[trigger] after[a] as int]
                > scores@[#[trigger] after[b] as int] || (scores@[after[a] as int]
                == scores@[after[b] as int] && after[a] < after[b]) by {
                let x = if a < p { a } else { a - 1 };
                let y = if b < p { b } else { b - 1 };
                if a != p && b != p {
                    assert(after[a] == before[x]);
                    assert(after[b] == before[y]);
                    assert(scores@[before[x] as int] > scores@[before[y] as int] || (scores@[before[x] as int]
                        == scores@[before[y] as int] && before[x] < before[y]));
                } else if a == p {
                    assert(after[b] == before[y]);
                    assert(scores@[before[y] as int] < score);
                } else {
                    assert(after[a] == before[x]);
                    assert(scores@[before[x] as int] >= score);
                    assert(before[x] < i);
                }
            }
        }
        i = i + 1;
    }
    order
}

} // verus!
