//! Listing records by a text key in `str` order, as the vault's import and
//! export hand their files back.
#![verifier::loop_isolation(false)]

use crate::fonts::{lemma_text_lt_irreflexive, lemma_text_lt_total, lemma_text_lt_transitive, spec_text_lt, text_lt};
use crate::text::chars_of;
use vstd::prelude::*;

verus! {

/// Whether `order` lists every position of `keys` once, by key in `str`
/// order, and equal keys in their original order: the order a stable sort
/// by key gives.
pub open spec fn spec_is_stable_order(keys: Seq<Seq<char>>, order: Seq<usize>) -> bool {
    &&& order.len() == keys.len()
    &&& forall|i: int| 0 <= i < order.len() ==> #[trigger] order[i] < keys.len()
    &&& forall|i: int, j: int| 0 <= i < j < order.len() ==> order[i] != order[j]
    &&& forall|i: int, j: int|
        0 <= i < j < order.len() ==> !spec_text_lt(#[trigger] keys[order[j] as int], #[trigger] keys[order[i] as int])
    &&& forall|i: int, j: int|
        0 <= i < j < order.len() && keys[order[i] as int] == keys[order[j] as int] ==> #[trigger] order[i]
            < #[trigger] order[j]
}

pub open spec fn strings_of(v: Seq<String>) -> Seq<Seq<char>> {
    v.map_values(|s: String| s@)
}

/// The positions of `keys` in the order a stable sort by key lists them.
pub fn stable_order(keys: &[String]) -> (r: Vec<usize>)
    ensures
        spec_is_stable_order(strings_of(keys@), r@),
{
    let ghost ks = strings_of(keys@);
    let mut order: Vec<usize> = Vec::new();
    let mut k: usize = 0;
    while k < keys.len()
        invariant
            k <= keys.len(),
            ks == strings_of(keys@),
            ks.len() == keys.len(),
            order@.len() == k,
            forall|i: int| 0 <= i < order@.len() ==> #[trigger] order@[i] < k,
            forall|i: int, j: int| 0 <= i < j < order@.len() ==> order@[i] != order@[j],
            forall|i: int, j: int|
                0 <= i < j < order@.len() ==> !spec_text_lt(
                    #[trigger] ks[order@[j] as int],
                    #[trigger] ks[order@[i] as int],
                ),
            forall|i: int, j: int|
                0 <= i < j < order@.len() && ks[order@[i] as int] == ks[order@[j] as int] ==> #[trigger] order@[i]
                    < #[trigger] order@[j],
        decreases keys.len() - k,
    {
        let key = chars_of(keys[k].as_str());
        assert(key@ == ks[k as int]);
        let mut p: usize = 0;
        while p < order.len() && !text_lt(&key, &chars_of(keys[order[p]].as_str()))
            invariant
                p <= order@.len(),
                order@.len() == k,
                k < keys.len(),
                key@ == ks[k as int],
                ks == strings_of(keys@),
                ks.len() == keys.len(),
                forall|i: int| 0 <= i < order@.len() ==> #[trigger] order@[i] < k,
                forall|i: int| 0 <= i < p ==> !spec_text_lt(ks[k as int], #[trigger] ks[order@[i] as int]),
            decreases order@.len() - p,
        {
            p = p + 1;
        }
        let ghost before = order@;
        proof {
            if p < before.len() {
                assert(spec_text_lt(ks[k as int], ks[before[p as int] as int]));
                assert forall|j: int| p <= j < before.len() implies spec_text_lt(
                    ks[k as int],
                    #[trigger] ks[before[j] as int],
                ) by {
                    if j > p {
                        assert(!spec_text_lt(ks[before[j] as int], ks[before[p as int] as int]));
                        lemma_text_lt_total(ks[before[p as int] as int], ks[before[j] as int]);
                        if spec_text_lt(ks[before[p as int] as int], ks[before[j] as int]) {
                            lemma_text_lt_transitive(
                                ks[k as int],
                                ks[before[p as int] as int],
                                ks[before[j] as int],
                            );
                        }
                    }
                }
            }
        }
        order.insert(p, k);
        proof {
            let after = order@;
            assert(after == before.insert(p as int, k));
            assert forall|i: int| 0 <= i < after.len() implies #[trigger] after[i] < k + 1 by {
                if i < p {
                    assert(after[i] == before[i]);
                } else if i > p {
                    assert(after[i] == before[i - 1]);
                }
            }
            assert forall|i: int, j: int| 0 <= i < j < after.len() implies after[i] != after[j] by {
                if i < p && j < p {
                    assert(after[i] == before[i] && after[j] == before[j]);
                } else if i < p && j == p {
                    assert(after[i] == before[i]);
                } else if i < p && j > p {
                    assert(after[i] == before[i] && after[j] == before[j - 1]);
                } else if i == p {
                    assert(after[j] == before[j - 1]);
                } else {
                    assert(after[i] == before[i - 1] && after[j] == before[j - 1]);
                }
            }
            assert forall|i: int, j: int| 0 <= i < j < after.len() implies !spec_text_lt(
                #[trigger] ks[after[j] as int],
                #[trigger] ks[after[i] as int],
            ) by {
                if i < p && j < p {
                    assert(after[i] == before[i] && after[j] == before[j]);
                } else if i < p && j == p {
                    assert(after[i] == before[i]);
                } else if i < p && j > p {
                    assert(after[i] == before[i] && after[j] == before[j - 1]);
                } else if i == p {
                    assert(after[j] == before[j - 1]);
                    assert(spec_text_lt(ks[k as int], ks[before[j - 1] as int]));
                    if spec_text_lt(ks[before[j - 1] as int], ks[k as int]) {
                        lemma_text_lt_transitive(ks[before[j - 1] as int], ks[k as int], ks[before[j - 1] as int]);
                        lemma_text_lt_irreflexive(ks[before[j - 1] as int]);
                    }
                } else {
                    assert(after[i] == before[i - 1] && after[j] == before[j - 1]);
                }
            }
            assert forall|i: int, j: int|
                0 <= i < j < after.len() && ks[after[i] as int] == ks[after[j] as int] implies #[trigger] after[i]
                < #[trigger] after[j] by {
                if i < p && j < p {
                    assert(after[i] == before[i] && after[j] == before[j]);
                } else if i < p && j == p {
                    assert(after[i] == before[i]);
                } else if i < p && j > p {
                    assert(after[i] == before[i] && after[j] == before[j - 1]);
                } else if i == p {
                    assert(after[j] == before[j - 1]);
                    assert(spec_text_lt(ks[k as int], ks[before[j - 1] as int]));
                    lemma_text_lt_irreflexive(ks[k as int]);
                } else {
                    assert(after[i] == before[i - 1] && after[j] == before[j - 1]);
                }
            }
        }
        k = k + 1;
    }
    order
}

} // verus!
