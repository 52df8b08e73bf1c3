//! Which rules match an element, and in what order the cascade applies
//! them: weakest first, by specificity and then by source order, so that a
//! later stylesheet wins over an earlier one when specificity ties.

use vstd::prelude::*;

verus! {

/// The specificity of the most specific selector that matches, given each
/// selector of a rule as whether it matches and its specificity.
pub open spec fn best_match(selectors: Seq<(bool, u32)>) -> Option<u32>
    decreases selectors.len(),
{
    if selectors.len() == 0 {
        None
    } else {
        let rest = best_match(selectors.drop_last());
        let (matches, specificity) = selectors.last();
        if !matches {
            rest
        } else {
            match rest {
                Some(s) => if s < specificity {
                    Some(specificity)
                } else {
                    Some(s)
                },
                None => Some(specificity),
            }
        }
    }
}

/// Law: a rule matches exactly when one of its selectors does, and then its
/// specificity is that of a matching selector and at least that of every
/// matching selector.
pub proof fn lemma_best_match(selectors: Seq<(bool, u32)>)
    ensures
        (best_match(selectors) is None) == (forall|i: int|
            0 <= i < selectors.len() ==> !(#[trigger] selectors[i]).0),
        best_match(selectors) matches Some(s) ==> (exists|i: int|
            0 <= i < selectors.len() && (#[trigger] selectors[i]).0 && selectors[i].1 == s),
        best_match(selectors) matches Some(s) ==> (forall|i: int|
            0 <= i < selectors.len() && (#[trigger] selectors[i]).0 ==> selectors[i].1 <= s),
    decreases selectors.len(),
{
    if selectors.len() > 0 {
        let init = selectors.drop_last();
        lemma_best_match(init);
        let last = selectors.len() - 1;
        assert(selectors[last] == selectors.last());
        assert forall|i: int| 0 <= i < init.len() implies init[i] == selectors[i] by {}
        if best_match(init) is None && !selectors.last().0 {
            assert forall|i: int| 0 <= i < selectors.len() implies !(#[trigger] selectors[i]).0 by {
                if i < init.len() {
                    assert(init[i] == selectors[i]);
                }
            }
        }
        match best_match(selectors) {
            Some(s) => {
                if best_match(init) is Some && (!selectors.last().0 || selectors.last().1
                    <= best_match(init).unwrap()) {
                    let r = best_match(init).unwrap();
                    let k = choose|k: int| 0 <= k < init.len() && (#[trigger] init[k]).0 && init[k].1 == r;
                    assert(selectors[k] == init[k]);
                } else {
                    assert(selectors[last].0 && selectors[last].1 == s);
                }
                assert forall|i: int| 0 <= i < selectors.len() && (#[trigger] selectors[i]).0 implies selectors[i].1
                    <= s by {
                    if i < init.len() {
                        assert(init[i] == selectors[i]);
                    }
                }
            },
            None => {},
        }
    }
}

/// A rule with several selectors is as specific as the most specific
/// selector that matches; with none matching, the rule does not match.
pub fn best_specificity(selectors: &[(bool, u32)]) -> (s: Option<u32>)
    ensures
        s == best_match(selectors@),
{
    let mut best: Option<u32> = None;
    let mut i: usize = 0;
    while i < selectors.len()
        invariant
            i <= selectors@.len(),
            best == best_match(selectors@.subrange(0, i as int)),
        decreases selectors@.len() - i,
    {
        let (matches, specificity) = selectors[i];
        assert(selectors@.subrange(0, i + 1).drop_last() =~= selectors@.subrange(0, i as int));
        if matches {
            best = match best {
                Some(s) => if s < specificity {
                    Some(specificity)
                } else {
                    Some(s)
                },
                None => Some(specificity),
            };
        }
        i = i + 1;
    }
    assert(selectors@.subrange(0, selectors@.len() as int) =~= selectors@);
    best
}

/// Whether rule `a` is applied before rule `b`: it is less specific, or as
/// specific and earlier in source order.
pub open spec fn weaker(specificities: Seq<Option<u32>>, a: int, b: int) -> bool {
    let x = specificities[a].unwrap();
    let y = specificities[b].unwrap();
    x < y || (x == y && a < b)
}

/// Whether `order` lists exactly the matching rules (those with a
/// specificity), weakest first.
pub open spec fn ranked(specificities: Seq<Option<u32>>, order: Seq<usize>) -> bool {
    &&& forall|p: int|
        0 <= p < order.len() ==> #[trigger] order[p] < specificities.len()
            && specificities[order[p] as int] is Some
    &&& forall|p: int, q: int|
        0 <= p < q < order.len() ==> weaker(
            specificities,
            #[trigger] order[p] as int,
            #[trigger] order[q] as int,
        )
    &&& forall|j: int|
        0 <= j < specificities.len() && #[trigger] specificities[j] is Some ==> order.contains(
            j as usize,
        )
}

/// The matching rules, given each rule's specificity or `None` where it
/// does not match, in the order the cascade applies them: weakest first,
/// ties in source order.
pub fn rank_rules(specificities: &[Option<u32>]) -> (order: Vec<usize>)
    ensures
        ranked(specificities@, order@),
{
    let ghost sp = specificities@;
    let n = specificities.len();
    let mut order: Vec<usize> = Vec::new();
    let mut k: usize = 0;
    while k < n
        invariant
            n == sp.len(),
            sp == specificities@,
            k <= n,
            forall|p: int|
                0 <= p < order@.len() ==> #[trigger] order@[p] < k && sp[order@[p] as int] is Some,
            forall|p: int, q: int|
                0 <= p < q < order@.len() ==> weaker(
                    sp,
                    #[trigger] order@[p] as int,
                    #[trigger] order@[q] as int,
                ),
            forall|j: int| 0 <= j < k && #[trigger] sp[j] is Some ==> order@.contains(j as usize),
        decreases n - k,
    {
        match specificities[k] {
            Some(s) => {
                let mut at: usize = 0;
                while at < order.len() && specificities[order[at]].unwrap() <= s
                    invariant
                        sp == specificities@,
                        k < n,
                        n == sp.len(),
                        sp[k as int] == Some(s),
                        at <= order@.len(),
                        forall|p: int|
                            0 <= p < order@.len() ==> #[trigger] order@[p] < k && sp[order@[p] as int] is Some,
                        forall|p: int| 0 <= p < at ==> sp[#[trigger] order@[p] as int].unwrap() <= s,
                    decreases order@.len() - at,
                {
                    at = at + 1;
                }
                let ghost before = order@;
                proof {
                    assert forall|q: int| at <= q < before.len() implies sp[#[trigger] before[q] as int].unwrap() > s by {
                        if q > at {
                            assert(weaker(sp, before[at as int] as int, before[q] as int));
                        }
                    }
                }
                order.insert(at, k);
                proof {
                    assert forall|p: int| 0 <= p < order@.len() implies #[trigger] order@[p] < k + 1
                        && sp[order@[p] as int] is Some by {
                        if p < at {
                            assert(order@[p] == before[p]);
                        } else if p > at {
                            assert(order@[p] == before[p - 1]);
                        }
                    }
                    assert forall|p: int, q: int|
                        0 <= p < q < order@.len() implies weaker(
                        sp,
                        #[trigger] order@[p] as int,
                        #[trigger] order@[q] as int,
                    ) by {
                        if q < at {
                            assert(order@[p] == before[p] && order@[q] == before[q]);
                        } else if q == at {
                            assert(order@[p] == before[p]);
                        } else if p < at {
                            assert(order@[p] == before[p] && order@[q] == before[q - 1]);
                        } else if p == at {
                            assert(order@[q] == before[q - 1]);
                        } else {
                            assert(order@[p] == before[p - 1] && order@[q] == before[q - 1]);
                        }
                    }
                    assert forall|j: int| 0 <= j < k + 1 && #[trigger] sp[j] is Some implies order@.contains(
                        j as usize,
                    ) by {
                        if j == k {
                            assert(order@[at as int] == k);
                        } else {
                            let p = choose|p: int| 0 <= p < before.len() && before[p] == j as usize;
                            if p < at {
                                assert(order@[p] == before[p]);
                            } else {
                                assert(order@[p + 1] == before[p]);
                            }
                        }
                    }
                }
            },
            None => {},
        }
        k = k + 1;
    }
    order
}

} // verus!
