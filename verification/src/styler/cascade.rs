//! The cascade's choice: which declaration wins for each longhand.
//!
//! Blocks are given weakest first: the matching rules in the order the
//! styler ranks them, then the inline style. Normal declarations are applied
//! first, in that order, then the important ones in the same order; for
//! each longhand the last declaration applied wins.

use vstd::prelude::*;

use crate::styler::properties::{LONGHAND_COUNT, LonghandId, lemma_longhand_names, longhand_index};
use crate::styler::stylesheet::DeclarationBlock;

verus! {

/// A place in the blocks: which block, and which declaration in it.
pub type Place = (int, int);

/// Whether `p` comes before `q` in source order.
pub open spec fn before(p: Place, q: Place) -> bool {
    p.0 < q.0 || (p.0 == q.0 && p.1 < q.1)
}

/// Whether `p` names a declaration of the blocks.
pub open spec fn valid_place(bs: Seq<Seq<(LonghandId, bool)>>, p: Place) -> bool {
    0 <= p.0 < bs.len() && 0 <= p.1 < bs[p.0].len()
}

/// The declarations one pass applies, in order, over the blocks before
/// block `b` and the first `i` declarations of block `b`: the normal ones
/// when `important` is false, the important ones when it is true.
pub open spec fn pass_upto(
    bs: Seq<Seq<(LonghandId, bool)>>,
    important: bool,
    b: int,
    i: int,
) -> Seq<(LonghandId, Place)>
    decreases b, i,
{
    if b <= 0 && i <= 0 {
        Seq::empty()
    } else if i <= 0 {
        pass_upto(bs, important, b - 1, bs[b - 1].len() as int)
    } else {
        let earlier = pass_upto(bs, important, b, i - 1);
        if bs[b][i - 1].1 == important {
            earlier.push((bs[b][i - 1].0, (b, i - 1)))
        } else {
            earlier
        }
    }
}

/// Every declaration of one importance, in the order it is applied.
pub open spec fn pass(bs: Seq<Seq<(LonghandId, bool)>>, important: bool) -> Seq<(LonghandId, Place)> {
    pass_upto(bs, important, bs.len() as int, 0)
}

/// Every declaration, in the order the cascade applies them: the normal
/// ones first, then the important ones.
pub open spec fn applied(bs: Seq<Seq<(LonghandId, bool)>>) -> Seq<(LonghandId, Place)> {
    pass(bs, false) + pass(bs, true)
}

/// Where the last declaration of `longhand` applied stands, if any is.
pub open spec fn last_of(applied: Seq<(LonghandId, Place)>, longhand: LonghandId) -> Option<Place>
    decreases applied.len(),
{
    if applied.len() == 0 {
        None
    } else if applied.last().0 == longhand {
        Some(applied.last().1)
    } else {
        last_of(applied.drop_last(), longhand)
    }
}

/// The declaration that wins the cascade for `longhand`.
pub open spec fn cascade_winner(bs: Seq<Seq<(LonghandId, bool)>>, longhand: LonghandId) -> Option<Place> {
    last_of(applied(bs), longhand)
}

/// Whether the declaration at `p` loses to, or is, the one at `w`: an
/// important declaration beats a normal one, and between two of the same
/// importance the later one wins.
pub open spec fn yields_to(bs: Seq<Seq<(LonghandId, bool)>>, p: Place, w: Place) -> bool {
    let ip = bs[p.0][p.1].1;
    let iw = bs[w.0][w.1].1;
    (!ip && iw) || (ip == iw && (p == w || before(p, w)))
}

/// What the cascade reads of a list of blocks.
pub open spec fn blocks_entries<V>(blocks: Seq<&DeclarationBlock<V>>) -> Seq<Seq<(LonghandId, bool)>> {
    blocks.map_values(|b: &DeclarationBlock<V>| b.entries())
}

/// Where the last declaration of `longhand` stands in `applied`.
proof fn lemma_last_of(applied: Seq<(LonghandId, Place)>, longhand: LonghandId) -> (k: int)
    ensures
        last_of(applied, longhand) is Some ==> {
            &&& 0 <= k < applied.len()
            &&& applied[k].0 == longhand
            &&& last_of(applied, longhand) == Some(applied[k].1)
            &&& forall|j: int| k < j < applied.len() ==> applied[j].0 != longhand
        },
        last_of(applied, longhand) is None ==> forall|j: int|
            0 <= j < applied.len() ==> applied[j].0 != longhand,
    decreases applied.len(),
{
    if applied.len() == 0 {
        0
    } else if applied.last().0 == longhand {
        applied.len() - 1
    } else {
        let k = lemma_last_of(applied.drop_last(), longhand);
        if last_of(applied, longhand) is Some {
            assert(applied[k] == applied.drop_last()[k]);
            assert forall|j: int| k < j < applied.len() implies applied[j].0 != longhand by {
                if j < applied.len() - 1 {
                    assert(applied[j] == applied.drop_last()[j]);
                }
            }
        } else {
            assert forall|j: int| 0 <= j < applied.len() implies applied[j].0 != longhand by {
                if j < applied.len() - 1 {
                    assert(applied[j] == applied.drop_last()[j]);
                }
            }
        }
        k
    }
}

/// What one pass holds: each entry is a declaration of that importance,
/// placed before where the pass stopped; entries come in source order; and
/// every such declaration is there.
proof fn lemma_pass_upto(bs: Seq<Seq<(LonghandId, bool)>>, important: bool, b: int, i: int)
    requires
        0 <= b <= bs.len(),
        0 <= i,
        b < bs.len() ==> i <= bs[b].len(),
        b == bs.len() ==> i == 0,
    ensures
        forall|k: int|
            0 <= k < pass_upto(bs, important, b, i).len() ==> {
                let e = #[trigger] pass_upto(bs, important, b, i)[k];
                &&& valid_place(bs, e.1)
                &&& bs[e.1.0][e.1.1] == (e.0, important)
                &&& before(e.1, (b, i))
            },
        forall|k1: int, k2: int|
            0 <= k1 < k2 < pass_upto(bs, important, b, i).len() ==> before(
                #[trigger] pass_upto(bs, important, b, i)[k1].1,
                #[trigger] pass_upto(bs, important, b, i)[k2].1,
            ),
        forall|p: Place|
            valid_place(bs, p) && before(p, (b, i)) && #[trigger] bs[p.0][p.1].1 == important
                ==> exists|k: int|
                0 <= k < pass_upto(bs, important, b, i).len() && #[trigger] pass_upto(
                    bs,
                    important,
                    b,
                    i,
                )[k] == (bs[p.0][p.1].0, p),
    decreases b, i,
{
    let ev = pass_upto(bs, important, b, i);
    if b <= 0 && i <= 0 {
    } else if i <= 0 {
        let n = bs[b - 1].len() as int;
        lemma_pass_upto(bs, important, b - 1, n);
        assert(ev == pass_upto(bs, important, b - 1, n));
        assert forall|p: Place|
            valid_place(bs, p) && before(p, (b, i)) && #[trigger] bs[p.0][p.1].1 == important
                implies exists|k: int| 0 <= k < ev.len() && #[trigger] ev[k] == (bs[p.0][p.1].0, p) by {
            assert(before(p, (b - 1, n)));
        }
    } else {
        lemma_pass_upto(bs, important, b, i - 1);
        let earlier = pass_upto(bs, important, b, i - 1);
        if bs[b][i - 1].1 == important {
            let e = (bs[b][i - 1].0, (b, i - 1));
            assert(ev == earlier.push(e));
            assert forall|k: int| 0 <= k < earlier.len() implies #[trigger] ev[k] == earlier[k] by {}
            assert forall|p: Place|
                valid_place(bs, p) && before(p, (b, i)) && #[trigger] bs[p.0][p.1].1 == important
                    implies exists|k: int| 0 <= k < ev.len() && #[trigger] ev[k] == (bs[p.0][p.1].0, p) by {
                if p == (b, i - 1) {
                    assert(ev[earlier.len() as int] == (bs[p.0][p.1].0, p));
                } else {
                    assert(before(p, (b, i - 1)));
                    let k = choose|k: int|
                        0 <= k < earlier.len() && #[trigger] earlier[k] == (bs[p.0][p.1].0, p);
                    assert(ev[k] == (bs[p.0][p.1].0, p));
                }
            }
        } else {
            assert(ev == earlier);
            assert forall|p: Place|
                valid_place(bs, p) && before(p, (b, i)) && #[trigger] bs[p.0][p.1].1 == important
                    implies exists|k: int| 0 <= k < ev.len() && #[trigger] ev[k] == (bs[p.0][p.1].0, p) by {
                assert(p != (b, i - 1));
                assert(before(p, (b, i - 1)));
            }
        }
    }
}

/// The cascade's rule: the declaration that wins for a longhand is one of
/// its declarations, and every other declaration of it yields to the
/// winner (important beats normal, and within one importance the later one
/// wins, so the inline style, given last, beats every rule). With no
/// declaration of the longhand there is no winner.
pub proof fn lemma_cascade_winner(bs: Seq<Seq<(LonghandId, bool)>>, longhand: LonghandId)
    ensures
        match cascade_winner(bs, longhand) {
            Some(w) => {
                &&& valid_place(bs, w)
                &&& bs[w.0][w.1].0 == longhand
                &&& forall|p: Place|
                    valid_place(bs, p) && #[trigger] bs[p.0][p.1].0 == longhand ==> yields_to(
                        bs,
                        p,
                        w,
                    )
            },
            None => forall|p: Place| valid_place(bs, p) ==> #[trigger] bs[p.0][p.1].0 != longhand,
        },
{
    let end = bs.len() as int;
    let p0 = pass(bs, false);
    let p1 = pass(bs, true);
    let ev = applied(bs);
    lemma_pass_upto(bs, false, end, 0);
    lemma_pass_upto(bs, true, end, 0);
    let k = lemma_last_of(ev, longhand);
    assert forall|j: int| 0 <= j < p0.len() implies #[trigger] ev[j] == p0[j] by {}
    assert forall|j: int| 0 <= j < p1.len() implies #[trigger] ev[p0.len() + j] == p1[j] by {}
    // Where a declaration of the longhand appears among those applied.
    assert forall|p: Place| valid_place(bs, p) && #[trigger] bs[p.0][p.1].0 == longhand implies {
        let imp = bs[p.0][p.1].1;
        exists|k2: int|
            0 <= k2 < ev.len() && #[trigger] ev[k2] == (longhand, p) && (k2 < p0.len() <==> !imp)
    } by {
        assert(before(p, (end, 0)));
        if bs[p.0][p.1].1 {
            let k2 = choose|k2: int| 0 <= k2 < p1.len() && #[trigger] p1[k2] == (bs[p.0][p.1].0, p);
            assert(ev[p0.len() + k2] == (longhand, p));
        } else {
            let k2 = choose|k2: int| 0 <= k2 < p0.len() && #[trigger] p0[k2] == (bs[p.0][p.1].0, p);
            assert(ev[k2] == (longhand, p));
        }
    }
    match cascade_winner(bs, longhand) {
        Some(w) => {
            let in_first = k < p0.len();
            if in_first {
                assert(ev[k] == p0[k]);
            } else {
                assert(ev[k] == p1[k - p0.len()]);
            }
            assert forall|p: Place|
                valid_place(bs, p) && #[trigger] bs[p.0][p.1].0 == longhand implies yields_to(
                    bs,
                    p,
                    w,
                ) by {
                let imp = bs[p.0][p.1].1;
                let k2 = choose|k2: int|
                    0 <= k2 < ev.len() && #[trigger] ev[k2] == (longhand, p) && (k2 < p0.len()
                        <==> !imp);
                assert(k2 <= k);
                if k2 < k {
                    if k2 < p0.len() && k < p0.len() {
                        assert(before(p0[k2].1, p0[k].1));
                    } else if k2 >= p0.len() && k >= p0.len() {
                        assert(before(p1[k2 - p0.len()].1, p1[k - p0.len()].1));
                    }
                }
            }
        },
        None => {},
    }
}

/// The declaration that won the cascade for each longhand, if any did, as
/// the block it is in and its position there.
pub struct Winners {
    slots: Vec<Option<(usize, usize)>>,
}

/// A place as the integers contracts speak of.
pub open spec fn place_of(slot: Option<(usize, usize)>) -> Option<Place> {
    match slot {
        Some((b, i)) => Some((b as int, i as int)),
        None => None,
    }
}

impl Winners {
    /// The winner recorded for `longhand`.
    pub closed spec fn winner(&self, longhand: LonghandId) -> Option<Place> {
        place_of(self.slots@[longhand_index(longhand) as int])
    }

    pub closed spec fn wf(&self) -> bool {
        self.slots@.len() == LONGHAND_COUNT
    }

    /// The block and position of the declaration that won for `longhand`.
    pub fn get(&self, longhand: LonghandId) -> (w: Option<(usize, usize)>)
        requires
            self.wf(),
        ensures
            place_of(w) == self.winner(longhand),
    {
        self.slots[longhand.index()]
    }
}

/// Applies one pass of the cascade, block by block, on top of what earlier
/// passes recorded.
fn apply_pass<V>(
    slots: &mut Vec<Option<(usize, usize)>>,
    blocks: &[&DeclarationBlock<V>],
    important: bool,
    Ghost(done): Ghost<Seq<(LonghandId, Place)>>,
)
    requires
        old(slots)@.len() == LONGHAND_COUNT,
        forall|l: LonghandId|
            place_of(#[trigger] old(slots)@[longhand_index(l) as int]) == last_of(done, l),
    ensures
        final(slots)@.len() == LONGHAND_COUNT,
        forall|l: LonghandId|
            place_of(#[trigger] final(slots)@[longhand_index(l) as int]) == last_of(
                done + pass(blocks_entries(blocks@), important),
                l,
            ),
{
    let ghost bs = blocks_entries(blocks@);
    let n = blocks.len();
    let mut b: usize = 0;
    while b < n
        invariant
            n == blocks@.len(),
            bs == blocks_entries(blocks@),
            b <= n,
            slots@.len() == LONGHAND_COUNT,
            forall|l: LonghandId|
                place_of(#[trigger] slots@[longhand_index(l) as int]) == last_of(
                    done + pass_upto(bs, important, b as int, 0),
                    l,
                ),
        decreases n - b,
    {
        let declarations = blocks[b].declarations();
        let m = declarations.len();
        assert(bs[b as int] == blocks@[b as int].entries());
        let mut i: usize = 0;
        while i < m
            invariant
                n == blocks@.len(),
                bs == blocks_entries(blocks@),
                b < n,
                i <= m,
                m == bs[b as int].len(),
                declarations@ == blocks@[b as int].spec_declarations(),
                bs[b as int] == blocks@[b as int].entries(),
                slots@.len() == LONGHAND_COUNT,
                forall|l: LonghandId|
                    place_of(#[trigger] slots@[longhand_index(l) as int]) == last_of(
                        done + pass_upto(bs, important, b as int, i as int),
                        l,
                    ),
            decreases m - i,
        {
            let d = &declarations[i];
            let ghost earlier = done + pass_upto(bs, important, b as int, i as int);
            assert(bs[b as int][i as int] == (d.longhand, d.important));
            if d.important == important {
                let ghost e = (d.longhand, (b as int, i as int));
                assert(pass_upto(bs, important, b as int, i + 1) == pass_upto(
                    bs,
                    important,
                    b as int,
                    i as int,
                ).push(e));
                assert(done + pass_upto(bs, important, b as int, i + 1) =~= earlier.push(e));
                assert(earlier.push(e).drop_last() =~= earlier);
                let at = d.longhand.index();
                slots.set(at, Some((b, i)));
                proof {
                    lemma_longhand_names(d.longhand);
                    assert forall|l: LonghandId|
                        place_of(#[trigger] slots@[longhand_index(l) as int]) == last_of(
                            earlier.push(e),
                            l,
                        ) by {
                        lemma_longhand_names(l);
                    }
                }
            } else {
                assert(pass_upto(bs, important, b as int, i + 1) == pass_upto(
                    bs,
                    important,
                    b as int,
                    i as int,
                ));
            }
            i = i + 1;
        }
        assert(pass_upto(bs, important, b + 1, 0) == pass_upto(
            bs,
            important,
            b as int,
            bs[b as int].len() as int,
        ));
        b = b + 1;
    }
}

/// Runs the cascade over `blocks`, weakest first, and records the winner for
/// every longhand: the one `cascade_winner` names.
pub fn cascade<V>(blocks: &[&DeclarationBlock<V>]) -> (w: Winners)
    ensures
        w.wf(),
        forall|l: LonghandId| #[trigger] w.winner(l) == cascade_winner(blocks_entries(blocks@), l),
{
    let mut slots: Vec<Option<(usize, usize)>> = Vec::new();
    let mut k: usize = 0;
    while k < LONGHAND_COUNT
        invariant
            k <= LONGHAND_COUNT,
            slots@.len() == k,
            forall|j: int| 0 <= j < k ==> slots@[j] is None,
        decreases LONGHAND_COUNT - k,
    {
        slots.push(None);
        k = k + 1;
    }
    proof {
        assert forall|l: LonghandId|
            place_of(#[trigger] slots@[longhand_index(l) as int]) == last_of(
                Seq::<(LonghandId, Place)>::empty(),
                l,
            ) by {
            lemma_longhand_names(l);
        }
    }
    let ghost bs = blocks_entries(blocks@);
    apply_pass(&mut slots, blocks, false, Ghost(Seq::empty()));
    assert(Seq::<(LonghandId, Place)>::empty() + pass(bs, false) =~= pass(bs, false));
    apply_pass(&mut slots, blocks, true, Ghost(pass(bs, false)));
    Winners { slots }
}

} // verus!
