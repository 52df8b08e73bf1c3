//! The shape of the element tree, kept apart from the widgets that hang on
//! it: which slots are in use, each element's parent and children, and the
//! interactive state the toolkit tracks for it (hover, active, focus).
//!
//! Slots are reused: a removed element's slot goes on a free list and the
//! next element mounted takes it.

use vstd::prelude::*;

use crate::styler::element::ElementState;
use crate::styler::selector::has_flag;

verus! {

/// The element tree's structure and tracked state.
pub struct Tree {
    live: Vec<bool>,
    parents: Vec<Option<usize>>,
    kids: Vec<Vec<usize>>,
    states: Vec<ElementState>,
    free: Vec<usize>,
    focus: Option<usize>,
    /// How far each slot's element is from the top of its tree: a top-level
    /// element is at 0, a child one below its parent.
    depth: Ghost<Seq<nat>>,
}

impl Tree {
    /// Whether slot `i` holds an element.
    pub closed spec fn live(&self, i: int) -> bool {
        0 <= i < self.live@.len() && self.live@[i]
    }

    /// The parent recorded for slot `i`.
    pub closed spec fn parent_of(&self, i: int) -> Option<usize> {
        self.parents@[i]
    }

    /// The children recorded for slot `i`, in order.
    pub closed spec fn kids_of(&self, i: int) -> Seq<usize> {
        self.kids@[i]@
    }

    /// The state bits tracked for slot `i`.
    pub closed spec fn bits(&self, i: int) -> u16 {
        self.states@[i].spec_bits()
    }

    /// The element with keyboard focus.
    pub closed spec fn focused(&self) -> Option<usize> {
        self.focus
    }

    /// How far slot `i` is from the top of its tree.
    pub closed spec fn height(&self, i: int) -> nat {
        self.depth@[i]
    }

    /// The number of slots.
    pub closed spec fn slot_count(&self) -> nat {
        self.live@.len()
    }

    /// The slots given up by removed elements, the one to be taken next
    /// last.
    pub closed spec fn free_slots(&self) -> Seq<usize> {
        self.free@
    }

    pub closed spec fn wf(&self) -> bool {
        let n = self.live@.len();
        &&& self.parents@.len() == n
        &&& self.kids@.len() == n
        &&& self.states@.len() == n
        &&& self.depth@.len() == n
        &&& forall|i: int|
            0 <= i < n && self.live@[i] ==> match #[trigger] self.parents@[i] {
                Some(p) => p < n && self.live@[p as int] && self.depth@[i] == self.depth@[p as int]
                    + 1,
                None => self.depth@[i] == 0,
            }
        &&& forall|i: int, j: int|
            0 <= i < n && 0 <= j < self.kids@[i]@.len() ==> #[trigger] self.kids@[i]@[j] < n
        &&& forall|i: int|
            0 <= i < n && self.live@[i] ==> (#[trigger] self.kids@[i]@).no_duplicates()
        &&& forall|i: usize, k: usize|
            #![trigger self.kids@[i as int]@.contains(k)]
            #![trigger self.live@[i as int], self.parents@[k as int]]
            i < n && self.live@[i as int] && k < n ==> (self.kids@[i as int]@.contains(k) == (
            self.live@[k as int] && self.parents@[k as int] == Some(i)))
        &&& forall|k: int|
            0 <= k < self.free@.len() ==> #[trigger] self.free@[k] < n && !self.live@[self.free@[k] as int]
        &&& forall|a: int, b: int|
            0 <= a < b < self.free@.len() ==> #[trigger] self.free@[a] != #[trigger] self.free@[b]
        &&& match self.focus {
            Some(f) => f < n && self.live@[f as int],
            None => true,
        }
    }
}

/// Whether `i` is `j` or one of its ancestors.
pub open spec fn ancestor_or_self(t: &Tree, j: int, i: int) -> bool
    decreases t.height(j),
{
    if j == i {
        true
    } else {
        match t.parent_of(j) {
            Some(p) => if t.height(p as int) < t.height(j) {
                ancestor_or_self(t, p as int, i)
            } else {
                false
            },
            None => false,
        }
    }
}

/// Whether `i` is a proper ancestor of `j`.
pub open spec fn strict_ancestor(t: &Tree, j: int, i: int) -> bool {
    match t.parent_of(j) {
        Some(p) => t.height(p as int) < t.height(j) && ancestor_or_self(t, p as int, i),
        None => false,
    }
}

/// Whether the focus flags are where focus is: `:focus` exactly on the
/// focused element, `:focus-visible` only there, and `:focus-within`
/// exactly on its ancestors.
pub open spec fn focus_marked(t: &Tree) -> bool {
    forall|k: int|
        #![trigger t.bits(k)]
        t.live(k) ==> {
            &&& has_flag(t.bits(k), 4) == (t.focused() matches Some(f) && f as int == k)
            &&& has_flag(t.bits(k), 8) ==> (t.focused() matches Some(f) && f as int == k)
            &&& has_flag(t.bits(k), 16) == (match t.focused() {
                Some(f) => strict_ancestor(t, f as int, k),
                None => false,
            })
        }
}

/// The nearest element at or above `j` that `focusable` says can take
/// focus.
pub open spec fn nearest_focusable(t: &Tree, j: int, focusable: Seq<bool>) -> Option<usize>
    decreases t.height(j),
{
    if 0 <= j < focusable.len() && focusable[j] {
        Some(j as usize)
    } else {
        match t.parent_of(j) {
            Some(p) => if t.height(p as int) < t.height(j) {
                nearest_focusable(t, p as int, focusable)
            } else {
                None
            },
            None => None,
        }
    }
}

/// Whether two trees have the same parents and heights for every element
/// of the first.
pub open spec fn same_shape_over(t1: &Tree, t2: &Tree) -> bool {
    forall|m: int|
        #![trigger t1.live(m)]
        t1.live(m) ==> t2.parent_of(m) == t1.parent_of(m) && t2.height(m) == t1.height(m)
}

/// Ancestry seen from an element depends only on the parents and heights of
/// the elements above it.
pub proof fn lemma_ancestry_frame(t1: &Tree, t2: &Tree, j: int, i: int)
    requires
        t1.wf(),
        t1.live(j),
        same_shape_over(t1, t2),
    ensures
        ancestor_or_self(t1, j, i) == ancestor_or_self(t2, j, i),
    decreases t1.height(j),
{
    assert(t1.live(j));
    match t1.parent_of(j) {
        Some(p) => {
            assert(t1.parents@[j] == Some(p));
            assert(t1.live(p as int));
            lemma_ancestry_frame(t1, t2, p as int, i);
        },
        None => {},
    }
}

/// Every ancestor of an element is an element.
pub proof fn lemma_ancestors_live(t: &Tree, j: int, i: int)
    requires
        t.wf(),
        t.live(j),
        ancestor_or_self(t, j, i),
    ensures
        t.live(i),
    decreases t.height(j),
{
    if j != i {
        assert(t.parents@[j] == t.parent_of(j));
        match t.parent_of(j) {
            Some(p) => lemma_ancestors_live(t, p as int, i),
            None => {},
        }
    }
}

/// In a well-formed tree, an element's ancestors are itself and its
/// parent's ancestors.
pub proof fn lemma_ancestor_step(t: &Tree, j: int, i: int)
    requires
        t.wf(),
        t.live(j),
    ensures
        ancestor_or_self(t, j, i) == (j == i || match t.parent_of(j) {
            Some(p) => ancestor_or_self(t, p as int, i),
            None => false,
        }),
        t.parent_of(j) matches Some(p) ==> t.live(p as int) && t.height(p as int) < t.height(j),
{
    assert(t.parents@[j] == t.parent_of(j));
}

/// Whether two trees record the same structure: the same slots in use, the
/// same parents, children and heights, and the same focus.
pub open spec fn same_structure(t1: &Tree, t2: &Tree) -> bool {
    &&& t1.slot_count() == t2.slot_count()
    &&& t1.focused() == t2.focused()
    &&& forall|m: int|
        #![trigger t2.live(m)]
        #![trigger t2.parent_of(m)]
        #![trigger t2.kids_of(m)]
        #![trigger t2.height(m)]
        t2.live(m) == t1.live(m) && t2.parent_of(m) == t1.parent_of(m) && t2.kids_of(m)
            == t1.kids_of(m) && t2.height(m) == t1.height(m)
}

/// Ancestry is the same in trees that record the same parents and heights.
pub proof fn lemma_ancestry_same(t1: &Tree, t2: &Tree, j: int, i: int)
    requires
        forall|m: int|
            #![trigger t2.parent_of(m)]
            t2.parent_of(m) == t1.parent_of(m) && t2.height(m) == t1.height(m),
    ensures
        ancestor_or_self(t1, j, i) == ancestor_or_self(t2, j, i),
    decreases t1.height(j),
{
    assert(t2.parent_of(j) == t1.parent_of(j));
    match t1.parent_of(j) {
        Some(p) => {
            assert(t2.parent_of(p as int) == t1.parent_of(p as int));
            if t1.height(p as int) < t1.height(j) {
                lemma_ancestry_same(t1, t2, p as int, i);
            }
        },
        None => {},
    }
}

/// An ancestor is never further from the top than the element.
pub proof fn lemma_ancestor_height(t: &Tree, j: int, i: int)
    requires
        ancestor_or_self(t, j, i),
    ensures
        t.height(i) <= t.height(j),
    decreases t.height(j),
{
    if j != i {
        match t.parent_of(j) {
            Some(p) => lemma_ancestor_height(t, p as int, i),
            None => {},
        }
    }
}

/// The focus flags after they are recomputed: `a` is 0, 4 or 12 (focus,
/// and whether it shows), `c` is 0 or 16 (focus within).
proof fn lemma_focus_bits(old: u16, a: u16, c: u16)
    by (bit_vector)
    requires
        a == 0 || a == 4 || a == 12,
        c == 0 || c == 16,
    ensures
        ((((old & !28u16) | a) | c) & 4 == 4) == (a != 0),
        ((((old & !28u16) | a) | c) & 8 == 8) == (a == 12),
        ((((old & !28u16) | a) | c) & 16 == 16) == (c == 16),
        (((old & !28u16) | a) | c) & 3 == old & 3,
{
}

/// Setting or clearing a flag outside the focus flags leaves them alone.
proof fn lemma_other_flag(old: u16, f: u16)
    by (bit_vector)
    requires
        f & 28 == 0,
    ensures
        (old | f) & 4 == old & 4,
        (old | f) & 8 == old & 8,
        (old | f) & 16 == old & 16,
        (old & !f) & 4 == old & 4,
        (old & !f) & 8 == old & 8,
        (old & !f) & 16 == old & 16,
{
}

/// `s` without the entries equal to `x`, the rest in order.
pub open spec fn without(s: Seq<usize>, x: usize) -> Seq<usize>
    decreases s.len(),
{
    if s.len() == 0 {
        s
    } else {
        let rest = without(s.drop_last(), x);
        if s.last() == x {
            rest
        } else {
            rest.push(s.last())
        }
    }
}

/// The elements of the subtree at `i` in tree order, following the child
/// lists: `i`, then the subtree of each child in turn, going at most
/// `levels` levels down.
pub open spec fn subtree_order(t: &Tree, i: int, levels: nat) -> Seq<usize>
    decreases levels, 0nat, 0nat,
{
    if levels == 0 {
        Seq::empty()
    } else {
        seq![i as usize] + forest_order(t, t.kids_of(i), (levels - 1) as nat)
    }
}

/// The subtrees at `roots`, one after another, each in tree order.
pub open spec fn forest_order(t: &Tree, roots: Seq<usize>, levels: nat) -> Seq<usize>
    decreases levels, 1nat, roots.len(),
{
    if roots.len() == 0 {
        Seq::empty()
    } else {
        subtree_order(t, roots[0] as int, levels) + forest_order(t, roots.drop_first(), levels)
    }
}

/// The subtrees of two runs of roots, one run after the other.
proof fn lemma_forest_concat(t: &Tree, a: Seq<usize>, b: Seq<usize>, levels: nat)
    ensures
        forest_order(t, a + b, levels) == forest_order(t, a, levels) + forest_order(t, b, levels),
    decreases a.len(),
{
    if a.len() == 0 {
        assert(a + b =~= b);
    } else {
        lemma_forest_concat(t, a.drop_first(), b, levels);
        assert((a + b).drop_first() =~= a.drop_first() + b);
        assert((a + b)[0] == a[0]);
    }
}

/// Law: an element is among the children of a live element exactly when it
/// is itself live and has that element as its parent.
pub proof fn lemma_children_have_their_parent(t: &Tree, i: usize, k: usize)
    requires
        t.wf(),
        t.live(i as int),
        k < t.slot_count(),
    ensures
        t.kids_of(i as int).contains(k) == (t.live(k as int) && t.parent_of(k as int) == Some(i)),
{
    assert(t.kids@[i as int]@.contains(k) == (t.live@[k as int] && t.parents@[k as int] == Some(i)));
}

/// `i` and the elements above it, as a set.
pub open spec fn chain_set(t: &Tree, i: int) -> Set<int>
    decreases t.height(i),
{
    match t.parent_of(i) {
        Some(p) => if t.height(p as int) < t.height(i) {
            chain_set(t, p as int).insert(i)
        } else {
            set![i]
        },
        None => set![i],
    }
}

/// The chain above a live element holds one element more than its height,
/// all of them slots of the tree no lower than it.
proof fn lemma_chain_set(t: &Tree, i: int)
    requires
        t.wf(),
        t.live(i),
    ensures
        chain_set(t, i).finite(),
        chain_set(t, i).len() == t.height(i) + 1,
        forall|x: int| #[trigger] chain_set(t, i).contains(x) ==> 0 <= x < t.slot_count() && t.height(x)
            <= t.height(i),
    decreases t.height(i),
{
    assert(t.parents@[i] == t.parent_of(i));
    match t.parent_of(i) {
        Some(p) => {
            lemma_chain_set(t, p as int);
            assert(!chain_set(t, p as int).contains(i));
        },
        None => {
            assert(set![i].len() == 1) by {
                assert(set![i] =~= Set::<int>::empty().insert(i));
            }
        },
    }
}

/// No element is further from the top than there are slots.
proof fn lemma_height_bound(t: &Tree, i: int)
    requires
        t.wf(),
        t.live(i),
    ensures
        t.height(i) < t.slot_count(),
{
    lemma_chain_set(t, i);
    let range = vstd::set_lib::set_int_range(0, t.slot_count() as int);
    vstd::set_lib::lemma_int_range(0, t.slot_count() as int);
    assert(chain_set(t, i).subset_of(range));
    vstd::set_lib::lemma_len_subset(chain_set(t, i), range);
}

/// The elements of the subtree at `i` with each element after everything
/// under it: the subtree of each child in turn, then `i`, going at most
/// `levels` levels down.
pub open spec fn subtree_post_order(t: &Tree, i: int, levels: nat) -> Seq<usize>
    decreases levels, 0nat, 0nat,
{
    if levels == 0 {
        Seq::empty()
    } else {
        forest_post_order(t, t.kids_of(i), (levels - 1) as nat) + seq![i as usize]
    }
}

/// The subtrees at `roots`, one after another, each with every element after
/// everything under it.
pub open spec fn forest_post_order(t: &Tree, roots: Seq<usize>, levels: nat) -> Seq<usize>
    decreases levels, 1nat, roots.len(),
{
    if roots.len() == 0 {
        Seq::empty()
    } else {
        subtree_post_order(t, roots[0] as int, levels) + forest_post_order(
            t,
            roots.drop_first(),
            levels,
        )
    }
}

/// The subtrees of two runs of roots, one run after the other.
proof fn lemma_forest_post_concat(t: &Tree, a: Seq<usize>, b: Seq<usize>, levels: nat)
    ensures
        forest_post_order(t, a + b, levels) == forest_post_order(t, a, levels) + forest_post_order(
            t,
            b,
            levels,
        ),
    decreases a.len(),
{
    if a.len() == 0 {
        assert(a + b =~= b);
    } else {
        lemma_forest_post_concat(t, a.drop_first(), b, levels);
        assert((a + b).drop_first() =~= a.drop_first() + b);
        assert((a + b)[0] == a[0]);
    }
}

/// What two sequences joined hold.
proof fn lemma_concat_contains(a: Seq<usize>, b: Seq<usize>, x: usize)
    ensures
        (a + b).contains(x) == (a.contains(x) || b.contains(x)),
{
    if (a + b).contains(x) {
        let q = choose|q: int| 0 <= q < (a + b).len() && (a + b)[q] == x;
        if q < a.len() {
            assert(a[q] == x);
        } else {
            assert(b[q - a.len()] == x);
        }
    }
    if a.contains(x) {
        let q = choose|q: int| 0 <= q < a.len() && a[q] == x;
        assert((a + b)[q] == x);
    }
    if b.contains(x) {
        let q = choose|q: int| 0 <= q < b.len() && b[q] == x;
        assert((a + b)[q + a.len()] == x);
    }
}

/// An element of the subtrees at `roots` is in the subtree of one of them.
proof fn lemma_forest_post_member(t: &Tree, roots: Seq<usize>, levels: nat, x: usize)
    requires
        forest_post_order(t, roots, levels).contains(x),
    ensures
        exists|q: int|
            0 <= q < roots.len() && #[trigger] subtree_post_order(t, roots[q] as int, levels).contains(
                x,
            ),
    decreases roots.len(),
{
    if roots.len() > 0 {
        let first = subtree_post_order(t, roots[0] as int, levels);
        let rest = forest_post_order(t, roots.drop_first(), levels);
        lemma_concat_contains(first, rest, x);
        if first.contains(x) {
            assert(subtree_post_order(t, roots[0] as int, levels).contains(x));
        } else {
            lemma_forest_post_member(t, roots.drop_first(), levels, x);
            let q = choose|q: int|
                0 <= q < roots.drop_first().len() && #[trigger] subtree_post_order(
                    t,
                    roots.drop_first()[q] as int,
                    levels,
                ).contains(x);
            assert(roots.drop_first()[q] == roots[q + 1]);
            assert(subtree_post_order(t, roots[q + 1] as int, levels).contains(x));
        }
    }
}

/// An element of the subtrees at `roots` is in the subtree of one of them.
proof fn lemma_forest_pre_member(t: &Tree, roots: Seq<usize>, levels: nat, x: usize)
    requires
        forest_order(t, roots, levels).contains(x),
    ensures
        exists|q: int|
            0 <= q < roots.len() && #[trigger] subtree_order(t, roots[q] as int, levels).contains(
                x,
            ),
    decreases roots.len(),
{
    if roots.len() > 0 {
        let first = subtree_order(t, roots[0] as int, levels);
        let rest = forest_order(t, roots.drop_first(), levels);
        lemma_concat_contains(first, rest, x);
        if first.contains(x) {
            assert(subtree_order(t, roots[0] as int, levels).contains(x));
        } else {
            lemma_forest_pre_member(t, roots.drop_first(), levels, x);
            let q = choose|q: int|
                0 <= q < roots.drop_first().len() && #[trigger] subtree_order(
                    t,
                    roots.drop_first()[q] as int,
                    levels,
                ).contains(x);
            assert(roots.drop_first()[q] == roots[q + 1]);
            assert(subtree_order(t, roots[q + 1] as int, levels).contains(x));
        }
    }
}

/// Every element of a subtree, taken in tree order, is a live element at or
/// under its top.
proof fn lemma_pre_members(t: &Tree, i: usize, levels: nat, x: usize)
    requires
        t.wf(),
        t.live(i as int),
        subtree_order(t, i as int, levels).contains(x),
    ensures
        t.live(x as int),
        ancestor_or_self(t, x as int, i as int),
    decreases levels,
{
    if levels > 0 {
        let below = (levels - 1) as nat;
        let kids = t.kids_of(i as int);
        let f = forest_order(t, kids, below);
        lemma_concat_contains(seq![i], f, x);
        if f.contains(x) {
            lemma_forest_pre_member(t, kids, below, x);
            let q = choose|q: int|
                0 <= q < kids.len() && #[trigger] subtree_order(t, kids[q] as int, below).contains(
                    x,
                );
            let c = kids[q];
            lemma_kid(t, i, q);
            lemma_pre_members(t, c, below, x);
            lemma_ancestor_trans(t, x as int, c as int, i as int);
        } else {
            assert(seq![i].contains(x));
            assert(seq![i][0] == i);
            assert(x == i);
        }
    }
}

/// An element of the subtree of one root is an element of the subtrees of
/// all of them.
proof fn lemma_forest_pre_has(t: &Tree, roots: Seq<usize>, levels: nat, q: int, x: usize)
    requires
        0 <= q < roots.len(),
        subtree_order(t, roots[q] as int, levels).contains(x),
    ensures
        forest_order(t, roots, levels).contains(x),
    decreases q,
{
    let first = subtree_order(t, roots[0] as int, levels);
    let rest = forest_order(t, roots.drop_first(), levels);
    if q > 0 {
        assert(roots.drop_first()[q - 1] == roots[q]);
        lemma_forest_pre_has(t, roots.drop_first(), levels, q - 1, x);
    }
    lemma_concat_contains(first, rest, x);
}

/// A subtree taken at least one level deep holds its top.
proof fn lemma_pre_has_top(t: &Tree, i: usize, levels: nat)
    requires
        levels >= 1,
    ensures
        subtree_order(t, i as int, levels).contains(i),
{
    let f = forest_order(t, t.kids_of(i as int), (levels - 1) as nat);
    assert((seq![i] + f)[0] == i);
}

/// Going one level deeper reaches the children of what was reached.
proof fn lemma_pre_step(t: &Tree, i: usize, levels: nat, p: usize, qk: int)
    requires
        t.wf(),
        t.live(i as int),
        subtree_order(t, i as int, levels).contains(p),
        0 <= qk < t.kids_of(p as int).len(),
    ensures
        subtree_order(t, i as int, levels + 1).contains(t.kids_of(p as int)[qk]),
    decreases levels,
{
    let k = t.kids_of(p as int)[qk];
    let below = (levels - 1) as nat;
    let kids = t.kids_of(i as int);
    let f = forest_order(t, kids, below);
    lemma_concat_contains(seq![i], f, p);
    let g = forest_order(t, kids, levels);
    if f.contains(p) {
        lemma_forest_pre_member(t, kids, below, p);
        let q = choose|q: int|
            0 <= q < kids.len() && #[trigger] subtree_order(t, kids[q] as int, below).contains(p);
        lemma_kid(t, i, q);
        lemma_pre_step(t, kids[q], below, p, qk);
        lemma_forest_pre_has(t, kids, levels, q, k);
    } else {
        assert(seq![i][0] == i);
        assert(p == i);
        lemma_pre_has_top(t, k, levels);
        lemma_forest_pre_has(t, kids, levels, qk, k);
    }
    lemma_concat_contains(seq![i], g, k);
}

/// A subtree taken deep enough holds every element under its top.
proof fn lemma_pre_covers(t: &Tree, i: usize, k: usize, levels: nat)
    requires
        t.wf(),
        t.live(i as int),
        t.live(k as int),
        ancestor_or_self(t, k as int, i as int),
        levels >= t.height(k as int) - t.height(i as int) + 1,
    ensures
        subtree_order(t, i as int, levels).contains(k),
    decreases t.height(k as int),
{
    if k == i {
        lemma_pre_has_top(t, i, levels);
    } else {
        lemma_ancestor_step(t, k as int, i as int);
        let p = t.parent_of(k as int).unwrap();
        assert(t.parents@[k as int] == Some(p));
        lemma_ancestor_height(t, p as int, i as int);
        lemma_pre_covers(t, i, p, (levels - 1) as nat);
        assert(k < t.slot_count());
        lemma_children_have_their_parent(t, p, k);
        let qk = choose|qk: int| 0 <= qk < t.kids_of(p as int).len() && t.kids_of(p as int)[qk] == k;
        lemma_pre_step(t, i, (levels - 1) as nat, p, qk);
    }
}

/// Ancestry is transitive.
proof fn lemma_ancestor_trans(t: &Tree, x: int, c: int, i: int)
    requires
        ancestor_or_self(t, x, c),
        ancestor_or_self(t, c, i),
    ensures
        ancestor_or_self(t, x, i),
    decreases t.height(x),
{
    if x != c {
        match t.parent_of(x) {
            Some(p) => {
                lemma_ancestor_trans(t, p as int, c, i);
            },
            None => {},
        }
    }
}

/// Two ancestors of one element are one above the other.
proof fn lemma_ancestor_linear(t: &Tree, x: int, a: int, b: int)
    requires
        ancestor_or_self(t, x, a),
        ancestor_or_self(t, x, b),
    ensures
        ancestor_or_self(t, a, b) || ancestor_or_self(t, b, a),
    decreases t.height(x),
{
    if x != a && x != b {
        match t.parent_of(x) {
            Some(p) => {
                lemma_ancestor_linear(t, p as int, a, b);
            },
            None => {},
        }
    }
}

/// A child of a live element is live and has it as its parent.
proof fn lemma_kid(t: &Tree, i: usize, q: int)
    requires
        t.wf(),
        t.live(i as int),
        0 <= q < t.kids_of(i as int).len(),
    ensures
        t.kids_of(i as int)[q] < t.slot_count(),
        t.live(t.kids_of(i as int)[q] as int),
        t.parent_of(t.kids_of(i as int)[q] as int) == Some(i),
        t.height(i as int) < t.height(t.kids_of(i as int)[q] as int),
        ancestor_or_self(t, t.kids_of(i as int)[q] as int, i as int),
{
    let k = t.kids_of(i as int)[q];
    assert(t.kids@[i as int]@[q] == k);
    assert(k < t.slot_count());
    assert(t.kids_of(i as int).contains(k));
    lemma_children_have_their_parent(t, i, k);
    lemma_ancestor_step(t, k as int, i as int);
}

/// Every element of a subtree, taken in post-order, is a live element at or
/// under its top.
proof fn lemma_post_members(t: &Tree, i: usize, levels: nat, x: usize)
    requires
        t.wf(),
        t.live(i as int),
        subtree_post_order(t, i as int, levels).contains(x),
    ensures
        t.live(x as int),
        ancestor_or_self(t, x as int, i as int),
    decreases levels,
{
    if levels > 0 {
        let below = (levels - 1) as nat;
        let kids = t.kids_of(i as int);
        let f = forest_post_order(t, kids, below);
        lemma_concat_contains(f, seq![i], x);
        if f.contains(x) {
            lemma_forest_post_member(t, kids, below, x);
            let q = choose|q: int|
                0 <= q < kids.len() && #[trigger] subtree_post_order(t, kids[q] as int, below).contains(
                    x,
                );
            let c = kids[q];
            lemma_kid(t, i, q);
            lemma_post_members(t, c, below, x);
            lemma_ancestor_trans(t, x as int, c as int, i as int);
        } else {
            assert(seq![i].contains(x));
            assert(seq![i][0] == i);
            assert(x == i);
        }
    }
}

/// The subtrees of live siblings, in post-order, repeat no element.
proof fn lemma_forest_post_distinct(t: &Tree, roots: Seq<usize>, above: usize, levels: nat)
    requires
        t.wf(),
        t.live(above as int),
        roots.no_duplicates(),
        forall|q: int|
            0 <= q < roots.len() ==> t.live(#[trigger] roots[q] as int) && t.parent_of(
                roots[q] as int,
            ) == Some(above),
    ensures
        forest_post_order(t, roots, levels).no_duplicates(),
    decreases levels, 1nat, roots.len(),
{
    if roots.len() > 0 {
        let r = roots[0];
        let rest = roots.drop_first();
        assert(t.live(r as int));
        assert(rest.no_duplicates()) by {
            assert forall|a: int, b: int| 0 <= a < rest.len() && 0 <= b < rest.len() && a != b implies rest[a]
                != rest[b] by {
                assert(rest[a] == roots[a + 1] && rest[b] == roots[b + 1]);
            }
        }
        assert forall|q: int| 0 <= q < rest.len() implies t.live(#[trigger] rest[q] as int)
            && t.parent_of(rest[q] as int) == Some(above) by {
            assert(rest[q] == roots[q + 1]);
        }
        lemma_post_distinct(t, r, levels);
        lemma_forest_post_distinct(t, rest, above, levels);
        let a = subtree_post_order(t, r as int, levels);
        let b = forest_post_order(t, rest, levels);
        assert forall|u: int, v: int| 0 <= u < a.len() && 0 <= v < b.len() implies a[u] != b[v] by {
            if a[u] == b[v] {
                let x = a[u];
                assert(a.contains(x));
                assert(b.contains(x));
                lemma_post_members(t, r, levels, x);
                lemma_forest_post_member(t, rest, levels, x);
                let q = choose|q: int|
                    0 <= q < rest.len() && #[trigger] subtree_post_order(
                        t,
                        rest[q] as int,
                        levels,
                    ).contains(x);
                let s = rest[q];
                assert(s == roots[q + 1]);
                assert(s != r);
                lemma_post_members(t, s, levels, x);
                lemma_ancestor_linear(t, x as int, r as int, s as int);
                lemma_ancestor_step(t, r as int, s as int);
                lemma_ancestor_step(t, s as int, r as int);
                if ancestor_or_self(t, r as int, s as int) {
                    lemma_ancestor_height(t, above as int, s as int);
                } else {
                    lemma_ancestor_height(t, above as int, r as int);
                }
            }
        }
        vstd::seq_lib::lemma_no_dup_in_concat(a, b);
    }
}

/// An element of the subtree of one root is an element of the subtrees of
/// all of them.
proof fn lemma_forest_post_has(t: &Tree, roots: Seq<usize>, levels: nat, q: int, x: usize)
    requires
        0 <= q < roots.len(),
        subtree_post_order(t, roots[q] as int, levels).contains(x),
    ensures
        forest_post_order(t, roots, levels).contains(x),
    decreases q,
{
    let first = subtree_post_order(t, roots[0] as int, levels);
    let rest = forest_post_order(t, roots.drop_first(), levels);
    if q > 0 {
        assert(roots.drop_first()[q - 1] == roots[q]);
        lemma_forest_post_has(t, roots.drop_first(), levels, q - 1, x);
    }
    lemma_concat_contains(first, rest, x);
}

/// A subtree taken at least one level deep holds its top.
proof fn lemma_post_has_top(t: &Tree, i: usize, levels: nat)
    requires
        levels >= 1,
    ensures
        subtree_post_order(t, i as int, levels).contains(i),
{
    let f = forest_post_order(t, t.kids_of(i as int), (levels - 1) as nat);
    assert((f + seq![i])[f.len() as int] == i);
}

/// Going one level deeper reaches the children of what was reached.
proof fn lemma_post_step(t: &Tree, i: usize, levels: nat, p: usize, qk: int)
    requires
        t.wf(),
        t.live(i as int),
        subtree_post_order(t, i as int, levels).contains(p),
        0 <= qk < t.kids_of(p as int).len(),
    ensures
        subtree_post_order(t, i as int, levels + 1).contains(t.kids_of(p as int)[qk]),
    decreases levels,
{
    let k = t.kids_of(p as int)[qk];
    let below = (levels - 1) as nat;
    let kids = t.kids_of(i as int);
    let f = forest_post_order(t, kids, below);
    lemma_concat_contains(f, seq![i], p);
    let g = forest_post_order(t, kids, levels);
    if f.contains(p) {
        lemma_forest_post_member(t, kids, below, p);
        let q = choose|q: int|
            0 <= q < kids.len() && #[trigger] subtree_post_order(t, kids[q] as int, below).contains(p);
        lemma_kid(t, i, q);
        lemma_post_step(t, kids[q], below, p, qk);
        lemma_forest_post_has(t, kids, levels, q, k);
    } else {
        assert(seq![i][0] == i);
        assert(p == i);
        lemma_post_has_top(t, k, levels);
        lemma_forest_post_has(t, kids, levels, qk, k);
    }
    lemma_concat_contains(g, seq![i], k);
}

/// A subtree taken deep enough holds every element under its top.
proof fn lemma_post_covers(t: &Tree, i: usize, k: usize, levels: nat)
    requires
        t.wf(),
        t.live(i as int),
        t.live(k as int),
        ancestor_or_self(t, k as int, i as int),
        levels >= t.height(k as int) - t.height(i as int) + 1,
    ensures
        subtree_post_order(t, i as int, levels).contains(k),
    decreases t.height(k as int),
{
    if k == i {
        lemma_post_has_top(t, i, levels);
    } else {
        lemma_ancestor_step(t, k as int, i as int);
        let p = t.parent_of(k as int).unwrap();
        assert(t.parents@[k as int] == Some(p));
        lemma_ancestor_height(t, p as int, i as int);
        lemma_post_covers(t, i, p, (levels - 1) as nat);
        assert(k < t.slot_count());
        lemma_children_have_their_parent(t, p, k);
        let qk = choose|qk: int| 0 <= qk < t.kids_of(p as int).len() && t.kids_of(p as int)[qk] == k;
        lemma_post_step(t, i, (levels - 1) as nat, p, qk);
    }
}

/// The subtree of a live element, in post-order, repeats no element.
proof fn lemma_post_distinct(t: &Tree, i: usize, levels: nat)
    requires
        t.wf(),
        t.live(i as int),
    ensures
        subtree_post_order(t, i as int, levels).no_duplicates(),
    decreases levels, 0nat, 0nat,
{
    if levels > 0 {
        let below = (levels - 1) as nat;
        let kids = t.kids_of(i as int);
        assert(t.kids@[i as int]@.no_duplicates());
        assert forall|q: int| 0 <= q < kids.len() implies t.live(#[trigger] kids[q] as int)
            && t.parent_of(kids[q] as int) == Some(i) by {
            lemma_kid(t, i, q);
        }
        lemma_forest_post_distinct(t, kids, i, below);
        let f = forest_post_order(t, kids, below);
        if f.contains(i) {
            lemma_forest_post_member(t, kids, below, i);
            let q = choose|q: int|
                0 <= q < kids.len() && #[trigger] subtree_post_order(t, kids[q] as int, below).contains(
                    i,
                );
            lemma_kid(t, i, q);
            lemma_post_members(t, kids[q], below, i);
            lemma_ancestor_height(t, i as int, kids[q] as int);
        }
        lemma_push_no_dup(f, i);
    }
}

/// The subtrees of live siblings, in tree order, repeat no element.
proof fn lemma_forest_pre_distinct(t: &Tree, roots: Seq<usize>, above: usize, levels: nat)
    requires
        t.wf(),
        t.live(above as int),
        roots.no_duplicates(),
        forall|q: int|
            0 <= q < roots.len() ==> t.live(#[trigger] roots[q] as int) && t.parent_of(
                roots[q] as int,
            ) == Some(above),
    ensures
        forest_order(t, roots, levels).no_duplicates(),
    decreases levels, 1nat, roots.len(),
{
    if roots.len() > 0 {
        let r = roots[0];
        let rest = roots.drop_first();
        assert(t.live(r as int));
        assert(rest.no_duplicates()) by {
            assert forall|a: int, b: int| 0 <= a < rest.len() && 0 <= b < rest.len() && a != b implies rest[a]
                != rest[b] by {
                assert(rest[a] == roots[a + 1] && rest[b] == roots[b + 1]);
            }
        }
        assert forall|q: int| 0 <= q < rest.len() implies t.live(#[trigger] rest[q] as int)
            && t.parent_of(rest[q] as int) == Some(above) by {
            assert(rest[q] == roots[q + 1]);
        }
        lemma_pre_distinct(t, r, levels);
        lemma_forest_pre_distinct(t, rest, above, levels);
        let a = subtree_order(t, r as int, levels);
        let b = forest_order(t, rest, levels);
        assert forall|u: int, v: int| 0 <= u < a.len() && 0 <= v < b.len() implies a[u] != b[v] by {
            if a[u] == b[v] {
                let x = a[u];
                assert(a.contains(x));
                assert(b.contains(x));
                lemma_pre_members(t, r, levels, x);
                lemma_forest_pre_member(t, rest, levels, x);
                let q = choose|q: int|
                    0 <= q < rest.len() && #[trigger] subtree_order(
                        t,
                        rest[q] as int,
                        levels,
                    ).contains(x);
                let s = rest[q];
                assert(s == roots[q + 1]);
                assert(s != r);
                lemma_pre_members(t, s, levels, x);
                lemma_ancestor_linear(t, x as int, r as int, s as int);
                lemma_ancestor_step(t, r as int, s as int);
                lemma_ancestor_step(t, s as int, r as int);
                if ancestor_or_self(t, r as int, s as int) {
                    lemma_ancestor_height(t, above as int, s as int);
                } else {
                    lemma_ancestor_height(t, above as int, r as int);
                }
            }
        }
        vstd::seq_lib::lemma_no_dup_in_concat(a, b);
    }
}

/// The subtree of a live element, in tree order, repeats no element.
proof fn lemma_pre_distinct(t: &Tree, i: usize, levels: nat)
    requires
        t.wf(),
        t.live(i as int),
    ensures
        subtree_order(t, i as int, levels).no_duplicates(),
    decreases levels, 0nat, 0nat,
{
    if levels > 0 {
        let below = (levels - 1) as nat;
        let kids = t.kids_of(i as int);
        assert(t.kids@[i as int]@.no_duplicates());
        assert forall|q: int| 0 <= q < kids.len() implies t.live(#[trigger] kids[q] as int)
            && t.parent_of(kids[q] as int) == Some(i) by {
            lemma_kid(t, i, q);
        }
        lemma_forest_pre_distinct(t, kids, i, below);
        let f = forest_order(t, kids, below);
        if f.contains(i) {
            lemma_forest_pre_member(t, kids, below, i);
            let q = choose|q: int|
                0 <= q < kids.len() && #[trigger] subtree_order(t, kids[q] as int, below).contains(
                    i,
                );
            lemma_kid(t, i, q);
            lemma_pre_members(t, kids[q], below, i);
            lemma_ancestor_height(t, i as int, kids[q] as int);
        }
        assert forall|u: int, v: int| 0 <= u < seq![i].len() && 0 <= v < f.len() implies seq![i][u]
            != f[v] by {
            if seq![i][u] == f[v] {
                assert(f.contains(i));
            }
        }
        vstd::seq_lib::lemma_no_dup_in_concat(seq![i], f);
    }
}

/// Law: taken as many levels deep as there are slots, the subtree of a live
/// element in tree order holds exactly the live elements at or under it,
/// each once.
pub proof fn lemma_tree_order_holds_the_subtree(t: &Tree, i: usize, k: usize)
    requires
        t.wf(),
        t.live(i as int),
    ensures
        subtree_order(t, i as int, t.slot_count()).contains(k) == (t.live(k as int)
            && ancestor_or_self(t, k as int, i as int)),
        subtree_order(t, i as int, t.slot_count()).no_duplicates(),
{
    lemma_pre_distinct(t, i, t.slot_count());
    if subtree_order(t, i as int, t.slot_count()).contains(k) {
        lemma_pre_members(t, i, t.slot_count(), k);
    }
    if t.live(k as int) && ancestor_or_self(t, k as int, i as int) {
        lemma_height_bound(t, k as int);
        lemma_pre_covers(t, i, k, t.slot_count());
    }
}

/// Law: taken as many levels deep as there are slots, the subtree of a live
/// element in post-order holds exactly the live elements at or under it,
/// each once.
pub proof fn lemma_post_order_holds_the_subtree(t: &Tree, i: usize, k: usize)
    requires
        t.wf(),
        t.live(i as int),
    ensures
        subtree_post_order(t, i as int, t.slot_count()).contains(k) == (t.live(k as int)
            && ancestor_or_self(t, k as int, i as int)),
        subtree_post_order(t, i as int, t.slot_count()).no_duplicates(),
{
    if subtree_post_order(t, i as int, t.slot_count()).contains(k) {
        lemma_post_members(t, i, t.slot_count(), k);
    }
    if t.live(k as int) && ancestor_or_self(t, k as int, i as int) {
        lemma_height_bound(t, k as int);
        lemma_post_covers(t, i, k, t.slot_count());
    }
    lemma_post_distinct(t, i, t.slot_count());
}

/// What a sequence holds after a push.
proof fn lemma_push_contains(s: Seq<usize>, x: usize, y: usize)
    ensures
        s.push(x).contains(y) == (s.contains(y) || y == x),
{
    if s.push(x).contains(y) {
        let q = choose|q: int| 0 <= q < s.push(x).len() && s.push(x)[q] == y;
        if q < s.len() {
            assert(s[q] == y);
        }
    }
    if s.contains(y) {
        let q = choose|q: int| 0 <= q < s.len() && s[q] == y;
        assert(s.push(x)[q] == y);
    }
    assert(s.push(x)[s.len() as int] == x);
}

/// Pushing a new entry keeps a sequence free of repeats.
proof fn lemma_push_no_dup(s: Seq<usize>, x: usize)
    requires
        s.no_duplicates(),
        !s.contains(x),
    ensures
        s.push(x).no_duplicates(),
{
    assert forall|a: int, b: int| 0 <= a < s.push(x).len() && 0 <= b < s.push(x).len() && a != b implies s.push(x)[a] != s.push(x)[b] by {
        if a < s.len() && b < s.len() {
            assert(s[a] != s[b]);
        } else if a < s.len() {
            assert(s[a] == s.push(x)[a]);
        } else if b < s.len() {
            assert(s[b] == s.push(x)[b]);
        }
    }
}

/// Dropping entries keeps a sequence free of repeats.
proof fn lemma_without_no_dup(s: Seq<usize>, x: usize)
    requires
        s.no_duplicates(),
    ensures
        without(s, x).no_duplicates(),
    decreases s.len(),
{
    if s.len() > 0 {
        let d = s.drop_last();
        assert(d.no_duplicates()) by {
            assert forall|a: int, b: int| 0 <= a < d.len() && 0 <= b < d.len() && a != b implies d[a] != d[b] by {
                assert(d[a] == s[a] && d[b] == s[b]);
            }
        }
        lemma_without_no_dup(d, x);
        if s.last() != x {
            lemma_without_contains(d, x, s.last());
            if d.contains(s.last()) {
                let q = choose|q: int| 0 <= q < d.len() && d[q] == s.last();
                assert(s[q] == s[s.len() - 1]);
            }
            lemma_push_no_dup(without(d, x), s.last());
        }
    }
}

/// What is left by `without`: every other entry.
proof fn lemma_without_contains(s: Seq<usize>, x: usize, y: usize)
    ensures
        without(s, x).contains(y) == (s.contains(y) && y != x),
    decreases s.len(),
{
    if s.len() > 0 {
        lemma_without_contains(s.drop_last(), x, y);
        let rest = without(s.drop_last(), x);
        lemma_push_contains(rest, s.last(), y);
        lemma_push_contains(s.drop_last(), s.last(), y);
        assert(s.drop_last().push(s.last()) =~= s);
    }
}

/// Every entry left by `without` was an entry before.
proof fn lemma_without_within(s: Seq<usize>, x: usize, bound: int)
    requires
        forall|j: int| 0 <= j < s.len() ==> s[j] < bound,
    ensures
        forall|j: int| 0 <= j < without(s, x).len() ==> #[trigger] without(s, x)[j] < bound,
    decreases s.len(),
{
    if s.len() > 0 {
        assert forall|j: int| 0 <= j < s.drop_last().len() implies s.drop_last()[j] < bound by {
            assert(s.drop_last()[j] == s[j]);
        }
        lemma_without_within(s.drop_last(), x, bound);
        assert(s.last() == s[s.len() - 1]);
        let rest = without(s.drop_last(), x);
        if s.last() != x {
            assert forall|j: int| 0 <= j < rest.push(s.last()).len() implies #[trigger] rest.push(
                s.last(),
            )[j] < bound by {
                if j < rest.len() {
                    assert(rest.push(s.last())[j] == rest[j]);
                }
            }
        }
    }
}

/// Whether removing `id` takes the element in slot `m` with it: it is `id`
/// or lies under it.
pub open spec fn goes_with(t: &Tree, m: int, id: int) -> bool {
    t.live(m) && ancestor_or_self(t, m, id)
}

/// Whether `v` holds `x`.
fn holds(v: &Vec<usize>, x: usize) -> (b: bool)
    ensures
        b == v@.contains(x),
{
    let mut k: usize = 0;
    while k < v.len()
        invariant
            k <= v@.len(),
            forall|j: int| 0 <= j < k ==> v@[j] != x,
        decreases v@.len() - k,
    {
        if v[k] == x {
            assert(v@[k as int] == x);
            return true;
        }
        k = k + 1;
    }
    false
}

/// How far a walk up from `current` still has to go.
spec fn walk_measure(t: &Tree, current: Option<usize>) -> nat {
    match current {
        Some(c) => t.height(c as int) + 1,
        None => 0,
    }
}

impl Tree {
    /// An empty tree.
    pub fn new() -> (t: Tree)
        ensures
            t.wf(),
            t.slot_count() == 0,
            t.free_slots() == Seq::<usize>::empty(),
            t.focused() is None,
            focus_marked(&t),
    {
        Tree {
            live: Vec::new(),
            parents: Vec::new(),
            kids: Vec::new(),
            states: Vec::new(),
            free: Vec::new(),
            focus: None,
            depth: Ghost(Seq::empty()),
        }
    }

    /// Removes every element.
    pub fn clear(&mut self)
        ensures
            final(self).wf(),
            final(self).free_slots() == Seq::<usize>::empty(),
            final(self).slot_count() == 0,
            final(self).focused() is None,
            focus_marked(&*final(self)),
    {
        *self = Tree::new();
    }

    /// Whether `id` names an element of the tree.
    pub fn contains(&self, id: usize) -> (b: bool)
        requires
            self.wf(),
        ensures
            b == self.live(id as int),
    {
        id < self.live.len() && self.live[id]
    }

    pub fn parent(&self, id: usize) -> (p: Option<usize>)
        requires
            self.wf(),
            self.live(id as int),
        ensures
            p == self.parent_of(id as int),
    {
        self.parents[id]
    }

    pub fn children(&self, id: usize) -> (c: &[usize])
        requires
            self.wf(),
            self.live(id as int),
        ensures
            c@ == self.kids_of(id as int),
    {
        self.kids[id].as_slice()
    }

    /// The state the toolkit tracks for `id`.
    pub fn state(&self, id: usize) -> (s: ElementState)
        requires
            self.wf(),
            self.live(id as int),
        ensures
            s.spec_bits() == self.bits(id as int),
    {
        self.states[id]
    }

    pub fn focus(&self) -> (f: Option<usize>)
        ensures
            f == self.focused(),
    {
        self.focus
    }

    /// The elements an event bubbles through from `start`: `start` itself,
    /// then each parent in turn up to the top of its tree.
    pub fn path_up(&self, start: usize) -> (path: Vec<usize>)
        requires
            self.wf(),
            self.live(start as int),
        ensures
            path@.len() >= 1,
            path@[0] == start,
            forall|k: int|
                0 <= k < path@.len() - 1 ==> self.parent_of(#[trigger] path@[k] as int) == Some(
                    path@[k + 1],
                ),
            self.parent_of(path@.last() as int) is None,
            forall|k: int| 0 <= k < path@.len() ==> self.live(#[trigger] path@[k] as int),
    {
        let mut path: Vec<usize> = Vec::new();
        path.push(start);
        let mut current = self.parents[start];
        while current.is_some()
            invariant
                self.wf(),
                path@.len() >= 1,
                path@[0] == start,
                forall|k: int|
                    0 <= k < path@.len() - 1 ==> self.parent_of(#[trigger] path@[k] as int)
                        == Some(path@[k + 1]),
                current == self.parent_of(path@.last() as int),
                forall|k: int| 0 <= k < path@.len() ==> self.live(#[trigger] path@[k] as int),
            decreases walk_measure(self, current),
        {
            let id = current.unwrap();
            let ghost last = path@.last();
            assert(self.live(last as int));
            path.push(id);
            current = self.parents[id];
        }
        path
    }

    /// Appends the subtree at `i` in tree order, going at most `levels`
    /// levels down.
    fn append_subtree(&self, i: usize, levels: usize, out: &mut Vec<usize>)
        requires
            self.wf(),
            i < self.slot_count(),
        ensures
            final(out)@ == old(out)@ + subtree_order(self, i as int, levels as nat),
        decreases levels,
    {
        if levels == 0 {
            assert(out@ =~= out@ + Seq::<usize>::empty());
            return;
        }
        let ghost before = out@;
        let ghost kids = self.kids_of(i as int);
        let ghost below = (levels - 1) as nat;
        out.push(i);
        let mut j: usize = 0;
        while j < self.kids[i].len()
            invariant
                self.wf(),
                i < self.slot_count(),
                levels > 0,
                below == levels - 1,
                kids == self.kids_of(i as int),
                j <= kids.len(),
                out@ == before + seq![i] + forest_order(self, kids.take(j as int), below),
            decreases kids.len() - j,
        {
            let k = self.kids[i][j];
            assert(self.kids@[i as int]@[j as int] == k);
            proof {
                lemma_forest_concat(self, kids.take(j as int), seq![k], below);
                assert(kids.take(j + 1) =~= kids.take(j as int) + seq![k]);
                assert(seq![k].drop_first() =~= Seq::<usize>::empty());
                assert(seq![k][0] == k);
                assert(forest_order(self, Seq::<usize>::empty(), below) == Seq::<usize>::empty());
                assert(subtree_order(self, k as int, below) + Seq::<usize>::empty() =~= subtree_order(
                    self,
                    k as int,
                    below,
                ));
                assert(forest_order(self, seq![k], below) =~= subtree_order(self, k as int, below));
            }
            self.append_subtree(k, levels - 1, out);
            j = j + 1;
        }
        assert(kids.take(kids.len() as int) =~= kids);
        assert(out@ =~= before + subtree_order(self, i as int, levels as nat));
    }

    /// Appends the subtree at `i` with each element after everything under
    /// it, going at most `levels` levels down.
    fn append_post_order(&self, i: usize, levels: usize, out: &mut Vec<usize>)
        requires
            self.wf(),
            i < self.slot_count(),
        ensures
            final(out)@ == old(out)@ + subtree_post_order(self, i as int, levels as nat),
        decreases levels,
    {
        if levels == 0 {
            assert(out@ =~= out@ + Seq::<usize>::empty());
            return;
        }
        let ghost before = out@;
        let ghost kids = self.kids_of(i as int);
        let ghost below = (levels - 1) as nat;
        let mut j: usize = 0;
        while j < self.kids[i].len()
            invariant
                self.wf(),
                i < self.slot_count(),
                levels > 0,
                below == levels - 1,
                kids == self.kids_of(i as int),
                j <= kids.len(),
                out@ == before + forest_post_order(self, kids.take(j as int), below),
            decreases kids.len() - j,
        {
            let k = self.kids[i][j];
            assert(self.kids@[i as int]@[j as int] == k);
            proof {
                lemma_forest_post_concat(self, kids.take(j as int), seq![k], below);
                assert(kids.take(j + 1) =~= kids.take(j as int) + seq![k]);
                assert(seq![k].drop_first() =~= Seq::<usize>::empty());
                assert(seq![k][0] == k);
                assert(forest_post_order(self, Seq::<usize>::empty(), below) == Seq::<usize>::empty());
                assert(subtree_post_order(self, k as int, below) + Seq::<usize>::empty()
                    =~= subtree_post_order(self, k as int, below));
            }
            self.append_post_order(k, levels - 1, out);
            j = j + 1;
        }
        assert(kids.take(kids.len() as int) =~= kids);
        out.push(i);
        assert(out@ =~= before + subtree_post_order(self, i as int, levels as nat));
    }

    /// `root` and everything under it in tree order: each element before its
    /// children, the children in the order they were mounted, and each
    /// child's whole subtree before the next child. The walk follows the
    /// child lists as many levels down as there are slots.
    pub fn preorder(&self, root: usize) -> (order: Vec<usize>)
        requires
            self.wf(),
            self.live(root as int),
        ensures
            order@ == subtree_order(self, root as int, self.slot_count()),
    {
        let mut order: Vec<usize> = Vec::new();
        self.append_subtree(root, self.live.len(), &mut order);
        assert(order@ =~= subtree_order(self, root as int, self.slot_count()));
        order
    }

    /// Every slot at or above `start`, nearest first.
    #[verifier::spinoff_prover]
    fn chain(&self, start: Option<usize>) -> (chain: Vec<usize>)
        requires
            self.wf(),
            start matches Some(s) ==> self.live(s as int),
        ensures
            forall|i: usize|
                chain@.contains(i) == (start matches Some(s) && ancestor_or_self(
                    self,
                    s as int,
                    i as int,
                )),
    {
        let mut chain: Vec<usize> = Vec::new();
        let mut current = start;
        while current.is_some()
            invariant
                self.wf(),
                current matches Some(c) ==> self.live(c as int),
                forall|i: usize|
                    #![trigger chain@.contains(i)]
                    (start matches Some(s) && ancestor_or_self(self, s as int, i as int)) == (
                    chain@.contains(i) || (current matches Some(c) && ancestor_or_self(
                        self,
                        c as int,
                        i as int,
                    ))),
            decreases walk_measure(self, current),
        {
            let id = current.unwrap();
            let ghost before = chain@;
            chain.push(id);
            let next = self.parents[id];
            proof {
                lemma_ancestor_step(self, id as int, id as int);
                assert forall|i: usize|
                    #![trigger chain@.contains(i)]
                    (start matches Some(s) && ancestor_or_self(self, s as int, i as int)) == (
                    chain@.contains(i) || (next matches Some(c) && ancestor_or_self(
                        self,
                        c as int,
                        i as int,
                    ))) by {
                    assert((start matches Some(s) && ancestor_or_self(self, s as int, i as int)) == (
                    before.contains(i) || ancestor_or_self(self, id as int, i as int)));
                    lemma_ancestor_step(self, id as int, i as int);
                    assert(before.contains(i) ==> chain@.contains(i)) by {
                        if before.contains(i) {
                            let k = choose|k: int| 0 <= k < before.len() && before[k] == i;
                            assert(chain@[k] == i);
                        }
                    }
                    assert(i == id ==> chain@.contains(i)) by {
                        if i == id {
                            assert(chain@[before.len() as int] == i);
                        }
                    }
                    assert(chain@.contains(i) ==> before.contains(i) || i == id) by {
                        if chain@.contains(i) && i != id {
                            let k = choose|k: int| 0 <= k < chain@.len() && chain@[k] == i;
                            assert(before[k] == i);
                        }
                    }
                }
            }
            current = next;
        }
        chain
    }

    /// Puts a new element in a free slot, or a new one, as the last child
    /// of `parent`, or as a top-level element when there is none.
    pub fn mount(&mut self, parent: Option<usize>) -> (id: usize)
        requires
            old(self).wf(),
            parent matches Some(p) ==> old(self).live(p as int),
        ensures
            final(self).wf(),
            !old(self).live(id as int),
            final(self).live(id as int),
            old(self).free_slots().len() > 0 ==> id == old(self).free_slots().last()
                && final(self).free_slots() == old(self).free_slots().drop_last()
                && final(self).slot_count() == old(self).slot_count(),
            old(self).free_slots().len() == 0 ==> id == old(self).slot_count()
                && final(self).free_slots() == old(self).free_slots()
                && final(self).slot_count() == old(self).slot_count() + 1,
            final(self).parent_of(id as int) == parent,
            final(self).kids_of(id as int) == Seq::<usize>::empty(),
            final(self).bits(id as int) == 0,
            forall|m: int|
                m != id ==> #[trigger] final(self).live(m) == old(self).live(m),
            forall|m: int|
                #![trigger old(self).live(m)]
                old(self).live(m) ==> final(self).bits(m) == old(self).bits(m)
                    && final(self).parent_of(m) == old(self).parent_of(m)
                    && final(self).kids_of(m) == (
                if (parent matches Some(p) && p as int == m) {
                    old(self).kids_of(m).push(id)
                } else {
                    old(self).kids_of(m)
                }),
            same_shape_over(&*old(self), &*final(self)),
            final(self).focused() == old(self).focused(),
            focus_marked(&*old(self)) ==> focus_marked(&*final(self)),
    {
        let ghost old_tree = *self;
        let ghost height: nat = match parent {
            Some(p) => self.depth@[p as int] + 1,
            None => 0,
        };
        let id = match self.free.pop() {
            Some(index) => {
                proof {
                    assert(old_tree.free@[old_tree.free@.len() - 1] == index);
                    assert forall|a: int, b: int|
                        0 <= a < b < self.free@.len() implies #[trigger] self.free@[a]
                        != #[trigger] self.free@[b] by {
                        assert(self.free@[a] == old_tree.free@[a]);
                        assert(self.free@[b] == old_tree.free@[b]);
                    }
                    assert forall|k: int| 0 <= k < self.free@.len() implies #[trigger] self.free@[k]
                        != index by {
                        assert(self.free@[k] == old_tree.free@[k]);
                    }
                }
                self.live.set(index, true);
                self.parents.set(index, parent);
                self.kids.set(index, Vec::new());
                self.states.set(index, ElementState::empty());
                self.depth = Ghost(self.depth@.update(index as int, height));
                index
            },
            None => {
                self.live.push(true);
                self.parents.push(parent);
                self.kids.push(Vec::new());
                self.states.push(ElementState::empty());
                self.depth = Ghost(self.depth@.push(height));
                self.live.len() - 1
            },
        };
        let ghost mid = self.kids@;
        if let Some(p) = parent {
            assert(p != id);
            self.kids[p].push(id);
            assert(self.kids@[p as int]@ == mid[p as int]@.push(id));
            assert(forall|m: int| 0 <= m < mid.len() && m != p ==> self.kids@[m] == mid[m]);
        }
        proof {
            let t = *self;
            assert forall|m: int| #![trigger old_tree.live(m)] old_tree.live(m) implies t.kids_of(m)
                == (if (parent matches Some(p) && p as int == m) {
                old_tree.kids_of(m).push(id)
            } else {
                old_tree.kids_of(m)
            }) by {
                assert(m != id);
                assert(mid[m] == old_tree.kids@[m]);
                assert(0 <= m < mid.len());
                match parent {
                    Some(p) => {
                        if m == p as int {
                            assert(t.kids@[m]@ == mid[m]@.push(id));
                        } else {
                            assert(t.kids@[m] == mid[m]);
                        }
                    },
                    None => {
                        assert(t.kids@[m] == mid[m]);
                    },
                }
            }
            let n = t.live@.len();
            assert forall|m: int| 0 <= m < n && m != id implies t.live@[m] == old_tree.live@[m]
                && t.parents@[m] == old_tree.parents@[m] && t.kids@[m]@ == (if (parent matches Some(
                p) && p as int == m) {
                old_tree.kids@[m]@.push(id)
            } else {
                old_tree.kids@[m]@
            }) by {
                assert(mid[m] == old_tree.kids@[m]);
                match parent {
                    Some(p) => {
                        if m == p as int {
                            assert(t.kids@[m]@ == mid[m]@.push(id));
                        } else {
                            assert(t.kids@[m] == mid[m]);
                        }
                    },
                    None => {
                        assert(t.kids@[m] == mid[m]);
                    },
                }
            }
            assert(t.kids@[id as int]@ == Seq::<usize>::empty());
            assert(t.parents@[id as int] == parent);
            assert(t.live@[id as int]);
            assert forall|a: usize, k: usize|
                a < n && t.live@[a as int] && k < n implies (t.kids@[a as int]@.contains(k) == (
                t.live@[k as int] && t.parents@[k as int] == Some(a))) by {
                if a == id {
                    if t.live@[k as int] && t.parents@[k as int] == Some(a) {
                        if k != id {
                            assert(k < old_tree.live@.len());
                            assert(old_tree.live@[k as int]);
                            assert(old_tree.parents@[k as int] == Some(id));
                        }
                    }
                    assert(t.kids@[a as int]@.contains(k) == (t.live@[k as int] && t.parents@[k as int] == Some(a)));
                } else {
                    assert(old_tree.live@[a as int]);
                    assert(a < old_tree.live@.len());
                    let ok = old_tree.kids@[a as int]@;
                    assert(t.live@[a as int] == old_tree.live@[a as int] && t.parents@[a as int] == old_tree.parents@[a as int]);
                    assert(t.kids@[a as int]@ == (if (parent matches Some(p) && p == a) {
                        ok.push(id)
                    } else {
                        ok
                    }));
                    if k == id {
                        if ok.contains(id) {
                            let q = choose|q: int| 0 <= q < ok.len() && ok[q] == id;
                            assert(ok[q] < old_tree.live@.len());
                            assert(old_tree.kids@[a as int]@.contains(id));
                        }
                        assert(!ok.contains(id));
                        match parent {
                            Some(p) => {
                                if a == p {
                                    lemma_push_contains(ok, id, id);
                                }
                            },
                            None => {},
                        }
                        assert(t.kids@[a as int]@.contains(k) == (t.live@[k as int] && t.parents@[k as int] == Some(a)));
                    } else {
                        assert(k < old_tree.live@.len());
                        assert(t.live@[k as int] == old_tree.live@[k as int] && t.parents@[k as int] == old_tree.parents@[k as int]);
                        assert(old_tree.kids@[a as int]@.contains(k) == (old_tree.live@[k as int]
                            && old_tree.parents@[k as int] == Some(a)));
                        match parent {
                            Some(p) => {
                                if a == p {
                                    lemma_push_contains(ok, id, k);
                                }
                            },
                            None => {},
                        }
                        assert(t.kids@[a as int]@.contains(k) == (t.live@[k as int] && t.parents@[k as int] == Some(a)));
                    }
                }
            }
            assert forall|a: int| 0 <= a < n && t.live@[a] implies (#[trigger] t.kids@[a]@).no_duplicates() by {
                if a != id as int {
                    assert(old_tree.live@[a]);
                    let ok = old_tree.kids@[a]@;
                    assert(ok.no_duplicates());
                    match parent {
                        Some(p) => {
                            if a == p as int {
                                assert(a < old_tree.live@.len());
                                if ok.contains(id) {
                                    let q = choose|q: int| 0 <= q < ok.len() && ok[q] == id;
                                    assert(ok[q] < old_tree.live@.len());
                                    assert(old_tree.kids@[(a as usize) as int]@.contains(id));
                                }
                                lemma_push_no_dup(ok, id);
                            }
                        },
                        None => {},
                    }
                }
            }
            assert(same_shape_over(&old_tree, &t));
            assert forall|j: int, i: int| old_tree.live(j) implies ancestor_or_self(&old_tree, j, i)
                == ancestor_or_self(&t, j, i) by {
                lemma_ancestry_frame(&old_tree, &t, j, i);
            }
            if focus_marked(&old_tree) {
                assert forall|k: int| #![trigger t.bits(k)] t.live(k) implies {
                    &&& has_flag(t.bits(k), 4) == (t.focused() matches Some(f) && f as int == k)
                    &&& has_flag(t.bits(k), 8) ==> (t.focused() matches Some(f) && f as int == k)
                    &&& has_flag(t.bits(k), 16) == (match t.focused() {
                        Some(f) => strict_ancestor(&t, f as int, k),
                        None => false,
                    })
                } by {
                    if k == id {
                        assert(t.bits(k) == 0);
                        assert(0u16 & 4 != 4 && 0u16 & 8 != 8 && 0u16 & 16 != 16) by (bit_vector);
                        match t.focused() {
                            Some(f) => {
                                if strict_ancestor(&t, f as int, k) {
                                    let p = t.parent_of(f as int).unwrap();
                                    assert(old_tree.parents@[f as int] == Some(p));
                                    lemma_ancestors_live(&old_tree, p as int, k);
                                }
                            },
                            None => {},
                        }
                    } else {
                        assert(old_tree.bits(k) == t.bits(k));
                        match t.focused() {
                            Some(f) => {
                                assert(old_tree.parents@[f as int] == t.parents@[f as int]);
                                match t.parent_of(f as int) {
                                    Some(p) => {
                                        assert(old_tree.parents@[f as int] == Some(p));
                                        lemma_ancestry_frame(&old_tree, &t, p as int, k);
                                    },
                                    None => {},
                                }
                            },
                            None => {},
                        }
                    }
                }
            }
        }
        id
    }

    /// Sets `flag` on `target` and its ancestors and clears it everywhere
    /// else, the way hover and press follow the pointer.
    pub fn set_chain_state(&mut self, target: Option<usize>, flag: ElementState)
        requires
            old(self).wf(),
            target matches Some(t) ==> old(self).live(t as int),
        ensures
            final(self).wf(),
            final(self).free_slots() == old(self).free_slots(),
            same_structure(&*old(self), &*final(self)),
            forall|m: int|
                #![trigger final(self).bits(m)]
                old(self).live(m) ==> final(self).bits(m) == (if (target matches Some(t)
                    && ancestor_or_self(&*old(self), t as int, m)) {
                    old(self).bits(m) | flag.spec_bits()
                } else {
                    old(self).bits(m) & !flag.spec_bits()
                }),
            flag.spec_bits() & 28 == 0 && focus_marked(&*old(self)) ==> focus_marked(&*final(self)),
    {
        let ghost start = *self;
        let chain = self.chain(target);
        let n = self.live.len();
        let mut k: usize = 0;
        while k < n
            invariant
                n == start.live@.len(),
                k <= n,
                self.live@ == start.live@,
                self.parents@ == start.parents@,
                self.kids@ == start.kids@,
                self.depth@ == start.depth@,
                self.free@ == start.free@,
                self.focus == start.focus,
                self.states@.len() == n,
                forall|i: usize|
                    chain@.contains(i) == (target matches Some(t) && ancestor_or_self(
                        &start,
                        t as int,
                        i as int,
                    )),
                forall|m: int|
                    0 <= m < k && start.live(m) ==> #[trigger] self.states@[m].spec_bits() == (
                    if (target matches Some(t) && ancestor_or_self(&start, t as int, m)) {
                        start.bits(m) | flag.spec_bits()
                    } else {
                        start.bits(m) & !flag.spec_bits()
                    }),
                forall|m: int| k <= m < n ==> #[trigger] self.states@[m] == start.states@[m],
            decreases n - k,
        {
            if self.live[k] {
                let on = holds(&chain, k);
                let mut state = self.states[k];
                state.set(flag, on);
                self.states.set(k, state);
            }
            k = k + 1;
        }
        proof {
            let t = *self;
            assert forall|m: int|
                #![trigger t.parent_of(m)]
                t.parent_of(m) == start.parent_of(m) && t.height(m) == start.height(m) by {}
            if flag.spec_bits() & 28 == 0 && focus_marked(&start) {
                assert forall|k: int| #![trigger t.bits(k)] t.live(k) implies {
                    &&& has_flag(t.bits(k), 4) == (t.focused() matches Some(f) && f as int == k)
                    &&& has_flag(t.bits(k), 8) ==> (t.focused() matches Some(f) && f as int == k)
                    &&& has_flag(t.bits(k), 16) == (match t.focused() {
                        Some(f) => strict_ancestor(&t, f as int, k),
                        None => false,
                    })
                } by {
                    assert(start.live(k));
                    assert(start.bits(k) == start.states@[k].spec_bits());
                    lemma_other_flag(start.bits(k), flag.spec_bits());
                    match t.focused() {
                        Some(f) => {
                            match t.parent_of(f as int) {
                                Some(p) => lemma_ancestry_same(&start, &t, p as int, k),
                                None => {},
                            }
                        },
                        None => {},
                    }
                }
            }
        }
    }

    /// Moves keyboard focus to `target`, or takes it away: `:focus` and
    /// `:focus-visible` (when `visible`) go to the target alone and
    /// `:focus-within` to exactly its ancestors; every other flag stays.
    pub fn set_focus(&mut self, target: Option<usize>, visible: bool)
        requires
            old(self).wf(),
            target matches Some(t) ==> old(self).live(t as int),
        ensures
            final(self).wf(),
            final(self).free_slots() == old(self).free_slots(),
            final(self).focused() == target,
            final(self).slot_count() == old(self).slot_count(),
            forall|m: int|
                #![trigger final(self).live(m)]
                final(self).live(m) == old(self).live(m) && final(self).parent_of(m) == old(
                    self,
                ).parent_of(m) && final(self).kids_of(m) == old(self).kids_of(m) && final(self).height(m)
                    == old(self).height(m),
            forall|m: int|
                #![trigger final(self).bits(m)]
                old(self).live(m) ==> final(self).bits(m) & 3 == old(self).bits(m) & 3,
            target matches Some(t) ==> has_flag(final(self).bits(t as int), 8) == visible,
            focus_marked(&*final(self)),
    {
        let ghost start = *self;
        let above = match target {
            Some(t) => {
                proof {
                    lemma_ancestor_step(self, t as int, t as int);
                }
                self.chain(self.parents[t])
            },
            None => Vec::new(),
        };
        self.focus = target;
        let n = self.live.len();
        let mut k: usize = 0;
        while k < n
            invariant
                n == start.live@.len(),
                k <= n,
                self.live@ == start.live@,
                self.parents@ == start.parents@,
                self.kids@ == start.kids@,
                self.depth@ == start.depth@,
                self.free@ == start.free@,
                self.focus == target,
                self.states@.len() == n,
                start.wf(),
                target matches Some(t) ==> start.live(t as int),
                forall|i: usize|
                    above@.contains(i) == (target matches Some(t) && strict_ancestor(
                        &start,
                        t as int,
                        i as int,
                    )),
                forall|m: int|
                    0 <= m < k && start.live(m) ==> {
                        let b = #[trigger] self.states@[m].spec_bits();
                        &&& (b & 4 == 4) == (target matches Some(t) && t as int == m)
                        &&& (b & 8 == 8) == (target matches Some(t) && t as int == m && visible)
                        &&& (b & 16 == 16) == (target matches Some(t) && strict_ancestor(
                            &start,
                            t as int,
                            m,
                        ))
                        &&& b & 3 == start.bits(m) & 3
                    },
                forall|m: int| k <= m < n ==> #[trigger] self.states@[m] == start.states@[m],
            decreases n - k,
        {
            if self.live[k] {
                let mine = match target {
                    Some(t) => t == k,
                    None => false,
                };
                let within = holds(&above, k);
                let mut state = self.states[k];
                let ghost old_bits = state.spec_bits();
                state.remove(
                    ElementState::focus().union(ElementState::focus_visible()).union(
                        ElementState::focus_within(),
                    ),
                );
                let shown = if mine {
                    if visible {
                        ElementState::focus().union(ElementState::focus_visible())
                    } else {
                        ElementState::focus()
                    }
                } else {
                    ElementState::empty()
                };
                state.insert(shown);
                let inner = if within {
                    ElementState::focus_within()
                } else {
                    ElementState::empty()
                };
                state.insert(inner);
                proof {
                    assert(4u16 | 8u16 == 12u16 && (4u16 | 8u16) | 16u16 == 28u16) by (bit_vector);
                    lemma_focus_bits(old_bits, shown.spec_bits(), inner.spec_bits());
                    assert(start.bits(k as int) == old_bits);
                    if within {
                        assert(above@.contains(k));
                    }
                }
                self.states.set(k, state);
            }
            k = k + 1;
        }
        proof {
            let t = *self;
            assert forall|m: int|
                #![trigger t.parent_of(m)]
                t.parent_of(m) == start.parent_of(m) && t.height(m) == start.height(m) by {}
            assert forall|m: int|
                #![trigger t.bits(m)]
                t.live(m) implies {
                &&& has_flag(t.bits(m), 4) == (t.focused() matches Some(f) && f as int == m)
                &&& has_flag(t.bits(m), 8) ==> (t.focused() matches Some(f) && f as int == m)
                &&& has_flag(t.bits(m), 16) == (match t.focused() {
                    Some(f) => strict_ancestor(&t, f as int, m),
                    None => false,
                })
            } by {
                assert(start.live(m));
                match target {
                    Some(f) => {
                        match t.parent_of(f as int) {
                            Some(p) => lemma_ancestry_same(&start, &t, p as int, m),
                            None => {},
                        }
                    },
                    None => {},
                }
            }
            match target {
                Some(f) => {
                    assert(start.live(f as int));
                    assert(t.bits(f as int) == self.states@[f as int].spec_bits());
                },
                None => {},
            }
        }
    }

    /// The nearest element at or above `id` that can take focus, given
    /// which slots can.
    pub fn focusable_from(&self, id: usize, focusable: &[bool]) -> (found: Option<usize>)
        requires
            self.wf(),
            self.live(id as int),
        ensures
            found == nearest_focusable(self, id as int, focusable@),
    {
        let mut current = id;
        loop
            invariant
                self.wf(),
                self.live(current as int),
                nearest_focusable(self, id as int, focusable@) == nearest_focusable(
                    self,
                    current as int,
                    focusable@,
                ),
            decreases self.height(current as int),
        {
            if current < focusable.len() && focusable[current] {
                return Some(current);
            }
            proof {
                lemma_ancestor_step(self, current as int, current as int);
            }
            match self.parents[current] {
                Some(p) => {
                    current = p;
                },
                None => {
                    return None;
                },
            }
        }
    }

    /// `v` without the entries equal to `x`.
    fn drop_entry(v: &Vec<usize>, x: usize) -> (r: Vec<usize>)
        ensures
            r@ == without(v@, x),
    {
        let mut r: Vec<usize> = Vec::new();
        let mut k: usize = 0;
        while k < v.len()
            invariant
                k <= v@.len(),
                r@ == without(v@.subrange(0, k as int), x),
            decreases v@.len() - k,
        {
            assert(v@.subrange(0, k + 1).drop_last() =~= v@.subrange(0, k as int));
            if v[k] != x {
                r.push(v[k]);
            }
            k = k + 1;
        }
        assert(v@.subrange(0, v@.len() as int) =~= v@);
        r
    }

    /// Removes an element and everything under it. Their slots go on the
    /// free list, the element leaves its parent's children, and focus, if it
    /// was among them, goes nowhere.
    pub fn remove(&mut self, id: usize)
        requires
            old(self).wf(),
            old(self).live(id as int),
        ensures
            final(self).wf(),
            forall|m: int|
                #![trigger final(self).live(m)]
                final(self).live(m) == (old(self).live(m) && !goes_with(&*old(self), m, id as int)),
            forall|m: int|
                #![trigger final(self).parent_of(m)]
                final(self).parent_of(m) == old(self).parent_of(m) && final(self).height(m) == old(
                    self,
                ).height(m),
            final(self).free_slots() == old(self).free_slots() + subtree_post_order(
                &*old(self),
                id as int,
                old(self).slot_count(),
            ),
            final(self).focused() == (if (old(self).focused() matches Some(f) && goes_with(
                &*old(self),
                f as int,
                id as int,
            )) {
                None
            } else {
                old(self).focused()
            }),
            forall|m: int|
                #![trigger final(self).bits(m)]
                final(self).live(m) ==> final(self).bits(m) & 3 == old(self).bits(m) & 3,
            forall|m: int|
                #![trigger final(self).kids_of(m)]
                final(self).live(m) ==> final(self).kids_of(m) == (if (old(self).parent_of(
                    id as int,
                ) matches Some(p) && p as int == m) {
                    without(old(self).kids_of(m), id)
                } else {
                    old(self).kids_of(m)
                }),
            focus_marked(&*old(self)) ==> focus_marked(&*final(self)),
    {
        let ghost start = *self;
        let mut order: Vec<usize> = Vec::new();
        self.append_post_order(id, self.live.len(), &mut order);
        proof {
            assert(order@ =~= subtree_post_order(&start, id as int, start.slot_count()));
            lemma_post_distinct(&start, id, start.slot_count());
        }
        let losing_focus = match self.focus {
            Some(f) => {
                let above = self.chain(Some(f));
                holds(&above, id)
            },
            None => false,
        };
        if losing_focus {
            self.set_focus(None, false);
        }
        let ghost mid = *self;
        proof {
            assert forall|m: int|
                #![trigger mid.parent_of(m)]
                mid.parent_of(m) == start.parent_of(m) && mid.height(m) == start.height(m) by {
                if !losing_focus {
                    assert(mid == start);
                } else {
                    assert(mid.live(m) == start.live(m));
                }
            }
        }
        let n = self.live.len();
        let mut doomed: Vec<bool> = Vec::new();
        let mut k: usize = 0;
        while k < n
            invariant
                *self == mid,
                mid.wf(),
                n == mid.live@.len(),
                k <= n,
                doomed@.len() == k,
                forall|m: int|
                    0 <= m < k ==> #[trigger] doomed@[m] == (mid.live(m) && ancestor_or_self(
                        &mid,
                        m,
                        id as int,
                    )),
            decreases n - k,
        {
            let gone = if self.live[k] {
                let above = self.chain(Some(k));
                holds(&above, id)
            } else {
                false
            };
            doomed.push(gone);
            k = k + 1;
        }
        let ghost before_free = self.free@;
        let mut k: usize = 0;
        while k < n
            invariant
                n == mid.live@.len(),
                k <= n,
                doomed@.len() == n,
                mid.wf(),
                forall|m: int|
                    0 <= m < n ==> #[trigger] doomed@[m] == (mid.live(m) && ancestor_or_self(
                        &mid,
                        m,
                        id as int,
                    )),
                self.live@.len() == n,
                forall|m: int|
                    0 <= m < n ==> #[trigger] self.live@[m] == (if m < k {
                        mid.live@[m] && !doomed@[m]
                    } else {
                        mid.live@[m]
                    }),
                self.parents@ == mid.parents@,
                self.kids@ == mid.kids@,
                self.states@ == mid.states@,
                self.depth@ == mid.depth@,
                self.focus == mid.focus,
                before_free == mid.free@,
                self.free@ == before_free,
            decreases n - k,
        {
            if doomed[k] {
                self.live.set(k, false);
            }
            k = k + 1;
        }
        // Freed slots are queued children first, so the removed element's
        // own slot is the next one taken.
        let mut j: usize = 0;
        while j < order.len()
            invariant
                j <= order@.len(),
                self.free@ == before_free + order@.take(j as int),
                self.live@.len() == n,
                forall|m: int|
                    0 <= m < n ==> #[trigger] self.live@[m] == (mid.live@[m] && !doomed@[m]),
                self.parents@ == mid.parents@,
                self.kids@ == mid.kids@,
                self.states@ == mid.states@,
                self.depth@ == mid.depth@,
                self.focus == mid.focus,
            decreases order@.len() - j,
        {
            self.free.push(order[j]);
            j = j + 1;
            assert(order@.take(j as int) =~= order@.take(j - 1).push(order@[j - 1]));
        }
        assert(order@.take(order@.len() as int) =~= order@);
        let parent = self.parents[id];
        if let Some(p) = parent {
            proof {
                lemma_ancestor_step(&mid, id as int, id as int);
                if ancestor_or_self(&mid, p as int, id as int) {
                    lemma_ancestor_height(&mid, p as int, id as int);
                }
                assert(!doomed@[p as int]);
            }
            let siblings = Tree::drop_entry(&self.kids[p], id);
            proof {
                lemma_without_within(self.kids@[p as int]@, id, n as int);
            }
            self.kids.set(p, siblings);
        }
        proof {
            let t = *self;
            assert forall|m: int, i: int| ancestor_or_self(&mid, m, i) == ancestor_or_self(
                &start,
                m,
                i,
            ) by {
                lemma_ancestry_same(&start, &mid, m, i);
            }
            assert forall|m: int, i: int| ancestor_or_self(&t, m, i) == ancestor_or_self(
                &mid,
                m,
                i,
            ) by {
                lemma_ancestry_same(&mid, &t, m, i);
            }
            assert forall|m: int|
                #![trigger t.parent_of(m)]
                t.parent_of(m) == start.parent_of(m) && t.height(m) == start.height(m) by {
                assert(mid.parent_of(m) == start.parent_of(m));
            }
            assert forall|m: int|
                #![trigger t.live(m)]
                t.live(m) == (start.live(m) && !goes_with(&start, m, id as int)) by {
                if 0 <= m < n {
                    assert(t.live@[m] == (mid.live@[m] && !doomed@[m]));
                    assert(mid.live(m) == start.live(m));
                }
            }
            // What is freed is the removed subtree: live before, and gone now.
            assert forall|q: int| 0 <= q < order@.len() implies #[trigger] order@[q] < n && mid.live@[(
            order@[q] as int)] && doomed@[(order@[q] as int)] by {
                let x = order@[q];
                assert(order@.contains(x));
                lemma_post_members(&start, id, start.slot_count(), x);
                assert(mid.live(x as int) == start.live(x as int));
            }
            // A survivor's children are its surviving children.
            assert forall|a: usize, k: usize|
                a < n && t.live@[a as int] && k < n implies (t.kids@[a as int]@.contains(k) == (
                t.live@[k as int] && t.parents@[k as int] == Some(a))) by {
                assert(t.live@[a as int] == (mid.live@[a as int] && !doomed@[a as int]));
                assert(t.live@[k as int] == (mid.live@[k as int] && !doomed@[k as int]));
                assert(mid.kids@[a as int]@.contains(k) == (mid.live@[k as int] && mid.parents@[k as int]
                    == Some(a)));
                if mid.live@[k as int] && mid.parents@[k as int] == Some(a) {
                    lemma_ancestor_step(&mid, k as int, id as int);
                    assert(mid.parent_of(k as int) == Some(a));
                }
                if k == id {
                    assert(mid.parents@[id as int] == parent);
                }
                match parent {
                    Some(p) => {
                        if a == p {
                            assert(t.kids@[a as int]@ == without(mid.kids@[a as int]@, id));
                            lemma_without_contains(mid.kids@[a as int]@, id, k);
                        } else {
                            assert(t.kids@[a as int] == mid.kids@[a as int]);
                        }
                    },
                    None => {
                        assert(t.kids@[a as int] == mid.kids@[a as int]);
                    },
                }
            }
            assert forall|a: int| 0 <= a < n && t.live@[a] implies (#[trigger] t.kids@[a]@).no_duplicates() by {
                assert(t.live@[a] == (mid.live@[a] && !doomed@[a]));
                assert(mid.kids@[a]@.no_duplicates());
                match parent {
                    Some(p) => {
                        if a == p as int {
                            lemma_without_no_dup(mid.kids@[a]@, id);
                        } else {
                            assert(t.kids@[a] == mid.kids@[a]);
                        }
                    },
                    None => {
                        assert(t.kids@[a] == mid.kids@[a]);
                    },
                }
            }
            // Survivors keep live parents.
            assert forall|i: int| 0 <= i < n && t.live@[i] implies match #[trigger] t.parents@[i] {
                Some(p) => p < n && t.live@[p as int] && t.depth@[p as int] < t.depth@[i],
                None => true,
            } by {
                assert(mid.live(i));
                lemma_ancestor_step(&mid, i, id as int);
                match mid.parents@[i] {
                    Some(p) => {
                        assert(mid.parent_of(i) == Some(p));
                        assert(!doomed@[i]);
                        assert(!doomed@[p as int]);
                    },
                    None => {},
                }
            }
            let bl = before_free.len() as int;
            assert forall|j: int| 0 <= j < t.free@.len() implies #[trigger] t.free@[j] < n
                && !t.live@[t.free@[j] as int] by {
                if j < bl {
                    assert(t.free@[j] == before_free[j]);
                    assert(!mid.live@[before_free[j] as int]);
                } else {
                    assert(t.free@[j] == order@[j - bl]);
                }
            }
            assert forall|a: int, b: int| 0 <= a < b < t.free@.len() implies #[trigger] t.free@[a]
                != #[trigger] t.free@[b] by {
                if b < bl {
                    assert(t.free@[a] == before_free[a] && t.free@[b] == before_free[b]);
                } else if a < bl {
                    assert(t.free@[a] == before_free[a]);
                    assert(!mid.live@[before_free[a] as int]);
                    assert(t.free@[b] == order@[b - bl]);
                } else {
                    assert(t.free@[a] == order@[a - bl]);
                    assert(t.free@[b] == order@[b - bl]);
                }
            }
            match t.focus {
                Some(f) => {
                    assert(mid.live(f as int));
                    if !losing_focus {
                        assert(!ancestor_or_self(&start, f as int, id as int));
                    }
                    assert(!doomed@[f as int]);
                },
                None => {},
            }
            assert(t.wf());
            if focus_marked(&start) || losing_focus {
                assert(focus_marked(&mid));
                assert forall|k: int| #![trigger t.bits(k)] t.live(k) implies {
                    &&& has_flag(t.bits(k), 4) == (t.focused() matches Some(f) && f as int == k)
                    &&& has_flag(t.bits(k), 8) ==> (t.focused() matches Some(f) && f as int == k)
                    &&& has_flag(t.bits(k), 16) == (match t.focused() {
                        Some(f) => strict_ancestor(&t, f as int, k),
                        None => false,
                    })
                } by {
                    assert(mid.live(k));
                    assert(t.bits(k) == mid.bits(k));
                }
            }
            assert forall|m: int| #![trigger t.kids_of(m)] t.live(m) implies t.kids_of(m) == (if (
            start.parent_of(id as int) matches Some(p) && p as int == m) {
                without(start.kids_of(m), id)
            } else {
                start.kids_of(m)
            }) by {
                assert(t.live@[m] == (mid.live@[m] && !doomed@[m]));
                assert(mid.live(m) == start.live(m));
                assert(mid.kids_of(m) == start.kids_of(m));
            }
            assert forall|m: int| #![trigger t.bits(m)] t.live(m) implies t.bits(m) & 3 == start.bits(
                m,
            ) & 3 by {
                assert(t.live@[m] == (mid.live@[m] && !doomed@[m]));
                assert(mid.live(m));
                assert(mid.live(m) == start.live(m));
                assert(t.bits(m) == mid.bits(m));
                if !losing_focus {
                    assert(mid.bits(m) == start.bits(m));
                } else {
                    assert(mid.bits(m) & 3 == start.bits(m) & 3);
                }
            }
        }
    }
}

} // verus!
