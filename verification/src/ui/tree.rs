//! The decisions the element tree makes on plain values: which element
//! keyboard focus moves to, and how a list of names takes a name in or
//! out.

use vstd::prelude::*;

use crate::text::{chars_of, owned, same_text};
use crate::ui::attrs::texts;

verus! {

/// A handle to a mounted element. Stays valid until the element is removed.
#[derive(Clone, Copy, Debug, PartialEq, Eq, Hash, Structural)]
pub struct NodeId(pub usize);

/// Where Tab (`forward`) or Shift+Tab moves focus among `count` focusable
/// elements in tree order, from the one at `current`: the next or previous
/// one, wrapping around; the first or last when nothing has focus.
pub open spec fn focus_step(count: nat, current: Option<nat>, forward: bool) -> nat {
    match current {
        Some(index) => if forward {
            (index + 1) % count
        } else {
            ((index + count - 1) % count as int) as nat
        },
        None => if forward {
            0
        } else {
            (count - 1) as nat
        },
    }
}

/// The position focus moves to among `count` focusable elements.
pub fn next_focus(count: usize, current: Option<usize>, forward: bool) -> (next: usize)
    requires
        count > 0,
        current matches Some(index) ==> index < count,
    ensures
        next < count,
        next == focus_step(
            count as nat,
            match current {
                Some(index) => Some(index as nat),
                None => None,
            },
            forward,
        ),
{
    match current {
        Some(index) => if forward {
            (index + 1) % count
        } else {
            if index == 0 {
                assert(((0 + count - 1) % count as int) == count - 1) by (nonlinear_arith)
                    requires
                        count > 0,
                ;
                count - 1
            } else {
                assert(((index + count - 1) % count as int) == index - 1) by (nonlinear_arith)
                    requires
                        0 < index < count,
                ;
                index - 1
            }
        },
        None => if forward {
            0
        } else {
            count - 1
        },
    }
}

/// Law: moving focus forward and then back returns it to where it was.
pub proof fn lemma_focus_back_and_forth(count: nat, index: nat)
    requires
        index < count,
    ensures
        focus_step(count, Some(focus_step(count, Some(index), true)), false) == index,
        focus_step(count, Some(focus_step(count, Some(index), false)), true) == index,
{
    if index + 1 < count {
        assert((index + 1) % count == index + 1) by (nonlinear_arith)
            requires
                index + 1 < count,
        ;
    } else {
        assert((index + 1) % count == 0) by (nonlinear_arith)
            requires
                index + 1 == count,
        ;
    }
    let f = focus_step(count, Some(index), true);
    assert(((f + count - 1) % count as int) == index) by (nonlinear_arith)
        requires
            index < count,
            f == (if index + 1 < count { index + 1 } else { 0 }),
    ;
    let b = focus_step(count, Some(index), false);
    assert(b == (if index > 0 { index - 1 } else { count - 1 })) by (nonlinear_arith)
        requires
            index < count,
            b == ((index + count - 1) % count as int) as nat,
    ;
    assert((b + 1) % count == index) by (nonlinear_arith)
        requires
            index < count,
            b == (if index > 0 { index - 1 } else { count - 1 }),
    ;
}

/// `names` with `name` added at the end if `on` and it is missing, or its
/// first occurrence taken out if not `on` and it is there.
pub open spec fn with_name(names: Seq<Seq<char>>, name: Seq<char>, on: bool) -> Seq<Seq<char>> {
    if on {
        if names.contains(name) {
            names
        } else {
            names.push(name)
        }
    } else {
        match names.index_of_first(name) {
            Some(index) => names.remove(index),
            None => names,
        }
    }
}

/// Adds or removes `name`, the way an element's classes and custom states
/// change. Returns whether the list changed.
pub fn set_name(names: &mut Vec<String>, name: &str, on: bool) -> (changed: bool)
    ensures
        texts(final(names)@) == with_name(
            texts(old(names)@),
            name@,
            on,
        ),
        changed == (texts(old(names)@).contains(name@) != on),
{
    let ghost before = texts(names@);
    let mut present: Option<usize> = None;
    let mut i: usize = 0;
    while i < names.len()
        invariant
            i <= names@.len(),
            before == texts(names@),
            before.len() == names@.len(),
            present is None ==> forall|j: int| 0 <= j < i ==> before[j] != name@,
            present matches Some(p) ==> p < names@.len() && before[p as int] == name@
                && forall|j: int| 0 <= j < p ==> before[j] != name@,
        decreases names@.len() - i,
    {
        if present.is_none() && same_text(&chars_of(names[i].as_str()), name) {
            present = Some(i);
        }
        i = i + 1;
    }
    match (present, on) {
        (None, true) => {
            names.push(owned(name));
            proof {
                assert(!before.contains(name@));
                assert(texts(names@) =~= before.push(name@));
            }
            true
        },
        (Some(index), false) => {
            names.remove(index);
            proof {
                assert(before.contains(name@));
                before.index_of_first_ensures(name@);
                assert(texts(names@) =~= before.remove(index as int));
            }
            true
        },
        (None, false) => {
            proof {
                assert(!before.contains(name@));
                before.index_of_first_ensures(name@);
            }
            false
        },
        (Some(index), true) => {
            proof {
                assert(before[index as int] == name@);
            }
            false
        },
    }
}

/// Law: after a name is switched on it is in the list, and after it is
/// switched off it is not, where it was listed at most once.
pub proof fn lemma_with_name(names: Seq<Seq<char>>, name: Seq<char>, on: bool)
    requires
        forall|i: int, j: int| 0 <= i < j < names.len() && names[i] == name ==> names[j] != name,
    ensures
        with_name(names, name, on).contains(name) == on,
{
    if on {
        if !names.contains(name) {
            assert(names.push(name)[names.len() as int] == name);
        }
    } else {
        names.index_of_first_ensures(name);
        if let Some(index) = names.index_of_first(name) {
            let out = names.remove(index);
            if out.contains(name) {
                let k = choose|k: int| 0 <= k < out.len() && out[k] == name;
                if k < index {
                    assert(names[k] == name);
                } else {
                    assert(names[k + 1] == name);
                }
            }
        }
    }
}

} // verus!
