//! How an input event is routed: where it is offered first, how a key
//! press goes to window-wide shortcuts, then element shortcuts, then the
//! focused element, then Tab navigation, and how an event bubbles up.

use vstd::prelude::*;

use crate::ui::event::{Key, Modifiers};
use crate::ui::shortcut::{Shortcut, first_match, first_triggered};
use crate::ui::tree::NodeId;

verus! {

/// The kinds of input event, without where the pointer is.
#[derive(Clone, Copy, Debug, PartialEq, Eq, Structural)]
pub enum EventKind {
    PointerMove,
    PointerDown,
    PointerUp,
    PointerLeave,
    Wheel,
    KeyDown,
    KeyUp,
    Text,
}

/// The element an event of `kind` is offered to first. While a button is
/// held, pointer moves and the release go to the element it was pressed
/// on, and otherwise to the element under the pointer; a press or a wheel
/// turn goes to the element under the pointer; keys and text go to the
/// focused element; a pointer leaving the window goes to no element.
pub open spec fn target_of(
    kind: EventKind,
    pressed: Option<NodeId>,
    under_pointer: Option<NodeId>,
    focused: Option<NodeId>,
) -> Option<NodeId> {
    match kind {
        EventKind::PointerMove | EventKind::PointerUp => if pressed is Some {
            pressed
        } else {
            under_pointer
        },
        EventKind::PointerDown | EventKind::Wheel => under_pointer,
        EventKind::PointerLeave => None,
        EventKind::KeyDown | EventKind::KeyUp | EventKind::Text => focused,
    }
}

/// The element an event is offered to first; it then bubbles up from
/// there.
pub fn first_target(
    kind: EventKind,
    pressed: Option<NodeId>,
    under_pointer: Option<NodeId>,
    focused: Option<NodeId>,
) -> (target: Option<NodeId>)
    ensures
        target == target_of(kind, pressed, under_pointer, focused),
{
    match kind {
        EventKind::PointerMove | EventKind::PointerUp => match pressed {
            Some(id) => Some(id),
            None => under_pointer,
        },
        EventKind::PointerDown | EventKind::Wheel => under_pointer,
        EventKind::PointerLeave => None,
        EventKind::KeyDown | EventKind::KeyUp | EventKind::Text => focused,
    }
}

/// Which way a key press that nothing handled moves focus: Tab alone
/// forward (`true`), Shift+Tab back (`false`); any other key or modifier
/// leaves focus where it is.
pub open spec fn tab_step_of(key: Key, modifiers: Modifiers) -> Option<bool> {
    if key == Key::Tab && modifiers.spec_bits() == 0 {
        Some(true)
    } else if key == Key::Tab && modifiers.spec_bits() == 2 {
        Some(false)
    } else {
        None
    }
}

/// Whether an unhandled key press moves focus, and which way.
pub fn tab_step(key: Key, modifiers: Modifiers) -> (step: Option<bool>)
    ensures
        step == tab_step_of(key, modifiers),
{
    match key {
        Key::Tab => if modifiers.is_empty() {
            Some(true)
        } else if modifiers.bits() == 2 {
            Some(false)
        } else {
            None
        },
        _ => None,
    }
}

/// Where a key press goes first.
#[derive(Clone, Copy, Debug, PartialEq, Eq, Structural)]
pub enum KeyRoute {
    /// The window-wide shortcut at this position runs.
    Global(usize),
    /// The element shortcut at this position runs.
    Element(usize),
    /// No shortcut takes it: it is offered to the focused element.
    Offer,
}

/// Routes a key press: the first window-wide shortcut it triggers wins;
/// failing that, the first element shortcut; failing that, the focused
/// element is offered the key.
pub fn route_key(global: &[Shortcut], element: &[Shortcut], key: Key, modifiers: Modifiers) -> (r:
    KeyRoute)
    ensures
        match r {
            KeyRoute::Global(i) => first_triggered(global@, key, modifiers) == Some(i as int),
            KeyRoute::Element(i) => first_triggered(global@, key, modifiers) is None
                && first_triggered(element@, key, modifiers) == Some(i as int),
            KeyRoute::Offer => first_triggered(global@, key, modifiers) is None && first_triggered(
                element@,
                key,
                modifiers,
            ) is None,
        },
{
    match first_match(global, key, modifiers) {
        Some(i) => KeyRoute::Global(i),
        None => match first_match(element, key, modifiers) {
            Some(i) => KeyRoute::Element(i),
            None => KeyRoute::Offer,
        },
    }
}

/// What happens after the focused element was offered a key press: nothing
/// more when it handled it, else Tab and Shift+Tab move focus.
pub fn after_offer(handled: bool, key: Key, modifiers: Modifiers) -> (step: Option<bool>)
    ensures
        step == (if handled {
            None
        } else {
            tab_step_of(key, modifiers)
        }),
{
    if handled {
        None
    } else {
        tab_step(key, modifiers)
    }
}

/// The shortcuts of the elements that have one and are not disabled, in the
/// order given, each with its element's position in that order.
pub open spec fn enabled_shortcuts_of(elements: Seq<(Option<Shortcut>, bool)>) -> Seq<
    (usize, Shortcut),
>
    decreases elements.len(),
{
    if elements.len() == 0 {
        Seq::empty()
    } else {
        let before = enabled_shortcuts_of(elements.drop_last());
        match elements.last() {
            (Some(shortcut), false) => before.push(((elements.len() - 1) as usize, shortcut)),
            _ => before,
        }
    }
}

/// The element shortcuts a key press can trigger, given each element's
/// shortcut and whether it is disabled, in tree order.
pub fn enabled_shortcuts(elements: &[(Option<Shortcut>, bool)]) -> (r: Vec<(usize, Shortcut)>)
    ensures
        r@ == enabled_shortcuts_of(elements@),
{
    let mut r: Vec<(usize, Shortcut)> = Vec::new();
    let mut i: usize = 0;
    while i < elements.len()
        invariant
            i <= elements@.len(),
            r@ == enabled_shortcuts_of(elements@.take(i as int)),
        decreases elements@.len() - i,
    {
        assert(elements@.take(i + 1).drop_last() =~= elements@.take(i as int));
        assert(elements@.take(i + 1).last() == elements@[i as int]);
        match elements[i] {
            (Some(shortcut), false) => r.push((i, shortcut)),
            _ => {},
        }
        i = i + 1;
    }
    assert(elements@.take(elements@.len() as int) =~= elements@);
    r
}

/// The first element at or after `from` on a bubbling path that is not
/// disabled.
pub open spec fn first_enabled_from(disabled: Seq<bool>, from: int) -> Option<int>
    decreases disabled.len() - from,
{
    if from < 0 || from >= disabled.len() {
        None
    } else if !disabled[from] {
        Some(from)
    } else {
        first_enabled_from(disabled, from + 1)
    }
}

/// The next element on a bubbling path to offer an event to, given which
/// elements on the path are disabled: none once an element has handled the
/// event, else the first element at or after `from` that is not disabled.
pub fn next_offer(disabled: &[bool], from: usize, handled: bool) -> (next: Option<usize>)
    ensures
        next == (if handled {
            None
        } else {
            match first_enabled_from(disabled@, from as int) {
                Some(j) => Some(j as usize),
                None => None,
            }
        }),
{
    if handled {
        return None;
    }
    let mut j = from;
    while j < disabled.len()
        invariant
            !handled,
            from <= j,
            first_enabled_from(disabled@, from as int) == first_enabled_from(disabled@, j as int),
        decreases disabled@.len() - j,
    {
        if !disabled[j] {
            assert(first_enabled_from(disabled@, j as int) == Some(j as int));
            return Some(j);
        }
        j = j + 1;
    }
    None
}

} // verus!
