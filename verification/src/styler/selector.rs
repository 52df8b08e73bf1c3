//! The pseudo-classes selectors match on, and what answers each of them.

use vstd::prelude::*;

use crate::styler::atom::{Atom, css_identifier};
use crate::styler::element::ElementState;
use crate::text::{chars_of, lower_all, lower_seq, push_str, same_text};

verus! {

/// The type-level configuration handed to the selector engine: which string
/// types, pseudo-classes and pseudo-elements selectors are made of.
#[derive(Clone, Debug, PartialEq, Eq)]
pub struct SelectorImpl;

/// A pseudo-class answered by the element's state or its custom states
/// rather than by the shape of the tree.
#[derive(Clone, Debug, PartialEq, Eq, Hash)]
pub enum PseudoClass {
    Hover,
    Active,
    Focus,
    FocusVisible,
    FocusWithin,
    Enabled,
    Disabled,
    Checked,
    Indeterminate,
    ReadOnly,
    ReadWrite,
    Required,
    Optional,
    Valid,
    Invalid,
    PlaceholderShown,
    /// `:state(name)`, a state the toolkit defines itself.
    CustomState(Atom),
}

/// Whether every bit of `flag` is set in `bits`.
pub open spec fn has_flag(bits: u16, flag: u16) -> bool {
    bits & flag == flag
}

/// Whether an element in `state` matches the pseudo-class; `custom` is the
/// toolkit's answer for a `:state(name)` pseudo-class.
pub open spec fn pseudo_matches(class: PseudoClass, state: u16, custom: bool) -> bool {
    match class {
        PseudoClass::Hover => has_flag(state, 1),
        PseudoClass::Active => has_flag(state, 2),
        PseudoClass::Focus => has_flag(state, 4),
        PseudoClass::FocusVisible => has_flag(state, 8),
        PseudoClass::FocusWithin => has_flag(state, 16),
        PseudoClass::Enabled => !has_flag(state, 32),
        PseudoClass::Disabled => has_flag(state, 32),
        PseudoClass::Checked => has_flag(state, 64),
        PseudoClass::Indeterminate => has_flag(state, 128),
        PseudoClass::ReadOnly => has_flag(state, 256),
        PseudoClass::ReadWrite => !has_flag(state, 256),
        PseudoClass::Required => has_flag(state, 512),
        PseudoClass::Optional => !has_flag(state, 512),
        PseudoClass::Valid => !has_flag(state, 1024),
        PseudoClass::Invalid => has_flag(state, 1024),
        PseudoClass::PlaceholderShown => has_flag(state, 2048),
        PseudoClass::CustomState(_) => custom,
    }
}

/// The name of a pseudo-class that is not a custom state.
pub open spec fn pseudo_name(class: PseudoClass) -> Seq<char> {
    match class {
        PseudoClass::Hover => seq!['h', 'o', 'v', 'e', 'r'],
        PseudoClass::Active => seq!['a', 'c', 't', 'i', 'v', 'e'],
        PseudoClass::Focus => seq!['f', 'o', 'c', 'u', 's'],
        PseudoClass::FocusVisible => seq![
            'f', 'o', 'c', 'u', 's', '-', 'v', 'i', 's', 'i', 'b', 'l', 'e',
        ],
        PseudoClass::FocusWithin => seq!['f', 'o', 'c', 'u', 's', '-', 'w', 'i', 't', 'h', 'i', 'n'],
        PseudoClass::Enabled => seq!['e', 'n', 'a', 'b', 'l', 'e', 'd'],
        PseudoClass::Disabled => seq!['d', 'i', 's', 'a', 'b', 'l', 'e', 'd'],
        PseudoClass::Checked => seq!['c', 'h', 'e', 'c', 'k', 'e', 'd'],
        PseudoClass::Indeterminate => seq![
            'i', 'n', 'd', 'e', 't', 'e', 'r', 'm', 'i', 'n', 'a', 't', 'e',
        ],
        PseudoClass::ReadOnly => seq!['r', 'e', 'a', 'd', '-', 'o', 'n', 'l', 'y'],
        PseudoClass::ReadWrite => seq!['r', 'e', 'a', 'd', '-', 'w', 'r', 'i', 't', 'e'],
        PseudoClass::Required => seq!['r', 'e', 'q', 'u', 'i', 'r', 'e', 'd'],
        PseudoClass::Optional => seq!['o', 'p', 't', 'i', 'o', 'n', 'a', 'l'],
        PseudoClass::Valid => seq!['v', 'a', 'l', 'i', 'd'],
        PseudoClass::Invalid => seq!['i', 'n', 'v', 'a', 'l', 'i', 'd'],
        PseudoClass::PlaceholderShown => seq![
            'p', 'l', 'a', 'c', 'e', 'h', 'o', 'l', 'd', 'e', 'r', '-', 's', 'h', 'o', 'w', 'n',
        ],
        PseudoClass::CustomState(_) => Seq::empty(),
    }
}

/// The pseudo-classes a selector can name without arguments, in the order
/// they are looked up.
pub open spec fn named_classes() -> Seq<PseudoClass> {
    seq![
        PseudoClass::Hover,
        PseudoClass::Active,
        PseudoClass::Focus,
        PseudoClass::FocusVisible,
        PseudoClass::FocusWithin,
        PseudoClass::Enabled,
        PseudoClass::Disabled,
        PseudoClass::Checked,
        PseudoClass::Indeterminate,
        PseudoClass::ReadOnly,
        PseudoClass::ReadWrite,
        PseudoClass::Required,
        PseudoClass::Optional,
        PseudoClass::Valid,
        PseudoClass::Invalid,
        PseudoClass::PlaceholderShown,
    ]
}

/// The first pseudo-class in `classes` whose name is `name`.
pub open spec fn first_named(classes: Seq<PseudoClass>, name: Seq<char>) -> Option<PseudoClass>
    decreases classes.len(),
{
    if classes.len() == 0 {
        None
    } else if pseudo_name(classes[0]) == name {
        Some(classes[0])
    } else {
        first_named(classes.drop_first(), name)
    }
}

/// The pseudo-class a lower-case name stands for.
pub open spec fn pseudo_named(name: Seq<char>) -> Option<PseudoClass> {
    first_named(named_classes(), name)
}

/// How a pseudo-class is written in CSS.
pub open spec fn pseudo_css(class: PseudoClass) -> Seq<char> {
    match class {
        PseudoClass::CustomState(name) => seq![':', 's', 't', 'a', 't', 'e', '('] + css_identifier(
            name.spec_text(),
        ) + seq![')'],
        _ => seq![':'] + pseudo_name(class),
    }
}

impl PseudoClass {
    /// Whether an element in `state` matches; `custom_state` is the
    /// toolkit's answer to whether the element is in the custom state this
    /// pseudo-class names, and only counts for `:state(name)`.
    pub fn matches(&self, state: ElementState, custom_state: bool) -> (b: bool)
        ensures
            b == pseudo_matches(*self, state.spec_bits(), custom_state),
    {
        match self {
            PseudoClass::Hover => state.contains(ElementState::hover()),
            PseudoClass::Active => state.contains(ElementState::active()),
            PseudoClass::Focus => state.contains(ElementState::focus()),
            PseudoClass::FocusVisible => state.contains(ElementState::focus_visible()),
            PseudoClass::FocusWithin => state.contains(ElementState::focus_within()),
            PseudoClass::Enabled => !state.contains(ElementState::disabled()),
            PseudoClass::Disabled => state.contains(ElementState::disabled()),
            PseudoClass::Checked => state.contains(ElementState::checked()),
            PseudoClass::Indeterminate => state.contains(ElementState::indeterminate()),
            PseudoClass::ReadOnly => state.contains(ElementState::read_only()),
            PseudoClass::ReadWrite => !state.contains(ElementState::read_only()),
            PseudoClass::Required => state.contains(ElementState::required()),
            PseudoClass::Optional => !state.contains(ElementState::required()),
            PseudoClass::Valid => !state.contains(ElementState::invalid()),
            PseudoClass::Invalid => state.contains(ElementState::invalid()),
            PseudoClass::PlaceholderShown => state.contains(ElementState::placeholder_shown()),
            PseudoClass::CustomState(_) => custom_state,
        }
    }

    /// Whether the pseudo-class is `:active` or `:hover`.
    pub fn is_active_or_hover(&self) -> (b: bool)
        ensures
            b == (*self is Active || *self is Hover),
    {
        match self {
            PseudoClass::Active | PseudoClass::Hover => true,
            _ => false,
        }
    }

    /// Whether the pseudo-class follows what the user is doing right now.
    pub fn is_user_action_state(&self) -> (b: bool)
        ensures
            b == (*self is Active || *self is Hover || *self is Focus || *self is FocusVisible
                || *self is FocusWithin),
    {
        match self {
            PseudoClass::Active
            | PseudoClass::Hover
            | PseudoClass::Focus
            | PseudoClass::FocusVisible
            | PseudoClass::FocusWithin => true,
            _ => false,
        }
    }

    /// The pseudo-class a selector names as `:name`, ignoring ASCII case;
    /// `None` for a name this crate does not support.
    pub fn from_name(name: &str) -> (class: Option<PseudoClass>)
        ensures
            class == pseudo_named(lower_seq(name@)),
    {
        let word = lower_all(&chars_of(name));
        let ghost classes = named_classes();
        proof {
            reveal_strlit("hover");
            reveal_strlit("active");
            reveal_strlit("focus");
            reveal_strlit("focus-visible");
            reveal_strlit("focus-within");
            reveal_strlit("enabled");
            reveal_strlit("disabled");
            reveal_strlit("checked");
            reveal_strlit("indeterminate");
            reveal_strlit("read-only");
            reveal_strlit("read-write");
            reveal_strlit("required");
            reveal_strlit("optional");
            reveal_strlit("valid");
            reveal_strlit("invalid");
            reveal_strlit("placeholder-shown");
        }
        let names = [
            "hover",
            "active",
            "focus",
            "focus-visible",
            "focus-within",
            "enabled",
            "disabled",
            "checked",
            "indeterminate",
            "read-only",
            "read-write",
            "required",
            "optional",
            "valid",
            "invalid",
            "placeholder-shown",
        ];
        proof {
            assert forall|k: int| 0 <= k < 16 implies #[trigger] names@[k]@ == pseudo_name(
                classes[k],
            ) by {
                assert("hover"@ =~= pseudo_name(PseudoClass::Hover));
                assert("active"@ =~= pseudo_name(PseudoClass::Active));
                assert("focus"@ =~= pseudo_name(PseudoClass::Focus));
                assert("focus-visible"@ =~= pseudo_name(PseudoClass::FocusVisible));
                assert("focus-within"@ =~= pseudo_name(PseudoClass::FocusWithin));
                assert("enabled"@ =~= pseudo_name(PseudoClass::Enabled));
                assert("disabled"@ =~= pseudo_name(PseudoClass::Disabled));
                assert("checked"@ =~= pseudo_name(PseudoClass::Checked));
                assert("indeterminate"@ =~= pseudo_name(PseudoClass::Indeterminate));
                assert("read-only"@ =~= pseudo_name(PseudoClass::ReadOnly));
                assert("read-write"@ =~= pseudo_name(PseudoClass::ReadWrite));
                assert("required"@ =~= pseudo_name(PseudoClass::Required));
                assert("optional"@ =~= pseudo_name(PseudoClass::Optional));
                assert("valid"@ =~= pseudo_name(PseudoClass::Valid));
                assert("invalid"@ =~= pseudo_name(PseudoClass::Invalid));
                assert("placeholder-shown"@ =~= pseudo_name(PseudoClass::PlaceholderShown));
            }
        }
        assert(classes.subrange(0, 16) =~= classes);
        let mut k: usize = 0;
        while k < 16
            invariant
                k <= 16,
                classes == named_classes(),
                word@ == lower_seq(name@),
                forall|j: int| 0 <= j < 16 ==> #[trigger] names@[j]@ == pseudo_name(classes[j]),
                first_named(classes, word@) == first_named(classes.subrange(k as int, 16), word@),
            decreases 16 - k,
        {
            assert(classes.subrange(k as int, 16)[0] == classes[k as int]);
            assert(classes.subrange(k as int, 16).drop_first() =~= classes.subrange(k + 1, 16));
            if same_text(&word, names[k]) {
                return Some(PseudoClass::class_at(k));
            }
            k = k + 1;
        }
        None
    }

    /// The pseudo-class at `k` in the lookup table.
    fn class_at(k: usize) -> (class: PseudoClass)
        requires
            k < 16,
        ensures
            class == named_classes()[k as int],
    {
        match k {
            0 => PseudoClass::Hover,
            1 => PseudoClass::Active,
            2 => PseudoClass::Focus,
            3 => PseudoClass::FocusVisible,
            4 => PseudoClass::FocusWithin,
            5 => PseudoClass::Enabled,
            6 => PseudoClass::Disabled,
            7 => PseudoClass::Checked,
            8 => PseudoClass::Indeterminate,
            9 => PseudoClass::ReadOnly,
            10 => PseudoClass::ReadWrite,
            11 => PseudoClass::Required,
            12 => PseudoClass::Optional,
            13 => PseudoClass::Valid,
            14 => PseudoClass::Invalid,
            _ => PseudoClass::PlaceholderShown,
        }
    }

    /// The pseudo-class as CSS, such as `:hover` or `:state(busy)`.
    pub fn to_css_string(&self) -> (css: String)
        ensures
            css@ == pseudo_css(*self),
    {
        let mut css = String::new();
        match self {
            PseudoClass::CustomState(name) => {
                push_str(&mut css, ":state(");
                let ident = name.to_css_string();
                push_str(&mut css, ident.as_str());
                push_str(&mut css, ")");
                proof {
                    reveal_strlit(":state(");
                    reveal_strlit(")");
                    assert(":state("@ =~= seq![':', 's', 't', 'a', 't', 'e', '(']);
                    assert(")"@ =~= seq![')']);
                }
            },
            _ => {
                push_str(&mut css, ":");
                let name = self.name();
                push_str(&mut css, name);
                proof {
                    reveal_strlit(":");
                    assert(":"@ =~= seq![':']);
                }
            },
        }
        css
    }

    /// The name of a pseudo-class, without its colon; empty for a custom
    /// state, whose name is its argument.
    fn name(&self) -> (name: &'static str)
        ensures
            name@ == pseudo_name(*self),
    {
        proof {
            reveal_strlit("hover");
            reveal_strlit("active");
            reveal_strlit("focus");
            reveal_strlit("focus-visible");
            reveal_strlit("focus-within");
            reveal_strlit("enabled");
            reveal_strlit("disabled");
            reveal_strlit("checked");
            reveal_strlit("indeterminate");
            reveal_strlit("read-only");
            reveal_strlit("read-write");
            reveal_strlit("required");
            reveal_strlit("optional");
            reveal_strlit("valid");
            reveal_strlit("invalid");
            reveal_strlit("placeholder-shown");
            reveal_strlit("");
        }
        let name = match self {
            PseudoClass::Hover => "hover",
            PseudoClass::Active => "active",
            PseudoClass::Focus => "focus",
            PseudoClass::FocusVisible => "focus-visible",
            PseudoClass::FocusWithin => "focus-within",
            PseudoClass::Enabled => "enabled",
            PseudoClass::Disabled => "disabled",
            PseudoClass::Checked => "checked",
            PseudoClass::Indeterminate => "indeterminate",
            PseudoClass::ReadOnly => "read-only",
            PseudoClass::ReadWrite => "read-write",
            PseudoClass::Required => "required",
            PseudoClass::Optional => "optional",
            PseudoClass::Valid => "valid",
            PseudoClass::Invalid => "invalid",
            PseudoClass::PlaceholderShown => "placeholder-shown",
            PseudoClass::CustomState(_) => "",
        };
        assert(name@ =~= pseudo_name(*self));
        name
    }
}

/// Whether `class` is decided by `flag` alone: with the flag set it
/// matches exactly when `present` says so, and with the flag cleared exactly
/// when not, whatever the other flags and the custom states are.
pub open spec fn decided_by(class: PseudoClass, flag: u16, present: bool) -> bool {
    forall|state: u16, custom: bool|
        #![trigger pseudo_matches(class, state, custom)]
        pseudo_matches(class, (state | flag) as u16, custom) == present && pseudo_matches(
            class,
            (state & !flag) as u16,
            custom,
        ) == !present
}

proof fn lemma_flag_bits(state: u16, flag: u16)
    by (bit_vector)
    requires
        flag != 0,
    ensures
        ((state | flag) as u16) & flag == flag,
        ((state & !flag) as u16) & flag != flag,
{
}

/// Law: each state pseudo-class follows its own flag of `ElementState` and
/// nothing else: `:hover` the hover flag (1), `:active` the active flag
/// (2), `:focus` (4), `:focus-visible` (8), `:focus-within` (16),
/// `:disabled` the disabled flag (32) and `:enabled` its absence,
/// `:checked` the checked flag (64), `:indeterminate` (128), `:read-only`
/// (256) and `:read-write` its absence, `:required` (512) and `:optional`
/// its absence, `:invalid` (1024) and `:valid` its absence, and
/// `:placeholder-shown` (2048); these are the bits of `ElementState::hover()`
/// and the other constructors. A custom state matches exactly when the
/// element has it.
pub proof fn lemma_pseudo_classes_follow_their_flags(name: Atom)
    ensures
        decided_by(PseudoClass::Hover, 1, true),
        decided_by(PseudoClass::Active, 2, true),
        decided_by(PseudoClass::Focus, 4, true),
        decided_by(PseudoClass::FocusVisible, 8, true),
        decided_by(PseudoClass::FocusWithin, 16, true),
        decided_by(PseudoClass::Disabled, 32, true),
        decided_by(PseudoClass::Enabled, 32, false),
        decided_by(PseudoClass::Checked, 64, true),
        decided_by(PseudoClass::Indeterminate, 128, true),
        decided_by(PseudoClass::ReadOnly, 256, true),
        decided_by(PseudoClass::ReadWrite, 256, false),
        decided_by(PseudoClass::Required, 512, true),
        decided_by(PseudoClass::Optional, 512, false),
        decided_by(PseudoClass::Invalid, 1024, true),
        decided_by(PseudoClass::Valid, 1024, false),
        decided_by(PseudoClass::PlaceholderShown, 2048, true),
        forall|state: u16, custom: bool|
            pseudo_matches(PseudoClass::CustomState(name), state, custom) == custom,
{
    assert forall|state: u16| true implies {
        &&& ((state | 1u16) as u16) & 1 == 1 && ((state & !1u16) as u16) & 1 != 1
        &&& ((state | 2u16) as u16) & 2 == 2 && ((state & !2u16) as u16) & 2 != 2
        &&& ((state | 4u16) as u16) & 4 == 4 && ((state & !4u16) as u16) & 4 != 4
        &&& ((state | 8u16) as u16) & 8 == 8 && ((state & !8u16) as u16) & 8 != 8
        &&& ((state | 16u16) as u16) & 16 == 16 && ((state & !16u16) as u16) & 16 != 16
        &&& ((state | 32u16) as u16) & 32 == 32 && ((state & !32u16) as u16) & 32 != 32
        &&& ((state | 64u16) as u16) & 64 == 64 && ((state & !64u16) as u16) & 64 != 64
        &&& ((state | 128u16) as u16) & 128 == 128 && ((state & !128u16) as u16) & 128 != 128
        &&& ((state | 256u16) as u16) & 256 == 256 && ((state & !256u16) as u16) & 256 != 256
        &&& ((state | 512u16) as u16) & 512 == 512 && ((state & !512u16) as u16) & 512 != 512
        &&& ((state | 1024u16) as u16) & 1024 == 1024 && ((state & !1024u16) as u16) & 1024 != 1024
        &&& ((state | 2048u16) as u16) & 2048 == 2048 && ((state & !2048u16) as u16) & 2048 != 2048
    } by {
        lemma_flag_bits(state, 1);
        lemma_flag_bits(state, 2);
        lemma_flag_bits(state, 4);
        lemma_flag_bits(state, 8);
        lemma_flag_bits(state, 16);
        lemma_flag_bits(state, 32);
        lemma_flag_bits(state, 64);
        lemma_flag_bits(state, 128);
        lemma_flag_bits(state, 256);
        lemma_flag_bits(state, 512);
        lemma_flag_bits(state, 1024);
        lemma_flag_bits(state, 2048);
    }
}

/// Four pseudo-classes are the absence of a flag: whatever the state,
/// exactly one of `:enabled` and `:disabled` matches, and likewise
/// `:read-write` and `:read-only`, `:optional` and `:required`, `:valid`
/// and `:invalid`.
pub proof fn lemma_opposite_pseudo_classes(state: u16, custom: bool)
    ensures
        pseudo_matches(PseudoClass::Enabled, state, custom) != pseudo_matches(
            PseudoClass::Disabled,
            state,
            custom,
        ),
        pseudo_matches(PseudoClass::ReadWrite, state, custom) != pseudo_matches(
            PseudoClass::ReadOnly,
            state,
            custom,
        ),
        pseudo_matches(PseudoClass::Optional, state, custom) != pseudo_matches(
            PseudoClass::Required,
            state,
            custom,
        ),
        pseudo_matches(PseudoClass::Valid, state, custom) != pseudo_matches(
            PseudoClass::Invalid,
            state,
            custom,
        ),
{
}

/// Every named pseudo-class is found again by its name, whatever the case
/// it is written in.
pub proof fn lemma_pseudo_names(class: PseudoClass)
    requires
        !(class is CustomState),
    ensures
        lower_seq(pseudo_name(class)) == pseudo_name(class),
        pseudo_named(pseudo_name(class)) == Some(class),
{
    let classes = named_classes();
    assert(lower_seq(pseudo_name(class)) =~= pseudo_name(class));
    assert(classes.drop_first() =~= classes.subrange(1, 16));
    reveal_with_fuel(first_named, 17);
}

} // verus!
