//! What a UI toolkit has to provide for its widgets to be styled: the
//! interactive state of an element.

use vstd::prelude::*;

verus! {

/// The interactive state of an element, matched by pseudo-classes.
///
/// The toolkit keeps these up to date; the styler only reads them. Each
/// flag has a pseudo-class, and a few pseudo-classes are the absence of a
/// flag: `:enabled` is not `DISABLED`, `:read-write` is not `READ_ONLY`,
/// `:optional` is not `REQUIRED` and `:valid` is not `INVALID`.
#[derive(Clone, Copy, Debug, PartialEq, Eq, Hash, Default, Structural)]
pub struct ElementState {
    bits: u16,
}

impl ElementState {
    /// `:hover`
    pub fn hover() -> (s: ElementState)
        ensures
            s.spec_bits() == 1,
    {
        ElementState { bits: 1 }
    }

    /// `:active`
    pub fn active() -> (s: ElementState)
        ensures
            s.spec_bits() == 2,
    {
        ElementState { bits: 2 }
    }

    /// `:focus`
    pub fn focus() -> (s: ElementState)
        ensures
            s.spec_bits() == 4,
    {
        ElementState { bits: 4 }
    }

    /// `:focus-visible`
    pub fn focus_visible() -> (s: ElementState)
        ensures
            s.spec_bits() == 8,
    {
        ElementState { bits: 8 }
    }

    /// `:focus-within`
    pub fn focus_within() -> (s: ElementState)
        ensures
            s.spec_bits() == 16,
    {
        ElementState { bits: 16 }
    }

    /// `:disabled`
    pub fn disabled() -> (s: ElementState)
        ensures
            s.spec_bits() == 32,
    {
        ElementState { bits: 32 }
    }

    /// `:checked`
    pub fn checked() -> (s: ElementState)
        ensures
            s.spec_bits() == 64,
    {
        ElementState { bits: 64 }
    }

    /// `:indeterminate`
    pub fn indeterminate() -> (s: ElementState)
        ensures
            s.spec_bits() == 128,
    {
        ElementState { bits: 128 }
    }

    /// `:read-only`
    pub fn read_only() -> (s: ElementState)
        ensures
            s.spec_bits() == 256,
    {
        ElementState { bits: 256 }
    }

    /// `:required`
    pub fn required() -> (s: ElementState)
        ensures
            s.spec_bits() == 512,
    {
        ElementState { bits: 512 }
    }

    /// `:invalid`
    pub fn invalid() -> (s: ElementState)
        ensures
            s.spec_bits() == 1024,
    {
        ElementState { bits: 1024 }
    }

    /// `:placeholder-shown`
    pub fn placeholder_shown() -> (s: ElementState)
        ensures
            s.spec_bits() == 2048,
    {
        ElementState { bits: 2048 }
    }

    /// The bits of the set, one per flag.
    pub closed spec fn spec_bits(self) -> u16 {
        self.bits
    }

    /// Two sets are equal exactly when their bits are.
    pub proof fn lemma_bits_determine(a: ElementState, b: ElementState)
        ensures
            (a == b) == (a.spec_bits() == b.spec_bits()),
    {
    }

    /// Only the twelve known flags are set.
    pub open spec fn wf(self) -> bool {
        self.spec_bits() < 4096
    }

    /// Whether every flag of `other` is in `self`.
    pub open spec fn spec_contains(self, other: ElementState) -> bool {
        self.spec_bits() & other.spec_bits() == other.spec_bits()
    }

    pub fn empty() -> (s: ElementState)
        ensures
            s.spec_bits() == 0,
    {
        ElementState { bits: 0 }
    }

    /// All twelve flags.
    pub fn all() -> (s: ElementState)
        ensures
            s.spec_bits() == 4095,
    {
        ElementState { bits: 4095 }
    }

    pub fn bits(self) -> (b: u16)
        ensures
            b == self.spec_bits(),
    {
        self.bits
    }

    /// The set with the given bits, or `None` if a bit is not one of the
    /// twelve flags.
    pub fn from_bits(bits: u16) -> (s: Option<ElementState>)
        ensures
            s is Some <==> bits < 4096,
            s matches Some(s) ==> s.spec_bits() == bits,
    {
        if bits < 4096 {
            Some(ElementState { bits })
        } else {
            None
        }
    }

    pub fn is_empty(self) -> (b: bool)
        ensures
            b == (self.spec_bits() == 0),
    {
        self.bits == 0
    }

    pub fn contains(self, other: ElementState) -> (b: bool)
        ensures
            b == self.spec_contains(other),
    {
        self.bits & other.bits == other.bits
    }

    /// Whether the sets share a flag.
    pub fn intersects(self, other: ElementState) -> (b: bool)
        ensures
            b == (self.spec_bits() & other.spec_bits() != 0),
    {
        self.bits & other.bits != 0
    }

    pub fn union(self, other: ElementState) -> (s: ElementState)
        ensures
            s.spec_bits() == self.spec_bits() | other.spec_bits(),
            self.wf() && other.wf() ==> s.wf(),
    {
        let (a, b) = (self.bits, other.bits);
        proof {
            assert(a < 4096 && b < 4096 ==> (a | b) < 4096) by (bit_vector);
        }
        ElementState { bits: a | b }
    }

    /// Adds the flags of `other`.
    pub fn insert(&mut self, other: ElementState)
        ensures
            final(self).spec_bits() == old(self).spec_bits() | other.spec_bits(),
    {
        self.bits = self.bits | other.bits;
    }

    /// Removes the flags of `other`.
    pub fn remove(&mut self, other: ElementState)
        ensures
            final(self).spec_bits() == old(self).spec_bits() & !other.spec_bits(),
    {
        self.bits = self.bits & !other.bits;
    }

    /// Adds or removes the flags of `other`.
    pub fn set(&mut self, other: ElementState, on: bool)
        ensures
            on ==> final(self).spec_bits() == old(self).spec_bits() | other.spec_bits(),
            !on ==> final(self).spec_bits() == old(self).spec_bits() & !other.spec_bits(),
    {
        if on {
            self.insert(other);
        } else {
            self.remove(other);
        }
    }
}

impl core::ops::BitOr for ElementState {
    type Output = ElementState;

    fn bitor(self, rhs: ElementState) -> (s: ElementState) {
        ElementState { bits: self.bits | rhs.bits }
    }
}

impl vstd::std_specs::ops::BitOrSpecImpl for ElementState {
    open spec fn obeys_bitor_spec() -> bool {
        true
    }

    open spec fn bitor_req(self, rhs: ElementState) -> bool {
        true
    }

    closed spec fn bitor_spec(self, rhs: ElementState) -> ElementState {
        ElementState { bits: self.bits | rhs.bits }
    }
}

} // verus!
