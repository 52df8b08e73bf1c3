//! Input events, as the windowing layer hands them to the toolkit.

use vstd::prelude::*;

verus! {

/// Modifier keys held during a key or pointer event.
///
/// A set of four flags packed into the low bits of a byte. Every value
/// made through this type's functions has no other bit set.
#[derive(Clone, Copy, Debug, PartialEq, Eq, Hash, Default, Structural)]
pub struct Modifiers {
    bits: u8,
}

impl Modifiers {
    pub fn ctrl() -> (m: Modifiers)
        ensures
            m.spec_bits() == 1,
    {
        Modifiers { bits: 1 }
    }

    pub fn shift() -> (m: Modifiers)
        ensures
            m.spec_bits() == 2,
    {
        Modifiers { bits: 2 }
    }

    pub fn alt() -> (m: Modifiers)
        ensures
            m.spec_bits() == 4,
    {
        Modifiers { bits: 4 }
    }

    /// Command on macOS, the Windows key elsewhere.
    pub fn meta() -> (m: Modifiers)
        ensures
            m.spec_bits() == 8,
    {
        Modifiers { bits: 8 }
    }

    /// The bits of the set, one per flag.
    pub closed spec fn spec_bits(self) -> u8 {
        self.bits
    }

    /// Two sets are equal exactly when their bits are.
    pub proof fn lemma_bits_determine(a: Modifiers, b: Modifiers)
        ensures
            (a == b) == (a.spec_bits() == b.spec_bits()),
    {
    }

    /// Only the four known flags are set.
    pub open spec fn wf(self) -> bool {
        self.spec_bits() < 16
    }

    /// Whether every flag of `other` is in `self`.
    pub open spec fn spec_contains(self, other: Modifiers) -> bool {
        self.spec_bits() & other.spec_bits() == other.spec_bits()
    }

    /// The flags of either set.
    pub closed spec fn spec_union(self, other: Modifiers) -> Modifiers {
        Modifiers { bits: self.bits | other.bits }
    }

    pub proof fn lemma_union_bits(a: Modifiers, b: Modifiers)
        ensures
            #[trigger] a.spec_union(b).spec_bits() == a.spec_bits() | b.spec_bits(),
    {
    }

    pub fn empty() -> (m: Modifiers)
        ensures
            m.spec_bits() == 0,
    {
        Modifiers { bits: 0 }
    }

    /// All four flags.
    pub fn all() -> (m: Modifiers)
        ensures
            m.spec_bits() == 15,
    {
        Modifiers { bits: 15 }
    }

    pub fn bits(self) -> (b: u8)
        ensures
            b == self.spec_bits(),
    {
        self.bits
    }

    /// The set with the given bits, or `None` if a bit is not one of the
    /// four flags.
    pub fn from_bits(bits: u8) -> (m: Option<Modifiers>)
        ensures
            m is Some <==> bits < 16,
            m matches Some(m) ==> m.spec_bits() == bits,
    {
        if bits < 16 {
            Some(Modifiers { bits })
        } else {
            None
        }
    }

    pub fn is_empty(self) -> (b: bool)
        ensures
            b == (self.spec_bits() == 0),
    {
        self.bits == 0
    }

    pub fn contains(self, other: Modifiers) -> (b: bool)
        ensures
            b == self.spec_contains(other),
    {
        self.bits & other.bits == other.bits
    }

    /// Whether the sets share a flag.
    pub fn intersects(self, other: Modifiers) -> (b: bool)
        ensures
            b == (self.spec_bits() & other.spec_bits() != 0),
    {
        self.bits & other.bits != 0
    }

    pub fn union(self, other: Modifiers) -> (m: Modifiers)
        ensures
            m == self.spec_union(other),
            m.spec_bits() == self.spec_bits() | other.spec_bits(),
            self.wf() && other.wf() ==> m.wf(),
    {
        let (a, b) = (self.bits, other.bits);
        proof {
            assert(a < 16 && b < 16 ==> (a | b) < 16) by (bit_vector);
        }
        Modifiers { bits: self.bits | other.bits }
    }

    /// The flags of `self` that are not in `other`.
    pub fn difference(self, other: Modifiers) -> (m: Modifiers)
        ensures
            m.spec_bits() == self.spec_bits() & !other.spec_bits(),
            self.wf() ==> m.wf(),
    {
        let (a, b) = (self.bits, other.bits);
        proof {
            assert(a < 16 ==> (a & !b) < 16) by (bit_vector);
        }
        Modifiers { bits: self.bits & !other.bits }
    }

    /// Adds the flags of `other`.
    pub fn insert(&mut self, other: Modifiers)
        ensures
            *final(self) == old(self).spec_union(other),
    {
        self.bits = self.bits | other.bits;
    }

    /// Removes the flags of `other`.
    pub fn remove(&mut self, other: Modifiers)
        ensures
            final(self).spec_bits() == old(self).spec_bits() & !other.spec_bits(),
    {
        self.bits = self.bits & !other.bits;
    }

    /// Adds or removes the flags of `other`.
    pub fn set(&mut self, other: Modifiers, on: bool)
        ensures
            on ==> *final(self) == old(self).spec_union(other),
            !on ==> final(self).spec_bits() == old(self).spec_bits() & !other.spec_bits(),
    {
        if on {
            self.insert(other);
        } else {
            self.remove(other);
        }
    }
}

impl core::ops::BitOr for Modifiers {
    type Output = Modifiers;

    fn bitor(self, rhs: Modifiers) -> (m: Modifiers) {
        Modifiers { bits: self.bits | rhs.bits }
    }
}

impl vstd::std_specs::ops::BitOrSpecImpl for Modifiers {
    open spec fn obeys_bitor_spec() -> bool {
        true
    }

    open spec fn bitor_req(self, rhs: Modifiers) -> bool {
        true
    }

    open spec fn bitor_spec(self, rhs: Modifiers) -> Modifiers {
        self.spec_union(rhs)
    }
}

/// A key, independent of keyboard layout for the named ones and by produced
/// character for the rest.
#[derive(Clone, Copy, Debug, PartialEq, Eq, Hash, Structural)]
pub enum Key {
    /// A key that types a character. Letters are lower case, so `Ctrl+S`
    /// and `Ctrl+Shift+S` both carry `Char('s')`.
    Char(char),
    Enter,
    Escape,
    Tab,
    Backspace,
    Delete,
    Space,
    ArrowLeft,
    ArrowRight,
    ArrowUp,
    ArrowDown,
    Home,
    End,
    PageUp,
    PageDown,
    /// A function key, `F(1)` through `F(24)`.
    F(u8),
}

#[derive(Clone, Copy, Debug, PartialEq, Eq, Hash, Structural)]
pub enum PointerButton {
    Primary,
    Secondary,
    Middle,
}

} // verus!
