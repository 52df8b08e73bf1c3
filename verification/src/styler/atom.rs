//! The string types parsed selectors are built from.

use vstd::prelude::*;

use crate::text::owned;
use vstd::std_specs::cmp::PartialEqSpec;

verus! {

/// The 32-bit FNV-1a hash of `bytes`.
pub open spec fn fnv1a_spec(bytes: Seq<u8>) -> u32
    decreases bytes.len(),
{
    if bytes.len() == 0 {
        0x811c_9dc5
    } else {
        vstd::wrapping::u32_specs::wrapping_mul(
            fnv1a_spec(bytes.drop_last()) ^ (bytes.last() as u32),
            0x0100_0193,
        )
    }
}

/// The 32-bit FNV-1a hash of the UTF-8 bytes of `text`.
pub fn fnv1a(text: &str) -> (hash: u32)
    ensures
        hash == fnv1a_spec(vstd::utf8::encode_utf8(text@)),
{
    let bytes = text.as_bytes();
    let mut hash: u32 = 0x811c_9dc5;
    let mut i: usize = 0;
    while i < bytes.len()
        invariant
            i <= bytes@.len(),
            bytes@ == vstd::utf8::encode_utf8(text@),
            hash == fnv1a_spec(bytes@.take(i as int)),
        decreases bytes@.len() - i,
    {
        assert(bytes@.take(i as int + 1).drop_last() =~= bytes@.take(i as int));
        hash = hash ^ (bytes[i] as u32);
        hash = hash.wrapping_mul(0x0100_0193);
        i = i + 1;
    }
    assert(bytes@.take(bytes@.len() as int) =~= bytes@);
    hash
}

/// What `cssparser::serialize_identifier` writes for `text`: the text as a
/// CSS identifier, escaped where CSS needs it.
pub uninterp spec fn css_identifier(text: Seq<char>) -> Seq<char>;

/// What `cssparser::serialize_string` writes for `text`: the text as a
/// double-quoted CSS string, escaped where CSS needs it.
pub uninterp spec fn css_string(text: Seq<char>) -> Seq<char>;

/// Calls `cssparser::serialize_identifier`, writing into a fresh string.
/// Writing to a `String` cannot fail, so the result is all it wrote. The
/// contract only names the result: the escaping rules are cssparser's.
#[verifier::external_body]
fn serialize_identifier(text: &str) -> (css: String)
    ensures
        css@ == css_identifier(text@),
{
    let mut css = String::new();
    let _ = cssparser::serialize_identifier(text, &mut css);
    css
}

/// Calls `cssparser::serialize_string`, writing into a fresh string. Its
/// source writes a `"` before and after the escaped text; the escaping in
/// between is named, not stated.
#[verifier::external_body]
fn serialize_string(text: &str) -> (css: String)
    ensures
        css@ == css_string(text@),
        css@.len() >= 2,
        css@[0] == '"',
        css@.last() == '"',
{
    let mut css = String::new();
    let _ = cssparser::serialize_string(text, &mut css);
    css
}

/// A string with a precomputed hash.
///
/// Element names, ids, class names and `:state()` arguments are stored as
/// atoms inside parsed selectors.
#[derive(Eq, Hash, Debug)]
pub struct Atom {
    text: String,
    hash: u32,
}

impl PartialEq for Atom {
    fn eq(&self, other: &Atom) -> (same: bool) {
        self.text == other.text && self.hash == other.hash
    }
}

impl vstd::std_specs::cmp::PartialEqSpecImpl for Atom {
    open spec fn obeys_eq_spec() -> bool {
        true
    }

    /// Two atoms are equal when their texts and hashes are.
    open spec fn eq_spec(&self, other: &Atom) -> bool {
        self.spec_text() == other.spec_text() && self.spec_hash() == other.spec_hash()
    }
}

impl Atom {
    pub closed spec fn spec_text(&self) -> Seq<char> {
        self.text@
    }

    pub closed spec fn spec_hash(&self) -> u32 {
        self.hash
    }

    /// Every atom's hash is the FNV-1a hash of its text.
    pub open spec fn wf(&self) -> bool {
        self.spec_hash() == fnv1a_spec(vstd::utf8::encode_utf8(self.spec_text()))
    }

    pub fn new(text: &str) -> (a: Atom)
        ensures
            a.spec_text() == text@,
            a.wf(),
    {
        Atom { text: owned(text), hash: fnv1a(text) }
    }

    pub fn as_str(&self) -> (t: &str)
        ensures
            t@ == self.spec_text(),
    {
        self.text.as_str()
    }

    /// The hash computed when the atom was made.
    pub fn precomputed_hash(&self) -> (h: u32)
        ensures
            h == self.spec_hash(),
    {
        self.hash
    }

    /// The atom as a CSS identifier, escaped where needed.
    pub fn to_css_string(&self) -> (css: String)
        ensures
            css@ == css_identifier(self.spec_text()),
    {
        serialize_identifier(self.text.as_str())
    }
}

impl Clone for Atom {
    fn clone(&self) -> (a: Atom)
        ensures
            a.spec_text() == self.spec_text(),
            a.spec_hash() == self.spec_hash(),
    {
        Atom { text: owned(self.text.as_str()), hash: self.hash }
    }
}

impl<'a> From<&'a str> for Atom {
    fn from(text: &'a str) -> (a: Atom)
        ensures
            a.spec_text() == text@,
            a.wf(),
    {
        Atom::new(text)
    }
}

impl<'a> vstd::std_specs::convert::FromSpecImpl<&'a str> for Atom {
    /// The result is stated by `from`'s own contract rather than by a
    /// spec function of the argument.
    open spec fn obeys_from_spec() -> bool {
        false
    }

    open spec fn from_spec(text: &'a str) -> Atom {
        arbitrary()
    }
}

impl Default for Atom {
    fn default() -> (a: Atom)
        ensures
            a.spec_text() == Seq::<char>::empty(),
            a.wf(),
    {
        proof {
            reveal_strlit("");
        }
        Atom::new("")
    }
}

/// Law: atoms are equal exactly when their texts are.
pub proof fn lemma_equal_exactly_when_text_is(a: Atom, b: Atom)
    requires
        a.wf(),
        b.wf(),
    ensures
        a.eq_spec(&b) == (a.spec_text() == b.spec_text()),
{
}

/// Law: atoms with the same text have the same hash.
pub proof fn lemma_equal_text_equal_hash(a: Atom, b: Atom)
    requires
        a.wf(),
        b.wf(),
        a.spec_text() == b.spec_text(),
    ensures
        a.spec_hash() == b.spec_hash(),
{
}

/// The value part of an attribute selector, the `"x"` in `[name="x"]`.
#[derive(PartialEq, Eq, Hash, Debug, Default)]
pub struct AttrValue(String);

impl AttrValue {
    pub closed spec fn spec_text(&self) -> Seq<char> {
        self.0@
    }

    pub fn new(text: &str) -> (v: AttrValue)
        ensures
            v.spec_text() == text@,
    {
        AttrValue(owned(text))
    }

    pub fn as_str(&self) -> (t: &str)
        ensures
            t@ == self.spec_text(),
    {
        self.0.as_str()
    }

    /// The value as a double-quoted CSS string, escaped where needed.
    pub fn to_css_string(&self) -> (css: String)
        ensures
            css@ == css_string(self.spec_text()),
    {
        serialize_string(self.0.as_str())
    }
}

impl<'a> From<&'a str> for AttrValue {
    fn from(text: &'a str) -> (v: AttrValue)
        ensures
            v.spec_text() == text@,
    {
        AttrValue::new(text)
    }
}

impl<'a> vstd::std_specs::convert::FromSpecImpl<&'a str> for AttrValue {
    /// The result is stated by `from`'s own contract rather than by a
    /// spec function of the argument.
    open spec fn obeys_from_spec() -> bool {
        false
    }

    open spec fn from_spec(text: &'a str) -> AttrValue {
        arbitrary()
    }
}

impl Clone for AttrValue {
    fn clone(&self) -> (v: AttrValue)
        ensures
            v.spec_text() == self.spec_text(),
    {
        AttrValue(owned(self.0.as_str()))
    }
}

} // verus!
