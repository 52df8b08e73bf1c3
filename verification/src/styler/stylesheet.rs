//! Declaration blocks: the `{ ... }` part of a rule, or an inline style.

use vstd::prelude::*;

use crate::styler::properties::LonghandId;

verus! {

/// One longhand declaration and whether it was marked `!important`.
///
/// The cascade reads only which longhand a declaration sets and its
/// importance; the value itself is carried along untouched.
#[derive(Clone, Debug, PartialEq)]
pub struct Declaration<V> {
    pub longhand: LonghandId,
    pub value: V,
    pub important: bool,
}

/// What the cascade reads of declarations: each one's longhand and
/// importance, in order.
pub open spec fn entries_of<V>(declarations: Seq<Declaration<V>>) -> Seq<(LonghandId, bool)> {
    declarations.map_values(|d: Declaration<V>| (d.longhand, d.important))
}

/// The `{ ... }` part of a rule, or an inline style.
///
/// Shorthands are expanded when parsed, so this only ever holds longhands.
/// Later declarations of the same longhand win over earlier ones.
#[derive(Clone, Debug, PartialEq)]
pub struct DeclarationBlock<V> {
    declarations: Vec<Declaration<V>>,
}

impl<V> DeclarationBlock<V> {
    /// The declarations in source order.
    pub closed spec fn spec_declarations(&self) -> Seq<Declaration<V>> {
        self.declarations@
    }

    /// What the cascade reads of this block.
    pub open spec fn entries(&self) -> Seq<(LonghandId, bool)> {
        entries_of(self.spec_declarations())
    }

    pub fn new() -> (b: Self)
        ensures
            b.spec_declarations() == Seq::<Declaration<V>>::empty(),
    {
        DeclarationBlock { declarations: Vec::new() }
    }

    /// Appends a declaration of `longhand`, after every earlier one.
    pub fn push(&mut self, longhand: LonghandId, value: V, important: bool)
        ensures
            final(self).spec_declarations() == old(self).spec_declarations().push(
                Declaration { longhand, value, important },
            ),
    {
        self.declarations.push(Declaration { longhand, value, important });
    }

    pub fn declarations(&self) -> (d: &[Declaration<V>])
        ensures
            d@ == self.spec_declarations(),
    {
        self.declarations.as_slice()
    }

    pub fn len(&self) -> (n: usize)
        ensures
            n == self.spec_declarations().len(),
    {
        self.declarations.len()
    }

    pub fn is_empty(&self) -> (b: bool)
        ensures
            b == (self.spec_declarations().len() == 0),
    {
        self.declarations.len() == 0
    }
}

impl<V> Default for DeclarationBlock<V> {
    fn default() -> (b: Self)
        ensures
            b.spec_declarations() == Seq::<Declaration<V>>::empty(),
    {
        DeclarationBlock::new()
    }
}

} // verus!
