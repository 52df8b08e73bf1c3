//! The built-in widgets' own state and decisions.
//!
//! Each is a plain struct you can reach and change imperatively. How they
//! look comes entirely from the stylesheet; the widgets only know their own
//! content and what a key press does to it.

use vstd::prelude::*;

use crate::styler::element::ElementState;
use crate::text::{
    chars_of, drop_controls, extend_range, owned, same_text, string_of, trim, trimmed,
    without_controls,
};
use crate::ui::event::{Key, Modifiers};
use crate::ui::geometry::Axis;
use crate::ui::layout::{align_named, justify_named, Align, Justify};

verus! {

/// Lays its children out in a row or a column. Also what `panel`,
/// `separator`, `spacer` and `check` are made of; they differ only by tag,
/// which is what the stylesheet sees.
#[derive(Clone, Debug)]
pub struct Container {
    axis: Axis,
    /// How children are placed across the axis unless they say otherwise.
    /// The `align_items` attribute.
    pub align: Align,
    /// How children are spread along the axis when there is room left. The
    /// `justify` attribute.
    pub justify: Justify,
}

impl Container {
    pub closed spec fn spec_axis(&self) -> Axis {
        self.axis
    }

    pub closed spec fn spec_align(&self) -> Align {
        self.align
    }

    pub closed spec fn spec_justify(&self) -> Justify {
        self.justify
    }

    pub fn new(axis: Axis) -> (c: Container)
        ensures
            c.spec_axis() == axis,
            c.spec_align() == Align::Stretch,
            c.spec_justify() == Justify::Start,
    {
        Container { axis, align: Align::Stretch, justify: Justify::Start }
    }

    pub fn column() -> (c: Container)
        ensures
            c.spec_axis() == Axis::Vertical,
            c.spec_align() == Align::Stretch,
            c.spec_justify() == Justify::Start,
    {
        Container::new(Axis::Vertical)
    }

    pub fn row() -> (c: Container)
        ensures
            c.spec_axis() == Axis::Horizontal,
            c.spec_align() == Align::Stretch,
            c.spec_justify() == Justify::Start,
    {
        Container::new(Axis::Horizontal)
    }

    /// The direction the children are laid out in.
    pub fn axis(&self) -> (a: Axis)
        ensures
            a == self.spec_axis(),
    {
        self.axis
    }

    /// Takes `align_items` or `justify`; anything else, or a value neither
    /// understands, is refused and changes nothing.
    pub fn set_attribute(&mut self, name: &str, value: &str) -> (accepted: bool)
        ensures
            final(self).spec_axis() == old(self).spec_axis(),
            name@ == "align_items"@ && align_named(trim(value@)) is Some ==> accepted
                && final(self).spec_align() == align_named(trim(value@))->0 && final(self).spec_justify() == old(self).spec_justify(),
            name@ == "justify"@ && justify_named(trim(value@)) is Some ==> accepted
                && final(self).spec_justify() == justify_named(trim(value@))->0 && final(self).spec_align()
                == old(self).spec_align(),
            !(name@ == "align_items"@ && align_named(trim(value@)) is Some) && !(name@
                == "justify"@ && justify_named(trim(value@)) is Some) ==> !accepted && *final(self)
                == *old(self),
    {
        let name_chars = chars_of(name);
        proof {
            reveal_strlit("align_items");
            reveal_strlit("justify");
            assert("justify"@.len() != "align_items"@.len());
        }
        if same_text(&name_chars, "align_items") {
            match Align::parse(value) {
                Some(align) => {
                    self.align = align;
                    true
                },
                None => false,
            }
        } else if same_text(&name_chars, "justify") {
            match Justify::parse(value) {
                Some(justify) => {
                    self.justify = justify;
                    true
                },
                None => false,
            }
        } else {
            false
        }
    }
}

/// A single line of text.
#[derive(Clone, Debug)]
pub struct Label {
    text: String,
}

impl Label {
    pub closed spec fn spec_text(&self) -> Seq<char> {
        self.text@
    }

    pub fn new(text: &str) -> (l: Label)
        ensures
            l.spec_text() == text@,
    {
        Label { text: owned(text) }
    }

    pub fn text(&self) -> (t: &str)
        ensures
            t@ == self.spec_text(),
    {
        self.text.as_str()
    }

    pub fn set_text(&mut self, text: &str)
        ensures
            final(self).spec_text() == text@,
    {
        self.text = owned(text);
    }

    /// Takes `text`; anything else is refused and changes nothing.
    pub fn set_attribute(&mut self, name: &str, value: &str) -> (accepted: bool)
        ensures
            accepted == (name@ == "text"@),
            accepted ==> final(self).spec_text() == value@,
            !accepted ==> final(self).spec_text() == old(self).spec_text(),
    {
        if same_text(&chars_of(name), "text") {
            self.text = owned(value);
            return true;
        }
        false
    }
}

/// A push button. Its children (usually a text label) are laid out in a
/// row, so an icon element can sit next to the text.
///
/// Fires `click` on a pointer release over the button, on Enter or Space
/// while focused, and when its `shortcut` is pressed.
#[derive(Clone, Debug, Default)]
pub struct Button;

impl Button {
    /// Whether a key press on the focused button clicks it: Enter or Space
    /// with no modifier held.
    pub fn activated_by(key: Key, modifiers: Modifiers) -> (b: bool)
        ensures
            b == ((key == Key::Enter || key == Key::Space) && modifiers.spec_bits() == 0),
    {
        (key == Key::Enter || key == Key::Space) && modifiers.is_empty()
    }
}

/// A box that can be checked, followed by its children in a row.
///
/// The box itself is a child element with the tag `check`, so it is styled
/// like anything else: `checkbox:checked > check { background-color: ... }`.
/// Fires `toggle` with the new state on click or Space.
#[derive(Clone, Debug)]
pub struct Checkbox {
    checked: bool,
}

impl Checkbox {
    pub closed spec fn spec_checked(&self) -> bool {
        self.checked
    }

    pub fn new(checked: bool) -> (c: Checkbox)
        ensures
            c.spec_checked() == checked,
    {
        Checkbox { checked }
    }

    pub fn is_checked(&self) -> (b: bool)
        ensures
            b == self.spec_checked(),
    {
        self.checked
    }

    pub fn set_checked(&mut self, checked: bool)
        ensures
            final(self).spec_checked() == checked,
    {
        self.checked = checked;
    }

    /// Takes `checked`, read with [`parse_bool`]; anything else is refused
    /// and changes nothing.
    pub fn set_attribute(&mut self, name: &str, value: &str) -> (accepted: bool)
        ensures
            accepted == (name@ == "checked"@),
            accepted ==> final(self).spec_checked() == bool_named(trim(value@)),
            !accepted ==> final(self).spec_checked() == old(self).spec_checked(),
    {
        if same_text(&chars_of(name), "checked") {
            self.checked = parse_bool(value);
            return true;
        }
        false
    }

    /// `CHECKED` while checked.
    pub fn state(&self) -> (s: ElementState)
        ensures
            s.spec_bits() == (if self.spec_checked() {
                64u16
            } else {
                0u16
            }),
    {
        if self.checked {
            ElementState::checked()
        } else {
            ElementState::empty()
        }
    }

    /// Whether a key press on the focused checkbox toggles it: Space with
    /// no modifier held.
    pub fn toggled_by(key: Key, modifiers: Modifiers) -> (b: bool)
        ensures
            b == (key == Key::Space && modifiers.spec_bits() == 0),
    {
        key == Key::Space && modifiers.is_empty()
    }

    /// Flips the box and returns the new state, which is what `toggle`
    /// reports.
    pub fn toggle(&mut self) -> (checked: bool)
        ensures
            checked == !old(self).spec_checked(),
            final(self).spec_checked() == checked,
    {
        self.checked = !self.checked;
        self.checked
    }
}

/// What a trimmed attribute value means as a flag: everything but `false`,
/// `0`, `no` and `off` is true, including the empty value of a bare
/// attribute.
pub open spec fn bool_named(word: Seq<char>) -> bool {
    !(word == "false"@ || word == "0"@ || word == "no"@ || word == "off"@)
}

/// `true`, `false`, or the attribute's bare presence (`checked=""`).
pub fn parse_bool(value: &str) -> (b: bool)
    ensures
        b == bool_named(trim(value@)),
{
    let word = trimmed(&chars_of(value));
    !(same_text(&word, "false") || same_text(&word, "0") || same_text(&word, "no") || same_text(
        &word,
        "off",
    ))
}

/// What a key press did to a text field.
#[derive(Clone, Copy, Debug, PartialEq, Eq, Structural)]
pub enum TextKeyEffect {
    /// The field does not use the key; it goes on to the parent.
    Ignored,
    /// The field used the key but nothing changed, such as Backspace at the
    /// start of the text.
    Handled,
    /// The caret moved.
    Moved,
    /// The text changed: the field fires `change` with the new text.
    Changed,
    /// Enter: the field fires `submit` with its text.
    Submitted,
}

/// A single-line text field.
///
/// Fires `change` on every edit and `submit` on Enter. Left, Right, Home,
/// End, Backspace and Delete move and edit; a click places the caret.
#[derive(Debug)]
pub struct TextInput {
    text: String,
    /// In characters from the start.
    cursor: usize,
    placeholder: String,
}

/// The text with `inserted` put in at `cursor`.
pub open spec fn text_inserted(text: Seq<char>, cursor: int, inserted: Seq<char>) -> Seq<char> {
    text.take(cursor) + inserted + text.skip(cursor)
}

/// The text without the character before `cursor`.
pub open spec fn text_deleted_before(text: Seq<char>, cursor: int) -> Seq<char> {
    text.take(cursor - 1) + text.skip(cursor)
}

/// Typing one character and then pressing Backspace gives back the text and
/// the caret as they were: the caret moves past the character, and
/// Backspace deletes exactly it.
pub proof fn lemma_insert_then_delete_before(text: Seq<char>, cursor: int, c: char)
    requires
        0 <= cursor <= text.len(),
    ensures
        text_deleted_before(text_inserted(text, cursor, seq![c]), cursor + 1) == text,
{
    let t = text_inserted(text, cursor, seq![c]);
    assert(t.take(cursor) =~= text.take(cursor));
    assert(t.skip(cursor + 1) =~= text.skip(cursor));
    assert(text.take(cursor) + text.skip(cursor) =~= text);
}

impl TextInput {
    /// The caret never leaves the text.
    #[verifier::type_invariant]
    spec fn caret_in_text(self) -> bool {
        self.cursor <= self.text@.len()
    }

    pub closed spec fn spec_text(&self) -> Seq<char> {
        self.text@
    }

    /// Same text, caret and placeholder.
    pub open spec fn same(&self, other: &TextInput) -> bool {
        &&& self.spec_text() == other.spec_text()
        &&& self.spec_cursor() == other.spec_cursor()
        &&& self.spec_placeholder() == other.spec_placeholder()
    }

    pub closed spec fn spec_cursor(&self) -> nat {
        self.cursor as nat
    }

    pub closed spec fn spec_placeholder(&self) -> Seq<char> {
        self.placeholder@
    }

    /// A field holding `text`, with the caret at the end.
    pub fn new(text: &str) -> (input: TextInput)
        ensures
            input.spec_text() == text@,
            input.spec_cursor() == text@.len(),
            input.spec_placeholder() == Seq::<char>::empty(),
    {
        let text = owned(text);
        let cursor = text.as_str().unicode_len();
        TextInput { text, cursor, placeholder: String::new() }
    }

    pub fn text(&self) -> (t: &str)
        ensures
            t@ == self.spec_text(),
    {
        self.text.as_str()
    }

    /// Replaces the text and puts the caret at the end.
    pub fn set_text(&mut self, text: &str)
        ensures
            final(self).spec_text() == text@,
            final(self).spec_cursor() == text@.len(),
            final(self).spec_placeholder() == old(self).spec_placeholder(),
    {
        self.cursor = 0;
        self.text = owned(text);
        self.cursor = self.text.as_str().unicode_len();
    }

    pub fn placeholder(&self) -> (t: &str)
        ensures
            t@ == self.spec_placeholder(),
    {
        self.placeholder.as_str()
    }

    pub fn set_placeholder(&mut self, text: &str)
        ensures
            final(self).spec_placeholder() == text@,
            final(self).spec_text() == old(self).spec_text(),
            final(self).spec_cursor() == old(self).spec_cursor(),
    {
        proof {
            use_type_invariant(&*self);
        }
        self.placeholder = owned(text);
    }

    /// The caret position in characters from the start.
    pub fn cursor(&self) -> (c: usize)
        ensures
            c == self.spec_cursor(),
            c <= self.spec_text().len(),
    {
        proof {
            use_type_invariant(self);
        }
        self.cursor
    }

    /// Puts the caret after `chars` characters, or at the end if the text
    /// is shorter. What a click into the field does, once the toolkit has
    /// worked out which character boundary is nearest the pointer.
    pub fn place_cursor(&mut self, chars: usize)
        ensures
            final(self).spec_cursor() == (if chars <= old(self).spec_text().len() {
                chars as nat
            } else {
                old(self).spec_text().len()
            }),
            final(self).spec_text() == old(self).spec_text(),
            final(self).spec_placeholder() == old(self).spec_placeholder(),
    {
        let len = self.text.as_str().unicode_len();
        self.cursor = if chars <= len {
            chars
        } else {
            len
        };
    }

    /// Inserts `inserted` at the caret and moves the caret past it.
    pub fn insert(&mut self, inserted: &str)
        ensures
            final(self).spec_text() == text_inserted(
                old(self).spec_text(),
                old(self).spec_cursor() as int,
                inserted@,
            ),
            final(self).spec_cursor() == old(self).spec_cursor() + inserted@.len(),
            final(self).spec_placeholder() == old(self).spec_placeholder(),
    {
        proof {
            use_type_invariant(&*self);
        }
        let chars = chars_of(self.text.as_str());
        let added = chars_of(inserted);
        let mut next: Vec<char> = Vec::new();
        extend_range(&mut next, &chars, 0, self.cursor);
        extend_range(&mut next, &added, 0, added.len());
        extend_range(&mut next, &chars, self.cursor, chars.len());
        proof {
            assert(added@.subrange(0, added@.len() as int) =~= added@);
            assert(chars@.subrange(0, self.cursor as int) =~= chars@.take(self.cursor as int));
            assert(chars@.subrange(self.cursor as int, chars@.len() as int) =~= chars@.skip(
                self.cursor as int,
            ));
        }
        let cursor = next.len() - (chars.len() - self.cursor);
        self.text = string_of(&next);
        self.cursor = cursor;
    }

    /// Deletes the character before the caret, if there is one.
    pub fn delete_before(&mut self) -> (deleted: bool)
        ensures
            deleted == (old(self).spec_cursor() > 0),
            deleted ==> final(self).spec_text() == text_deleted_before(
                old(self).spec_text(),
                old(self).spec_cursor() as int,
            ),
            deleted ==> final(self).spec_cursor() == old(self).spec_cursor() - 1,
            !deleted ==> final(self).spec_text() == old(self).spec_text() && final(self).spec_cursor()
                == old(self).spec_cursor(),
            final(self).spec_placeholder() == old(self).spec_placeholder(),
    {
        proof {
            use_type_invariant(&*self);
        }
        if self.cursor == 0 {
            return false;
        }
        let chars = chars_of(self.text.as_str());
        let mut next: Vec<char> = Vec::new();
        extend_range(&mut next, &chars, 0, self.cursor - 1);
        extend_range(&mut next, &chars, self.cursor, chars.len());
        proof {
            assert(chars@.subrange(0, self.cursor - 1) =~= chars@.take(self.cursor - 1));
            assert(chars@.subrange(self.cursor as int, chars@.len() as int) =~= chars@.skip(
                self.cursor as int,
            ));
        }
        self.cursor = self.cursor - 1;
        self.text = string_of(&next);
        true
    }

    /// Deletes the character after the caret, if there is one.
    pub fn delete_after(&mut self) -> (deleted: bool)
        ensures
            deleted == (old(self).spec_cursor() < old(self).spec_text().len()),
            deleted ==> final(self).spec_text() == old(self).spec_text().take(
                old(self).spec_cursor() as int,
            ) + old(self).spec_text().skip(old(self).spec_cursor() + 1int),
            final(self).spec_cursor() == old(self).spec_cursor(),
            !deleted ==> final(self).spec_text() == old(self).spec_text(),
            final(self).spec_placeholder() == old(self).spec_placeholder(),
    {
        proof {
            use_type_invariant(&*self);
        }
        let chars = chars_of(self.text.as_str());
        if self.cursor >= chars.len() {
            return false;
        }
        let mut next: Vec<char> = Vec::new();
        extend_range(&mut next, &chars, 0, self.cursor);
        extend_range(&mut next, &chars, self.cursor + 1, chars.len());
        proof {
            assert(chars@.subrange(0, self.cursor as int) =~= chars@.take(self.cursor as int));
            assert(chars@.subrange(self.cursor + 1, chars@.len() as int) =~= chars@.skip(
                self.cursor + 1,
            ));
        }
        self.text = string_of(&next);
        true
    }

    /// Inserts typed text at the caret, leaving out control characters.
    /// Returns whether anything was inserted, in which case the field fires
    /// `change`.
    pub fn type_text(&mut self, typed: &str) -> (changed: bool)
        ensures
            changed == (without_controls(typed@).len() > 0),
            changed ==> final(self).spec_text() == old(self).spec_text().take(
                old(self).spec_cursor() as int,
            ) + without_controls(typed@) + old(self).spec_text().skip(
                old(self).spec_cursor() as int,
            ),
            changed ==> final(self).spec_cursor() == old(self).spec_cursor() + without_controls(
                typed@,
            ).len(),
            !changed ==> final(self).spec_text() == old(self).spec_text() && final(self).spec_cursor() == old(self).spec_cursor(),
            final(self).spec_placeholder() == old(self).spec_placeholder(),
    {
        let clean = drop_controls(&chars_of(typed));
        if clean.len() == 0 {
            return false;
        }
        let clean_text = string_of(&clean);
        self.insert(clean_text.as_str());
        true
    }

    /// Applies a key press to the field. Left, Right, Home and End move the
    /// caret; Backspace and Delete edit; Enter submits. Keys held with Ctrl,
    /// Alt or Cmd, and all other keys, are left for the parent.
    pub fn press(&mut self, key: Key, modifiers: Modifiers) -> (effect: TextKeyEffect)
        ensures
            final(self).spec_placeholder() == old(self).spec_placeholder(),
            ({
                let text = old(self).spec_text();
                let cursor = old(self).spec_cursor();
                if modifiers.spec_bits() & 13 != 0 {
                    effect == TextKeyEffect::Ignored && final(self).same(old(self))
                } else {
                    match key {
                        Key::Backspace => if cursor > 0 {
                            effect == TextKeyEffect::Changed && final(self).spec_text() == text.take(
                                cursor - 1,
                            ) + text.skip(cursor as int) && final(self).spec_cursor() == cursor - 1
                        } else {
                            effect == TextKeyEffect::Handled && final(self).same(old(self))
                        },
                        Key::Delete => if cursor < text.len() {
                            effect == TextKeyEffect::Changed && final(self).spec_text() == text.take(
                                cursor as int,
                            ) + text.skip(cursor + 1int) && final(self).spec_cursor() == cursor
                        } else {
                            effect == TextKeyEffect::Handled && final(self).same(old(self))
                        },
                        Key::ArrowLeft => effect == TextKeyEffect::Moved && final(self).spec_text()
                            == text && final(self).spec_cursor() == (if cursor > 0 {
                            cursor - 1
                        } else {
                            0
                        }),
                        Key::ArrowRight => effect == TextKeyEffect::Moved && final(self).spec_text()
                            == text && final(self).spec_cursor() == (if cursor < text.len() {
                            cursor + 1
                        } else {
                            text.len()
                        }),
                        Key::Home => effect == TextKeyEffect::Moved && final(self).spec_text()
                            == text && final(self).spec_cursor() == 0,
                        Key::End => effect == TextKeyEffect::Moved && final(self).spec_text() == text
                            && final(self).spec_cursor() == text.len(),
                        Key::Enter => effect == TextKeyEffect::Submitted && final(self).same(old(self)),
                        _ => effect == TextKeyEffect::Ignored && final(self).same(old(self)),
                    }
                }
            }),
    {
        proof {
            use_type_invariant(&*self);
        }
        if modifiers.bits() & 13 != 0 {
            return TextKeyEffect::Ignored;
        }
        match key {
            Key::Backspace => if self.delete_before() {
                TextKeyEffect::Changed
            } else {
                TextKeyEffect::Handled
            },
            Key::Delete => if self.delete_after() {
                TextKeyEffect::Changed
            } else {
                TextKeyEffect::Handled
            },
            Key::ArrowLeft => {
                self.cursor = if self.cursor > 0 {
                    self.cursor - 1
                } else {
                    0
                };
                TextKeyEffect::Moved
            },
            Key::ArrowRight => {
                let len = self.text.as_str().unicode_len();
                self.cursor = if self.cursor < len {
                    self.cursor + 1
                } else {
                    len
                };
                TextKeyEffect::Moved
            },
            Key::Home => {
                self.cursor = 0;
                TextKeyEffect::Moved
            },
            Key::End => {
                self.cursor = self.text.as_str().unicode_len();
                TextKeyEffect::Moved
            },
            Key::Enter => TextKeyEffect::Submitted,
            _ => TextKeyEffect::Ignored,
        }
    }

    /// `PLACEHOLDER_SHOWN` while the text is empty.
    pub fn state(&self) -> (s: ElementState)
        ensures
            s.spec_bits() == (if self.spec_text().len() == 0 {
                2048u16
            } else {
                0u16
            }),
    {
        if self.text.as_str().unicode_len() == 0 {
            ElementState::placeholder_shown()
        } else {
            ElementState::empty()
        }
    }

    /// Takes `value`, which replaces the text, and `placeholder`; anything
    /// else is refused and changes nothing.
    pub fn set_attribute(&mut self, name: &str, value: &str) -> (accepted: bool)
        ensures
            accepted == (name@ == "value"@ || name@ == "placeholder"@),
            name@ == "value"@ ==> final(self).spec_text() == value@ && final(self).spec_cursor()
                == value@.len() && final(self).spec_placeholder() == old(self).spec_placeholder(),
            name@ == "placeholder"@ ==> final(self).spec_placeholder() == value@ && final(self).spec_text() == old(self).spec_text() && final(self).spec_cursor() == old(self).spec_cursor(),
            !accepted ==> final(self).same(old(self)),
    {
        let name_chars = chars_of(name);
        proof {
            reveal_strlit("value");
            reveal_strlit("placeholder");
            assert("value"@.len() != "placeholder"@.len());
        }
        if same_text(&name_chars, "value") {
            self.set_text(value);
            true
        } else if same_text(&name_chars, "placeholder") {
            self.set_placeholder(value);
            true
        } else {
            false
        }
    }
}

impl Clone for TextInput {
    fn clone(&self) -> (c: TextInput)
        ensures
            c.same(self),
    {
        proof {
            use_type_invariant(self);
        }
        TextInput {
            text: owned(self.text.as_str()),
            cursor: self.cursor,
            placeholder: owned(self.placeholder.as_str()),
        }
    }
}

impl Default for Label {
    /// A label with no text.
    fn default() -> (l: Label)
        ensures
            l.spec_text() == Seq::<char>::empty(),
    {
        Label { text: String::new() }
    }
}

impl Default for Checkbox {
    /// An unchecked box.
    fn default() -> (c: Checkbox)
        ensures
            !c.spec_checked(),
    {
        Checkbox { checked: false }
    }
}

impl Default for TextInput {
    fn default() -> (input: TextInput)
        ensures
            input.spec_text() == Seq::<char>::empty(),
            input.spec_cursor() == 0,
            input.spec_placeholder() == Seq::<char>::empty(),
    {
        TextInput { text: String::new(), cursor: 0, placeholder: String::new() }
    }
}

/// A widget with nothing of its own: an empty box for the stylesheet to
/// paint. Used for `check`, `separator` and `spacer`.
#[derive(Clone, Debug, Default)]
pub struct Blank;

} // verus!
