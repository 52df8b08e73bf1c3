//! Value types shared between specified and computed styles.

use vstd::prelude::*;

use crate::text::owned;

verus! {

/// How a border is drawn.
#[derive(Clone, Copy, Debug, PartialEq, Eq, Hash, Structural)]
pub enum BorderStyle {
    /// No border (`none` in CSS). The computed border width is zero.
    NoBorder,
    /// Like `None` for drawing and layout, kept distinct because CSS does.
    Hidden,
    Solid,
    Dashed,
    Dotted,
    Double,
}

/// Whether a border of this style takes up space and is drawn.
pub open spec fn border_visible(style: BorderStyle) -> bool {
    !(style is NoBorder || style is Hidden)
}

impl BorderStyle {
    /// Whether the border takes up space and is drawn.
    pub fn is_visible(self) -> (b: bool)
        ensures
            b == border_visible(self),
    {
        match self {
            BorderStyle::NoBorder | BorderStyle::Hidden => false,
            _ => true,
        }
    }
}

impl Default for BorderStyle {
    fn default() -> (s: Self)
        ensures
            s == BorderStyle::NoBorder,
    {
        BorderStyle::NoBorder
    }
}

#[derive(Clone, Copy, Debug, PartialEq, Eq, Hash, Structural)]
pub enum FontStyle {
    Normal,
    Italic,
    Oblique,
}

impl Default for FontStyle {
    fn default() -> (s: Self)
        ensures
            s == FontStyle::Normal,
    {
        FontStyle::Normal
    }
}

#[derive(Clone, Copy, Debug, PartialEq, Eq, Hash, Structural)]
pub enum TextAlign {
    /// The start of the line in the writing direction.
    Start,
    End,
    Left,
    Right,
    Center,
    Justify,
}

impl Default for TextAlign {
    fn default() -> (s: Self)
        ensures
            s == TextAlign::Start,
    {
        TextAlign::Start
    }
}

/// A prioritised list of font family names.
///
/// Generic families (`sans-serif`, `serif`, `monospace`, `system-ui`, ...)
/// are passed through as plain lower-case names; it is up to the toolkit to
/// map them to real fonts.
#[derive(Clone, Debug, PartialEq, Eq, Hash)]
pub struct FontFamily(Vec<String>);

impl FontFamily {
    /// The names, in order of preference.
    pub closed spec fn spec_names(&self) -> Seq<Seq<char>> {
        self.0@.map_values(|name: String| name@)
    }

    pub fn new(names: Vec<String>) -> (f: FontFamily)
        ensures
            f.spec_names() == names@.map_values(|name: String| name@),
    {
        FontFamily(names)
    }

    /// The names in order of preference.
    pub fn names(&self) -> (names: &[String])
        ensures
            names@.map_values(|name: String| name@) == self.spec_names(),
    {
        self.0.as_slice()
    }
}

impl Default for FontFamily {
    fn default() -> (f: Self)
        ensures
            f.spec_names() == seq![seq!['s', 'a', 'n', 's', '-', 's', 'e', 'r', 'i', 'f']],
    {
        let mut names: Vec<String> = Vec::new();
        names.push(owned("sans-serif"));
        proof {
            reveal_strlit("sans-serif");
            assert("sans-serif"@ =~= seq!['s', 'a', 'n', 's', '-', 's', 'e', 'r', 'i', 'f']);
            assert(names@.map_values(|name: String| name@) =~= seq![
                seq!['s', 'a', 'n', 's', '-', 's', 'e', 'r', 'i', 'f'],
            ]);
        }
        FontFamily(names)
    }
}

/// One value per side of a box, in the CSS order.
#[derive(Clone, Copy, Debug, PartialEq, Eq, Hash, Default)]
pub struct Sides<T> {
    pub top: T,
    pub right: T,
    pub bottom: T,
    pub left: T,
}

impl<T> Sides<T> {
    pub fn new(top: T, right: T, bottom: T, left: T) -> (s: Self)
        ensures
            s.top == top,
            s.right == right,
            s.bottom == bottom,
            s.left == left,
    {
        Sides { top, right, bottom, left }
    }

    /// The same value on every side.
    pub fn all(value: T) -> (s: Self) where T: Clone
        ensures
            cloned(value, s.top),
            cloned(value, s.right),
            cloned(value, s.bottom),
            s.left == value,
    {
        Sides::new(value.clone(), value.clone(), value.clone(), value)
    }
}

/// One value per corner of a box, in the CSS order.
#[derive(Clone, Copy, Debug, PartialEq, Eq, Hash, Default)]
pub struct Corners<T> {
    pub top_left: T,
    pub top_right: T,
    pub bottom_right: T,
    pub bottom_left: T,
}

impl<T> Corners<T> {
    pub fn new(top_left: T, top_right: T, bottom_right: T, bottom_left: T) -> (c: Self)
        ensures
            c.top_left == top_left,
            c.top_right == top_right,
            c.bottom_right == bottom_right,
            c.bottom_left == bottom_left,
    {
        Corners { top_left, top_right, bottom_right, bottom_left }
    }

    /// The same value on every corner.
    pub fn all(value: T) -> (c: Self) where T: Clone
        ensures
            cloned(value, c.top_left),
            cloned(value, c.top_right),
            cloned(value, c.bottom_right),
            c.bottom_left == value,
    {
        Corners::new(value.clone(), value.clone(), value.clone(), value)
    }
}

/// Spreads one to four values over the sides the way CSS shorthands do:
/// one value sets every side, two set top/bottom and right/left, three set
/// top, right/left and bottom, four go round from the top.
pub open spec fn spread<T>(values: Seq<T>) -> Sides<T>
    recommends
        1 <= values.len() <= 4,
{
    if values.len() == 1 {
        Sides { top: values[0], right: values[0], bottom: values[0], left: values[0] }
    } else if values.len() == 2 {
        Sides { top: values[0], right: values[1], bottom: values[0], left: values[1] }
    } else if values.len() == 3 {
        Sides { top: values[0], right: values[1], bottom: values[2], left: values[1] }
    } else {
        Sides { top: values[0], right: values[1], bottom: values[2], left: values[3] }
    }
}

/// Spreads the one to four values of a side shorthand over the four sides;
/// `None` for any other count, which a side shorthand rejects.
pub fn spread_sides<T: Copy>(values: &[T]) -> (s: Option<Sides<T>>)
    ensures
        (1 <= values@.len() <= 4) == (s is Some),
        s is Some ==> s->0 == spread(values@),
{
    let n = values.len();
    if n == 1 {
        Some(Sides::new(values[0], values[0], values[0], values[0]))
    } else if n == 2 {
        Some(Sides::new(values[0], values[1], values[0], values[1]))
    } else if n == 3 {
        Some(Sides::new(values[0], values[1], values[2], values[1]))
    } else if n == 4 {
        Some(Sides::new(values[0], values[1], values[2], values[3]))
    } else {
        None
    }
}

} // verus!
