//! The properties this crate understands: their names, which of them
//! inherit, and which longhands each shorthand sets.

use vstd::prelude::*;

use crate::text::{chars_of, lower_all, lower_seq, same_text};

verus! {

/// Every longhand property. Shorthands expand to these when parsed, so the
/// cascade only ever deals with longhands.
#[derive(Clone, Copy, Debug, PartialEq, Eq, Hash, Structural)]
pub enum LonghandId {
    /// `width`
    Width,
    /// `height`
    Height,
    /// `min-width`
    MinWidth,
    /// `min-height`
    MinHeight,
    /// `max-width`
    MaxWidth,
    /// `max-height`
    MaxHeight,
    /// `margin-top`
    MarginTop,
    /// `margin-right`
    MarginRight,
    /// `margin-bottom`
    MarginBottom,
    /// `margin-left`
    MarginLeft,
    /// `padding-top`
    PaddingTop,
    /// `padding-right`
    PaddingRight,
    /// `padding-bottom`
    PaddingBottom,
    /// `padding-left`
    PaddingLeft,
    /// `row-gap`
    RowGap,
    /// `column-gap`
    ColumnGap,
    /// `color`
    Color,
    /// `background-color`
    BackgroundColor,
    /// `opacity`
    Opacity,
    /// `border-top-width`
    BorderTopWidth,
    /// `border-right-width`
    BorderRightWidth,
    /// `border-bottom-width`
    BorderBottomWidth,
    /// `border-left-width`
    BorderLeftWidth,
    /// `border-top-style`
    BorderTopStyle,
    /// `border-right-style`
    BorderRightStyle,
    /// `border-bottom-style`
    BorderBottomStyle,
    /// `border-left-style`
    BorderLeftStyle,
    /// `border-top-color`
    BorderTopColor,
    /// `border-right-color`
    BorderRightColor,
    /// `border-bottom-color`
    BorderBottomColor,
    /// `border-left-color`
    BorderLeftColor,
    /// `border-top-left-radius`
    BorderTopLeftRadius,
    /// `border-top-right-radius`
    BorderTopRightRadius,
    /// `border-bottom-right-radius`
    BorderBottomRightRadius,
    /// `border-bottom-left-radius`
    BorderBottomLeftRadius,
    /// `font-family`
    FontFamily,
    /// `font-size`
    FontSize,
    /// `font-weight`
    FontWeight,
    /// `font-style`
    FontStyle,
    /// `line-height`
    LineHeight,
    /// `letter-spacing`
    LetterSpacing,
    /// `text-align`
    TextAlign,
}

/// The number of longhands, for tables indexed by [`LonghandId::index`].
pub const LONGHAND_COUNT: usize = 42;

/// The CSS name of a longhand, such as `border-top-width`.
pub open spec fn longhand_name(id: LonghandId) -> Seq<char> {
    match id {
        LonghandId::Width => seq!['w', 'i', 'd', 't', 'h'],
        LonghandId::Height => seq!['h', 'e', 'i', 'g', 'h', 't'],
        LonghandId::MinWidth => seq!['m', 'i', 'n', '-', 'w', 'i', 'd', 't', 'h'],
        LonghandId::MinHeight => seq!['m', 'i', 'n', '-', 'h', 'e', 'i', 'g', 'h', 't'],
        LonghandId::MaxWidth => seq!['m', 'a', 'x', '-', 'w', 'i', 'd', 't', 'h'],
        LonghandId::MaxHeight => seq!['m', 'a', 'x', '-', 'h', 'e', 'i', 'g', 'h', 't'],
        LonghandId::MarginTop => seq!['m', 'a', 'r', 'g', 'i', 'n', '-', 't', 'o', 'p'],
        LonghandId::MarginRight => seq!['m', 'a', 'r', 'g', 'i', 'n', '-', 'r', 'i', 'g', 'h', 't'],
        LonghandId::MarginBottom => seq!['m', 'a', 'r', 'g', 'i', 'n', '-', 'b', 'o', 't', 't', 'o', 'm'],
        LonghandId::MarginLeft => seq!['m', 'a', 'r', 'g', 'i', 'n', '-', 'l', 'e', 'f', 't'],
        LonghandId::PaddingTop => seq!['p', 'a', 'd', 'd', 'i', 'n', 'g', '-', 't', 'o', 'p'],
        LonghandId::PaddingRight => seq!['p', 'a', 'd', 'd', 'i', 'n', 'g', '-', 'r', 'i', 'g', 'h', 't'],
        LonghandId::PaddingBottom => seq!['p', 'a', 'd', 'd', 'i', 'n', 'g', '-', 'b', 'o', 't', 't', 'o', 'm'],
        LonghandId::PaddingLeft => seq!['p', 'a', 'd', 'd', 'i', 'n', 'g', '-', 'l', 'e', 'f', 't'],
        LonghandId::RowGap => seq!['r', 'o', 'w', '-', 'g', 'a', 'p'],
        LonghandId::ColumnGap => seq!['c', 'o', 'l', 'u', 'm', 'n', '-', 'g', 'a', 'p'],
        LonghandId::Color => seq!['c', 'o', 'l', 'o', 'r'],
        LonghandId::BackgroundColor => seq!['b', 'a', 'c', 'k', 'g', 'r', 'o', 'u', 'n', 'd', '-', 'c', 'o', 'l', 'o', 'r'],
        LonghandId::Opacity => seq!['o', 'p', 'a', 'c', 'i', 't', 'y'],
        LonghandId::BorderTopWidth => seq!['b', 'o', 'r', 'd', 'e', 'r', '-', 't', 'o', 'p', '-', 'w', 'i', 'd', 't', 'h'],
        LonghandId::BorderRightWidth => seq!['b', 'o', 'r', 'd', 'e', 'r', '-', 'r', 'i', 'g', 'h', 't', '-', 'w', 'i', 'd', 't', 'h'],
        LonghandId::BorderBottomWidth => seq!['b', 'o', 'r', 'd', 'e', 'r', '-', 'b', 'o', 't', 't', 'o', 'm', '-', 'w', 'i', 'd', 't', 'h'],
        LonghandId::BorderLeftWidth => seq!['b', 'o', 'r', 'd', 'e', 'r', '-', 'l', 'e', 'f', 't', '-', 'w', 'i', 'd', 't', 'h'],
        LonghandId::BorderTopStyle => seq!['b', 'o', 'r', 'd', 'e', 'r', '-', 't', 'o', 'p', '-', 's', 't', 'y', 'l', 'e'],
        LonghandId::BorderRightStyle => seq!['b', 'o', 'r', 'd', 'e', 'r', '-', 'r', 'i', 'g', 'h', 't', '-', 's', 't', 'y', 'l', 'e'],
        LonghandId::BorderBottomStyle => seq!['b', 'o', 'r', 'd', 'e', 'r', '-', 'b', 'o', 't', 't', 'o', 'm', '-', 's', 't', 'y', 'l', 'e'],
        LonghandId::BorderLeftStyle => seq!['b', 'o', 'r', 'd', 'e', 'r', '-', 'l', 'e', 'f', 't', '-', 's', 't', 'y', 'l', 'e'],
        LonghandId::BorderTopColor => seq!['b', 'o', 'r', 'd', 'e', 'r', '-', 't', 'o', 'p', '-', 'c', 'o', 'l', 'o', 'r'],
        LonghandId::BorderRightColor => seq!['b', 'o', 'r', 'd', 'e', 'r', '-', 'r', 'i', 'g', 'h', 't', '-', 'c', 'o', 'l', 'o', 'r'],
        LonghandId::BorderBottomColor => seq!['b', 'o', 'r', 'd', 'e', 'r', '-', 'b', 'o', 't', 't', 'o', 'm', '-', 'c', 'o', 'l', 'o', 'r'],
        LonghandId::BorderLeftColor => seq!['b', 'o', 'r', 'd', 'e', 'r', '-', 'l', 'e', 'f', 't', '-', 'c', 'o', 'l', 'o', 'r'],
        LonghandId::BorderTopLeftRadius => seq!['b', 'o', 'r', 'd', 'e', 'r', '-', 't', 'o', 'p', '-', 'l', 'e', 'f', 't', '-', 'r', 'a', 'd', 'i', 'u', 's'],
        LonghandId::BorderTopRightRadius => seq!['b', 'o', 'r', 'd', 'e', 'r', '-', 't', 'o', 'p', '-', 'r', 'i', 'g', 'h', 't', '-', 'r', 'a', 'd', 'i', 'u', 's'],
        LonghandId::BorderBottomRightRadius => seq!['b', 'o', 'r', 'd', 'e', 'r', '-', 'b', 'o', 't', 't', 'o', 'm', '-', 'r', 'i', 'g', 'h', 't', '-', 'r', 'a', 'd', 'i', 'u', 's'],
        LonghandId::BorderBottomLeftRadius => seq!['b', 'o', 'r', 'd', 'e', 'r', '-', 'b', 'o', 't', 't', 'o', 'm', '-', 'l', 'e', 'f', 't', '-', 'r', 'a', 'd', 'i', 'u', 's'],
        LonghandId::FontFamily => seq!['f', 'o', 'n', 't', '-', 'f', 'a', 'm', 'i', 'l', 'y'],
        LonghandId::FontSize => seq!['f', 'o', 'n', 't', '-', 's', 'i', 'z', 'e'],
        LonghandId::FontWeight => seq!['f', 'o', 'n', 't', '-', 'w', 'e', 'i', 'g', 'h', 't'],
        LonghandId::FontStyle => seq!['f', 'o', 'n', 't', '-', 's', 't', 'y', 'l', 'e'],
        LonghandId::LineHeight => seq!['l', 'i', 'n', 'e', '-', 'h', 'e', 'i', 'g', 'h', 't'],
        LonghandId::LetterSpacing => seq!['l', 'e', 't', 't', 'e', 'r', '-', 's', 'p', 'a', 'c', 'i', 'n', 'g'],
        LonghandId::TextAlign => seq!['t', 'e', 'x', 't', '-', 'a', 'l', 'i', 'g', 'n'],
    }
}

/// Whether a longhand inherits from the parent by default.
pub open spec fn longhand_inherited(id: LonghandId) -> bool {
    match id {
        LonghandId::Color | LonghandId::FontFamily | LonghandId::FontSize | LonghandId::FontWeight | LonghandId::FontStyle | LonghandId::LineHeight | LonghandId::LetterSpacing | LonghandId::TextAlign => true,
        _ => false,
    }
}

/// A longhand's position in the table, `0` to `LONGHAND_COUNT - 1`.
pub open spec fn longhand_index(id: LonghandId) -> nat {
    match id {
        LonghandId::Width => 0,
        LonghandId::Height => 1,
        LonghandId::MinWidth => 2,
        LonghandId::MinHeight => 3,
        LonghandId::MaxWidth => 4,
        LonghandId::MaxHeight => 5,
        LonghandId::MarginTop => 6,
        LonghandId::MarginRight => 7,
        LonghandId::MarginBottom => 8,
        LonghandId::MarginLeft => 9,
        LonghandId::PaddingTop => 10,
        LonghandId::PaddingRight => 11,
        LonghandId::PaddingBottom => 12,
        LonghandId::PaddingLeft => 13,
        LonghandId::RowGap => 14,
        LonghandId::ColumnGap => 15,
        LonghandId::Color => 16,
        LonghandId::BackgroundColor => 17,
        LonghandId::Opacity => 18,
        LonghandId::BorderTopWidth => 19,
        LonghandId::BorderRightWidth => 20,
        LonghandId::BorderBottomWidth => 21,
        LonghandId::BorderLeftWidth => 22,
        LonghandId::BorderTopStyle => 23,
        LonghandId::BorderRightStyle => 24,
        LonghandId::BorderBottomStyle => 25,
        LonghandId::BorderLeftStyle => 26,
        LonghandId::BorderTopColor => 27,
        LonghandId::BorderRightColor => 28,
        LonghandId::BorderBottomColor => 29,
        LonghandId::BorderLeftColor => 30,
        LonghandId::BorderTopLeftRadius => 31,
        LonghandId::BorderTopRightRadius => 32,
        LonghandId::BorderBottomRightRadius => 33,
        LonghandId::BorderBottomLeftRadius => 34,
        LonghandId::FontFamily => 35,
        LonghandId::FontSize => 36,
        LonghandId::FontWeight => 37,
        LonghandId::FontStyle => 38,
        LonghandId::LineHeight => 39,
        LonghandId::LetterSpacing => 40,
        LonghandId::TextAlign => 41,
    }
}

/// Every longhand, in table order.
pub open spec fn all_longhands() -> Seq<LonghandId> {
    seq![
        LonghandId::Width,
        LonghandId::Height,
        LonghandId::MinWidth,
        LonghandId::MinHeight,
        LonghandId::MaxWidth,
        LonghandId::MaxHeight,
        LonghandId::MarginTop,
        LonghandId::MarginRight,
        LonghandId::MarginBottom,
        LonghandId::MarginLeft,
        LonghandId::PaddingTop,
        LonghandId::PaddingRight,
        LonghandId::PaddingBottom,
        LonghandId::PaddingLeft,
        LonghandId::RowGap,
        LonghandId::ColumnGap,
        LonghandId::Color,
        LonghandId::BackgroundColor,
        LonghandId::Opacity,
        LonghandId::BorderTopWidth,
        LonghandId::BorderRightWidth,
        LonghandId::BorderBottomWidth,
        LonghandId::BorderLeftWidth,
        LonghandId::BorderTopStyle,
        LonghandId::BorderRightStyle,
        LonghandId::BorderBottomStyle,
        LonghandId::BorderLeftStyle,
        LonghandId::BorderTopColor,
        LonghandId::BorderRightColor,
        LonghandId::BorderBottomColor,
        LonghandId::BorderLeftColor,
        LonghandId::BorderTopLeftRadius,
        LonghandId::BorderTopRightRadius,
        LonghandId::BorderBottomRightRadius,
        LonghandId::BorderBottomLeftRadius,
        LonghandId::FontFamily,
        LonghandId::FontSize,
        LonghandId::FontWeight,
        LonghandId::FontStyle,
        LonghandId::LineHeight,
        LonghandId::LetterSpacing,
        LonghandId::TextAlign
    ]
}

/// The longhand a lower-case name stands for.
pub open spec fn longhand_named(name: Seq<char>) -> Option<LonghandId> {
    if name == seq!['w', 'i', 'd', 't', 'h'] {
        Some(LonghandId::Width)
    } else if name == seq!['h', 'e', 'i', 'g', 'h', 't'] {
        Some(LonghandId::Height)
    } else if name == seq!['m', 'i', 'n', '-', 'w', 'i', 'd', 't', 'h'] {
        Some(LonghandId::MinWidth)
    } else if name == seq!['m', 'i', 'n', '-', 'h', 'e', 'i', 'g', 'h', 't'] {
        Some(LonghandId::MinHeight)
    } else if name == seq!['m', 'a', 'x', '-', 'w', 'i', 'd', 't', 'h'] {
        Some(LonghandId::MaxWidth)
    } else if name == seq!['m', 'a', 'x', '-', 'h', 'e', 'i', 'g', 'h', 't'] {
        Some(LonghandId::MaxHeight)
    } else if name == seq!['m', 'a', 'r', 'g', 'i', 'n', '-', 't', 'o', 'p'] {
        Some(LonghandId::MarginTop)
    } else if name == seq!['m', 'a', 'r', 'g', 'i', 'n', '-', 'r', 'i', 'g', 'h', 't'] {
        Some(LonghandId::MarginRight)
    } else if name == seq!['m', 'a', 'r', 'g', 'i', 'n', '-', 'b', 'o', 't', 't', 'o', 'm'] {
        Some(LonghandId::MarginBottom)
    } else if name == seq!['m', 'a', 'r', 'g', 'i', 'n', '-', 'l', 'e', 'f', 't'] {
        Some(LonghandId::MarginLeft)
    } else if name == seq!['p', 'a', 'd', 'd', 'i', 'n', 'g', '-', 't', 'o', 'p'] {
        Some(LonghandId::PaddingTop)
    } else if name == seq!['p', 'a', 'd', 'd', 'i', 'n', 'g', '-', 'r', 'i', 'g', 'h', 't'] {
        Some(LonghandId::PaddingRight)
    } else if name == seq!['p', 'a', 'd', 'd', 'i', 'n', 'g', '-', 'b', 'o', 't', 't', 'o', 'm'] {
        Some(LonghandId::PaddingBottom)
    } else if name == seq!['p', 'a', 'd', 'd', 'i', 'n', 'g', '-', 'l', 'e', 'f', 't'] {
        Some(LonghandId::PaddingLeft)
    } else if name == seq!['r', 'o', 'w', '-', 'g', 'a', 'p'] {
        Some(LonghandId::RowGap)
    } else if name == seq!['c', 'o', 'l', 'u', 'm', 'n', '-', 'g', 'a', 'p'] {
        Some(LonghandId::ColumnGap)
    } else if name == seq!['c', 'o', 'l', 'o', 'r'] {
        Some(LonghandId::Color)
    } else if name == seq!['b', 'a', 'c', 'k', 'g', 'r', 'o', 'u', 'n', 'd', '-', 'c', 'o', 'l', 'o', 'r'] {
        Some(LonghandId::BackgroundColor)
    } else if name == seq!['o', 'p', 'a', 'c', 'i', 't', 'y'] {
        Some(LonghandId::Opacity)
    } else if name == seq!['b', 'o', 'r', 'd', 'e', 'r', '-', 't', 'o', 'p', '-', 'w', 'i', 'd', 't', 'h'] {
        Some(LonghandId::BorderTopWidth)
    } else if name == seq!['b', 'o', 'r', 'd', 'e', 'r', '-', 'r', 'i', 'g', 'h', 't', '-', 'w', 'i', 'd', 't', 'h'] {
        Some(LonghandId::BorderRightWidth)
    } else if name == seq!['b', 'o', 'r', 'd', 'e', 'r', '-', 'b', 'o', 't', 't', 'o', 'm', '-', 'w', 'i', 'd', 't', 'h'] {
        Some(LonghandId::BorderBottomWidth)
    } else if name == seq!['b', 'o', 'r', 'd', 'e', 'r', '-', 'l', 'e', 'f', 't', '-', 'w', 'i', 'd', 't', 'h'] {
        Some(LonghandId::BorderLeftWidth)
    } else if name == seq!['b', 'o', 'r', 'd', 'e', 'r', '-', 't', 'o', 'p', '-', 's', 't', 'y', 'l', 'e'] {
        Some(LonghandId::BorderTopStyle)
    } else if name == seq!['b', 'o', 'r', 'd', 'e', 'r', '-', 'r', 'i', 'g', 'h', 't', '-', 's', 't', 'y', 'l', 'e'] {
        Some(LonghandId::BorderRightStyle)
    } else if name == seq!['b', 'o', 'r', 'd', 'e', 'r', '-', 'b', 'o', 't', 't', 'o', 'm', '-', 's', 't', 'y', 'l', 'e'] {
        Some(LonghandId::BorderBottomStyle)
    } else if name == seq!['b', 'o', 'r', 'd', 'e', 'r', '-', 'l', 'e', 'f', 't', '-', 's', 't', 'y', 'l', 'e'] {
        Some(LonghandId::BorderLeftStyle)
    } else if name == seq!['b', 'o', 'r', 'd', 'e', 'r', '-', 't', 'o', 'p', '-', 'c', 'o', 'l', 'o', 'r'] {
        Some(LonghandId::BorderTopColor)
    } else if name == seq!['b', 'o', 'r', 'd', 'e', 'r', '-', 'r', 'i', 'g', 'h', 't', '-', 'c', 'o', 'l', 'o', 'r'] {
        Some(LonghandId::BorderRightColor)
    } else if name == seq!['b', 'o', 'r', 'd', 'e', 'r', '-', 'b', 'o', 't', 't', 'o', 'm', '-', 'c', 'o', 'l', 'o', 'r'] {
        Some(LonghandId::BorderBottomColor)
    } else if name == seq!['b', 'o', 'r', 'd', 'e', 'r', '-', 'l', 'e', 'f', 't', '-', 'c', 'o', 'l', 'o', 'r'] {
        Some(LonghandId::BorderLeftColor)
    } else if name == seq!['b', 'o', 'r', 'd', 'e', 'r', '-', 't', 'o', 'p', '-', 'l', 'e', 'f', 't', '-', 'r', 'a', 'd', 'i', 'u', 's'] {
        Some(LonghandId::BorderTopLeftRadius)
    } else if name == seq!['b', 'o', 'r', 'd', 'e', 'r', '-', 't', 'o', 'p', '-', 'r', 'i', 'g', 'h', 't', '-', 'r', 'a', 'd', 'i', 'u', 's'] {
        Some(LonghandId::BorderTopRightRadius)
    } else if name == seq!['b', 'o', 'r', 'd', 'e', 'r', '-', 'b', 'o', 't', 't', 'o', 'm', '-', 'r', 'i', 'g', 'h', 't', '-', 'r', 'a', 'd', 'i', 'u', 's'] {
        Some(LonghandId::BorderBottomRightRadius)
    } else if name == seq!['b', 'o', 'r', 'd', 'e', 'r', '-', 'b', 'o', 't', 't', 'o', 'm', '-', 'l', 'e', 'f', 't', '-', 'r', 'a', 'd', 'i', 'u', 's'] {
        Some(LonghandId::BorderBottomLeftRadius)
    } else if name == seq!['f', 'o', 'n', 't', '-', 'f', 'a', 'm', 'i', 'l', 'y'] {
        Some(LonghandId::FontFamily)
    } else if name == seq!['f', 'o', 'n', 't', '-', 's', 'i', 'z', 'e'] {
        Some(LonghandId::FontSize)
    } else if name == seq!['f', 'o', 'n', 't', '-', 'w', 'e', 'i', 'g', 'h', 't'] {
        Some(LonghandId::FontWeight)
    } else if name == seq!['f', 'o', 'n', 't', '-', 's', 't', 'y', 'l', 'e'] {
        Some(LonghandId::FontStyle)
    } else if name == seq!['l', 'i', 'n', 'e', '-', 'h', 'e', 'i', 'g', 'h', 't'] {
        Some(LonghandId::LineHeight)
    } else if name == seq!['l', 'e', 't', 't', 'e', 'r', '-', 's', 'p', 'a', 'c', 'i', 'n', 'g'] {
        Some(LonghandId::LetterSpacing)
    } else if name == seq!['t', 'e', 'x', 't', '-', 'a', 'l', 'i', 'g', 'n'] {
        Some(LonghandId::TextAlign)
    } else {
        None
    }
}

/// A shorthand property: a single declaration that sets several longhands.
#[derive(Clone, Copy, Debug, PartialEq, Eq, Hash, Structural)]
pub enum ShorthandId {
    /// `margin`: one to four values, top, right, bottom, left.
    Margin,
    /// `padding`: one to four values.
    Padding,
    /// `gap`: row gap, then an optional column gap.
    Gap,
    /// `border`: any of a width, a style and a colour, in any order, for all
    /// four sides.
    Border,
    /// `border-top`: like `border` for one side.
    BorderTop,
    BorderRight,
    BorderBottom,
    BorderLeft,
    /// `border-width`: one to four values.
    BorderWidth,
    /// `border-style`: one to four values.
    BorderStyle,
    /// `border-color`: one to four values.
    BorderColor,
    /// `border-radius`: one to four values, top-left, top-right,
    /// bottom-right, bottom-left. Elliptical corners (`a / b`) are not
    /// supported.
    BorderRadius,
}

/// The CSS name of a shorthand.
pub open spec fn shorthand_name(id: ShorthandId) -> Seq<char> {
    match id {
        ShorthandId::Margin => seq!['m', 'a', 'r', 'g', 'i', 'n'],
        ShorthandId::Padding => seq!['p', 'a', 'd', 'd', 'i', 'n', 'g'],
        ShorthandId::Gap => seq!['g', 'a', 'p'],
        ShorthandId::Border => seq!['b', 'o', 'r', 'd', 'e', 'r'],
        ShorthandId::BorderTop => seq!['b', 'o', 'r', 'd', 'e', 'r', '-', 't', 'o', 'p'],
        ShorthandId::BorderRight => seq!['b', 'o', 'r', 'd', 'e', 'r', '-', 'r', 'i', 'g', 'h', 't'],
        ShorthandId::BorderBottom => seq!['b', 'o', 'r', 'd', 'e', 'r', '-', 'b', 'o', 't', 't', 'o', 'm'],
        ShorthandId::BorderLeft => seq!['b', 'o', 'r', 'd', 'e', 'r', '-', 'l', 'e', 'f', 't'],
        ShorthandId::BorderWidth => seq!['b', 'o', 'r', 'd', 'e', 'r', '-', 'w', 'i', 'd', 't', 'h'],
        ShorthandId::BorderStyle => seq!['b', 'o', 'r', 'd', 'e', 'r', '-', 's', 't', 'y', 'l', 'e'],
        ShorthandId::BorderColor => seq!['b', 'o', 'r', 'd', 'e', 'r', '-', 'c', 'o', 'l', 'o', 'r'],
        ShorthandId::BorderRadius => seq!['b', 'o', 'r', 'd', 'e', 'r', '-', 'r', 'a', 'd', 'i', 'u', 's'],
    }
}

/// Every shorthand, in table order.
pub open spec fn all_shorthands() -> Seq<ShorthandId> {
    seq![
        ShorthandId::Margin,
        ShorthandId::Padding,
        ShorthandId::Gap,
        ShorthandId::Border,
        ShorthandId::BorderTop,
        ShorthandId::BorderRight,
        ShorthandId::BorderBottom,
        ShorthandId::BorderLeft,
        ShorthandId::BorderWidth,
        ShorthandId::BorderStyle,
        ShorthandId::BorderColor,
        ShorthandId::BorderRadius
    ]
}

/// The shorthand a lower-case name stands for.
pub open spec fn shorthand_named(name: Seq<char>) -> Option<ShorthandId> {
    if name == seq!['m', 'a', 'r', 'g', 'i', 'n'] {
        Some(ShorthandId::Margin)
    } else if name == seq!['p', 'a', 'd', 'd', 'i', 'n', 'g'] {
        Some(ShorthandId::Padding)
    } else if name == seq!['g', 'a', 'p'] {
        Some(ShorthandId::Gap)
    } else if name == seq!['b', 'o', 'r', 'd', 'e', 'r'] {
        Some(ShorthandId::Border)
    } else if name == seq!['b', 'o', 'r', 'd', 'e', 'r', '-', 't', 'o', 'p'] {
        Some(ShorthandId::BorderTop)
    } else if name == seq!['b', 'o', 'r', 'd', 'e', 'r', '-', 'r', 'i', 'g', 'h', 't'] {
        Some(ShorthandId::BorderRight)
    } else if name == seq!['b', 'o', 'r', 'd', 'e', 'r', '-', 'b', 'o', 't', 't', 'o', 'm'] {
        Some(ShorthandId::BorderBottom)
    } else if name == seq!['b', 'o', 'r', 'd', 'e', 'r', '-', 'l', 'e', 'f', 't'] {
        Some(ShorthandId::BorderLeft)
    } else if name == seq!['b', 'o', 'r', 'd', 'e', 'r', '-', 'w', 'i', 'd', 't', 'h'] {
        Some(ShorthandId::BorderWidth)
    } else if name == seq!['b', 'o', 'r', 'd', 'e', 'r', '-', 's', 't', 'y', 'l', 'e'] {
        Some(ShorthandId::BorderStyle)
    } else if name == seq!['b', 'o', 'r', 'd', 'e', 'r', '-', 'c', 'o', 'l', 'o', 'r'] {
        Some(ShorthandId::BorderColor)
    } else if name == seq!['b', 'o', 'r', 'd', 'e', 'r', '-', 'r', 'a', 'd', 'i', 'u', 's'] {
        Some(ShorthandId::BorderRadius)
    } else {
        None
    }
}

/// The longhands a shorthand sets, in the order it sets them.
pub open spec fn shorthand_longhands(id: ShorthandId) -> Seq<LonghandId> {
    match id {
        ShorthandId::Margin => seq![LonghandId::MarginTop, LonghandId::MarginRight, LonghandId::MarginBottom, LonghandId::MarginLeft],
        ShorthandId::Padding => seq![LonghandId::PaddingTop, LonghandId::PaddingRight, LonghandId::PaddingBottom, LonghandId::PaddingLeft],
        ShorthandId::Gap => seq![LonghandId::RowGap, LonghandId::ColumnGap],
        ShorthandId::Border => seq![LonghandId::BorderTopWidth, LonghandId::BorderRightWidth, LonghandId::BorderBottomWidth, LonghandId::BorderLeftWidth, LonghandId::BorderTopStyle, LonghandId::BorderRightStyle, LonghandId::BorderBottomStyle, LonghandId::BorderLeftStyle, LonghandId::BorderTopColor, LonghandId::BorderRightColor, LonghandId::BorderBottomColor, LonghandId::BorderLeftColor],
        ShorthandId::BorderTop => seq![LonghandId::BorderTopWidth, LonghandId::BorderTopStyle, LonghandId::BorderTopColor],
        ShorthandId::BorderRight => seq![LonghandId::BorderRightWidth, LonghandId::BorderRightStyle, LonghandId::BorderRightColor],
        ShorthandId::BorderBottom => seq![LonghandId::BorderBottomWidth, LonghandId::BorderBottomStyle, LonghandId::BorderBottomColor],
        ShorthandId::BorderLeft => seq![LonghandId::BorderLeftWidth, LonghandId::BorderLeftStyle, LonghandId::BorderLeftColor],
        ShorthandId::BorderWidth => seq![LonghandId::BorderTopWidth, LonghandId::BorderRightWidth, LonghandId::BorderBottomWidth, LonghandId::BorderLeftWidth],
        ShorthandId::BorderStyle => seq![LonghandId::BorderTopStyle, LonghandId::BorderRightStyle, LonghandId::BorderBottomStyle, LonghandId::BorderLeftStyle],
        ShorthandId::BorderColor => seq![LonghandId::BorderTopColor, LonghandId::BorderRightColor, LonghandId::BorderBottomColor, LonghandId::BorderLeftColor],
        ShorthandId::BorderRadius => seq![LonghandId::BorderTopLeftRadius, LonghandId::BorderTopRightRadius, LonghandId::BorderBottomRightRadius, LonghandId::BorderBottomLeftRadius],
    }
}

impl LonghandId {
    /// Every longhand, in table order.
    pub fn all() -> (ids: Vec<LonghandId>)
        ensures
            ids@ == all_longhands(),
    {
        let mut ids: Vec<LonghandId> = Vec::new();
        ids.push(LonghandId::Width);
        ids.push(LonghandId::Height);
        ids.push(LonghandId::MinWidth);
        ids.push(LonghandId::MinHeight);
        ids.push(LonghandId::MaxWidth);
        ids.push(LonghandId::MaxHeight);
        ids.push(LonghandId::MarginTop);
        ids.push(LonghandId::MarginRight);
        ids.push(LonghandId::MarginBottom);
        ids.push(LonghandId::MarginLeft);
        ids.push(LonghandId::PaddingTop);
        ids.push(LonghandId::PaddingRight);
        ids.push(LonghandId::PaddingBottom);
        ids.push(LonghandId::PaddingLeft);
        ids.push(LonghandId::RowGap);
        ids.push(LonghandId::ColumnGap);
        ids.push(LonghandId::Color);
        ids.push(LonghandId::BackgroundColor);
        ids.push(LonghandId::Opacity);
        ids.push(LonghandId::BorderTopWidth);
        ids.push(LonghandId::BorderRightWidth);
        ids.push(LonghandId::BorderBottomWidth);
        ids.push(LonghandId::BorderLeftWidth);
        ids.push(LonghandId::BorderTopStyle);
        ids.push(LonghandId::BorderRightStyle);
        ids.push(LonghandId::BorderBottomStyle);
        ids.push(LonghandId::BorderLeftStyle);
        ids.push(LonghandId::BorderTopColor);
        ids.push(LonghandId::BorderRightColor);
        ids.push(LonghandId::BorderBottomColor);
        ids.push(LonghandId::BorderLeftColor);
        ids.push(LonghandId::BorderTopLeftRadius);
        ids.push(LonghandId::BorderTopRightRadius);
        ids.push(LonghandId::BorderBottomRightRadius);
        ids.push(LonghandId::BorderBottomLeftRadius);
        ids.push(LonghandId::FontFamily);
        ids.push(LonghandId::FontSize);
        ids.push(LonghandId::FontWeight);
        ids.push(LonghandId::FontStyle);
        ids.push(LonghandId::LineHeight);
        ids.push(LonghandId::LetterSpacing);
        ids.push(LonghandId::TextAlign);
        assert(ids@ =~= all_longhands());
        ids
    }

    /// The CSS name, such as `border-top-width`.
    pub fn name(self) -> (name: &'static str)
        ensures
            name@ == longhand_name(self),
    {
        match self {
            LonghandId::Width => {
                proof {
                    reveal_strlit("width");
                    assert("width"@ =~= seq!['w', 'i', 'd', 't', 'h']);
                }
                "width"
            },
            LonghandId::Height => {
                proof {
                    reveal_strlit("height");
                    assert("height"@ =~= seq!['h', 'e', 'i', 'g', 'h', 't']);
                }
                "height"
            },
            LonghandId::MinWidth => {
                proof {
                    reveal_strlit("min-width");
                    assert("min-width"@ =~= seq!['m', 'i', 'n', '-', 'w', 'i', 'd', 't', 'h']);
                }
                "min-width"
            },
            LonghandId::MinHeight => {
                proof {
                    reveal_strlit("min-height");
                    assert("min-height"@ =~= seq!['m', 'i', 'n', '-', 'h', 'e', 'i', 'g', 'h', 't']);
                }
                "min-height"
            },
            LonghandId::MaxWidth => {
                proof {
                    reveal_strlit("max-width");
                    assert("max-width"@ =~= seq!['m', 'a', 'x', '-', 'w', 'i', 'd', 't', 'h']);
                }
                "max-width"
            },
            LonghandId::MaxHeight => {
                proof {
                    reveal_strlit("max-height");
                    assert("max-height"@ =~= seq!['m', 'a', 'x', '-', 'h', 'e', 'i', 'g', 'h', 't']);
                }
                "max-height"
            },
            LonghandId::MarginTop => {
                proof {
                    reveal_strlit("margin-top");
                    assert("margin-top"@ =~= seq!['m', 'a', 'r', 'g', 'i', 'n', '-', 't', 'o', 'p']);
                }
                "margin-top"
            },
            LonghandId::MarginRight => {
                proof {
                    reveal_strlit("margin-right");
                    assert("margin-right"@ =~= seq!['m', 'a', 'r', 'g', 'i', 'n', '-', 'r', 'i', 'g', 'h', 't']);
                }
                "margin-right"
            },
            LonghandId::MarginBottom => {
                proof {
                    reveal_strlit("margin-bottom");
                    assert("margin-bottom"@ =~= seq!['m', 'a', 'r', 'g', 'i', 'n', '-', 'b', 'o', 't', 't', 'o', 'm']);
                }
                "margin-bottom"
            },
            LonghandId::MarginLeft => {
                proof {
                    reveal_strlit("margin-left");
                    assert("margin-left"@ =~= seq!['m', 'a', 'r', 'g', 'i', 'n', '-', 'l', 'e', 'f', 't']);
                }
                "margin-left"
            },
            LonghandId::PaddingTop => {
                proof {
                    reveal_strlit("padding-top");
                    assert("padding-top"@ =~= seq!['p', 'a', 'd', 'd', 'i', 'n', 'g', '-', 't', 'o', 'p']);
                }
                "padding-top"
            },
            LonghandId::PaddingRight => {
                proof {
                    reveal_strlit("padding-right");
                    assert("padding-right"@ =~= seq!['p', 'a', 'd', 'd', 'i', 'n', 'g', '-', 'r', 'i', 'g', 'h', 't']);
                }
                "padding-right"
            },
            LonghandId::PaddingBottom => {
                proof {
                    reveal_strlit("padding-bottom");
                    assert("padding-bottom"@ =~= seq!['p', 'a', 'd', 'd', 'i', 'n', 'g', '-', 'b', 'o', 't', 't', 'o', 'm']);
                }
                "padding-bottom"
            },
            LonghandId::PaddingLeft => {
                proof {
                    reveal_strlit("padding-left");
                    assert("padding-left"@ =~= seq!['p', 'a', 'd', 'd', 'i', 'n', 'g', '-', 'l', 'e', 'f', 't']);
                }
                "padding-left"
            },
            LonghandId::RowGap => {
                proof {
                    reveal_strlit("row-gap");
                    assert("row-gap"@ =~= seq!['r', 'o', 'w', '-', 'g', 'a', 'p']);
                }
                "row-gap"
            },
            LonghandId::ColumnGap => {
                proof {
                    reveal_strlit("column-gap");
                    assert("column-gap"@ =~= seq!['c', 'o', 'l', 'u', 'm', 'n', '-', 'g', 'a', 'p']);
                }
                "column-gap"
            },
            LonghandId::Color => {
                proof {
                    reveal_strlit("color");
                    assert("color"@ =~= seq!['c', 'o', 'l', 'o', 'r']);
                }
                "color"
            },
            LonghandId::BackgroundColor => {
                proof {
                    reveal_strlit("background-color");
                    assert("background-color"@ =~= seq!['b', 'a', 'c', 'k', 'g', 'r', 'o', 'u', 'n', 'd', '-', 'c', 'o', 'l', 'o', 'r']);
                }
                "background-color"
            },
            LonghandId::Opacity => {
                proof {
                    reveal_strlit("opacity");
                    assert("opacity"@ =~= seq!['o', 'p', 'a', 'c', 'i', 't', 'y']);
                }
                "opacity"
            },
            LonghandId::BorderTopWidth => {
                proof {
                    reveal_strlit("border-top-width");
                    assert("border-top-width"@ =~= seq!['b', 'o', 'r', 'd', 'e', 'r', '-', 't', 'o', 'p', '-', 'w', 'i', 'd', 't', 'h']);
                }
                "border-top-width"
            },
            LonghandId::BorderRightWidth => {
                proof {
                    reveal_strlit("border-right-width");
                    assert("border-right-width"@ =~= seq!['b', 'o', 'r', 'd', 'e', 'r', '-', 'r', 'i', 'g', 'h', 't', '-', 'w', 'i', 'd', 't', 'h']);
                }
                "border-right-width"
            },
            LonghandId::BorderBottomWidth => {
                proof {
                    reveal_strlit("border-bottom-width");
                    assert("border-bottom-width"@ =~= seq!['b', 'o', 'r', 'd', 'e', 'r', '-', 'b', 'o', 't', 't', 'o', 'm', '-', 'w', 'i', 'd', 't', 'h']);
                }
                "border-bottom-width"
            },
            LonghandId::BorderLeftWidth => {
                proof {
                    reveal_strlit("border-left-width");
                    assert("border-left-width"@ =~= seq!['b', 'o', 'r', 'd', 'e', 'r', '-', 'l', 'e', 'f', 't', '-', 'w', 'i', 'd', 't', 'h']);
                }
                "border-left-width"
            },
            LonghandId::BorderTopStyle => {
                proof {
                    reveal_strlit("border-top-style");
                    assert("border-top-style"@ =~= seq!['b', 'o', 'r', 'd', 'e', 'r', '-', 't', 'o', 'p', '-', 's', 't', 'y', 'l', 'e']);
                }
                "border-top-style"
            },
            LonghandId::BorderRightStyle => {
                proof {
                    reveal_strlit("border-right-style");
                    assert("border-right-style"@ =~= seq!['b', 'o', 'r', 'd', 'e', 'r', '-', 'r', 'i', 'g', 'h', 't', '-', 's', 't', 'y', 'l', 'e']);
                }
                "border-right-style"
            },
            LonghandId::BorderBottomStyle => {
                proof {
                    reveal_strlit("border-bottom-style");
                    assert("border-bottom-style"@ =~= seq!['b', 'o', 'r', 'd', 'e', 'r', '-', 'b', 'o', 't', 't', 'o', 'm', '-', 's', 't', 'y', 'l', 'e']);
                }
                "border-bottom-style"
            },
            LonghandId::BorderLeftStyle => {
                proof {
                    reveal_strlit("border-left-style");
                    assert("border-left-style"@ =~= seq!['b', 'o', 'r', 'd', 'e', 'r', '-', 'l', 'e', 'f', 't', '-', 's', 't', 'y', 'l', 'e']);
                }
                "border-left-style"
            },
            LonghandId::BorderTopColor => {
                proof {
                    reveal_strlit("border-top-color");
                    assert("border-top-color"@ =~= seq!['b', 'o', 'r', 'd', 'e', 'r', '-', 't', 'o', 'p', '-', 'c', 'o', 'l', 'o', 'r']);
                }
                "border-top-color"
            },
            LonghandId::BorderRightColor => {
                proof {
                    reveal_strlit("border-right-color");
                    assert("border-right-color"@ =~= seq!['b', 'o', 'r', 'd', 'e', 'r', '-', 'r', 'i', 'g', 'h', 't', '-', 'c', 'o', 'l', 'o', 'r']);
                }
                "border-right-color"
            },
            LonghandId::BorderBottomColor => {
                proof {
                    reveal_strlit("border-bottom-color");
                    assert("border-bottom-color"@ =~= seq!['b', 'o', 'r', 'd', 'e', 'r', '-', 'b', 'o', 't', 't', 'o', 'm', '-', 'c', 'o', 'l', 'o', 'r']);
                }
                "border-bottom-color"
            },
            LonghandId::BorderLeftColor => {
                proof {
                    reveal_strlit("border-left-color");
                    assert("border-left-color"@ =~= seq!['b', 'o', 'r', 'd', 'e', 'r', '-', 'l', 'e', 'f', 't', '-', 'c', 'o', 'l', 'o', 'r']);
                }
                "border-left-color"
            },
            LonghandId::BorderTopLeftRadius => {
                proof {
                    reveal_strlit("border-top-left-radius");
                    assert("border-top-left-radius"@ =~= seq!['b', 'o', 'r', 'd', 'e', 'r', '-', 't', 'o', 'p', '-', 'l', 'e', 'f', 't', '-', 'r', 'a', 'd', 'i', 'u', 's']);
                }
                "border-top-left-radius"
            },
            LonghandId::BorderTopRightRadius => {
                proof {
                    reveal_strlit("border-top-right-radius");
                    assert("border-top-right-radius"@ =~= seq!['b', 'o', 'r', 'd', 'e', 'r', '-', 't', 'o', 'p', '-', 'r', 'i', 'g', 'h', 't', '-', 'r', 'a', 'd', 'i', 'u', 's']);
                }
                "border-top-right-radius"
            },
            LonghandId::BorderBottomRightRadius => {
                proof {
                    reveal_strlit("border-bottom-right-radius");
                    assert("border-bottom-right-radius"@ =~= seq!['b', 'o', 'r', 'd', 'e', 'r', '-', 'b', 'o', 't', 't', 'o', 'm', '-', 'r', 'i', 'g', 'h', 't', '-', 'r', 'a', 'd', 'i', 'u', 's']);
                }
                "border-bottom-right-radius"
            },
            LonghandId::BorderBottomLeftRadius => {
                proof {
                    reveal_strlit("border-bottom-left-radius");
                    assert("border-bottom-left-radius"@ =~= seq!['b', 'o', 'r', 'd', 'e', 'r', '-', 'b', 'o', 't', 't', 'o', 'm', '-', 'l', 'e', 'f', 't', '-', 'r', 'a', 'd', 'i', 'u', 's']);
                }
                "border-bottom-left-radius"
            },
            LonghandId::FontFamily => {
                proof {
                    reveal_strlit("font-family");
                    assert("font-family"@ =~= seq!['f', 'o', 'n', 't', '-', 'f', 'a', 'm', 'i', 'l', 'y']);
                }
                "font-family"
            },
            LonghandId::FontSize => {
                proof {
                    reveal_strlit("font-size");
                    assert("font-size"@ =~= seq!['f', 'o', 'n', 't', '-', 's', 'i', 'z', 'e']);
                }
                "font-size"
            },
            LonghandId::FontWeight => {
                proof {
                    reveal_strlit("font-weight");
                    assert("font-weight"@ =~= seq!['f', 'o', 'n', 't', '-', 'w', 'e', 'i', 'g', 'h', 't']);
                }
                "font-weight"
            },
            LonghandId::FontStyle => {
                proof {
                    reveal_strlit("font-style");
                    assert("font-style"@ =~= seq!['f', 'o', 'n', 't', '-', 's', 't', 'y', 'l', 'e']);
                }
                "font-style"
            },
            LonghandId::LineHeight => {
                proof {
                    reveal_strlit("line-height");
                    assert("line-height"@ =~= seq!['l', 'i', 'n', 'e', '-', 'h', 'e', 'i', 'g', 'h', 't']);
                }
                "line-height"
            },
            LonghandId::LetterSpacing => {
                proof {
                    reveal_strlit("letter-spacing");
                    assert("letter-spacing"@ =~= seq!['l', 'e', 't', 't', 'e', 'r', '-', 's', 'p', 'a', 'c', 'i', 'n', 'g']);
                }
                "letter-spacing"
            },
            LonghandId::TextAlign => {
                proof {
                    reveal_strlit("text-align");
                    assert("text-align"@ =~= seq!['t', 'e', 'x', 't', '-', 'a', 'l', 'i', 'g', 'n']);
                }
                "text-align"
            },
        }
    }

    /// Whether the property inherits from the parent by default.
    pub fn is_inherited(self) -> (b: bool)
        ensures
            b == longhand_inherited(self),
    {
        match self {
            LonghandId::Color | LonghandId::FontFamily | LonghandId::FontSize | LonghandId::FontWeight | LonghandId::FontStyle | LonghandId::LineHeight | LonghandId::LetterSpacing | LonghandId::TextAlign => true,
            _ => false,
        }
    }

    /// The position in the table, for tables indexed by longhand.
    pub fn index(self) -> (i: usize)
        ensures
            i == longhand_index(self),
            i < LONGHAND_COUNT,
    {
        match self {
            LonghandId::Width => 0,
            LonghandId::Height => 1,
            LonghandId::MinWidth => 2,
            LonghandId::MinHeight => 3,
            LonghandId::MaxWidth => 4,
            LonghandId::MaxHeight => 5,
            LonghandId::MarginTop => 6,
            LonghandId::MarginRight => 7,
            LonghandId::MarginBottom => 8,
            LonghandId::MarginLeft => 9,
            LonghandId::PaddingTop => 10,
            LonghandId::PaddingRight => 11,
            LonghandId::PaddingBottom => 12,
            LonghandId::PaddingLeft => 13,
            LonghandId::RowGap => 14,
            LonghandId::ColumnGap => 15,
            LonghandId::Color => 16,
            LonghandId::BackgroundColor => 17,
            LonghandId::Opacity => 18,
            LonghandId::BorderTopWidth => 19,
            LonghandId::BorderRightWidth => 20,
            LonghandId::BorderBottomWidth => 21,
            LonghandId::BorderLeftWidth => 22,
            LonghandId::BorderTopStyle => 23,
            LonghandId::BorderRightStyle => 24,
            LonghandId::BorderBottomStyle => 25,
            LonghandId::BorderLeftStyle => 26,
            LonghandId::BorderTopColor => 27,
            LonghandId::BorderRightColor => 28,
            LonghandId::BorderBottomColor => 29,
            LonghandId::BorderLeftColor => 30,
            LonghandId::BorderTopLeftRadius => 31,
            LonghandId::BorderTopRightRadius => 32,
            LonghandId::BorderBottomRightRadius => 33,
            LonghandId::BorderBottomLeftRadius => 34,
            LonghandId::FontFamily => 35,
            LonghandId::FontSize => 36,
            LonghandId::FontWeight => 37,
            LonghandId::FontStyle => 38,
            LonghandId::LineHeight => 39,
            LonghandId::LetterSpacing => 40,
            LonghandId::TextAlign => 41,
        }
    }

    /// Looks a property up by its CSS name, ignoring ASCII case.
    pub fn from_name(name: &str) -> (id: Option<LonghandId>)
        ensures
            id == longhand_named(lower_seq(name@)),
    {
        let word = lower_all(&chars_of(name));
        if same_text(&word, "width") {
            proof {
                reveal_strlit("width");
                assert("width"@ =~= seq!['w', 'i', 'd', 't', 'h']);
            }
            return Some(LonghandId::Width);
        }
        proof {
            reveal_strlit("width");
            assert("width"@ =~= seq!['w', 'i', 'd', 't', 'h']);
        }
        if same_text(&word, "height") {
            proof {
                reveal_strlit("height");
                assert("height"@ =~= seq!['h', 'e', 'i', 'g', 'h', 't']);
            }
            return Some(LonghandId::Height);
        }
        proof {
            reveal_strlit("height");
            assert("height"@ =~= seq!['h', 'e', 'i', 'g', 'h', 't']);
        }
        if same_text(&word, "min-width") {
            proof {
                reveal_strlit("min-width");
                assert("min-width"@ =~= seq!['m', 'i', 'n', '-', 'w', 'i', 'd', 't', 'h']);
            }
            return Some(LonghandId::MinWidth);
        }
        proof {
            reveal_strlit("min-width");
            assert("min-width"@ =~= seq!['m', 'i', 'n', '-', 'w', 'i', 'd', 't', 'h']);
        }
        if same_text(&word, "min-height") {
            proof {
                reveal_strlit("min-height");
                assert("min-height"@ =~= seq!['m', 'i', 'n', '-', 'h', 'e', 'i', 'g', 'h', 't']);
            }
            return Some(LonghandId::MinHeight);
        }
        proof {
            reveal_strlit("min-height");
            assert("min-height"@ =~= seq!['m', 'i', 'n', '-', 'h', 'e', 'i', 'g', 'h', 't']);
        }
        if same_text(&word, "max-width") {
            proof {
                reveal_strlit("max-width");
                assert("max-width"@ =~= seq!['m', 'a', 'x', '-', 'w', 'i', 'd', 't', 'h']);
            }
            return Some(LonghandId::MaxWidth);
        }
        proof {
            reveal_strlit("max-width");
            assert("max-width"@ =~= seq!['m', 'a', 'x', '-', 'w', 'i', 'd', 't', 'h']);
        }
        if same_text(&word, "max-height") {
            proof {
                reveal_strlit("max-height");
                assert("max-height"@ =~= seq!['m', 'a', 'x', '-', 'h', 'e', 'i', 'g', 'h', 't']);
            }
            return Some(LonghandId::MaxHeight);
        }
        proof {
            reveal_strlit("max-height");
            assert("max-height"@ =~= seq!['m', 'a', 'x', '-', 'h', 'e', 'i', 'g', 'h', 't']);
        }
        if same_text(&word, "margin-top") {
            proof {
                reveal_strlit("margin-top");
                assert("margin-top"@ =~= seq!['m', 'a', 'r', 'g', 'i', 'n', '-', 't', 'o', 'p']);
            }
            return Some(LonghandId::MarginTop);
        }
        proof {
            reveal_strlit("margin-top");
            assert("margin-top"@ =~= seq!['m', 'a', 'r', 'g', 'i', 'n', '-', 't', 'o', 'p']);
        }
        if same_text(&word, "margin-right") {
            proof {
                reveal_strlit("margin-right");
                assert("margin-right"@ =~= seq!['m', 'a', 'r', 'g', 'i', 'n', '-', 'r', 'i', 'g', 'h', 't']);
            }
            return Some(LonghandId::MarginRight);
        }
        proof {
            reveal_strlit("margin-right");
            assert("margin-right"@ =~= seq!['m', 'a', 'r', 'g', 'i', 'n', '-', 'r', 'i', 'g', 'h', 't']);
        }
        if same_text(&word, "margin-bottom") {
            proof {
                reveal_strlit("margin-bottom");
                assert("margin-bottom"@ =~= seq!['m', 'a', 'r', 'g', 'i', 'n', '-', 'b', 'o', 't', 't', 'o', 'm']);
            }
            return Some(LonghandId::MarginBottom);
        }
        proof {
            reveal_strlit("margin-bottom");
            assert("margin-bottom"@ =~= seq!['m', 'a', 'r', 'g', 'i', 'n', '-', 'b', 'o', 't', 't', 'o', 'm']);
        }
        if same_text(&word, "margin-left") {
            proof {
                reveal_strlit("margin-left");
                assert("margin-left"@ =~= seq!['m', 'a', 'r', 'g', 'i', 'n', '-', 'l', 'e', 'f', 't']);
            }
            return Some(LonghandId::MarginLeft);
        }
        proof {
            reveal_strlit("margin-left");
            assert("margin-left"@ =~= seq!['m', 'a', 'r', 'g', 'i', 'n', '-', 'l', 'e', 'f', 't']);
        }
        if same_text(&word, "padding-top") {
            proof {
                reveal_strlit("padding-top");
                assert("padding-top"@ =~= seq!['p', 'a', 'd', 'd', 'i', 'n', 'g', '-', 't', 'o', 'p']);
            }
            return Some(LonghandId::PaddingTop);
        }
        proof {
            reveal_strlit("padding-top");
            assert("padding-top"@ =~= seq!['p', 'a', 'd', 'd', 'i', 'n', 'g', '-', 't', 'o', 'p']);
        }
        if same_text(&word, "padding-right") {
            proof {
                reveal_strlit("padding-right");
                assert("padding-right"@ =~= seq!['p', 'a', 'd', 'd', 'i', 'n', 'g', '-', 'r', 'i', 'g', 'h', 't']);
            }
            return Some(LonghandId::PaddingRight);
        }
        proof {
            reveal_strlit("padding-right");
            assert("padding-right"@ =~= seq!['p', 'a', 'd', 'd', 'i', 'n', 'g', '-', 'r', 'i', 'g', 'h', 't']);
        }
        if same_text(&word, "padding-bottom") {
            proof {
                reveal_strlit("padding-bottom");
                assert("padding-bottom"@ =~= seq!['p', 'a', 'd', 'd', 'i', 'n', 'g', '-', 'b', 'o', 't', 't', 'o', 'm']);
            }
            return Some(LonghandId::PaddingBottom);
        }
        proof {
            reveal_strlit("padding-bottom");
            assert("padding-bottom"@ =~= seq!['p', 'a', 'd', 'd', 'i', 'n', 'g', '-', 'b', 'o', 't', 't', 'o', 'm']);
        }
        if same_text(&word, "padding-left") {
            proof {
                reveal_strlit("padding-left");
                assert("padding-left"@ =~= seq!['p', 'a', 'd', 'd', 'i', 'n', 'g', '-', 'l', 'e', 'f', 't']);
            }
            return Some(LonghandId::PaddingLeft);
        }
        proof {
            reveal_strlit("padding-left");
            assert("padding-left"@ =~= seq!['p', 'a', 'd', 'd', 'i', 'n', 'g', '-', 'l', 'e', 'f', 't']);
        }
        if same_text(&word, "row-gap") {
            proof {
                reveal_strlit("row-gap");
                assert("row-gap"@ =~= seq!['r', 'o', 'w', '-', 'g', 'a', 'p']);
            }
            return Some(LonghandId::RowGap);
        }
        proof {
            reveal_strlit("row-gap");
            assert("row-gap"@ =~= seq!['r', 'o', 'w', '-', 'g', 'a', 'p']);
        }
        if same_text(&word, "column-gap") {
            proof {
                reveal_strlit("column-gap");
                assert("column-gap"@ =~= seq!['c', 'o', 'l', 'u', 'm', 'n', '-', 'g', 'a', 'p']);
            }
            return Some(LonghandId::ColumnGap);
        }
        proof {
            reveal_strlit("column-gap");
            assert("column-gap"@ =~= seq!['c', 'o', 'l', 'u', 'm', 'n', '-', 'g', 'a', 'p']);
        }
        if same_text(&word, "color") {
            proof {
                reveal_strlit("color");
                assert("color"@ =~= seq!['c', 'o', 'l', 'o', 'r']);
            }
            return Some(LonghandId::Color);
        }
        proof {
            reveal_strlit("color");
            assert("color"@ =~= seq!['c', 'o', 'l', 'o', 'r']);
        }
        if same_text(&word, "background-color") {
            proof {
                reveal_strlit("background-color");
                assert("background-color"@ =~= seq!['b', 'a', 'c', 'k', 'g', 'r', 'o', 'u', 'n', 'd', '-', 'c', 'o', 'l', 'o', 'r']);
            }
            return Some(LonghandId::BackgroundColor);
        }
        proof {
            reveal_strlit("background-color");
            assert("background-color"@ =~= seq!['b', 'a', 'c', 'k', 'g', 'r', 'o', 'u', 'n', 'd', '-', 'c', 'o', 'l', 'o', 'r']);
        }
        if same_text(&word, "opacity") {
            proof {
                reveal_strlit("opacity");
                assert("opacity"@ =~= seq!['o', 'p', 'a', 'c', 'i', 't', 'y']);
            }
            return Some(LonghandId::Opacity);
        }
        proof {
            reveal_strlit("opacity");
            assert("opacity"@ =~= seq!['o', 'p', 'a', 'c', 'i', 't', 'y']);
        }
        if same_text(&word, "border-top-width") {
            proof {
                reveal_strlit("border-top-width");
                assert("border-top-width"@ =~= seq!['b', 'o', 'r', 'd', 'e', 'r', '-', 't', 'o', 'p', '-', 'w', 'i', 'd', 't', 'h']);
            }
            return Some(LonghandId::BorderTopWidth);
        }
        proof {
            reveal_strlit("border-top-width");
            assert("border-top-width"@ =~= seq!['b', 'o', 'r', 'd', 'e', 'r', '-', 't', 'o', 'p', '-', 'w', 'i', 'd', 't', 'h']);
        }
        if same_text(&word, "border-right-width") {
            proof {
                reveal_strlit("border-right-width");
                assert("border-right-width"@ =~= seq!['b', 'o', 'r', 'd', 'e', 'r', '-', 'r', 'i', 'g', 'h', 't', '-', 'w', 'i', 'd', 't', 'h']);
            }
            return Some(LonghandId::BorderRightWidth);
        }
        proof {
            reveal_strlit("border-right-width");
            assert("border-right-width"@ =~= seq!['b', 'o', 'r', 'd', 'e', 'r', '-', 'r', 'i', 'g', 'h', 't', '-', 'w', 'i', 'd', 't', 'h']);
        }
        if same_text(&word, "border-bottom-width") {
            proof {
                reveal_strlit("border-bottom-width");
                assert("border-bottom-width"@ =~= seq!['b', 'o', 'r', 'd', 'e', 'r', '-', 'b', 'o', 't', 't', 'o', 'm', '-', 'w', 'i', 'd', 't', 'h']);
            }
            return Some(LonghandId::BorderBottomWidth);
        }
        proof {
            reveal_strlit("border-bottom-width");
            assert("border-bottom-width"@ =~= seq!['b', 'o', 'r', 'd', 'e', 'r', '-', 'b', 'o', 't', 't', 'o', 'm', '-', 'w', 'i', 'd', 't', 'h']);
        }
        if same_text(&word, "border-left-width") {
            proof {
                reveal_strlit("border-left-width");
                assert("border-left-width"@ =~= seq!['b', 'o', 'r', 'd', 'e', 'r', '-', 'l', 'e', 'f', 't', '-', 'w', 'i', 'd', 't', 'h']);
            }
            return Some(LonghandId::BorderLeftWidth);
        }
        proof {
            reveal_strlit("border-left-width");
            assert("border-left-width"@ =~= seq!['b', 'o', 'r', 'd', 'e', 'r', '-', 'l', 'e', 'f', 't', '-', 'w', 'i', 'd', 't', 'h']);
        }
        if same_text(&word, "border-top-style") {
            proof {
                reveal_strlit("border-top-style");
                assert("border-top-style"@ =~= seq!['b', 'o', 'r', 'd', 'e', 'r', '-', 't', 'o', 'p', '-', 's', 't', 'y', 'l', 'e']);
            }
            return Some(LonghandId::BorderTopStyle);
        }
        proof {
            reveal_strlit("border-top-style");
            assert("border-top-style"@ =~= seq!['b', 'o', 'r', 'd', 'e', 'r', '-', 't', 'o', 'p', '-', 's', 't', 'y', 'l', 'e']);
        }
        if same_text(&word, "border-right-style") {
            proof {
                reveal_strlit("border-right-style");
                assert("border-right-style"@ =~= seq!['b', 'o', 'r', 'd', 'e', 'r', '-', 'r', 'i', 'g', 'h', 't', '-', 's', 't', 'y', 'l', 'e']);
            }
            return Some(LonghandId::BorderRightStyle);
        }
        proof {
            reveal_strlit("border-right-style");
            assert("border-right-style"@ =~= seq!['b', 'o', 'r', 'd', 'e', 'r', '-', 'r', 'i', 'g', 'h', 't', '-', 's', 't', 'y', 'l', 'e']);
        }
        if same_text(&word, "border-bottom-style") {
            proof {
                reveal_strlit("border-bottom-style");
                assert("border-bottom-style"@ =~= seq!['b', 'o', 'r', 'd', 'e', 'r', '-', 'b', 'o', 't', 't', 'o', 'm', '-', 's', 't', 'y', 'l', 'e']);
            }
            return Some(LonghandId::BorderBottomStyle);
        }
        proof {
            reveal_strlit("border-bottom-style");
            assert("border-bottom-style"@ =~= seq!['b', 'o', 'r', 'd', 'e', 'r', '-', 'b', 'o', 't', 't', 'o', 'm', '-', 's', 't', 'y', 'l', 'e']);
        }
        if same_text(&word, "border-left-style") {
            proof {
                reveal_strlit("border-left-style");
                assert("border-left-style"@ =~= seq!['b', 'o', 'r', 'd', 'e', 'r', '-', 'l', 'e', 'f', 't', '-', 's', 't', 'y', 'l', 'e']);
            }
            return Some(LonghandId::BorderLeftStyle);
        }
        proof {
            reveal_strlit("border-left-style");
            assert("border-left-style"@ =~= seq!['b', 'o', 'r', 'd', 'e', 'r', '-', 'l', 'e', 'f', 't', '-', 's', 't', 'y', 'l', 'e']);
        }
        if same_text(&word, "border-top-color") {
            proof {
                reveal_strlit("border-top-color");
                assert("border-top-color"@ =~= seq!['b', 'o', 'r', 'd', 'e', 'r', '-', 't', 'o', 'p', '-', 'c', 'o', 'l', 'o', 'r']);
            }
            return Some(LonghandId::BorderTopColor);
        }
        proof {
            reveal_strlit("border-top-color");
            assert("border-top-color"@ =~= seq!['b', 'o', 'r', 'd', 'e', 'r', '-', 't', 'o', 'p', '-', 'c', 'o', 'l', 'o', 'r']);
        }
        if same_text(&word, "border-right-color") {
            proof {
                reveal_strlit("border-right-color");
                assert("border-right-color"@ =~= seq!['b', 'o', 'r', 'd', 'e', 'r', '-', 'r', 'i', 'g', 'h', 't', '-', 'c', 'o', 'l', 'o', 'r']);
            }
            return Some(LonghandId::BorderRightColor);
        }
        proof {
            reveal_strlit("border-right-color");
            assert("border-right-color"@ =~= seq!['b', 'o', 'r', 'd', 'e', 'r', '-', 'r', 'i', 'g', 'h', 't', '-', 'c', 'o', 'l', 'o', 'r']);
        }
        if same_text(&word, "border-bottom-color") {
            proof {
                reveal_strlit("border-bottom-color");
                assert("border-bottom-color"@ =~= seq!['b', 'o', 'r', 'd', 'e', 'r', '-', 'b', 'o', 't', 't', 'o', 'm', '-', 'c', 'o', 'l', 'o', 'r']);
            }
            return Some(LonghandId::BorderBottomColor);
        }
        proof {
            reveal_strlit("border-bottom-color");
            assert("border-bottom-color"@ =~= seq!['b', 'o', 'r', 'd', 'e', 'r', '-', 'b', 'o', 't', 't', 'o', 'm', '-', 'c', 'o', 'l', 'o', 'r']);
        }
        if same_text(&word, "border-left-color") {
            proof {
                reveal_strlit("border-left-color");
                assert("border-left-color"@ =~= seq!['b', 'o', 'r', 'd', 'e', 'r', '-', 'l', 'e', 'f', 't', '-', 'c', 'o', 'l', 'o', 'r']);
            }
            return Some(LonghandId::BorderLeftColor);
        }
        proof {
            reveal_strlit("border-left-color");
            assert("border-left-color"@ =~= seq!['b', 'o', 'r', 'd', 'e', 'r', '-', 'l', 'e', 'f', 't', '-', 'c', 'o', 'l', 'o', 'r']);
        }
        if same_text(&word, "border-top-left-radius") {
            proof {
                reveal_strlit("border-top-left-radius");
                assert("border-top-left-radius"@ =~= seq!['b', 'o', 'r', 'd', 'e', 'r', '-', 't', 'o', 'p', '-', 'l', 'e', 'f', 't', '-', 'r', 'a', 'd', 'i', 'u', 's']);
            }
            return Some(LonghandId::BorderTopLeftRadius);
        }
        proof {
            reveal_strlit("border-top-left-radius");
            assert("border-top-left-radius"@ =~= seq!['b', 'o', 'r', 'd', 'e', 'r', '-', 't', 'o', 'p', '-', 'l', 'e', 'f', 't', '-', 'r', 'a', 'd', 'i', 'u', 's']);
        }
        if same_text(&word, "border-top-right-radius") {
            proof {
                reveal_strlit("border-top-right-radius");
                assert("border-top-right-radius"@ =~= seq!['b', 'o', 'r', 'd', 'e', 'r', '-', 't', 'o', 'p', '-', 'r', 'i', 'g', 'h', 't', '-', 'r', 'a', 'd', 'i', 'u', 's']);
            }
            return Some(LonghandId::BorderTopRightRadius);
        }
        proof {
            reveal_strlit("border-top-right-radius");
            assert("border-top-right-radius"@ =~= seq!['b', 'o', 'r', 'd', 'e', 'r', '-', 't', 'o', 'p', '-', 'r', 'i', 'g', 'h', 't', '-', 'r', 'a', 'd', 'i', 'u', 's']);
        }
        if same_text(&word, "border-bottom-right-radius") {
            proof {
                reveal_strlit("border-bottom-right-radius");
                assert("border-bottom-right-radius"@ =~= seq!['b', 'o', 'r', 'd', 'e', 'r', '-', 'b', 'o', 't', 't', 'o', 'm', '-', 'r', 'i', 'g', 'h', 't', '-', 'r', 'a', 'd', 'i', 'u', 's']);
            }
            return Some(LonghandId::BorderBottomRightRadius);
        }
        proof {
            reveal_strlit("border-bottom-right-radius");
            assert("border-bottom-right-radius"@ =~= seq!['b', 'o', 'r', 'd', 'e', 'r', '-', 'b', 'o', 't', 't', 'o', 'm', '-', 'r', 'i', 'g', 'h', 't', '-', 'r', 'a', 'd', 'i', 'u', 's']);
        }
        if same_text(&word, "border-bottom-left-radius") {
            proof {
                reveal_strlit("border-bottom-left-radius");
                assert("border-bottom-left-radius"@ =~= seq!['b', 'o', 'r', 'd', 'e', 'r', '-', 'b', 'o', 't', 't', 'o', 'm', '-', 'l', 'e', 'f', 't', '-', 'r', 'a', 'd', 'i', 'u', 's']);
            }
            return Some(LonghandId::BorderBottomLeftRadius);
        }
        proof {
            reveal_strlit("border-bottom-left-radius");
            assert("border-bottom-left-radius"@ =~= seq!['b', 'o', 'r', 'd', 'e', 'r', '-', 'b', 'o', 't', 't', 'o', 'm', '-', 'l', 'e', 'f', 't', '-', 'r', 'a', 'd', 'i', 'u', 's']);
        }
        if same_text(&word, "font-family") {
            proof {
                reveal_strlit("font-family");
                assert("font-family"@ =~= seq!['f', 'o', 'n', 't', '-', 'f', 'a', 'm', 'i', 'l', 'y']);
            }
            return Some(LonghandId::FontFamily);
        }
        proof {
            reveal_strlit("font-family");
            assert("font-family"@ =~= seq!['f', 'o', 'n', 't', '-', 'f', 'a', 'm', 'i', 'l', 'y']);
        }
        if same_text(&word, "font-size") {
            proof {
                reveal_strlit("font-size");
                assert("font-size"@ =~= seq!['f', 'o', 'n', 't', '-', 's', 'i', 'z', 'e']);
            }
            return Some(LonghandId::FontSize);
        }
        proof {
            reveal_strlit("font-size");
            assert("font-size"@ =~= seq!['f', 'o', 'n', 't', '-', 's', 'i', 'z', 'e']);
        }
        if same_text(&word, "font-weight") {
            proof {
                reveal_strlit("font-weight");
                assert("font-weight"@ =~= seq!['f', 'o', 'n', 't', '-', 'w', 'e', 'i', 'g', 'h', 't']);
            }
            return Some(LonghandId::FontWeight);
        }
        proof {
            reveal_strlit("font-weight");
            assert("font-weight"@ =~= seq!['f', 'o', 'n', 't', '-', 'w', 'e', 'i', 'g', 'h', 't']);
        }
        if same_text(&word, "font-style") {
            proof {
                reveal_strlit("font-style");
                assert("font-style"@ =~= seq!['f', 'o', 'n', 't', '-', 's', 't', 'y', 'l', 'e']);
            }
            return Some(LonghandId::FontStyle);
        }
        proof {
            reveal_strlit("font-style");
            assert("font-style"@ =~= seq!['f', 'o', 'n', 't', '-', 's', 't', 'y', 'l', 'e']);
        }
        if same_text(&word, "line-height") {
            proof {
                reveal_strlit("line-height");
                assert("line-height"@ =~= seq!['l', 'i', 'n', 'e', '-', 'h', 'e', 'i', 'g', 'h', 't']);
            }
            return Some(LonghandId::LineHeight);
        }
        proof {
            reveal_strlit("line-height");
            assert("line-height"@ =~= seq!['l', 'i', 'n', 'e', '-', 'h', 'e', 'i', 'g', 'h', 't']);
        }
        if same_text(&word, "letter-spacing") {
            proof {
                reveal_strlit("letter-spacing");
                assert("letter-spacing"@ =~= seq!['l', 'e', 't', 't', 'e', 'r', '-', 's', 'p', 'a', 'c', 'i', 'n', 'g']);
            }
            return Some(LonghandId::LetterSpacing);
        }
        proof {
            reveal_strlit("letter-spacing");
            assert("letter-spacing"@ =~= seq!['l', 'e', 't', 't', 'e', 'r', '-', 's', 'p', 'a', 'c', 'i', 'n', 'g']);
        }
        if same_text(&word, "text-align") {
            proof {
                reveal_strlit("text-align");
                assert("text-align"@ =~= seq!['t', 'e', 'x', 't', '-', 'a', 'l', 'i', 'g', 'n']);
            }
            return Some(LonghandId::TextAlign);
        }
        proof {
            reveal_strlit("text-align");
            assert("text-align"@ =~= seq!['t', 'e', 'x', 't', '-', 'a', 'l', 'i', 'g', 'n']);
        }
        None
    }
}

impl ShorthandId {
    /// Every shorthand, in table order.
    pub fn all() -> (ids: Vec<ShorthandId>)
        ensures
            ids@ == all_shorthands(),
    {
        let mut ids: Vec<ShorthandId> = Vec::new();
        ids.push(ShorthandId::Margin);
        ids.push(ShorthandId::Padding);
        ids.push(ShorthandId::Gap);
        ids.push(ShorthandId::Border);
        ids.push(ShorthandId::BorderTop);
        ids.push(ShorthandId::BorderRight);
        ids.push(ShorthandId::BorderBottom);
        ids.push(ShorthandId::BorderLeft);
        ids.push(ShorthandId::BorderWidth);
        ids.push(ShorthandId::BorderStyle);
        ids.push(ShorthandId::BorderColor);
        ids.push(ShorthandId::BorderRadius);
        assert(ids@ =~= all_shorthands());
        ids
    }

    /// The CSS name, such as `border-top`.
    pub fn name(self) -> (name: &'static str)
        ensures
            name@ == shorthand_name(self),
    {
        match self {
            ShorthandId::Margin => {
                proof {
                    reveal_strlit("margin");
                    assert("margin"@ =~= seq!['m', 'a', 'r', 'g', 'i', 'n']);
                }
                "margin"
            },
            ShorthandId::Padding => {
                proof {
                    reveal_strlit("padding");
                    assert("padding"@ =~= seq!['p', 'a', 'd', 'd', 'i', 'n', 'g']);
                }
                "padding"
            },
            ShorthandId::Gap => {
                proof {
                    reveal_strlit("gap");
                    assert("gap"@ =~= seq!['g', 'a', 'p']);
                }
                "gap"
            },
            ShorthandId::Border => {
                proof {
                    reveal_strlit("border");
                    assert("border"@ =~= seq!['b', 'o', 'r', 'd', 'e', 'r']);
                }
                "border"
            },
            ShorthandId::BorderTop => {
                proof {
                    reveal_strlit("border-top");
                    assert("border-top"@ =~= seq!['b', 'o', 'r', 'd', 'e', 'r', '-', 't', 'o', 'p']);
                }
                "border-top"
            },
            ShorthandId::BorderRight => {
                proof {
                    reveal_strlit("border-right");
                    assert("border-right"@ =~= seq!['b', 'o', 'r', 'd', 'e', 'r', '-', 'r', 'i', 'g', 'h', 't']);
                }
                "border-right"
            },
            ShorthandId::BorderBottom => {
                proof {
                    reveal_strlit("border-bottom");
                    assert("border-bottom"@ =~= seq!['b', 'o', 'r', 'd', 'e', 'r', '-', 'b', 'o', 't', 't', 'o', 'm']);
                }
                "border-bottom"
            },
            ShorthandId::BorderLeft => {
                proof {
                    reveal_strlit("border-left");
                    assert("border-left"@ =~= seq!['b', 'o', 'r', 'd', 'e', 'r', '-', 'l', 'e', 'f', 't']);
                }
                "border-left"
            },
            ShorthandId::BorderWidth => {
                proof {
                    reveal_strlit("border-width");
                    assert("border-width"@ =~= seq!['b', 'o', 'r', 'd', 'e', 'r', '-', 'w', 'i', 'd', 't', 'h']);
                }
                "border-width"
            },
            ShorthandId::BorderStyle => {
                proof {
                    reveal_strlit("border-style");
                    assert("border-style"@ =~= seq!['b', 'o', 'r', 'd', 'e', 'r', '-', 's', 't', 'y', 'l', 'e']);
                }
                "border-style"
            },
            ShorthandId::BorderColor => {
                proof {
                    reveal_strlit("border-color");
                    assert("border-color"@ =~= seq!['b', 'o', 'r', 'd', 'e', 'r', '-', 'c', 'o', 'l', 'o', 'r']);
                }
                "border-color"
            },
            ShorthandId::BorderRadius => {
                proof {
                    reveal_strlit("border-radius");
                    assert("border-radius"@ =~= seq!['b', 'o', 'r', 'd', 'e', 'r', '-', 'r', 'a', 'd', 'i', 'u', 's']);
                }
                "border-radius"
            },
        }
    }

    /// Looks a shorthand up by its CSS name, ignoring ASCII case.
    pub fn from_name(name: &str) -> (id: Option<ShorthandId>)
        ensures
            id == shorthand_named(lower_seq(name@)),
    {
        let word = lower_all(&chars_of(name));
        if same_text(&word, "margin") {
            proof {
                reveal_strlit("margin");
                assert("margin"@ =~= seq!['m', 'a', 'r', 'g', 'i', 'n']);
            }
            return Some(ShorthandId::Margin);
        }
        proof {
            reveal_strlit("margin");
            assert("margin"@ =~= seq!['m', 'a', 'r', 'g', 'i', 'n']);
        }
        if same_text(&word, "padding") {
            proof {
                reveal_strlit("padding");
                assert("padding"@ =~= seq!['p', 'a', 'd', 'd', 'i', 'n', 'g']);
            }
            return Some(ShorthandId::Padding);
        }
        proof {
            reveal_strlit("padding");
            assert("padding"@ =~= seq!['p', 'a', 'd', 'd', 'i', 'n', 'g']);
        }
        if same_text(&word, "gap") {
            proof {
                reveal_strlit("gap");
                assert("gap"@ =~= seq!['g', 'a', 'p']);
            }
            return Some(ShorthandId::Gap);
        }
        proof {
            reveal_strlit("gap");
            assert("gap"@ =~= seq!['g', 'a', 'p']);
        }
        if same_text(&word, "border") {
            proof {
                reveal_strlit("border");
                assert("border"@ =~= seq!['b', 'o', 'r', 'd', 'e', 'r']);
            }
            return Some(ShorthandId::Border);
        }
        proof {
            reveal_strlit("border");
            assert("border"@ =~= seq!['b', 'o', 'r', 'd', 'e', 'r']);
        }
        if same_text(&word, "border-top") {
            proof {
                reveal_strlit("border-top");
                assert("border-top"@ =~= seq!['b', 'o', 'r', 'd', 'e', 'r', '-', 't', 'o', 'p']);
            }
            return Some(ShorthandId::BorderTop);
        }
        proof {
            reveal_strlit("border-top");
            assert("border-top"@ =~= seq!['b', 'o', 'r', 'd', 'e', 'r', '-', 't', 'o', 'p']);
        }
        if same_text(&word, "border-right") {
            proof {
                reveal_strlit("border-right");
                assert("border-right"@ =~= seq!['b', 'o', 'r', 'd', 'e', 'r', '-', 'r', 'i', 'g', 'h', 't']);
            }
            return Some(ShorthandId::BorderRight);
        }
        proof {
            reveal_strlit("border-right");
            assert("border-right"@ =~= seq!['b', 'o', 'r', 'd', 'e', 'r', '-', 'r', 'i', 'g', 'h', 't']);
        }
        if same_text(&word, "border-bottom") {
            proof {
                reveal_strlit("border-bottom");
                assert("border-bottom"@ =~= seq!['b', 'o', 'r', 'd', 'e', 'r', '-', 'b', 'o', 't', 't', 'o', 'm']);
            }
            return Some(ShorthandId::BorderBottom);
        }
        proof {
            reveal_strlit("border-bottom");
            assert("border-bottom"@ =~= seq!['b', 'o', 'r', 'd', 'e', 'r', '-', 'b', 'o', 't', 't', 'o', 'm']);
        }
        if same_text(&word, "border-left") {
            proof {
                reveal_strlit("border-left");
                assert("border-left"@ =~= seq!['b', 'o', 'r', 'd', 'e', 'r', '-', 'l', 'e', 'f', 't']);
            }
            return Some(ShorthandId::BorderLeft);
        }
        proof {
            reveal_strlit("border-left");
            assert("border-left"@ =~= seq!['b', 'o', 'r', 'd', 'e', 'r', '-', 'l', 'e', 'f', 't']);
        }
        if same_text(&word, "border-width") {
            proof {
                reveal_strlit("border-width");
                assert("border-width"@ =~= seq!['b', 'o', 'r', 'd', 'e', 'r', '-', 'w', 'i', 'd', 't', 'h']);
            }
            return Some(ShorthandId::BorderWidth);
        }
        proof {
            reveal_strlit("border-width");
            assert("border-width"@ =~= seq!['b', 'o', 'r', 'd', 'e', 'r', '-', 'w', 'i', 'd', 't', 'h']);
        }
        if same_text(&word, "border-style") {
            proof {
                reveal_strlit("border-style");
                assert("border-style"@ =~= seq!['b', 'o', 'r', 'd', 'e', 'r', '-', 's', 't', 'y', 'l', 'e']);
            }
            return Some(ShorthandId::BorderStyle);
        }
        proof {
            reveal_strlit("border-style");
            assert("border-style"@ =~= seq!['b', 'o', 'r', 'd', 'e', 'r', '-', 's', 't', 'y', 'l', 'e']);
        }
        if same_text(&word, "border-color") {
            proof {
                reveal_strlit("border-color");
                assert("border-color"@ =~= seq!['b', 'o', 'r', 'd', 'e', 'r', '-', 'c', 'o', 'l', 'o', 'r']);
            }
            return Some(ShorthandId::BorderColor);
        }
        proof {
            reveal_strlit("border-color");
            assert("border-color"@ =~= seq!['b', 'o', 'r', 'd', 'e', 'r', '-', 'c', 'o', 'l', 'o', 'r']);
        }
        if same_text(&word, "border-radius") {
            proof {
                reveal_strlit("border-radius");
                assert("border-radius"@ =~= seq!['b', 'o', 'r', 'd', 'e', 'r', '-', 'r', 'a', 'd', 'i', 'u', 's']);
            }
            return Some(ShorthandId::BorderRadius);
        }
        proof {
            reveal_strlit("border-radius");
            assert("border-radius"@ =~= seq!['b', 'o', 'r', 'd', 'e', 'r', '-', 'r', 'a', 'd', 'i', 'u', 's']);
        }
        None
    }

    /// The longhands this shorthand sets.
    pub fn longhands(self) -> (ids: Vec<LonghandId>)
        ensures
            ids@ == shorthand_longhands(self),
    {
        let mut ids: Vec<LonghandId> = Vec::new();
        match self {
            ShorthandId::Margin => {
                ids.push(LonghandId::MarginTop);
                ids.push(LonghandId::MarginRight);
                ids.push(LonghandId::MarginBottom);
                ids.push(LonghandId::MarginLeft);
            },
            ShorthandId::Padding => {
                ids.push(LonghandId::PaddingTop);
                ids.push(LonghandId::PaddingRight);
                ids.push(LonghandId::PaddingBottom);
                ids.push(LonghandId::PaddingLeft);
            },
            ShorthandId::Gap => {
                ids.push(LonghandId::RowGap);
                ids.push(LonghandId::ColumnGap);
            },
            ShorthandId::Border => {
                ids.push(LonghandId::BorderTopWidth);
                ids.push(LonghandId::BorderRightWidth);
                ids.push(LonghandId::BorderBottomWidth);
                ids.push(LonghandId::BorderLeftWidth);
                ids.push(LonghandId::BorderTopStyle);
                ids.push(LonghandId::BorderRightStyle);
                ids.push(LonghandId::BorderBottomStyle);
                ids.push(LonghandId::BorderLeftStyle);
                ids.push(LonghandId::BorderTopColor);
                ids.push(LonghandId::BorderRightColor);
                ids.push(LonghandId::BorderBottomColor);
                ids.push(LonghandId::BorderLeftColor);
            },
            ShorthandId::BorderTop => {
                ids.push(LonghandId::BorderTopWidth);
                ids.push(LonghandId::BorderTopStyle);
                ids.push(LonghandId::BorderTopColor);
            },
            ShorthandId::BorderRight => {
                ids.push(LonghandId::BorderRightWidth);
                ids.push(LonghandId::BorderRightStyle);
                ids.push(LonghandId::BorderRightColor);
            },
            ShorthandId::BorderBottom => {
                ids.push(LonghandId::BorderBottomWidth);
                ids.push(LonghandId::BorderBottomStyle);
                ids.push(LonghandId::BorderBottomColor);
            },
            ShorthandId::BorderLeft => {
                ids.push(LonghandId::BorderLeftWidth);
                ids.push(LonghandId::BorderLeftStyle);
                ids.push(LonghandId::BorderLeftColor);
            },
            ShorthandId::BorderWidth => {
                ids.push(LonghandId::BorderTopWidth);
                ids.push(LonghandId::BorderRightWidth);
                ids.push(LonghandId::BorderBottomWidth);
                ids.push(LonghandId::BorderLeftWidth);
            },
            ShorthandId::BorderStyle => {
                ids.push(LonghandId::BorderTopStyle);
                ids.push(LonghandId::BorderRightStyle);
                ids.push(LonghandId::BorderBottomStyle);
                ids.push(LonghandId::BorderLeftStyle);
            },
            ShorthandId::BorderColor => {
                ids.push(LonghandId::BorderTopColor);
                ids.push(LonghandId::BorderRightColor);
                ids.push(LonghandId::BorderBottomColor);
                ids.push(LonghandId::BorderLeftColor);
            },
            ShorthandId::BorderRadius => {
                ids.push(LonghandId::BorderTopLeftRadius);
                ids.push(LonghandId::BorderTopRightRadius);
                ids.push(LonghandId::BorderBottomRightRadius);
                ids.push(LonghandId::BorderBottomLeftRadius);
            },
        }
        assert(ids@ =~= shorthand_longhands(self));
        ids
    }
}


/// Any property name this crate accepts.
#[derive(Clone, Copy, Debug, PartialEq, Eq, Hash, Structural)]
pub enum PropertyId {
    Longhand(LonghandId),
    Shorthand(ShorthandId),
}

/// The CSS name of a property.
pub open spec fn property_name(id: PropertyId) -> Seq<char> {
    match id {
        PropertyId::Longhand(l) => longhand_name(l),
        PropertyId::Shorthand(s) => shorthand_name(s),
    }
}

/// The property a lower-case name stands for: a longhand first, then a
/// shorthand.
pub open spec fn property_named(name: Seq<char>) -> Option<PropertyId> {
    match longhand_named(name) {
        Some(l) => Some(PropertyId::Longhand(l)),
        None => match shorthand_named(name) {
            Some(s) => Some(PropertyId::Shorthand(s)),
            None => None,
        },
    }
}

/// The longhands a declaration of a property sets.
pub open spec fn property_longhands(id: PropertyId) -> Seq<LonghandId> {
    match id {
        PropertyId::Longhand(l) => seq![l],
        PropertyId::Shorthand(s) => shorthand_longhands(s),
    }
}

impl PropertyId {
    /// Looks a property up by its CSS name, ignoring ASCII case.
    pub fn from_name(name: &str) -> (id: Option<PropertyId>)
        ensures
            id == property_named(lower_seq(name@)),
    {
        match LonghandId::from_name(name) {
            Some(l) => Some(PropertyId::Longhand(l)),
            None => match ShorthandId::from_name(name) {
                Some(s) => Some(PropertyId::Shorthand(s)),
                None => None,
            },
        }
    }

    pub fn name(self) -> (name: &'static str)
        ensures
            name@ == property_name(self),
    {
        match self {
            PropertyId::Longhand(l) => l.name(),
            PropertyId::Shorthand(s) => s.name(),
        }
    }

    /// The longhands a declaration of this property sets.
    pub fn longhands(self) -> (ids: Vec<LonghandId>)
        ensures
            ids@ == property_longhands(self),
    {
        match self {
            PropertyId::Longhand(l) => {
                let mut ids: Vec<LonghandId> = Vec::new();
                ids.push(l);
                proof {
                    assert(ids@ =~= seq![l]);
                }
                ids
            },
            PropertyId::Shorthand(s) => s.longhands(),
        }
    }
}

/// The keywords every property accepts in place of a value.
#[derive(Clone, Copy, Debug, PartialEq, Eq, Hash, Structural)]
pub enum CssWideKeyword {
    /// The property's initial value.
    Initial,
    /// The parent's computed value, whether or not the property inherits by
    /// default.
    Inherit,
    /// `inherit` for inherited properties, `initial` for the rest.
    Unset,
    /// Treated as `unset`: there is no user-agent stylesheet to revert to.
    Revert,
}

/// Where a CSS-wide keyword takes a property's value from.
#[derive(Clone, Copy, Debug, PartialEq, Eq, Structural)]
pub enum Resolution {
    Initial,
    Inherit,
}

/// The keyword a lower-case word stands for.
pub open spec fn keyword_named(word: Seq<char>) -> Option<CssWideKeyword> {
    if word == seq!['i', 'n', 'i', 't', 'i', 'a', 'l'] {
        Some(CssWideKeyword::Initial)
    } else if word == seq!['i', 'n', 'h', 'e', 'r', 'i', 't'] {
        Some(CssWideKeyword::Inherit)
    } else if word == seq!['u', 'n', 's', 'e', 't'] {
        Some(CssWideKeyword::Unset)
    } else if word == seq!['r', 'e', 'v', 'e', 'r', 't'] {
        Some(CssWideKeyword::Revert)
    } else {
        None
    }
}

/// What a keyword means for a property that does or does not inherit.
pub open spec fn resolution_of(keyword: CssWideKeyword, inherited: bool) -> Resolution {
    match keyword {
        CssWideKeyword::Initial => Resolution::Initial,
        CssWideKeyword::Inherit => Resolution::Inherit,
        CssWideKeyword::Unset | CssWideKeyword::Revert => if inherited {
            Resolution::Inherit
        } else {
            Resolution::Initial
        },
    }
}

impl CssWideKeyword {
    /// The keyword spelled by `word`, ignoring ASCII case.
    pub fn from_keyword(word: &str) -> (keyword: Option<CssWideKeyword>)
        ensures
            keyword == keyword_named(lower_seq(word@)),
    {
        let word = lower_all(&chars_of(word));
        proof {
            reveal_strlit("initial");
            reveal_strlit("inherit");
            reveal_strlit("unset");
            reveal_strlit("revert");
            assert("initial"@ =~= seq!['i', 'n', 'i', 't', 'i', 'a', 'l']);
            assert("inherit"@ =~= seq!['i', 'n', 'h', 'e', 'r', 'i', 't']);
            assert("unset"@ =~= seq!['u', 'n', 's', 'e', 't']);
            assert("revert"@ =~= seq!['r', 'e', 'v', 'e', 'r', 't']);
        }
        if same_text(&word, "initial") {
            Some(CssWideKeyword::Initial)
        } else if same_text(&word, "inherit") {
            Some(CssWideKeyword::Inherit)
        } else if same_text(&word, "unset") {
            Some(CssWideKeyword::Unset)
        } else if same_text(&word, "revert") {
            Some(CssWideKeyword::Revert)
        } else {
            None
        }
    }

    /// What the keyword means for a property that does or does not inherit.
    pub fn resolve(self, inherited: bool) -> (r: Resolution)
        ensures
            r == resolution_of(self, inherited),
    {
        match self {
            CssWideKeyword::Initial => Resolution::Initial,
            CssWideKeyword::Inherit => Resolution::Inherit,
            CssWideKeyword::Unset | CssWideKeyword::Revert => if inherited {
                Resolution::Inherit
            } else {
                Resolution::Initial
            },
        }
    }
}

#[verifier::rlimit(60)]
proof fn lemma_longhand_names_from_0(id: LonghandId)
    requires
        0 <= longhand_index(id) < 7,
    ensures
        longhand_named(longhand_name(id)) == Some(id),
        lower_seq(longhand_name(id)) == longhand_name(id),
        shorthand_named(longhand_name(id)) is None,
        all_longhands()[longhand_index(id) as int] == id,
{
    assert(lower_seq(longhand_name(id)) =~= longhand_name(id));
}

#[verifier::rlimit(60)]
proof fn lemma_longhand_names_from_7(id: LonghandId)
    requires
        7 <= longhand_index(id) < 14,
    ensures
        longhand_named(longhand_name(id)) == Some(id),
        lower_seq(longhand_name(id)) == longhand_name(id),
        shorthand_named(longhand_name(id)) is None,
        all_longhands()[longhand_index(id) as int] == id,
{
    assert(lower_seq(longhand_name(id)) =~= longhand_name(id));
}

#[verifier::rlimit(60)]
proof fn lemma_longhand_names_from_14(id: LonghandId)
    requires
        14 <= longhand_index(id) < 21,
    ensures
        longhand_named(longhand_name(id)) == Some(id),
        lower_seq(longhand_name(id)) == longhand_name(id),
        shorthand_named(longhand_name(id)) is None,
        all_longhands()[longhand_index(id) as int] == id,
{
    assert(lower_seq(longhand_name(id)) =~= longhand_name(id));
}

#[verifier::rlimit(60)]
proof fn lemma_longhand_names_from_21(id: LonghandId)
    requires
        21 <= longhand_index(id) < 28,
    ensures
        longhand_named(longhand_name(id)) == Some(id),
        lower_seq(longhand_name(id)) == longhand_name(id),
        shorthand_named(longhand_name(id)) is None,
        all_longhands()[longhand_index(id) as int] == id,
{
    assert(lower_seq(longhand_name(id)) =~= longhand_name(id));
}

#[verifier::rlimit(60)]
proof fn lemma_longhand_names_from_28(id: LonghandId)
    requires
        28 <= longhand_index(id) < 35,
    ensures
        longhand_named(longhand_name(id)) == Some(id),
        lower_seq(longhand_name(id)) == longhand_name(id),
        shorthand_named(longhand_name(id)) is None,
        all_longhands()[longhand_index(id) as int] == id,
{
    assert(lower_seq(longhand_name(id)) =~= longhand_name(id));
}

#[verifier::rlimit(60)]
proof fn lemma_longhand_names_from_35(id: LonghandId)
    requires
        35 <= longhand_index(id) < 42,
    ensures
        longhand_named(longhand_name(id)) == Some(id),
        lower_seq(longhand_name(id)) == longhand_name(id),
        shorthand_named(longhand_name(id)) is None,
        all_longhands()[longhand_index(id) as int] == id,
{
    assert(lower_seq(longhand_name(id)) =~= longhand_name(id));
}

/// Every longhand's name is lower case, leads back to the longhand, names no
/// shorthand, and the longhand stands at its index in the table.
pub proof fn lemma_longhand_names(id: LonghandId)
    ensures
        longhand_named(longhand_name(id)) == Some(id),
        lower_seq(longhand_name(id)) == longhand_name(id),
        shorthand_named(longhand_name(id)) is None,
        property_named(longhand_name(id)) == Some(PropertyId::Longhand(id)),
        all_longhands().len() == LONGHAND_COUNT,
        longhand_index(id) < LONGHAND_COUNT,
        all_longhands()[longhand_index(id) as int] == id,
{
    let i = longhand_index(id);
    if i < 7 {
        lemma_longhand_names_from_0(id);
    } else if i < 14 {
        lemma_longhand_names_from_7(id);
    } else if i < 21 {
        lemma_longhand_names_from_14(id);
    } else if i < 28 {
        lemma_longhand_names_from_21(id);
    } else if i < 35 {
        lemma_longhand_names_from_28(id);
    } else if i < 42 {
        lemma_longhand_names_from_35(id);
    }
}

#[verifier::rlimit(60)]
proof fn lemma_shorthand_names_each(id: ShorthandId)
    ensures
        shorthand_named(shorthand_name(id)) == Some(id),
        lower_seq(shorthand_name(id)) == shorthand_name(id),
        longhand_named(shorthand_name(id)) is None,
        shorthand_longhands(id).len() > 0,
{
    assert(lower_seq(shorthand_name(id)) =~= shorthand_name(id));
}

/// Every shorthand's name is lower case, leads back to the shorthand, names
/// no longhand, and every shorthand sets at least one longhand.
pub proof fn lemma_shorthand_names(id: ShorthandId)
    ensures
        shorthand_named(shorthand_name(id)) == Some(id),
        lower_seq(shorthand_name(id)) == shorthand_name(id),
        longhand_named(shorthand_name(id)) is None,
        property_named(shorthand_name(id)) == Some(PropertyId::Shorthand(id)),
        shorthand_longhands(id).len() > 0,
{
    lemma_shorthand_names_each(id);
}

/// Whether `s` begins with `prefix`.
pub open spec fn starts_with(s: Seq<char>, prefix: Seq<char>) -> bool {
    s.len() >= prefix.len() && s.take(prefix.len() as int) == prefix
}

/// Whether `s` ends with `suffix`.
pub open spec fn ends_with(s: Seq<char>, suffix: Seq<char>) -> bool {
    s.len() >= suffix.len() && s.skip(s.len() - suffix.len()) == suffix
}

/// The sides of a box in the CSS order: top, right, bottom, left.
pub open spec fn side_word(side: int) -> Seq<char> {
    if side == 0 {
        seq!['t', 'o', 'p']
    } else if side == 1 {
        seq!['r', 'i', 'g', 'h', 't']
    } else if side == 2 {
        seq!['b', 'o', 't', 't', 'o', 'm']
    } else {
        seq!['l', 'e', 'f', 't']
    }
}

/// `border-`.
pub open spec fn border_dash() -> Seq<char> {
    seq!['b', 'o', 'r', 'd', 'e', 'r', '-']
}

/// The name of the longhand that a four-sided shorthand sets for one side:
/// `margin-top` for `margin`, and `border-top-width` for `border-width`.
pub open spec fn side_longhand_name(shorthand: Seq<char>, side: int) -> Seq<char> {
    if starts_with(shorthand, border_dash()) {
        border_dash() + side_word(side) + seq!['-'] + shorthand.skip(7)
    } else {
        shorthand + seq!['-'] + side_word(side)
    }
}

#[verifier::spinoff_prover]
#[verifier::rlimit(60)]
proof fn lemma_side_shorthand(id: ShorthandId)
    requires
        id == ShorthandId::Margin || id == ShorthandId::Padding || id == ShorthandId::BorderWidth
            || id == ShorthandId::BorderStyle || id == ShorthandId::BorderColor,
    ensures
        shorthand_longhands(id).len() == 4,
        forall|side: int|
            0 <= side < 4 ==> longhand_name(#[trigger] shorthand_longhands(id)[side])
                == side_longhand_name(shorthand_name(id), side),
{
    let n = shorthand_name(id);
    if id == ShorthandId::Margin || id == ShorthandId::Padding {
        if n.len() >= 7 {
            assert(n.take(7)[0] != border_dash()[0]);
        }
        assert(!starts_with(n, border_dash()));
    } else {
        assert(n.take(7) =~= border_dash());
    }
    assert forall|side: int| 0 <= side < 4 implies longhand_name(
        #[trigger] shorthand_longhands(id)[side],
    ) == side_longhand_name(n, side) by {
        if starts_with(n, border_dash()) {
            assert(longhand_name(shorthand_longhands(id)[side]) =~= border_dash() + side_word(side)
                + seq!['-'] + n.skip(7));
        } else {
            assert(longhand_name(shorthand_longhands(id)[side]) =~= n + seq!['-'] + side_word(side));
        }
    }
}

/// Law: each four-sided shorthand (`margin`, `padding`, `border-width`,
/// `border-style`, `border-color`) sets exactly four longhands, one per side
/// in the order top, right, bottom, left, named after it and the side; so
/// `padding` sets `padding-top`, `padding-right`, `padding-bottom` and
/// `padding-left`, and `border-width` sets `border-top-width` and so on.
pub proof fn lemma_side_shorthands(id: ShorthandId, side: int)
    requires
        id == ShorthandId::Margin || id == ShorthandId::Padding || id == ShorthandId::BorderWidth
            || id == ShorthandId::BorderStyle || id == ShorthandId::BorderColor,
        0 <= side < 4,
    ensures
        shorthand_longhands(id).len() == 4,
        longhand_name(shorthand_longhands(id)[side]) == side_longhand_name(shorthand_name(id), side),
{
    lemma_side_shorthand(id);
}

#[verifier::spinoff_prover]
#[verifier::rlimit(80)]
proof fn lemma_named_side(id: LonghandId)
    ensures
        starts_with(longhand_name(id), seq!['m', 'a', 'r', 'g', 'i', 'n', '-']) ==> shorthand_longhands(
            ShorthandId::Margin,
        ).contains(id),
        starts_with(longhand_name(id), seq!['p', 'a', 'd', 'd', 'i', 'n', 'g', '-'])
            ==> shorthand_longhands(ShorthandId::Padding).contains(id),
        starts_with(longhand_name(id), border_dash()) && ends_with(
            longhand_name(id),
            seq!['-', 'w', 'i', 'd', 't', 'h'],
        ) ==> shorthand_longhands(ShorthandId::BorderWidth).contains(id),
        starts_with(longhand_name(id), border_dash()) && ends_with(
            longhand_name(id),
            seq!['-', 's', 't', 'y', 'l', 'e'],
        ) ==> shorthand_longhands(ShorthandId::BorderStyle).contains(id),
        starts_with(longhand_name(id), border_dash()) && ends_with(
            longhand_name(id),
            seq!['-', 'c', 'o', 'l', 'o', 'r'],
        ) ==> shorthand_longhands(ShorthandId::BorderColor).contains(id),
{
    let n = longhand_name(id);
    match id {
        LonghandId::MarginTop => {
            assert(shorthand_longhands(ShorthandId::Margin)[0] == id);
        },
        LonghandId::MarginRight => {
            assert(shorthand_longhands(ShorthandId::Margin)[1] == id);
        },
        LonghandId::MarginBottom => {
            assert(shorthand_longhands(ShorthandId::Margin)[2] == id);
        },
        LonghandId::MarginLeft => {
            assert(shorthand_longhands(ShorthandId::Margin)[3] == id);
        },
        LonghandId::PaddingTop => {
            assert(shorthand_longhands(ShorthandId::Padding)[0] == id);
        },
        LonghandId::PaddingRight => {
            assert(shorthand_longhands(ShorthandId::Padding)[1] == id);
        },
        LonghandId::PaddingBottom => {
            assert(shorthand_longhands(ShorthandId::Padding)[2] == id);
        },
        LonghandId::PaddingLeft => {
            assert(shorthand_longhands(ShorthandId::Padding)[3] == id);
        },
        LonghandId::BorderTopWidth => {
            assert(shorthand_longhands(ShorthandId::BorderWidth)[0] == id);
        },
        LonghandId::BorderRightWidth => {
            assert(shorthand_longhands(ShorthandId::BorderWidth)[1] == id);
        },
        LonghandId::BorderBottomWidth => {
            assert(shorthand_longhands(ShorthandId::BorderWidth)[2] == id);
        },
        LonghandId::BorderLeftWidth => {
            assert(shorthand_longhands(ShorthandId::BorderWidth)[3] == id);
        },
        LonghandId::BorderTopStyle => {
            assert(shorthand_longhands(ShorthandId::BorderStyle)[0] == id);
        },
        LonghandId::BorderRightStyle => {
            assert(shorthand_longhands(ShorthandId::BorderStyle)[1] == id);
        },
        LonghandId::BorderBottomStyle => {
            assert(shorthand_longhands(ShorthandId::BorderStyle)[2] == id);
        },
        LonghandId::BorderLeftStyle => {
            assert(shorthand_longhands(ShorthandId::BorderStyle)[3] == id);
        },
        LonghandId::BorderTopColor => {
            assert(shorthand_longhands(ShorthandId::BorderColor)[0] == id);
        },
        LonghandId::BorderRightColor => {
            assert(shorthand_longhands(ShorthandId::BorderColor)[1] == id);
        },
        LonghandId::BorderBottomColor => {
            assert(shorthand_longhands(ShorthandId::BorderColor)[2] == id);
        },
        LonghandId::BorderLeftColor => {
            assert(shorthand_longhands(ShorthandId::BorderColor)[3] == id);
        },
        _ => {
            assert(n.take(7) != seq!['m', 'a', 'r', 'g', 'i', 'n', '-'] || n.len() < 7) by {
                if n.len() >= 7 {
                    assert(n.take(7)[0] == n[0]);
                    assert(n.take(7)[6] == n[6]);
                }
            }
            assert(n.take(8) != seq!['p', 'a', 'd', 'd', 'i', 'n', 'g', '-'] || n.len() < 8) by {
                if n.len() >= 8 {
                    assert(n.take(8)[0] == n[0]);
                    assert(n.take(8)[7] == n[7]);
                }
            }
            if n.len() >= 7 && n.take(7) == border_dash() {
                assert(n.take(7)[0] == n[0]);
                assert(n.take(7)[6] == n[6]);
                assert(n.len() >= 6);
                let t = n.skip(n.len() - 6);
                assert(t[0] == n[n.len() - 6]);
                assert(t[1] == n[n.len() - 5]);
                assert(t[5] == n[n.len() - 1]);
            }
        },
    }
}

/// Law: every longhand named `margin-…` is set by `margin`, every one named
/// `padding-…` by `padding`, and every `border-…-width`, `border-…-style`
/// and `border-…-color` by `border-width`, `border-style` and
/// `border-color`.
pub proof fn lemma_side_longhands_covered(id: LonghandId)
    ensures
        starts_with(longhand_name(id), seq!['m', 'a', 'r', 'g', 'i', 'n', '-']) ==> shorthand_longhands(
            ShorthandId::Margin,
        ).contains(id),
        starts_with(longhand_name(id), seq!['p', 'a', 'd', 'd', 'i', 'n', 'g', '-'])
            ==> shorthand_longhands(ShorthandId::Padding).contains(id),
        starts_with(longhand_name(id), border_dash()) && ends_with(
            longhand_name(id),
            seq!['-', 'w', 'i', 'd', 't', 'h'],
        ) ==> shorthand_longhands(ShorthandId::BorderWidth).contains(id),
        starts_with(longhand_name(id), border_dash()) && ends_with(
            longhand_name(id),
            seq!['-', 's', 't', 'y', 'l', 'e'],
        ) ==> shorthand_longhands(ShorthandId::BorderStyle).contains(id),
        starts_with(longhand_name(id), border_dash()) && ends_with(
            longhand_name(id),
            seq!['-', 'c', 'o', 'l', 'o', 'r'],
        ) ==> shorthand_longhands(ShorthandId::BorderColor).contains(id),
{
    lemma_named_side(id);
}

/// Law: the longhands that inherit by default are exactly the text and font
/// ones: `color`, `font-family`, `font-size`, `font-weight`, `font-style`,
/// `line-height`, `letter-spacing` and `text-align`.
#[verifier::spinoff_prover]
#[verifier::rlimit(60)]
pub proof fn lemma_inherited_longhands(id: LonghandId)
    ensures
        longhand_inherited(id) == (longhand_name(id) == seq!['c', 'o', 'l', 'o', 'r']
            || longhand_name(id) == seq!['f', 'o', 'n', 't', '-', 'f', 'a', 'm', 'i', 'l', 'y']
            || longhand_name(id) == seq!['f', 'o', 'n', 't', '-', 's', 'i', 'z', 'e']
            || longhand_name(id) == seq!['f', 'o', 'n', 't', '-', 'w', 'e', 'i', 'g', 'h', 't']
            || longhand_name(id) == seq!['f', 'o', 'n', 't', '-', 's', 't', 'y', 'l', 'e']
            || longhand_name(id) == seq!['l', 'i', 'n', 'e', '-', 'h', 'e', 'i', 'g', 'h', 't']
            || longhand_name(id) == seq![
            'l', 'e', 't', 't', 'e', 'r', '-', 's', 'p', 'a', 'c', 'i', 'n', 'g',
        ] || longhand_name(id) == seq!['t', 'e', 'x', 't', '-', 'a', 'l', 'i', 'g', 'n']),
{
    match id {
        LonghandId::Width => {},
        LonghandId::Height => {},
        LonghandId::MinWidth => {},
        LonghandId::MinHeight => {},
        LonghandId::MaxWidth => {},
        LonghandId::MaxHeight => {},
        LonghandId::MarginTop => {},
        LonghandId::MarginRight => {},
        LonghandId::MarginBottom => {},
        LonghandId::MarginLeft => {},
        LonghandId::PaddingTop => {},
        LonghandId::PaddingRight => {},
        LonghandId::PaddingBottom => {},
        LonghandId::PaddingLeft => {},
        LonghandId::RowGap => {},
        LonghandId::ColumnGap => {},
        LonghandId::Color => {},
        LonghandId::BackgroundColor => {},
        LonghandId::Opacity => {},
        LonghandId::BorderTopWidth => {},
        LonghandId::BorderRightWidth => {},
        LonghandId::BorderBottomWidth => {},
        LonghandId::BorderLeftWidth => {},
        LonghandId::BorderTopStyle => {},
        LonghandId::BorderRightStyle => {},
        LonghandId::BorderBottomStyle => {},
        LonghandId::BorderLeftStyle => {},
        LonghandId::BorderTopColor => {},
        LonghandId::BorderRightColor => {},
        LonghandId::BorderBottomColor => {},
        LonghandId::BorderLeftColor => {},
        LonghandId::BorderTopLeftRadius => {},
        LonghandId::BorderTopRightRadius => {},
        LonghandId::BorderBottomRightRadius => {},
        LonghandId::BorderBottomLeftRadius => {},
        LonghandId::FontFamily => {},
        LonghandId::FontSize => {},
        LonghandId::FontWeight => {},
        LonghandId::FontStyle => {},
        LonghandId::LineHeight => {},
        LonghandId::LetterSpacing => {},
        LonghandId::TextAlign => {},
    }
}

} // verus!
