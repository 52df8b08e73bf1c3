//! Keywords of specified values, and the absolute font sizes.

use vstd::prelude::*;

use crate::styler::values::{BorderStyle, FontStyle, TextAlign};
use crate::text::{chars_of, lower_all, lower_seq, same_text};

verus! {

/// The absolute `font-size` keywords, on the usual scale where `medium` is
/// 16px.
#[derive(Clone, Copy, Debug, PartialEq, Eq, Hash, Structural)]
pub enum FontSizeKeyword {
    XxSmall,
    XSmall,
    Small,
    Medium,
    Large,
    XLarge,
    XxLarge,
    XxxLarge,
}

/// The size a keyword stands for, in whole pixels.
pub open spec fn keyword_px(keyword: FontSizeKeyword) -> u32 {
    match keyword {
        FontSizeKeyword::XxSmall => 9,
        FontSizeKeyword::XSmall => 10,
        FontSizeKeyword::Small => 13,
        FontSizeKeyword::Medium => 16,
        FontSizeKeyword::Large => 18,
        FontSizeKeyword::XLarge => 24,
        FontSizeKeyword::XxLarge => 32,
        FontSizeKeyword::XxxLarge => 48,
    }
}

impl FontSizeKeyword {
    /// The size in pixels; every keyword is a whole number of them.
    pub fn pixels(self) -> (px: u32)
        ensures
            px == keyword_px(self),
    {
        match self {
            FontSizeKeyword::XxSmall => 9,
            FontSizeKeyword::XSmall => 10,
            FontSizeKeyword::Small => 13,
            FontSizeKeyword::Medium => 16,
            FontSizeKeyword::Large => 18,
            FontSizeKeyword::XLarge => 24,
            FontSizeKeyword::XxLarge => 32,
            FontSizeKeyword::XxxLarge => 48,
        }
    }
}

/// Each keyword is larger than the one before it.
pub proof fn lemma_keywords_grow()
    ensures
        keyword_px(FontSizeKeyword::XxSmall) < keyword_px(FontSizeKeyword::XSmall),
        keyword_px(FontSizeKeyword::XSmall) < keyword_px(FontSizeKeyword::Small),
        keyword_px(FontSizeKeyword::Small) < keyword_px(FontSizeKeyword::Medium),
        keyword_px(FontSizeKeyword::Medium) < keyword_px(FontSizeKeyword::Large),
        keyword_px(FontSizeKeyword::Large) < keyword_px(FontSizeKeyword::XLarge),
        keyword_px(FontSizeKeyword::XLarge) < keyword_px(FontSizeKeyword::XxLarge),
        keyword_px(FontSizeKeyword::XxLarge) < keyword_px(FontSizeKeyword::XxxLarge),
{
}

/// The absolute size a lower-case keyword names.
pub open spec fn font_size_named(word: Seq<char>) -> Option<FontSizeKeyword> {
    if word == seq!['x', 'x', '-', 's', 'm', 'a', 'l', 'l'] {
        Some(FontSizeKeyword::XxSmall)
    } else if word == seq!['x', '-', 's', 'm', 'a', 'l', 'l'] {
        Some(FontSizeKeyword::XSmall)
    } else if word == seq!['s', 'm', 'a', 'l', 'l'] {
        Some(FontSizeKeyword::Small)
    } else if word == seq!['m', 'e', 'd', 'i', 'u', 'm'] {
        Some(FontSizeKeyword::Medium)
    } else if word == seq!['l', 'a', 'r', 'g', 'e'] {
        Some(FontSizeKeyword::Large)
    } else if word == seq!['x', '-', 'l', 'a', 'r', 'g', 'e'] {
        Some(FontSizeKeyword::XLarge)
    } else if word == seq!['x', 'x', '-', 'l', 'a', 'r', 'g', 'e'] {
        Some(FontSizeKeyword::XxLarge)
    } else if word == seq!['x', 'x', 'x', '-', 'l', 'a', 'r', 'g', 'e'] {
        Some(FontSizeKeyword::XxxLarge)
    } else {
        None
    }
}

impl FontSizeKeyword {
    /// The value a CSS keyword names, ignoring ASCII case.
    pub fn from_keyword(word: &str) -> (value: Option<FontSizeKeyword>)
        ensures
            value == font_size_named(lower_seq(word@)),
    {
        let word = lower_all(&chars_of(word));
        proof {
            reveal_strlit("xx-small");
            assert("xx-small"@ =~= seq!['x', 'x', '-', 's', 'm', 'a', 'l', 'l']);
            reveal_strlit("x-small");
            assert("x-small"@ =~= seq!['x', '-', 's', 'm', 'a', 'l', 'l']);
            reveal_strlit("small");
            assert("small"@ =~= seq!['s', 'm', 'a', 'l', 'l']);
            reveal_strlit("medium");
            assert("medium"@ =~= seq!['m', 'e', 'd', 'i', 'u', 'm']);
            reveal_strlit("large");
            assert("large"@ =~= seq!['l', 'a', 'r', 'g', 'e']);
            reveal_strlit("x-large");
            assert("x-large"@ =~= seq!['x', '-', 'l', 'a', 'r', 'g', 'e']);
            reveal_strlit("xx-large");
            assert("xx-large"@ =~= seq!['x', 'x', '-', 'l', 'a', 'r', 'g', 'e']);
            reveal_strlit("xxx-large");
            assert("xxx-large"@ =~= seq!['x', 'x', 'x', '-', 'l', 'a', 'r', 'g', 'e']);
        }
        if same_text(&word, "xx-small") {
            Some(FontSizeKeyword::XxSmall)
        } else if same_text(&word, "x-small") {
            Some(FontSizeKeyword::XSmall)
        } else if same_text(&word, "small") {
            Some(FontSizeKeyword::Small)
        } else if same_text(&word, "medium") {
            Some(FontSizeKeyword::Medium)
        } else if same_text(&word, "large") {
            Some(FontSizeKeyword::Large)
        } else if same_text(&word, "x-large") {
            Some(FontSizeKeyword::XLarge)
        } else if same_text(&word, "xx-large") {
            Some(FontSizeKeyword::XxLarge)
        } else if same_text(&word, "xxx-large") {
            Some(FontSizeKeyword::XxxLarge)
        } else {
            None
        }
    }
}

/// The border style a lower-case keyword names.
pub open spec fn border_style_named(word: Seq<char>) -> Option<BorderStyle> {
    if word == seq!['n', 'o', 'n', 'e'] {
        Some(BorderStyle::NoBorder)
    } else if word == seq!['h', 'i', 'd', 'd', 'e', 'n'] {
        Some(BorderStyle::Hidden)
    } else if word == seq!['s', 'o', 'l', 'i', 'd'] {
        Some(BorderStyle::Solid)
    } else if word == seq!['d', 'a', 's', 'h', 'e', 'd'] {
        Some(BorderStyle::Dashed)
    } else if word == seq!['d', 'o', 't', 't', 'e', 'd'] {
        Some(BorderStyle::Dotted)
    } else if word == seq!['d', 'o', 'u', 'b', 'l', 'e'] {
        Some(BorderStyle::Double)
    } else {
        None
    }
}

impl BorderStyle {
    /// The value a CSS keyword names, ignoring ASCII case.
    pub fn from_keyword(word: &str) -> (value: Option<BorderStyle>)
        ensures
            value == border_style_named(lower_seq(word@)),
    {
        let word = lower_all(&chars_of(word));
        proof {
            reveal_strlit("none");
            assert("none"@ =~= seq!['n', 'o', 'n', 'e']);
            reveal_strlit("hidden");
            assert("hidden"@ =~= seq!['h', 'i', 'd', 'd', 'e', 'n']);
            reveal_strlit("solid");
            assert("solid"@ =~= seq!['s', 'o', 'l', 'i', 'd']);
            reveal_strlit("dashed");
            assert("dashed"@ =~= seq!['d', 'a', 's', 'h', 'e', 'd']);
            reveal_strlit("dotted");
            assert("dotted"@ =~= seq!['d', 'o', 't', 't', 'e', 'd']);
            reveal_strlit("double");
            assert("double"@ =~= seq!['d', 'o', 'u', 'b', 'l', 'e']);
        }
        if same_text(&word, "none") {
            Some(BorderStyle::NoBorder)
        } else if same_text(&word, "hidden") {
            Some(BorderStyle::Hidden)
        } else if same_text(&word, "solid") {
            Some(BorderStyle::Solid)
        } else if same_text(&word, "dashed") {
            Some(BorderStyle::Dashed)
        } else if same_text(&word, "dotted") {
            Some(BorderStyle::Dotted)
        } else if same_text(&word, "double") {
            Some(BorderStyle::Double)
        } else {
            None
        }
    }
}

/// The font style a lower-case keyword names.
pub open spec fn font_style_named(word: Seq<char>) -> Option<FontStyle> {
    if word == seq!['n', 'o', 'r', 'm', 'a', 'l'] {
        Some(FontStyle::Normal)
    } else if word == seq!['i', 't', 'a', 'l', 'i', 'c'] {
        Some(FontStyle::Italic)
    } else if word == seq!['o', 'b', 'l', 'i', 'q', 'u', 'e'] {
        Some(FontStyle::Oblique)
    } else {
        None
    }
}

impl FontStyle {
    /// The value a CSS keyword names, ignoring ASCII case.
    pub fn from_keyword(word: &str) -> (value: Option<FontStyle>)
        ensures
            value == font_style_named(lower_seq(word@)),
    {
        let word = lower_all(&chars_of(word));
        proof {
            reveal_strlit("normal");
            assert("normal"@ =~= seq!['n', 'o', 'r', 'm', 'a', 'l']);
            reveal_strlit("italic");
            assert("italic"@ =~= seq!['i', 't', 'a', 'l', 'i', 'c']);
            reveal_strlit("oblique");
            assert("oblique"@ =~= seq!['o', 'b', 'l', 'i', 'q', 'u', 'e']);
        }
        if same_text(&word, "normal") {
            Some(FontStyle::Normal)
        } else if same_text(&word, "italic") {
            Some(FontStyle::Italic)
        } else if same_text(&word, "oblique") {
            Some(FontStyle::Oblique)
        } else {
            None
        }
    }
}

/// The alignment a lower-case keyword names.
pub open spec fn text_align_named(word: Seq<char>) -> Option<TextAlign> {
    if word == seq!['s', 't', 'a', 'r', 't'] {
        Some(TextAlign::Start)
    } else if word == seq!['e', 'n', 'd'] {
        Some(TextAlign::End)
    } else if word == seq!['l', 'e', 'f', 't'] {
        Some(TextAlign::Left)
    } else if word == seq!['r', 'i', 'g', 'h', 't'] {
        Some(TextAlign::Right)
    } else if word == seq!['c', 'e', 'n', 't', 'e', 'r'] {
        Some(TextAlign::Center)
    } else if word == seq!['j', 'u', 's', 't', 'i', 'f', 'y'] {
        Some(TextAlign::Justify)
    } else {
        None
    }
}

impl TextAlign {
    /// The value a CSS keyword names, ignoring ASCII case.
    pub fn from_keyword(word: &str) -> (value: Option<TextAlign>)
        ensures
            value == text_align_named(lower_seq(word@)),
    {
        let word = lower_all(&chars_of(word));
        proof {
            reveal_strlit("start");
            assert("start"@ =~= seq!['s', 't', 'a', 'r', 't']);
            reveal_strlit("end");
            assert("end"@ =~= seq!['e', 'n', 'd']);
            reveal_strlit("left");
            assert("left"@ =~= seq!['l', 'e', 'f', 't']);
            reveal_strlit("right");
            assert("right"@ =~= seq!['r', 'i', 'g', 'h', 't']);
            reveal_strlit("center");
            assert("center"@ =~= seq!['c', 'e', 'n', 't', 'e', 'r']);
            reveal_strlit("justify");
            assert("justify"@ =~= seq!['j', 'u', 's', 't', 'i', 'f', 'y']);
        }
        if same_text(&word, "start") {
            Some(TextAlign::Start)
        } else if same_text(&word, "end") {
            Some(TextAlign::End)
        } else if same_text(&word, "left") {
            Some(TextAlign::Left)
        } else if same_text(&word, "right") {
            Some(TextAlign::Right)
        } else if same_text(&word, "center") {
            Some(TextAlign::Center)
        } else if same_text(&word, "justify") {
            Some(TextAlign::Justify)
        } else {
            None
        }
    }
}

/// Whether a lower-case family name is one of CSS's generic families.
pub open spec fn generic_family(name: Seq<char>) -> bool {
    name == seq!['s', 'e', 'r', 'i', 'f']
    || name == seq!['s', 'a', 'n', 's', '-', 's', 'e', 'r', 'i', 'f']
    || name == seq!['m', 'o', 'n', 'o', 's', 'p', 'a', 'c', 'e']
    || name == seq!['c', 'u', 'r', 's', 'i', 'v', 'e']
    || name == seq!['f', 'a', 'n', 't', 'a', 's', 'y']
    || name == seq!['s', 'y', 's', 't', 'e', 'm', '-', 'u', 'i']
    || name == seq!['u', 'i', '-', 's', 'e', 'r', 'i', 'f']
    || name == seq!['u', 'i', '-', 's', 'a', 'n', 's', '-', 's', 'e', 'r', 'i', 'f']
    || name == seq!['u', 'i', '-', 'm', 'o', 'n', 'o', 's', 'p', 'a', 'c', 'e']
    || name == seq!['u', 'i', '-', 'r', 'o', 'u', 'n', 'd', 'e', 'd']
    || name == seq!['e', 'm', 'o', 'j', 'i']
    || name == seq!['m', 'a', 't', 'h']
    || name == seq!['f', 'a', 'n', 'g', 's', 'o', 'n', 'g']
}

/// Whether `name` is a generic family such as `sans-serif`, ignoring
/// ASCII case. Generic families are kept in lower case; it is up to the
/// toolkit to map them to real fonts.
pub fn is_generic_family(name: &str) -> (b: bool)
    ensures
        b == generic_family(lower_seq(name@)),
{
    let word = lower_all(&chars_of(name));
    proof {
        reveal_strlit("serif");
        assert("serif"@ =~= seq!['s', 'e', 'r', 'i', 'f']);
        reveal_strlit("sans-serif");
        assert("sans-serif"@ =~= seq!['s', 'a', 'n', 's', '-', 's', 'e', 'r', 'i', 'f']);
        reveal_strlit("monospace");
        assert("monospace"@ =~= seq!['m', 'o', 'n', 'o', 's', 'p', 'a', 'c', 'e']);
        reveal_strlit("cursive");
        assert("cursive"@ =~= seq!['c', 'u', 'r', 's', 'i', 'v', 'e']);
        reveal_strlit("fantasy");
        assert("fantasy"@ =~= seq!['f', 'a', 'n', 't', 'a', 's', 'y']);
        reveal_strlit("system-ui");
        assert("system-ui"@ =~= seq!['s', 'y', 's', 't', 'e', 'm', '-', 'u', 'i']);
        reveal_strlit("ui-serif");
        assert("ui-serif"@ =~= seq!['u', 'i', '-', 's', 'e', 'r', 'i', 'f']);
        reveal_strlit("ui-sans-serif");
        assert("ui-sans-serif"@ =~= seq!['u', 'i', '-', 's', 'a', 'n', 's', '-', 's', 'e', 'r', 'i', 'f']);
        reveal_strlit("ui-monospace");
        assert("ui-monospace"@ =~= seq!['u', 'i', '-', 'm', 'o', 'n', 'o', 's', 'p', 'a', 'c', 'e']);
        reveal_strlit("ui-rounded");
        assert("ui-rounded"@ =~= seq!['u', 'i', '-', 'r', 'o', 'u', 'n', 'd', 'e', 'd']);
        reveal_strlit("emoji");
        assert("emoji"@ =~= seq!['e', 'm', 'o', 'j', 'i']);
        reveal_strlit("math");
        assert("math"@ =~= seq!['m', 'a', 't', 'h']);
        reveal_strlit("fangsong");
        assert("fangsong"@ =~= seq!['f', 'a', 'n', 'g', 's', 'o', 'n', 'g']);
    }
    same_text(&word, "serif") || same_text(&word, "sans-serif") || same_text(&word, "monospace") || same_text(&word, "cursive") || same_text(&word, "fantasy") || same_text(&word, "system-ui") || same_text(&word, "ui-serif") || same_text(&word, "ui-sans-serif") || same_text(&word, "ui-monospace") || same_text(&word, "ui-rounded") || same_text(&word, "emoji") || same_text(&word, "math") || same_text(&word, "fangsong")
}

} // verus!
