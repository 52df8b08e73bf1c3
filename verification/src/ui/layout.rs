//! The layout vocabulary of containers: how children are aligned across
//! the axis and spread along it.

use vstd::prelude::*;

use crate::text::{chars_of, same_text, trim, trimmed};

verus! {

/// Where a child sits across its container's axis.
#[derive(Clone, Copy, Debug, PartialEq, Eq, Hash, Default, Structural)]
pub enum Align {
    Start,
    Center,
    End,
    /// Fill the container across the axis, unless the child has an explicit
    /// size that way.
    #[default]
    Stretch,
}

/// The alignment a trimmed word names.
pub open spec fn align_named(word: Seq<char>) -> Option<Align> {
    if word == "start"@ {
        Some(Align::Start)
    } else if word == "center"@ {
        Some(Align::Center)
    } else if word == "end"@ {
        Some(Align::End)
    } else if word == "stretch"@ {
        Some(Align::Stretch)
    } else {
        None
    }
}

impl Align {
    /// `start`, `center`, `end` or `stretch`, with white space around it
    /// ignored.
    pub fn parse(text: &str) -> (a: Option<Align>)
        ensures
            a == align_named(trim(text@)),
    {
        let word = trimmed(&chars_of(text));
        if same_text(&word, "start") {
            Some(Align::Start)
        } else if same_text(&word, "center") {
            Some(Align::Center)
        } else if same_text(&word, "end") {
            Some(Align::End)
        } else if same_text(&word, "stretch") {
            Some(Align::Stretch)
        } else {
            None
        }
    }
}

/// How a container spreads its children along its axis when they do not
/// fill it and none of them grows.
#[derive(Clone, Copy, Debug, PartialEq, Eq, Hash, Default, Structural)]
pub enum Justify {
    #[default]
    Start,
    Center,
    End,
    /// The first child at the start, the last at the end, equal gaps
    /// between.
    SpaceBetween,
}

/// The justification a trimmed word names.
pub open spec fn justify_named(word: Seq<char>) -> Option<Justify> {
    if word == "start"@ {
        Some(Justify::Start)
    } else if word == "center"@ {
        Some(Justify::Center)
    } else if word == "end"@ {
        Some(Justify::End)
    } else if word == "space-between"@ {
        Some(Justify::SpaceBetween)
    } else {
        None
    }
}

impl Justify {
    /// `start`, `center`, `end` or `space-between`, with white space around
    /// it ignored.
    pub fn parse(text: &str) -> (j: Option<Justify>)
        ensures
            j == justify_named(trim(text@)),
    {
        let word = trimmed(&chars_of(text));
        if same_text(&word, "start") {
            Some(Justify::Start)
        } else if same_text(&word, "center") {
            Some(Justify::Center)
        } else if same_text(&word, "end") {
            Some(Justify::End)
        } else if same_text(&word, "space-between") {
            Some(Justify::SpaceBetween)
        } else {
            None
        }
    }
}

} // verus!
