//! Inline styles built from Rust values.

use vstd::prelude::*;

use crate::text::{owned, push_str};

verus! {

/// How a list of declarations is written: `property: value`, separated by
/// `; `.
pub open spec fn style_text(declarations: Seq<(Seq<char>, Seq<char>)>) -> Seq<char>
    decreases declarations.len(),
{
    if declarations.len() == 0 {
        Seq::<char>::empty()
    } else {
        let before = declarations.drop_last();
        let (property, value) = declarations.last();
        style_text(before) + (if before.len() > 0 {
            "; "@
        } else {
            Seq::<char>::empty()
        }) + property + ": "@ + value
    }
}

/// Builds inline CSS for `style` attributes whose values are computed.
///
/// The result is parsed by the style engine like any other CSS, so a
/// property it does not know is reported when the element is built.
#[derive(Debug, PartialEq, Eq)]
pub struct Style {
    declarations: Vec<(String, String)>,
}

impl Style {
    /// The declarations, in the order they were set.
    pub closed spec fn spec_declarations(&self) -> Seq<(Seq<char>, Seq<char>)> {
        self.declarations@.map_values(|d: (String, String)| (d.0@, d.1@))
    }

    pub fn new() -> (s: Style)
        ensures
            s.spec_declarations() == Seq::<(Seq<char>, Seq<char>)>::empty(),
    {
        let s = Style { declarations: Vec::new() };
        assert(s.spec_declarations() =~= Seq::<(Seq<char>, Seq<char>)>::empty());
        s
    }

    /// Any property and value, as CSS text.
    pub fn set(self, property: &str, value: &str) -> (s: Style)
        ensures
            s.spec_declarations() == self.spec_declarations().push((property@, value@)),
    {
        let mut declarations = self.declarations;
        declarations.push((owned(property), owned(value)));
        let s = Style { declarations };
        assert(s.spec_declarations() =~= self.spec_declarations().push((property@, value@)));
        s
    }

    /// Any CSS colour syntax, such as `#1e1e1e` or `oklch(60% 0.1 250)`.
    pub fn color(self, css: &str) -> (s: Style)
        ensures
            s.spec_declarations() == self.spec_declarations().push(("color"@, css@)),
    {
        self.set("color", css)
    }

    pub fn background(self, css: &str) -> (s: Style)
        ensures
            s.spec_declarations() == self.spec_declarations().push(("background-color"@, css@)),
    {
        self.set("background-color", css)
    }

    pub fn is_empty(&self) -> (b: bool)
        ensures
            b == (self.spec_declarations().len() == 0),
    {
        self.declarations.len() == 0
    }

    /// The declarations as inline CSS, such as `width: 120px; color: #fff`.
    pub fn to_string(&self) -> (css: String)
        ensures
            css@ == style_text(self.spec_declarations()),
    {
        let mut css = String::new();
        let mut i: usize = 0;
        let ghost all = self.spec_declarations();
        while i < self.declarations.len()
            invariant
                i <= self.declarations@.len(),
                all == self.spec_declarations(),
                all.len() == self.declarations@.len(),
                css@ == style_text(all.take(i as int)),
            decreases self.declarations@.len() - i,
        {
            let ghost before = all.take(i as int);
            assert(all.take(i as int + 1).drop_last() =~= before);
            if i > 0 {
                push_str(&mut css, "; ");
            }
            push_str(&mut css, self.declarations[i].0.as_str());
            push_str(&mut css, ": ");
            push_str(&mut css, self.declarations[i].1.as_str());
            i = i + 1;
        }
        assert(all.take(all.len() as int) =~= all);
        css
    }
}

impl Clone for Style {
    fn clone(&self) -> (s: Style)
        ensures
            s.spec_declarations() == self.spec_declarations(),
    {
        let mut declarations: Vec<(String, String)> = Vec::new();
        let mut i: usize = 0;
        while i < self.declarations.len()
            invariant
                i <= self.declarations@.len(),
                declarations@.map_values(|d: (String, String)| (d.0@, d.1@))
                    == self.spec_declarations().take(i as int),
            decreases self.declarations@.len() - i,
        {
            let d = &self.declarations[i];
            let property = owned(d.0.as_str());
            let value = owned(d.1.as_str());
            let ghost before = declarations@;
            declarations.push((property, value));
            proof {
                let f = |d: (String, String)| (d.0@, d.1@);
                assert(declarations@ == before.push((property, value)));
                assert(declarations@.map_values(f) =~= before.map_values(f).push(
                    (property@, value@),
                ));
                assert(self.spec_declarations()[i as int] == (property@, value@));
            }
            i = i + 1;
            assert(declarations@.map_values(|d: (String, String)| (d.0@, d.1@))
                =~= self.spec_declarations().take(i as int));
        }
        let s = Style { declarations };
        assert(self.spec_declarations().take(self.declarations@.len() as int)
            =~= self.spec_declarations());
        s
    }
}

impl Default for Style {
    fn default() -> (s: Style)
        ensures
            s.spec_declarations() == Seq::<(Seq<char>, Seq<char>)>::empty(),
    {
        Style::new()
    }
}

} // verus!
