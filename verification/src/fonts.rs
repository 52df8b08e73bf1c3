//! How the rendering backend turns a CSS font family into system font
//! names to try.

use vstd::prelude::*;

use crate::text::same_text;

verus! {

/// The system font names to try, in order, for a CSS family name:
/// generic families expand to a list of common fonts, ending with the
/// generic name itself; any other name stands for itself.
pub open spec fn family_candidates(family: Seq<char>) -> Seq<Seq<char>> {
    if family == seq!['m', 'o', 'n', 'o', 's', 'p', 'a', 'c', 'e'] || family == seq!['u', 'i', '-', 'm', 'o', 'n', 'o', 's', 'p', 'a', 'c', 'e'] {
        seq![seq!['M', 'e', 'n', 'l', 'o'], seq!['S', 'F', ' ', 'M', 'o', 'n', 'o'], seq!['C', 'o', 'n', 's', 'o', 'l', 'a', 's'], seq!['C', 'a', 's', 'c', 'a', 'd', 'i', 'a', ' ', 'M', 'o', 'n', 'o'], seq!['D', 'e', 'j', 'a', 'V', 'u', ' ', 'S', 'a', 'n', 's', ' ', 'M', 'o', 'n', 'o'], seq!['L', 'i', 'b', 'e', 'r', 'a', 't', 'i', 'o', 'n', ' ', 'M', 'o', 'n', 'o'], seq!['C', 'o', 'u', 'r', 'i', 'e', 'r', ' ', 'N', 'e', 'w'], seq!['m', 'o', 'n', 'o', 's', 'p', 'a', 'c', 'e']]
    } else if family == seq!['s', 'a', 'n', 's', '-', 's', 'e', 'r', 'i', 'f'] || family == seq!['s', 'y', 's', 't', 'e', 'm', '-', 'u', 'i'] || family == seq!['u', 'i', '-', 's', 'a', 'n', 's', '-', 's', 'e', 'r', 'i', 'f'] {
        seq![seq!['H', 'e', 'l', 'v', 'e', 't', 'i', 'c', 'a', ' ', 'N', 'e', 'u', 'e'], seq!['S', 'e', 'g', 'o', 'e', ' ', 'U', 'I'], seq!['D', 'e', 'j', 'a', 'V', 'u', ' ', 'S', 'a', 'n', 's'], seq!['L', 'i', 'b', 'e', 'r', 'a', 't', 'i', 'o', 'n', ' ', 'S', 'a', 'n', 's'], seq!['A', 'r', 'i', 'a', 'l'], seq!['s', 'a', 'n', 's', '-', 's', 'e', 'r', 'i', 'f']]
    } else if family == seq!['s', 'e', 'r', 'i', 'f'] || family == seq!['u', 'i', '-', 's', 'e', 'r', 'i', 'f'] {
        seq![seq!['G', 'e', 'o', 'r', 'g', 'i', 'a'], seq!['T', 'i', 'm', 'e', 's', ' ', 'N', 'e', 'w', ' ', 'R', 'o', 'm', 'a', 'n'], seq!['D', 'e', 'j', 'a', 'V', 'u', ' ', 'S', 'e', 'r', 'i', 'f'], seq!['L', 'i', 'b', 'e', 'r', 'a', 't', 'i', 'o', 'n', ' ', 'S', 'e', 'r', 'i', 'f'], seq!['s', 'e', 'r', 'i', 'f']]
    } else {
        seq![family]
    }
}

/// The system font names to try for a CSS family name, generic ones
/// expanded.
pub fn candidates<'a>(family: &'a str) -> (names: Vec<&'a str>)
    ensures
        names@.map_values(|name: &str| name@) == family_candidates(family@),
{
    let chars = crate::text::chars_of(family);
    proof {
        reveal_strlit("Arial");
        assert("Arial"@ =~= seq!['A', 'r', 'i', 'a', 'l']);
        reveal_strlit("Cascadia Mono");
        assert("Cascadia Mono"@ =~= seq!['C', 'a', 's', 'c', 'a', 'd', 'i', 'a', ' ', 'M', 'o', 'n', 'o']);
        reveal_strlit("Consolas");
        assert("Consolas"@ =~= seq!['C', 'o', 'n', 's', 'o', 'l', 'a', 's']);
        reveal_strlit("Courier New");
        assert("Courier New"@ =~= seq!['C', 'o', 'u', 'r', 'i', 'e', 'r', ' ', 'N', 'e', 'w']);
        reveal_strlit("DejaVu Sans");
        assert("DejaVu Sans"@ =~= seq!['D', 'e', 'j', 'a', 'V', 'u', ' ', 'S', 'a', 'n', 's']);
        reveal_strlit("DejaVu Sans Mono");
        assert("DejaVu Sans Mono"@ =~= seq!['D', 'e', 'j', 'a', 'V', 'u', ' ', 'S', 'a', 'n', 's', ' ', 'M', 'o', 'n', 'o']);
        reveal_strlit("DejaVu Serif");
        assert("DejaVu Serif"@ =~= seq!['D', 'e', 'j', 'a', 'V', 'u', ' ', 'S', 'e', 'r', 'i', 'f']);
        reveal_strlit("Georgia");
        assert("Georgia"@ =~= seq!['G', 'e', 'o', 'r', 'g', 'i', 'a']);
        reveal_strlit("Helvetica Neue");
        assert("Helvetica Neue"@ =~= seq!['H', 'e', 'l', 'v', 'e', 't', 'i', 'c', 'a', ' ', 'N', 'e', 'u', 'e']);
        reveal_strlit("Liberation Mono");
        assert("Liberation Mono"@ =~= seq!['L', 'i', 'b', 'e', 'r', 'a', 't', 'i', 'o', 'n', ' ', 'M', 'o', 'n', 'o']);
        reveal_strlit("Liberation Sans");
        assert("Liberation Sans"@ =~= seq!['L', 'i', 'b', 'e', 'r', 'a', 't', 'i', 'o', 'n', ' ', 'S', 'a', 'n', 's']);
        reveal_strlit("Liberation Serif");
        assert("Liberation Serif"@ =~= seq!['L', 'i', 'b', 'e', 'r', 'a', 't', 'i', 'o', 'n', ' ', 'S', 'e', 'r', 'i', 'f']);
        reveal_strlit("Menlo");
        assert("Menlo"@ =~= seq!['M', 'e', 'n', 'l', 'o']);
        reveal_strlit("SF Mono");
        assert("SF Mono"@ =~= seq!['S', 'F', ' ', 'M', 'o', 'n', 'o']);
        reveal_strlit("Segoe UI");
        assert("Segoe UI"@ =~= seq!['S', 'e', 'g', 'o', 'e', ' ', 'U', 'I']);
        reveal_strlit("Times New Roman");
        assert("Times New Roman"@ =~= seq!['T', 'i', 'm', 'e', 's', ' ', 'N', 'e', 'w', ' ', 'R', 'o', 'm', 'a', 'n']);
        reveal_strlit("monospace");
        assert("monospace"@ =~= seq!['m', 'o', 'n', 'o', 's', 'p', 'a', 'c', 'e']);
        reveal_strlit("sans-serif");
        assert("sans-serif"@ =~= seq!['s', 'a', 'n', 's', '-', 's', 'e', 'r', 'i', 'f']);
        reveal_strlit("serif");
        assert("serif"@ =~= seq!['s', 'e', 'r', 'i', 'f']);
        reveal_strlit("system-ui");
        assert("system-ui"@ =~= seq!['s', 'y', 's', 't', 'e', 'm', '-', 'u', 'i']);
        reveal_strlit("ui-monospace");
        assert("ui-monospace"@ =~= seq!['u', 'i', '-', 'm', 'o', 'n', 'o', 's', 'p', 'a', 'c', 'e']);
        reveal_strlit("ui-sans-serif");
        assert("ui-sans-serif"@ =~= seq!['u', 'i', '-', 's', 'a', 'n', 's', '-', 's', 'e', 'r', 'i', 'f']);
        reveal_strlit("ui-serif");
        assert("ui-serif"@ =~= seq!['u', 'i', '-', 's', 'e', 'r', 'i', 'f']);
    }
    if same_text(&chars, "monospace") || same_text(&chars, "ui-monospace") {
        let mut names: Vec<&'a str> = Vec::new();
        names.push("Menlo");
        names.push("SF Mono");
        names.push("Consolas");
        names.push("Cascadia Mono");
        names.push("DejaVu Sans Mono");
        names.push("Liberation Mono");
        names.push("Courier New");
        names.push("monospace");
        proof {
            assert(names@.map_values(|name: &str| name@) =~= seq![seq!['M', 'e', 'n', 'l', 'o'], seq!['S', 'F', ' ', 'M', 'o', 'n', 'o'], seq!['C', 'o', 'n', 's', 'o', 'l', 'a', 's'], seq!['C', 'a', 's', 'c', 'a', 'd', 'i', 'a', ' ', 'M', 'o', 'n', 'o'], seq!['D', 'e', 'j', 'a', 'V', 'u', ' ', 'S', 'a', 'n', 's', ' ', 'M', 'o', 'n', 'o'], seq!['L', 'i', 'b', 'e', 'r', 'a', 't', 'i', 'o', 'n', ' ', 'M', 'o', 'n', 'o'], seq!['C', 'o', 'u', 'r', 'i', 'e', 'r', ' ', 'N', 'e', 'w'], seq!['m', 'o', 'n', 'o', 's', 'p', 'a', 'c', 'e']]);
        }
        names
    } else if same_text(&chars, "sans-serif") || same_text(&chars, "system-ui") || same_text(&chars, "ui-sans-serif") {
        let mut names: Vec<&'a str> = Vec::new();
        names.push("Helvetica Neue");
        names.push("Segoe UI");
        names.push("DejaVu Sans");
        names.push("Liberation Sans");
        names.push("Arial");
        names.push("sans-serif");
        proof {
            assert(names@.map_values(|name: &str| name@) =~= seq![seq!['H', 'e', 'l', 'v', 'e', 't', 'i', 'c', 'a', ' ', 'N', 'e', 'u', 'e'], seq!['S', 'e', 'g', 'o', 'e', ' ', 'U', 'I'], seq!['D', 'e', 'j', 'a', 'V', 'u', ' ', 'S', 'a', 'n', 's'], seq!['L', 'i', 'b', 'e', 'r', 'a', 't', 'i', 'o', 'n', ' ', 'S', 'a', 'n', 's'], seq!['A', 'r', 'i', 'a', 'l'], seq!['s', 'a', 'n', 's', '-', 's', 'e', 'r', 'i', 'f']]);
        }
        names
    } else if same_text(&chars, "serif") || same_text(&chars, "ui-serif") {
        let mut names: Vec<&'a str> = Vec::new();
        names.push("Georgia");
        names.push("Times New Roman");
        names.push("DejaVu Serif");
        names.push("Liberation Serif");
        names.push("serif");
        proof {
            assert(names@.map_values(|name: &str| name@) =~= seq![seq!['G', 'e', 'o', 'r', 'g', 'i', 'a'], seq!['T', 'i', 'm', 'e', 's', ' ', 'N', 'e', 'w', ' ', 'R', 'o', 'm', 'a', 'n'], seq!['D', 'e', 'j', 'a', 'V', 'u', ' ', 'S', 'e', 'r', 'i', 'f'], seq!['L', 'i', 'b', 'e', 'r', 'a', 't', 'i', 'o', 'n', ' ', 'S', 'e', 'r', 'i', 'f'], seq!['s', 'e', 'r', 'i', 'f']]);
        }
        names
    } else {
        let mut names: Vec<&'a str> = Vec::new();
        names.push(family);
        proof {
            assert(names@.map_values(|name: &str| name@) =~= seq![family@]);
        }
        names
    }
}

} // verus!
