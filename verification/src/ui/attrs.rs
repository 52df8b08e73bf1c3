//! What an element carries besides its widget: the words of its `class` and
//! `state` attributes, the name/value pairs its widget accepted, and which
//! attribute names the framework understands itself.

use vstd::prelude::*;

use crate::text::{chars_of, is_white_space, owned, same_text, string_of, white_space};

verus! {

/// The attributes every element understands; any other name goes to its
/// widget.
#[derive(Clone, Copy, Debug, PartialEq, Eq, Structural)]
pub enum Attribute {
    Id,
    Class,
    Style,
    Grow,
    Align,
    Disabled,
    Shortcut,
    State,
    /// A name the framework leaves to the widget.
    Widget,
}

/// The attribute a name stands for.
pub open spec fn attribute_named(name: Seq<char>) -> Attribute {
    if name == "id"@ {
        Attribute::Id
    } else if name == "class"@ {
        Attribute::Class
    } else if name == "style"@ {
        Attribute::Style
    } else if name == "grow"@ {
        Attribute::Grow
    } else if name == "align"@ {
        Attribute::Align
    } else if name == "disabled"@ {
        Attribute::Disabled
    } else if name == "shortcut"@ {
        Attribute::Shortcut
    } else if name == "state"@ {
        Attribute::State
    } else {
        Attribute::Widget
    }
}

/// Which attribute `name` is; names are case-sensitive.
pub fn attribute(name: &str) -> (a: Attribute)
    ensures
        a == attribute_named(name@),
{
    let v = chars_of(name);
    if same_text(&v, "id") {
        Attribute::Id
    } else if same_text(&v, "class") {
        Attribute::Class
    } else if same_text(&v, "style") {
        Attribute::Style
    } else if same_text(&v, "grow") {
        Attribute::Grow
    } else if same_text(&v, "align") {
        Attribute::Align
    } else if same_text(&v, "disabled") {
        Attribute::Disabled
    } else if same_text(&v, "shortcut") {
        Attribute::Shortcut
    } else if same_text(&v, "state") {
        Attribute::State
    } else {
        Attribute::Widget
    }
}

/// The texts of a list of strings.
pub open spec fn texts(v: Seq<String>) -> Seq<Seq<char>> {
    v.map_values(|w: String| w@)
}

/// Reads `s` from left to right and splits it at white space: the words
/// finished so far and the word still being read.
pub open spec fn scan_words(s: Seq<char>) -> (Seq<Seq<char>>, Seq<char>)
    decreases s.len(),
{
    if s.len() == 0 {
        (Seq::empty(), Seq::empty())
    } else {
        let (done, current) = scan_words(s.drop_last());
        if !is_white_space(s.last()) {
            (done, current.push(s.last()))
        } else if current.len() > 0 {
            (done.push(current), Seq::empty())
        } else {
            (done, Seq::empty())
        }
    }
}

/// The words of `s`, in order: the runs of characters between white space,
/// none of them empty.
pub open spec fn words_of(s: Seq<char>) -> Seq<Seq<char>> {
    let (done, current) = scan_words(s);
    if current.len() > 0 {
        done.push(current)
    } else {
        done
    }
}

/// The white-space separated words of `s`, as the `class` and `state`
/// attributes list them.
pub fn words(s: &str) -> (r: Vec<String>)
    ensures
        texts(r@) == words_of(s@),
{
    let v = chars_of(s);
    let mut done: Vec<String> = Vec::new();
    let mut current: Vec<char> = Vec::new();
    let mut i: usize = 0;
    while i < v.len()
        invariant
            v@ == s@,
            i <= v@.len(),
            (texts(done@), current@) == scan_words(v@.take(i as int)),
        decreases v@.len() - i,
    {
        let c = v[i];
        let ghost before = texts(done@);
        assert(v@.take(i + 1).drop_last() =~= v@.take(i as int));
        if !white_space(c) {
            current.push(c);
        } else if current.len() > 0 {
            let word = string_of(&current);
            done.push(word);
            assert(texts(done@) =~= before.push(word@));
            current = Vec::new();
        }
        i = i + 1;
    }
    assert(v@.take(v@.len() as int) =~= v@);
    if current.len() > 0 {
        let ghost before = texts(done@);
        let word = string_of(&current);
        done.push(word);
        assert(texts(done@) =~= before.push(word@));
    }
    done
}

/// Where `w` first occurs in `list`.
fn first_index(list: &Vec<String>, w: &String) -> (r: Option<usize>)
    ensures
        match r {
            Some(i) => i < list@.len() && texts(list@)[i as int] == w@ && forall|j: int|
                0 <= j < i ==> texts(list@)[j] != w@,
            None => !texts(list@).contains(w@),
        },
{
    let mut i: usize = 0;
    while i < list.len()
        invariant
            i <= list@.len(),
            forall|j: int| 0 <= j < i ==> texts(list@)[j] != w@,
        decreases list@.len() - i,
    {
        if list[i] == *w {
            return Some(i);
        }
        i = i + 1;
    }
    proof {
        if texts(list@).contains(w@) {
            let k = choose|k: int| 0 <= k < texts(list@).len() && texts(list@)[k] == w@;
            assert(texts(list@)[k] != w@);
        }
    }
    None
}

/// Whether `w` is one of the words in `list`: what `:state(w)` and a class
/// selector ask of an element.
pub fn contains_word(list: &Vec<String>, w: &str) -> (b: bool)
    ensures
        b == texts(list@).contains(w@),
{
    first_index(list, &owned(w)).is_some()
}

/// The texts of a list of name/value pairs.
pub open spec fn entry_texts(v: Seq<(String, String)>) -> Seq<(Seq<char>, Seq<char>)> {
    v.map_values(|e: (String, String)| (e.0@, e.1@))
}

/// The value of the first entry named `name`.
pub open spec fn entry_value(es: Seq<(Seq<char>, Seq<char>)>, name: Seq<char>) -> Option<
    Seq<char>,
>
    decreases es.len(),
{
    if es.len() == 0 {
        None
    } else if es[0].0 == name {
        Some(es[0].1)
    } else {
        entry_value(es.drop_first(), name)
    }
}

/// `es` with its first entry named `name` given `value`, or with
/// `(name, value)` appended when there is none.
pub open spec fn with_entry(es: Seq<(Seq<char>, Seq<char>)>, name: Seq<char>, value: Seq<char>) -> Seq<
    (Seq<char>, Seq<char>),
>
    decreases es.len(),
{
    if es.len() == 0 {
        seq![(name, value)]
    } else if es[0].0 == name {
        es.update(0, (name, value))
    } else {
        seq![es[0]] + with_entry(es.drop_first(), name, value)
    }
}

/// Where the first entry named `name` is in `entries`.
fn entry_index(entries: &Vec<(String, String)>, name: &String) -> (r: Option<usize>)
    ensures
        match r {
            Some(i) => i < entries@.len() && entry_texts(entries@)[i as int].0 == name@
                && forall|j: int| 0 <= j < i ==> entry_texts(entries@)[j].0 != name@,
            None => forall|j: int|
                0 <= j < entries@.len() ==> entry_texts(entries@)[j].0 != name@,
        },
{
    let mut i: usize = 0;
    while i < entries.len()
        invariant
            i <= entries@.len(),
            forall|j: int| 0 <= j < i ==> entry_texts(entries@)[j].0 != name@,
        decreases entries@.len() - i,
    {
        if entries[i].0 == *name {
            return Some(i);
        }
        i = i + 1;
    }
    None
}

/// The value found at the first entry named `name`.
proof fn lemma_value_at(es: Seq<(Seq<char>, Seq<char>)>, name: Seq<char>, i: int)
    requires
        0 <= i <= es.len(),
        forall|j: int| 0 <= j < i ==> es[j].0 != name,
    ensures
        i < es.len() && es[i].0 == name ==> entry_value(es, name) == Some(es[i].1),
        i == es.len() ==> entry_value(es, name) is None,
    decreases i,
{
    if i > 0 {
        lemma_value_at(es.drop_first(), name, i - 1);
    }
}

/// Giving the first entry named `name`, found at `i`, a new value, or
/// appending one when `i` is the end, is what `with_entry` says.
proof fn lemma_set_at(es: Seq<(Seq<char>, Seq<char>)>, name: Seq<char>, value: Seq<char>, i: int)
    requires
        0 <= i <= es.len(),
        forall|j: int| 0 <= j < i ==> es[j].0 != name,
        i < es.len() ==> es[i].0 == name,
    ensures
        i < es.len() ==> with_entry(es, name, value) == es.update(i, (name, value)),
        i == es.len() ==> with_entry(es, name, value) == es.push((name, value)),
    decreases i,
{
    if i > 0 {
        lemma_set_at(es.drop_first(), name, value, i - 1);
        if i < es.len() {
            assert(es.update(i, (name, value)) =~= seq![es[0]] + es.drop_first().update(
                i - 1,
                (name, value),
            ));
        } else {
            assert(es.push((name, value)) =~= seq![es[0]] + es.drop_first().push((name, value)));
        }
    } else if es.len() == 0 {
        assert(es.push((name, value)) =~= seq![(name, value)]);
    }
}

/// The value of the first entry named `name`, if there is one.
pub fn entry<'a>(entries: &'a Vec<(String, String)>, name: &str) -> (r: Option<&'a String>)
    ensures
        match r {
            Some(v) => entry_value(entry_texts(entries@), name@) == Some(v@),
            None => entry_value(entry_texts(entries@), name@) is None,
        },
{
    let key = owned(name);
    let found = entry_index(entries, &key);
    proof {
        let i = match found {
            Some(i) => i as int,
            None => entries@.len() as int,
        };
        lemma_value_at(entry_texts(entries@), name@, i);
    }
    match found {
        Some(i) => Some(&entries[i].1),
        None => None,
    }
}

/// Gives the first entry named `name` the value `value`, or appends the
/// pair when there is none.
pub fn set_entry(entries: &mut Vec<(String, String)>, name: &str, value: &str)
    ensures
        entry_texts(final(entries)@) == with_entry(entry_texts(old(entries)@), name@, value@),
{
    let key = owned(name);
    let ghost es = entry_texts(entries@);
    match entry_index(entries, &key) {
        Some(i) => {
            entries.set(i, (key, owned(value)));
            proof {
                lemma_set_at(es, name@, value@, i as int);
                assert(entry_texts(entries@) =~= es.update(i as int, (name@, value@)));
            }
        },
        None => {
            entries.push((key, owned(value)));
            proof {
                lemma_set_at(es, name@, value@, es.len() as int);
                assert(entry_texts(entries@) =~= es.push((name@, value@)));
            }
        },
    }
}

/// After an entry is set, reading it gives the value just set, and reading
/// any other name gives what it gave before.
pub proof fn lemma_entry_after_set(
    es: Seq<(Seq<char>, Seq<char>)>,
    name: Seq<char>,
    value: Seq<char>,
    other: Seq<char>,
)
    ensures
        entry_value(with_entry(es, name, value), name) == Some(value),
        other != name ==> entry_value(with_entry(es, name, value), other) == entry_value(es, other),
    decreases es.len(),
{
    if es.len() > 0 {
        lemma_entry_after_set(es.drop_first(), name, value, other);
        if es[0].0 == name {
            assert(es.update(0, (name, value)).drop_first() =~= es.drop_first());
        } else {
            assert((seq![es[0]] + with_entry(es.drop_first(), name, value)).drop_first()
                =~= with_entry(es.drop_first(), name, value));
        }
    } else {
        assert(seq![(name, value)].drop_first() =~= es);
    }
}

} // verus!
