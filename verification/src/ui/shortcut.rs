//! Keyboard shortcuts, written the way they are shown in menus.

use vstd::prelude::*;

use crate::text::{
    chars_of, decimal, decimal_chars, lower, lower_all, lower_char, lower_seq, owned, parse_u8,
    parse_u8_at, push_chars, push_char, push_str, same_text, split_on, trim, trimmed, upper,
    upper_char, is_digit, all_digits, digits_value, digit_char, is_white_space, trim_start,
    trim_end,
};
use crate::ui::event::{Key, Modifiers};

verus! {

/// The modifier flag a word names (`ctrl`, `shift`, `alt`, `cmd` and their
/// synonyms, already in lower case), or 0 for any other word.
pub open spec fn modifier_bits(word: Seq<char>) -> u8 {
    if word == "ctrl"@ || word == "control"@ {
        1
    } else if word == "shift"@ {
        2
    } else if word == "alt"@ || word == "option"@ {
        4
    } else if word == "cmd"@ || word == "meta"@ || word == "super"@ || word == "win"@ {
        8
    } else {
        0
    }
}

/// The key a lower-case key name stands for: a single character, a named
/// key, or `f1` to `f24`.
pub open spec fn key_named(name: Seq<char>) -> Option<Key> {
    if name.len() == 1 {
        Some(Key::Char(lower_char(name[0])))
    } else if name == "enter"@ || name == "return"@ {
        Some(Key::Enter)
    } else if name == "esc"@ || name == "escape"@ {
        Some(Key::Escape)
    } else if name == "tab"@ {
        Some(Key::Tab)
    } else if name == "backspace"@ {
        Some(Key::Backspace)
    } else if name == "delete"@ || name == "del"@ {
        Some(Key::Delete)
    } else if name == "space"@ {
        Some(Key::Space)
    } else if name == "left"@ || name == "arrowleft"@ {
        Some(Key::ArrowLeft)
    } else if name == "right"@ || name == "arrowright"@ {
        Some(Key::ArrowRight)
    } else if name == "up"@ || name == "arrowup"@ {
        Some(Key::ArrowUp)
    } else if name == "down"@ || name == "arrowdown"@ {
        Some(Key::ArrowDown)
    } else if name == "home"@ {
        Some(Key::Home)
    } else if name == "end"@ {
        Some(Key::End)
    } else if name == "pageup"@ {
        Some(Key::PageUp)
    } else if name == "pagedown"@ {
        Some(Key::PageDown)
    } else if name.len() > 0 && name[0] == 'f' {
        match parse_u8(name.drop_first()) {
            Some(n) => if 1 <= n && n <= 24 {
                Some(Key::F(n))
            } else {
                None
            },
            None => None,
        }
    } else {
        None
    }
}

/// Reads one `+`-separated part on top of what the parts before it gave:
/// modifier bits and the key, if one came yet. `None` once anything was
/// wrong.
pub open spec fn read_part(state: Option<(u8, Option<Key>)>, part: Seq<char>) -> Option<
    (u8, Option<Key>),
> {
    match state {
        None => None,
        Some((bits, key)) => {
            let word = lower_seq(trim(part));
            if word.len() == 0 {
                None
            } else if modifier_bits(word) != 0 {
                Some(((bits | modifier_bits(word)) as u8, key))
            } else {
                match key_named(word) {
                    None => None,
                    Some(named) => if key is Some {
                        None
                    } else {
                        Some((bits, Some(named)))
                    },
                }
            }
        },
    }
}

/// Reads the parts in order.
pub open spec fn read_parts(parts: Seq<Seq<char>>) -> Option<(u8, Option<Key>)>
    decreases parts.len(),
{
    if parts.len() == 0 {
        Some((0u8, None))
    } else {
        read_part(read_parts(parts.drop_last()), parts.last())
    }
}

/// The modifier bits and key that `text` describes, if it is a shortcut.
pub open spec fn shortcut_of(text: Seq<char>) -> Option<(u8, Key)> {
    match read_parts(split_on(text, '+')) {
        Some((bits, Some(key))) => Some((bits, key)),
        _ => None,
    }
}

/// How a key is shown.
pub open spec fn key_text(key: Key) -> Seq<char> {
    match key {
        Key::Char(c) => seq![upper_char(c)],
        Key::Enter => "Enter"@,
        Key::Escape => "Escape"@,
        Key::Tab => "Tab"@,
        Key::Backspace => "Backspace"@,
        Key::Delete => "Delete"@,
        Key::Space => "Space"@,
        Key::ArrowLeft => "Left"@,
        Key::ArrowRight => "Right"@,
        Key::ArrowUp => "Up"@,
        Key::ArrowDown => "Down"@,
        Key::Home => "Home"@,
        Key::End => "End"@,
        Key::PageUp => "PageUp"@,
        Key::PageDown => "PageDown"@,
        Key::F(n) => "F"@ + decimal(n as nat),
    }
}

/// `word` followed by a `+` if the flag is among `bits`, else nothing.
pub open spec fn flag_text(bits: u8, flag: u8, word: Seq<char>) -> Seq<char> {
    if bits & flag != 0 {
        word + "+"@
    } else {
        Seq::<char>::empty()
    }
}

/// How a shortcut is shown: `Ctrl`, `Alt`, `Shift` and `Cmd` in that order,
/// each followed by `+`, then the key.
pub open spec fn shortcut_text(bits: u8, key: Key) -> Seq<char> {
    flag_text(bits, 1, "Ctrl"@) + flag_text(bits, 4, "Alt"@) + flag_text(bits, 2, "Shift"@)
        + flag_text(bits, 8, "Cmd"@) + key_text(key)
}

/// A key with modifiers, such as `Ctrl+Shift+S`.
///
/// Parsed from and displayed as text so that shortcuts can live in
/// configuration and in the `shortcut` attribute of an element.
#[derive(Clone, Copy, Debug, PartialEq, Eq, Hash, Structural)]
pub struct Shortcut {
    pub modifiers: Modifiers,
    pub key: Key,
}

/// The text was not a shortcut.
#[derive(Clone, Debug, PartialEq, Eq)]
pub struct ShortcutParseError(String);

impl ShortcutParseError {
    /// The text that did not parse.
    pub closed spec fn spec_text(&self) -> Seq<char> {
        self.0@
    }

    /// The text that did not parse.
    pub fn text(&self) -> (t: &str)
        ensures
            t@ == self.spec_text(),
    {
        self.0.as_str()
    }

    /// `not a shortcut: '<text>'`.
    pub fn to_string(&self) -> (s: String)
        ensures
            s@ == "not a shortcut: '"@ + self.spec_text() + "'"@,
    {
        let mut s = owned("not a shortcut: '");
        push_str(&mut s, self.0.as_str());
        push_str(&mut s, "'");
        s
    }
}

/// The modifier flag `word` names, or 0.
fn word_modifier(word: &[char]) -> (bits: u8)
    ensures
        bits == modifier_bits(word@),
{
    if same_text(word, "ctrl") || same_text(word, "control") {
        1
    } else if same_text(word, "shift") {
        2
    } else if same_text(word, "alt") || same_text(word, "option") {
        4
    } else if same_text(word, "cmd") || same_text(word, "meta") || same_text(word, "super")
        || same_text(word, "win") {
        8
    } else {
        0
    }
}

/// The key a lower-case key name stands for.
fn parse_key(name: &[char]) -> (key: Option<Key>)
    ensures
        key == key_named(name@),
{
    if name.len() == 1 {
        return Some(Key::Char(lower(name[0])));
    }
    if same_text(name, "enter") || same_text(name, "return") {
        Some(Key::Enter)
    } else if same_text(name, "esc") || same_text(name, "escape") {
        Some(Key::Escape)
    } else if same_text(name, "tab") {
        Some(Key::Tab)
    } else if same_text(name, "backspace") {
        Some(Key::Backspace)
    } else if same_text(name, "delete") || same_text(name, "del") {
        Some(Key::Delete)
    } else if same_text(name, "space") {
        Some(Key::Space)
    } else if same_text(name, "left") || same_text(name, "arrowleft") {
        Some(Key::ArrowLeft)
    } else if same_text(name, "right") || same_text(name, "arrowright") {
        Some(Key::ArrowRight)
    } else if same_text(name, "up") || same_text(name, "arrowup") {
        Some(Key::ArrowUp)
    } else if same_text(name, "down") || same_text(name, "arrowdown") {
        Some(Key::ArrowDown)
    } else if same_text(name, "home") {
        Some(Key::Home)
    } else if same_text(name, "end") {
        Some(Key::End)
    } else if same_text(name, "pageup") {
        Some(Key::PageUp)
    } else if same_text(name, "pagedown") {
        Some(Key::PageDown)
    } else if name.len() > 0 && name[0] == 'f' {
        assert(name@.subrange(1, name@.len() as int) =~= name@.drop_first());
        match parse_u8_at(name, 1) {
            Some(n) => if 1 <= n && n <= 24 {
                Some(Key::F(n))
            } else {
                None
            },
            None => None,
        }
    } else {
        None
    }
}

/// One step of [`Shortcut::parse`]: reads `part` on top of `state`.
fn read_one(state: Option<(Modifiers, Option<Key>)>, part: &[char]) -> (next: Option<
    (Modifiers, Option<Key>),
>)
    requires
        state matches Some((m, _)) ==> m.wf(),
    ensures
        next matches Some((m, _)) ==> m.wf(),
        match (state, next) {
            (Some((m, k)), Some((m2, k2))) => read_part(Some((m.spec_bits(), k)), part@) == Some(
                (m2.spec_bits(), k2),
            ),
            (Some((m, k)), None) => read_part(Some((m.spec_bits(), k)), part@) is None,
            (None, next) => next is None,
        },
{
    let (modifiers, key) = match state {
        None => return None,
        Some(s) => s,
    };
    let word = lower_all(&trimmed(part));
    if word.len() == 0 {
        return None;
    }
    let flag = word_modifier(&word);
    if flag != 0 {
        let set = Modifiers::from_bits(flag);
        match set {
            Some(set) => {
                let m = modifiers.union(set);
                return Some((m, key));
            },
            None => return None,
        }
    }
    match parse_key(&word) {
        None => None,
        Some(named) => if key.is_some() {
            None
        } else {
            Some((modifiers, Some(named)))
        },
    }
}

impl Shortcut {
    pub fn new(modifiers: Modifiers, key: Key) -> (s: Shortcut)
        ensures
            s.modifiers == modifiers,
            s.key == key,
    {
        Shortcut { modifiers, key }
    }

    /// Parses `Ctrl+S`, `Cmd+Shift+Z`, `F5`, `Escape` and the like. Parts are
    /// separated by `+`, in any order, ignoring case. `Ctrl`, `Control`,
    /// `Shift`, `Alt`, `Option`, `Cmd`, `Meta`, `Super` and `Win` are the
    /// modifiers; a single character or a key name is the key.
    pub fn parse(text: &str) -> (r: Result<Shortcut, ShortcutParseError>)
        ensures
            match r {
                Ok(s) => shortcut_of(text@) == Some((s.modifiers.spec_bits(), s.key))
                    && s.modifiers.wf(),
                Err(e) => shortcut_of(text@) is None && e.spec_text() == text@,
            },
    {
        let chars = chars_of(text);
        let n = chars.len();
        let mut state: Option<(Modifiers, Option<Key>)> = Some((Modifiers::empty(), None));
        let mut part: Vec<char> = Vec::new();
        let mut i: usize = 0;
        proof {
            assert(chars@.take(0) =~= Seq::<char>::empty());
        }
        while i < n
            invariant
                n == chars@.len(),
                i <= n,
                state matches Some((m, _)) ==> m.wf(),
                split_on(chars@.take(i as int), '+').len() >= 1,
                part@ == split_on(chars@.take(i as int), '+').last(),
                match state {
                    Some((m, k)) => read_parts(split_on(chars@.take(i as int), '+').drop_last())
                        == Some((m.spec_bits(), k)),
                    None => read_parts(split_on(chars@.take(i as int), '+').drop_last()) is None,
                },
            decreases n - i,
        {
            let ghost before = split_on(chars@.take(i as int), '+');
            let c = chars[i];
            assert(chars@.take(i as int + 1).drop_last() =~= chars@.take(i as int));
            if c == '+' {
                state = read_one(state, &part);
                part = Vec::new();
                proof {
                    let after = split_on(chars@.take(i as int + 1), '+');
                    assert(after == before.push(Seq::<char>::empty()));
                    assert(after.drop_last() =~= before);
                    assert(before =~= before.drop_last().push(before.last()));
                }
            } else {
                part.push(c);
                proof {
                    let after = split_on(chars@.take(i as int + 1), '+');
                    assert(after.drop_last() =~= before.drop_last());
                }
            }
            i = i + 1;
        }
        let last = read_one(state, &part);
        proof {
            let all = split_on(chars@.take(n as int), '+');
            assert(chars@.take(n as int) =~= chars@);
            assert(all =~= all.drop_last().push(all.last()));
        }
        match last {
            Some((modifiers, Some(key))) => Ok(Shortcut { modifiers, key }),
            _ => Err(ShortcutParseError(owned(text))),
        }
    }

    /// Whether a key press with these modifiers triggers the shortcut.
    pub fn matches(&self, key: Key, modifiers: Modifiers) -> (b: bool)
        ensures
            b == (self.key == key && self.modifiers == modifiers),
    {
        proof {
            Modifiers::lemma_bits_determine(self.modifiers, modifiers);
        }
        self.key == key && self.modifiers.bits() == modifiers.bits()
    }

    /// The shortcut as it is shown in menus, such as `Ctrl+Shift+S`:
    /// modifiers in the order `Ctrl`, `Alt`, `Shift`, `Cmd`, then the key,
    /// letters in upper case.
    pub fn to_string(&self) -> (s: String)
        ensures
            s@ == shortcut_text(self.modifiers.spec_bits(), self.key),
    {
        let bits = self.modifiers.bits();
        let mut s = String::new();
        if bits & 1 != 0 {
            push_str(&mut s, "Ctrl+");
        }
        if bits & 4 != 0 {
            push_str(&mut s, "Alt+");
        }
        if bits & 2 != 0 {
            push_str(&mut s, "Shift+");
        }
        if bits & 8 != 0 {
            push_str(&mut s, "Cmd+");
        }
        proof {
            reveal_strlit("+");
            reveal_strlit("Ctrl");
            reveal_strlit("Ctrl+");
            reveal_strlit("Alt");
            reveal_strlit("Alt+");
            reveal_strlit("Shift");
            reveal_strlit("Shift+");
            reveal_strlit("Cmd");
            reveal_strlit("Cmd+");
            assert("Ctrl"@ + "+"@ =~= "Ctrl+"@);
            assert("Alt"@ + "+"@ =~= "Alt+"@);
            assert("Shift"@ + "+"@ =~= "Shift+"@);
            assert("Cmd"@ + "+"@ =~= "Cmd+"@);
            assert(s@ =~= flag_text(bits, 1, "Ctrl"@) + flag_text(bits, 4, "Alt"@) + flag_text(
                bits,
                2,
                "Shift"@,
            ) + flag_text(bits, 8, "Cmd"@));
        }
        match self.key {
            Key::Char(c) => push_char(&mut s, upper(c)),
            Key::Enter => push_str(&mut s, "Enter"),
            Key::Escape => push_str(&mut s, "Escape"),
            Key::Tab => push_str(&mut s, "Tab"),
            Key::Backspace => push_str(&mut s, "Backspace"),
            Key::Delete => push_str(&mut s, "Delete"),
            Key::Space => push_str(&mut s, "Space"),
            Key::ArrowLeft => push_str(&mut s, "Left"),
            Key::ArrowRight => push_str(&mut s, "Right"),
            Key::ArrowUp => push_str(&mut s, "Up"),
            Key::ArrowDown => push_str(&mut s, "Down"),
            Key::Home => push_str(&mut s, "Home"),
            Key::End => push_str(&mut s, "End"),
            Key::PageUp => push_str(&mut s, "PageUp"),
            Key::PageDown => push_str(&mut s, "PageDown"),
            Key::F(n) => {
                push_str(&mut s, "F");
                push_chars(&mut s, &decimal_chars(n as u32));
            },
        }
        proof {
            assert(s@ =~= shortcut_text(bits, self.key));
        }
        s
    }
}


} // verus!

verus! {

/// A key that reads back as itself from how it is shown: a character that
/// is not an ASCII capital, white space or `+`, or a function key from 1 to
/// 24, or any named key.
pub open spec fn shows_faithfully(key: Key) -> bool {
    match key {
        Key::Char(c) => c != '+' && !is_white_space(c) && !('A' <= c && c <= 'Z'),
        Key::F(n) => 1 <= n && n <= 24,
        _ => true,
    }
}

proof fn lemma_split_tail(a: Seq<char>, b: Seq<char>, sep: char)
    requires
        !b.contains(sep),
    ensures
        split_on(a + b, sep) == split_on(a, sep).drop_last().push(split_on(a, sep).last() + b),
        split_on(a, sep).len() >= 1,
    decreases b.len(),
{
    lemma_split_nonempty(a, sep);
    if b.len() == 0 {
        assert(a + b =~= a);
        let s = split_on(a, sep);
        assert(s =~= s.drop_last().push(s.last() + b));
    } else {
        let b0 = b.drop_last();
        assert(!b0.contains(sep)) by {
            if b0.contains(sep) {
                let i = choose|i: int| 0 <= i < b0.len() && b0[i] == sep;
                assert(b[i] == sep);
            }
        }
        lemma_split_tail(a, b0, sep);
        assert((a + b).drop_last() =~= a + b0);
        assert(b.last() != sep) by {
            assert(b[b.len() - 1] == b.last());
        }
        let s = split_on(a, sep);
        let before = split_on(a + b0, sep);
        assert((a + b).last() == b.last());
        assert(split_on(a + b, sep) == before.update(before.len() - 1, before.last().push(b.last())));
        assert((s.last() + b0).push(b.last()) =~= s.last() + b);
        assert(split_on(a + b, sep) =~= s.drop_last().push(s.last() + b));
    }
}

proof fn lemma_split_nonempty(a: Seq<char>, sep: char)
    ensures
        split_on(a, sep).len() >= 1,
    decreases a.len(),
{
    if a.len() > 0 {
        lemma_split_nonempty(a.drop_last(), sep);
    }
}

proof fn lemma_decimal(n: nat)
    ensures
        decimal(n).len() >= 1,
        digits_value(decimal(n)) == n,
        all_digits(decimal(n)),
    decreases n,
{
    if n >= 10 {
        lemma_decimal(n / 10);
        let d = decimal(n);
        assert(d.drop_last() =~= decimal(n / 10));
        assert((n / 10) * 10 + n % 10 == n) by (nonlinear_arith);
        assert(digit_char(n % 10) as nat == 48 + n % 10);
        assert(d.last() == digit_char(n % 10));
        assert(digits_value(d) == digits_value(decimal(n / 10)) * 10 + n % 10);
        assert forall|i: int| 0 <= i < d.len() implies is_digit(#[trigger] d[i]) by {
            if i < d.len() - 1 {
                assert(d[i] == decimal(n / 10)[i]);
            }
        }
    } else {
        assert(decimal(n)[0] == digit_char(n));
        assert(digit_char(n) as nat == 48 + n);
        assert(decimal(n).drop_last() =~= Seq::<char>::empty());
        assert(digits_value(Seq::<char>::empty()) == 0);
        assert(digits_value(decimal(n)) == 0 * 10 + n);
    }
}

proof fn reveal_modifier_words()
    ensures
        "ctrl"@ == seq!['c', 't', 'r', 'l'],
        "control"@ == seq!['c', 'o', 'n', 't', 'r', 'o', 'l'],
        "shift"@ == seq!['s', 'h', 'i', 'f', 't'],
        "alt"@ == seq!['a', 'l', 't'],
        "option"@ == seq!['o', 'p', 't', 'i', 'o', 'n'],
        "cmd"@ == seq!['c', 'm', 'd'],
        "meta"@ == seq!['m', 'e', 't', 'a'],
        "super"@ == seq!['s', 'u', 'p', 'e', 'r'],
        "win"@ == seq!['w', 'i', 'n'],
{
    reveal_strlit("ctrl");
    reveal_strlit("control");
    reveal_strlit("shift");
    reveal_strlit("alt");
    reveal_strlit("option");
    reveal_strlit("cmd");
    reveal_strlit("meta");
    reveal_strlit("super");
    reveal_strlit("win");
    assert("ctrl"@ =~= seq!['c', 't', 'r', 'l']);
    assert("control"@ =~= seq!['c', 'o', 'n', 't', 'r', 'o', 'l']);
    assert("shift"@ =~= seq!['s', 'h', 'i', 'f', 't']);
    assert("alt"@ =~= seq!['a', 'l', 't']);
    assert("option"@ =~= seq!['o', 'p', 't', 'i', 'o', 'n']);
    assert("cmd"@ =~= seq!['c', 'm', 'd']);
    assert("meta"@ =~= seq!['m', 'e', 't', 'a']);
    assert("super"@ =~= seq!['s', 'u', 'p', 'e', 'r']);
    assert("win"@ =~= seq!['w', 'i', 'n']);
}

/// A one-word part that is already trimmed and names no modifier reads as
/// the key it names.
proof fn lemma_read_word(bits: u8, shown: Seq<char>, key: Key)
    requires
        shown.len() >= 1,
        !is_white_space(shown[0]),
        !is_white_space(shown.last()),
        modifier_bits(lower_seq(shown)) == 0,
        key_named(lower_seq(shown)) == Some(key),
    ensures
        read_part(Some((bits, None)), shown) == Some((bits, Some(key))),
{
    assert(trim_start(shown) == shown);
    assert(trim_end(shown) == shown);
}

/// The part that follows the last `+` of a shown shortcut reads back as the
/// key, and holds no `+`.
proof fn lemma_key_part(bits: u8, key: Key)
    requires
        shows_faithfully(key),
    ensures
        !key_text(key).contains('+'),
        read_part(Some((bits, None)), key_text(key)) == Some((bits, Some(key))),
{
    reveal_modifier_words();
    match key {
        Key::Char(c) => {
            let shown = key_text(key);
            assert(shown.len() == 1);
            assert(lower_seq(shown) =~= seq![c]);
            assert(!shown.contains('+')) by {
                if shown.contains('+') {
                    assert(shown[0] == '+');
                }
            }
            lemma_read_word(bits, shown, key);
        },
        Key::F(n) => {
            lemma_function_key_part(bits, n);
        },
        _ => {
            lemma_named_key_part(bits, key);
        },
    }
}

proof fn reveal_key_names()
    ensures
        "enter"@ == seq!['e', 'n', 't', 'e', 'r'],
        "return"@ == seq!['r', 'e', 't', 'u', 'r', 'n'],
        "esc"@ == seq!['e', 's', 'c'],
        "escape"@ == seq!['e', 's', 'c', 'a', 'p', 'e'],
        "tab"@ == seq!['t', 'a', 'b'],
        "backspace"@ == seq!['b', 'a', 'c', 'k', 's', 'p', 'a', 'c', 'e'],
        "delete"@ == seq!['d', 'e', 'l', 'e', 't', 'e'],
        "del"@ == seq!['d', 'e', 'l'],
        "space"@ == seq!['s', 'p', 'a', 'c', 'e'],
        "left"@ == seq!['l', 'e', 'f', 't'],
        "arrowleft"@ == seq!['a', 'r', 'r', 'o', 'w', 'l', 'e', 'f', 't'],
        "right"@ == seq!['r', 'i', 'g', 'h', 't'],
        "arrowright"@ == seq!['a', 'r', 'r', 'o', 'w', 'r', 'i', 'g', 'h', 't'],
        "up"@ == seq!['u', 'p'],
        "arrowup"@ == seq!['a', 'r', 'r', 'o', 'w', 'u', 'p'],
        "down"@ == seq!['d', 'o', 'w', 'n'],
        "arrowdown"@ == seq!['a', 'r', 'r', 'o', 'w', 'd', 'o', 'w', 'n'],
        "home"@ == seq!['h', 'o', 'm', 'e'],
        "end"@ == seq!['e', 'n', 'd'],
        "pageup"@ == seq!['p', 'a', 'g', 'e', 'u', 'p'],
        "pagedown"@ == seq!['p', 'a', 'g', 'e', 'd', 'o', 'w', 'n'],
{
    reveal_strlit("enter");
    reveal_strlit("return");
    reveal_strlit("esc");
    reveal_strlit("escape");
    reveal_strlit("tab");
    reveal_strlit("backspace");
    reveal_strlit("delete");
    reveal_strlit("del");
    reveal_strlit("space");
    reveal_strlit("left");
    reveal_strlit("arrowleft");
    reveal_strlit("right");
    reveal_strlit("arrowright");
    reveal_strlit("up");
    reveal_strlit("arrowup");
    reveal_strlit("down");
    reveal_strlit("arrowdown");
    reveal_strlit("home");
    reveal_strlit("end");
    reveal_strlit("pageup");
    reveal_strlit("pagedown");
    assert("enter"@ =~= seq!['e', 'n', 't', 'e', 'r']);
    assert("return"@ =~= seq!['r', 'e', 't', 'u', 'r', 'n']);
    assert("esc"@ =~= seq!['e', 's', 'c']);
    assert("escape"@ =~= seq!['e', 's', 'c', 'a', 'p', 'e']);
    assert("tab"@ =~= seq!['t', 'a', 'b']);
    assert("backspace"@ =~= seq!['b', 'a', 'c', 'k', 's', 'p', 'a', 'c', 'e']);
    assert("delete"@ =~= seq!['d', 'e', 'l', 'e', 't', 'e']);
    assert("del"@ =~= seq!['d', 'e', 'l']);
    assert("space"@ =~= seq!['s', 'p', 'a', 'c', 'e']);
    assert("left"@ =~= seq!['l', 'e', 'f', 't']);
    assert("arrowleft"@ =~= seq!['a', 'r', 'r', 'o', 'w', 'l', 'e', 'f', 't']);
    assert("right"@ =~= seq!['r', 'i', 'g', 'h', 't']);
    assert("arrowright"@ =~= seq!['a', 'r', 'r', 'o', 'w', 'r', 'i', 'g', 'h', 't']);
    assert("up"@ =~= seq!['u', 'p']);
    assert("arrowup"@ =~= seq!['a', 'r', 'r', 'o', 'w', 'u', 'p']);
    assert("down"@ =~= seq!['d', 'o', 'w', 'n']);
    assert("arrowdown"@ =~= seq!['a', 'r', 'r', 'o', 'w', 'd', 'o', 'w', 'n']);
    assert("home"@ =~= seq!['h', 'o', 'm', 'e']);
    assert("end"@ =~= seq!['e', 'n', 'd']);
    assert("pageup"@ =~= seq!['p', 'a', 'g', 'e', 'u', 'p']);
    assert("pagedown"@ =~= seq!['p', 'a', 'g', 'e', 'd', 'o', 'w', 'n']);
}

/// A function key's shown text reads back as the key.
#[verifier::spinoff_prover]
#[verifier::rlimit(40)]
proof fn lemma_function_key_part(bits: u8, n: u8)
    requires
        1 <= n <= 24,
    ensures
        !key_text(Key::F(n)).contains('+'),
        read_part(Some((bits, None)), key_text(Key::F(n))) == Some((bits, Some(Key::F(n)))),
{
    reveal_modifier_words();
    reveal_key_names();
    reveal_strlit("F");
    reveal_strlit("f");
    let digits = decimal(n as nat);
    lemma_decimal(n as nat);
    let shown = key_text(Key::F(n));
    assert(shown =~= seq!['F'] + digits);
    let word = lower_seq(shown);
    assert(word =~= seq!['f'] + digits) by {
        assert forall|i: int| 0 <= i < word.len() implies word[i] == (seq!['f'] + digits)[i] by {
            if i > 0 {
                assert(is_digit(digits[i - 1]));
            }
        }
    }
    assert(word.drop_first() =~= digits);
    assert(digits[0] != '+') by {
        assert(is_digit(digits[0]));
    }
    assert(parse_u8(digits) == Some(n));
    assert(!shown.contains('+')) by {
        if shown.contains('+') {
            let i = choose|i: int| 0 <= i < shown.len() && shown[i] == '+';
            assert(i > 0);
            assert(is_digit(digits[i - 1]));
        }
    }
    assert(is_digit(shown.last())) by {
        assert(shown.last() == digits[digits.len() - 1]);
    }
    assert(word[0] == 'f');
    assert(word.len() >= 2);
    lemma_read_word(bits, shown, Key::F(n));
}

/// A named key's shown text reads back as the key.
proof fn lemma_named_key_part(bits: u8, key: Key)
    requires
        !(key is Char),
        !(key is F),
    ensures
        !key_text(key).contains('+'),
        read_part(Some((bits, None)), key_text(key)) == Some((bits, Some(key))),
{
    reveal_modifier_words();
    reveal_key_names();
    match key {
        Key::Enter => {
            reveal_strlit("Enter");
            reveal_strlit("enter");
            assert(lower_seq("Enter"@) =~= "enter"@);
        },
        Key::Escape => {
            reveal_strlit("Escape");
            reveal_strlit("escape");
            assert(lower_seq("Escape"@) =~= "escape"@);
        },
        Key::Tab => {
            reveal_strlit("Tab");
            reveal_strlit("tab");
            assert(lower_seq("Tab"@) =~= "tab"@);
        },
        Key::Backspace => {
            reveal_strlit("Backspace");
            reveal_strlit("backspace");
            assert(lower_seq("Backspace"@) =~= "backspace"@);
        },
        Key::Delete => {
            reveal_strlit("Delete");
            reveal_strlit("delete");
            assert(lower_seq("Delete"@) =~= "delete"@);
        },
        Key::Space => {
            reveal_strlit("Space");
            reveal_strlit("space");
            assert(lower_seq("Space"@) =~= "space"@);
        },
        Key::ArrowLeft => {
            reveal_strlit("Left");
            reveal_strlit("left");
            assert(lower_seq("Left"@) =~= "left"@);
        },
        Key::ArrowRight => {
            reveal_strlit("Right");
            reveal_strlit("right");
            assert(lower_seq("Right"@) =~= "right"@);
        },
        Key::ArrowUp => {
            reveal_strlit("Up");
            reveal_strlit("up");
            assert(lower_seq("Up"@) =~= "up"@);
        },
        Key::ArrowDown => {
            reveal_strlit("Down");
            reveal_strlit("down");
            assert(lower_seq("Down"@) =~= "down"@);
        },
        Key::Home => {
            reveal_strlit("Home");
            reveal_strlit("home");
            assert(lower_seq("Home"@) =~= "home"@);
        },
        Key::End => {
            reveal_strlit("End");
            reveal_strlit("end");
            assert(lower_seq("End"@) =~= "end"@);
        },
        Key::PageUp => {
            reveal_strlit("PageUp");
            reveal_strlit("pageup");
            assert(lower_seq("PageUp"@) =~= "pageup"@);
        },
        Key::PageDown => {
            reveal_strlit("PageDown");
            reveal_strlit("pagedown");
            assert(lower_seq("PageDown"@) =~= "pagedown"@);
        },
        _ => {},
    }
    let shown = key_text(key);
    assert(!shown.contains('+'));
    lemma_read_word(bits, shown, key);
}

/// What the parts of a shown prefix `Ctrl+Alt+...+` have read so far:
/// the flags in `bits`, no key, and an empty part still open.
spec fn prefix_reads(prefix: Seq<char>, bits: u8) -> bool {
    &&& split_on(prefix, '+').len() >= 1
    &&& split_on(prefix, '+').last() == Seq::<char>::empty()
    &&& read_parts(split_on(prefix, '+').drop_last()) == Some((bits, None::<Key>))
}

proof fn lemma_word_step(prefix: Seq<char>, bits: u8, word: Seq<char>, flag: u8)
    requires
        prefix_reads(prefix, bits),
        word.len() >= 1,
        !is_white_space(word[0]),
        !is_white_space(word.last()),
        !word.contains('+'),
        modifier_bits(lower_seq(word)) == flag,
        flag != 0,
    ensures
        prefix_reads(prefix + word + "+"@, (bits | flag) as u8),
{
    reveal_strlit("+");
    lemma_split_tail(prefix, word, '+');
    let s = split_on(prefix, '+');
    assert(s.last() + word =~= word);
    let with_word = prefix + word;
    assert(prefix + word + "+"@ =~= with_word.push('+'));
    assert(with_word.push('+').drop_last() =~= with_word);
    let after = split_on(with_word.push('+'), '+');
    assert(after == split_on(with_word, '+').push(Seq::<char>::empty()));
    assert(after.drop_last() =~= s.drop_last().push(word));
    assert(s.drop_last().push(word).drop_last() =~= s.drop_last());
    assert(trim_start(word) == word);
    assert(trim_end(word) == word);
}

proof fn lemma_flag_step(prefix: Seq<char>, acc: u8, bits: u8, flag: u8, word: Seq<char>)
    requires
        prefix_reads(prefix, acc),
        word.len() >= 1,
        !is_white_space(word[0]),
        !is_white_space(word.last()),
        !word.contains('+'),
        modifier_bits(lower_seq(word)) == flag,
        flag != 0,
    ensures
        prefix_reads(
            prefix + flag_text(bits, flag, word),
            if bits & flag != 0 {
                (acc | flag) as u8
            } else {
                acc
            },
        ),
{
    if bits & flag != 0 {
        lemma_word_step(prefix, acc, word, flag);
        assert(prefix + flag_text(bits, flag, word) =~= prefix + word + "+"@);
    } else {
        assert(prefix + flag_text(bits, flag, word) =~= prefix);
    }
}

proof fn lemma_shown_words()
    ensures
        "Ctrl"@ == seq!['C', 't', 'r', 'l'],
        "Alt"@ == seq!['A', 'l', 't'],
        "Shift"@ == seq!['S', 'h', 'i', 'f', 't'],
        "Cmd"@ == seq!['C', 'm', 'd'],
{
    reveal_strlit("Ctrl");
    reveal_strlit("Alt");
    reveal_strlit("Shift");
    reveal_strlit("Cmd");
    assert("Ctrl"@ =~= seq!['C', 't', 'r', 'l']);
    assert("Alt"@ =~= seq!['A', 'l', 't']);
    assert("Shift"@ =~= seq!['S', 'h', 'i', 'f', 't']);
    assert("Cmd"@ =~= seq!['C', 'm', 'd']);
}

/// Law: a shortcut reads back as itself from how it is shown, whenever its
/// key does ([`shows_faithfully`]).
pub proof fn lemma_parse_shown(modifiers: Modifiers, key: Key)
    requires
        modifiers.wf(),
        shows_faithfully(key),
    ensures
        shortcut_of(shortcut_text(modifiers.spec_bits(), key)) == Some(
            (modifiers.spec_bits(), key),
        ),
{
    let bits = modifiers.spec_bits();
    reveal_modifier_words();
    lemma_shown_words();
    assert(lower_seq("Ctrl"@) =~= "ctrl"@);
    assert(lower_seq("Alt"@) =~= "alt"@);
    assert(lower_seq("Shift"@) =~= "shift"@);
    assert(lower_seq("Cmd"@) =~= "cmd"@);
    assert(!"Ctrl"@.contains('+'));
    assert(!"Alt"@.contains('+'));
    assert(!"Shift"@.contains('+'));
    assert(!"Cmd"@.contains('+'));
    let p0 = Seq::<char>::empty();
    assert(split_on(p0, '+') == seq![Seq::<char>::empty()]);
    assert(split_on(p0, '+').drop_last() =~= Seq::<Seq<char>>::empty());
    assert(prefix_reads(p0, 0u8));
    let a1: u8 = if bits & 1 != 0 { (0u8 | 1u8) as u8 } else { 0u8 };
    lemma_flag_step(p0, 0u8, bits, 1u8, "Ctrl"@);
    let p1 = p0 + flag_text(bits, 1, "Ctrl"@);
    let a2: u8 = if bits & 4 != 0 { (a1 | 4u8) as u8 } else { a1 };
    lemma_flag_step(p1, a1, bits, 4u8, "Alt"@);
    let p2 = p1 + flag_text(bits, 4, "Alt"@);
    let a3: u8 = if bits & 2 != 0 { (a2 | 2u8) as u8 } else { a2 };
    lemma_flag_step(p2, a2, bits, 2u8, "Shift"@);
    let p3 = p2 + flag_text(bits, 2, "Shift"@);
    let a4: u8 = if bits & 8 != 0 { (a3 | 8u8) as u8 } else { a3 };
    lemma_flag_step(p3, a3, bits, 8u8, "Cmd"@);
    let p4 = p3 + flag_text(bits, 8, "Cmd"@);
    assert(a4 == bits) by (bit_vector)
        requires
            bits < 16,
            a1 == (if bits & 1 != 0 { (0u8 | 1u8) as u8 } else { 0u8 }),
            a2 == (if bits & 4 != 0 { (a1 | 4u8) as u8 } else { a1 }),
            a3 == (if bits & 2 != 0 { (a2 | 2u8) as u8 } else { a2 }),
            a4 == (if bits & 8 != 0 { (a3 | 8u8) as u8 } else { a3 }),
    ;
    lemma_key_part(bits, key);
    let shown = key_text(key);
    lemma_split_tail(p4, shown, '+');
    assert(shortcut_text(bits, key) =~= p4 + shown);
    let parts = split_on(p4 + shown, '+');
    let s4 = split_on(p4, '+');
    assert(s4.last() + shown =~= shown);
    assert(parts.drop_last() =~= s4.drop_last());
}


/// A shortcut read with one more modifier flag set, or still nothing.
pub open spec fn with_flag(read: Option<(u8, Key)>, flag: u8) -> Option<(u8, Key)> {
    match read {
        Some((bits, key)) => Some(((bits | flag) as u8, key)),
        None => None,
    }
}

/// Trimming keeps every character that is not white space.
proof fn lemma_trim_keeps(s: Seq<char>, c: char)
    requires
        s.contains(c),
        !is_white_space(c),
    ensures
        trim(s).contains(c),
{
    lemma_trim_start_keeps(s, c);
    lemma_trim_end_keeps(trim_start(s), c);
}

proof fn lemma_trim_start_keeps(s: Seq<char>, c: char)
    requires
        s.contains(c),
        !is_white_space(c),
    ensures
        trim_start(s).contains(c),
    decreases s.len(),
{
    if s.len() > 0 && is_white_space(s[0]) {
        let k = choose|k: int| 0 <= k < s.len() && s[k] == c;
        assert(k != 0);
        assert(s.drop_first()[k - 1] == c);
        lemma_trim_start_keeps(s.drop_first(), c);
    }
}

proof fn lemma_trim_end_keeps(s: Seq<char>, c: char)
    requires
        s.contains(c),
        !is_white_space(c),
    ensures
        trim_end(s).contains(c),
    decreases s.len(),
{
    if s.len() > 0 && is_white_space(s.last()) {
        let k = choose|k: int| 0 <= k < s.len() && s[k] == c;
        assert(k != s.len() - 1);
        assert(s.drop_last()[k] == c);
        lemma_trim_end_keeps(s.drop_last(), c);
    }
}

/// A word that reads as a letter word holds no `+`.
proof fn lemma_no_plus(word: Seq<char>, read: Seq<char>)
    requires
        lower_seq(trim(word)) == read,
        !read.contains('+'),
    ensures
        !word.contains('+'),
{
    if word.contains('+') {
        lemma_trim_keeps(word, '+');
        let t = trim(word);
        let k = choose|k: int| 0 <= k < t.len() && t[k] == '+';
        assert(lower_seq(t)[k] == lower_char(t[k]));
        assert(read[k] == '+');
    }
}

/// Text with a word and a `+` in front splits into that word, then what
/// the rest splits into.
proof fn lemma_split_front(word: Seq<char>, rest: Seq<char>)
    requires
        !word.contains('+'),
    ensures
        split_on(word + seq!['+'] + rest, '+') == seq![word] + split_on(rest, '+'),
    decreases rest.len(),
{
    lemma_split_tail(Seq::<char>::empty(), word, '+');
    assert(Seq::<char>::empty() + word =~= word);
    assert(split_on(Seq::<char>::empty(), '+') == seq![Seq::<char>::empty()]);
    assert(split_on(word, '+') =~= seq![word]);
    if rest.len() == 0 {
        let t = word + seq!['+'] + rest;
        assert(t.drop_last() =~= word);
        assert(t.last() == '+');
        assert(split_on(t, '+') =~= seq![word] + split_on(rest, '+'));
    } else {
        let r0 = rest.drop_last();
        lemma_split_front(word, r0);
        let t = word + seq!['+'] + rest;
        assert(t.drop_last() =~= word + seq!['+'] + r0);
        assert(t.last() == rest.last());
        lemma_split_nonempty(r0, '+');
        let before = split_on(r0, '+');
        if rest.last() == '+' {
            assert(split_on(t, '+') =~= seq![word] + before.push(Seq::<char>::empty()));
        } else {
            assert((seq![word] + before).update(before.len() as int, (seq![word]
                + before).last().push(rest.last())) =~= seq![word] + before.update(
                before.len() - 1,
                before.last().push(rest.last()),
            ));
        }
    }
}

/// Reading a part on top of a state with one more flag set gives the same
/// as reading it and then setting the flag.
proof fn lemma_read_part_flag(state: Option<(u8, Option<Key>)>, part: Seq<char>, flag: u8)
    ensures
        read_part(
            match state {
                Some((bits, key)) => Some(((bits | flag) as u8, key)),
                None => None,
            },
            part,
        ) == match read_part(state, part) {
            Some((bits, key)) => Some(((bits | flag) as u8, key)),
            None => None,
        },
{
    match state {
        Some((bits, key)) => {
            let m = modifier_bits(lower_seq(trim(part)));
            assert(((bits | flag) as u8 | m) as u8 == ((bits | m) as u8 | flag) as u8) by (bit_vector);
        },
        None => {},
    }
}

/// A modifier part in front of the others sets its flag on whatever they
/// read as.
proof fn lemma_read_parts_front(word: Seq<char>, parts: Seq<Seq<char>>)
    requires
        modifier_bits(lower_seq(trim(word))) != 0,
    ensures
        read_parts(seq![word] + parts) == match read_parts(parts) {
            Some((bits, key)) => Some(((bits | modifier_bits(lower_seq(trim(word)))) as u8, key)),
            None => None,
        },
    decreases parts.len(),
{
    let m = modifier_bits(lower_seq(trim(word)));
    reveal_modifier_words();
    assert(lower_seq(trim(word)).len() > 0);
    if parts.len() == 0 {
        assert(seq![word] + parts =~= seq![word]);
        assert(read_parts(Seq::<Seq<char>>::empty()) == Some((0u8, None::<Key>)));
        assert(seq![word].last() == word);
        assert(seq![word].drop_last() =~= Seq::<Seq<char>>::empty());
        assert((0u8 | m) as u8 == m) by (bit_vector);
    } else {
        lemma_read_parts_front(word, parts.drop_last());
        assert((seq![word] + parts).drop_last() =~= seq![word] + parts.drop_last());
        assert((seq![word] + parts).last() == parts.last());
        lemma_read_part_flag(read_parts(parts.drop_last()), parts.last(), m);
    }
}

/// Law: a modifier word and a `+` in front of a shortcut set that
/// modifier's flag and change nothing else. `Ctrl` and `Control` set the
/// Ctrl flag (1), `Shift` the Shift flag (2), `Alt` and `Option` the Alt flag
/// (4) and `Cmd`, `Meta`, `Super` and `Win` the Meta flag (8), in any ASCII
/// case and with white space around them; these are the bits of
/// `Modifiers::ctrl()`, `shift()`, `alt()` and `meta()`. So `Option+S` reads
/// as `Alt+S`.
pub proof fn lemma_modifier_word(word: Seq<char>, rest: Seq<char>)
    ensures
        (lower_seq(trim(word)) == "ctrl"@ || lower_seq(trim(word)) == "control"@) ==> shortcut_of(
            word + seq!['+'] + rest,
        ) == with_flag(shortcut_of(rest), 1),
        lower_seq(trim(word)) == "shift"@ ==> shortcut_of(word + seq!['+'] + rest) == with_flag(
            shortcut_of(rest),
            2,
        ),
        (lower_seq(trim(word)) == "alt"@ || lower_seq(trim(word)) == "option"@) ==> shortcut_of(
            word + seq!['+'] + rest,
        ) == with_flag(shortcut_of(rest), 4),
        (lower_seq(trim(word)) == "cmd"@ || lower_seq(trim(word)) == "meta"@ || lower_seq(
            trim(word),
        ) == "super"@ || lower_seq(trim(word)) == "win"@) ==> shortcut_of(word + seq!['+'] + rest)
            == with_flag(shortcut_of(rest), 8),
{
    reveal_modifier_words();
    let read = lower_seq(trim(word));
    if read == "ctrl"@ || read == "control"@ || read == "shift"@ || read == "alt"@ || read
        == "option"@ || read == "cmd"@ || read == "meta"@ || read == "super"@ || read == "win"@ {
        assert(!read.contains('+'));
        lemma_no_plus(word, read);
        lemma_split_front(word, rest);
        lemma_read_parts_front(word, split_on(rest, '+'));
    }
}

/// Where the first shortcut that a key press triggers stands in a list, if
/// any does: the one that wins when several are bound.
pub open spec fn first_triggered(shortcuts: Seq<Shortcut>, key: Key, modifiers: Modifiers) -> Option<int>
    decreases shortcuts.len(),
{
    if shortcuts.len() == 0 {
        None
    } else if shortcuts[0].key == key && shortcuts[0].modifiers == modifiers {
        Some(0)
    } else {
        match first_triggered(shortcuts.drop_first(), key, modifiers) {
            Some(i) => Some(i + 1),
            None => None,
        }
    }
}

/// The position of the first shortcut in `shortcuts` that the key press
/// triggers: the one that runs when several are bound.
pub fn first_match(shortcuts: &[Shortcut], key: Key, modifiers: Modifiers) -> (found: Option<usize>)
    ensures
        match found {
            Some(i) => first_triggered(shortcuts@, key, modifiers) == Some(i as int),
            None => first_triggered(shortcuts@, key, modifiers) is None,
        },
{
    assert(shortcuts@.subrange(0, shortcuts@.len() as int) =~= shortcuts@);
    let mut k: usize = 0;
    while k < shortcuts.len()
        invariant
            k <= shortcuts@.len(),
            first_triggered(shortcuts@, key, modifiers) == match first_triggered(
                shortcuts@.subrange(k as int, shortcuts@.len() as int),
                key,
                modifiers,
            ) {
                Some(i) => Some(i + k),
                None => None,
            },
        decreases shortcuts@.len() - k,
    {
        let ghost rest = shortcuts@.subrange(k as int, shortcuts@.len() as int);
        assert(rest[0] == shortcuts@[k as int]);
        assert(rest.drop_first() =~= shortcuts@.subrange(k + 1, shortcuts@.len() as int));
        if shortcuts[k].matches(key, modifiers) {
            return Some(k);
        }
        k = k + 1;
    }
    None
}

} // verus!
