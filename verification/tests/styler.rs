use eternal_pixels::styler::atom::{Atom, AttrValue};
use eternal_pixels::styler::cascade::cascade;
use eternal_pixels::styler::element::ElementState;
use eternal_pixels::styler::error::{Error, ErrorKind, ParseProblem, SelectorProblem, TokenText};
use eternal_pixels::styler::properties::{
    CssWideKeyword, LONGHAND_COUNT, LonghandId, PropertyId, Resolution, ShorthandId,
};
use eternal_pixels::styler::ranking::{best_specificity, rank_rules};
use eternal_pixels::styler::selector::PseudoClass;
use eternal_pixels::styler::specified::{FontSizeKeyword, is_generic_family};
use eternal_pixels::styler::stylesheet::DeclarationBlock;
use eternal_pixels::styler::values::{
    BorderStyle, Corners, FontFamily, FontStyle, Sides, TextAlign, spread_sides,
};

#[test]
fn equal_atoms_share_a_hash() {
    assert_eq!(Atom::new("button"), Atom::from("button"));
    assert_eq!(
        Atom::new("button").precomputed_hash(),
        Atom::new("button").precomputed_hash()
    );
    assert_ne!(
        Atom::new("button").precomputed_hash(),
        Atom::new("label").precomputed_hash()
    );
    assert_eq!(Atom::default(), Atom::new(""));
}

#[test]
fn serialises_as_css() {
    assert_eq!(Atom::new("a b").to_css_string(), "a\\ b");
    assert_eq!(AttrValue::from("a\"b").to_css_string(), "\"a\\\"b\"");
}

#[test]
fn atom_hash_is_fnv1a_of_the_utf8_bytes() {
    // FNV-1a of the empty input is the offset basis.
    assert_eq!(Atom::new("").precomputed_hash(), 0x811c_9dc5);
    assert_eq!(Atom::new("a").precomputed_hash(), 0xe40c_292c);
    assert_eq!(Atom::new("button").as_str(), "button");
    assert_eq!(AttrValue::new("x").as_str(), "x");
}

#[test]
fn every_name_round_trips() {
    for id in LonghandId::all() {
        assert_eq!(LonghandId::from_name(id.name()), Some(id));
        assert_eq!(
            LonghandId::from_name(&id.name().to_ascii_uppercase()),
            Some(id)
        );
        assert!(ShorthandId::from_name(id.name()).is_none());
    }
    for id in ShorthandId::all() {
        assert_eq!(ShorthandId::from_name(id.name()), Some(id));
        assert!(LonghandId::from_name(id.name()).is_none());
        assert!(!id.longhands().is_empty());
    }
    assert_eq!(PropertyId::from_name("colour"), None);
    assert_eq!(LONGHAND_COUNT, LonghandId::all().len());
    for (index, id) in LonghandId::all().into_iter().enumerate() {
        assert_eq!(id.index(), index);
    }
}

#[test]
fn property_ids_prefer_longhands_and_expand() {
    assert_eq!(
        PropertyId::from_name("Border-Top"),
        Some(PropertyId::Shorthand(ShorthandId::BorderTop))
    );
    assert_eq!(
        PropertyId::from_name("border-top-width"),
        Some(PropertyId::Longhand(LonghandId::BorderTopWidth))
    );
    assert_eq!(PropertyId::Longhand(LonghandId::Color).name(), "color");
    assert_eq!(
        PropertyId::Longhand(LonghandId::Opacity).longhands(),
        vec![LonghandId::Opacity]
    );
    assert_eq!(PropertyId::Shorthand(ShorthandId::Border).longhands().len(), 12);
    assert_eq!(
        ShorthandId::Gap.longhands(),
        vec![LonghandId::RowGap, LonghandId::ColumnGap]
    );
    assert!(LonghandId::Color.is_inherited());
    assert!(!LonghandId::Width.is_inherited());
}

#[test]
fn css_wide_keywords_resolve_by_inheritance() {
    assert_eq!(CssWideKeyword::from_keyword("UNSET"), Some(CssWideKeyword::Unset));
    assert_eq!(CssWideKeyword::from_keyword("inherit"), Some(CssWideKeyword::Inherit));
    assert_eq!(CssWideKeyword::from_keyword("inherit red"), None);
    assert_eq!(CssWideKeyword::Initial.resolve(true), Resolution::Initial);
    assert_eq!(CssWideKeyword::Inherit.resolve(false), Resolution::Inherit);
    assert_eq!(CssWideKeyword::Unset.resolve(true), Resolution::Inherit);
    assert_eq!(CssWideKeyword::Unset.resolve(false), Resolution::Initial);
    assert_eq!(CssWideKeyword::Revert.resolve(false), Resolution::Initial);
}

#[test]
fn sides_spread_like_shorthands() {
    assert_eq!(spread_sides(&[1]), Some(Sides::new(1, 1, 1, 1)));
    assert_eq!(spread_sides(&[1, 2]), Some(Sides::new(1, 2, 1, 2)));
    assert_eq!(spread_sides(&[1, 2, 3]), Some(Sides::new(1, 2, 3, 2)));
    assert_eq!(spread_sides(&[1, 2, 3, 4]), Some(Sides::new(1, 2, 3, 4)));
    assert_eq!(spread_sides(&[1, 2, 3, 4, 5]), None);
    assert_eq!(spread_sides::<u8>(&[]), None);
    assert_eq!(Sides::all(7), Sides::new(7, 7, 7, 7));
    assert_eq!(Corners::all('x'), Corners::new('x', 'x', 'x', 'x'));
    let word = "solid".to_string();
    assert_eq!(
        Sides::all(word.clone()),
        Sides::new(word.clone(), word.clone(), word.clone(), word)
    );
}

#[test]
fn keywords_of_values() {
    assert_eq!(BorderStyle::from_keyword("Solid"), Some(BorderStyle::Solid));
    assert_eq!(BorderStyle::from_keyword("none"), Some(BorderStyle::NoBorder));
    assert_eq!(BorderStyle::from_keyword("groove"), None);
    assert!(!BorderStyle::NoBorder.is_visible());
    assert!(!BorderStyle::Hidden.is_visible());
    assert!(BorderStyle::Dotted.is_visible());
    assert_eq!(BorderStyle::default(), BorderStyle::NoBorder);
    assert_eq!(FontStyle::from_keyword("ITALIC"), Some(FontStyle::Italic));
    assert_eq!(FontStyle::default(), FontStyle::Normal);
    assert_eq!(TextAlign::from_keyword("center"), Some(TextAlign::Center));
    assert_eq!(TextAlign::from_keyword("middle"), None);
    assert_eq!(TextAlign::default(), TextAlign::Start);
    assert_eq!(FontSizeKeyword::from_keyword("x-large"), Some(FontSizeKeyword::XLarge));
    assert_eq!(FontSizeKeyword::XLarge.pixels(), 24);
    assert_eq!(FontSizeKeyword::Medium.pixels(), 16);
    assert_eq!(FontSizeKeyword::from_keyword("larger"), None);
}

#[test]
fn font_family_keeps_its_order() {
    let family = FontFamily::new(vec!["Segoe UI".to_string(), "sans-serif".to_string()]);
    assert_eq!(family.names(), ["Segoe UI", "sans-serif"]);
    assert_eq!(FontFamily::default().names(), ["sans-serif"]);
}

#[test]
fn error_messages_name_the_place() {
    let error = Error::at(ErrorKind::UnknownProperty("colour".to_string()), 1, 3);
    assert_eq!(error.line(), 2);
    assert_eq!(error.column(), 3);
    assert_eq!(error.kind(), &ErrorKind::UnknownProperty("colour".to_string()));
    assert_eq!(error.to_string(), "line 2, column 3: unknown property 'colour'");
    let invalid = ErrorKind::InvalidValue {
        property: "width".to_string(),
        reason: "unexpected 'red'".to_string(),
    };
    assert_eq!(
        Error::at(invalid, 0, 17).to_string(),
        "line 1, column 17: invalid value for 'width': unexpected 'red'"
    );
    assert_eq!(
        ErrorKind::UnsupportedAtRule("media".to_string()).to_string(),
        "unsupported at-rule '@media'"
    );
    assert_eq!(
        ErrorKind::InvalidSelector("empty selector".to_string()).to_string(),
        "invalid selector: empty selector"
    );
    assert_eq!(ErrorKind::Syntax("value out of range".to_string()).to_string(), "value out of range");
}

#[test]
fn pseudo_classes_read_the_state() {
    let state = ElementState::hover() | ElementState::disabled();
    assert!(PseudoClass::Hover.matches(state, false));
    assert!(!PseudoClass::Active.matches(state, false));
    assert!(PseudoClass::Disabled.matches(state, false));
    assert!(!PseudoClass::Enabled.matches(state, false));
    assert!(PseudoClass::ReadWrite.matches(state, false));
    assert!(PseudoClass::Valid.matches(ElementState::empty(), false));
    let busy = PseudoClass::CustomState(Atom::new("busy"));
    assert!(busy.matches(ElementState::empty(), true));
    assert!(!busy.matches(ElementState::all(), false));
    assert!(PseudoClass::Hover.is_active_or_hover());
    assert!(PseudoClass::FocusWithin.is_user_action_state());
    assert!(!PseudoClass::Checked.is_user_action_state());
}

#[test]
fn pseudo_class_names_and_css() {
    assert_eq!(PseudoClass::from_name("Focus-Visible"), Some(PseudoClass::FocusVisible));
    assert_eq!(PseudoClass::from_name("placeholder-shown"), Some(PseudoClass::PlaceholderShown));
    assert_eq!(PseudoClass::from_name("visited"), None);
    assert_eq!(PseudoClass::ReadOnly.to_css_string(), ":read-only");
    assert_eq!(
        PseudoClass::CustomState(Atom::new("loading")).to_css_string(),
        ":state(loading)"
    );
    assert_eq!(
        PseudoClass::CustomState(Atom::new("a b")).to_css_string(),
        ":state(a\\ b)"
    );
}

#[test]
fn declaration_blocks_keep_source_order() {
    let mut block: DeclarationBlock<&str> = DeclarationBlock::new();
    assert!(block.is_empty());
    block.push(LonghandId::Color, "red", false);
    block.push(LonghandId::Width, "10px", true);
    assert_eq!(block.len(), 2);
    assert!(!block.is_empty());
    let declarations = block.declarations();
    assert_eq!(declarations[0].longhand, LonghandId::Color);
    assert_eq!(declarations[0].value, "red");
    assert!(declarations[1].important);
}

#[test]
fn later_declarations_win_and_important_beats_normal() {
    // A rule, a stronger rule, then an inline style.
    let mut weak: DeclarationBlock<&str> = DeclarationBlock::new();
    weak.push(LonghandId::Color, "#555555", false);
    weak.push(LonghandId::Width, "1px", true);
    weak.push(LonghandId::Opacity, "0.5", false);
    let mut strong: DeclarationBlock<&str> = DeclarationBlock::new();
    strong.push(LonghandId::Color, "#666666", false);
    strong.push(LonghandId::Width, "2px", false);
    strong.push(LonghandId::Color, "#777777", false);
    let mut inline: DeclarationBlock<&str> = DeclarationBlock::new();
    inline.push(LonghandId::Color, "#ff00ff", false);
    inline.push(LonghandId::Width, "10px", true);
    inline.push(LonghandId::Height, "40px", false);
    let blocks = [&weak, &strong, &inline];
    let winners = cascade(&blocks);
    // The inline style beats every rule within its importance.
    assert_eq!(winners.get(LonghandId::Color), Some((2, 0)));
    // Both important widths beat the normal one; the later important wins.
    assert_eq!(winners.get(LonghandId::Width), Some((2, 1)));
    assert_eq!(winners.get(LonghandId::Height), Some((2, 2)));
    assert_eq!(winners.get(LonghandId::Opacity), Some((0, 2)));
    assert_eq!(winners.get(LonghandId::MarginTop), None);

    let without_inline = cascade(&[&weak, &strong]);
    // The later of two declarations in one block wins.
    assert_eq!(without_inline.get(LonghandId::Color), Some((1, 2)));
    // An important declaration beats a later normal one.
    assert_eq!(without_inline.get(LonghandId::Width), Some((0, 1)));
}

#[test]
fn rules_rank_by_specificity_then_order() {
    assert_eq!(best_specificity(&[]), None);
    assert_eq!(best_specificity(&[(false, 100)]), None);
    assert_eq!(best_specificity(&[(true, 1), (false, 100), (true, 10)]), Some(10));
    let order = rank_rules(&[Some(10), None, Some(1), Some(10), Some(0x10000)]);
    assert_eq!(order, vec![2, 0, 3, 4]);
    assert_eq!(rank_rules(&[None, None]), Vec::<usize>::new());
}

#[test]
fn generic_families_are_recognised() {
    assert!(is_generic_family("sans-serif"));
    assert!(is_generic_family("Sans-Serif"));
    assert!(is_generic_family("ui-monospace"));
    assert!(!is_generic_family("Segoe UI"));
    assert!(!is_generic_family(""));
}

#[test]
fn parse_problems_read_as_messages() {
    let cases = [
        (
            ParseProblem::UnexpectedToken(TokenText::Other("}".to_string())),
            "unexpected '}'",
        ),
        (ParseProblem::UnexpectedToken(TokenText::WhiteSpace), "unexpected whitespace"),
        (ParseProblem::EndOfInput, "unexpected end of input"),
        (ParseProblem::AtRuleInvalid("media".to_string()), "unsupported at-rule '@media'"),
        (ParseProblem::AtRuleBodyInvalid, "invalid at-rule body"),
        (ParseProblem::QualifiedRuleInvalid, "invalid selector: invalid rule"),
        (ParseProblem::UnknownProperty("colr".to_string()), "unknown property 'colr'"),
        (
            ParseProblem::InvalidValue {
                property: "width".to_string(),
                reason: "value out of range".to_string(),
            },
            "invalid value for 'width': value out of range",
        ),
        (
            ParseProblem::UnsupportedColorSpace("rec2020".to_string()),
            "unsupported colour space 'rec2020'",
        ),
        (ParseProblem::NegativeValue, "negative values are not allowed here"),
        (ParseProblem::OutOfRange, "value out of range"),
        (
            ParseProblem::Selector(SelectorProblem::EmptySelector),
            "invalid selector: empty selector",
        ),
        (
            ParseProblem::Selector(SelectorProblem::UnsupportedPseudoClassOrElement(
                "before".to_string(),
            )),
            "invalid selector: unsupported pseudo-class or pseudo-element ':before'",
        ),
        (
            ParseProblem::Selector(SelectorProblem::ClassNeedsIdent(TokenText::BadString)),
            "invalid selector: expected a class name, found unterminated string",
        ),
        (
            ParseProblem::Selector(SelectorProblem::NoIdentForPseudo(TokenText::Other(
                "5".to_string(),
            ))),
            "invalid selector: expected a pseudo-class name, found '5'",
        ),
        (
            ParseProblem::Selector(SelectorProblem::BadValueInAttr(TokenText::BadUrl)),
            "invalid selector: unexpected bad url in selector",
        ),
        (
            ParseProblem::Selector(SelectorProblem::ExpectedNamespace("svg".to_string())),
            "invalid selector: unknown namespace 'svg'",
        ),
        (
            ParseProblem::Selector(SelectorProblem::InvalidState),
            "invalid selector: invalid selector",
        ),
    ];
    for (problem, message) in cases {
        assert_eq!(ErrorKind::from_problem(problem).to_string(), message);
    }
}

#[test]
fn a_bad_value_is_reported_with_its_place() {
    let reason = ErrorKind::from_problem(ParseProblem::UnexpectedToken(TokenText::Other(
        "red".to_string(),
    )))
    .to_string();
    let kind = ErrorKind::from_problem(ParseProblem::InvalidValue {
        property: "width".to_string(),
        reason,
    });
    let error = Error::at(kind, 0, 17);
    assert_eq!(
        error.to_string(),
        "line 1, column 17: invalid value for 'width': unexpected 'red'"
    );
}

#[test]
fn atoms_are_equal_exactly_when_their_texts_are() {
    assert_eq!(Atom::new("button"), Atom::new("button"));
    assert_ne!(Atom::new("button"), Atom::new("label"));
    assert_ne!(
        Atom::new("button").precomputed_hash(),
        Atom::new("label").precomputed_hash()
    );
}
