use eternal_pixels::fonts::candidates;
use eternal_pixels::styler::element::ElementState;
use eternal_pixels::ui::attrs::{Attribute, attribute, contains_word, entry, set_entry, words};
use eternal_pixels::ui::event::{Key, Modifiers};
use eternal_pixels::ui::font_error::FontError;
use eternal_pixels::ui::geometry::Axis;
use eternal_pixels::ui::layout::{Align, Justify};
use eternal_pixels::ui::shortcut::{Shortcut, first_match};
use eternal_pixels::ui::routing::{
    EventKind, KeyRoute, after_offer, enabled_shortcuts, first_target, next_offer, route_key,
    tab_step,
};
use eternal_pixels::ui::style::Style;
use eternal_pixels::ui::tree::{NodeId, next_focus, set_name};
use eternal_pixels::ui::widgets::{
    Button, Checkbox, Container, Label, TextInput, TextKeyEffect, parse_bool,
};

#[test]
fn parses_and_displays() {
    let save = Shortcut::parse("ctrl+s").unwrap();
    assert_eq!(save, Shortcut::new(Modifiers::ctrl(), Key::Char('s')));
    assert_eq!(save.to_string(), "Ctrl+S");
    assert_eq!(
        Shortcut::parse("Shift + Cmd + Z").unwrap(),
        Shortcut::new(Modifiers::shift() | Modifiers::meta(), Key::Char('z'))
    );
    assert_eq!(Shortcut::parse("F5").unwrap().key, Key::F(5));
    assert_eq!(Shortcut::parse("Escape").unwrap().key, Key::Escape);
    assert_eq!(
        Shortcut::parse("Alt+Return").unwrap().to_string(),
        "Alt+Enter"
    );
    assert!(Shortcut::parse("Ctrl+").is_err());
    assert!(Shortcut::parse("Ctrl").is_err());
    assert!(Shortcut::parse("A+B").is_err());
    assert!(Shortcut::parse("F25").is_err());
    assert!(Shortcut::parse("").is_err());
}

#[test]
fn matching_is_exact_on_modifiers() {
    let save = Shortcut::parse("Ctrl+S").unwrap();
    assert!(save.matches(Key::Char('s'), Modifiers::ctrl()));
    assert!(!save.matches(Key::Char('s'), Modifiers::ctrl() | Modifiers::shift()));
    assert!(!save.matches(Key::Char('s'), Modifiers::empty()));
}

#[test]
fn shown_shortcuts_parse_back() {
    let all = Modifiers::ctrl() | Modifiers::alt() | Modifiers::shift() | Modifiers::meta();
    let undo = Shortcut::new(all, Key::Char('z'));
    assert_eq!(Shortcut::parse(&undo.to_string()).unwrap(), undo);
    let help = Shortcut::new(Modifiers::empty(), Key::F(1));
    assert_eq!(help.to_string(), "F1");
    assert_eq!(Shortcut::parse(&help.to_string()).unwrap(), help);
    let error = Shortcut::parse("Hyper+K").unwrap_err();
    assert_eq!(error.text(), "Hyper+K");
}

#[test]
fn modifier_sets() {
    let mut m = Modifiers::empty();
    assert!(m.is_empty());
    m.insert(Modifiers::ctrl());
    m.set(Modifiers::shift(), true);
    assert!(m.contains(Modifiers::ctrl() | Modifiers::shift()));
    m.remove(Modifiers::ctrl());
    assert_eq!(m, Modifiers::shift());
    assert_eq!(Modifiers::all().difference(Modifiers::all()), Modifiers::empty());
    assert_eq!(Modifiers::from_bits(16), None);
    assert!(Modifiers::all().intersects(Modifiers::alt()));
}

#[test]
fn text_input_editing() {
    let mut input = TextInput::new("héllo");
    assert_eq!(input.cursor(), 5);
    assert!(input.delete_before());
    assert_eq!(input.text(), "héll");
    input.place_cursor(1);
    input.insert("XY");
    assert_eq!(input.text(), "hXYéll");
    assert_eq!(input.cursor(), 3);
    assert!(input.delete_after());
    assert_eq!(input.text(), "hXYll");
    input.place_cursor(0);
    assert!(!input.delete_before());
    input.place_cursor(5);
    assert!(!input.delete_after());
}

#[test]
fn typing_then_backspace_restores_the_field() {
    let mut input = TextInput::new("abc");
    input.place_cursor(1);
    assert!(input.type_text("é"));
    assert_eq!(input.text(), "aébc");
    assert!(input.delete_before());
    assert_eq!(input.text(), "abc");
    assert_eq!(input.cursor(), 1);
}

#[test]
fn text_input_keys() {
    let mut input = TextInput::new("ab");
    assert_eq!(input.press(Key::Home, Modifiers::empty()), TextKeyEffect::Moved);
    assert_eq!(input.cursor(), 0);
    assert_eq!(input.press(Key::ArrowLeft, Modifiers::empty()), TextKeyEffect::Moved);
    assert_eq!(input.cursor(), 0);
    assert_eq!(input.press(Key::Backspace, Modifiers::empty()), TextKeyEffect::Handled);
    assert_eq!(input.press(Key::Delete, Modifiers::empty()), TextKeyEffect::Changed);
    assert_eq!(input.text(), "b");
    assert_eq!(input.press(Key::Char('x'), Modifiers::ctrl()), TextKeyEffect::Ignored);
    assert_eq!(input.press(Key::Enter, Modifiers::empty()), TextKeyEffect::Submitted);
    assert!(!input.type_text("\u{7}"));
    input.place_cursor(99);
    assert_eq!(input.cursor(), 1);
    input.set_placeholder("Type");
    assert_eq!(input.placeholder(), "Type");
    assert!(input.state().contains(ElementState::empty()));
    input.set_text("");
    assert!(input.state().contains(ElementState::placeholder_shown()));
}

#[test]
fn bools() {
    assert!(parse_bool("true"));
    assert!(parse_bool(""));
    assert!(!parse_bool("false"));
    assert!(!parse_bool("0"));
}

#[test]
fn widgets_take_their_attributes() {
    let mut label = Label::new("Ready");
    assert_eq!(label.text(), "Ready");
    assert!(label.set_attribute("text", "Saved!"));
    assert_eq!(label.text(), "Saved!");
    assert!(!label.set_attribute("nonsense", "x"));
    label.set_text("Done");
    assert_eq!(label.text(), "Done");

    let mut check = Checkbox::new(false);
    assert!(!check.is_checked());
    assert!(check.toggle());
    assert!(check.state().contains(ElementState::checked()));
    assert!(check.set_attribute("checked", "false"));
    assert!(!check.is_checked());
    check.set_checked(true);
    assert!(check.is_checked());

    let mut column = Container::column();
    assert_eq!(column.axis(), Axis::Vertical);
    assert_eq!(Container::row().axis(), Axis::Horizontal);
    assert!(column.set_attribute("align_items", "center"));
    assert!(!column.set_attribute("align_items", "sideways"));

    assert!(Button::activated_by(Key::Space, Modifiers::empty()));
    assert!(Button::activated_by(Key::Enter, Modifiers::empty()));
    assert!(!Button::activated_by(Key::Char('a'), Modifiers::empty()));
}

#[test]
fn layout_keywords() {
    assert_eq!(Align::parse(" center "), Some(Align::Center));
    assert_eq!(Align::parse("middle"), None);
    assert_eq!(Justify::parse("space-between"), Some(Justify::SpaceBetween));
    assert_eq!(Axis::Horizontal.cross(), Axis::Vertical);
    assert_eq!(Axis::Vertical.cross(), Axis::Horizontal);
}

#[test]
fn style_builder_joins_declarations() {
    let style = Style::new().set("border", "1px solid #000").color("#123");
    assert_eq!(style.to_string(), "border: 1px solid #000; color: #123");
    assert!(Style::new().is_empty());
    assert!(!Style::new().background("red").is_empty());
}

#[test]
fn focus_moves_in_a_ring() {
    assert_eq!(next_focus(3, None, true), 0);
    assert_eq!(next_focus(3, None, false), 2);
    assert_eq!(next_focus(3, Some(2), true), 0);
    assert_eq!(next_focus(3, Some(0), false), 2);
    assert_eq!(next_focus(3, Some(1), true), 2);
    // Tab then Shift+Tab comes back.
    let there = next_focus(4, Some(1), true);
    assert_eq!(next_focus(4, Some(there), false), 1);
}

#[test]
fn names_go_in_and_out_once() {
    let mut names: Vec<String> = vec!["accent".to_string()];
    assert!(!set_name(&mut names, "accent", true));
    assert!(set_name(&mut names, "busy", true));
    assert_eq!(names, ["accent", "busy"]);
    assert!(set_name(&mut names, "accent", false));
    assert_eq!(names, ["busy"]);
    assert!(!set_name(&mut names, "accent", false));
}

#[test]
fn generic_families_expand() {
    assert_eq!(candidates("monospace")[0], "Menlo");
    assert_eq!(candidates("ui-monospace").last(), Some(&"monospace"));
    assert_eq!(candidates("system-ui").len(), 6);
    assert_eq!(candidates("serif")[1], "Times New Roman");
    assert_eq!(candidates("Inter"), vec!["Inter"]);
    assert_eq!(candidates("Serif"), vec!["Serif"]);
}

#[test]
fn the_first_bound_shortcut_wins() {
    let save = Shortcut::parse("Ctrl+S").unwrap();
    let quit = Shortcut::parse("Ctrl+Q").unwrap();
    let bound = [quit, save, save];
    assert_eq!(first_match(&bound, Key::Char('s'), Modifiers::ctrl()), Some(1));
    assert_eq!(first_match(&bound, Key::Char('q'), Modifiers::ctrl()), Some(0));
    assert_eq!(first_match(&bound, Key::Char('s'), Modifiers::empty()), None);
    assert_eq!(first_match(&[], Key::Char('s'), Modifiers::ctrl()), None);
}

#[test]
fn font_errors_name_the_file_they_came_from() {
    let unnamed = FontError::Unreadable { path: None }.at("/no/such/font.ttf");
    assert!(matches!(unnamed, FontError::Unreadable { path: Some(ref p) } if p == "/no/such/font.ttf"));

    let named = FontError::Unreadable { path: Some("a.ttf".to_string()) }.at("b.ttf");
    assert!(matches!(named, FontError::Unreadable { path: Some(ref p) } if p == "a.ttf"));

    let io = FontError::Io {
        path: "c.ttf".to_string(),
        source: std::io::Error::new(std::io::ErrorKind::NotFound, "missing"),
    }
    .at("d.ttf");
    assert!(matches!(io, FontError::Io { ref path, .. } if path == "c.ttf"));
}

#[test]
fn attribute_names_are_classified() {
    assert_eq!(attribute("id"), Attribute::Id);
    assert_eq!(attribute("class"), Attribute::Class);
    assert_eq!(attribute("style"), Attribute::Style);
    assert_eq!(attribute("grow"), Attribute::Grow);
    assert_eq!(attribute("align"), Attribute::Align);
    assert_eq!(attribute("disabled"), Attribute::Disabled);
    assert_eq!(attribute("shortcut"), Attribute::Shortcut);
    assert_eq!(attribute("state"), Attribute::State);
    assert_eq!(attribute("text"), Attribute::Widget);
    assert_eq!(attribute("Class"), Attribute::Widget);
}

#[test]
fn class_lists_split_at_white_space() {
    assert_eq!(words("  primary \t wide\nbig "), vec!["primary", "wide", "big"]);
    assert_eq!(words("one"), vec!["one"]);
    assert!(words("").is_empty());
    assert!(words(" \n\t ").is_empty());
    let list = words("a b");
    assert!(contains_word(&list, "b"));
    assert!(!contains_word(&list, "c"));
}

#[test]
fn an_attribute_read_gives_the_last_value_set() {
    let mut attrs: Vec<(String, String)> = Vec::new();
    assert_eq!(entry(&attrs, "value"), None);
    set_entry(&mut attrs, "value", "1");
    set_entry(&mut attrs, "placeholder", "name");
    set_entry(&mut attrs, "value", "2");
    assert_eq!(entry(&attrs, "value").map(String::as_str), Some("2"));
    assert_eq!(entry(&attrs, "placeholder").map(String::as_str), Some("name"));
    assert_eq!(attrs.len(), 2);
    assert_eq!(attrs[0], ("value".to_string(), "2".to_string()));
}

#[test]
fn events_go_to_the_pressed_hovered_or_focused_element() {
    let (pressed, under, focus) = (Some(NodeId(1)), Some(NodeId(2)), Some(NodeId(3)));
    assert_eq!(first_target(EventKind::PointerMove, pressed, under, focus), pressed);
    assert_eq!(first_target(EventKind::PointerMove, None, under, focus), under);
    assert_eq!(first_target(EventKind::PointerUp, pressed, under, focus), pressed);
    assert_eq!(first_target(EventKind::PointerDown, pressed, under, focus), under);
    assert_eq!(first_target(EventKind::Wheel, pressed, under, focus), under);
    assert_eq!(first_target(EventKind::PointerLeave, pressed, under, focus), None);
    assert_eq!(first_target(EventKind::KeyDown, pressed, under, focus), focus);
    assert_eq!(first_target(EventKind::Text, pressed, under, None), None);
}

#[test]
fn tab_and_shift_tab_move_focus() {
    assert_eq!(tab_step(Key::Tab, Modifiers::empty()), Some(true));
    assert_eq!(tab_step(Key::Tab, Modifiers::shift()), Some(false));
    assert_eq!(tab_step(Key::Tab, Modifiers::ctrl()), None);
    assert_eq!(tab_step(Key::Tab, Modifiers::shift() | Modifiers::alt()), None);
    assert_eq!(tab_step(Key::Enter, Modifiers::empty()), None);
}

#[test]
fn a_class_switched_on_is_present_and_off_is_gone() {
    let mut classes = words("a b");
    assert!(set_name(&mut classes, "c", true));
    assert!(contains_word(&classes, "c"));
    assert!(!set_name(&mut classes, "c", true));
    assert!(set_name(&mut classes, "a", false));
    assert!(!contains_word(&classes, "a"));
    assert_eq!(classes, vec!["b", "c"]);
}

#[test]
fn default_widgets_start_empty() {
    assert!(!Checkbox::default().is_checked());
    assert!(Checkbox::new(true).is_checked());
    assert_eq!(Label::default().text(), "");
}

#[test]
fn styles_with_the_same_declarations_are_equal() {
    assert_eq!(Style::new().color("red"), Style::new().color("red"));
    assert_ne!(Style::new().color("red"), Style::new().background("red"));
}

#[test]
fn keys_go_to_window_shortcuts_then_element_shortcuts_then_focus() {
    let save = Shortcut::parse("Ctrl+S").unwrap();
    let quit = Shortcut::parse("Ctrl+Q").unwrap();
    let again = Shortcut::parse("Ctrl+S").unwrap();
    let global = [quit];
    let element = [save, again];
    assert_eq!(
        route_key(&global, &element, Key::Char('q'), Modifiers::ctrl()),
        KeyRoute::Global(0)
    );
    assert_eq!(
        route_key(&global, &element, Key::Char('s'), Modifiers::ctrl()),
        KeyRoute::Element(0)
    );
    assert_eq!(
        route_key(&[save], &element, Key::Char('s'), Modifiers::ctrl()),
        KeyRoute::Global(0)
    );
    assert_eq!(
        route_key(&global, &element, Key::Char('s'), Modifiers::empty()),
        KeyRoute::Offer
    );
    assert_eq!(after_offer(false, Key::Tab, Modifiers::empty()), Some(true));
    assert_eq!(after_offer(false, Key::Tab, Modifiers::shift()), Some(false));
    assert_eq!(after_offer(true, Key::Tab, Modifiers::empty()), None);
    assert_eq!(after_offer(false, Key::Enter, Modifiers::empty()), None);
}

#[test]
fn disabled_elements_have_no_shortcuts() {
    let save = Shortcut::parse("Ctrl+S").unwrap();
    let quit = Shortcut::parse("Ctrl+Q").unwrap();
    let elements = [(Some(save), true), (None, false), (Some(quit), false), (Some(save), false)];
    assert_eq!(enabled_shortcuts(&elements), vec![(2, quit), (3, save)]);
}

#[test]
fn events_bubble_past_disabled_elements_until_handled() {
    let disabled = [true, false, true, false];
    assert_eq!(next_offer(&disabled, 0, false), Some(1));
    assert_eq!(next_offer(&disabled, 2, false), Some(3));
    assert_eq!(next_offer(&disabled, 2, true), None);
    assert_eq!(next_offer(&disabled, 4, false), None);
    assert_eq!(next_offer(&[true, true], 0, false), None);
}
