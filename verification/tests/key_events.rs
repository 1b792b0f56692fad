use mkframe::input::is_control;
use mkframe::{Key, KeyEvent, KeyState, Modifiers, PointerButton, PointerEventKind};
use xkeysym::Keysym;

fn make_key_event(key: Key, text: Option<&str>, modifiers: Modifiers) -> KeyEvent {
    KeyEvent {
        key,
        text: text.map(|s| s.to_string()),
        modifiers,
        state: KeyState::Pressed,
    }
}

#[test]
fn test_key_event_simple_letters() {
    let event = make_key_event(Key::A, None, Modifiers::default());
    assert_eq!(event.to_key_string(), Some("a".to_string()));

    let event = make_key_event(Key::Z, None, Modifiers::default());
    assert_eq!(event.to_key_string(), Some("z".to_string()));
}

#[test]
fn test_key_event_shifted_letters() {
    let mods = Modifiers {
        shift: true,
        ..Default::default()
    };
    let event = make_key_event(Key::A, None, mods);
    assert_eq!(event.to_key_string(), Some("A".to_string()));
}

#[test]
fn test_key_event_ctrl_combinations() {
    let mods = Modifiers {
        ctrl: true,
        ..Default::default()
    };

    let event = make_key_event(Key::W, None, mods);
    assert_eq!(event.to_key_string(), Some("C-w".to_string()));

    let event = make_key_event(Key::C, None, mods);
    assert_eq!(event.to_key_string(), Some("C-c".to_string()));
}

#[test]
fn test_key_event_text_takes_precedence() {
    // If text is provided, it should be used directly
    let event = make_key_event(
        Key::Semicolon,
        Some(":"),
        Modifiers {
            shift: true,
            ..Default::default()
        },
    );
    assert_eq!(event.to_key_string(), Some(":".to_string()));
}

#[test]
fn test_key_event_special_keys() {
    let event = make_key_event(Key::Enter, None, Modifiers::default());
    assert_eq!(event.to_key_string(), Some("\n".to_string()));

    let event = make_key_event(Key::Escape, None, Modifiers::default());
    assert_eq!(event.to_key_string(), Some("\x1b".to_string()));

    let event = make_key_event(Key::Tab, None, Modifiers::default());
    assert_eq!(event.to_key_string(), Some("\t".to_string()));

    let event = make_key_event(Key::Space, None, Modifiers::default());
    assert_eq!(event.to_key_string(), Some(" ".to_string()));
}

#[test]
fn test_key_event_punctuation() {
    let event = make_key_event(Key::Period, None, Modifiers::default());
    assert_eq!(event.to_key_string(), Some(".".to_string()));

    let mods = Modifiers {
        shift: true,
        ..Default::default()
    };
    let event = make_key_event(Key::Period, None, mods);
    assert_eq!(event.to_key_string(), Some(">".to_string()));
}

#[test]
fn test_key_event_numbers() {
    let event = make_key_event(Key::Num0, None, Modifiers::default());
    assert_eq!(event.to_key_string(), Some("0".to_string()));

    let mods = Modifiers {
        shift: true,
        ..Default::default()
    };
    let event = make_key_event(Key::Num1, None, mods);
    assert_eq!(event.to_key_string(), Some("!".to_string()));
}

#[test]
fn test_key_event_modifier_keys_return_none() {
    let event = make_key_event(Key::Shift, None, Modifiers::default());
    assert_eq!(event.to_key_string(), None);

    let event = make_key_event(Key::Control, None, Modifiers::default());
    assert_eq!(event.to_key_string(), None);
}

#[test]
fn test_key_event_unknown_returns_none() {
    let event = make_key_event(Key::Unknown(12345), None, Modifiers::default());
    assert_eq!(event.to_key_string(), None);
}

#[test]
fn test_modifiers_default() {
    let mods = Modifiers::default();
    assert!(!mods.shift);
    assert!(!mods.ctrl);
    assert!(!mods.alt);
    assert!(!mods.super_);
}

#[test]
fn test_key_state_equality() {
    assert_eq!(KeyState::Pressed, KeyState::Pressed);
    assert_eq!(KeyState::Released, KeyState::Released);
    assert_ne!(KeyState::Pressed, KeyState::Released);
}

#[test]
fn test_pointer_button_equality() {
    assert_eq!(PointerButton::Left, PointerButton::Left);
    assert_eq!(PointerButton::Other(5), PointerButton::Other(5));
    assert_ne!(PointerButton::Left, PointerButton::Right);
}

#[test]
fn test_pointer_event_kind_scroll() {
    let scroll = PointerEventKind::Scroll { dx: 10, dy: -5 };
    match scroll {
        PointerEventKind::Scroll { dx, dy } => {
            assert_eq!(dx, 10);
            assert_eq!(dy, -5);
        }
        _ => panic!("expected Scroll"),
    }
}

#[test]
fn ctrl_with_a_key_that_is_no_letter_gives_nothing() {
    let mods = Modifiers { ctrl: true, ..Default::default() };
    assert_eq!(make_key_event(Key::Num1, None, mods).to_key_string(), None);
    assert_eq!(make_key_event(Key::Enter, Some("\r"), mods).to_key_string(), None);
    // Ctrl wins over the event's own text.
    assert_eq!(
        make_key_event(Key::A, Some("\u{1}"), mods).to_key_string(),
        Some("C-a".to_string())
    );
}

#[test]
fn text_that_starts_with_a_control_code_falls_back_to_the_key() {
    let event = make_key_event(Key::Enter, Some("\r"), Modifiers::default());
    assert_eq!(event.to_key_string(), Some("\n".to_string()));
    let event = make_key_event(Key::A, Some(""), Modifiers::default());
    assert_eq!(event.to_key_string(), Some("a".to_string()));
    let event = make_key_event(Key::F1, Some("\u{7f}"), Modifiers::default());
    assert_eq!(event.to_key_string(), None);
    // Text of several characters is handed on whole.
    let event = make_key_event(Key::Unknown(1), Some("été"), Modifiers::default());
    assert_eq!(event.to_key_string(), Some("été".to_string()));
}

#[test]
fn every_key_of_the_table_types_its_character() {
    let table: [(Key, &str, &str); 17] = [
        (Key::Num2, "2", "@"),
        (Key::Num9, "9", "("),
        (Key::Comma, ",", "<"),
        (Key::Semicolon, ";", ":"),
        (Key::Colon, ":", ":"),
        (Key::Slash, "/", "?"),
        (Key::Backslash, "\\", "|"),
        (Key::Minus, "-", "_"),
        (Key::Equals, "=", "+"),
        (Key::BracketLeft, "[", "{"),
        (Key::BracketRight, "]", "}"),
        (Key::Quote, "'", "\""),
        (Key::Grave, "`", "~"),
        (Key::Backspace, "\x08", "\x08"),
        (Key::Tab, "\t", "\t"),
        (Key::Space, " ", " "),
        (Key::M, "m", "M"),
    ];
    for (key, base, shifted) in table {
        assert_eq!(key.to_string_with_shift(false), Some(base.to_string()));
        assert_eq!(key.to_string_with_shift(true), Some(shifted.to_string()));
    }
    for key in [Key::F5, Key::Up, Key::Home, Key::Delete, Key::Insert, Key::Super, Key::Alt] {
        assert_eq!(key.to_string_with_shift(false), None);
        assert_eq!(key.to_string_with_shift(true), None);
    }
}

#[test]
fn base_char_is_the_letter_of_a_letter_key_only() {
    assert_eq!(Key::A.to_base_char(), Some('a'));
    assert_eq!(Key::Q.to_base_char(), Some('q'));
    assert_eq!(Key::Z.to_base_char(), Some('z'));
    assert_eq!(Key::Num0.to_base_char(), None);
    assert_eq!(Key::Space.to_base_char(), None);
    assert_eq!(Key::Period.to_base_char(), None);
    assert_eq!(Key::Unknown(0x61).to_base_char(), None);
}

#[test]
fn control_codes_are_those_of_the_standard_library() {
    let mut code: u32 = 0;
    while code <= 0x10ffff {
        if let Some(c) = char::from_u32(code) {
            assert_eq!(is_control(c), c.is_control(), "code point {:#x}", code);
        }
        code += 1;
    }
}

#[test]
fn keysyms_are_those_of_the_keysym_table() {
    let named: [(Keysym, Key); 35] = [
        (Keysym::a, Key::A),
        (Keysym::b, Key::B),
        (Keysym::m, Key::M),
        (Keysym::w, Key::W),
        (Keysym::z, Key::Z),
        (Keysym::_0, Key::Num0),
        (Keysym::_1, Key::Num1),
        (Keysym::_5, Key::Num5),
        (Keysym::_9, Key::Num9),
        (Keysym::Up, Key::Up),
        (Keysym::Down, Key::Down),
        (Keysym::Left, Key::Left),
        (Keysym::Right, Key::Right),
        (Keysym::Return, Key::Enter),
        (Keysym::Escape, Key::Escape),
        (Keysym::BackSpace, Key::Backspace),
        (Keysym::Tab, Key::Tab),
        (Keysym::space, Key::Space),
        (Keysym::colon, Key::Colon),
        (Keysym::semicolon, Key::Semicolon),
        (Keysym::period, Key::Period),
        (Keysym::comma, Key::Comma),
        (Keysym::A, Key::Unknown(0x41)),
        (Keysym::Shift_L, Key::Shift),
        (Keysym::Shift_R, Key::Shift),
        (Keysym::Control_L, Key::Control),
        (Keysym::Control_R, Key::Control),
        (Keysym::Alt_L, Key::Alt),
        (Keysym::Alt_R, Key::Alt),
        (Keysym::Super_L, Key::Super),
        (Keysym::Super_R, Key::Super),
        (Keysym::Caps_Lock, Key::Unknown(0xffe5)),
        (Keysym::Meta_L, Key::Unknown(0xffe7)),
        (Keysym::Meta_R, Key::Unknown(0xffe8)),
        (Keysym::F1, Key::Unknown(0xffbe)),
    ];
    for (sym, key) in named {
        assert_eq!(Key::from_keysym(sym.raw()), key);
    }
    let letters = [
        Keysym::a, Keysym::b, Keysym::c, Keysym::d, Keysym::e, Keysym::f, Keysym::g, Keysym::h,
        Keysym::i, Keysym::j, Keysym::k, Keysym::l, Keysym::m, Keysym::n, Keysym::o, Keysym::p,
        Keysym::q, Keysym::r, Keysym::s, Keysym::t, Keysym::u, Keysym::v, Keysym::w, Keysym::x,
        Keysym::y, Keysym::z,
    ];
    for (i, sym) in letters.iter().enumerate() {
        let key = Key::from_keysym(sym.raw());
        let expected = (b'a' + i as u8) as char;
        assert_eq!(key.to_base_char(), Some(expected));
    }
    assert_eq!(Key::from_keysym(0), Key::Unknown(0));
    assert_eq!(Key::from_keysym(u32::MAX), Key::Unknown(u32::MAX));
}

#[test]
fn button_codes() {
    assert_eq!(PointerButton::from_code(272), PointerButton::Left);
    assert_eq!(PointerButton::from_code(273), PointerButton::Right);
    assert_eq!(PointerButton::from_code(274), PointerButton::Middle);
    assert_eq!(PointerButton::from_code(275), PointerButton::Other(275));
    assert_eq!(PointerButton::from_code(0), PointerButton::Other(0));
}
