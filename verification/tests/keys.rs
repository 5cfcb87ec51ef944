use evdev::KeyCode;
use sd_rust::config::MacroStep;
use sd_rust::keys::{
    key_by_name, key_for_char, letter_key, parse_chord, play, supported_keys, Action, Event,
    MacroError,
};

fn codes(keys: &[KeyCode]) -> Vec<u16> {
    keys.iter().map(|k| k.0).collect()
}

fn chord(s: &str) -> MacroStep {
    MacroStep::Chord { chord: s.to_string() }
}

fn text(s: &str) -> MacroStep {
    MacroStep::Text { text: s.to_string() }
}

fn event(code: KeyCode, value: i32) -> Event {
    Event { kind: 1, code: code.0, value }
}

#[test]
fn parses_modifier_chords() {
    let (mods, key) = parse_chord("ctrl+shift+t").unwrap();
    assert_eq!(mods, codes(&[KeyCode::KEY_LEFTCTRL, KeyCode::KEY_LEFTSHIFT]));
    assert_eq!(key, KeyCode::KEY_T.0);

    let (mods, key) = parse_chord("alt+F4").unwrap();
    assert_eq!(mods, codes(&[KeyCode::KEY_LEFTALT]));
    assert_eq!(key, KeyCode::KEY_F4.0);

    let (mods, key) = parse_chord("super+l").unwrap();
    assert_eq!(mods, codes(&[KeyCode::KEY_LEFTMETA]));
    assert_eq!(key, KeyCode::KEY_L.0);
}

#[test]
fn rejects_unknown_modifier_and_key() {
    assert!(parse_chord("hyper+x").is_err());
    assert!(parse_chord("ctrl+nope").is_err());
    assert!(parse_chord("").is_err());
}

#[test]
fn chord_errors_name_the_part() {
    assert!(matches!(parse_chord(" + "), Err(MacroError::EmptyChord)));
    assert!(matches!(parse_chord("Hyper+x"), Err(MacroError::UnknownModifier(m)) if m == "hyper"));
    assert!(matches!(parse_chord("ctrl+Nope"), Err(MacroError::UnknownKey(k)) if k == "Nope"));
    assert!(matches!(parse_chord("t+t"), Err(MacroError::UnknownModifier(m)) if m == "t"));
}

#[test]
fn modifier_aliases() {
    for (name, code) in [
        ("control", KeyCode::KEY_LEFTCTRL),
        ("OPTION", KeyCode::KEY_LEFTALT),
        ("meta", KeyCode::KEY_LEFTMETA),
        ("win", KeyCode::KEY_LEFTMETA),
        ("cmd", KeyCode::KEY_LEFTMETA),
    ] {
        let (mods, key) = parse_chord(&format!(" {name} + A ")).unwrap();
        assert_eq!(mods, codes(&[code]));
        assert_eq!(key, KeyCode::KEY_A.0);
    }
}

#[test]
fn char_mapping_shift_flags() {
    assert_eq!(key_for_char('a'), Some((KeyCode::KEY_A.0, false)));
    assert_eq!(key_for_char('A'), Some((KeyCode::KEY_A.0, true)));
    assert_eq!(key_for_char('!'), Some((KeyCode::KEY_1.0, true)));
    assert_eq!(key_for_char(':'), Some((KeyCode::KEY_SEMICOLON.0, true)));
    assert_eq!(key_for_char(' '), Some((KeyCode::KEY_SPACE.0, false)));
    assert!(key_for_char('€').is_none());
}

#[test]
fn the_whole_layout() {
    let plain = [
        ('1', KeyCode::KEY_1), ('2', KeyCode::KEY_2), ('3', KeyCode::KEY_3), ('4', KeyCode::KEY_4), ('5', KeyCode::KEY_5),
        ('6', KeyCode::KEY_6), ('7', KeyCode::KEY_7), ('8', KeyCode::KEY_8), ('9', KeyCode::KEY_9), ('0', KeyCode::KEY_0),
        (' ', KeyCode::KEY_SPACE), ('\t', KeyCode::KEY_TAB), ('\n', KeyCode::KEY_ENTER), ('-', KeyCode::KEY_MINUS),
        ('=', KeyCode::KEY_EQUAL), ('[', KeyCode::KEY_LEFTBRACE), (']', KeyCode::KEY_RIGHTBRACE),
        ('\\', KeyCode::KEY_BACKSLASH), (';', KeyCode::KEY_SEMICOLON), ('\'', KeyCode::KEY_APOSTROPHE),
        ('`', KeyCode::KEY_GRAVE), (',', KeyCode::KEY_COMMA), ('.', KeyCode::KEY_DOT), ('/', KeyCode::KEY_SLASH),
    ];
    for (c, k) in plain {
        assert_eq!(key_for_char(c), Some((k.0, false)), "{c:?}");
    }
    let shifted = [
        ('!', KeyCode::KEY_1), ('@', KeyCode::KEY_2), ('#', KeyCode::KEY_3), ('$', KeyCode::KEY_4), ('%', KeyCode::KEY_5),
        ('^', KeyCode::KEY_6), ('&', KeyCode::KEY_7), ('*', KeyCode::KEY_8), ('(', KeyCode::KEY_9), (')', KeyCode::KEY_0),
        ('_', KeyCode::KEY_MINUS), ('+', KeyCode::KEY_EQUAL), ('{', KeyCode::KEY_LEFTBRACE),
        ('}', KeyCode::KEY_RIGHTBRACE), ('|', KeyCode::KEY_BACKSLASH), (':', KeyCode::KEY_SEMICOLON),
        ('"', KeyCode::KEY_APOSTROPHE), ('~', KeyCode::KEY_GRAVE), ('<', KeyCode::KEY_COMMA), ('>', KeyCode::KEY_DOT),
        ('?', KeyCode::KEY_SLASH),
    ];
    for (c, k) in shifted {
        assert_eq!(key_for_char(c), Some((k.0, true)), "{c:?}");
    }
    let letters = [
        KeyCode::KEY_A, KeyCode::KEY_B, KeyCode::KEY_C, KeyCode::KEY_D, KeyCode::KEY_E, KeyCode::KEY_F, KeyCode::KEY_G, KeyCode::KEY_H, KeyCode::KEY_I,
        KeyCode::KEY_J, KeyCode::KEY_K, KeyCode::KEY_L, KeyCode::KEY_M, KeyCode::KEY_N, KeyCode::KEY_O, KeyCode::KEY_P, KeyCode::KEY_Q, KeyCode::KEY_R,
        KeyCode::KEY_S, KeyCode::KEY_T, KeyCode::KEY_U, KeyCode::KEY_V, KeyCode::KEY_W, KeyCode::KEY_X, KeyCode::KEY_Y, KeyCode::KEY_Z,
    ];
    for (c, k) in ('a'..='z').zip(letters) {
        assert_eq!(letter_key(c), k.0);
        assert_eq!(key_for_char(c), Some((k.0, false)));
        assert_eq!(key_for_char(c.to_ascii_uppercase()), Some((k.0, true)));
    }
}

#[test]
fn named_keys() {
    let named = [
        ("Return", KeyCode::KEY_ENTER), ("enter", KeyCode::KEY_ENTER), ("Tab", KeyCode::KEY_TAB),
        ("space", KeyCode::KEY_SPACE), ("ESC", KeyCode::KEY_ESC), ("escape", KeyCode::KEY_ESC),
        ("Backspace", KeyCode::KEY_BACKSPACE), ("del", KeyCode::KEY_DELETE), ("delete", KeyCode::KEY_DELETE),
        ("ins", KeyCode::KEY_INSERT), ("insert", KeyCode::KEY_INSERT), ("home", KeyCode::KEY_HOME),
        ("end", KeyCode::KEY_END), ("pageup", KeyCode::KEY_PAGEUP), ("pgup", KeyCode::KEY_PAGEUP),
        ("PageDown", KeyCode::KEY_PAGEDOWN), ("pgdn", KeyCode::KEY_PAGEDOWN), ("up", KeyCode::KEY_UP),
        ("down", KeyCode::KEY_DOWN), ("left", KeyCode::KEY_LEFT), ("right", KeyCode::KEY_RIGHT), ("f1", KeyCode::KEY_F1),
        ("f2", KeyCode::KEY_F2), ("f3", KeyCode::KEY_F3), ("f4", KeyCode::KEY_F4), ("f5", KeyCode::KEY_F5),
        ("f6", KeyCode::KEY_F6), ("f7", KeyCode::KEY_F7), ("f8", KeyCode::KEY_F8), ("f9", KeyCode::KEY_F9),
        ("f10", KeyCode::KEY_F10), ("f11", KeyCode::KEY_F11), ("F12", KeyCode::KEY_F12),
    ];
    for (name, k) in named {
        assert_eq!(key_by_name(&name.chars().collect()), Some(k.0), "{name}");
        assert!(supported_keys().contains(&k.0));
    }
    assert_eq!(key_by_name(&vec!['!']), Some(KeyCode::KEY_1.0));
    assert_eq!(key_by_name(&Vec::new()), None);
}

#[test]
fn every_supported_key_is_unique() {
    let keys = supported_keys();
    let mut sorted = keys.clone();
    sorted.sort_unstable();
    sorted.dedup();
    assert_eq!(keys.len(), sorted.len(), "supported_keys must be deduped");
    assert_eq!(keys, sorted);
    // Modifiers, the 50 keys of the layout, and the named keys without a character.
    assert_eq!(keys.len(), 4 + 50 + 24);
}

#[test]
fn chords_are_played_as_two_reports() {
    let played = play(&vec![chord("ctrl+t")]);
    assert!(played.error.is_none());
    assert_eq!(played.actions.len(), 4);
    match &played.actions[0] {
        Action::Emit(e) => {
            assert_eq!(e, &vec![event(KeyCode::KEY_LEFTCTRL, 1), event(KeyCode::KEY_T, 1)]);
        }
        Action::Pause => panic!("expected a report"),
    }
    match &played.actions[2] {
        Action::Emit(e) => {
            assert_eq!(e, &vec![event(KeyCode::KEY_T, 0), event(KeyCode::KEY_LEFTCTRL, 0)]);
        }
        Action::Pause => panic!("expected a report"),
    }
    assert!(matches!(played.actions[1], Action::Pause));
    assert!(matches!(played.actions[3], Action::Pause));
}

#[test]
fn text_is_typed_up_to_the_first_unknown_character() {
    let played = play(&vec![text("aB€c"), chord("ctrl+t")]);
    assert!(matches!(played.error, Some(MacroError::NoKey('€'))));
    // Two characters, each pressed, released and paused after.
    assert_eq!(played.actions.len(), 8);
    match &played.actions[4] {
        Action::Emit(e) => {
            assert_eq!(e, &vec![event(KeyCode::KEY_LEFTSHIFT, 1), event(KeyCode::KEY_B, 1)]);
        }
        Action::Pause => panic!("expected a report"),
    }
}

#[test]
fn typed_text_reads_back_and_releases_every_key() {
    let played = play(&vec![text("Hello, World!\n"), chord("shift+F1")]);
    assert!(played.error.is_none());
    let supported = supported_keys();
    let mut down: Vec<u16> = Vec::new();
    let mut typed = String::new();
    for action in &played.actions {
        if let Action::Emit(events) = action {
            for e in events {
                assert!(supported.contains(&e.code));
                if e.value == 1 {
                    let shift = down.contains(&KeyCode::KEY_LEFTSHIFT.0);
                    for c in (0u8..128).map(|b| b as char) {
                        if key_for_char(c) == Some((e.code, shift)) {
                            typed.push(c);
                        }
                    }
                    down.push(e.code);
                } else {
                    down.retain(|k| *k != e.code);
                }
            }
        }
    }
    assert_eq!(typed, "Hello, World!\n");
    assert!(down.is_empty());
}
