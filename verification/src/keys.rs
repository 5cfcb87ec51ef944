//! Keyboard macros: the meaning of chords and of literal text as key reports of a
//! virtual keyboard.
//!
//! A macro is an ordered sequence of chords (modifier+key, e.g. `ctrl+shift+t`)
//! and literal text (e.g. `chicken`). Characters are mapped with a fixed US
//! QWERTY layout; the active layout is applied downstream by the compositor.
//!
//! Keys are Linux key codes.

use vstd::prelude::*;

use crate::config::MacroStep;
use crate::text;

verus! {

/// The delay between a key press and its release, and between steps, in
/// milliseconds.
pub const KEY_DELAY_MS: u64 = 8;

pub const KEY_ESC: u16 = 1;

pub const KEY_1: u16 = 2;

pub const KEY_2: u16 = 3;

pub const KEY_3: u16 = 4;

pub const KEY_4: u16 = 5;

pub const KEY_5: u16 = 6;

pub const KEY_6: u16 = 7;

pub const KEY_7: u16 = 8;

pub const KEY_8: u16 = 9;

pub const KEY_9: u16 = 10;

pub const KEY_0: u16 = 11;

pub const KEY_MINUS: u16 = 12;

pub const KEY_EQUAL: u16 = 13;

pub const KEY_BACKSPACE: u16 = 14;

pub const KEY_TAB: u16 = 15;

pub const KEY_Q: u16 = 16;

pub const KEY_W: u16 = 17;

pub const KEY_E: u16 = 18;

pub const KEY_R: u16 = 19;

pub const KEY_T: u16 = 20;

pub const KEY_Y: u16 = 21;

pub const KEY_U: u16 = 22;

pub const KEY_I: u16 = 23;

pub const KEY_O: u16 = 24;

pub const KEY_P: u16 = 25;

pub const KEY_LEFTBRACE: u16 = 26;

pub const KEY_RIGHTBRACE: u16 = 27;

pub const KEY_ENTER: u16 = 28;

pub const KEY_LEFTCTRL: u16 = 29;

pub const KEY_A: u16 = 30;

pub const KEY_S: u16 = 31;

pub const KEY_D: u16 = 32;

pub const KEY_F: u16 = 33;

pub const KEY_G: u16 = 34;

pub const KEY_H: u16 = 35;

pub const KEY_J: u16 = 36;

pub const KEY_K: u16 = 37;

pub const KEY_L: u16 = 38;

pub const KEY_SEMICOLON: u16 = 39;

pub const KEY_APOSTROPHE: u16 = 40;

pub const KEY_GRAVE: u16 = 41;

pub const KEY_LEFTSHIFT: u16 = 42;

pub const KEY_BACKSLASH: u16 = 43;

pub const KEY_Z: u16 = 44;

pub const KEY_X: u16 = 45;

pub const KEY_C: u16 = 46;

pub const KEY_V: u16 = 47;

pub const KEY_B: u16 = 48;

pub const KEY_N: u16 = 49;

pub const KEY_M: u16 = 50;

pub const KEY_COMMA: u16 = 51;

pub const KEY_DOT: u16 = 52;

pub const KEY_SLASH: u16 = 53;

pub const KEY_LEFTALT: u16 = 56;

pub const KEY_SPACE: u16 = 57;

pub const KEY_F1: u16 = 59;

pub const KEY_F2: u16 = 60;

pub const KEY_F3: u16 = 61;

pub const KEY_F4: u16 = 62;

pub const KEY_F5: u16 = 63;

pub const KEY_F6: u16 = 64;

pub const KEY_F7: u16 = 65;

pub const KEY_F8: u16 = 66;

pub const KEY_F9: u16 = 67;

pub const KEY_F10: u16 = 68;

pub const KEY_F11: u16 = 87;

pub const KEY_F12: u16 = 88;

pub const KEY_HOME: u16 = 102;

pub const KEY_UP: u16 = 103;

pub const KEY_PAGEUP: u16 = 104;

pub const KEY_LEFT: u16 = 105;

pub const KEY_RIGHT: u16 = 106;

pub const KEY_END: u16 = 107;

pub const KEY_DOWN: u16 = 108;

pub const KEY_PAGEDOWN: u16 = 109;

pub const KEY_INSERT: u16 = 110;

pub const KEY_DELETE: u16 = 111;

pub const KEY_LEFTMETA: u16 = 125;

// --- The layout ------------------------------------------------------------

/// What a key types by itself.
pub open spec fn plain(code: u16) -> Option<char> {
    if code == KEY_1 {
        Some('1')
    } else if code == KEY_2 {
        Some('2')
    } else if code == KEY_3 {
        Some('3')
    } else if code == KEY_4 {
        Some('4')
    } else if code == KEY_5 {
        Some('5')
    } else if code == KEY_6 {
        Some('6')
    } else if code == KEY_7 {
        Some('7')
    } else if code == KEY_8 {
        Some('8')
    } else if code == KEY_9 {
        Some('9')
    } else if code == KEY_0 {
        Some('0')
    } else if code == KEY_MINUS {
        Some('-')
    } else if code == KEY_EQUAL {
        Some('=')
    } else if code == KEY_Q {
        Some('q')
    } else if code == KEY_W {
        Some('w')
    } else if code == KEY_E {
        Some('e')
    } else if code == KEY_R {
        Some('r')
    } else if code == KEY_T {
        Some('t')
    } else if code == KEY_Y {
        Some('y')
    } else if code == KEY_U {
        Some('u')
    } else if code == KEY_I {
        Some('i')
    } else if code == KEY_O {
        Some('o')
    } else if code == KEY_P {
        Some('p')
    } else if code == KEY_LEFTBRACE {
        Some('[')
    } else if code == KEY_RIGHTBRACE {
        Some(']')
    } else if code == KEY_A {
        Some('a')
    } else if code == KEY_S {
        Some('s')
    } else if code == KEY_D {
        Some('d')
    } else if code == KEY_F {
        Some('f')
    } else if code == KEY_G {
        Some('g')
    } else if code == KEY_H {
        Some('h')
    } else if code == KEY_J {
        Some('j')
    } else if code == KEY_K {
        Some('k')
    } else if code == KEY_L {
        Some('l')
    } else if code == KEY_SEMICOLON {
        Some(';')
    } else if code == KEY_APOSTROPHE {
        Some('\'')
    } else if code == KEY_GRAVE {
        Some('`')
    } else if code == KEY_BACKSLASH {
        Some('\\')
    } else if code == KEY_Z {
        Some('z')
    } else if code == KEY_X {
        Some('x')
    } else if code == KEY_C {
        Some('c')
    } else if code == KEY_V {
        Some('v')
    } else if code == KEY_B {
        Some('b')
    } else if code == KEY_N {
        Some('n')
    } else if code == KEY_M {
        Some('m')
    } else if code == KEY_COMMA {
        Some(',')
    } else if code == KEY_DOT {
        Some('.')
    } else if code == KEY_SLASH {
        Some('/')
    } else if code == KEY_SPACE {
        Some(' ')
    } else if code == KEY_TAB {
        Some('\t')
    } else if code == KEY_ENTER {
        Some('\n')
    } else {
        None
    }
}

/// What a key types together with shift.
pub open spec fn shifted(code: u16) -> Option<char> {
    if code == KEY_1 {
        Some('!')
    } else if code == KEY_2 {
        Some('@')
    } else if code == KEY_3 {
        Some('#')
    } else if code == KEY_4 {
        Some('$')
    } else if code == KEY_5 {
        Some('%')
    } else if code == KEY_6 {
        Some('^')
    } else if code == KEY_7 {
        Some('&')
    } else if code == KEY_8 {
        Some('*')
    } else if code == KEY_9 {
        Some('(')
    } else if code == KEY_0 {
        Some(')')
    } else if code == KEY_MINUS {
        Some('_')
    } else if code == KEY_EQUAL {
        Some('+')
    } else if code == KEY_Q {
        Some('Q')
    } else if code == KEY_W {
        Some('W')
    } else if code == KEY_E {
        Some('E')
    } else if code == KEY_R {
        Some('R')
    } else if code == KEY_T {
        Some('T')
    } else if code == KEY_Y {
        Some('Y')
    } else if code == KEY_U {
        Some('U')
    } else if code == KEY_I {
        Some('I')
    } else if code == KEY_O {
        Some('O')
    } else if code == KEY_P {
        Some('P')
    } else if code == KEY_LEFTBRACE {
        Some('{')
    } else if code == KEY_RIGHTBRACE {
        Some('}')
    } else if code == KEY_A {
        Some('A')
    } else if code == KEY_S {
        Some('S')
    } else if code == KEY_D {
        Some('D')
    } else if code == KEY_F {
        Some('F')
    } else if code == KEY_G {
        Some('G')
    } else if code == KEY_H {
        Some('H')
    } else if code == KEY_J {
        Some('J')
    } else if code == KEY_K {
        Some('K')
    } else if code == KEY_L {
        Some('L')
    } else if code == KEY_SEMICOLON {
        Some(':')
    } else if code == KEY_APOSTROPHE {
        Some('"')
    } else if code == KEY_GRAVE {
        Some('~')
    } else if code == KEY_BACKSLASH {
        Some('|')
    } else if code == KEY_Z {
        Some('Z')
    } else if code == KEY_X {
        Some('X')
    } else if code == KEY_C {
        Some('C')
    } else if code == KEY_V {
        Some('V')
    } else if code == KEY_B {
        Some('B')
    } else if code == KEY_N {
        Some('N')
    } else if code == KEY_M {
        Some('M')
    } else if code == KEY_COMMA {
        Some('<')
    } else if code == KEY_DOT {
        Some('>')
    } else if code == KEY_SLASH {
        Some('?')
    } else {
        None
    }
}

/// What a key types on the US layout.
pub open spec fn types(code: u16, shift: bool) -> Option<char> {
    if shift {
        shifted(code)
    } else {
        plain(code)
    }
}

/// The key that types a character, and whether it takes shift.
pub open spec fn key_of(c: char) -> Option<(u16, bool)> {
    if exists|code: u16, shift: bool| types(code, shift) == Some(c) {
        Some(choose|k: (u16, bool)| #[trigger] types(k.0, k.1) == Some(c))
    } else {
        None
    }
}

/// No character is typed in two ways.
pub proof fn one_key_per_character(a: u16, a_shift: bool, b: u16, b_shift: bool)
    requires
        types(a, a_shift) is Some,
        types(a, a_shift) == types(b, b_shift),
    ensures
        a == b,
        a_shift == b_shift,
{
}

/// The key of a character types that character.
pub proof fn key_types_its_character(c: char)
    ensures
        match key_of(c) {
            Some((code, shift)) => types(code, shift) == Some(c),
            None => true,
        },
{
    if key_of(c) is Some {
        let (code, shift) = choose|code: u16, shift: bool| types(code, shift) == Some(c);
        let k = (code, shift);
        assert(types(k.0, k.1) == Some(c));
    }
}

/// The key of a lowercase ASCII letter.
pub fn letter_key(c: char) -> (r: u16)
    requires
        'a' <= c <= 'z',
    ensures
        types(r, false) == Some(c),
{
    match c {
        'a' => KEY_A,
        'b' => KEY_B,
        'c' => KEY_C,
        'd' => KEY_D,
        'e' => KEY_E,
        'f' => KEY_F,
        'g' => KEY_G,
        'h' => KEY_H,
        'i' => KEY_I,
        'j' => KEY_J,
        'k' => KEY_K,
        'l' => KEY_L,
        'm' => KEY_M,
        'n' => KEY_N,
        'o' => KEY_O,
        'p' => KEY_P,
        'q' => KEY_Q,
        'r' => KEY_R,
        's' => KEY_S,
        't' => KEY_T,
        'u' => KEY_U,
        'v' => KEY_V,
        'w' => KEY_W,
        'x' => KEY_X,
        'y' => KEY_Y,
        'z' => KEY_Z,
        _ => {
            assert(false);
            0
        },
    }
}

/// US-QWERTY character → (key code, needs shift).
pub fn key_for_char(c: char) -> (r: Option<(u16, bool)>)
    ensures
        r == key_of(c),
        match r {
            Some((code, shift)) => types(code, shift) == Some(c),
            None => forall|code: u16, shift: bool| types(code, shift) != Some(c),
        },
{
    let mapping: (u16, bool) = match c {
        'a'..='z' => (letter_key(c), false),
        'A'..='Z' => {
            let small = text::lower_char(c);
            (letter_key(small), true)
        },
        '1' => (KEY_1, false),
        '!' => (KEY_1, true),
        '2' => (KEY_2, false),
        '@' => (KEY_2, true),
        '3' => (KEY_3, false),
        '#' => (KEY_3, true),
        '4' => (KEY_4, false),
        '$' => (KEY_4, true),
        '5' => (KEY_5, false),
        '%' => (KEY_5, true),
        '6' => (KEY_6, false),
        '^' => (KEY_6, true),
        '7' => (KEY_7, false),
        '&' => (KEY_7, true),
        '8' => (KEY_8, false),
        '*' => (KEY_8, true),
        '9' => (KEY_9, false),
        '(' => (KEY_9, true),
        '0' => (KEY_0, false),
        ')' => (KEY_0, true),
        '-' => (KEY_MINUS, false),
        '_' => (KEY_MINUS, true),
        '=' => (KEY_EQUAL, false),
        '+' => (KEY_EQUAL, true),
        '[' => (KEY_LEFTBRACE, false),
        '{' => (KEY_LEFTBRACE, true),
        ']' => (KEY_RIGHTBRACE, false),
        '}' => (KEY_RIGHTBRACE, true),
        ';' => (KEY_SEMICOLON, false),
        ':' => (KEY_SEMICOLON, true),
        '\'' => (KEY_APOSTROPHE, false),
        '"' => (KEY_APOSTROPHE, true),
        '`' => (KEY_GRAVE, false),
        '~' => (KEY_GRAVE, true),
        '\\' => (KEY_BACKSLASH, false),
        '|' => (KEY_BACKSLASH, true),
        ',' => (KEY_COMMA, false),
        '<' => (KEY_COMMA, true),
        '.' => (KEY_DOT, false),
        '>' => (KEY_DOT, true),
        '/' => (KEY_SLASH, false),
        '?' => (KEY_SLASH, true),
        ' ' => (KEY_SPACE, false),
        '\t' => (KEY_TAB, false),
        '\n' => (KEY_ENTER, false),
        _ => {
            assert(forall|code: u16, shift: bool| types(code, shift) != Some(c));
            return None;
        },
    };
    assert(types(mapping.0, mapping.1) == Some(c));
    proof {
        let k = choose|k: (u16, bool)| #[trigger] types(k.0, k.1) == Some(c);
        one_key_per_character(k.0, k.1, mapping.0, mapping.1);
    }
    Some(mapping)
}

// --- Names -----------------------------------------------------------------

/// The key with a (lowercase) name.
pub open spec fn named(name: Seq<char>) -> Option<u16> {
    if name == "enter"@ || name == "return"@ {
        Some(KEY_ENTER)
    } else if name == "tab"@ {
        Some(KEY_TAB)
    } else if name == "space"@ {
        Some(KEY_SPACE)
    } else if name == "esc"@ || name == "escape"@ {
        Some(KEY_ESC)
    } else if name == "backspace"@ {
        Some(KEY_BACKSPACE)
    } else if name == "delete"@ || name == "del"@ {
        Some(KEY_DELETE)
    } else if name == "insert"@ || name == "ins"@ {
        Some(KEY_INSERT)
    } else if name == "home"@ {
        Some(KEY_HOME)
    } else if name == "end"@ {
        Some(KEY_END)
    } else if name == "pageup"@ || name == "pgup"@ {
        Some(KEY_PAGEUP)
    } else if name == "pagedown"@ || name == "pgdn"@ {
        Some(KEY_PAGEDOWN)
    } else if name == "up"@ {
        Some(KEY_UP)
    } else if name == "down"@ {
        Some(KEY_DOWN)
    } else if name == "left"@ {
        Some(KEY_LEFT)
    } else if name == "right"@ {
        Some(KEY_RIGHT)
    } else if name == "f1"@ {
        Some(KEY_F1)
    } else if name == "f2"@ {
        Some(KEY_F2)
    } else if name == "f3"@ {
        Some(KEY_F3)
    } else if name == "f4"@ {
        Some(KEY_F4)
    } else if name == "f5"@ {
        Some(KEY_F5)
    } else if name == "f6"@ {
        Some(KEY_F6)
    } else if name == "f7"@ {
        Some(KEY_F7)
    } else if name == "f8"@ {
        Some(KEY_F8)
    } else if name == "f9"@ {
        Some(KEY_F9)
    } else if name == "f10"@ {
        Some(KEY_F10)
    } else if name == "f11"@ {
        Some(KEY_F11)
    } else if name == "f12"@ {
        Some(KEY_F12)
    } else {
        None
    }
}

/// The key with a (lowercase) name.
fn named_key(name: &Vec<char>) -> (r: Option<u16>)
    ensures
        r == named(name@),
{
    if text::same(name, "enter") || text::same(name, "return") {
        Some(KEY_ENTER)
    } else if text::same(name, "tab") {
        Some(KEY_TAB)
    } else if text::same(name, "space") {
        Some(KEY_SPACE)
    } else if text::same(name, "esc") || text::same(name, "escape") {
        Some(KEY_ESC)
    } else if text::same(name, "backspace") {
        Some(KEY_BACKSPACE)
    } else if text::same(name, "delete") || text::same(name, "del") {
        Some(KEY_DELETE)
    } else if text::same(name, "insert") || text::same(name, "ins") {
        Some(KEY_INSERT)
    } else if text::same(name, "home") {
        Some(KEY_HOME)
    } else if text::same(name, "end") {
        Some(KEY_END)
    } else if text::same(name, "pageup") || text::same(name, "pgup") {
        Some(KEY_PAGEUP)
    } else if text::same(name, "pagedown") || text::same(name, "pgdn") {
        Some(KEY_PAGEDOWN)
    } else if text::same(name, "up") {
        Some(KEY_UP)
    } else if text::same(name, "down") {
        Some(KEY_DOWN)
    } else if text::same(name, "left") {
        Some(KEY_LEFT)
    } else if text::same(name, "right") {
        Some(KEY_RIGHT)
    } else if text::same(name, "f1") {
        Some(KEY_F1)
    } else if text::same(name, "f2") {
        Some(KEY_F2)
    } else if text::same(name, "f3") {
        Some(KEY_F3)
    } else if text::same(name, "f4") {
        Some(KEY_F4)
    } else if text::same(name, "f5") {
        Some(KEY_F5)
    } else if text::same(name, "f6") {
        Some(KEY_F6)
    } else if text::same(name, "f7") {
        Some(KEY_F7)
    } else if text::same(name, "f8") {
        Some(KEY_F8)
    } else if text::same(name, "f9") {
        Some(KEY_F9)
    } else if text::same(name, "f10") {
        Some(KEY_F10)
    } else if text::same(name, "f11") {
        Some(KEY_F11)
    } else if text::same(name, "f12") {
        Some(KEY_F12)
    } else {
        None
    }
}

/// The key that a chord's last part means: that of a single character, where the
/// layout has it, else the one with that name, whatever its case.
pub open spec fn key_named(name: Seq<char>) -> Option<u16> {
    match key_of(name[0]) {
        Some((code, _)) if name.len() == 1 => Some(code),
        _ => named(text::lowered(name)),
    }
}

/// Resolve a key name (named key or single character) to a key code. Used for a
/// chord's main key, where shift is expressed as an explicit modifier.
pub fn key_by_name(name: &Vec<char>) -> (r: Option<u16>)
    ensures
        r == key_named(name@),
{
    if name.len() == 1 {
        if let Some((key, _shift)) = key_for_char(name[0]) {
            return Some(key);
        }
    }
    let name = text::to_lower(name);
    named_key(&name)
}

/// The modifier with a (lowercase) name.
pub open spec fn modifier(name: Seq<char>) -> Option<u16> {
    if name == "ctrl"@ || name == "control"@ {
        Some(KEY_LEFTCTRL)
    } else if name == "shift"@ {
        Some(KEY_LEFTSHIFT)
    } else if name == "alt"@ || name == "option"@ {
        Some(KEY_LEFTALT)
    } else if name == "super"@ || name == "meta"@ || name == "win"@ || name == "cmd"@ {
        Some(KEY_LEFTMETA)
    } else {
        None
    }
}

/// The modifier with a (lowercase) name.
fn modifier_key(name: &Vec<char>) -> (r: Option<u16>)
    ensures
        r == modifier(name@),
{
    if text::same(name, "ctrl") || text::same(name, "control") {
        Some(KEY_LEFTCTRL)
    } else if text::same(name, "shift") {
        Some(KEY_LEFTSHIFT)
    } else if text::same(name, "alt") || text::same(name, "option") {
        Some(KEY_LEFTALT)
    } else if text::same(name, "super") || text::same(name, "meta") || text::same(name, "win") || text::same(name, "cmd") {
        Some(KEY_LEFTMETA)
    } else {
        None
    }
}

// --- Chords ----------------------------------------------------------------

/// Why a macro cannot be played on.
#[derive(Debug, Clone)]
pub enum MacroError {
    /// A chord names no key.
    EmptyChord,
    /// A part of a chord before its last is no modifier (lowercase).
    UnknownModifier(String),
    /// The last part of a chord is no key.
    UnknownKey(String),
    /// A character of a text has no key on the US layout.
    NoKey(char),
}

/// What is wrong with a macro, as a value.
pub enum Fault {
    EmptyChord,
    UnknownModifier(Seq<char>),
    UnknownKey(Seq<char>),
    NoKey(char),
}

impl View for MacroError {
    type V = Fault;

    open spec fn view(&self) -> Fault {
        match self {
            MacroError::EmptyChord => Fault::EmptyChord,
            MacroError::UnknownModifier(name) => Fault::UnknownModifier(name@),
            MacroError::UnknownKey(name) => Fault::UnknownKey(name@),
            MacroError::NoKey(c) => Fault::NoKey(*c),
        }
    }
}

/// The parts of a chord: what stands between the plus signs, trimmed, without
/// the empty ones.
pub open spec fn chord_parts(chord: Seq<char>) -> Seq<Seq<char>> {
    text::kept(text::split_on(chord, '+').map_values(|p: Seq<char>| text::trimmed(p)))
}

/// The modifiers that the parts name, or the first that names none.
pub open spec fn modifiers(parts: Seq<Seq<char>>) -> Result<Seq<u16>, Seq<char>>
    decreases parts.len(),
{
    if parts.len() == 0 {
        Ok(Seq::empty())
    } else {
        let name = text::lowered(parts[0]);
        match modifier(name) {
            Some(code) => match modifiers(parts.drop_first()) {
                Ok(rest) => Ok(seq![code] + rest),
                Err(e) => Err(e),
            },
            None => Err(name),
        }
    }
}

/// What a chord means: its modifiers and its main key.
pub open spec fn read_chord(chord: Seq<char>) -> Result<(Seq<u16>, u16), Fault> {
    let parts = chord_parts(chord);
    if parts.len() == 0 {
        Err(Fault::EmptyChord)
    } else {
        match modifiers(parts.drop_last()) {
            Err(name) => Err(Fault::UnknownModifier(name)),
            Ok(mods) => match key_named(parts.last()) {
                None => Err(Fault::UnknownKey(parts.last())),
                Some(key) => Ok((mods, key)),
            },
        }
    }
}

/// The parts of a chord.
fn split_chord(chord: &str) -> (r: Vec<Vec<char>>)
    ensures
        text::chars_views(r@) == chord_parts(chord@),
{
    let pieces = text::split(&text::chars(chord), '+');
    let ghost all = text::chars_views(pieces@).map_values(|p: Seq<char>| text::trimmed(p));
    let mut out: Vec<Vec<char>> = Vec::new();
    let mut i: usize = 0;
    proof {
        reveal(Seq::filter);
        assert(all.take(0) =~= Seq::<Seq<char>>::empty());
        assert(text::chars_views(out@) =~= text::kept(all.take(0)));
    }
    while i < pieces.len()
        invariant
            all == text::chars_views(pieces@).map_values(|p: Seq<char>| text::trimmed(p)),
            i <= pieces.len(),
            text::chars_views(out@) == text::kept(all.take(i as int)),
        decreases pieces.len() - i,
    {
        let ghost before = out@;
        let piece = text::trim(&pieces[i]);
        proof {
            assert(all[i as int] == piece@);
            assert(all.take(i + 1) =~= all.take(i as int).push(piece@));
            text::kept_push(all.take(i as int), piece@);
        }
        if piece.len() > 0 {
            out.push(piece);
            assert(text::chars_views(out@) =~= text::chars_views(before).push(piece@));
        }
        i = i + 1;
    }
    assert(all.take(all.len() as int) =~= all);
    out
}

/// Parse a chord like `ctrl+shift+t` or `alt+F4` into (modifiers, main key).
/// Modifier aliases: ctrl/control, shift, alt/option, super/meta/win/cmd.
pub fn parse_chord(chord: &str) -> (r: Result<(Vec<u16>, u16), MacroError>)
    ensures
        match r {
            Ok((mods, key)) => read_chord(chord@) == Ok::<_, Fault>((mods@, key)),
            Err(e) => read_chord(chord@) == Err::<(Seq<u16>, u16), _>(e@),
        },
{
    let parts = split_chord(chord);
    let ghost all = text::chars_views(parts@);
    if parts.len() == 0 {
        return Err(MacroError::EmptyChord);
    }
    let last: usize = parts.len() - 1;
    let ghost names = all.drop_last();
    let mut mods: Vec<u16> = Vec::new();
    let mut i: usize = 0;
    assert(names.skip(0) =~= names);
    while i < last
        invariant
            all == text::chars_views(parts@),
            all == chord_parts(chord@),
            names == all.drop_last(),
            last == parts.len() - 1,
            i <= last,
            match modifiers(names.skip(i as int)) {
                Ok(rest) => modifiers(names) == Ok::<Seq<u16>, Seq<char>>(mods@ + rest),
                Err(e) => modifiers(names) == Err::<Seq<u16>, Seq<char>>(e),
            },
        decreases last - i,
    {
        let ghost before = mods@;
        assert(names.skip(i as int)[0] == parts@[i as int]@);
        assert(names.skip(i as int).drop_first() =~= names.skip(i + 1));
        let name = text::to_lower(&parts[i]);
        match modifier_key(&name) {
            Some(code) => {
                mods.push(code);
                proof {
                    if let Ok(rest) = modifiers(names.skip(i + 1)) {
                        assert(before + (seq![code] + rest) =~= mods@ + rest);
                    }
                }
            },
            None => return Err(MacroError::UnknownModifier(text::string(&name))),
        }
        i = i + 1;
    }
    assert(names.skip(last as int) =~= Seq::<Seq<char>>::empty());
    assert(mods@ + Seq::<u16>::empty() =~= mods@);
    assert(all.last() == parts@[last as int]@);
    match key_by_name(&parts[last]) {
        Some(key) => Ok((mods, key)),
        None => Err(MacroError::UnknownKey(text::string(&parts[last]))),
    }
}

// --- Reports ---------------------------------------------------------------

/// A raw input event.
#[derive(Debug, Clone, Copy, PartialEq, Eq, Structural)]
pub struct Event {
    pub kind: u16,
    pub code: u16,
    pub value: i32,
}

/// The press of a key.
pub open spec fn press(code: u16) -> Event {
    Event { kind: 1, code, value: 1 }
}

/// The release of a key.
pub open spec fn release(code: u16) -> Event {
    Event { kind: 1, code, value: 0 }
}

/// `evdev::KeyEvent::new` gives the event of the key type (1) with the code and
/// the value that it is given. Its time, which is zero, is not carried over.
#[verifier::external_body]
fn key_event(code: u16, value: i32) -> (r: Event)
    ensures
        r == (Event { kind: 1, code, value }),
{
    let event = *evdev::KeyEvent::new(evdev::KeyCode(code), value);
    Event { kind: event.event_type().0, code: event.code(), value: event.value() }
}

/// What is done to the keyboard, as values.
pub enum Act {
    Emit(Seq<Event>),
    Pause,
}

/// A thing to do to the keyboard.
#[derive(Debug, Clone)]
pub enum Action {
    /// Emit the events as one atomic report.
    Emit(Vec<Event>),
    /// Wait for the key delay.
    Pause,
}

impl View for Action {
    type V = Act;

    open spec fn view(&self) -> Act {
        match self {
            Action::Emit(events) => Act::Emit(events@),
            Action::Pause => Act::Pause,
        }
    }
}

/// The actions as values.
pub open spec fn acts(actions: Seq<Action>) -> Seq<Act> {
    actions.map_values(|a: Action| a@)
}

/// The presses of the keys, in order.
pub open spec fn presses(keys: Seq<u16>) -> Seq<Event> {
    keys.map_values(|k: u16| press(k))
}

/// The releases of the keys, in order.
pub open spec fn releases(keys: Seq<u16>) -> Seq<Event> {
    keys.map_values(|k: u16| release(k))
}

/// The presses of the modifiers and the key.
pub open spec fn down(mods: Seq<u16>, key: u16) -> Seq<Event> {
    presses(mods).push(press(key))
}

/// The releases, in reverse.
pub open spec fn up(mods: Seq<u16>, key: u16) -> Seq<Event> {
    seq![release(key)] + releases(mods.reverse())
}

/// A stroke: hold the modifiers and the key, then release in reverse.
pub open spec fn stroke(mods: Seq<u16>, key: u16) -> Seq<Act> {
    seq![Act::Emit(down(mods, key)), Act::Pause, Act::Emit(up(mods, key))]
}

/// The actions that play a stroke.
fn play_stroke(out: &mut Vec<Action>, mods: &Vec<u16>, key: u16)
    ensures
        acts(final(out)@) == acts(old(out)@) + stroke(mods@, key),
{
    let mut pressed: Vec<Event> = Vec::new();
    let mut i: usize = 0;
    while i < mods.len()
        invariant
            i <= mods.len(),
            pressed@ == presses(mods@.take(i as int)),
        decreases mods.len() - i,
    {
        pressed.push(key_event(mods[i], 1));
        i = i + 1;
        assert(pressed@ =~= presses(mods@.take(i as int)));
    }
    assert(mods@.take(mods@.len() as int) =~= mods@);
    pressed.push(key_event(key, 1));
    assert(pressed@ =~= down(mods@, key));
    let mut released: Vec<Event> = Vec::new();
    released.push(key_event(key, 0));
    let mut i: usize = mods.len();
    assert(released@ =~= seq![release(key)] + releases(mods@.reverse().take(0)));
    while i > 0
        invariant
            i <= mods.len(),
            released@ == seq![release(key)] + releases(mods@.reverse().take(mods.len() - i)),
        decreases i,
    {
        i = i - 1;
        released.push(key_event(mods[i], 0));
        assert(released@ =~= seq![release(key)] + releases(mods@.reverse().take(
            mods.len() - i,
        )));
    }
    assert(mods@.reverse().take(mods@.len() as int) =~= mods@.reverse());
    assert(released@ =~= up(mods@, key));
    out.push(Action::Emit(pressed));
    out.push(Action::Pause);
    out.push(Action::Emit(released));
    assert(acts(out@) =~= acts(old(out)@) + stroke(mods@, key));
}

/// The modifiers with which a character is typed.
pub open spec fn shift_keys(shift: bool) -> Seq<u16> {
    if shift {
        seq![KEY_LEFTSHIFT]
    } else {
        Seq::empty()
    }
}

/// The actions that type a text, up to the first character without a key.
pub open spec fn text_acts(s: Seq<char>) -> Seq<Act>
    decreases s.len(),
{
    if s.len() == 0 {
        Seq::empty()
    } else {
        match key_of(s[0]) {
            Some((code, shift)) => stroke(shift_keys(shift), code) + seq![Act::Pause] + text_acts(
                s.drop_first(),
            ),
            None => Seq::empty(),
        }
    }
}

/// The first character of a text without a key.
pub open spec fn text_stop(s: Seq<char>) -> Option<char>
    decreases s.len(),
{
    if s.len() == 0 {
        None
    } else if key_of(s[0]) is None {
        Some(s[0])
    } else {
        text_stop(s.drop_first())
    }
}

/// Type literal text, one character at a time (with shift where needed).
fn type_text(out: &mut Vec<Action>, s: &str) -> (r: Option<char>)
    ensures
        acts(final(out)@) == acts(old(out)@) + text_acts(s@),
        r == text_stop(s@),
{
    let v = text::chars(s);
    let mut i: usize = 0;
    assert(v@.skip(0) =~= s@);
    assert(acts(out@) + text_acts(s@) == acts(old(out)@) + text_acts(s@));
    while i < v.len()
        invariant
            v@ == s@,
            i <= v.len(),
            acts(out@) + text_acts(v@.skip(i as int)) == acts(old(out)@) + text_acts(s@),
            text_stop(v@.skip(i as int)) == text_stop(s@),
        decreases v.len() - i,
    {
        let ghost before = acts(out@);
        assert(v@.skip(i as int).drop_first() =~= v@.skip(i + 1));
        match key_for_char(v[i]) {
            Some((key, shift)) => {
                let mut mods: Vec<u16> = Vec::new();
                if shift {
                    mods.push(KEY_LEFTSHIFT);
                }
                assert(mods@ =~= shift_keys(shift));
                play_stroke(out, &mods, key);
                let ghost struck = acts(out@);
                out.push(Action::Pause);
                assert(acts(out@) =~= struck.push(Act::Pause));
                assert(acts(out@) + text_acts(v@.skip(i + 1)) =~= before + (stroke(
                    shift_keys(shift),
                    key,
                ) + seq![Act::Pause] + text_acts(v@.skip(i + 1))));
            },
            None => {
                assert(before + Seq::<Act>::empty() =~= before);
                return Some(v[i]);
            },
        }
        i = i + 1;
    }
    assert(acts(out@) + text_acts(v@.skip(i as int)) =~= acts(out@));
    None
}

/// The actions of one step, up to what fails in it.
pub open spec fn step_acts(step: MacroStep) -> Seq<Act> {
    match step {
        MacroStep::Chord { chord } => match read_chord(chord@) {
            Ok((mods, key)) => stroke(mods, key).push(Act::Pause),
            Err(_) => Seq::empty(),
        },
        MacroStep::Text { text } => if text_stop(text@) is None {
            text_acts(text@).push(Act::Pause)
        } else {
            text_acts(text@)
        },
    }
}

/// What fails in one step.
pub open spec fn step_fault(step: MacroStep) -> Option<Fault> {
    match step {
        MacroStep::Chord { chord } => match read_chord(chord@) {
            Ok(_) => None,
            Err(e) => Some(e),
        },
        MacroStep::Text { text } => match text_stop(text@) {
            None => None,
            Some(c) => Some(Fault::NoKey(c)),
        },
    }
}

/// The actions of a macro: those of its steps, up to the first that fails.
pub open spec fn macro_acts(steps: Seq<MacroStep>) -> Seq<Act>
    decreases steps.len(),
{
    if steps.len() == 0 {
        Seq::empty()
    } else if step_fault(steps[0]) is Some {
        step_acts(steps[0])
    } else {
        step_acts(steps[0]) + macro_acts(steps.drop_first())
    }
}

/// What fails in a macro.
pub open spec fn macro_fault(steps: Seq<MacroStep>) -> Option<Fault>
    decreases steps.len(),
{
    if steps.len() == 0 {
        None
    } else if step_fault(steps[0]) is Some {
        step_fault(steps[0])
    } else {
        macro_fault(steps.drop_first())
    }
}

/// What playing a macro amounts to: the actions to carry out in order, and the
/// error that playing ends with once they are.
#[derive(Debug, Clone)]
pub struct Playback {
    pub actions: Vec<Action>,
    pub error: Option<MacroError>,
}

/// The actions of one step.
fn play_step(out: &mut Vec<Action>, step: &MacroStep) -> (r: Option<MacroError>)
    ensures
        acts(final(out)@) == acts(old(out)@) + step_acts(*step),
        match r {
            Some(e) => step_fault(*step) == Some(e@),
            None => step_fault(*step) is None,
        },
{
    match step {
        MacroStep::Chord { chord } => match parse_chord(chord.as_str()) {
            Ok((mods, key)) => {
                play_stroke(out, &mods, key);
            },
            Err(e) => {
                assert(acts(out@) + Seq::<Act>::empty() =~= acts(out@));
                return Some(e);
            },
        },
        MacroStep::Text { text } => {
            if let Some(c) = type_text(out, text.as_str()) {
                return Some(MacroError::NoKey(c));
            }
        },
    }
    let ghost played = acts(out@);
    out.push(Action::Pause);
    assert(acts(out@) =~= played.push(Act::Pause));
    assert(acts(out@) =~= acts(old(out)@) + step_acts(*step));
    None
}

/// Play a macro: each step is a chord or a run of literal text.
pub fn play(steps: &Vec<MacroStep>) -> (r: Playback)
    ensures
        acts(r.actions@) == macro_acts(steps@),
        match r.error {
            Some(e) => macro_fault(steps@) == Some(e@),
            None => macro_fault(steps@) is None,
        },
{
    let mut out: Vec<Action> = Vec::new();
    let mut i: usize = 0;
    assert(steps@.skip(0) =~= steps@);
    assert(acts(out@) + macro_acts(steps@) =~= macro_acts(steps@));
    while i < steps.len()
        invariant
            i <= steps.len(),
            acts(out@) + macro_acts(steps@.skip(i as int)) == macro_acts(steps@),
            macro_fault(steps@.skip(i as int)) == macro_fault(steps@),
        decreases steps.len() - i,
    {
        let ghost before = acts(out@);
        assert(steps@.skip(i as int).drop_first() =~= steps@.skip(i + 1));
        let failed = play_step(&mut out, &steps[i]);
        if failed.is_some() {
            return Playback { actions: out, error: failed };
        }
        assert(acts(out@) + macro_acts(steps@.skip(i + 1)) =~= before + (step_acts(steps@[i as int])
            + macro_acts(steps@.skip(i + 1))));
        i = i + 1;
    }
    assert(acts(out@) + macro_acts(steps@.skip(i as int)) =~= acts(out@));
    Playback { actions: out, error: None }
}

// --- The keys of the virtual keyboard --------------------------------------

/// Whether a key is a modifier.
pub open spec fn is_modifier(code: u16) -> bool {
    code == KEY_LEFTCTRL || code == KEY_LEFTSHIFT || code == KEY_LEFTALT || code == KEY_LEFTMETA
}

/// Whether a key has a name.
pub open spec fn is_named(code: u16) -> bool {
    code == KEY_ENTER || code == KEY_TAB || code == KEY_SPACE || code == KEY_ESC || code == KEY_BACKSPACE || code == KEY_DELETE || code == KEY_INSERT || code == KEY_HOME || code == KEY_END || code == KEY_PAGEUP || code == KEY_PAGEDOWN || code == KEY_UP || code == KEY_DOWN || code == KEY_LEFT || code == KEY_RIGHT || code == KEY_F1 || code == KEY_F2 || code == KEY_F3 || code == KEY_F4 || code == KEY_F5 || code == KEY_F6 || code == KEY_F7 || code == KEY_F8 || code == KEY_F9 || code == KEY_F10 || code == KEY_F11 || code == KEY_F12
}

/// Whether the keyboard can press a key.
pub open spec fn supported(code: u16) -> bool {
    is_modifier(code) || plain(code) is Some || is_named(code)
}

/// Whether the keyboard can press a key.
fn is_supported(code: u16) -> (r: bool)
    ensures
        r == supported(code),
{
    (KEY_ESC <= code && code <= KEY_SLASH) || code == KEY_LEFTALT || code == KEY_SPACE || (KEY_F1
        <= code && code <= KEY_F10) || code == KEY_F11 || code == KEY_F12 || (KEY_HOME <= code
        && code <= KEY_DELETE) || code == KEY_LEFTMETA
}

/// Every key code the virtual device must declare so it can emit them: all keys
/// of the layout, the modifiers and the named keys, each once and in order.
pub fn supported_keys() -> (r: Vec<u16>)
    ensures
        forall|i: int, j: int| 0 <= i < j < r.len() ==> r@[i] < r@[j],
        forall|code: u16| r@.contains(code) <==> supported(code),
{
    let mut keys: Vec<u16> = Vec::new();
    let mut code: u16 = 0;
    while code <= KEY_LEFTMETA
        invariant
            code <= KEY_LEFTMETA + 1,
            forall|i: int, j: int| 0 <= i < j < keys.len() ==> keys@[i] < keys@[j],
            forall|i: int| 0 <= i < keys.len() ==> supported(#[trigger] keys@[i]) && keys@[i] < code,
            forall|k: u16| k < code && supported(k) ==> #[trigger] keys@.contains(k),
        decreases KEY_LEFTMETA + 1 - code,
    {
        let ghost before = keys@;
        if is_supported(code) {
            keys.push(code);
            assert(keys@[before.len() as int] == code);
            assert forall|k: u16| k < code + 1 && supported(k) implies #[trigger] keys@.contains(
                k,
            ) by {
                if k < code {
                    assert(before.contains(k));
                    let i = choose|i: int| 0 <= i < before.len() && before[i] == k;
                    assert(keys@[i] == k);
                }
            }
        }
        code = code + 1;
    }
    keys
}

/// Whether the keyboard can emit all of a report.
pub open spec fn can_emit(a: Act) -> bool {
    match a {
        Act::Emit(events) => forall|i: int|
            0 <= i < events.len() ==> supported((#[trigger] events[i]).code),
        Act::Pause => true,
    }
}

/// Whether the keyboard can carry out all of the actions.
pub open spec fn can_play(a: Seq<Act>) -> bool {
    forall|i: int| 0 <= i < a.len() ==> can_emit(#[trigger] a[i])
}

proof fn stroke_is_playable(mods: Seq<u16>, key: u16)
    requires
        supported(key),
        forall|i: int| 0 <= i < mods.len() ==> supported(#[trigger] mods[i]),
    ensures
        can_play(stroke(mods, key)),
{
    let d = down(mods, key);
    assert forall|i: int| 0 <= i < d.len() implies supported((#[trigger] d[i]).code) by {
        if i < mods.len() {
            assert(d[i] == press(mods[i]));
        }
    }
    let u = up(mods, key);
    assert forall|i: int| 0 <= i < u.len() implies supported((#[trigger] u[i]).code) by {
        if i > 0 {
            assert(u[i] == release(mods.reverse()[i - 1]));
            assert(mods.reverse()[i - 1] == mods[mods.len() - i]);
        }
    }
    assert(can_emit(Act::Emit(d)));
    assert(can_emit(Act::Emit(u)));
}

proof fn text_is_playable(s: Seq<char>)
    ensures
        can_play(text_acts(s)),
    decreases s.len(),
{
    if s.len() > 0 && key_of(s[0]) is Some {
        let k = key_of(s[0])->0;
        key_types_its_character(s[0]);
        stroke_is_playable(shift_keys(k.1), k.0);
        text_is_playable(s.drop_first());
    }
}

proof fn modifiers_are_supported(parts: Seq<Seq<char>>)
    ensures
        match modifiers(parts) {
            Ok(mods) => forall|i: int| 0 <= i < mods.len() ==> is_modifier(#[trigger] mods[i]),
            Err(_) => true,
        },
    decreases parts.len(),
{
    if parts.len() > 0 {
        modifiers_are_supported(parts.drop_first());
    }
}

/// Whatever a macro makes the keyboard press, the keyboard has declared.
pub proof fn macros_are_playable(steps: Seq<MacroStep>)
    ensures
        can_play(macro_acts(steps)),
    decreases steps.len(),
{
    if steps.len() > 0 {
        match steps[0] {
            MacroStep::Chord { chord } => {
                let parts = chord_parts(chord@);
                if let Ok((mods, key)) = read_chord(chord@) {
                    modifiers_are_supported(parts.drop_last());
                    key_types_its_character(parts.last()[0]);
                    assert(supported(key));
                    stroke_is_playable(mods, key);
                }
            },
            MacroStep::Text { text } => text_is_playable(text@),
        }
        macros_are_playable(steps.drop_first());
    }
}

// --- What the reports amount to --------------------------------------------

/// The events of the actions, in order.
pub open spec fn events(a: Seq<Act>) -> Seq<Event>
    decreases a.len(),
{
    if a.len() == 0 {
        Seq::empty()
    } else {
        events(a.drop_last()) + match a.last() {
            Act::Emit(e) => e,
            Act::Pause => Seq::empty(),
        }
    }
}

/// The keys that are down after the events, where those of `held` were before.
pub open spec fn down_after(e: Seq<Event>, held: Set<u16>) -> Set<u16>
    decreases e.len(),
{
    if e.len() == 0 {
        held
    } else if e.last().value == 0 {
        down_after(e.drop_last(), held).remove(e.last().code)
    } else {
        down_after(e.drop_last(), held).insert(e.last().code)
    }
}

/// The characters that the events type on the US layout, where the keys of `held`
/// are down before: each press types what its key stands for, shifted while shift
/// is down.
pub open spec fn typed(e: Seq<Event>, held: Set<u16>) -> Seq<char>
    decreases e.len(),
{
    if e.len() == 0 {
        Seq::empty()
    } else {
        let shift = down_after(e.drop_last(), held).contains(KEY_LEFTSHIFT);
        let before = typed(e.drop_last(), held);
        match types(e.last().code, shift) {
            Some(c) if e.last().value == 1 => before.push(c),
            _ => before,
        }
    }
}

proof fn events_add(a: Seq<Act>, b: Seq<Act>)
    ensures
        events(a + b) == events(a) + events(b),
    decreases b.len(),
{
    if b.len() == 0 {
        assert(a + b =~= a);
        assert(events(a) + events(b) =~= events(a));
    } else {
        assert((a + b).drop_last() =~= a + b.drop_last());
        events_add(a, b.drop_last());
        assert(events(a + b) =~= events(a) + events(b));
    }
}

proof fn run_add(a: Seq<Event>, b: Seq<Event>, held: Set<u16>)
    ensures
        down_after(a + b, held) == down_after(b, down_after(a, held)),
        typed(a + b, held) == typed(a, held) + typed(b, down_after(a, held)),
    decreases b.len(),
{
    if b.len() == 0 {
        assert(a + b =~= a);
        assert(typed(a, held) + Seq::<char>::empty() =~= typed(a, held));
    } else {
        assert((a + b).drop_last() =~= a + b.drop_last());
        run_add(a, b.drop_last(), held);
        assert(typed(a + b, held) =~= typed(a, held) + typed(b, down_after(a, held)));
    }
}

proof fn pressing(mods: Seq<u16>, held: Set<u16>)
    ensures
        down_after(presses(mods), held) == held.union(mods.to_set()),
    decreases mods.len(),
{
    let e = presses(mods);
    if mods.len() > 0 {
        assert(e.drop_last() =~= presses(mods.drop_last()));
        pressing(mods.drop_last(), held);
        assert(mods =~= mods.drop_last().push(mods.last()));
        assert forall|k: u16| mods.to_set().contains(k) == (mods.drop_last().to_set().contains(k)
            || k == mods.last()) by {
            if mods.to_set().contains(k) {
                let i = choose|i: int| 0 <= i < mods.len() && mods[i] == k;
                if i < mods.len() - 1 {
                    assert(mods.drop_last()[i] == k);
                }
            }
            if mods.drop_last().to_set().contains(k) {
                let i = choose|i: int| 0 <= i < mods.drop_last().len() && mods.drop_last()[i] == k;
                assert(mods[i] == k);
            }
        }
    }
    assert(down_after(e, held) =~= held.union(mods.to_set()));
}

proof fn releasing(mods: Seq<u16>, held: Set<u16>)
    ensures
        forall|k: u16|
            down_after(releases(mods), held).contains(k) <==> held.contains(k)
                && !mods.contains(k),
    decreases mods.len(),
{
    let e = releases(mods);
    if mods.len() > 0 {
        assert(e.drop_last() =~= releases(mods.drop_last()));
        releasing(mods.drop_last(), held);
        assert forall|k: u16| mods.contains(k) == (mods.drop_last().contains(k) || k
            == mods.last()) by {
            if mods.contains(k) {
                let i = choose|i: int| 0 <= i < mods.len() && mods[i] == k;
                if i < mods.len() - 1 {
                    assert(mods.drop_last()[i] == k);
                }
            }
            if mods.drop_last().contains(k) {
                let i = choose|i: int| 0 <= i < mods.drop_last().len() && mods.drop_last()[i] == k;
                assert(mods[i] == k);
            }
        }
    }
}

proof fn releases_type_nothing(mods: Seq<u16>, held: Set<u16>)
    ensures
        typed(releases(mods), held) == Seq::<char>::empty(),
    decreases mods.len(),
{
    if mods.len() > 0 {
        assert(releases(mods).drop_last() =~= releases(mods.drop_last()));
        releases_type_nothing(mods.drop_last(), held);
    }
}

/// The events of a stroke, and what they amount to.
proof fn stroke_run(mods: Seq<u16>, key: u16)
    ensures
        events(stroke(mods, key)) == down(mods, key) + up(mods, key),
        down_after(events(stroke(mods, key)), Set::empty()) == Set::<u16>::empty(),
{
    let a = stroke(mods, key);
    let d = down(mods, key);
    let u = up(mods, key);
    assert(a.drop_last().drop_last().drop_last() =~= Seq::<Act>::empty());
    reveal_with_fuel(events, 4);
    assert(events(a) =~= d + u);
    let none = Set::<u16>::empty();
    run_add(d, u, none);
    let m = presses(mods);
    assert(d.drop_last() =~= m);
    pressing(mods, none);
    let held = down_after(d, none);
    let first = seq![release(key)];
    let r = releases(mods.reverse());
    run_add(first, r, held);
    assert(first.drop_last() =~= Seq::<Event>::empty());
    reveal_with_fuel(down_after, 2);
    releasing(mods.reverse(), down_after(first, held));
    assert(held =~= mods.to_set().insert(key));
    assert(down_after(first, held) =~= held.remove(key));
    assert(u =~= first + r);
    assert forall|k: u16| !down_after(r, down_after(first, held)).contains(k) by {
        if mods.contains(k) {
            let i = choose|i: int| 0 <= i < mods.len() && mods[i] == k;
            assert(mods.reverse()[mods.len() - 1 - i] == k);
            assert(mods.reverse().contains(k));
        } else {
            assert(!mods.to_set().contains(k));
            assert(!held.remove(key).contains(k));
        }
    }
    assert(down_after(u, held) =~= none);
}

/// A stroke with shift, where the character takes it, types that character.
proof fn stroke_types(code: u16, shift: bool, c: char)
    requires
        types(code, shift) == Some(c),
    ensures
        typed(events(stroke(shift_keys(shift), code)), Set::empty()) == seq![c],
{
    let mods = shift_keys(shift);
    let none = Set::<u16>::empty();
    let d = down(mods, code);
    let u = up(mods, code);
    stroke_run(mods, code);
    run_add(d, u, none);
    let m = presses(mods);
    assert(d.drop_last() =~= m);
    pressing(mods, none);
    assert(mods.to_set().contains(KEY_LEFTSHIFT) == shift) by {
        if shift {
            assert(mods[0] == KEY_LEFTSHIFT);
        }
    }
    if shift {
        assert(m.drop_last() =~= Seq::<Event>::empty());
    }
    reveal_with_fuel(typed, 2);
    assert(typed(m, none) =~= Seq::<char>::empty());
    assert(typed(d, none) =~= seq![c]);
    let held = down_after(d, none);
    let first = seq![release(code)];
    let r = releases(mods.reverse());
    run_add(first, r, held);
    assert(first.drop_last() =~= Seq::<Event>::empty());
    releases_type_nothing(mods.reverse(), down_after(first, held));
    assert(typed(u, held) =~= Seq::<char>::empty());
    assert(typed(d + u, none) =~= seq![c]);
}

proof fn text_run(s: Seq<char>)
    ensures
        down_after(events(text_acts(s)), Set::empty()) == Set::<u16>::empty(),
        text_stop(s) is None ==> typed(events(text_acts(s)), Set::empty()) == s,
    decreases s.len(),
{
    let none = Set::<u16>::empty();
    if s.len() > 0 && key_of(s[0]) is Some {
        let (code, shift) = key_of(s[0])->0;
        let one = stroke(shift_keys(shift), code);
        let rest = text_acts(s.drop_first());
        key_types_its_character(s[0]);
        stroke_run(shift_keys(shift), code);
        stroke_types(code, shift, s[0]);
        assert(one + seq![Act::Pause] =~= one.push(Act::Pause));
        assert(one.push(Act::Pause).drop_last() =~= one);
        assert(events(one.push(Act::Pause)) =~= events(one));
        events_add(one.push(Act::Pause), rest);
        run_add(events(one), events(rest), none);
        text_run(s.drop_first());
        if text_stop(s) is None {
            assert(seq![s[0]] + s.drop_first() =~= s);
        }
    }
}

proof fn pause_adds_nothing(a: Seq<Act>)
    ensures
        events(a.push(Act::Pause)) == events(a),
{
    assert(a.push(Act::Pause).drop_last() =~= a);
    assert(events(a) + Seq::<Event>::empty() =~= events(a));
}

/// Typing a text that the layout has gives that text back.
pub proof fn text_types_itself(text: String)
    requires
        text_stop(text@) is None,
    ensures
        typed(events(macro_acts(seq![MacroStep::Text { text }])), Set::empty()) == text@,
{
    let steps = seq![MacroStep::Text { text }];
    assert(steps.drop_first() =~= Seq::<MacroStep>::empty());
    reveal_with_fuel(macro_acts, 2);
    assert(macro_acts(steps) =~= text_acts(text@).push(Act::Pause));
    pause_adds_nothing(text_acts(text@));
    text_run(text@);
}

/// No macro leaves a key down, be it that it stops halfway.
pub proof fn macros_release_every_key(steps: Seq<MacroStep>)
    ensures
        down_after(events(macro_acts(steps)), Set::empty()) == Set::<u16>::empty(),
    decreases steps.len(),
{
    if steps.len() > 0 {
        match steps[0] {
            MacroStep::Chord { chord } => {
                if let Ok((mods, key)) = read_chord(chord@) {
                    stroke_run(mods, key);
                    pause_adds_nothing(stroke(mods, key));
                }
            },
            MacroStep::Text { text } => {
                text_run(text@);
                pause_adds_nothing(text_acts(text@));
            },
        }
        if step_fault(steps[0]) is None {
            let first = step_acts(steps[0]);
            let rest = macro_acts(steps.drop_first());
            events_add(first, rest);
            run_add(events(first), events(rest), Set::empty());
            macros_release_every_key(steps.drop_first());
        }
    }
}

// --- How macros, chords and texts are put together -------------------------

/// The actions as values are the actions, one for one and in order.
pub proof fn acts_are_the_actions(a: Seq<Action>)
    ensures
        acts(a).len() == a.len(),
        forall|i: int|
            0 <= i < a.len() ==> #[trigger] acts(a)[i] == (match a[i] {
                Action::Emit(events) => Act::Emit(events@),
                Action::Pause => Act::Pause,
            }),
{
}

/// The events of two runs of actions are those of the one and then those of the
/// other; a report gives its own events, and a pause gives none.
pub proof fn events_compose(a: Seq<Act>, b: Seq<Act>, e: Seq<Event>)
    ensures
        events(a + b) == events(a) + events(b),
        events(seq![Act::Emit(e)]) == e,
        events(seq![Act::Pause]) == Seq::<Event>::empty(),
{
    events_add(a, b);
    reveal_with_fuel(events, 2);
    let one = seq![Act::Emit(e)];
    assert(one.drop_last() =~= Seq::<Act>::empty());
    assert(events(one) =~= e);
    let pause = seq![Act::Pause];
    assert(pause.drop_last() =~= Seq::<Act>::empty());
    assert(events(pause) =~= Seq::<Event>::empty());
}

/// Playing goes through all the steps: where `a` plays to its end, playing `a`
/// and then `b` is to play `a`, then `b`, and fails as `b` fails; where `a` fails,
/// nothing behind it is played.
pub proof fn macros_compose(a: Seq<MacroStep>, b: Seq<MacroStep>)
    ensures
        macro_fault(a) is None ==> macro_acts(a + b) == macro_acts(a) + macro_acts(b)
            && macro_fault(a + b) == macro_fault(b),
        macro_fault(a) is Some ==> macro_acts(a + b) == macro_acts(a) && macro_fault(a + b)
            == macro_fault(a),
        macro_acts(Seq::empty()) == Seq::<Act>::empty(),
        macro_fault(Seq::empty()) is None,
    decreases a.len(),
{
    if a.len() == 0 {
        assert(a + b =~= b);
        assert(macro_acts(a) + macro_acts(b) =~= macro_acts(b));
    } else {
        assert((a + b)[0] == a[0]);
        assert((a + b).drop_first() =~= a.drop_first() + b);
        macros_compose(a.drop_first(), b);
        if macro_fault(a) is None {
            assert(macro_acts(a + b) =~= macro_acts(a) + macro_acts(b));
        }
    }
}

/// The characters that a macro types, pressed with nothing held, are those of its
/// first part and then those of the rest, where the first part plays to its end.
pub proof fn typing_composes(a: Seq<MacroStep>, b: Seq<MacroStep>)
    requires
        macro_fault(a) is None,
    ensures
        events(macro_acts(a + b)) == events(macro_acts(a)) + events(macro_acts(b)),
        typed(events(macro_acts(a + b)), Set::empty()) == typed(
            events(macro_acts(a)),
            Set::empty(),
        ) + typed(events(macro_acts(b)), Set::empty()),
{
    macros_compose(a, b);
    events_add(macro_acts(a), macro_acts(b));
    macros_release_every_key(a);
    run_add(events(macro_acts(a)), events(macro_acts(b)), Set::empty());
}

/// Every step of a macro that plays to its end is played, at its place: before it
/// the steps before it, behind it those behind it.
pub proof fn every_step_is_played(steps: Seq<MacroStep>, i: int)
    requires
        0 <= i < steps.len(),
        macro_fault(steps) is None,
    ensures
        macro_fault(seq![steps[i]]) is None,
        macro_acts(steps) == macro_acts(steps.take(i)) + macro_acts(seq![steps[i]]) + macro_acts(
            steps.skip(i + 1),
        ),
{
    let a = steps.take(i);
    let one = seq![steps[i]];
    let b = steps.skip(i + 1);
    assert(steps =~= a + (one + b));
    macros_compose(a, one + b);
    macros_compose(one, b);
    assert(macro_acts(steps) =~= macro_acts(a) + macro_acts(one) + macro_acts(b));
}

/// A macro of texts that the layout has types them all, one behind the other.
pub proof fn texts_are_typed_in_order(texts: Seq<String>)
    requires
        forall|i: int| 0 <= i < texts.len() ==> text_stop((#[trigger] texts[i])@) is None,
    ensures
        ({
            let steps = texts.map_values(|text: String| MacroStep::Text { text });
            macro_fault(steps) is None && typed(events(macro_acts(steps)), Set::empty())
                == texts.map_values(|text: String| text@).flatten()
        }),
    decreases texts.len(),
{
    let step = |text: String| MacroStep::Text { text };
    let all = |text: String| text@;
    let steps = texts.map_values(step);
    if texts.len() == 0 {
        assert(steps =~= Seq::<MacroStep>::empty());
        assert(typed(events(macro_acts(steps)), Set::empty()) =~= Seq::<char>::empty());
    } else {
        let rest = texts.drop_first();
        assert forall|i: int| 0 <= i < rest.len() implies text_stop((#[trigger] rest[i])@) is None by {
            assert(rest[i] == texts[i + 1]);
        }
        texts_are_typed_in_order(rest);
        let first = seq![MacroStep::Text { text: texts[0] }];
        text_types_itself(texts[0]);
        assert(first.drop_first() =~= Seq::<MacroStep>::empty());
        assert(macro_fault(first) == macro_fault(first.drop_first()));
        assert(steps =~= first + rest.map_values(step));
        typing_composes(first, rest.map_values(step));
        macros_compose(first, rest.map_values(step));
        assert(texts.map_values(all).first() == texts[0]@);
        assert(texts.map_values(all).drop_first() =~= rest.map_values(all));
        assert(typed(events(macro_acts(steps)), Set::empty()) =~= texts.map_values(all).flatten());
    }
}

/// A text stops at its first character that no key types, and is typed up to
/// there; a text whose characters all have keys does not stop.
pub proof fn text_stops_at_the_unknown(text: String, i: int)
    requires
        0 <= i <= text@.len(),
        forall|k: int|
            0 <= k < i ==> exists|code: u16, shift: bool|
                #[trigger] types(code, shift) == Some(#[trigger] text@[k]),
        i < text@.len() ==> forall|code: u16, shift: bool|
            #[trigger] types(code, shift) != Some(text@[i]),
    ensures
        macro_fault(seq![MacroStep::Text { text }]) == (if i < text@.len() {
            Some(Fault::NoKey(text@[i]))
        } else {
            None
        }),
        typed(events(macro_acts(seq![MacroStep::Text { text }])), Set::empty()) == text@.take(i),
{
    let s = text@;
    let steps = seq![MacroStep::Text { text }];
    assert(steps.drop_first() =~= Seq::<MacroStep>::empty());
    reveal_with_fuel(macro_acts, 2);
    reveal_with_fuel(macro_fault, 2);
    assert forall|k: int| 0 <= k < i implies key_of(#[trigger] s[k]) is Some by {
        let (code, shift) = choose|code: u16, shift: bool|
            #[trigger] types(code, shift) == Some(s[k]);
        assert(types(code, shift) == Some(s[k]));
    }
    typed_prefix(s, i);
    pause_adds_nothing(text_acts(s));
    if i == s.len() {
        assert(macro_acts(steps) =~= text_acts(s).push(Act::Pause));
    }
}

proof fn typed_prefix(s: Seq<char>, i: int)
    requires
        0 <= i <= s.len(),
        forall|k: int| 0 <= k < i ==> key_of(#[trigger] s[k]) is Some,
        i < s.len() ==> key_of(s[i]) is None,
    ensures
        text_stop(s) == (if i < s.len() {
            Some(s[i])
        } else {
            None
        }),
        typed(events(text_acts(s)), Set::empty()) == s.take(i),
    decreases s.len(),
{
    let none = Set::<u16>::empty();
    if i == 0 {
        assert(s.take(0) =~= Seq::<char>::empty());
    } else {
        let t = s.drop_first();
        let (code, shift) = key_of(s[0])->0;
        let one = stroke(shift_keys(shift), code);
        let rest = text_acts(t);
        key_types_its_character(s[0]);
        stroke_run(shift_keys(shift), code);
        stroke_types(code, shift, s[0]);
        assert(one + seq![Act::Pause] =~= one.push(Act::Pause));
        pause_adds_nothing(one);
        events_add(one.push(Act::Pause), rest);
        run_add(events(one), events(rest), none);
        assert forall|k: int| 0 <= k < i - 1 implies key_of(#[trigger] t[k]) is Some by {
            assert(t[k] == s[k + 1]);
        }
        typed_prefix(t, i - 1);
        assert(seq![s[0]] + t.take(i - 1) =~= s.take(i));
    }
}

/// One character is one stroke: its key goes down, under shift where the layout
/// has the character there, and comes up again, in two reports.
pub proof fn a_character_is_a_stroke(text: String, code: u16, shift: bool)
    requires
        text@.len() == 1,
        types(code, shift) == Some(text@[0]),
    ensures
        macro_acts(seq![MacroStep::Text { text }]) == (if shift {
            seq![
                Act::Emit(
                    seq![Event { kind: 1, code: 42, value: 1 }, Event { kind: 1, code, value: 1 }],
                ),
                Act::Pause,
                Act::Emit(
                    seq![Event { kind: 1, code, value: 0 }, Event { kind: 1, code: 42, value: 0 }],
                ),
                Act::Pause,
                Act::Pause,
            ]
        } else {
            seq![
                Act::Emit(seq![Event { kind: 1, code, value: 1 }]),
                Act::Pause,
                Act::Emit(seq![Event { kind: 1, code, value: 0 }]),
                Act::Pause,
                Act::Pause,
            ]
        }),
{
    let s = text@;
    let steps = seq![MacroStep::Text { text }];
    assert(steps.drop_first() =~= Seq::<MacroStep>::empty());
    reveal_with_fuel(macro_acts, 2);
    reveal_with_fuel(text_acts, 2);
    reveal_with_fuel(text_stop, 2);
    assert(key_of(s[0]) is Some);
    key_types_its_character(s[0]);
    let k = key_of(s[0])->0;
    one_key_per_character(code, shift, k.0, k.1);
    assert(s.drop_first() =~= Seq::<char>::empty());
    let mods = shift_keys(shift);
    if shift {
        assert(down(mods, code) =~= seq![
            Event { kind: 1, code: 42, value: 1 },
            Event { kind: 1, code, value: 1 },
        ]);
        assert(mods.reverse() =~= mods);
        assert(up(mods, code) =~= seq![
            Event { kind: 1, code, value: 0 },
            Event { kind: 1, code: 42, value: 0 },
        ]);
    } else {
        assert(mods.reverse() =~= mods);
        assert(down(mods, code) =~= seq![Event { kind: 1, code, value: 1 }]);
        assert(up(mods, code) =~= seq![Event { kind: 1, code, value: 0 }]);
    }
    assert(macro_acts(steps) =~= stroke(mods, code) + seq![Act::Pause, Act::Pause]);
}

proof fn text_alternates(s: Seq<char>)
    ensures
        forall|i: int|
            0 <= i < text_acts(s).len() && #[trigger] text_acts(s)[i] is Emit ==> i + 1
                < text_acts(s).len() && text_acts(s)[i + 1] is Pause,
    decreases s.len(),
{
    if s.len() > 0 && key_of(s[0]) is Some {
        let rest = text_acts(s.drop_first());
        text_alternates(s.drop_first());
        let a = text_acts(s);
        assert forall|i: int| 0 <= i < a.len() && #[trigger] a[i] is Emit implies i + 1 < a.len()
            && a[i + 1] is Pause by {
            if i >= 4 {
                assert(a[i] == rest[i - 4]);
                assert(a[i + 1] == rest[i - 3]);
            }
        }
    }
}

/// Every report is followed by a pause, so that none runs into the next.
pub proof fn reports_are_followed_by_pauses(steps: Seq<MacroStep>)
    ensures
        forall|i: int|
            0 <= i < macro_acts(steps).len() && #[trigger] macro_acts(steps)[i] is Emit ==> i + 1
                < macro_acts(steps).len() && macro_acts(steps)[i + 1] is Pause,
    decreases steps.len(),
{
    if steps.len() > 0 {
        let first = step_acts(steps[0]);
        if let MacroStep::Text { text } = steps[0] {
            text_alternates(text@);
        }
        assert forall|i: int| 0 <= i < first.len() && #[trigger] first[i] is Emit implies i + 1
            < first.len() && first[i + 1] is Pause by {
            if let MacroStep::Text { text } = steps[0] {
                assert(first[i] == text_acts(text@)[i]);
                assert(first[i + 1] == text_acts(text@)[i + 1]);
            }
        }
        let rest = macro_acts(steps.drop_first());
        reports_are_followed_by_pauses(steps.drop_first());
        let a = macro_acts(steps);
        if step_fault(steps[0]) is None {
            assert forall|i: int| 0 <= i < a.len() && #[trigger] a[i] is Emit implies i + 1 < a.len()
                && a[i + 1] is Pause by {
                if i >= first.len() {
                    assert(a[i] == rest[i - first.len()]);
                    assert(a[i + 1] == rest[i + 1 - first.len()]);
                } else {
                    assert(a[i] == first[i]);
                    assert(a[i + 1] == first[i + 1]);
                }
            }
        }
    }
}

/// A chord that can be read presses all of its keys in one report, the modifiers
/// in order and the main key last, and lets them up again in the reverse order in
/// a second; one that cannot plays nothing and fails with what is wrong.
pub proof fn chords_press_all_and_release_in_reverse(chord: String)
    ensures
        ({
            let steps = seq![MacroStep::Chord { chord }];
            let a = macro_acts(steps);
            match read_chord(chord@) {
                Ok((mods, key)) => {
                    let keys = mods.push(key);
                    &&& macro_fault(steps) is None
                    &&& a.len() == 4 && a[1] is Pause && a[3] is Pause
                    &&& a[0] == Act::Emit(
                        Seq::new(
                            keys.len(),
                            |i: int| Event { kind: 1, code: keys[i], value: 1 },
                        ),
                    )
                    &&& a[2] == Act::Emit(
                        Seq::new(
                            keys.len(),
                            |i: int| Event { kind: 1, code: keys[keys.len() - 1 - i], value: 0 },
                        ),
                    )
                },
                Err(e) => a.len() == 0 && macro_fault(steps) == Some(e),
            }
        }),
{
    let steps = seq![MacroStep::Chord { chord }];
    assert(steps.drop_first() =~= Seq::<MacroStep>::empty());
    reveal_with_fuel(macro_acts, 2);
    reveal_with_fuel(macro_fault, 2);
    if let Ok((mods, key)) = read_chord(chord@) {
        let keys = mods.push(key);
        assert(macro_acts(steps) =~= stroke(mods, key).push(Act::Pause));
        assert(down(mods, key) =~= Seq::new(
            keys.len(),
            |i: int| Event { kind: 1, code: keys[i], value: 1 },
        ));
        assert(up(mods, key) =~= Seq::new(
            keys.len(),
            |i: int| Event { kind: 1, code: keys[keys.len() - 1 - i], value: 0 },
        ));
    }
}

/// The parts of a chord are what stands between its plus signs, blanks around it
/// aside; between two plus signs, or at an end, there may be nothing.
pub proof fn chord_parts_are_joined_by_plus(a: Seq<char>, b: Seq<char>)
    ensures
        chord_parts(a.push('+') + b) == chord_parts(a) + chord_parts(b),
        !b.contains('+') ==> chord_parts(b) == (if text::trimmed(b).len() > 0 {
            seq![text::trimmed(b)]
        } else {
            Seq::<Seq<char>>::empty()
        }),
{
    text::pieces_of_a_joined_text(a, '+', b);
    let f = |p: Seq<char>| text::trimmed(p);
    let x = text::split_on(a, '+');
    let y = text::split_on(b, '+');
    assert((x + y).map_values(f) =~= x.map_values(f) + y.map_values(f));
    text::kept_by_piece(x.map_values(f), y.map_values(f), text::trimmed(b));
    assert(seq![b].map_values(f) =~= seq![text::trimmed(b)]);
}

/// All parts of a chord but the last name its modifiers, in order and whatever
/// their case, and the last names its key. The first part that names none is
/// what fails, and a chord without parts is empty.
pub proof fn chord_reads_part_by_part(chord: Seq<char>)
    ensures
        ({
            let p = chord_parts(chord);
            let n = p.len() - 1;
            match read_chord(chord) {
                Ok((mods, key)) => {
                    &&& n >= 0 && mods.len() == n
                    &&& forall|i: int|
                        0 <= i < n ==> modifier(text::lowered(p[i])) == Some(#[trigger] mods[i])
                    &&& key_named(p[n]) == Some(key)
                },
                Err(Fault::EmptyChord) => p.len() == 0,
                Err(Fault::UnknownModifier(name)) => exists|i: int|
                    0 <= i < n && text::lowered(#[trigger] p[i]) == name && modifier(name) is None
                        && forall|j: int|
                        0 <= j < i ==> modifier(text::lowered(#[trigger] p[j])) is Some,
                Err(Fault::UnknownKey(name)) => n >= 0 && p[n] == name && key_named(name) is None
                    && forall|j: int|
                    0 <= j < n ==> modifier(text::lowered(#[trigger] p[j])) is Some,
                Err(Fault::NoKey(_)) => false,
            }
        }),
{
    let p = chord_parts(chord);
    if p.len() > 0 {
        let q = p.drop_last();
        modifiers_in_order(q);
        assert forall|j: int| 0 <= j < q.len() implies q[j] == p[j] by {}
    }
}

proof fn modifiers_in_order(p: Seq<Seq<char>>)
    ensures
        match modifiers(p) {
            Ok(mods) => {
                &&& mods.len() == p.len()
                &&& forall|i: int|
                    0 <= i < p.len() ==> modifier(text::lowered(p[i])) == Some(#[trigger] mods[i])
                &&& forall|i: int| 0 <= i < p.len() ==> modifier(text::lowered(#[trigger] p[i])) is Some
            },
            Err(name) => exists|i: int|
                0 <= i < p.len() && text::lowered(#[trigger] p[i]) == name && modifier(name) is None
                    && forall|j: int|
                    0 <= j < i ==> modifier(text::lowered(#[trigger] p[j])) is Some,
        },
    decreases p.len(),
{
    if p.len() > 0 {
        let q = p.drop_first();
        modifiers_in_order(q);
        if modifier(text::lowered(p[0])) is Some {
            match modifiers(q) {
                Ok(rest) => {
                    let mods = modifiers(p)->Ok_0;
                    assert forall|i: int| 0 <= i < p.len() implies modifier(text::lowered(p[i]))
                        == Some(#[trigger] mods[i]) by {
                        if i > 0 {
                            assert(mods[i] == rest[i - 1]);
                            assert(q[i - 1] == p[i]);
                        }
                    }
                    assert forall|i: int| 0 <= i < p.len() implies modifier(
                        text::lowered(#[trigger] p[i]),
                    ) is Some by {
                        assert(modifier(text::lowered(p[i])) == Some(mods[i]));
                    }
                },
                Err(name) => {
                    let i = choose|i: int|
                        0 <= i < q.len() && text::lowered(#[trigger] q[i]) == name && modifier(name) is None
                            && forall|j: int|
                            0 <= j < i ==> modifier(text::lowered(#[trigger] q[j])) is Some;
                    assert(p[i + 1] == q[i]);
                    assert forall|j: int| 0 <= j < i + 1 implies modifier(
                        text::lowered(#[trigger] p[j]),
                    ) is Some by {
                        if j > 0 {
                            assert(q[j - 1] == p[j]);
                        }
                    }
                },
            }
        } else {
            assert(text::lowered(p[0]) == modifiers(p)->Err_0);
        }
    }
}

/// Each of the nine modifier names stands for the left key of its kind, and no
/// other text is one.
pub proof fn modifier_names(name: Seq<char>)
    ensures
        modifier(name) == Some(29u16) <==> name == "ctrl"@ || name == "control"@,
        modifier(name) == Some(42u16) <==> name == "shift"@,
        modifier(name) == Some(56u16) <==> name == "alt"@ || name == "option"@,
        modifier(name) == Some(125u16) <==> name == "super"@ || name == "meta"@ || name == "win"@
            || name == "cmd"@,
        modifier(name) is Some ==> modifier(name)->0 == 29 || modifier(name)->0 == 42 || modifier(
            name,
        )->0 == 56 || modifier(name)->0 == 125,
{
    reveal_strlit("ctrl");
    reveal_strlit("control");
    reveal_strlit("shift");
    reveal_strlit("alt");
    reveal_strlit("option");
    reveal_strlit("super");
    reveal_strlit("meta");
    reveal_strlit("win");
    reveal_strlit("cmd");
    assert("ctrl"@.len() == 4 && "control"@.len() == 7 && "shift"@.len() == 5 && "alt"@.len() == 3);
    assert("option"@.len() == 6 && "super"@.len() == 5 && "meta"@.len() == 4);
    assert("win"@.len() == 3 && "cmd"@.len() == 3);
    assert("ctrl"@[0] != "meta"@[0]);
    assert("shift"@[1] != "super"@[1]);
    assert("alt"@[0] != "win"@[0]);
    assert("alt"@[0] != "cmd"@[0]);
}

/// A key is named by the one character that it types, be it under shift, and by
/// its name in any case.
pub proof fn keys_by_name(code: u16, shift: bool, c: char, name: Seq<char>)
    ensures
        types(code, shift) == Some(c) ==> key_named(seq![c]) == Some(code),
        name.len() != 1 ==> key_named(name) == key_named(text::lowered(name)),
        name.len() != 1 ==> key_named(name) == named(text::lowered(name)),
{
    if types(code, shift) == Some(c) {
        assert(key_of(c) is Some);
        key_types_its_character(c);
        let k = key_of(c)->0;
        one_key_per_character(code, shift, k.0, k.1);
    }
    text::lowered_by_character(name);
}

/// Whatever key a macro presses or lets go is one that the keyboard has.
pub proof fn macros_press_keys_that_exist(steps: Seq<MacroStep>, i: int, j: int)
    requires
        0 <= i < macro_acts(steps).len(),
        macro_acts(steps)[i] is Emit,
        0 <= j < macro_acts(steps)[i]->Emit_0.len(),
    ensures
        supported(macro_acts(steps)[i]->Emit_0[j].code),
{
    macros_are_playable(steps);
    assert(can_emit(macro_acts(steps)[i]));
}

/// The keyboard has every key that types a character, every key that has a name, and
/// the four modifiers.
pub proof fn named_keys_exist(code: u16, shift: bool, name: Seq<char>)
    ensures
        types(code, shift) is Some ==> supported(code),
        named(name) is Some ==> supported(named(name)->0),
        modifier(name) is Some ==> supported(modifier(name)->0),
{
}

/// An error says what is wrong, with the name or the character at fault.
pub proof fn errors_say_what_is_wrong(name: String, c: char)
    ensures
        MacroError::EmptyChord@ == Fault::EmptyChord,
        MacroError::UnknownModifier(name)@ == Fault::UnknownModifier(name@),
        MacroError::UnknownKey(name)@ == Fault::UnknownKey(name@),
        MacroError::NoKey(c)@ == Fault::NoKey(c),
{
}

} // verus!
