//! Keyboard and pointer input as the application sees it.

use vstd::prelude::*;

verus! {

/// Whether a key went down or came up.
#[derive(Clone, Copy, Debug, PartialEq, Eq, Structural)]
pub enum KeyState {
    Pressed,
    Released,
}

/// The modifier keys that are held, as last reported for the physical keyboard.
#[derive(Clone, Copy, Debug, PartialEq, Eq, Structural)]
pub struct Modifiers {
    pub shift: bool,
    pub ctrl: bool,
    pub alt: bool,
    pub super_: bool,
}

impl Default for Modifiers {
    fn default() -> (m: Modifiers)
        ensures
            m == (Modifiers { shift: false, ctrl: false, alt: false, super_: false }),
    {
        Modifiers { shift: false, ctrl: false, alt: false, super_: false }
    }
}

/// A key of the keyboard, independent of layout-specific symbol numbers.
#[derive(Clone, Copy, Debug, PartialEq, Eq, Structural)]
pub enum Key {
    // Letters
    A,
    B,
    C,
    D,
    E,
    F,
    G,
    H,
    I,
    J,
    K,
    L,
    M,
    N,
    O,
    P,
    Q,
    R,
    S,
    T,
    U,
    V,
    W,
    X,
    Y,
    Z,
    // Numbers
    Num0,
    Num1,
    Num2,
    Num3,
    Num4,
    Num5,
    Num6,
    Num7,
    Num8,
    Num9,
    // Function keys
    F1,
    F2,
    F3,
    F4,
    F5,
    F6,
    F7,
    F8,
    F9,
    F10,
    F11,
    F12,
    // Navigation
    Up,
    Down,
    Left,
    Right,
    Home,
    End,
    PageUp,
    PageDown,
    // Editing
    Backspace,
    Delete,
    Insert,
    Enter,
    Tab,
    Space,
    // Modifiers (as keys)
    Shift,
    Control,
    Alt,
    Super,
    // Special
    Escape,
    Colon,
    Semicolon,
    Period,
    Comma,
    Slash,
    Backslash,
    Minus,
    Equals,
    BracketLeft,
    BracketRight,
    Quote,
    Grave,
    /// A key symbol that this library gives no name; the symbol's number is kept.
    Unknown(u32),
}

/// The character that a key types: its plain form, or its shifted form.
/// Keys that type nothing (navigation, function and modifier keys, unknown symbols) have none.
pub open spec fn key_glyph(key: Key, shifted: bool) -> Option<char> {
    match key {
        Key::A => Some(if shifted { 'A' } else { 'a' }),
        Key::B => Some(if shifted { 'B' } else { 'b' }),
        Key::C => Some(if shifted { 'C' } else { 'c' }),
        Key::D => Some(if shifted { 'D' } else { 'd' }),
        Key::E => Some(if shifted { 'E' } else { 'e' }),
        Key::F => Some(if shifted { 'F' } else { 'f' }),
        Key::G => Some(if shifted { 'G' } else { 'g' }),
        Key::H => Some(if shifted { 'H' } else { 'h' }),
        Key::I => Some(if shifted { 'I' } else { 'i' }),
        Key::J => Some(if shifted { 'J' } else { 'j' }),
        Key::K => Some(if shifted { 'K' } else { 'k' }),
        Key::L => Some(if shifted { 'L' } else { 'l' }),
        Key::M => Some(if shifted { 'M' } else { 'm' }),
        Key::N => Some(if shifted { 'N' } else { 'n' }),
        Key::O => Some(if shifted { 'O' } else { 'o' }),
        Key::P => Some(if shifted { 'P' } else { 'p' }),
        Key::Q => Some(if shifted { 'Q' } else { 'q' }),
        Key::R => Some(if shifted { 'R' } else { 'r' }),
        Key::S => Some(if shifted { 'S' } else { 's' }),
        Key::T => Some(if shifted { 'T' } else { 't' }),
        Key::U => Some(if shifted { 'U' } else { 'u' }),
        Key::V => Some(if shifted { 'V' } else { 'v' }),
        Key::W => Some(if shifted { 'W' } else { 'w' }),
        Key::X => Some(if shifted { 'X' } else { 'x' }),
        Key::Y => Some(if shifted { 'Y' } else { 'y' }),
        Key::Z => Some(if shifted { 'Z' } else { 'z' }),
        Key::Num0 => Some(if shifted { ')' } else { '0' }),
        Key::Num1 => Some(if shifted { '!' } else { '1' }),
        Key::Num2 => Some(if shifted { '@' } else { '2' }),
        Key::Num3 => Some(if shifted { '#' } else { '3' }),
        Key::Num4 => Some(if shifted { '$' } else { '4' }),
        Key::Num5 => Some(if shifted { '%' } else { '5' }),
        Key::Num6 => Some(if shifted { '^' } else { '6' }),
        Key::Num7 => Some(if shifted { '&' } else { '7' }),
        Key::Num8 => Some(if shifted { '*' } else { '8' }),
        Key::Num9 => Some(if shifted { '(' } else { '9' }),
        Key::Period => Some(if shifted { '>' } else { '.' }),
        Key::Comma => Some(if shifted { '<' } else { ',' }),
        Key::Semicolon => Some(if shifted { ':' } else { ';' }),
        Key::Colon => Some(if shifted { ':' } else { ':' }),
        Key::Slash => Some(if shifted { '?' } else { '/' }),
        Key::Backslash => Some(if shifted { '|' } else { '\\' }),
        Key::Minus => Some(if shifted { '_' } else { '-' }),
        Key::Equals => Some(if shifted { '+' } else { '=' }),
        Key::BracketLeft => Some(if shifted { '{' } else { '[' }),
        Key::BracketRight => Some(if shifted { '}' } else { ']' }),
        Key::Quote => Some(if shifted { '"' } else { '\'' }),
        Key::Grave => Some(if shifted { '~' } else { '`' }),
        Key::Enter => Some(if shifted { '\n' } else { '\n' }),
        Key::Escape => Some(if shifted { '\x1b' } else { '\x1b' }),
        Key::Backspace => Some(if shifted { '\x08' } else { '\x08' }),
        Key::Tab => Some(if shifted { '\t' } else { '\t' }),
        Key::Space => Some(if shifted { ' ' } else { ' ' }),
        _ => None,
    }
}

/// The lower-case letter of a letter key; `None` for every other key.
pub open spec fn key_letter(key: Key) -> Option<char> {
    match key {
        Key::A => Some('a'),
        Key::B => Some('b'),
        Key::C => Some('c'),
        Key::D => Some('d'),
        Key::E => Some('e'),
        Key::F => Some('f'),
        Key::G => Some('g'),
        Key::H => Some('h'),
        Key::I => Some('i'),
        Key::J => Some('j'),
        Key::K => Some('k'),
        Key::L => Some('l'),
        Key::M => Some('m'),
        Key::N => Some('n'),
        Key::O => Some('o'),
        Key::P => Some('p'),
        Key::Q => Some('q'),
        Key::R => Some('r'),
        Key::S => Some('s'),
        Key::T => Some('t'),
        Key::U => Some('u'),
        Key::V => Some('v'),
        Key::W => Some('w'),
        Key::X => Some('x'),
        Key::Y => Some('y'),
        Key::Z => Some('z'),
        _ => None,
    }
}

/// The key that a keyboard symbol number stands for. The numbers are those of the X11 keysym
/// table, which the display protocol uses: Latin-1 symbols carry their character code, and
/// function symbols lie above `0xff00`. The left and the right key of each modifier stand
/// for the same key.
pub open spec fn key_of_keysym(keysym: u32) -> Key {
    match keysym {
        0x0061 => Key::A,
        0x0062 => Key::B,
        0x0063 => Key::C,
        0x0064 => Key::D,
        0x0065 => Key::E,
        0x0066 => Key::F,
        0x0067 => Key::G,
        0x0068 => Key::H,
        0x0069 => Key::I,
        0x006a => Key::J,
        0x006b => Key::K,
        0x006c => Key::L,
        0x006d => Key::M,
        0x006e => Key::N,
        0x006f => Key::O,
        0x0070 => Key::P,
        0x0071 => Key::Q,
        0x0072 => Key::R,
        0x0073 => Key::S,
        0x0074 => Key::T,
        0x0075 => Key::U,
        0x0076 => Key::V,
        0x0077 => Key::W,
        0x0078 => Key::X,
        0x0079 => Key::Y,
        0x007a => Key::Z,
        0x0030 => Key::Num0,
        0x0031 => Key::Num1,
        0x0032 => Key::Num2,
        0x0033 => Key::Num3,
        0x0034 => Key::Num4,
        0x0035 => Key::Num5,
        0x0036 => Key::Num6,
        0x0037 => Key::Num7,
        0x0038 => Key::Num8,
        0x0039 => Key::Num9,
        0xff52 => Key::Up,
        0xff54 => Key::Down,
        0xff51 => Key::Left,
        0xff53 => Key::Right,
        0xff0d => Key::Enter,
        0xff1b => Key::Escape,
        0xff08 => Key::Backspace,
        0xff09 => Key::Tab,
        0x0020 => Key::Space,
        0x003a => Key::Colon,
        0x003b => Key::Semicolon,
        0x002e => Key::Period,
        0x002c => Key::Comma,
        0xffe1 | 0xffe2 => Key::Shift,
        0xffe3 | 0xffe4 => Key::Control,
        0xffe9 | 0xffea => Key::Alt,
        0xffeb | 0xffec => Key::Super,
        _ => Key::Unknown(keysym),
    }
}

/// The symbol is that of a modifier key: the left or the right Shift, Control, Alt or
/// Super key.
pub open spec fn is_modifier_keysym(keysym: u32) -> bool {
    0xffe1 <= keysym <= 0xffe4 || 0xffe9 <= keysym <= 0xffec
}

/// The key is one of the four modifier keys.
pub open spec fn is_modifier_key(key: Key) -> bool {
    key == Key::Shift || key == Key::Control || key == Key::Alt || key == Key::Super
}

/// The symbols of the modifier keys, and no others, stand for the modifier keys.
pub proof fn lemma_modifier_keysyms(keysym: u32)
    ensures
        is_modifier_key(key_of_keysym(keysym)) <==> is_modifier_keysym(keysym),
{
}

/// The code point is a control code (general category Cc): C0, DEL, or C1.
pub open spec fn is_control_char(c: char) -> bool {
    (c as u32) <= 0x1f || (0x7f <= (c as u32) && (c as u32) <= 0x9f)
}

/// Whether a character is a control code, as `char::is_control` tells it, decided from the
/// code point.
pub fn is_control(c: char) -> (r: bool)
    ensures
        r == is_control_char(c),
{
    let n: u32 = c as u32;
    n <= 0x1f || (0x7f <= n && n <= 0x9f)
}

/// Calls `String::push` of the standard library. Taken on trust: it appends the character
/// to the end of the string and changes nothing else of it.
#[verifier::external_body]
fn push_char(s: &mut String, c: char)
    ensures
        final(s)@ == old(s)@.push(c),
{
    s.push(c)
}

impl Key {
    /// The character this key types, with or without shift.
    pub fn glyph(&self, shifted: bool) -> (r: Option<char>)
        ensures
            r == key_glyph(*self, shifted),
    {
        match *self {
            Key::A => Some(if shifted { 'A' } else { 'a' }),
            Key::B => Some(if shifted { 'B' } else { 'b' }),
            Key::C => Some(if shifted { 'C' } else { 'c' }),
            Key::D => Some(if shifted { 'D' } else { 'd' }),
            Key::E => Some(if shifted { 'E' } else { 'e' }),
            Key::F => Some(if shifted { 'F' } else { 'f' }),
            Key::G => Some(if shifted { 'G' } else { 'g' }),
            Key::H => Some(if shifted { 'H' } else { 'h' }),
            Key::I => Some(if shifted { 'I' } else { 'i' }),
            Key::J => Some(if shifted { 'J' } else { 'j' }),
            Key::K => Some(if shifted { 'K' } else { 'k' }),
            Key::L => Some(if shifted { 'L' } else { 'l' }),
            Key::M => Some(if shifted { 'M' } else { 'm' }),
            Key::N => Some(if shifted { 'N' } else { 'n' }),
            Key::O => Some(if shifted { 'O' } else { 'o' }),
            Key::P => Some(if shifted { 'P' } else { 'p' }),
            Key::Q => Some(if shifted { 'Q' } else { 'q' }),
            Key::R => Some(if shifted { 'R' } else { 'r' }),
            Key::S => Some(if shifted { 'S' } else { 's' }),
            Key::T => Some(if shifted { 'T' } else { 't' }),
            Key::U => Some(if shifted { 'U' } else { 'u' }),
            Key::V => Some(if shifted { 'V' } else { 'v' }),
            Key::W => Some(if shifted { 'W' } else { 'w' }),
            Key::X => Some(if shifted { 'X' } else { 'x' }),
            Key::Y => Some(if shifted { 'Y' } else { 'y' }),
            Key::Z => Some(if shifted { 'Z' } else { 'z' }),
            Key::Num0 => Some(if shifted { ')' } else { '0' }),
            Key::Num1 => Some(if shifted { '!' } else { '1' }),
            Key::Num2 => Some(if shifted { '@' } else { '2' }),
            Key::Num3 => Some(if shifted { '#' } else { '3' }),
            Key::Num4 => Some(if shifted { '$' } else { '4' }),
            Key::Num5 => Some(if shifted { '%' } else { '5' }),
            Key::Num6 => Some(if shifted { '^' } else { '6' }),
            Key::Num7 => Some(if shifted { '&' } else { '7' }),
            Key::Num8 => Some(if shifted { '*' } else { '8' }),
            Key::Num9 => Some(if shifted { '(' } else { '9' }),
            Key::Period => Some(if shifted { '>' } else { '.' }),
            Key::Comma => Some(if shifted { '<' } else { ',' }),
            Key::Semicolon => Some(if shifted { ':' } else { ';' }),
            Key::Colon => Some(if shifted { ':' } else { ':' }),
            Key::Slash => Some(if shifted { '?' } else { '/' }),
            Key::Backslash => Some(if shifted { '|' } else { '\\' }),
            Key::Minus => Some(if shifted { '_' } else { '-' }),
            Key::Equals => Some(if shifted { '+' } else { '=' }),
            Key::BracketLeft => Some(if shifted { '{' } else { '[' }),
            Key::BracketRight => Some(if shifted { '}' } else { ']' }),
            Key::Quote => Some(if shifted { '"' } else { '\'' }),
            Key::Grave => Some(if shifted { '~' } else { '`' }),
            Key::Enter => Some(if shifted { '\n' } else { '\n' }),
            Key::Escape => Some(if shifted { '\x1b' } else { '\x1b' }),
            Key::Backspace => Some(if shifted { '\x08' } else { '\x08' }),
            Key::Tab => Some(if shifted { '\t' } else { '\t' }),
            Key::Space => Some(if shifted { ' ' } else { ' ' }),
            _ => None,
        }
    }

    /// Get the base lowercase character for this key (for Ctrl combinations).
    pub fn to_base_char(&self) -> (r: Option<char>)
        ensures
            r == key_letter(*self),
    {
        match *self {
            Key::A => Some('a'),
            Key::B => Some('b'),
            Key::C => Some('c'),
            Key::D => Some('d'),
            Key::E => Some('e'),
            Key::F => Some('f'),
            Key::G => Some('g'),
            Key::H => Some('h'),
            Key::I => Some('i'),
            Key::J => Some('j'),
            Key::K => Some('k'),
            Key::L => Some('l'),
            Key::M => Some('m'),
            Key::N => Some('n'),
            Key::O => Some('o'),
            Key::P => Some('p'),
            Key::Q => Some('q'),
            Key::R => Some('r'),
            Key::S => Some('s'),
            Key::T => Some('t'),
            Key::U => Some('u'),
            Key::V => Some('v'),
            Key::W => Some('w'),
            Key::X => Some('x'),
            Key::Y => Some('y'),
            Key::Z => Some('z'),
            _ => None,
        }
    }

    /// Get the string representation of this key, considering shift state.
    pub fn to_string_with_shift(&self, shifted: bool) -> (r: Option<String>)
        ensures
            match key_glyph(*self, shifted) {
                Some(c) => r matches Some(s) && s@ == seq![c],
                None => r is None,
            },
    {
        match self.glyph(shifted) {
            Some(c) => {
                let mut s = String::new();
                push_char(&mut s, c);
                assert(s@ =~= seq![c]);
                Some(s)
            },
            None => None,
        }
    }

    /// The key for a keyboard symbol number; symbols without a name of their own are kept as
    /// `Key::Unknown` with their number.
    pub fn from_keysym(keysym: u32) -> (key: Key)
        ensures
            key == key_of_keysym(keysym),
    {
        match keysym {
            0x0061 => Key::A,
            0x0062 => Key::B,
            0x0063 => Key::C,
            0x0064 => Key::D,
            0x0065 => Key::E,
            0x0066 => Key::F,
            0x0067 => Key::G,
            0x0068 => Key::H,
            0x0069 => Key::I,
            0x006a => Key::J,
            0x006b => Key::K,
            0x006c => Key::L,
            0x006d => Key::M,
            0x006e => Key::N,
            0x006f => Key::O,
            0x0070 => Key::P,
            0x0071 => Key::Q,
            0x0072 => Key::R,
            0x0073 => Key::S,
            0x0074 => Key::T,
            0x0075 => Key::U,
            0x0076 => Key::V,
            0x0077 => Key::W,
            0x0078 => Key::X,
            0x0079 => Key::Y,
            0x007a => Key::Z,
            0x0030 => Key::Num0,
            0x0031 => Key::Num1,
            0x0032 => Key::Num2,
            0x0033 => Key::Num3,
            0x0034 => Key::Num4,
            0x0035 => Key::Num5,
            0x0036 => Key::Num6,
            0x0037 => Key::Num7,
            0x0038 => Key::Num8,
            0x0039 => Key::Num9,
            0xff52 => Key::Up,
            0xff54 => Key::Down,
            0xff51 => Key::Left,
            0xff53 => Key::Right,
            0xff0d => Key::Enter,
            0xff1b => Key::Escape,
            0xff08 => Key::Backspace,
            0xff09 => Key::Tab,
            0x0020 => Key::Space,
            0x003a => Key::Colon,
            0x003b => Key::Semicolon,
            0x002e => Key::Period,
            0x002c => Key::Comma,
            0xffe1 | 0xffe2 => Key::Shift,
            0xffe3 | 0xffe4 => Key::Control,
            0xffe9 | 0xffea => Key::Alt,
            0xffeb | 0xffec => Key::Super,
            _ => Key::Unknown(keysym),
        }
    }

    /// Whether this is one of the four modifier keys, which never repeat.
    pub fn is_modifier(&self) -> (r: bool)
        ensures
            r == is_modifier_key(*self),
    {
        match *self {
            Key::Shift | Key::Control | Key::Alt | Key::Super => true,
            _ => false,
        }
    }
}

/// A key press or release, with the text it produced and the modifiers held at the time.
#[derive(Clone, Debug)]
pub struct KeyEvent {
    pub key: Key,
    pub text: Option<String>,
    pub modifiers: Modifiers,
    pub state: KeyState,
}

/// What a [`KeyEvent`] holds, with its text as a sequence of characters.
pub struct KeyEventView {
    pub key: Key,
    pub text: Option<Seq<char>>,
    pub modifiers: Modifiers,
    pub state: KeyState,
}

impl View for KeyEvent {
    type V = KeyEventView;

    open spec fn view(&self) -> KeyEventView {
        KeyEventView {
            key: self.key,
            text: match self.text {
                Some(t) => Some(t@),
                None => None,
            },
            modifiers: self.modifiers,
            state: self.state,
        }
    }
}

/// The string under which a key event is looked up in key bindings:
/// with Ctrl held, `C-` and the key's letter, and nothing for a key that is no letter;
/// otherwise the event's own text, where it is not empty and does not start with a control
/// code; otherwise the character of the key, shifted or not.
pub open spec fn key_string(ev: KeyEventView) -> Option<Seq<char>> {
    if ev.modifiers.ctrl {
        match key_letter(ev.key) {
            Some(c) => Some(seq!['C', '-', c]),
            None => None,
        }
    } else if has_printable_text(ev.text) {
        ev.text
    } else {
        match key_glyph(ev.key, ev.modifiers.shift) {
            Some(c) => Some(seq![c]),
            None => None,
        }
    }
}

/// The text is present, not empty, and does not start with a control code.
pub open spec fn has_printable_text(text: Option<Seq<char>>) -> bool {
    match text {
        Some(t) => t.len() > 0 && !is_control_char(t[0]),
        None => false,
    }
}

impl KeyEvent {
    /// Convert the key event to a string representation suitable for keybinding matching.
    /// Returns None for keys that don't produce meaningful input (like bare modifier presses).
    pub fn to_key_string(&self) -> (r: Option<String>)
        ensures
            match key_string(self@) {
                Some(s) => r matches Some(t) && t@ == s,
                None => r is None,
            },
    {
        if self.modifiers.ctrl {
            return match self.key.to_base_char() {
                Some(c) => {
                    let mut s = String::new();
                    push_char(&mut s, 'C');
                    push_char(&mut s, '-');
                    push_char(&mut s, c);
                    assert(s@ =~= seq!['C', '-', c]);
                    Some(s)
                },
                None => None,
            };
        }
        match &self.text {
            Some(t) => {
                if !t.as_str().is_empty() {
                    let c = t.as_str().get_char(0);
                    if !is_control(c) {
                        return Some(t.clone());
                    }
                }
            },
            None => {},
        }
        self.key.to_string_with_shift(self.modifiers.shift)
    }

    /// A copy of the event.
    pub fn duplicate(&self) -> (copy: KeyEvent)
        ensures
            copy == *self,
    {
        let text = match &self.text {
            Some(t) => Some(t.clone()),
            None => None,
        };
        KeyEvent { key: self.key, text, modifiers: self.modifiers, state: self.state }
    }
}

/// A button of the pointing device.
#[derive(Clone, Copy, Debug, PartialEq, Eq, Structural)]
pub enum PointerButton {
    Left,
    Right,
    Middle,
    /// Any other button, with its code.
    Other(u32),
}

/// The button that an input event code stands for: 272, 273 and 274 are the left, right
/// and middle button.
pub open spec fn button_of_code(code: u32) -> PointerButton {
    if code == 272 {
        PointerButton::Left
    } else if code == 273 {
        PointerButton::Right
    } else if code == 274 {
        PointerButton::Middle
    } else {
        PointerButton::Other(code)
    }
}

impl PointerButton {
    /// The button for an input event code.
    pub fn from_code(code: u32) -> (button: PointerButton)
        ensures
            button == button_of_code(code),
    {
        if code == 272 {
            PointerButton::Left
        } else if code == 273 {
            PointerButton::Right
        } else if code == 274 {
            PointerButton::Middle
        } else {
            PointerButton::Other(code)
        }
    }
}

/// What happened to the pointer.
#[derive(Clone, Copy, Debug, PartialEq, Eq, Structural)]
pub enum PointerEventKind {
    Enter,
    Leave,
    Motion,
    Press(PointerButton),
    Release(PointerButton),
    Scroll { dx: i32, dy: i32 },
}

/// A pointer event as the application sees it. Coordinates are surface-local, in the
/// protocol's fixed-point format: 256 units to the pixel.
#[derive(Clone, Copy, Debug, PartialEq, Eq, Structural)]
pub struct PointerEvent {
    pub kind: PointerEventKind,
    pub x: i32,
    pub y: i32,
}

/// What the display server reported of the pointer.
#[derive(Clone, Copy, Debug, PartialEq, Eq, Structural)]
pub enum PointerInputKind {
    Enter,
    Leave,
    Motion,
    Press { button: u32, serial: u32 },
    Release { button: u32 },
    /// Scrolling, in discrete steps along each axis.
    Axis { horizontal: i32, vertical: i32 },
}

/// A pointer event as the display server reports it: the protocol surface it happened on,
/// the position on that surface in 1/256 of a pixel, and what happened.
#[derive(Clone, Copy, Debug, PartialEq, Eq, Structural)]
pub struct PointerInput {
    pub surface: u32,
    pub x: i32,
    pub y: i32,
    pub kind: PointerInputKind,
}

} // verus!
