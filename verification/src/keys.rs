//! Keys: what a key press sends to a program.

use vstd::prelude::*;
use vstd::utf8::encode_utf8;

verus! {

/// A physical key.
#[derive(Clone, Copy, Debug, PartialEq, Eq, Structural)]
pub enum KeyCode {
    /// The key of the letter A.
    KeyA,
    /// The key of the letter B.
    KeyB,
    /// The key of the letter C.
    KeyC,
    /// The key of the letter D.
    KeyD,
    /// The key of the letter E.
    KeyE,
    /// The key of the letter F.
    KeyF,
    /// The key of the letter G.
    KeyG,
    /// The key of the letter H.
    KeyH,
    /// The key of the letter I.
    KeyI,
    /// The key of the letter J.
    KeyJ,
    /// The key of the letter K.
    KeyK,
    /// The key of the letter L.
    KeyL,
    /// The key of the letter M.
    KeyM,
    /// The key of the letter N.
    KeyN,
    /// The key of the letter O.
    KeyO,
    /// The key of the letter P.
    KeyP,
    /// The key of the letter Q.
    KeyQ,
    /// The key of the letter R.
    KeyR,
    /// The key of the letter S.
    KeyS,
    /// The key of the letter T.
    KeyT,
    /// The key of the letter U.
    KeyU,
    /// The key of the letter V.
    KeyV,
    /// The key of the letter W.
    KeyW,
    /// The key of the letter X.
    KeyX,
    /// The key of the letter Y.
    KeyY,
    /// The key of the letter Z.
    KeyZ,
    /// The key of the digit 0, on the main row.
    Digit0,
    /// The key of the digit 1, on the main row.
    Digit1,
    /// The key of the digit 2, on the main row.
    Digit2,
    /// The key of the digit 3, on the main row.
    Digit3,
    /// The key of the digit 4, on the main row.
    Digit4,
    /// The key of the digit 5, on the main row.
    Digit5,
    /// The key of the digit 6, on the main row.
    Digit6,
    /// The key of the digit 7, on the main row.
    Digit7,
    /// The key of the digit 8, on the main row.
    Digit8,
    /// The key of the digit 9, on the main row.
    Digit9,
    /// The key of the digit 0, on the keypad.
    Numpad0,
    /// The key of the digit 1, on the keypad.
    Numpad1,
    /// The key of the digit 2, on the keypad.
    Numpad2,
    /// The key of the digit 3, on the keypad.
    Numpad3,
    /// The key of the digit 4, on the keypad.
    Numpad4,
    /// The key of the digit 5, on the keypad.
    Numpad5,
    /// The key of the digit 6, on the keypad.
    Numpad6,
    /// The key of the digit 7, on the keypad.
    Numpad7,
    /// The key of the digit 8, on the keypad.
    Numpad8,
    /// The key of the digit 9, on the keypad.
    Numpad9,
    /// Function key 1.
    F1,
    /// Function key 2.
    F2,
    /// Function key 3.
    F3,
    /// Function key 4.
    F4,
    /// Function key 5.
    F5,
    /// Function key 6.
    F6,
    /// Function key 7.
    F7,
    /// Function key 8.
    F8,
    /// Function key 9.
    F9,
    /// Function key 10.
    F10,
    /// Function key 11.
    F11,
    /// Function key 12.
    F12,
    /// Cursor up.
    ArrowUp,
    /// Cursor down.
    ArrowDown,
    /// Cursor left.
    ArrowLeft,
    /// Cursor right.
    ArrowRight,
    /// Enter.
    Enter,
    /// Enter, on the keypad.
    NumpadEnter,
    /// Tab.
    Tab,
    /// Space.
    Space,
    /// Backspace.
    Backspace,
    /// Escape.
    Escape,
    /// Insert.
    Insert,
    /// Delete.
    Delete,
    /// Home.
    Home,
    /// End.
    End,
    /// Page up.
    PageUp,
    /// Page down.
    PageDown,
    /// The equals sign, which shares its key with plus.
    Equal,
    /// Minus.
    Minus,
    /// Plus, on the keypad.
    NumpadAdd,
    /// Minus, on the keypad.
    NumpadSubtract,
    /// Control, left.
    ControlLeft,
    /// Control, right.
    ControlRight,
    /// Alt, left.
    AltLeft,
    /// Alt, right: the one that makes other characters.
    AltRight,
    /// Shift, left.
    ShiftLeft,
    /// Shift, right.
    ShiftRight,
    /// Super, left.
    SuperLeft,
    /// Super, right.
    SuperRight,
    /// Any other key, by a number of its own.
    Other(u32),
}

/// What a key means on the user's layout.
#[derive(Debug)]
pub enum Key {
    /// Characters.
    Character(String),
    /// A key that moves the cursor.
    Navigation(NavigationKey),
    /// Any other meaning.
    Other,
}

/// A key that moves the cursor.
#[derive(Clone, Copy, Debug, PartialEq, Eq, Structural)]
pub enum NavigationKey {
    /// Cursor up.
    ArrowUp,
    /// Cursor down.
    ArrowDown,
    /// Cursor right.
    ArrowRight,
    /// Cursor left.
    ArrowLeft,
    /// Home.
    Home,
    /// End.
    End,
    /// Page up.
    PageUp,
    /// Page down.
    PageDown,
    /// Insert.
    Insert,
    /// Delete.
    Delete,
}

impl NavigationKey {
    /// The navigation key that a physical key is.
    pub open spec fn of(code: KeyCode) -> Option<NavigationKey> {
        match code {
            KeyCode::ArrowUp => Some(NavigationKey::ArrowUp),
            KeyCode::ArrowDown => Some(NavigationKey::ArrowDown),
            KeyCode::ArrowRight => Some(NavigationKey::ArrowRight),
            KeyCode::ArrowLeft => Some(NavigationKey::ArrowLeft),
            KeyCode::Home => Some(NavigationKey::Home),
            KeyCode::End => Some(NavigationKey::End),
            KeyCode::PageUp => Some(NavigationKey::PageUp),
            KeyCode::PageDown => Some(NavigationKey::PageDown),
            KeyCode::Insert => Some(NavigationKey::Insert),
            KeyCode::Delete => Some(NavigationKey::Delete),
            _ => None,
        }
    }

    /// The navigation key that a physical key is.
    pub fn from_key_code(code: KeyCode) -> (key: Option<NavigationKey>)
        ensures
            key == NavigationKey::of(code),
    {
        match code {
            KeyCode::ArrowUp => Some(NavigationKey::ArrowUp),
            KeyCode::ArrowDown => Some(NavigationKey::ArrowDown),
            KeyCode::ArrowRight => Some(NavigationKey::ArrowRight),
            KeyCode::ArrowLeft => Some(NavigationKey::ArrowLeft),
            KeyCode::Home => Some(NavigationKey::Home),
            KeyCode::End => Some(NavigationKey::End),
            KeyCode::PageUp => Some(NavigationKey::PageUp),
            KeyCode::PageDown => Some(NavigationKey::PageDown),
            KeyCode::Insert => Some(NavigationKey::Insert),
            KeyCode::Delete => Some(NavigationKey::Delete),
            _ => None,
        }
    }

    /// The physical key of the dedicated navigation cluster.
    pub open spec fn code(self) -> KeyCode {
        match self {
            NavigationKey::ArrowUp => KeyCode::ArrowUp,
            NavigationKey::ArrowDown => KeyCode::ArrowDown,
            NavigationKey::ArrowRight => KeyCode::ArrowRight,
            NavigationKey::ArrowLeft => KeyCode::ArrowLeft,
            NavigationKey::Home => KeyCode::Home,
            NavigationKey::End => KeyCode::End,
            NavigationKey::PageUp => KeyCode::PageUp,
            NavigationKey::PageDown => KeyCode::PageDown,
            NavigationKey::Insert => KeyCode::Insert,
            NavigationKey::Delete => KeyCode::Delete,
        }
    }

    /// The physical key of the dedicated navigation cluster.
    pub fn key_code(self) -> (code: KeyCode)
        ensures
            code == self.code(),
    {
        match self {
            NavigationKey::ArrowUp => KeyCode::ArrowUp,
            NavigationKey::ArrowDown => KeyCode::ArrowDown,
            NavigationKey::ArrowRight => KeyCode::ArrowRight,
            NavigationKey::ArrowLeft => KeyCode::ArrowLeft,
            NavigationKey::Home => KeyCode::Home,
            NavigationKey::End => KeyCode::End,
            NavigationKey::PageUp => KeyCode::PageUp,
            NavigationKey::PageDown => KeyCode::PageDown,
            NavigationKey::Insert => KeyCode::Insert,
            NavigationKey::Delete => KeyCode::Delete,
        }
    }

    /// The letter of an arrow's sequence.
    pub open spec fn arrow(self) -> Option<u8> {
        match self {
            NavigationKey::ArrowUp => Some(0x41u8),
            NavigationKey::ArrowDown => Some(0x42u8),
            NavigationKey::ArrowRight => Some(0x43u8),
            NavigationKey::ArrowLeft => Some(0x44u8),
            _ => None,
        }
    }

    /// The bytes that the key sends: an arrow is a control sequence that says
    /// whether control is held, or else goes by the cursor mode; home and end
    /// go by the cursor mode; the others have a number each.
    pub open spec fn bytes(self, ctrl: bool, application: bool) -> Seq<u8> {
        match self.arrow() {
            Some(letter) => if ctrl {
                seq![0x1bu8, 0x5b, 0x31, 0x3b, 0x35, letter]
            } else if application {
                seq![0x1bu8, 0x4f, letter]
            } else {
                seq![0x1bu8, 0x5b, letter]
            },
            None => match self {
                NavigationKey::Home => if application {
                    seq![0x1bu8, 0x4f, 0x48]
                } else {
                    seq![0x1bu8, 0x5b, 0x31, 0x7e]
                },
                NavigationKey::End => if application {
                    seq![0x1bu8, 0x4f, 0x46]
                } else {
                    seq![0x1bu8, 0x5b, 0x34, 0x7e]
                },
                NavigationKey::PageUp => seq![0x1bu8, 0x5b, 0x35, 0x7e],
                NavigationKey::PageDown => seq![0x1bu8, 0x5b, 0x36, 0x7e],
                NavigationKey::Insert => seq![0x1bu8, 0x5b, 0x32, 0x7e],
                _ => seq![0x1bu8, 0x5b, 0x33, 0x7e],
            },
        }
    }

    fn arrow_letter(self) -> (letter: Option<u8>)
        ensures
            letter == self.arrow(),
    {
        match self {
            NavigationKey::ArrowUp => Some(0x41u8),
            NavigationKey::ArrowDown => Some(0x42u8),
            NavigationKey::ArrowRight => Some(0x43u8),
            NavigationKey::ArrowLeft => Some(0x44u8),
            _ => None,
        }
    }

    /// The bytes that the key sends.
    pub fn encode(self, ctrl_pressed: bool, application_cursor: bool) -> (bytes: Vec<u8>)
        ensures
            bytes@ == self.bytes(ctrl_pressed, application_cursor),
    {
        let bytes: Vec<u8> = match self.arrow_letter() {
            Some(letter) => if ctrl_pressed {
                vec![0x1b, 0x5b, 0x31, 0x3b, 0x35, letter]
            } else if application_cursor {
                vec![0x1b, 0x4f, letter]
            } else {
                vec![0x1b, 0x5b, letter]
            },
            None => match self {
                NavigationKey::Home => if application_cursor {
                    vec![0x1b, 0x4f, 0x48]
                } else {
                    vec![0x1b, 0x5b, 0x31, 0x7e]
                },
                NavigationKey::End => if application_cursor {
                    vec![0x1b, 0x4f, 0x46]
                } else {
                    vec![0x1b, 0x5b, 0x34, 0x7e]
                },
                NavigationKey::PageUp => vec![0x1b, 0x5b, 0x35, 0x7e],
                NavigationKey::PageDown => vec![0x1b, 0x5b, 0x36, 0x7e],
                NavigationKey::Insert => vec![0x1b, 0x5b, 0x32, 0x7e],
                _ => vec![0x1b, 0x5b, 0x33, 0x7e],
            },
        };
        assert(bytes@ =~= self.bytes(ctrl_pressed, application_cursor));
        bytes
    }
}

/// The navigation key that a key means.
pub open spec fn navigation_of(key: Key) -> Option<NavigationKey> {
    match key {
        Key::Navigation(key) => Some(key),
        _ => None,
    }
}

/// The navigation key that a key means; on the keypad it may differ from the
/// physical key.
pub fn from_logical_key(key: &Key) -> (navigation: Option<NavigationKey>)
    ensures
        navigation == navigation_of(*key),
{
    match key {
        Key::Navigation(key) => Some(*key),
        _ => None,
    }
}

/// The physical key that a binding is looked up by: the one that the key
/// means, where it means navigation.
pub open spec fn binding_code(code: KeyCode, key: Key) -> KeyCode {
    match navigation_of(key) {
        Some(key) => key.code(),
        None => code,
    }
}

/// The physical key that a binding is looked up by.
pub fn navigation_key_code(code: KeyCode, key: &Key) -> (bound: KeyCode)
    ensures
        bound == binding_code(code, *key),
{
    match from_logical_key(key) {
        Some(key) => key.key_code(),
        None => code,
    }
}

/// The control byte of a letter: its place in the alphabet.
pub open spec fn control_byte(code: KeyCode) -> Option<u8> {
    match code {
        KeyCode::KeyA => Some(1u8),
        KeyCode::KeyB => Some(2u8),
        KeyCode::KeyC => Some(3u8),
        KeyCode::KeyD => Some(4u8),
        KeyCode::KeyE => Some(5u8),
        KeyCode::KeyF => Some(6u8),
        KeyCode::KeyG => Some(7u8),
        KeyCode::KeyH => Some(8u8),
        KeyCode::KeyI => Some(9u8),
        KeyCode::KeyJ => Some(10u8),
        KeyCode::KeyK => Some(11u8),
        KeyCode::KeyL => Some(12u8),
        KeyCode::KeyM => Some(13u8),
        KeyCode::KeyN => Some(14u8),
        KeyCode::KeyO => Some(15u8),
        KeyCode::KeyP => Some(16u8),
        KeyCode::KeyQ => Some(17u8),
        KeyCode::KeyR => Some(18u8),
        KeyCode::KeyS => Some(19u8),
        KeyCode::KeyT => Some(20u8),
        KeyCode::KeyU => Some(21u8),
        KeyCode::KeyV => Some(22u8),
        KeyCode::KeyW => Some(23u8),
        KeyCode::KeyX => Some(24u8),
        KeyCode::KeyY => Some(25u8),
        KeyCode::KeyZ => Some(26u8),
        _ => None,
    }
}

/// The control byte of a letter.
pub fn ctrl_keycode_byte(code: KeyCode) -> (byte: Option<u8>)
    ensures
        byte == control_byte(code),
{
    match code {
        KeyCode::KeyA => Some(1u8),
        KeyCode::KeyB => Some(2u8),
        KeyCode::KeyC => Some(3u8),
        KeyCode::KeyD => Some(4u8),
        KeyCode::KeyE => Some(5u8),
        KeyCode::KeyF => Some(6u8),
        KeyCode::KeyG => Some(7u8),
        KeyCode::KeyH => Some(8u8),
        KeyCode::KeyI => Some(9u8),
        KeyCode::KeyJ => Some(10u8),
        KeyCode::KeyK => Some(11u8),
        KeyCode::KeyL => Some(12u8),
        KeyCode::KeyM => Some(13u8),
        KeyCode::KeyN => Some(14u8),
        KeyCode::KeyO => Some(15u8),
        KeyCode::KeyP => Some(16u8),
        KeyCode::KeyQ => Some(17u8),
        KeyCode::KeyR => Some(18u8),
        KeyCode::KeyS => Some(19u8),
        KeyCode::KeyT => Some(20u8),
        KeyCode::KeyU => Some(21u8),
        KeyCode::KeyV => Some(22u8),
        KeyCode::KeyW => Some(23u8),
        KeyCode::KeyX => Some(24u8),
        KeyCode::KeyY => Some(25u8),
        KeyCode::KeyZ => Some(26u8),
        _ => None,
    }
}

/// Whether a key is a modifier.
pub open spec fn modifies(code: KeyCode) -> bool {
    match code {
        KeyCode::ControlLeft => true,
        KeyCode::ControlRight => true,
        KeyCode::AltLeft => true,
        KeyCode::AltRight => true,
        KeyCode::ShiftLeft => true,
        KeyCode::ShiftRight => true,
        KeyCode::SuperLeft => true,
        KeyCode::SuperRight => true,
        _ => false,
    }
}

/// Whether a key is a modifier.
pub fn is_modifier_key(code: KeyCode) -> (modifier: bool)
    ensures
        modifier == modifies(code),
{
    match code {
        KeyCode::ControlLeft => true,
        KeyCode::ControlRight => true,
        KeyCode::AltLeft => true,
        KeyCode::AltRight => true,
        KeyCode::ShiftLeft => true,
        KeyCode::ShiftRight => true,
        KeyCode::SuperLeft => true,
        KeyCode::SuperRight => true,
        _ => false,
    }
}

/// The code point of a special key, in decimal.
pub open spec fn special_point(code: KeyCode) -> Option<Seq<u8>> {
    match code {
        KeyCode::Enter => Some(seq![0x31u8, 0x33]),
        KeyCode::NumpadEnter => Some(seq![0x31u8, 0x33]),
        KeyCode::Tab => Some(seq![0x39u8]),
        KeyCode::Backspace => Some(seq![0x31u8, 0x32, 0x37]),
        KeyCode::Escape => Some(seq![0x32u8, 0x37]),
        _ => None,
    }
}

/// The digit that says which modifiers are held.
pub open spec fn modifier_digit(ctrl: bool, alt: bool, shift: bool) -> u8 {
    (0x31 + (if shift {
        1int
    } else {
        0
    }) + (if alt {
        2int
    } else {
        0
    }) + (if ctrl {
        4int
    } else {
        0
    })) as u8
}

/// What a special key with modifiers sends, where the program asked to tell
/// them apart: in the newer form if it asked for that, else in the older.
pub open spec fn modified_special(
    code: KeyCode,
    ctrl: bool,
    alt: bool,
    shift: bool,
    kitty: bool,
    other_keys: bool,
) -> Option<Seq<u8>> {
    match special_point(code) {
        Some(point) => if !ctrl && !alt && !shift {
            None
        } else if kitty {
            Some(
                seq![0x1bu8, 0x5b] + point + seq![0x3bu8, modifier_digit(ctrl, alt, shift), 0x75u8],
            )
        } else if other_keys {
            Some(
                seq![
                    0x1bu8,
                    0x5b,
                    0x32,
                    0x37,
                    0x3b,
                    modifier_digit(ctrl, alt, shift),
                    0x3b,
                ] + point + seq![0x7eu8],
            )
        } else {
            None
        },
        None => None,
    }
}

fn put(bytes: &mut Vec<u8>, more: &Vec<u8>)
    ensures
        final(bytes)@ == old(bytes)@ + more@,
{
    let mut i: usize = 0;
    assert(bytes@ + more@.take(0) =~= bytes@);
    while i < more.len()
        invariant
            i <= more@.len(),
            bytes@ == old(bytes)@ + more@.take(i as int),
        decreases more.len() - i,
    {
        bytes.push(more[i]);
        assert(bytes@ =~= old(bytes)@ + more@.take(i + 1));
        i += 1;
    }
    assert(more@.take(i as int) =~= more@);
}

/// What a special key with modifiers sends.
pub fn encode_modified_special_key(
    code: KeyCode,
    ctrl_pressed: bool,
    alt_pressed: bool,
    shift_pressed: bool,
    kitty_disambiguate: bool,
    modify_other_keys: Option<u8>,
) -> (bytes: Option<Vec<u8>>)
    ensures
        crate::pty::bytes_view(bytes) == modified_special(
            code,
            ctrl_pressed,
            alt_pressed,
            shift_pressed,
            kitty_disambiguate,
            modify_other_keys is Some,
        ),
{
    let point: Vec<u8> = match code {
        KeyCode::Enter => vec![0x31, 0x33],
        KeyCode::NumpadEnter => vec![0x31, 0x33],
        KeyCode::Tab => vec![0x39],
        KeyCode::Backspace => vec![0x31, 0x32, 0x37],
        KeyCode::Escape => vec![0x32, 0x37],
        _ => {
            return None;
        },
    };
    assert(Some(point@) =~= special_point(code));
    if !ctrl_pressed && !alt_pressed && !shift_pressed {
        return None;
    }
    let mut digit: u8 = 0x31;
    if shift_pressed {
        digit += 1;
    }
    if alt_pressed {
        digit += 2;
    }
    if ctrl_pressed {
        digit += 4;
    }
    if kitty_disambiguate {
        let mut bytes: Vec<u8> = vec![0x1b, 0x5b];
        put(&mut bytes, &point);
        let tail: Vec<u8> = vec![0x3b, digit, 0x75];
        put(&mut bytes, &tail);
        assert(bytes@ =~= seq![0x1bu8, 0x5b] + point@ + seq![0x3bu8, digit, 0x75u8]);
        return Some(bytes);
    }
    if modify_other_keys.is_some() {
        let mut bytes: Vec<u8> = vec![0x1b, 0x5b, 0x32, 0x37, 0x3b, digit, 0x3b];
        put(&mut bytes, &point);
        bytes.push(0x7e);
        assert(bytes@ =~= seq![0x1bu8, 0x5b, 0x32, 0x37, 0x3b, digit, 0x3b] + point@
            + seq![0x7eu8]);
        return Some(bytes);
    }
    None
}

/// The text that a key event carries, or else the characters that the key
/// means; none if that is empty.
pub open spec fn printable(text: Option<Seq<char>>, key: Key) -> Option<Seq<char>> {
    let found = match text {
        Some(text) => Some(text),
        None => match key {
            Key::Character(chars) => Some(chars@),
            _ => None,
        },
    };
    match found {
        Some(chars) => if chars.len() == 0 {
            None
        } else {
            found
        },
        None => None,
    }
}

/// The text to send for a key event.
pub fn printable_text<'a>(text: Option<&'a str>, key: &'a Key) -> (chars: Option<&'a str>)
    ensures
        match chars {
            Some(chars) => Some(chars@),
            None => None,
        } == printable(
            match text {
                Some(text) => Some(text@),
                None => None,
            },
            *key,
        ),
{
    let found: Option<&'a str> = match text {
        Some(text) => Some(text),
        None => match key {
            Key::Character(chars) => Some(chars.as_str()),
            _ => None,
        },
    };
    match found {
        Some(chars) => if chars.is_empty() {
            None
        } else {
            Some(chars)
        },
        None => None,
    }
}

/// What a program asked of the keyboard.
#[derive(Clone, Copy, Debug, PartialEq, Eq, Structural)]
pub struct KeyModes {
    /// Whether cursor keys are in application mode.
    pub application_cursor: bool,
    /// The flags of the newer keyboard protocol.
    pub kitty_keyboard_flags: u8,
    /// The level of the older keyboard protocol.
    pub modify_other_keys: Option<u8>,
}

impl KeyModes {
    /// Whether modified special keys are to be told apart in the newer form:
    /// the flags' lowest bit.
    pub open spec fn disambiguates(self) -> bool {
        self.kitty_keyboard_flags % 2 == 1
    }
}

/// The modifier keys that are held.
#[derive(Clone, Copy, Debug, PartialEq, Eq, Structural)]
pub struct TerminalKeyboard {
    /// Control, either side.
    pub ctrl_pressed: bool,
    /// Alt, left.
    pub left_alt_pressed: bool,
    /// Alt, right.
    pub right_alt_pressed: bool,
    /// Shift, either side.
    pub shift_pressed: bool,
    /// Super, either side.
    pub super_pressed: bool,
}

/// A key went down or up.
#[derive(Debug)]
pub struct KeyEvent {
    /// The physical key.
    pub key_code: KeyCode,
    /// What it means.
    pub logical_key: Key,
    /// Whether it went down.
    pub pressed: bool,
    /// The text that it makes.
    pub text: Option<String>,
    /// Whether it is held and repeats.
    pub repeat: bool,
}

/// The bytes that a key press sends. The right alt makes characters. Control
/// makes control bytes of letters. A special key with modifiers may have its
/// own sequence. Navigation, special keys and text come last; alt puts an
/// escape in front of all but the first and the third.
pub open spec fn translated(
    code: KeyCode,
    key: Key,
    text: Option<Seq<char>>,
    held: TerminalKeyboard,
    modes: KeyModes,
) -> Seq<u8> {
    let escape = if held.left_alt_pressed {
        seq![0x1bu8]
    } else {
        Seq::empty()
    };
    let typed = match printable(text, key) {
        Some(chars) => encode_utf8(chars),
        None => Seq::empty(),
    };
    let special = modified_special(
        code,
        held.ctrl_pressed,
        held.left_alt_pressed,
        held.shift_pressed,
        modes.disambiguates(),
        modes.modify_other_keys is Some,
    );
    let navigation = match NavigationKey::of(code) {
        Some(key) => Some(key),
        None => navigation_of(key),
    };
    if held.right_alt_pressed && printable(text, key) is Some {
        typed
    } else if held.ctrl_pressed && control_byte(code) is Some {
        escape.push(control_byte(code)->0)
    } else if special is Some {
        special->0
    } else if navigation is Some {
        escape + navigation->0.bytes(held.ctrl_pressed, modes.application_cursor)
    } else {
        match code {
            KeyCode::Enter => escape.push(0x0d),
            KeyCode::NumpadEnter => escape.push(0x0d),
            KeyCode::Tab => escape.push(0x09),
            KeyCode::Space => escape.push(0x20),
            KeyCode::Backspace => escape.push(0x7f),
            KeyCode::Escape => escape.push(0x1b),
            _ => escape + typed,
        }
    }
}

pub(crate) fn put_text(bytes: &mut Vec<u8>, text: &str)
    ensures
        final(bytes)@ == old(bytes)@ + encode_utf8(text@),
{
    let encoded = text.as_bytes();
    let mut i: usize = 0;
    assert(bytes@ + encoded@.take(0) =~= bytes@);
    while i < encoded.len()
        invariant
            i <= encoded@.len(),
            bytes@ == old(bytes)@ + encoded@.take(i as int),
        decreases encoded.len() - i,
    {
        bytes.push(encoded[i]);
        assert(bytes@ =~= old(bytes)@ + encoded@.take(i + 1));
        i += 1;
    }
    assert(encoded@.take(i as int) =~= encoded@);
}

/// The bytes that a key press sends.
pub fn translate_key(
    code: KeyCode,
    key: &Key,
    text: Option<&str>,
    held: TerminalKeyboard,
    modes: KeyModes,
) -> (bytes: Vec<u8>)
    ensures
        bytes@ == translated(
            code,
            *key,
            match text {
                Some(text) => Some(text@),
                None => None,
            },
            held,
            modes,
        ),
{
    let mut bytes: Vec<u8> = Vec::new();
    assert(bytes@ =~= Seq::empty());
    if held.right_alt_pressed {
        if let Some(chars) = printable_text(text, key) {
            put_text(&mut bytes, chars);
            assert(bytes@ =~= encode_utf8(chars@));
            return bytes;
        }
    }
    if held.ctrl_pressed {
        if let Some(byte) = ctrl_keycode_byte(code) {
            if held.left_alt_pressed {
                bytes.push(0x1b);
                assert(bytes@ =~= seq![0x1bu8]);
            }
            bytes.push(byte);
            return bytes;
        }
    }
    if let Some(sequence) = encode_modified_special_key(
        code,
        held.ctrl_pressed,
        held.left_alt_pressed,
        held.shift_pressed,
        modes.kitty_keyboard_flags % 2 == 1,
        modes.modify_other_keys,
    ) {
        return sequence;
    }
    if held.left_alt_pressed {
        bytes.push(0x1b);
        assert(bytes@ =~= seq![0x1bu8]);
    }
    let navigation: Option<NavigationKey> = match NavigationKey::from_key_code(code) {
        Some(key) => Some(key),
        None => from_logical_key(key),
    };
    if let Some(key) = navigation {
        put(&mut bytes, &key.encode(held.ctrl_pressed, modes.application_cursor));
        return bytes;
    }
    match code {
        KeyCode::Enter => bytes.push(0x0d),
        KeyCode::NumpadEnter => bytes.push(0x0d),
        KeyCode::Tab => bytes.push(0x09),
        KeyCode::Space => bytes.push(0x20),
        KeyCode::Backspace => bytes.push(0x7f),
        KeyCode::Escape => bytes.push(0x1b),
        _ => {
            let ghost escape = bytes@;
            match printable_text(text, key) {
                Some(chars) => put_text(&mut bytes, chars),
                None => {
                    assert(escape =~= escape + Seq::<u8>::empty());
                },
            }
        },
    }
    bytes
}

impl TerminalKeyboard {
    /// No key is held.
    pub fn new() -> (keyboard: TerminalKeyboard)
        ensures
            keyboard == (TerminalKeyboard {
                ctrl_pressed: false,
                left_alt_pressed: false,
                right_alt_pressed: false,
                shift_pressed: false,
                super_pressed: false,
            }),
    {
        TerminalKeyboard {
            ctrl_pressed: false,
            left_alt_pressed: false,
            right_alt_pressed: false,
            shift_pressed: false,
            super_pressed: false,
        }
    }

    /// The keyboard after a modifier went down or up.
    pub open spec fn after(self, code: KeyCode, pressed: bool) -> TerminalKeyboard {
        match code {
            KeyCode::ControlLeft => TerminalKeyboard { ctrl_pressed: pressed, ..self },
            KeyCode::ControlRight => TerminalKeyboard { ctrl_pressed: pressed, ..self },
            KeyCode::AltLeft => TerminalKeyboard { left_alt_pressed: pressed, ..self },
            KeyCode::AltRight => TerminalKeyboard { right_alt_pressed: pressed, ..self },
            KeyCode::ShiftLeft => TerminalKeyboard { shift_pressed: pressed, ..self },
            KeyCode::ShiftRight => TerminalKeyboard { shift_pressed: pressed, ..self },
            KeyCode::SuperLeft => TerminalKeyboard { super_pressed: pressed, ..self },
            KeyCode::SuperRight => TerminalKeyboard { super_pressed: pressed, ..self },
            _ => self,
        }
    }

    /// What a key event sends: modifiers and releases send nothing.
    pub open spec fn sends(self, event: KeyEvent, modes: KeyModes) -> Option<Seq<u8>> {
        if modifies(event.key_code) || !event.pressed {
            None
        } else {
            Some(
                translated(
                    event.key_code,
                    event.logical_key,
                    crate::query::token_view(event.text),
                    self,
                    modes,
                ),
            )
        }
    }

    /// Tracks the modifiers, and translates a key press into bytes.
    pub fn handle_event_with_modes(&mut self, event: &KeyEvent, modes: KeyModes) -> (bytes: Option<
        Vec<u8>,
    >)
        ensures
            *final(self) == old(self).after(event.key_code, event.pressed),
            crate::pty::bytes_view(bytes) == old(self).sends(*event, modes),
    {
        match event.key_code {
            KeyCode::ControlLeft => {
                self.ctrl_pressed = event.pressed;
                return None;
            },
            KeyCode::ControlRight => {
                self.ctrl_pressed = event.pressed;
                return None;
            },
            KeyCode::AltLeft => {
                self.left_alt_pressed = event.pressed;
                return None;
            },
            KeyCode::AltRight => {
                self.right_alt_pressed = event.pressed;
                return None;
            },
            KeyCode::ShiftLeft => {
                self.shift_pressed = event.pressed;
                return None;
            },
            KeyCode::ShiftRight => {
                self.shift_pressed = event.pressed;
                return None;
            },
            KeyCode::SuperLeft => {
                self.super_pressed = event.pressed;
                return None;
            },
            KeyCode::SuperRight => {
                self.super_pressed = event.pressed;
                return None;
            },
            _ => (),
        }
        if !event.pressed {
            return None;
        }
        let text: Option<&str> = match &event.text {
            Some(text) => Some(text.as_str()),
            None => None,
        };
        Some(translate_key(event.key_code, &event.logical_key, text, *self, modes))
    }
}

/// Text with every line ending as a line feed.
pub open spec fn unix_lines(text: Seq<char>) -> Seq<char>
    decreases text.len(),
{
    if text.len() == 0 {
        Seq::empty()
    } else if text.last() == '\n' && text.len() >= 2 && text[text.len() - 2] == '\r' {
        unix_lines(text.take(text.len() - 2)).push('\n')
    } else if text.last() == '\r' {
        unix_lines(text.drop_last()).push('\n')
    } else {
        unix_lines(text.drop_last()).push(text.last())
    }
}

/// What a paste sends: the text with its line endings as line feeds, between
/// marks if the program asked for them.
pub open spec fn pasted(text: Seq<char>, bracketed: bool) -> Seq<u8> {
    let body = encode_utf8(unix_lines(text));
    if bracketed {
        seq![0x1bu8, 0x5b, 0x32, 0x30, 0x30, 0x7e] + body + seq![
            0x1bu8,
            0x5b,
            0x32,
            0x30,
            0x31,
            0x7e,
        ]
    } else {
        body
    }
}

fn with_unix_lines(text: &Vec<char>) -> (out: Vec<char>)
    ensures
        out@ == unix_lines(text@),
{
    let mut out: Vec<char> = Vec::new();
    let mut i: usize = 0;
    assert(text@.take(0) =~= Seq::empty());
    while i < text.len()
        invariant
            i <= text@.len(),
            out@ == unix_lines(text@.take(i as int)),
            i > 0 && text@[i - 1] == '\r' ==> (i < text@.len() ==> text@[i as int] != '\n'),
        decreases text.len() - i,
    {
        let ghost next = text@.take(i + 1);
        assert(next.drop_last() =~= text@.take(i as int));
        if text[i] == '\r' {
            out.push('\n');
            if i + 1 < text.len() && text[i + 1] == '\n' {
                proof {
                    let both = text@.take(i + 2);
                    assert(both.take(both.len() - 2) =~= text@.take(i as int));
                }
                i += 2;
            } else {
                i += 1;
            }
        } else {
            out.push(text[i]);
            i += 1;
        }
    }
    assert(text@.take(i as int) =~= text@);
    out
}

/// What a paste sends.
pub fn paste_bytes(text: &str, bracketed: bool) -> (bytes: Vec<u8>)
    ensures
        bytes@ == pasted(text@, bracketed),
{
    let lines = with_unix_lines(&crate::text::chars_of(text));
    let normalized = crate::text::string_from(lines.as_slice());
    let mut bytes: Vec<u8> = Vec::new();
    if bracketed {
        bytes = vec![0x1b, 0x5b, 0x32, 0x30, 0x30, 0x7e];
    }
    let ghost head = bytes@;
    put_text(&mut bytes, &normalized);
    if bracketed {
        let tail: Vec<u8> = vec![0x1b, 0x5b, 0x32, 0x30, 0x31, 0x7e];
        put(&mut bytes, &tail);
    }
    assert(bytes@ =~= pasted(text@, bracketed));
    bytes
}

/// A paste never carries a carriage return.
pub proof fn law_pastes_have_no_carriage_returns(text: Seq<char>)
    ensures
        !unix_lines(text).contains('\r'),
    decreases text.len(),
{
    if text.len() > 0 {
        let (shorter, last) = if text.last() == '\n' && text.len() >= 2 && text[text.len() - 2]
            == '\r' {
            (text.take(text.len() - 2), '\n')
        } else if text.last() == '\r' {
            (text.drop_last(), '\n')
        } else {
            (text.drop_last(), text.last())
        };
        law_pastes_have_no_carriage_returns(shorter);
        let lines = unix_lines(shorter).push(last);
        assert forall|i: int| 0 <= i < lines.len() implies lines[i] != '\r' by {
            if i < lines.len() - 1 {
                assert(unix_lines(shorter).contains(unix_lines(shorter)[i]));
            }
        }
    }
}

/// What the navigation keys send. Up, down, right and left end in A, B, C and D:
/// behind `ESC [ 1 ; 5` with control, else behind `ESC O` in application mode,
/// else behind `ESC [`. Home and end are `ESC O H` and `ESC O F` in application
/// mode and the numbers 1 and 4 otherwise; page up and down, insert and delete
/// are 5, 6, 2 and 3 in every mode. The left alt puts an escape in front.
pub proof fn law_navigation_keys_send_their_sequences(
    key: Key,
    text: Option<Seq<char>>,
    held: TerminalKeyboard,
    modes: KeyModes,
)
    requires
        !held.right_alt_pressed,
    ensures
        ({
            let front = if held.left_alt_pressed {
                seq![0x1bu8]
            } else {
                Seq::empty()
            };
            let arrow = front + if held.ctrl_pressed {
                seq![0x1bu8, 0x5b, 0x31, 0x3b, 0x35]
            } else if modes.application_cursor {
                seq![0x1bu8, 0x4f]
            } else {
                seq![0x1bu8, 0x5b]
            };
            &&& translated(KeyCode::ArrowUp, key, text, held, modes) == arrow.push(0x41)
            &&& translated(KeyCode::ArrowDown, key, text, held, modes) == arrow.push(0x42)
            &&& translated(KeyCode::ArrowRight, key, text, held, modes) == arrow.push(0x43)
            &&& translated(KeyCode::ArrowLeft, key, text, held, modes) == arrow.push(0x44)
            &&& translated(KeyCode::Home, key, text, held, modes) == front + (
            if modes.application_cursor {
                seq![0x1bu8, 0x4f, 0x48]
            } else {
                seq![0x1bu8, 0x5b, 0x31, 0x7e]
            })
            &&& translated(KeyCode::End, key, text, held, modes) == front + (
            if modes.application_cursor {
                seq![0x1bu8, 0x4f, 0x46]
            } else {
                seq![0x1bu8, 0x5b, 0x34, 0x7e]
            })
            &&& translated(KeyCode::PageUp, key, text, held, modes) == front + seq![
                0x1bu8,
                0x5b,
                0x35,
                0x7e,
            ]
            &&& translated(KeyCode::PageDown, key, text, held, modes) == front + seq![
                0x1bu8,
                0x5b,
                0x36,
                0x7e,
            ]
            &&& translated(KeyCode::Insert, key, text, held, modes) == front + seq![
                0x1bu8,
                0x5b,
                0x32,
                0x7e,
            ]
            &&& translated(KeyCode::Delete, key, text, held, modes) == front + seq![
                0x1bu8,
                0x5b,
                0x33,
                0x7e,
            ]
        }),
{
    let front = if held.left_alt_pressed {
        seq![0x1bu8]
    } else {
        Seq::<u8>::empty()
    };
    let head = if held.ctrl_pressed {
        seq![0x1bu8, 0x5b, 0x31, 0x3b, 0x35]
    } else if modes.application_cursor {
        seq![0x1bu8, 0x4f]
    } else {
        seq![0x1bu8, 0x5b]
    };
    assert(translated(KeyCode::ArrowUp, key, text, held, modes) =~= (front + head).push(0x41));
    assert(translated(KeyCode::ArrowDown, key, text, held, modes) =~= (front + head).push(0x42));
    assert(translated(KeyCode::ArrowRight, key, text, held, modes) =~= (front + head).push(0x43));
    assert(translated(KeyCode::ArrowLeft, key, text, held, modes) =~= (front + head).push(0x44));
}

/// Whether a physical key is the one of a navigation key.
pub open spec fn is_key_of(code: KeyCode, key: NavigationKey) -> bool {
    match key {
        NavigationKey::ArrowUp => code == KeyCode::ArrowUp,
        NavigationKey::ArrowDown => code == KeyCode::ArrowDown,
        NavigationKey::ArrowRight => code == KeyCode::ArrowRight,
        NavigationKey::ArrowLeft => code == KeyCode::ArrowLeft,
        NavigationKey::Home => code == KeyCode::Home,
        NavigationKey::End => code == KeyCode::End,
        NavigationKey::PageUp => code == KeyCode::PageUp,
        NavigationKey::PageDown => code == KeyCode::PageDown,
        NavigationKey::Insert => code == KeyCode::Insert,
        NavigationKey::Delete => code == KeyCode::Delete,
    }
}

/// A key of the keypad that means navigation sends what the key of the cluster
/// sends, and is bound as that key is.
pub proof fn law_the_keypad_navigates(
    code: KeyCode,
    cluster: KeyCode,
    meant: NavigationKey,
    other: Key,
    text: Option<Seq<char>>,
    held: TerminalKeyboard,
    modes: KeyModes,
)
    requires
        is_key_of(cluster, meant),
        !held.right_alt_pressed,
        code is Numpad0 || code is Numpad1 || code is Numpad2 || code is Numpad3 || code is Numpad4
            || code is Numpad5 || code is Numpad6 || code is Numpad7 || code is Numpad8
            || code is Numpad9 || code is Other,
    ensures
        translated(code, Key::Navigation(meant), text, held, modes) == translated(
            cluster,
            other,
            text,
            held,
            modes,
        ),
        binding_code(code, Key::Navigation(meant)) == cluster,
        !(other is Navigation) ==> binding_code(code, other) == code,
{
}

/// With control a letter sends its place in the alphabet, behind an escape with
/// the left alt.
pub proof fn law_control_letters_send_their_place(
    key: Key,
    text: Option<Seq<char>>,
    held: TerminalKeyboard,
    modes: KeyModes,
)
    requires
        held.ctrl_pressed,
        !held.right_alt_pressed,
    ensures
        ({
            let front = if held.left_alt_pressed {
                seq![0x1bu8]
            } else {
                Seq::empty()
            };
            &&& translated(KeyCode::KeyA, key, text, held, modes) == front.push(1)
            &&& translated(KeyCode::KeyB, key, text, held, modes) == front.push(2)
            &&& translated(KeyCode::KeyC, key, text, held, modes) == front.push(3)
            &&& translated(KeyCode::KeyD, key, text, held, modes) == front.push(4)
            &&& translated(KeyCode::KeyE, key, text, held, modes) == front.push(5)
            &&& translated(KeyCode::KeyF, key, text, held, modes) == front.push(6)
            &&& translated(KeyCode::KeyG, key, text, held, modes) == front.push(7)
            &&& translated(KeyCode::KeyH, key, text, held, modes) == front.push(8)
            &&& translated(KeyCode::KeyI, key, text, held, modes) == front.push(9)
            &&& translated(KeyCode::KeyJ, key, text, held, modes) == front.push(10)
            &&& translated(KeyCode::KeyK, key, text, held, modes) == front.push(11)
            &&& translated(KeyCode::KeyL, key, text, held, modes) == front.push(12)
            &&& translated(KeyCode::KeyM, key, text, held, modes) == front.push(13)
            &&& translated(KeyCode::KeyN, key, text, held, modes) == front.push(14)
            &&& translated(KeyCode::KeyO, key, text, held, modes) == front.push(15)
            &&& translated(KeyCode::KeyP, key, text, held, modes) == front.push(16)
            &&& translated(KeyCode::KeyQ, key, text, held, modes) == front.push(17)
            &&& translated(KeyCode::KeyR, key, text, held, modes) == front.push(18)
            &&& translated(KeyCode::KeyS, key, text, held, modes) == front.push(19)
            &&& translated(KeyCode::KeyT, key, text, held, modes) == front.push(20)
            &&& translated(KeyCode::KeyU, key, text, held, modes) == front.push(21)
            &&& translated(KeyCode::KeyV, key, text, held, modes) == front.push(22)
            &&& translated(KeyCode::KeyW, key, text, held, modes) == front.push(23)
            &&& translated(KeyCode::KeyX, key, text, held, modes) == front.push(24)
            &&& translated(KeyCode::KeyY, key, text, held, modes) == front.push(25)
            &&& translated(KeyCode::KeyZ, key, text, held, modes) == front.push(26)
        }),
{
}

/// What the special keys send where nothing asks to tell their modifiers apart,
/// or none is held: enter, tab, space, backspace and escape each send one byte,
/// behind an escape with the left alt.
pub proof fn law_special_keys_send_one_byte(
    code: KeyCode,
    key: Key,
    text: Option<Seq<char>>,
    held: TerminalKeyboard,
    modes: KeyModes,
)
    requires
        !held.right_alt_pressed,
        !(key is Navigation),
        code is Space || (modes.kitty_keyboard_flags % 2 == 0 && modes.modify_other_keys is None)
            || (!held.ctrl_pressed && !held.left_alt_pressed && !held.shift_pressed),
    ensures
        ({
            let front = if held.left_alt_pressed {
                seq![0x1bu8]
            } else {
                Seq::empty()
            };
            let sent = translated(code, key, text, held, modes);
            &&& code is Enter || code is NumpadEnter ==> sent == front.push(13)
            &&& code is Tab ==> sent == front.push(9)
            &&& code is Space ==> sent == front.push(32)
            &&& code is Backspace ==> sent == front.push(127)
            &&& code is Escape ==> sent == front.push(27)
        }),
{
}

/// What a special key with modifiers sends where a program asked to tell them
/// apart: `ESC [ point ; digit u` if it asked for the newer form, and else `ESC
/// [ 27 ; digit ; point ~`. The digit is one, and one more for shift, two for
/// the left alt and four for control.
pub proof fn law_modified_special_keys_are_told_apart(
    code: KeyCode,
    key: Key,
    text: Option<Seq<char>>,
    held: TerminalKeyboard,
    modes: KeyModes,
    point: Seq<u8>,
    digit: u8,
)
    requires
        !held.right_alt_pressed,
        held.ctrl_pressed || held.left_alt_pressed || held.shift_pressed,
        modes.kitty_keyboard_flags % 2 == 1 || modes.modify_other_keys is Some,
        code is Enter || code is NumpadEnter || code is Tab || code is Backspace || code is Escape,
        code is Enter || code is NumpadEnter ==> point == seq![0x31u8, 0x33],
        code is Tab ==> point == seq![0x39u8],
        code is Backspace ==> point == seq![0x31u8, 0x32, 0x37],
        code is Escape ==> point == seq![0x32u8, 0x37],
        digit == 0x31 + (if held.shift_pressed {
            1int
        } else {
            0
        }) + (if held.left_alt_pressed {
            2int
        } else {
            0
        }) + (if held.ctrl_pressed {
            4int
        } else {
            0
        }),
    ensures
        modes.kitty_keyboard_flags % 2 == 1 ==> translated(code, key, text, held, modes) == seq![
            0x1bu8,
            0x5b,
        ] + point + seq![0x3bu8, digit, 0x75u8],
        modes.kitty_keyboard_flags % 2 == 0 ==> translated(code, key, text, held, modes) == seq![
            0x1bu8,
            0x5b,
            0x32,
            0x37,
            0x3b,
            digit,
            0x3b,
        ] + point + seq![0x7eu8],
{
}

/// Every other key sends its text, or else the character that it means: behind
/// an escape with the left alt, and as it is with the right alt, which goes
/// before everything else. A key without either sends nothing of its own.
pub proof fn law_keys_send_their_text(
    code: KeyCode,
    key: Key,
    text: Option<Seq<char>>,
    held: TerminalKeyboard,
    modes: KeyModes,
    typed: Seq<char>,
)
    requires
        typed.len() > 0,
        text is Some ==> text == Some(typed),
        text is None ==> (key matches Key::Character(chars) && chars@ == typed),
    ensures
        held.right_alt_pressed ==> translated(code, key, text, held, modes) == encode_utf8(typed),
        !held.right_alt_pressed && !held.ctrl_pressed && !(key is Navigation) && !(
        code is ArrowUp || code is ArrowDown || code is ArrowRight || code is ArrowLeft
            || code is Home || code is End || code is PageUp || code is PageDown || code is Insert
            || code is Delete || code is Enter || code is NumpadEnter || code is Tab
            || code is Space || code is Backspace || code is Escape) ==> translated(
            code,
            key,
            text,
            held,
            modes,
        ) == (if held.left_alt_pressed {
            seq![0x1bu8]
        } else {
            Seq::empty()
        }) + encode_utf8(typed),
{
}

/// The modifiers follow their keys, each its own, and send nothing; no other
/// key changes them, and no release sends anything.
pub proof fn law_modifiers_follow_their_keys(
    keyboard: TerminalKeyboard,
    event: KeyEvent,
    modes: KeyModes,
)
    ensures
        ({
            let next = keyboard.after(event.key_code, event.pressed);
            let code = event.key_code;
            let control = code is ControlLeft || code is ControlRight;
            let shift = code is ShiftLeft || code is ShiftRight;
            let meta = code is SuperLeft || code is SuperRight;
            &&& next.ctrl_pressed == if control {
                event.pressed
            } else {
                keyboard.ctrl_pressed
            }
            &&& next.shift_pressed == if shift {
                event.pressed
            } else {
                keyboard.shift_pressed
            }
            &&& next.super_pressed == if meta {
                event.pressed
            } else {
                keyboard.super_pressed
            }
            &&& next.left_alt_pressed == if code is AltLeft {
                event.pressed
            } else {
                keyboard.left_alt_pressed
            }
            &&& next.right_alt_pressed == if code is AltRight {
                event.pressed
            } else {
                keyboard.right_alt_pressed
            }
            &&& keyboard.sends(event, modes) is None <==> control || shift || meta
                || code is AltLeft || code is AltRight || !event.pressed
            &&& keyboard.sends(event, modes) matches Some(bytes) ==> bytes == translated(
                code,
                event.logical_key,
                match event.text {
                    Some(text) => Some(text@),
                    None => None,
                },
                keyboard,
                modes,
            )
        }),
{
}

/// A paste between marks is the bare paste between `ESC [ 200 ~` and `ESC [ 201
/// ~`; a bare paste of text without carriage returns is the text itself.
pub proof fn law_pastes_are_what_was_copied(text: Seq<char>)
    ensures
        pasted(text, true) == seq![0x1bu8, 0x5b, 0x32, 0x30, 0x30, 0x7e] + pasted(text, false)
            + seq![0x1bu8, 0x5b, 0x32, 0x30, 0x31, 0x7e],
        !text.contains('\r') ==> pasted(text, false) == encode_utf8(text),
{
    if !text.contains('\r') {
        lemma_lines_stay(text);
    }
}

proof fn lemma_lines_stay(text: Seq<char>)
    requires
        !text.contains('\r'),
    ensures
        unix_lines(text) == text,
    decreases text.len(),
{
    if text.len() > 0 {
        assert forall|i: int| 0 <= i < text.len() implies text[i] != '\r' by {
            assert(text.contains(text[i]));
        }
        assert(!text.drop_last().contains('\r'));
        lemma_lines_stay(text.drop_last());
        assert(text.drop_last().push(text.last()) =~= text);
    } else {
        assert(unix_lines(text) =~= text);
    }
}

/// Line endings are turned one by one: a carriage return with or without a line
/// feed behind it becomes one line feed, every other character stays, and text
/// may be cut anywhere but between the two.
pub proof fn law_line_endings_become_line_feeds(a: Seq<char>, b: Seq<char>, c: char)
    requires
        !(a.len() > 0 && b.len() > 0 && a.last() == '\r' && b[0] == '\n'),
    ensures
        unix_lines(a + b) == unix_lines(a) + unix_lines(b),
        unix_lines(seq!['\r', '\n']) == seq!['\n'],
        unix_lines(seq!['\r']) == seq!['\n'],
        c != '\r' ==> unix_lines(seq![c]) == seq![c],
    decreases b.len(),
{
    let pair = seq!['\r', '\n'];
    let single = seq!['\r'];
    let one = seq![c];
    assert(pair.take(0) =~= Seq::empty());
    assert(single.drop_last() =~= Seq::empty());
    assert(one.drop_last() =~= Seq::empty());
    assert(unix_lines(Seq::<char>::empty()) =~= Seq::empty());
    assert(unix_lines(pair) =~= seq!['\n']);
    assert(unix_lines(single) =~= seq!['\n']);
    assert(c != '\r' ==> unix_lines(one) =~= seq![c]);
    let both = a + b;
    if b.len() == 0 {
        assert(both =~= a);
        assert(unix_lines(a) + unix_lines(b) =~= unix_lines(a));
    } else if b.last() == '\n' && b.len() >= 2 && b[b.len() - 2] == '\r' {
        let rest = b.take(b.len() - 2);
        law_line_endings_become_line_feeds(a, rest, c);
        assert(both.take(both.len() - 2) =~= a + rest);
        assert(both.last() == '\n' && both[both.len() - 2] == '\r');
        assert(unix_lines(both) =~= unix_lines(a) + unix_lines(b));
    } else {
        let rest = b.drop_last();
        law_line_endings_become_line_feeds(a, rest, c);
        assert(both.drop_last() =~= a + rest);
        assert(both.last() == b.last());
        if b.len() >= 2 {
            assert(both[both.len() - 2] == b[b.len() - 2]);
        } else if a.len() > 0 {
            assert(both[both.len() - 2] == a.last());
        }
        assert(unix_lines(both) =~= unix_lines(a) + unix_lines(b));
    }
}

} // verus!
