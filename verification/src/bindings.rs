//! Key bindings: chords and the actions that they stand for.
//!
//! A chord is a physical key with modifiers. The most specific binding that
//! the held modifiers satisfy wins. The settings override the built-in
//! bindings one by one, and can take one away.

use vstd::prelude::*;
use crate::keys::{modifies, KeyCode, TerminalKeyboard};
use crate::text::{
    chars_of, lowered, lowered_chars, pieces, pieces_of, reads, same_text, split_chars, trimmed,
    trimmed_chars,
};

verus! {

/// What a chord does.
#[derive(Clone, Copy, Debug, PartialEq, Eq, Structural)]
pub enum BindingAction {
    /// Nothing: takes a built-in binding away.
    Nothing,
    /// Switch between flat and space.
    Toggle3DMode,
    /// Switch to and from the strip.
    ToggleMobiusMode,
    /// A page back.
    ScrollPageUp,
    /// A page on.
    ScrollPageDown,
    /// A row back.
    ScrollUp,
    /// A row on.
    ScrollDown,
    /// More warp.
    IncreaseWarp,
    /// Less warp.
    DecreaseWarp,
    /// Copy the selection.
    Copy,
    /// Paste the clipboard.
    Paste,
    /// Larger text.
    IncreaseFontSize,
    /// Smaller text.
    DecreaseFontSize,
    /// Text of the default size.
    ResetFontSize,
    /// Focus the next terminal.
    FocusCycle,
    /// Open a terminal.
    SpawnTerminal,
    /// Close the focused terminal.
    CloseTerminal,
}

/// The modifiers of a chord, or those that are held.
#[derive(Clone, Copy, Debug, PartialEq, Eq, Structural)]
pub struct BindingModifiers {
    /// Control.
    pub control: bool,
    /// Alt, left.
    pub alt: bool,
    /// Shift.
    pub shift: bool,
    /// Super.
    pub super_key: bool,
}

/// One, if so.
pub open spec fn one_if(held: bool) -> nat {
    if held {
        1
    } else {
        0
    }
}

impl BindingModifiers {
    /// No modifiers.
    pub open spec fn none() -> BindingModifiers {
        BindingModifiers { control: false, alt: false, shift: false, super_key: false }
    }

    /// Whether the held modifiers satisfy these: more may be held.
    pub open spec fn satisfied(self, held: BindingModifiers) -> bool {
        &&& self.control ==> held.control
        &&& self.alt ==> held.alt
        &&& self.shift ==> held.shift
        &&& self.super_key ==> held.super_key
    }

    /// How many there are.
    pub open spec fn weight(self) -> nat {
        one_if(self.control) + one_if(self.alt) + one_if(self.shift) + one_if(self.super_key)
    }

    /// Those in either.
    pub open spec fn joined(self, other: BindingModifiers) -> BindingModifiers {
        BindingModifiers {
            control: self.control || other.control,
            alt: self.alt || other.alt,
            shift: self.shift || other.shift,
            super_key: self.super_key || other.super_key,
        }
    }

    /// Whether the held modifiers satisfy these.
    pub fn matches(self, current: BindingModifiers) -> (satisfied: bool)
        ensures
            satisfied == self.satisfied(current),
    {
        (!self.control || current.control) && (!self.alt || current.alt) && (!self.shift
            || current.shift) && (!self.super_key || current.super_key)
    }

    /// Those in either.
    pub fn union(self, other: BindingModifiers) -> (both: BindingModifiers)
        ensures
            both == self.joined(other),
    {
        BindingModifiers {
            control: self.control || other.control,
            alt: self.alt || other.alt,
            shift: self.shift || other.shift,
            super_key: self.super_key || other.super_key,
        }
    }

    /// How many there are.
    pub fn count(self) -> (count: usize)
        ensures
            count == self.weight(),
    {
        let mut count: usize = 0;
        if self.control {
            count += 1;
        }
        if self.alt {
            count += 1;
        }
        if self.shift {
            count += 1;
        }
        if self.super_key {
            count += 1;
        }
        count
    }

    /// The modifiers that a keyboard holds.
    pub open spec fn held_by(keyboard: TerminalKeyboard) -> BindingModifiers {
        BindingModifiers {
            control: keyboard.ctrl_pressed,
            alt: keyboard.left_alt_pressed,
            shift: keyboard.shift_pressed,
            super_key: keyboard.super_pressed,
        }
    }

    /// The modifiers that a keyboard holds.
    pub fn of_keyboard(keyboard: TerminalKeyboard) -> (held: BindingModifiers)
        ensures
            held == BindingModifiers::held_by(keyboard),
    {
        BindingModifiers {
            control: keyboard.ctrl_pressed,
            alt: keyboard.left_alt_pressed,
            shift: keyboard.shift_pressed,
            super_key: keyboard.super_pressed,
        }
    }
}

/// The modifiers among the keys that are down. Only the left alt counts.
pub open spec fn modifiers_among(pressed: Seq<KeyCode>) -> BindingModifiers {
    BindingModifiers {
        control: pressed.contains(KeyCode::ControlLeft) || pressed.contains(KeyCode::ControlRight),
        alt: pressed.contains(KeyCode::AltLeft),
        shift: pressed.contains(KeyCode::ShiftLeft) || pressed.contains(KeyCode::ShiftRight),
        super_key: pressed.contains(KeyCode::SuperLeft) || pressed.contains(KeyCode::SuperRight),
    }
}

fn is_down(pressed: &Vec<KeyCode>, code: KeyCode) -> (down: bool)
    ensures
        down == pressed@.contains(code),
{
    let mut i: usize = 0;
    while i < pressed.len()
        invariant
            i <= pressed@.len(),
            forall|j: int| 0 <= j < i ==> pressed@[j] != code,
        decreases pressed.len() - i,
    {
        if pressed[i] == code {
            return true;
        }
        i += 1;
    }
    false
}

/// The modifiers among the keys that are down.
pub fn current_modifiers(pressed: &Vec<KeyCode>) -> (held: BindingModifiers)
    ensures
        held == modifiers_among(pressed@),
{
    BindingModifiers {
        control: is_down(pressed, KeyCode::ControlLeft) || is_down(pressed, KeyCode::ControlRight),
        alt: is_down(pressed, KeyCode::AltLeft),
        shift: is_down(pressed, KeyCode::ShiftLeft) || is_down(pressed, KeyCode::ShiftRight),
        super_key: is_down(pressed, KeyCode::SuperLeft) || is_down(pressed, KeyCode::SuperRight),
    }
}

/// One modifier.
#[derive(Clone, Copy, Debug, PartialEq, Eq, Structural)]
pub enum ParsedModifier {
    /// Control.
    Control,
    /// Alt.
    Alt,
    /// Shift.
    Shift,
    /// Super.
    Super,
}

impl ParsedModifier {
    /// The modifiers with this one.
    pub open spec fn added(self, modifiers: BindingModifiers) -> BindingModifiers {
        match self {
            ParsedModifier::Control => BindingModifiers { control: true, ..modifiers },
            ParsedModifier::Alt => BindingModifiers { alt: true, ..modifiers },
            ParsedModifier::Shift => BindingModifiers { shift: true, ..modifiers },
            ParsedModifier::Super => BindingModifiers { super_key: true, ..modifiers },
        }
    }

    /// Adds this one to modifiers.
    pub fn apply(self, modifiers: &mut BindingModifiers)
        ensures
            *final(modifiers) == self.added(*old(modifiers)),
    {
        match self {
            ParsedModifier::Control => {
                modifiers.control = true;
            },
            ParsedModifier::Alt => {
                modifiers.alt = true;
            },
            ParsedModifier::Shift => {
                modifiers.shift = true;
            },
            ParsedModifier::Super => {
                modifiers.super_key = true;
            },
        }
    }
}

/// The key of a letter.
pub open spec fn letter_key(c: char) -> Option<KeyCode> {
    match c {
        'a' => Some(KeyCode::KeyA),
        'b' => Some(KeyCode::KeyB),
        'c' => Some(KeyCode::KeyC),
        'd' => Some(KeyCode::KeyD),
        'e' => Some(KeyCode::KeyE),
        'f' => Some(KeyCode::KeyF),
        'g' => Some(KeyCode::KeyG),
        'h' => Some(KeyCode::KeyH),
        'i' => Some(KeyCode::KeyI),
        'j' => Some(KeyCode::KeyJ),
        'k' => Some(KeyCode::KeyK),
        'l' => Some(KeyCode::KeyL),
        'm' => Some(KeyCode::KeyM),
        'n' => Some(KeyCode::KeyN),
        'o' => Some(KeyCode::KeyO),
        'p' => Some(KeyCode::KeyP),
        'q' => Some(KeyCode::KeyQ),
        'r' => Some(KeyCode::KeyR),
        's' => Some(KeyCode::KeyS),
        't' => Some(KeyCode::KeyT),
        'u' => Some(KeyCode::KeyU),
        'v' => Some(KeyCode::KeyV),
        'w' => Some(KeyCode::KeyW),
        'x' => Some(KeyCode::KeyX),
        'y' => Some(KeyCode::KeyY),
        'z' => Some(KeyCode::KeyZ),
        _ => None,
    }
}

/// The key of a digit on the main row.
pub open spec fn digit_key(c: char) -> Option<KeyCode> {
    match c {
        '0' => Some(KeyCode::Digit0),
        '1' => Some(KeyCode::Digit1),
        '2' => Some(KeyCode::Digit2),
        '3' => Some(KeyCode::Digit3),
        '4' => Some(KeyCode::Digit4),
        '5' => Some(KeyCode::Digit5),
        '6' => Some(KeyCode::Digit6),
        '7' => Some(KeyCode::Digit7),
        '8' => Some(KeyCode::Digit8),
        '9' => Some(KeyCode::Digit9),
        _ => None,
    }
}

/// The key of a digit on the keypad.
pub open spec fn numpad_key(c: char) -> Option<KeyCode> {
    match c {
        '0' => Some(KeyCode::Numpad0),
        '1' => Some(KeyCode::Numpad1),
        '2' => Some(KeyCode::Numpad2),
        '3' => Some(KeyCode::Numpad3),
        '4' => Some(KeyCode::Numpad4),
        '5' => Some(KeyCode::Numpad5),
        '6' => Some(KeyCode::Numpad6),
        '7' => Some(KeyCode::Numpad7),
        '8' => Some(KeyCode::Numpad8),
        '9' => Some(KeyCode::Numpad9),
        _ => None,
    }
}

/// Whether a name is a prefix with one character behind it.
pub open spec fn prefixed(name: Seq<char>, prefix: Seq<char>) -> bool {
    name.len() == prefix.len() + 1 && name.drop_last() == prefix
}

/// The key that has a name of its own.
pub open spec fn named_key(name: Seq<char>) -> Option<KeyCode> {
    if name == "f1"@ {
        Some(KeyCode::F1)
    } else if name == "f2"@ {
        Some(KeyCode::F2)
    } else if name == "f3"@ {
        Some(KeyCode::F3)
    } else if name == "f4"@ {
        Some(KeyCode::F4)
    } else if name == "f5"@ {
        Some(KeyCode::F5)
    } else if name == "f6"@ {
        Some(KeyCode::F6)
    } else if name == "f7"@ {
        Some(KeyCode::F7)
    } else if name == "f8"@ {
        Some(KeyCode::F8)
    } else if name == "f9"@ {
        Some(KeyCode::F9)
    } else if name == "f10"@ {
        Some(KeyCode::F10)
    } else if name == "f11"@ {
        Some(KeyCode::F11)
    } else if name == "f12"@ {
        Some(KeyCode::F12)
    } else if name == "up"@ || name == "arrowup"@ || name == "arrow_up"@ {
        Some(KeyCode::ArrowUp)
    } else if name == "down"@ || name == "arrowdown"@ || name == "arrow_down"@ {
        Some(KeyCode::ArrowDown)
    } else if name == "left"@ || name == "arrowleft"@ || name == "arrow_left"@ {
        Some(KeyCode::ArrowLeft)
    } else if name == "right"@ || name == "arrowright"@ || name == "arrow_right"@ {
        Some(KeyCode::ArrowRight)
    } else if name == "enter"@ {
        Some(KeyCode::Enter)
    } else if name == "numpadenter"@ || name == "numpad_enter"@ {
        Some(KeyCode::NumpadEnter)
    } else if name == "tab"@ {
        Some(KeyCode::Tab)
    } else if name == "space"@ {
        Some(KeyCode::Space)
    } else if name == "backspace"@ {
        Some(KeyCode::Backspace)
    } else if name == "escape"@ || name == "esc"@ {
        Some(KeyCode::Escape)
    } else if name == "delete"@ {
        Some(KeyCode::Delete)
    } else if name == "home"@ {
        Some(KeyCode::Home)
    } else if name == "end"@ {
        Some(KeyCode::End)
    } else if name == "pageup"@ || name == "page_up"@ {
        Some(KeyCode::PageUp)
    } else if name == "pagedown"@ || name == "page_down"@ {
        Some(KeyCode::PageDown)
    } else if name == "equal"@ || name == "="@ || name == "plus"@ || name == "+"@ {
        Some(KeyCode::Equal)
    } else if name == "minus"@ || name == "-"@ {
        Some(KeyCode::Minus)
    } else if name == "numpadadd"@ || name == "numpad_add"@ {
        Some(KeyCode::NumpadAdd)
    } else if name == "numpadsubtract"@ || name == "numpad_subtract"@ {
        Some(KeyCode::NumpadSubtract)
    } else {
        None
    }
}

/// The key that a lower-case name means. A letter may be written by itself or
/// behind `key`, a digit by itself or behind `digit`; a digit of the keypad
/// behind `numpad` or `numpad_`.
pub open spec fn key_of_name(name: Seq<char>) -> Option<KeyCode> {
    if name.len() == 1 && letter_key(name[0]) is Some {
        letter_key(name[0])
    } else if name.len() == 1 && digit_key(name[0]) is Some {
        digit_key(name[0])
    } else if prefixed(name, "key"@) && letter_key(name.last()) is Some {
        letter_key(name.last())
    } else if prefixed(name, "digit"@) && digit_key(name.last()) is Some {
        digit_key(name.last())
    } else if (prefixed(name, "numpad"@) || prefixed(name, "numpad_"@)) && numpad_key(
        name.last(),
    ) is Some {
        numpad_key(name.last())
    } else {
        named_key(name)
    }
}

/// The modifier that a lower-case name means.
pub open spec fn modifier_of_name(name: Seq<char>) -> Option<ParsedModifier> {
    if name == "control"@ || name == "ctrl"@ {
        Some(ParsedModifier::Control)
    } else if name == "alt"@ {
        Some(ParsedModifier::Alt)
    } else if name == "shift"@ {
        Some(ParsedModifier::Shift)
    } else if name == "super"@ || name == "cmd"@ || name == "command"@ || name == "meta"@ {
        Some(ParsedModifier::Super)
    } else {
        None
    }
}

fn letter_code(c: char) -> (code: Option<KeyCode>)
    ensures
        code == letter_key(c),
{
    match c {
        'a' => Some(KeyCode::KeyA),
        'b' => Some(KeyCode::KeyB),
        'c' => Some(KeyCode::KeyC),
        'd' => Some(KeyCode::KeyD),
        'e' => Some(KeyCode::KeyE),
        'f' => Some(KeyCode::KeyF),
        'g' => Some(KeyCode::KeyG),
        'h' => Some(KeyCode::KeyH),
        'i' => Some(KeyCode::KeyI),
        'j' => Some(KeyCode::KeyJ),
        'k' => Some(KeyCode::KeyK),
        'l' => Some(KeyCode::KeyL),
        'm' => Some(KeyCode::KeyM),
        'n' => Some(KeyCode::KeyN),
        'o' => Some(KeyCode::KeyO),
        'p' => Some(KeyCode::KeyP),
        'q' => Some(KeyCode::KeyQ),
        'r' => Some(KeyCode::KeyR),
        's' => Some(KeyCode::KeyS),
        't' => Some(KeyCode::KeyT),
        'u' => Some(KeyCode::KeyU),
        'v' => Some(KeyCode::KeyV),
        'w' => Some(KeyCode::KeyW),
        'x' => Some(KeyCode::KeyX),
        'y' => Some(KeyCode::KeyY),
        'z' => Some(KeyCode::KeyZ),
        _ => None,
    }
}

fn digit_code(c: char) -> (code: Option<KeyCode>)
    ensures
        code == digit_key(c),
{
    match c {
        '0' => Some(KeyCode::Digit0),
        '1' => Some(KeyCode::Digit1),
        '2' => Some(KeyCode::Digit2),
        '3' => Some(KeyCode::Digit3),
        '4' => Some(KeyCode::Digit4),
        '5' => Some(KeyCode::Digit5),
        '6' => Some(KeyCode::Digit6),
        '7' => Some(KeyCode::Digit7),
        '8' => Some(KeyCode::Digit8),
        '9' => Some(KeyCode::Digit9),
        _ => None,
    }
}

fn numpad_code(c: char) -> (code: Option<KeyCode>)
    ensures
        code == numpad_key(c),
{
    match c {
        '0' => Some(KeyCode::Numpad0),
        '1' => Some(KeyCode::Numpad1),
        '2' => Some(KeyCode::Numpad2),
        '3' => Some(KeyCode::Numpad3),
        '4' => Some(KeyCode::Numpad4),
        '5' => Some(KeyCode::Numpad5),
        '6' => Some(KeyCode::Numpad6),
        '7' => Some(KeyCode::Numpad7),
        '8' => Some(KeyCode::Numpad8),
        '9' => Some(KeyCode::Numpad9),
        _ => None,
    }
}

fn named_code(name: &Vec<char>) -> (code: Option<KeyCode>)
    ensures
        code == named_key(name@),
{
    if reads(name, "f1") {
        Some(KeyCode::F1)
    } else if reads(name, "f2") {
        Some(KeyCode::F2)
    } else if reads(name, "f3") {
        Some(KeyCode::F3)
    } else if reads(name, "f4") {
        Some(KeyCode::F4)
    } else if reads(name, "f5") {
        Some(KeyCode::F5)
    } else if reads(name, "f6") {
        Some(KeyCode::F6)
    } else if reads(name, "f7") {
        Some(KeyCode::F7)
    } else if reads(name, "f8") {
        Some(KeyCode::F8)
    } else if reads(name, "f9") {
        Some(KeyCode::F9)
    } else if reads(name, "f10") {
        Some(KeyCode::F10)
    } else if reads(name, "f11") {
        Some(KeyCode::F11)
    } else if reads(name, "f12") {
        Some(KeyCode::F12)
    } else if reads(name, "up") || reads(name, "arrowup") || reads(name, "arrow_up") {
        Some(KeyCode::ArrowUp)
    } else if reads(name, "down") || reads(name, "arrowdown") || reads(name, "arrow_down") {
        Some(KeyCode::ArrowDown)
    } else if reads(name, "left") || reads(name, "arrowleft") || reads(name, "arrow_left") {
        Some(KeyCode::ArrowLeft)
    } else if reads(name, "right") || reads(name, "arrowright") || reads(name, "arrow_right") {
        Some(KeyCode::ArrowRight)
    } else if reads(name, "enter") {
        Some(KeyCode::Enter)
    } else if reads(name, "numpadenter") || reads(name, "numpad_enter") {
        Some(KeyCode::NumpadEnter)
    } else if reads(name, "tab") {
        Some(KeyCode::Tab)
    } else if reads(name, "space") {
        Some(KeyCode::Space)
    } else if reads(name, "backspace") {
        Some(KeyCode::Backspace)
    } else if reads(name, "escape") || reads(name, "esc") {
        Some(KeyCode::Escape)
    } else if reads(name, "delete") {
        Some(KeyCode::Delete)
    } else if reads(name, "home") {
        Some(KeyCode::Home)
    } else if reads(name, "end") {
        Some(KeyCode::End)
    } else if reads(name, "pageup") || reads(name, "page_up") {
        Some(KeyCode::PageUp)
    } else if reads(name, "pagedown") || reads(name, "page_down") {
        Some(KeyCode::PageDown)
    } else if reads(name, "equal") || reads(name, "=") || reads(name, "plus") || reads(name, "+") {
        Some(KeyCode::Equal)
    } else if reads(name, "minus") || reads(name, "-") {
        Some(KeyCode::Minus)
    } else if reads(name, "numpadadd") || reads(name, "numpad_add") {
        Some(KeyCode::NumpadAdd)
    } else if reads(name, "numpadsubtract") || reads(name, "numpad_subtract") {
        Some(KeyCode::NumpadSubtract)
    } else {
        None
    }
}

fn has_prefix(name: &Vec<char>, prefix: &str) -> (found: bool)
    ensures
        found == prefixed(name@, prefix@),
{
    let wanted = chars_of(prefix);
    if name.len() == 0 || name.len() - 1 != wanted.len() {
        return false;
    }
    let mut i: usize = 0;
    while i < wanted.len()
        invariant
            i <= wanted@.len(),
            name@.len() == wanted@.len() + 1,
            wanted@ == prefix@,
            forall|j: int| 0 <= j < i ==> name@[j] == wanted@[j],
        decreases wanted.len() - i,
    {
        if name[i] != wanted[i] {
            assert(name@.drop_last()[i as int] != prefix@[i as int]);
            return false;
        }
        i += 1;
    }
    assert(name@.drop_last() =~= prefix@);
    true
}

fn code_of_name(name: &Vec<char>) -> (code: Option<KeyCode>)
    ensures
        code == key_of_name(name@),
{
    let count: usize = name.len();
    if count == 0 {
        proof {
            reveal_strlit("key");
            reveal_strlit("digit");
            reveal_strlit("numpad");
            reveal_strlit("numpad_");
        }
        return named_code(name);
    }
    let last: char = name[count - 1];
    if count == 1 {
        if let Some(code) = letter_code(last) {
            return Some(code);
        }
        if let Some(code) = digit_code(last) {
            return Some(code);
        }
    }
    if has_prefix(name, "key") {
        if let Some(code) = letter_code(last) {
            return Some(code);
        }
    }
    if has_prefix(name, "digit") {
        if let Some(code) = digit_code(last) {
            return Some(code);
        }
    }
    if has_prefix(name, "numpad") || has_prefix(name, "numpad_") {
        if let Some(code) = numpad_code(last) {
            return Some(code);
        }
    }
    named_code(name)
}

/// The physical key that a name in the settings means, whatever its case and
/// the white space around it.
pub fn parse_key_code(key: &str) -> (code: Option<KeyCode>)
    ensures
        code == key_of_name(lowered(trimmed(key@))),
{
    code_of_name(&lowered_chars(&trimmed_chars(&chars_of(key))))
}

fn modifier_of(name: &Vec<char>) -> (modifier: Option<ParsedModifier>)
    ensures
        modifier == modifier_of_name(name@),
{
    if reads(name, "control") || reads(name, "ctrl") {
        Some(ParsedModifier::Control)
    } else if reads(name, "alt") {
        Some(ParsedModifier::Alt)
    } else if reads(name, "shift") {
        Some(ParsedModifier::Shift)
    } else if reads(name, "super") || reads(name, "cmd") || reads(name, "command") || reads(
        name,
        "meta",
    ) {
        Some(ParsedModifier::Super)
    } else {
        None
    }
}

/// The modifier that a name in the settings means.
pub fn parse_modifier(token: &str) -> (modifier: Option<ParsedModifier>)
    ensures
        modifier == modifier_of_name(lowered(trimmed(token@))),
{
    modifier_of(&lowered_chars(&trimmed_chars(&chars_of(token))))
}

/// A chord and what it does.
#[derive(Clone, Copy, Debug, PartialEq, Eq, Structural)]
pub struct KeyBinding {
    /// The physical key.
    pub key_code: KeyCode,
    /// The modifiers.
    pub modifiers: BindingModifiers,
    /// The action.
    pub action: BindingAction,
}

/// The action that the settings name.
pub open spec fn action_named(name: Seq<char>) -> Option<BindingAction> {
    if name == "None"@ {
        Some(BindingAction::Nothing)
    } else if name == "Toggle3DMode"@ {
        Some(BindingAction::Toggle3DMode)
    } else if name == "ToggleMobiusMode"@ {
        Some(BindingAction::ToggleMobiusMode)
    } else if name == "ScrollPageUp"@ {
        Some(BindingAction::ScrollPageUp)
    } else if name == "ScrollPageDown"@ {
        Some(BindingAction::ScrollPageDown)
    } else if name == "ScrollUp"@ {
        Some(BindingAction::ScrollUp)
    } else if name == "ScrollDown"@ {
        Some(BindingAction::ScrollDown)
    } else if name == "IncreaseWarp"@ {
        Some(BindingAction::IncreaseWarp)
    } else if name == "DecreaseWarp"@ {
        Some(BindingAction::DecreaseWarp)
    } else if name == "Copy"@ {
        Some(BindingAction::Copy)
    } else if name == "Paste"@ {
        Some(BindingAction::Paste)
    } else if name == "IncreaseFontSize"@ {
        Some(BindingAction::IncreaseFontSize)
    } else if name == "DecreaseFontSize"@ {
        Some(BindingAction::DecreaseFontSize)
    } else if name == "ResetFontSize"@ {
        Some(BindingAction::ResetFontSize)
    } else if name == "FocusCycle"@ {
        Some(BindingAction::FocusCycle)
    } else if name == "SpawnTerminal"@ {
        Some(BindingAction::SpawnTerminal)
    } else if name == "CloseTerminal"@ {
        Some(BindingAction::CloseTerminal)
    } else {
        None
    }
}

/// The action that the settings name.
pub fn parse_action(name: &str) -> (action: Option<BindingAction>)
    ensures
        action == action_named(name@),
{
    if same_text(name, "None") {
        Some(BindingAction::Nothing)
    } else if same_text(name, "Toggle3DMode") {
        Some(BindingAction::Toggle3DMode)
    } else if same_text(name, "ToggleMobiusMode") {
        Some(BindingAction::ToggleMobiusMode)
    } else if same_text(name, "ScrollPageUp") {
        Some(BindingAction::ScrollPageUp)
    } else if same_text(name, "ScrollPageDown") {
        Some(BindingAction::ScrollPageDown)
    } else if same_text(name, "ScrollUp") {
        Some(BindingAction::ScrollUp)
    } else if same_text(name, "ScrollDown") {
        Some(BindingAction::ScrollDown)
    } else if same_text(name, "IncreaseWarp") {
        Some(BindingAction::IncreaseWarp)
    } else if same_text(name, "DecreaseWarp") {
        Some(BindingAction::DecreaseWarp)
    } else if same_text(name, "Copy") {
        Some(BindingAction::Copy)
    } else if same_text(name, "Paste") {
        Some(BindingAction::Paste)
    } else if same_text(name, "IncreaseFontSize") {
        Some(BindingAction::IncreaseFontSize)
    } else if same_text(name, "DecreaseFontSize") {
        Some(BindingAction::DecreaseFontSize)
    } else if same_text(name, "ResetFontSize") {
        Some(BindingAction::ResetFontSize)
    } else if same_text(name, "FocusCycle") {
        Some(BindingAction::FocusCycle)
    } else if same_text(name, "SpawnTerminal") {
        Some(BindingAction::SpawnTerminal)
    } else if same_text(name, "CloseTerminal") {
        Some(BindingAction::CloseTerminal)
    } else {
        None
    }
}

/// A binding as the settings write it: names between bars, in either field.
#[derive(Debug)]
pub struct KeyBindingConfig {
    /// The key, perhaps with modifiers.
    pub key: String,
    /// The modifiers.
    pub with: String,
    /// The action.
    pub action: BindingAction,
}

/// What the names of a binding come to so far: none once there is a name too
/// many.
pub open spec fn chord_of_names(names: Seq<Seq<char>>) -> Option<
    (BindingModifiers, Option<KeyCode>),
>
    decreases names.len(),
{
    if names.len() == 0 {
        Some((BindingModifiers::none(), None))
    } else {
        match chord_of_names(names.drop_last()) {
            None => None,
            Some((modifiers, key)) => {
                let name = trimmed(names.last());
                if name.len() == 0 {
                    Some((modifiers, key))
                } else if let Some(modifier) = modifier_of_name(lowered(name)) {
                    Some((modifier.added(modifiers), key))
                } else if key is Some {
                    None
                } else {
                    Some((modifiers, key_of_name(lowered(name))))
                }
            },
        }
    }
}

/// The names that a binding is written with.
pub open spec fn binding_names(key: Seq<char>, with: Seq<char>) -> Seq<Seq<char>> {
    pieces(key, '|', 0) + pieces(with, '|', 0)
}

impl KeyBinding {
    /// The binding that the settings write: modifiers in any order, and a key.
    /// A name behind the key that is no modifier makes it invalid.
    pub open spec fn configured(config: KeyBindingConfig) -> Option<KeyBinding> {
        match chord_of_names(binding_names(config.key@, config.with@)) {
            Some((modifiers, Some(key_code))) => Some(
                KeyBinding { key_code, modifiers, action: config.action },
            ),
            _ => None,
        }
    }

    /// Whether two bindings have the same chord.
    pub open spec fn same_chord(self, other: KeyBinding) -> bool {
        self.key_code == other.key_code && self.modifiers == other.modifiers
    }

    /// A binding.
    pub fn new(key_code: KeyCode, modifiers: BindingModifiers, action: BindingAction) -> (binding:
        KeyBinding)
        ensures
            binding == (KeyBinding { key_code, modifiers, action }),
    {
        KeyBinding { key_code, modifiers, action }
    }

    /// The binding that the settings write.
    pub fn from_config(config: &KeyBindingConfig) -> (binding: Option<KeyBinding>)
        ensures
            binding == KeyBinding::configured(*config),
    {
        let mut names = split_chars(&chars_of(&config.key), '|');
        let mut more = split_chars(&chars_of(&config.with), '|');
        let ghost (head, tail) = (names@, more@);
        names.append(&mut more);
        let ghost all = binding_names(config.key@, config.with@);
        assert(pieces_of(names@) =~= pieces_of(head) + pieces_of(tail));
        let mut modifiers = BindingModifiers {
            control: false,
            alt: false,
            shift: false,
            super_key: false,
        };
        let mut key_code: Option<KeyCode> = None;
        let mut i: usize = 0;
        assert(all.take(0) =~= Seq::empty());
        while i < names.len()
            invariant
                i <= names@.len(),
                pieces_of(names@) == all,
                all == binding_names(config.key@, config.with@),
                chord_of_names(all.take(i as int)) == Some((modifiers, key_code)),
            decreases names.len() - i,
        {
            let ghost next = all.take(i + 1);
            proof {
                assert(next.drop_last() =~= all.take(i as int));
                assert(next.last() == names@[i as int]@);
            }
            let name = trimmed_chars(&names[i]);
            if name.len() > 0 {
                let lower_name = lowered_chars(&name);
                match modifier_of(&lower_name) {
                    Some(modifier) => modifier.apply(&mut modifiers),
                    None => {
                        if key_code.is_some() {
                            proof {
                                lemma_invalid_stays(all, i + 1);
                            }
                            return None;
                        }
                        key_code = code_of_name(&lower_name);
                    },
                }
            }
            i += 1;
        }
        assert(all.take(i as int) =~= all);
        match key_code {
            Some(key_code) => Some(KeyBinding::new(key_code, modifiers, config.action)),
            None => None,
        }
    }

    /// Whether two bindings have the same chord.
    pub fn same_trigger(&self, other: &KeyBinding) -> (same: bool)
        ensures
            same == self.same_chord(*other),
    {
        self.key_code == other.key_code && self.modifiers == other.modifiers
    }
}

proof fn lemma_invalid_stays(names: Seq<Seq<char>>, upto: int)
    requires
        0 <= upto <= names.len(),
        chord_of_names(names.take(upto)) is None,
    ensures
        chord_of_names(names) is None,
    decreases names.len() - upto,
{
    if upto == names.len() {
        assert(names.take(upto) =~= names);
    } else {
        assert(names.take(upto + 1).drop_last() =~= names.take(upto));
        lemma_invalid_stays(names, upto + 1);
    }
}

/// A built-in binding.
pub open spec fn chord(
    key_code: KeyCode,
    control: bool,
    alt: bool,
    action: BindingAction,
) -> KeyBinding {
    KeyBinding {
        key_code,
        modifiers: BindingModifiers { control, alt, shift: false, super_key: false },
        action,
    }
}

/// The built-in bindings: with control and alt, but for scrolling, which takes
/// alt, and the font size, which takes control.
pub open spec fn built_in_bindings() -> Seq<KeyBinding> {
    seq![
        chord(KeyCode::Enter, true, true, BindingAction::Toggle3DMode),
        chord(KeyCode::KeyM, true, true, BindingAction::ToggleMobiusMode),
        chord(KeyCode::PageUp, false, true, BindingAction::ScrollPageUp),
        chord(KeyCode::PageDown, false, true, BindingAction::ScrollPageDown),
        chord(KeyCode::ArrowUp, false, true, BindingAction::ScrollUp),
        chord(KeyCode::ArrowDown, false, true, BindingAction::ScrollDown),
        chord(KeyCode::ArrowUp, true, true, BindingAction::IncreaseWarp),
        chord(KeyCode::ArrowDown, true, true, BindingAction::DecreaseWarp),
        chord(KeyCode::KeyC, true, true, BindingAction::Copy),
        chord(KeyCode::KeyV, true, true, BindingAction::Paste),
        chord(KeyCode::Equal, true, false, BindingAction::IncreaseFontSize),
        chord(KeyCode::NumpadAdd, true, false, BindingAction::IncreaseFontSize),
        chord(KeyCode::Minus, true, false, BindingAction::DecreaseFontSize),
        chord(KeyCode::NumpadSubtract, true, false, BindingAction::DecreaseFontSize),
        chord(KeyCode::Digit0, true, true, BindingAction::ResetFontSize),
        chord(KeyCode::Numpad0, true, true, BindingAction::ResetFontSize),
        chord(KeyCode::Tab, true, true, BindingAction::FocusCycle),
        chord(KeyCode::KeyT, true, true, BindingAction::SpawnTerminal),
        chord(KeyCode::KeyW, true, true, BindingAction::CloseTerminal),
    ]
}

fn built_in(key_code: KeyCode, control: bool, alt: bool, action: BindingAction) -> (binding:
    KeyBinding)
    ensures
        binding == chord(key_code, control, alt, action),
{
    let modifiers = BindingModifiers { control, alt, shift: false, super_key: false };
    KeyBinding { key_code, modifiers, action }
}

/// The index of the binding of a chord.
pub open spec fn chord_index(bindings: Seq<KeyBinding>, binding: KeyBinding) -> Option<int>
    decreases bindings.len(),
{
    if bindings.len() == 0 {
        None
    } else {
        match chord_index(bindings.drop_last(), binding) {
            Some(i) => Some(i),
            None => if bindings.last().same_chord(binding) {
                Some(bindings.len() - 1)
            } else {
                None
            },
        }
    }
}

/// Bindings after one from the settings: it takes the place of the one with
/// its chord; one that does nothing only takes it away.
pub open spec fn rebound(bindings: Seq<KeyBinding>, binding: KeyBinding) -> Seq<KeyBinding> {
    let freed = match chord_index(bindings, binding) {
        Some(i) => bindings.remove(i),
        None => bindings,
    };
    if binding.action == BindingAction::Nothing {
        freed
    } else {
        freed.push(binding)
    }
}

/// Bindings after those of the settings, of which the invalid are ignored.
pub open spec fn overridden(
    bindings: Seq<KeyBinding>,
    configs: Seq<KeyBindingConfig>,
) -> Seq<KeyBinding>
    decreases configs.len(),
{
    if configs.len() == 0 {
        bindings
    } else {
        let earlier = overridden(bindings, configs.drop_last());
        match KeyBinding::configured(configs.last()) {
            Some(binding) => rebound(earlier, binding),
            None => earlier,
        }
    }
}

/// The index of the binding that a key press means: of those with its key whose
/// modifiers are held, the one with the most modifiers, and of several the
/// last.
pub open spec fn chosen(
    bindings: Seq<KeyBinding>,
    key_code: KeyCode,
    held: BindingModifiers,
) -> Option<int>
    decreases bindings.len(),
{
    if bindings.len() == 0 {
        None
    } else {
        let earlier = chosen(bindings.drop_last(), key_code, held);
        let last = bindings.last();
        if last.key_code == key_code && last.modifiers.satisfied(held) && (earlier matches Some(i)
            ==> last.modifiers.weight() >= bindings[i].modifiers.weight()) {
            Some(bindings.len() - 1)
        } else {
            earlier
        }
    }
}

/// The action that a key press means.
pub open spec fn action_of(
    bindings: Seq<KeyBinding>,
    key_code: KeyCode,
    held: BindingModifiers,
) -> Option<BindingAction> {
    match chosen(bindings, key_code, held) {
        Some(i) => Some(bindings[i].action),
        None => None,
    }
}

/// The key bindings in effect.
#[derive(Debug)]
pub struct TerminalKeyBindings {
    bindings: Vec<KeyBinding>,
}

impl View for TerminalKeyBindings {
    type V = Seq<KeyBinding>;

    closed spec fn view(&self) -> Seq<KeyBinding> {
        self.bindings@
    }
}

impl TerminalKeyBindings {
    /// The built-in bindings with those of the settings.
    pub fn new(configs: &Vec<KeyBindingConfig>) -> (table: TerminalKeyBindings)
        ensures
            table@ == overridden(built_in_bindings(), configs@),
    {
        let bindings: Vec<KeyBinding> = vec![
            built_in(KeyCode::Enter, true, true, BindingAction::Toggle3DMode),
            built_in(KeyCode::KeyM, true, true, BindingAction::ToggleMobiusMode),
            built_in(KeyCode::PageUp, false, true, BindingAction::ScrollPageUp),
            built_in(KeyCode::PageDown, false, true, BindingAction::ScrollPageDown),
            built_in(KeyCode::ArrowUp, false, true, BindingAction::ScrollUp),
            built_in(KeyCode::ArrowDown, false, true, BindingAction::ScrollDown),
            built_in(KeyCode::ArrowUp, true, true, BindingAction::IncreaseWarp),
            built_in(KeyCode::ArrowDown, true, true, BindingAction::DecreaseWarp),
            built_in(KeyCode::KeyC, true, true, BindingAction::Copy),
            built_in(KeyCode::KeyV, true, true, BindingAction::Paste),
            built_in(KeyCode::Equal, true, false, BindingAction::IncreaseFontSize),
            built_in(KeyCode::NumpadAdd, true, false, BindingAction::IncreaseFontSize),
            built_in(KeyCode::Minus, true, false, BindingAction::DecreaseFontSize),
            built_in(KeyCode::NumpadSubtract, true, false, BindingAction::DecreaseFontSize),
            built_in(KeyCode::Digit0, true, true, BindingAction::ResetFontSize),
            built_in(KeyCode::Numpad0, true, true, BindingAction::ResetFontSize),
            built_in(KeyCode::Tab, true, true, BindingAction::FocusCycle),
            built_in(KeyCode::KeyT, true, true, BindingAction::SpawnTerminal),
            built_in(KeyCode::KeyW, true, true, BindingAction::CloseTerminal),
        ];
        let mut table = TerminalKeyBindings { bindings };
        assert(table@ =~= built_in_bindings());
        let mut i: usize = 0;
        assert(configs@.take(0) =~= Seq::empty());
        while i < configs.len()
            invariant
                i <= configs@.len(),
                table@ == overridden(built_in_bindings(), configs@.take(i as int)),
            decreases configs.len() - i,
        {
            assert(configs@.take(i + 1).drop_last() =~= configs@.take(i as int));
            if let Some(binding) = KeyBinding::from_config(&configs[i]) {
                table.rebind(binding);
            }
            i += 1;
        }
        assert(configs@.take(i as int) =~= configs@);
        table
    }

    fn rebind(&mut self, binding: KeyBinding)
        ensures
            final(self)@ == rebound(old(self)@, binding),
    {
        if let Some(index) = self.find(&binding) {
            self.bindings.remove(index);
        }
        if binding.action != BindingAction::Nothing {
            self.bindings.push(binding);
        }
    }

    fn find(&self, binding: &KeyBinding) -> (found: Option<usize>)
        ensures
            match found {
                Some(i) => chord_index(self@, *binding) == Some(i as int) && i < self@.len(),
                None => chord_index(self@, *binding) is None,
            },
    {
        proof {
            lemma_chord_index(self@, *binding);
        }
        let mut i: usize = 0;
        while i < self.bindings.len()
            invariant
                i <= self@.len(),
                self@.len() == self.bindings@.len(),
                forall|j: int| 0 <= j < i ==> !(#[trigger] self@[j]).same_chord(*binding),
                match chord_index(self@, *binding) {
                    Some(k) => 0 <= k < self@.len() && self@[k].same_chord(*binding)
                        && forall|j: int| 0 <= j < k ==> !(#[trigger] self@[j]).same_chord(*binding),
                    None => forall|j: int|
                        0 <= j < self@.len() ==> !(#[trigger] self@[j]).same_chord(*binding),
                },
            decreases self.bindings.len() - i,
        {
            if self.bindings[i].same_trigger(binding) {
                assert(self@[i as int].same_chord(*binding));
                return Some(i);
            }
            i += 1;
        }
        None
    }

    /// The action that a key press means.
    pub fn action_for(&self, key_code: KeyCode, modifiers: BindingModifiers) -> (action: Option<
        BindingAction,
    >)
        ensures
            action == action_of(self@, key_code, modifiers),
    {
        let mut best: Option<usize> = None;
        let mut i: usize = 0;
        assert(self@.take(0) =~= Seq::empty());
        while i < self.bindings.len()
            invariant
                i <= self@.len(),
                self@ == self.bindings@,
                match best {
                    Some(b) => b < i && chosen(self@.take(i as int), key_code, modifiers) == Some(
                        b as int,
                    ),
                    None => chosen(self@.take(i as int), key_code, modifiers) is None,
                },
            decreases self.bindings.len() - i,
        {
            assert(self@.take(i + 1).drop_last() =~= self@.take(i as int));
            let binding: KeyBinding = self.bindings[i];
            if binding.key_code == key_code && binding.modifiers.matches(modifiers) {
                let heavier: bool = match best {
                    Some(b) => binding.modifiers.count() >= self.bindings[b].modifiers.count(),
                    None => true,
                };
                if heavier {
                    best = Some(i);
                }
            }
            i += 1;
        }
        assert(self@.take(i as int) =~= self@);
        match best {
            Some(b) => Some(self.bindings[b].action),
            None => None,
        }
    }
}

proof fn lemma_chord_index(bindings: Seq<KeyBinding>, binding: KeyBinding)
    ensures
        match chord_index(bindings, binding) {
            Some(i) => 0 <= i < bindings.len() && bindings[i].same_chord(binding) && forall|j: int|
                0 <= j < i ==> !(#[trigger] bindings[j]).same_chord(binding),
            None => forall|j: int|
                0 <= j < bindings.len() ==> !(#[trigger] bindings[j]).same_chord(binding),
        },
    decreases bindings.len(),
{
    if bindings.len() > 0 {
        lemma_chord_index(bindings.drop_last(), binding);
        assert forall|j: int| 0 <= j < bindings.len() - 1 implies #[trigger] bindings[j]
            == bindings.drop_last()[j] by {}
    }
}

/// Whether no chord is bound twice.
pub open spec fn chords_differ(bindings: Seq<KeyBinding>) -> bool {
    forall|i: int, j: int|
        0 <= i < j < bindings.len() ==> !(#[trigger] bindings[i]).same_chord(
            #[trigger] bindings[j],
        )
}

/// No chord is ever bound twice, whatever the settings say.
pub proof fn law_chords_stay_different(configs: Seq<KeyBindingConfig>)
    ensures
        chords_differ(overridden(built_in_bindings(), configs)),
    decreases configs.len(),
{
    if configs.len() > 0 {
        law_chords_stay_different(configs.drop_last());
        let earlier = overridden(built_in_bindings(), configs.drop_last());
        if let Some(binding) = KeyBinding::configured(configs.last()) {
            lemma_rebound(earlier, binding);
        }
    }
}

proof fn lemma_rebound(bindings: Seq<KeyBinding>, binding: KeyBinding)
    requires
        chords_differ(bindings),
    ensures
        chords_differ(rebound(bindings, binding)),
        binding.action == BindingAction::Nothing ==> forall|i: int|
            0 <= i < rebound(bindings, binding).len() ==> !(#[trigger] rebound(
                bindings,
                binding,
            )[i]).same_chord(binding),
{
    lemma_chord_index(bindings, binding);
    let after = rebound(bindings, binding);
    match chord_index(bindings, binding) {
        Some(k) => {
            let freed = bindings.remove(k);
            assert forall|i: int| 0 <= i < freed.len() implies !(#[trigger] freed[i]).same_chord(
                binding,
            ) by {
                if i < k {
                    assert(!bindings[i].same_chord(bindings[k]));
                } else {
                    assert(!bindings[k].same_chord(bindings[i + 1]));
                }
            }
            assert forall|i: int, j: int| 0 <= i < j < freed.len() implies !(
            #[trigger] freed[i]).same_chord(#[trigger] freed[j]) by {
                let (a, b) = (
                    if i < k {
                        i
                    } else {
                        i + 1
                    },
                    if j < k {
                        j
                    } else {
                        j + 1
                    },
                );
                assert(!bindings[a].same_chord(bindings[b]));
            }
        },
        None => {},
    }
}

proof fn lemma_chosen(bindings: Seq<KeyBinding>, key_code: KeyCode, held: BindingModifiers)
    ensures
        chosen(bindings, key_code, held) matches Some(i) ==> 0 <= i < bindings.len()
            && bindings[i].key_code == key_code && bindings[i].modifiers.satisfied(held),
    decreases bindings.len(),
{
    if bindings.len() > 0 {
        lemma_chosen(bindings.drop_last(), key_code, held);
    }
}

/// A binding in the settings takes its chord: pressing exactly that chord then
/// does what the settings say, and nothing is left on the chord if they say to
/// do nothing.
pub proof fn law_settings_take_their_chord(bindings: Seq<KeyBinding>, binding: KeyBinding)
    requires
        chords_differ(bindings),
    ensures
        binding.action != BindingAction::Nothing ==> action_of(
            rebound(bindings, binding),
            binding.key_code,
            binding.modifiers,
        ) == Some(binding.action),
        binding.action == BindingAction::Nothing ==> forall|i: int|
            0 <= i < rebound(bindings, binding).len() ==> !(#[trigger] rebound(
                bindings,
                binding,
            )[i]).same_chord(binding),
{
    lemma_rebound(bindings, binding);
    if binding.action != BindingAction::Nothing {
        let after = rebound(bindings, binding);
        let earlier = after.drop_last();
        lemma_chosen(earlier, binding.key_code, binding.modifiers);
    }
}

/// Whether no modifier key is bound.
pub open spec fn modifiers_are_free(bindings: Seq<KeyBinding>) -> bool {
    forall|i: int| 0 <= i < bindings.len() ==> !modifies((#[trigger] bindings[i]).key_code)
}

proof fn lemma_configured_key(names: Seq<Seq<char>>)
    ensures
        chord_of_names(names) matches Some((_, Some(key))) ==> !modifies(key),
    decreases names.len(),
{
    if names.len() > 0 {
        lemma_configured_key(names.drop_last());
        lemma_named_keys(lowered(trimmed(names.last())));
    }
}

proof fn lemma_named_keys(name: Seq<char>)
    ensures
        key_of_name(name) matches Some(key) ==> !modifies(key),
{
}

/// A modifier by itself is never a chord, whatever the settings say.
pub proof fn law_modifiers_are_never_chords(configs: Seq<KeyBindingConfig>)
    ensures
        modifiers_are_free(overridden(built_in_bindings(), configs)),
    decreases configs.len(),
{
    if configs.len() > 0 {
        law_modifiers_are_never_chords(configs.drop_last());
        let earlier = overridden(built_in_bindings(), configs.drop_last());
        let config = configs.last();
        lemma_configured_key(binding_names(config.key@, config.with@));
        if let Some(binding) = KeyBinding::configured(config) {
            lemma_chord_index(earlier, binding);
        }
    }
}

/// A key that no binding has is no chord.
pub proof fn lemma_unbound_key(
    bindings: Seq<KeyBinding>,
    key_code: KeyCode,
    held: BindingModifiers,
)
    requires
        modifiers_are_free(bindings),
        modifies(key_code),
    ensures
        action_of(bindings, key_code, held) is None,
{
    lemma_chosen(bindings, key_code, held);
}

/// Whether a character is the letter or digit of a key.
pub open spec fn marks_key(c: char, letter: KeyCode) -> bool {
    ||| c == 'a' && letter is KeyA
    ||| c == 'b' && letter is KeyB
    ||| c == 'c' && letter is KeyC
    ||| c == 'd' && letter is KeyD
    ||| c == 'e' && letter is KeyE
    ||| c == 'f' && letter is KeyF
    ||| c == 'g' && letter is KeyG
    ||| c == 'h' && letter is KeyH
    ||| c == 'i' && letter is KeyI
    ||| c == 'j' && letter is KeyJ
    ||| c == 'k' && letter is KeyK
    ||| c == 'l' && letter is KeyL
    ||| c == 'm' && letter is KeyM
    ||| c == 'n' && letter is KeyN
    ||| c == 'o' && letter is KeyO
    ||| c == 'p' && letter is KeyP
    ||| c == 'q' && letter is KeyQ
    ||| c == 'r' && letter is KeyR
    ||| c == 's' && letter is KeyS
    ||| c == 't' && letter is KeyT
    ||| c == 'u' && letter is KeyU
    ||| c == 'v' && letter is KeyV
    ||| c == 'w' && letter is KeyW
    ||| c == 'x' && letter is KeyX
    ||| c == 'y' && letter is KeyY
    ||| c == 'z' && letter is KeyZ
}

/// Whether a character is the digit of a key on the main row and one on the
/// keypad.
pub open spec fn marks_digit(c: char, digit: KeyCode, numpad: KeyCode) -> bool {
    ||| c == '0' && digit is Digit0 && numpad is Numpad0
    ||| c == '1' && digit is Digit1 && numpad is Numpad1
    ||| c == '2' && digit is Digit2 && numpad is Numpad2
    ||| c == '3' && digit is Digit3 && numpad is Numpad3
    ||| c == '4' && digit is Digit4 && numpad is Numpad4
    ||| c == '5' && digit is Digit5 && numpad is Numpad5
    ||| c == '6' && digit is Digit6 && numpad is Numpad6
    ||| c == '7' && digit is Digit7 && numpad is Numpad7
    ||| c == '8' && digit is Digit8 && numpad is Numpad8
    ||| c == '9' && digit is Digit9 && numpad is Numpad9
}

/// The names of the letter and digit keys: by itself or behind `key` and
/// `digit`, and behind `numpad` or `numpad_` on the keypad.
pub proof fn law_letters_and_digits_name_their_keys(
    c: char,
    letter: KeyCode,
    digit: KeyCode,
    numpad: KeyCode,
)
    ensures
        marks_key(c, letter) ==> key_of_name(seq![c]) == Some(letter),
        marks_key(c, letter) ==> key_of_name(seq!['k', 'e', 'y', c]) == Some(letter),
        marks_digit(c, digit, numpad) ==> key_of_name(seq![c]) == Some(digit),
        marks_digit(c, digit, numpad) ==> key_of_name(seq!['d', 'i', 'g', 'i', 't', c]) == Some(
            digit,
        ),
        marks_digit(c, digit, numpad) ==> key_of_name(
            seq!['n', 'u', 'm', 'p', 'a', 'd', c],
        ) == Some(numpad),
        marks_digit(c, digit, numpad) ==> key_of_name(
            seq!['n', 'u', 'm', 'p', 'a', 'd', '_', c],
        ) == Some(numpad),
{
    reveal_strlit("key");
    reveal_strlit("digit");
    reveal_strlit("numpad");
    reveal_strlit("numpad_");
    assert(seq!['k', 'e', 'y', c].drop_last() =~= "key"@);
    assert(seq!['d', 'i', 'g', 'i', 't', c].drop_last() =~= "digit"@);
    assert(seq!['n', 'u', 'm', 'p', 'a', 'd', c].drop_last() =~= "numpad"@);
    assert(seq!['n', 'u', 'm', 'p', 'a', 'd', '_', c].drop_last() =~= "numpad_"@);
}

proof fn lemma_key_words()
    ensures
        "key"@.len() == 3 && "digit"@.len() == 5 && "numpad"@.len() == 6 && "numpad_"@.len() == 7,
        "numpad"@[0] == 'n' && "digit"@[0] == 'd' && "numpad_"@[0] == 'n' && "key"@[0] == 'k',
        "f1"@ == seq!['f', '1'],
        "f2"@ == seq!['f', '2'],
        "f3"@ == seq!['f', '3'],
        "f4"@ == seq!['f', '4'],
        "f5"@ == seq!['f', '5'],
        "f6"@ == seq!['f', '6'],
        "f7"@ == seq!['f', '7'],
        "f8"@ == seq!['f', '8'],
        "f9"@ == seq!['f', '9'],
        "f10"@ == seq!['f', '1', '0'],
        "f11"@ == seq!['f', '1', '1'],
        "f12"@ == seq!['f', '1', '2'],
        "up"@ == seq!['u', 'p'],
        "arrowup"@ == seq!['a', 'r', 'r', 'o', 'w', 'u', 'p'],
        "arrow_up"@ == seq!['a', 'r', 'r', 'o', 'w', '_', 'u', 'p'],
        "down"@ == seq!['d', 'o', 'w', 'n'],
        "arrowdown"@ == seq!['a', 'r', 'r', 'o', 'w', 'd', 'o', 'w', 'n'],
        "arrow_down"@ == seq!['a', 'r', 'r', 'o', 'w', '_', 'd', 'o', 'w', 'n'],
        "left"@ == seq!['l', 'e', 'f', 't'],
        "arrowleft"@ == seq!['a', 'r', 'r', 'o', 'w', 'l', 'e', 'f', 't'],
        "arrow_left"@ == seq!['a', 'r', 'r', 'o', 'w', '_', 'l', 'e', 'f', 't'],
        "right"@ == seq!['r', 'i', 'g', 'h', 't'],
        "arrowright"@ == seq!['a', 'r', 'r', 'o', 'w', 'r', 'i', 'g', 'h', 't'],
        "arrow_right"@ == seq!['a', 'r', 'r', 'o', 'w', '_', 'r', 'i', 'g', 'h', 't'],
        "enter"@ == seq!['e', 'n', 't', 'e', 'r'],
        "numpadenter"@ == seq!['n', 'u', 'm', 'p', 'a', 'd', 'e', 'n', 't', 'e', 'r'],
        "numpad_enter"@ == seq!['n', 'u', 'm', 'p', 'a', 'd', '_', 'e', 'n', 't', 'e', 'r'],
        "tab"@ == seq!['t', 'a', 'b'],
        "space"@ == seq!['s', 'p', 'a', 'c', 'e'],
        "backspace"@ == seq!['b', 'a', 'c', 'k', 's', 'p', 'a', 'c', 'e'],
        "escape"@ == seq!['e', 's', 'c', 'a', 'p', 'e'],
        "esc"@ == seq!['e', 's', 'c'],
        "delete"@ == seq!['d', 'e', 'l', 'e', 't', 'e'],
        "home"@ == seq!['h', 'o', 'm', 'e'],
        "end"@ == seq!['e', 'n', 'd'],
        "pageup"@ == seq!['p', 'a', 'g', 'e', 'u', 'p'],
        "page_up"@ == seq!['p', 'a', 'g', 'e', '_', 'u', 'p'],
        "pagedown"@ == seq!['p', 'a', 'g', 'e', 'd', 'o', 'w', 'n'],
        "page_down"@ == seq!['p', 'a', 'g', 'e', '_', 'd', 'o', 'w', 'n'],
        "equal"@ == seq!['e', 'q', 'u', 'a', 'l'],
        "="@ == seq!['='],
        "plus"@ == seq!['p', 'l', 'u', 's'],
        "+"@ == seq!['+'],
        "minus"@ == seq!['m', 'i', 'n', 'u', 's'],
        "-"@ == seq!['-'],
        "numpadadd"@ == seq!['n', 'u', 'm', 'p', 'a', 'd', 'a', 'd', 'd'],
        "numpad_add"@ == seq!['n', 'u', 'm', 'p', 'a', 'd', '_', 'a', 'd', 'd'],
        "numpadsubtract"@ == seq!['n', 'u', 'm', 'p', 'a', 'd', 's', 'u', 'b', 't', 'r', 'a', 'c', 't'],
        "numpad_subtract"@ == seq!['n', 'u', 'm', 'p', 'a', 'd', '_', 's', 'u', 'b', 't', 'r', 'a', 'c', 't'],
{
    reveal_strlit("key");
    reveal_strlit("digit");
    reveal_strlit("numpad");
    reveal_strlit("numpad_");
    reveal_strlit("f1");
    assert("f1"@ =~= seq!['f', '1']);
    reveal_strlit("f2");
    assert("f2"@ =~= seq!['f', '2']);
    reveal_strlit("f3");
    assert("f3"@ =~= seq!['f', '3']);
    reveal_strlit("f4");
    assert("f4"@ =~= seq!['f', '4']);
    reveal_strlit("f5");
    assert("f5"@ =~= seq!['f', '5']);
    reveal_strlit("f6");
    assert("f6"@ =~= seq!['f', '6']);
    reveal_strlit("f7");
    assert("f7"@ =~= seq!['f', '7']);
    reveal_strlit("f8");
    assert("f8"@ =~= seq!['f', '8']);
    reveal_strlit("f9");
    assert("f9"@ =~= seq!['f', '9']);
    reveal_strlit("f10");
    assert("f10"@ =~= seq!['f', '1', '0']);
    reveal_strlit("f11");
    assert("f11"@ =~= seq!['f', '1', '1']);
    reveal_strlit("f12");
    assert("f12"@ =~= seq!['f', '1', '2']);
    reveal_strlit("up");
    assert("up"@ =~= seq!['u', 'p']);
    reveal_strlit("arrowup");
    assert("arrowup"@ =~= seq!['a', 'r', 'r', 'o', 'w', 'u', 'p']);
    reveal_strlit("arrow_up");
    assert("arrow_up"@ =~= seq!['a', 'r', 'r', 'o', 'w', '_', 'u', 'p']);
    reveal_strlit("down");
    assert("down"@ =~= seq!['d', 'o', 'w', 'n']);
    reveal_strlit("arrowdown");
    assert("arrowdown"@ =~= seq!['a', 'r', 'r', 'o', 'w', 'd', 'o', 'w', 'n']);
    reveal_strlit("arrow_down");
    assert("arrow_down"@ =~= seq!['a', 'r', 'r', 'o', 'w', '_', 'd', 'o', 'w', 'n']);
    reveal_strlit("left");
    assert("left"@ =~= seq!['l', 'e', 'f', 't']);
    reveal_strlit("arrowleft");
    assert("arrowleft"@ =~= seq!['a', 'r', 'r', 'o', 'w', 'l', 'e', 'f', 't']);
    reveal_strlit("arrow_left");
    assert("arrow_left"@ =~= seq!['a', 'r', 'r', 'o', 'w', '_', 'l', 'e', 'f', 't']);
    reveal_strlit("right");
    assert("right"@ =~= seq!['r', 'i', 'g', 'h', 't']);
    reveal_strlit("arrowright");
    assert("arrowright"@ =~= seq!['a', 'r', 'r', 'o', 'w', 'r', 'i', 'g', 'h', 't']);
    reveal_strlit("arrow_right");
    assert("arrow_right"@ =~= seq!['a', 'r', 'r', 'o', 'w', '_', 'r', 'i', 'g', 'h', 't']);
    reveal_strlit("enter");
    assert("enter"@ =~= seq!['e', 'n', 't', 'e', 'r']);
    reveal_strlit("numpadenter");
    assert("numpadenter"@ =~= seq!['n', 'u', 'm', 'p', 'a', 'd', 'e', 'n', 't', 'e', 'r']);
    reveal_strlit("numpad_enter");
    assert("numpad_enter"@ =~= seq!['n', 'u', 'm', 'p', 'a', 'd', '_', 'e', 'n', 't', 'e', 'r']);
    reveal_strlit("tab");
    assert("tab"@ =~= seq!['t', 'a', 'b']);
    reveal_strlit("space");
    assert("space"@ =~= seq!['s', 'p', 'a', 'c', 'e']);
    reveal_strlit("backspace");
    assert("backspace"@ =~= seq!['b', 'a', 'c', 'k', 's', 'p', 'a', 'c', 'e']);
    reveal_strlit("escape");
    assert("escape"@ =~= seq!['e', 's', 'c', 'a', 'p', 'e']);
    reveal_strlit("esc");
    assert("esc"@ =~= seq!['e', 's', 'c']);
    reveal_strlit("delete");
    assert("delete"@ =~= seq!['d', 'e', 'l', 'e', 't', 'e']);
    reveal_strlit("home");
    assert("home"@ =~= seq!['h', 'o', 'm', 'e']);
    reveal_strlit("end");
    assert("end"@ =~= seq!['e', 'n', 'd']);
    reveal_strlit("pageup");
    assert("pageup"@ =~= seq!['p', 'a', 'g', 'e', 'u', 'p']);
    reveal_strlit("page_up");
    assert("page_up"@ =~= seq!['p', 'a', 'g', 'e', '_', 'u', 'p']);
    reveal_strlit("pagedown");
    assert("pagedown"@ =~= seq!['p', 'a', 'g', 'e', 'd', 'o', 'w', 'n']);
    reveal_strlit("page_down");
    assert("page_down"@ =~= seq!['p', 'a', 'g', 'e', '_', 'd', 'o', 'w', 'n']);
    reveal_strlit("equal");
    assert("equal"@ =~= seq!['e', 'q', 'u', 'a', 'l']);
    reveal_strlit("=");
    assert("="@ =~= seq!['=']);
    reveal_strlit("plus");
    assert("plus"@ =~= seq!['p', 'l', 'u', 's']);
    reveal_strlit("+");
    assert("+"@ =~= seq!['+']);
    reveal_strlit("minus");
    assert("minus"@ =~= seq!['m', 'i', 'n', 'u', 's']);
    reveal_strlit("-");
    assert("-"@ =~= seq!['-']);
    reveal_strlit("numpadadd");
    assert("numpadadd"@ =~= seq!['n', 'u', 'm', 'p', 'a', 'd', 'a', 'd', 'd']);
    reveal_strlit("numpad_add");
    assert("numpad_add"@ =~= seq!['n', 'u', 'm', 'p', 'a', 'd', '_', 'a', 'd', 'd']);
    reveal_strlit("numpadsubtract");
    assert("numpadsubtract"@ =~= seq!['n', 'u', 'm', 'p', 'a', 'd', 's', 'u', 'b', 't', 'r', 'a', 'c', 't']);
    reveal_strlit("numpad_subtract");
    assert("numpad_subtract"@ =~= seq!['n', 'u', 'm', 'p', 'a', 'd', '_', 's', 'u', 'b', 't', 'r', 'a', 'c', 't']);
}

proof fn lemma_named_f1()
    ensures
        key_of_name(seq!['f', '1']) == Some(KeyCode::F1),
{
    lemma_key_words();
}

proof fn lemma_named_f2()
    ensures
        key_of_name(seq!['f', '2']) == Some(KeyCode::F2),
{
    lemma_key_words();
}

proof fn lemma_named_f3()
    ensures
        key_of_name(seq!['f', '3']) == Some(KeyCode::F3),
{
    lemma_key_words();
}

proof fn lemma_named_f4()
    ensures
        key_of_name(seq!['f', '4']) == Some(KeyCode::F4),
{
    lemma_key_words();
}

proof fn lemma_named_f5()
    ensures
        key_of_name(seq!['f', '5']) == Some(KeyCode::F5),
{
    lemma_key_words();
}

proof fn lemma_named_f6()
    ensures
        key_of_name(seq!['f', '6']) == Some(KeyCode::F6),
{
    lemma_key_words();
}

proof fn lemma_named_f7()
    ensures
        key_of_name(seq!['f', '7']) == Some(KeyCode::F7),
{
    lemma_key_words();
}

proof fn lemma_named_f8()
    ensures
        key_of_name(seq!['f', '8']) == Some(KeyCode::F8),
{
    lemma_key_words();
}

proof fn lemma_named_f9()
    ensures
        key_of_name(seq!['f', '9']) == Some(KeyCode::F9),
{
    lemma_key_words();
}

proof fn lemma_named_f10()
    ensures
        key_of_name(seq!['f', '1', '0']) == Some(KeyCode::F10),
{
    lemma_key_words();
}

proof fn lemma_named_f11()
    ensures
        key_of_name(seq!['f', '1', '1']) == Some(KeyCode::F11),
{
    lemma_key_words();
}

proof fn lemma_named_f12()
    ensures
        key_of_name(seq!['f', '1', '2']) == Some(KeyCode::F12),
{
    lemma_key_words();
}

proof fn lemma_named_arrow_up()
    ensures
        key_of_name(seq!['u', 'p']) == Some(KeyCode::ArrowUp),
        key_of_name(seq!['a', 'r', 'r', 'o', 'w', 'u', 'p']) == Some(KeyCode::ArrowUp),
        key_of_name(seq!['a', 'r', 'r', 'o', 'w', '_', 'u', 'p']) == Some(KeyCode::ArrowUp),
{
    lemma_key_words();
}

proof fn lemma_named_arrow_down()
    ensures
        key_of_name(seq!['d', 'o', 'w', 'n']) == Some(KeyCode::ArrowDown),
        key_of_name(seq!['a', 'r', 'r', 'o', 'w', 'd', 'o', 'w', 'n']) == Some(KeyCode::ArrowDown),
        key_of_name(seq!['a', 'r', 'r', 'o', 'w', '_', 'd', 'o', 'w', 'n']) == Some(KeyCode::ArrowDown),
{
    lemma_key_words();
}

proof fn lemma_named_arrow_left()
    ensures
        key_of_name(seq!['l', 'e', 'f', 't']) == Some(KeyCode::ArrowLeft),
        key_of_name(seq!['a', 'r', 'r', 'o', 'w', 'l', 'e', 'f', 't']) == Some(KeyCode::ArrowLeft),
        key_of_name(seq!['a', 'r', 'r', 'o', 'w', '_', 'l', 'e', 'f', 't']) == Some(KeyCode::ArrowLeft),
{
    lemma_key_words();
}

proof fn lemma_named_arrow_right()
    ensures
        key_of_name(seq!['r', 'i', 'g', 'h', 't']) == Some(KeyCode::ArrowRight),
        key_of_name(seq!['a', 'r', 'r', 'o', 'w', 'r', 'i', 'g', 'h', 't']) == Some(KeyCode::ArrowRight),
        key_of_name(seq!['a', 'r', 'r', 'o', 'w', '_', 'r', 'i', 'g', 'h', 't']) == Some(KeyCode::ArrowRight),
{
    lemma_key_words();
}

proof fn lemma_named_enter()
    ensures
        key_of_name(seq!['e', 'n', 't', 'e', 'r']) == Some(KeyCode::Enter),
{
    lemma_key_words();
}

proof fn lemma_named_numpad_enter()
    ensures
        key_of_name(seq!['n', 'u', 'm', 'p', 'a', 'd', 'e', 'n', 't', 'e', 'r']) == Some(KeyCode::NumpadEnter),
        key_of_name(seq!['n', 'u', 'm', 'p', 'a', 'd', '_', 'e', 'n', 't', 'e', 'r']) == Some(KeyCode::NumpadEnter),
{
    lemma_key_words();
}

proof fn lemma_named_tab()
    ensures
        key_of_name(seq!['t', 'a', 'b']) == Some(KeyCode::Tab),
{
    lemma_key_words();
}

proof fn lemma_named_space()
    ensures
        key_of_name(seq!['s', 'p', 'a', 'c', 'e']) == Some(KeyCode::Space),
{
    lemma_key_words();
}

proof fn lemma_named_backspace()
    ensures
        key_of_name(seq!['b', 'a', 'c', 'k', 's', 'p', 'a', 'c', 'e']) == Some(KeyCode::Backspace),
{
    lemma_key_words();
}

proof fn lemma_named_escape()
    ensures
        key_of_name(seq!['e', 's', 'c', 'a', 'p', 'e']) == Some(KeyCode::Escape),
        key_of_name(seq!['e', 's', 'c']) == Some(KeyCode::Escape),
{
    lemma_key_words();
}

proof fn lemma_named_delete()
    ensures
        key_of_name(seq!['d', 'e', 'l', 'e', 't', 'e']) == Some(KeyCode::Delete),
{
    lemma_key_words();
}

proof fn lemma_named_home()
    ensures
        key_of_name(seq!['h', 'o', 'm', 'e']) == Some(KeyCode::Home),
{
    lemma_key_words();
}

proof fn lemma_named_end()
    ensures
        key_of_name(seq!['e', 'n', 'd']) == Some(KeyCode::End),
{
    lemma_key_words();
}

proof fn lemma_named_page_up()
    ensures
        key_of_name(seq!['p', 'a', 'g', 'e', 'u', 'p']) == Some(KeyCode::PageUp),
        key_of_name(seq!['p', 'a', 'g', 'e', '_', 'u', 'p']) == Some(KeyCode::PageUp),
{
    lemma_key_words();
}

proof fn lemma_named_page_down()
    ensures
        key_of_name(seq!['p', 'a', 'g', 'e', 'd', 'o', 'w', 'n']) == Some(KeyCode::PageDown),
        key_of_name(seq!['p', 'a', 'g', 'e', '_', 'd', 'o', 'w', 'n']) == Some(KeyCode::PageDown),
{
    lemma_key_words();
}

proof fn lemma_named_equal()
    ensures
        key_of_name(seq!['e', 'q', 'u', 'a', 'l']) == Some(KeyCode::Equal),
        key_of_name(seq!['=']) == Some(KeyCode::Equal),
        key_of_name(seq!['p', 'l', 'u', 's']) == Some(KeyCode::Equal),
        key_of_name(seq!['+']) == Some(KeyCode::Equal),
{
    lemma_key_words();
}

proof fn lemma_named_minus()
    ensures
        key_of_name(seq!['m', 'i', 'n', 'u', 's']) == Some(KeyCode::Minus),
        key_of_name(seq!['-']) == Some(KeyCode::Minus),
{
    lemma_key_words();
}

proof fn lemma_named_numpad_add()
    ensures
        key_of_name(seq!['n', 'u', 'm', 'p', 'a', 'd', 'a', 'd', 'd']) == Some(KeyCode::NumpadAdd),
        key_of_name(seq!['n', 'u', 'm', 'p', 'a', 'd', '_', 'a', 'd', 'd']) == Some(KeyCode::NumpadAdd),
{
    lemma_key_words();
}

proof fn lemma_named_numpad_subtract()
    ensures
        key_of_name(seq!['n', 'u', 'm', 'p', 'a', 'd', 's', 'u', 'b', 't', 'r', 'a', 'c', 't']) == Some(KeyCode::NumpadSubtract),
        key_of_name(seq!['n', 'u', 'm', 'p', 'a', 'd', '_', 's', 'u', 'b', 't', 'r', 'a', 'c', 't']) == Some(KeyCode::NumpadSubtract),
{
    lemma_key_words();
}

/// The names of the other keys.
pub proof fn law_other_keys_have_their_names()
    ensures
        key_of_name(seq!['f', '1']) == Some(KeyCode::F1),
        key_of_name(seq!['f', '2']) == Some(KeyCode::F2),
        key_of_name(seq!['f', '3']) == Some(KeyCode::F3),
        key_of_name(seq!['f', '4']) == Some(KeyCode::F4),
        key_of_name(seq!['f', '5']) == Some(KeyCode::F5),
        key_of_name(seq!['f', '6']) == Some(KeyCode::F6),
        key_of_name(seq!['f', '7']) == Some(KeyCode::F7),
        key_of_name(seq!['f', '8']) == Some(KeyCode::F8),
        key_of_name(seq!['f', '9']) == Some(KeyCode::F9),
        key_of_name(seq!['f', '1', '0']) == Some(KeyCode::F10),
        key_of_name(seq!['f', '1', '1']) == Some(KeyCode::F11),
        key_of_name(seq!['f', '1', '2']) == Some(KeyCode::F12),
        key_of_name(seq!['u', 'p']) == Some(KeyCode::ArrowUp),
        key_of_name(seq!['a', 'r', 'r', 'o', 'w', 'u', 'p']) == Some(KeyCode::ArrowUp),
        key_of_name(seq!['a', 'r', 'r', 'o', 'w', '_', 'u', 'p']) == Some(KeyCode::ArrowUp),
        key_of_name(seq!['d', 'o', 'w', 'n']) == Some(KeyCode::ArrowDown),
        key_of_name(seq!['a', 'r', 'r', 'o', 'w', 'd', 'o', 'w', 'n']) == Some(KeyCode::ArrowDown),
        key_of_name(seq!['a', 'r', 'r', 'o', 'w', '_', 'd', 'o', 'w', 'n']) == Some(KeyCode::ArrowDown),
        key_of_name(seq!['l', 'e', 'f', 't']) == Some(KeyCode::ArrowLeft),
        key_of_name(seq!['a', 'r', 'r', 'o', 'w', 'l', 'e', 'f', 't']) == Some(KeyCode::ArrowLeft),
        key_of_name(seq!['a', 'r', 'r', 'o', 'w', '_', 'l', 'e', 'f', 't']) == Some(KeyCode::ArrowLeft),
        key_of_name(seq!['r', 'i', 'g', 'h', 't']) == Some(KeyCode::ArrowRight),
        key_of_name(seq!['a', 'r', 'r', 'o', 'w', 'r', 'i', 'g', 'h', 't']) == Some(KeyCode::ArrowRight),
        key_of_name(seq!['a', 'r', 'r', 'o', 'w', '_', 'r', 'i', 'g', 'h', 't']) == Some(KeyCode::ArrowRight),
        key_of_name(seq!['e', 'n', 't', 'e', 'r']) == Some(KeyCode::Enter),
        key_of_name(seq!['n', 'u', 'm', 'p', 'a', 'd', 'e', 'n', 't', 'e', 'r']) == Some(KeyCode::NumpadEnter),
        key_of_name(seq!['n', 'u', 'm', 'p', 'a', 'd', '_', 'e', 'n', 't', 'e', 'r']) == Some(KeyCode::NumpadEnter),
        key_of_name(seq!['t', 'a', 'b']) == Some(KeyCode::Tab),
        key_of_name(seq!['s', 'p', 'a', 'c', 'e']) == Some(KeyCode::Space),
        key_of_name(seq!['b', 'a', 'c', 'k', 's', 'p', 'a', 'c', 'e']) == Some(KeyCode::Backspace),
        key_of_name(seq!['e', 's', 'c', 'a', 'p', 'e']) == Some(KeyCode::Escape),
        key_of_name(seq!['e', 's', 'c']) == Some(KeyCode::Escape),
        key_of_name(seq!['d', 'e', 'l', 'e', 't', 'e']) == Some(KeyCode::Delete),
        key_of_name(seq!['h', 'o', 'm', 'e']) == Some(KeyCode::Home),
        key_of_name(seq!['e', 'n', 'd']) == Some(KeyCode::End),
        key_of_name(seq!['p', 'a', 'g', 'e', 'u', 'p']) == Some(KeyCode::PageUp),
        key_of_name(seq!['p', 'a', 'g', 'e', '_', 'u', 'p']) == Some(KeyCode::PageUp),
        key_of_name(seq!['p', 'a', 'g', 'e', 'd', 'o', 'w', 'n']) == Some(KeyCode::PageDown),
        key_of_name(seq!['p', 'a', 'g', 'e', '_', 'd', 'o', 'w', 'n']) == Some(KeyCode::PageDown),
        key_of_name(seq!['e', 'q', 'u', 'a', 'l']) == Some(KeyCode::Equal),
        key_of_name(seq!['=']) == Some(KeyCode::Equal),
        key_of_name(seq!['p', 'l', 'u', 's']) == Some(KeyCode::Equal),
        key_of_name(seq!['+']) == Some(KeyCode::Equal),
        key_of_name(seq!['m', 'i', 'n', 'u', 's']) == Some(KeyCode::Minus),
        key_of_name(seq!['-']) == Some(KeyCode::Minus),
        key_of_name(seq!['n', 'u', 'm', 'p', 'a', 'd', 'a', 'd', 'd']) == Some(KeyCode::NumpadAdd),
        key_of_name(seq!['n', 'u', 'm', 'p', 'a', 'd', '_', 'a', 'd', 'd']) == Some(KeyCode::NumpadAdd),
        key_of_name(seq!['n', 'u', 'm', 'p', 'a', 'd', 's', 'u', 'b', 't', 'r', 'a', 'c', 't']) == Some(KeyCode::NumpadSubtract),
        key_of_name(seq!['n', 'u', 'm', 'p', 'a', 'd', '_', 's', 'u', 'b', 't', 'r', 'a', 'c', 't']) == Some(KeyCode::NumpadSubtract),
{
    lemma_named_f1();
    lemma_named_f2();
    lemma_named_f3();
    lemma_named_f4();
    lemma_named_f5();
    lemma_named_f6();
    lemma_named_f7();
    lemma_named_f8();
    lemma_named_f9();
    lemma_named_f10();
    lemma_named_f11();
    lemma_named_f12();
    lemma_named_arrow_up();
    lemma_named_arrow_down();
    lemma_named_arrow_left();
    lemma_named_arrow_right();
    lemma_named_enter();
    lemma_named_numpad_enter();
    lemma_named_tab();
    lemma_named_space();
    lemma_named_backspace();
    lemma_named_escape();
    lemma_named_delete();
    lemma_named_home();
    lemma_named_end();
    lemma_named_page_up();
    lemma_named_page_down();
    lemma_named_equal();
    lemma_named_minus();
    lemma_named_numpad_add();
    lemma_named_numpad_subtract();
}

/// The names of the modifiers.
pub proof fn law_modifiers_have_their_names()
    ensures
        modifier_of_name(seq!['c', 'o', 'n', 't', 'r', 'o', 'l']) == Some(ParsedModifier::Control),
        modifier_of_name(seq!['c', 't', 'r', 'l']) == Some(ParsedModifier::Control),
        modifier_of_name(seq!['a', 'l', 't']) == Some(ParsedModifier::Alt),
        modifier_of_name(seq!['s', 'h', 'i', 'f', 't']) == Some(ParsedModifier::Shift),
        modifier_of_name(seq!['s', 'u', 'p', 'e', 'r']) == Some(ParsedModifier::Super),
        modifier_of_name(seq!['c', 'm', 'd']) == Some(ParsedModifier::Super),
        modifier_of_name(seq!['c', 'o', 'm', 'm', 'a', 'n', 'd']) == Some(ParsedModifier::Super),
        modifier_of_name(seq!['m', 'e', 't', 'a']) == Some(ParsedModifier::Super),
{
    reveal_strlit("control");
    assert(seq!['c', 'o', 'n', 't', 'r', 'o', 'l'] =~= "control"@);
    reveal_strlit("ctrl");
    assert(seq!['c', 't', 'r', 'l'] =~= "ctrl"@);
    reveal_strlit("alt");
    assert(seq!['a', 'l', 't'] =~= "alt"@);
    reveal_strlit("shift");
    assert(seq!['s', 'h', 'i', 'f', 't'] =~= "shift"@);
    reveal_strlit("super");
    assert(seq!['s', 'u', 'p', 'e', 'r'] =~= "super"@);
    reveal_strlit("cmd");
    assert(seq!['c', 'm', 'd'] =~= "cmd"@);
    reveal_strlit("command");
    assert(seq!['c', 'o', 'm', 'm', 'a', 'n', 'd'] =~= "command"@);
    reveal_strlit("meta");
    assert(seq!['m', 'e', 't', 'a'] =~= "meta"@);
}

/// How many modifiers a chord has.
pub open spec fn modifier_count(modifiers: BindingModifiers) -> int {
    (if modifiers.control {
        1int
    } else {
        0
    }) + (if modifiers.alt {
        1int
    } else {
        0
    }) + (if modifiers.shift {
        1int
    } else {
        0
    }) + (if modifiers.super_key {
        1int
    } else {
        0
    })
}

/// Whether a key press is one of a binding's: the key is its own and all its
/// modifiers are held.
pub open spec fn presses(binding: KeyBinding, key_code: KeyCode, held: BindingModifiers) -> bool {
    &&& binding.key_code == key_code
    &&& binding.modifiers.control ==> held.control
    &&& binding.modifiers.alt ==> held.alt
    &&& binding.modifiers.shift ==> held.shift
    &&& binding.modifiers.super_key ==> held.super_key
}

/// Of the bindings that a key press is one of, the one with the most modifiers
/// acts, and of several the last; a key press that is of none does nothing.
pub proof fn law_the_most_specific_binding_acts(
    bindings: Seq<KeyBinding>,
    key_code: KeyCode,
    held: BindingModifiers,
)
    ensures
        match action_of(bindings, key_code, held) {
            Some(action) => exists|i: int| {
                &&& 0 <= i < bindings.len()
                &&& #[trigger] presses(bindings[i], key_code, held)
                &&& bindings[i].action == action
                &&& forall|j: int|
                    0 <= j < bindings.len() && #[trigger] presses(bindings[j], key_code, held) ==> {
                        ||| modifier_count(bindings[j].modifiers) < modifier_count(
                            bindings[i].modifiers,
                        )
                        ||| modifier_count(bindings[j].modifiers) == modifier_count(
                            bindings[i].modifiers,
                        ) && j <= i
                    }
            },
            None => forall|j: int|
                0 <= j < bindings.len() ==> !(#[trigger] presses(bindings[j], key_code, held)),
        },
{
    lemma_heaviest(bindings, key_code, held);
}

proof fn lemma_heaviest(bindings: Seq<KeyBinding>, key_code: KeyCode, held: BindingModifiers)
    ensures
        match chosen(bindings, key_code, held) {
            Some(i) => {
                &&& 0 <= i < bindings.len()
                &&& presses(bindings[i], key_code, held)
                &&& forall|j: int|
                    0 <= j < bindings.len() && #[trigger] presses(bindings[j], key_code, held) ==> {
                        ||| modifier_count(bindings[j].modifiers) < modifier_count(
                            bindings[i].modifiers,
                        )
                        ||| modifier_count(bindings[j].modifiers) == modifier_count(
                            bindings[i].modifiers,
                        ) && j <= i
                    }
            },
            None => forall|j: int|
                0 <= j < bindings.len() ==> !(#[trigger] presses(bindings[j], key_code, held)),
        },
    decreases bindings.len(),
{
    if bindings.len() > 0 {
        let front = bindings.drop_last();
        lemma_heaviest(front, key_code, held);
        assert forall|j: int| 0 <= j < front.len() implies #[trigger] presses(
            bindings[j],
            key_code,
            held,
        ) == presses(front[j], key_code, held) by {
            assert(bindings[j] == front[j]);
        }
        assert(bindings[bindings.len() - 1] == bindings.last());
    }
}

/// What the built-in chords do, whatever else is held: with control and alt
/// enter switches to space and back, M goes onto the strip and off it, up and
/// down shape the surface, C copies, V pastes, zero resets the font size, tab
/// goes to the next terminal, T opens one and W closes one; with alt the page
/// keys and the arrows scroll; with control plus and minus change the font
/// size. No other key is a chord.
pub proof fn law_built_in_chords(key_code: KeyCode, held: BindingModifiers)
    ensures
        action_of(built_in_bindings(), key_code, held) == (if held.control && held.alt && (
        key_code is Enter || key_code is KeyM || key_code is KeyC || key_code is KeyV
            || key_code is Digit0 || key_code is Numpad0 || key_code is Tab || key_code is KeyT
            || key_code is KeyW || key_code is ArrowUp || key_code is ArrowDown) {
            Some(
                match key_code {
                    KeyCode::Enter => BindingAction::Toggle3DMode,
                    KeyCode::KeyM => BindingAction::ToggleMobiusMode,
                    KeyCode::ArrowUp => BindingAction::IncreaseWarp,
                    KeyCode::ArrowDown => BindingAction::DecreaseWarp,
                    KeyCode::KeyC => BindingAction::Copy,
                    KeyCode::KeyV => BindingAction::Paste,
                    KeyCode::Tab => BindingAction::FocusCycle,
                    KeyCode::KeyT => BindingAction::SpawnTerminal,
                    KeyCode::KeyW => BindingAction::CloseTerminal,
                    _ => BindingAction::ResetFontSize,
                },
            )
        } else if held.alt && key_code is PageUp {
            Some(BindingAction::ScrollPageUp)
        } else if held.alt && key_code is PageDown {
            Some(BindingAction::ScrollPageDown)
        } else if held.alt && key_code is ArrowUp {
            Some(BindingAction::ScrollUp)
        } else if held.alt && key_code is ArrowDown {
            Some(BindingAction::ScrollDown)
        } else if held.control && (key_code is Equal || key_code is NumpadAdd) {
            Some(BindingAction::IncreaseFontSize)
        } else if held.control && (key_code is Minus || key_code is NumpadSubtract) {
            Some(BindingAction::DecreaseFontSize)
        } else {
            None
        }),
{
    lemma_heaviest(built_in_bindings(), key_code, held);
    let bindings = built_in_bindings();
    assert(bindings.len() == 19);
    match chosen(bindings, key_code, held) {
        Some(i) => {
            assert(presses(bindings[i], key_code, held));
            assert(presses(bindings[0], key_code, held) ==> modifier_count(bindings[0].modifiers) <= modifier_count(bindings[i].modifiers));
            assert(presses(bindings[1], key_code, held) ==> modifier_count(bindings[1].modifiers) <= modifier_count(bindings[i].modifiers));
            assert(presses(bindings[2], key_code, held) ==> modifier_count(bindings[2].modifiers) <= modifier_count(bindings[i].modifiers));
            assert(presses(bindings[3], key_code, held) ==> modifier_count(bindings[3].modifiers) <= modifier_count(bindings[i].modifiers));
            assert(presses(bindings[4], key_code, held) ==> modifier_count(bindings[4].modifiers) <= modifier_count(bindings[i].modifiers));
            assert(presses(bindings[5], key_code, held) ==> modifier_count(bindings[5].modifiers) <= modifier_count(bindings[i].modifiers));
            assert(presses(bindings[6], key_code, held) ==> modifier_count(bindings[6].modifiers) <= modifier_count(bindings[i].modifiers));
            assert(presses(bindings[7], key_code, held) ==> modifier_count(bindings[7].modifiers) <= modifier_count(bindings[i].modifiers));
            assert(presses(bindings[8], key_code, held) ==> modifier_count(bindings[8].modifiers) <= modifier_count(bindings[i].modifiers));
            assert(presses(bindings[9], key_code, held) ==> modifier_count(bindings[9].modifiers) <= modifier_count(bindings[i].modifiers));
            assert(presses(bindings[10], key_code, held) ==> modifier_count(bindings[10].modifiers) <= modifier_count(bindings[i].modifiers));
            assert(presses(bindings[11], key_code, held) ==> modifier_count(bindings[11].modifiers) <= modifier_count(bindings[i].modifiers));
            assert(presses(bindings[12], key_code, held) ==> modifier_count(bindings[12].modifiers) <= modifier_count(bindings[i].modifiers));
            assert(presses(bindings[13], key_code, held) ==> modifier_count(bindings[13].modifiers) <= modifier_count(bindings[i].modifiers));
            assert(presses(bindings[14], key_code, held) ==> modifier_count(bindings[14].modifiers) <= modifier_count(bindings[i].modifiers));
            assert(presses(bindings[15], key_code, held) ==> modifier_count(bindings[15].modifiers) <= modifier_count(bindings[i].modifiers));
            assert(presses(bindings[16], key_code, held) ==> modifier_count(bindings[16].modifiers) <= modifier_count(bindings[i].modifiers));
            assert(presses(bindings[17], key_code, held) ==> modifier_count(bindings[17].modifiers) <= modifier_count(bindings[i].modifiers));
            assert(presses(bindings[18], key_code, held) ==> modifier_count(bindings[18].modifiers) <= modifier_count(bindings[i].modifiers));
        },
        None => {
            assert(!presses(bindings[0], key_code, held));
            assert(!presses(bindings[1], key_code, held));
            assert(!presses(bindings[2], key_code, held));
            assert(!presses(bindings[3], key_code, held));
            assert(!presses(bindings[4], key_code, held));
            assert(!presses(bindings[5], key_code, held));
            assert(!presses(bindings[6], key_code, held));
            assert(!presses(bindings[7], key_code, held));
            assert(!presses(bindings[8], key_code, held));
            assert(!presses(bindings[9], key_code, held));
            assert(!presses(bindings[10], key_code, held));
            assert(!presses(bindings[11], key_code, held));
            assert(!presses(bindings[12], key_code, held));
            assert(!presses(bindings[13], key_code, held));
            assert(!presses(bindings[14], key_code, held));
            assert(!presses(bindings[15], key_code, held));
            assert(!presses(bindings[16], key_code, held));
            assert(!presses(bindings[17], key_code, held));
            assert(!presses(bindings[18], key_code, held));
        },
    }
}

/// A binding of the settings changes its own chord and no other: every binding
/// of another chord stays, and nothing else comes.
pub proof fn law_settings_change_no_other_chord(
    bindings: Seq<KeyBinding>,
    binding: KeyBinding,
    other: KeyBinding,
)
    requires
        chords_differ(bindings),
        !(other.key_code == binding.key_code && other.modifiers == binding.modifiers),
    ensures
        rebound(bindings, binding).contains(other) <==> bindings.contains(other),
{
    lemma_chord_index(bindings, binding);
    let after = rebound(bindings, binding);
    match chord_index(bindings, binding) {
        Some(k) => {
            let freed = bindings.remove(k);
            if bindings.contains(other) {
                let i = choose|i: int| 0 <= i < bindings.len() && bindings[i] == other;
                assert(i != k);
                let at = if i < k {
                    i
                } else {
                    i - 1
                };
                assert(freed[at] == other);
                assert(after[at] == other);
            }
            if after.contains(other) {
                let i = choose|i: int| 0 <= i < after.len() && after[i] == other;
                assert(i < freed.len());
                assert(freed[i] == other);
                assert(bindings[if i < k {
                    i
                } else {
                    i + 1
                }] == other);
            }
        },
        None => {
            if bindings.contains(other) {
                let i = choose|i: int| 0 <= i < bindings.len() && bindings[i] == other;
                assert(after[i] == other);
            }
            if after.contains(other) {
                let i = choose|i: int| 0 <= i < after.len() && after[i] == other;
                assert(i < bindings.len());
                assert(bindings[i] == other);
            }
        },
    }
}

/// Which modifiers count as held: control, shift and super on either side, alt
/// on the left alone; of the window and of the keyboard together.
pub proof fn law_held_modifiers(
    pressed: Seq<KeyCode>,
    keyboard: TerminalKeyboard,
    a: BindingModifiers,
    b: BindingModifiers,
)
    ensures
        ({
            let held = modifiers_among(pressed);
            let followed = BindingModifiers::held_by(keyboard);
            let both = a.joined(b);
            &&& held.control <==> pressed.contains(KeyCode::ControlLeft) || pressed.contains(
                KeyCode::ControlRight,
            )
            &&& held.alt <==> pressed.contains(KeyCode::AltLeft)
            &&& held.shift <==> pressed.contains(KeyCode::ShiftLeft) || pressed.contains(
                KeyCode::ShiftRight,
            )
            &&& held.super_key <==> pressed.contains(KeyCode::SuperLeft) || pressed.contains(
                KeyCode::SuperRight,
            )
            &&& followed.control == keyboard.ctrl_pressed
            &&& followed.alt == keyboard.left_alt_pressed
            &&& followed.shift == keyboard.shift_pressed
            &&& followed.super_key == keyboard.super_pressed
            &&& both.control == (a.control || b.control)
            &&& both.alt == (a.alt || b.alt)
            &&& both.shift == (a.shift || b.shift)
            &&& both.super_key == (a.super_key || b.super_key)
            &&& a.satisfied(b) <==> (a.control ==> b.control) && (a.alt ==> b.alt) && (a.shift
                ==> b.shift) && (a.super_key ==> b.super_key)
            &&& a.weight() == modifier_count(a)
        }),
{
}

/// A modifier that the settings name is added, and none is taken away.
pub proof fn law_named_modifiers_are_added(modifier: ParsedModifier, to: BindingModifiers)
    ensures
        modifier.added(to).control == (to.control || modifier is Control),
        modifier.added(to).alt == (to.alt || modifier is Alt),
        modifier.added(to).shift == (to.shift || modifier is Shift),
        modifier.added(to).super_key == (to.super_key || modifier is Super),
{
}

/// How a binding is written, name by name: a modifier is added, the first other
/// name is the key, a blank is skipped, and a name too many spoils the binding.
pub proof fn law_bindings_are_written_name_by_name(names: Seq<Seq<char>>, name: Seq<char>)
    ensures
        ({
            let word = lowered(trimmed(name));
            let before = chord_of_names(names);
            let after = chord_of_names(names.push(name));
            &&& chord_of_names(Seq::empty()) == Some(
                (
                    BindingModifiers {
                        control: false,
                        alt: false,
                        shift: false,
                        super_key: false,
                    },
                    None::<KeyCode>,
                ),
            )
            &&& before is None ==> after is None
            &&& before matches Some((modifiers, key)) ==> {
                &&& word.len() == 0 ==> after == before
                &&& word.len() > 0 ==> match modifier_of_name(word) {
                    Some(modifier) => after == Some((modifier.added(modifiers), key)),
                    None => if key is None {
                        after == Some((modifiers, key_of_name(word)))
                    } else {
                        after is None
                    },
                }
            }
        }),
{
    assert(names.push(name).drop_last() =~= names);
}

/// A binding in the settings keeps its action, its key and its modifiers.
pub proof fn law_configured_bindings_are_what_was_written(config: KeyBindingConfig)
    ensures
        match chord_of_names(pieces(config.key@, '|', 0) + pieces(config.with@, '|', 0)) {
            Some((modifiers, Some(key))) => KeyBinding::configured(config) matches Some(binding)
                && binding.key_code == key && binding.modifiers == modifiers && binding.action
                == config.action,
            _ => KeyBinding::configured(config) is None,
        },
{
}

/// The settings name the actions by their own names, and nothing to do `None`.
pub proof fn law_actions_have_their_names()
    ensures
        action_named(seq!['N', 'o', 'n', 'e']) == Some(BindingAction::Nothing),
        action_named(seq!['T', 'o', 'g', 'g', 'l', 'e', '3', 'D', 'M', 'o', 'd', 'e']) == Some(BindingAction::Toggle3DMode),
        action_named(seq!['T', 'o', 'g', 'g', 'l', 'e', 'M', 'o', 'b', 'i', 'u', 's', 'M', 'o', 'd', 'e']) == Some(BindingAction::ToggleMobiusMode),
        action_named(seq!['S', 'c', 'r', 'o', 'l', 'l', 'P', 'a', 'g', 'e', 'U', 'p']) == Some(BindingAction::ScrollPageUp),
        action_named(seq!['S', 'c', 'r', 'o', 'l', 'l', 'P', 'a', 'g', 'e', 'D', 'o', 'w', 'n']) == Some(BindingAction::ScrollPageDown),
        action_named(seq!['S', 'c', 'r', 'o', 'l', 'l', 'U', 'p']) == Some(BindingAction::ScrollUp),
        action_named(seq!['S', 'c', 'r', 'o', 'l', 'l', 'D', 'o', 'w', 'n']) == Some(BindingAction::ScrollDown),
        action_named(seq!['I', 'n', 'c', 'r', 'e', 'a', 's', 'e', 'W', 'a', 'r', 'p']) == Some(BindingAction::IncreaseWarp),
        action_named(seq!['D', 'e', 'c', 'r', 'e', 'a', 's', 'e', 'W', 'a', 'r', 'p']) == Some(BindingAction::DecreaseWarp),
        action_named(seq!['C', 'o', 'p', 'y']) == Some(BindingAction::Copy),
        action_named(seq!['P', 'a', 's', 't', 'e']) == Some(BindingAction::Paste),
        action_named(seq!['I', 'n', 'c', 'r', 'e', 'a', 's', 'e', 'F', 'o', 'n', 't', 'S', 'i', 'z', 'e']) == Some(BindingAction::IncreaseFontSize),
        action_named(seq!['D', 'e', 'c', 'r', 'e', 'a', 's', 'e', 'F', 'o', 'n', 't', 'S', 'i', 'z', 'e']) == Some(BindingAction::DecreaseFontSize),
        action_named(seq!['R', 'e', 's', 'e', 't', 'F', 'o', 'n', 't', 'S', 'i', 'z', 'e']) == Some(BindingAction::ResetFontSize),
        action_named(seq!['F', 'o', 'c', 'u', 's', 'C', 'y', 'c', 'l', 'e']) == Some(BindingAction::FocusCycle),
        action_named(seq!['S', 'p', 'a', 'w', 'n', 'T', 'e', 'r', 'm', 'i', 'n', 'a', 'l']) == Some(BindingAction::SpawnTerminal),
        action_named(seq!['C', 'l', 'o', 's', 'e', 'T', 'e', 'r', 'm', 'i', 'n', 'a', 'l']) == Some(BindingAction::CloseTerminal),
{
    reveal_strlit("None");
    reveal_strlit("Toggle3DMode");
    reveal_strlit("ToggleMobiusMode");
    reveal_strlit("ScrollPageUp");
    reveal_strlit("ScrollPageDown");
    reveal_strlit("ScrollUp");
    reveal_strlit("ScrollDown");
    reveal_strlit("IncreaseWarp");
    reveal_strlit("DecreaseWarp");
    reveal_strlit("Copy");
    reveal_strlit("Paste");
    reveal_strlit("IncreaseFontSize");
    reveal_strlit("DecreaseFontSize");
    reveal_strlit("ResetFontSize");
    reveal_strlit("FocusCycle");
    reveal_strlit("SpawnTerminal");
    reveal_strlit("CloseTerminal");
    assert(seq!['N', 'o', 'n', 'e'] =~= "None"@);
    assert(seq!['T', 'o', 'g', 'g', 'l', 'e', '3', 'D', 'M', 'o', 'd', 'e'] =~= "Toggle3DMode"@);
    assert(seq!['T', 'o', 'g', 'g', 'l', 'e', 'M', 'o', 'b', 'i', 'u', 's', 'M', 'o', 'd', 'e'] =~= "ToggleMobiusMode"@);
    assert(seq!['S', 'c', 'r', 'o', 'l', 'l', 'P', 'a', 'g', 'e', 'U', 'p'] =~= "ScrollPageUp"@);
    assert(seq!['S', 'c', 'r', 'o', 'l', 'l', 'P', 'a', 'g', 'e', 'D', 'o', 'w', 'n'] =~= "ScrollPageDown"@);
    assert(seq!['S', 'c', 'r', 'o', 'l', 'l', 'U', 'p'] =~= "ScrollUp"@);
    assert(seq!['S', 'c', 'r', 'o', 'l', 'l', 'D', 'o', 'w', 'n'] =~= "ScrollDown"@);
    assert(seq!['I', 'n', 'c', 'r', 'e', 'a', 's', 'e', 'W', 'a', 'r', 'p'] =~= "IncreaseWarp"@);
    assert(seq!['D', 'e', 'c', 'r', 'e', 'a', 's', 'e', 'W', 'a', 'r', 'p'] =~= "DecreaseWarp"@);
    assert(seq!['C', 'o', 'p', 'y'] =~= "Copy"@);
    assert(seq!['P', 'a', 's', 't', 'e'] =~= "Paste"@);
    assert(seq!['I', 'n', 'c', 'r', 'e', 'a', 's', 'e', 'F', 'o', 'n', 't', 'S', 'i', 'z', 'e'] =~= "IncreaseFontSize"@);
    assert(seq!['D', 'e', 'c', 'r', 'e', 'a', 's', 'e', 'F', 'o', 'n', 't', 'S', 'i', 'z', 'e'] =~= "DecreaseFontSize"@);
    assert(seq!['R', 'e', 's', 'e', 't', 'F', 'o', 'n', 't', 'S', 'i', 'z', 'e'] =~= "ResetFontSize"@);
    assert(seq!['F', 'o', 'c', 'u', 's', 'C', 'y', 'c', 'l', 'e'] =~= "FocusCycle"@);
    assert(seq!['S', 'p', 'a', 'w', 'n', 'T', 'e', 'r', 'm', 'i', 'n', 'a', 'l'] =~= "SpawnTerminal"@);
    assert(seq!['C', 'l', 'o', 's', 'e', 'T', 'e', 'r', 'm', 'i', 'n', 'a', 'l'] =~= "CloseTerminal"@);
}

} // verus!
