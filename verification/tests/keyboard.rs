//! Keys, chords and where typed bytes go.

use ratty::bindings::{
    current_modifiers, parse_key_code, parse_modifier, BindingAction, BindingModifiers, KeyBinding, KeyBindingConfig,
    ParsedModifier, TerminalKeyBindings,
};
use ratty::focus::{
    drain_focus_requests, FocusOrigin, FocusRequest, FocusedTerminal, LiveSeat,
};
use ratty::identity::{TerminalId, TerminalRegistry};
use ratty::keyboard::{
    handle_keyboard_input, FontStep, KeyAction, KeyOutcome, KeyTarget, Repaint,
};
use ratty::config::key_bindings_from_toml_str;
use ratty::keys::{
    paste_bytes, Key, KeyCode, KeyEvent, KeyModes, NavigationKey, TerminalKeyboard,
};
use ratty::mouse::encode_mouse_wheel;
use ratty::scene::TerminalPresentationMode;
use ratty::screen::{MouseEncoding, TerminalScreen};

const NO_MODIFIERS: BindingModifiers =
    BindingModifiers { control: false, alt: false, shift: false, super_key: false };

const CTRL_ALT: BindingModifiers =
    BindingModifiers { control: true, alt: true, shift: false, super_key: false };

const PLAIN_MODES: KeyModes =
    KeyModes { application_cursor: false, kitty_keyboard_flags: 0, modify_other_keys: None };

#[test]
fn key_names_accept_both_the_friendly_and_the_keycode_spelling() {
    for (friendly, variant) in [
        ("a", "KeyA"),
        ("z", "keyz"),
        ("0", "Digit0"),
        ("9", "digit9"),
        ("up", "ArrowUp"),
        ("down", "arrow_down"),
        ("left", "ArrowLeft"),
        ("right", "ArrowRight"),
    ] {
        let expected = parse_key_code(friendly);
        assert!(expected.is_some(), "`{friendly}` must resolve");
        assert_eq!(
            parse_key_code(variant),
            expected,
            "`{variant}` must mean the same key as `{friendly}`"
        );
    }

    assert_eq!(parse_key_code("Numpad0"), Some(KeyCode::Numpad0));
    assert_eq!(parse_key_code("numpad_9"), Some(KeyCode::Numpad9));
    assert_eq!(parse_key_code("NumpadEnter"), Some(KeyCode::NumpadEnter));

    // An unknown name resolves to nothing.
    for unknown in ["", "keyaa", "digit10", "numpad", "arrow", "meta"] {
        assert_eq!(parse_key_code(unknown), None, "`{unknown}` must not resolve");
    }
}

#[test]
fn modifier_names_resolve() {
    assert_eq!(parse_modifier(" Ctrl "), Some(ParsedModifier::Control));
    assert_eq!(parse_modifier("control"), Some(ParsedModifier::Control));
    assert_eq!(parse_modifier("ALT"), Some(ParsedModifier::Alt));
    assert_eq!(parse_modifier("shift"), Some(ParsedModifier::Shift));
    assert_eq!(parse_modifier("super"), Some(ParsedModifier::Super));
    assert_eq!(parse_modifier("hyper"), None);
}

#[test]
fn held_keys_are_modifiers_on_either_side_but_alt_on_the_left() {
    assert_eq!(
        current_modifiers(&vec![KeyCode::KeyA, KeyCode::ControlRight, KeyCode::AltLeft]),
        CTRL_ALT
    );
    assert_eq!(current_modifiers(&vec![KeyCode::AltRight]), NO_MODIFIERS);
    assert_eq!(
        current_modifiers(&vec![KeyCode::ShiftLeft, KeyCode::SuperRight]),
        BindingModifiers { shift: true, super_key: true, ..NO_MODIFIERS }
    );
}

fn config(key: &str, with: &str, action: BindingAction) -> KeyBindingConfig {
    KeyBindingConfig { key: key.to_string(), with: with.to_string(), action }
}

#[test]
fn bindings_parse_from_settings() {
    assert_eq!(
        KeyBinding::from_config(&config("Digit0", "ctrl | alt", BindingAction::ResetFontSize)),
        Some(KeyBinding::new(KeyCode::Digit0, CTRL_ALT, BindingAction::ResetFontSize))
    );
    // The modifiers may stand in the key's field too.
    assert_eq!(
        KeyBinding::from_config(&config("ctrl|alt|0", "", BindingAction::ResetFontSize)),
        Some(KeyBinding::new(KeyCode::Digit0, CTRL_ALT, BindingAction::ResetFontSize))
    );
    assert_eq!(KeyBinding::from_config(&config("digit10", "ctrl", BindingAction::Copy)), None);
    assert_eq!(KeyBinding::from_config(&config("a", "hyper", BindingAction::Copy)), None);
    assert_eq!(KeyBinding::from_config(&config("a|b", "", BindingAction::Copy)), None);
}

#[test]
fn ctrl_alt_zero_resolves_to_reset_font_size() {
    let bindings = TerminalKeyBindings::new(&Vec::new());
    for key in [KeyCode::Digit0, KeyCode::Numpad0] {
        assert_eq!(
            bindings.action_for(key, CTRL_ALT),
            Some(BindingAction::ResetFontSize),
            "{key:?} with Ctrl+Alt resets the font size"
        );
    }
    assert_eq!(bindings.action_for(KeyCode::Digit0, NO_MODIFIERS), None);
}

#[test]
fn a_setting_takes_the_place_of_a_built_in_chord() {
    let bindings =
        TerminalKeyBindings::new(&vec![config("0", "ctrl|alt", BindingAction::Copy)]);
    assert_eq!(bindings.action_for(KeyCode::Digit0, CTRL_ALT), Some(BindingAction::Copy));
    assert_eq!(
        bindings.action_for(KeyCode::Numpad0, CTRL_ALT),
        Some(BindingAction::ResetFontSize)
    );
}

/// What a paste sends to a terminal's program.
fn write_paste(screen: &TerminalScreen, text: &str) -> Vec<u8> {
    paste_bytes(text, screen.bracketed_paste())
}

#[test]
fn paste_without_bracketed_mode_sends_bare_bytes() {
    let screen = TerminalScreen::new(24, 80, 0).expect("a drawable grid");
    assert_eq!(write_paste(&screen, "hi\r\nthere\r"), b"hi\nthere\n".to_vec());
}

#[test]
fn paste_with_bracketed_mode_wraps_in_sentinels() {
    let mut screen = TerminalScreen::new(24, 80, 0).expect("a drawable grid");
    screen.show(b"\x1b[?2004h");
    assert_eq!(write_paste(&screen, "hi"), b"\x1b[200~hi\x1b[201~".to_vec());
}

/// Two terminal seats and the focus between them.
struct World {
    keyboard: TerminalKeyboard,
    held: BindingModifiers,
    bindings: TerminalKeyBindings,
    focus: FocusedTerminal,
    seats: Vec<LiveSeat>,
    targets: Vec<KeyTarget>,
    mode: TerminalPresentationMode,
    /// What each seat's program was sent.
    received: Vec<(u64, Vec<u8>)>,
}

const SEAT_A: u64 = 100;
const SEAT_B: u64 = 101;

fn routing_world() -> World {
    let mut registry = TerminalRegistry::default();
    let mut seats = Vec::new();
    let mut targets = Vec::new();
    for entity in [SEAT_A, SEAT_B] {
        let identity = registry.allocate().expect("test lease");
        registry.bind(identity.id(), entity).expect("the just-allocated lease is live");
        seats.push(LiveSeat { entity, id: identity.id() });
        targets.push(KeyTarget {
            entity,
            rows: Some(24),
            screen: TerminalScreen::new(24, 80, 100),
            kitty_keyboard_flags: 0,
            modify_other_keys: None,
            owns_selection: true,
        });
    }
    World {
        keyboard: TerminalKeyboard::new(),
        held: NO_MODIFIERS,
        bindings: TerminalKeyBindings::new(&Vec::new()),
        focus: FocusedTerminal::new(),
        seats,
        targets,
        mode: TerminalPresentationMode::Flat2d,
        received: Vec::new(),
    }
}

/// Takes what a seat's program was sent; none where it was sent nothing.
fn receive(world: &mut World, entity: u64) -> Option<Vec<u8>> {
    let at = world.received.iter().position(|(seat, _)| *seat == entity)?;
    Some(world.received.remove(at).1)
}

fn screen(world: &mut World, entity: u64) -> &mut TerminalScreen {
    world
        .targets
        .iter_mut()
        .find(|target| target.entity == entity)
        .and_then(|target| target.screen.as_mut())
        .expect("it has its screen")
}

fn focus(world: &mut World, target: u64) {
    let requests = vec![FocusRequest { target: Some(target), origin: FocusOrigin::SpawnPolicy }];
    drain_focus_requests(&requests, &mut world.focus, &world.seats);
}

/// Presses a key among all terminals: its bytes go where the outcome says, and
/// the scene changes its mode as it says.
fn press(world: &mut World, event: KeyEvent) -> KeyOutcome {
    let outcome = handle_keyboard_input(
        &event,
        world.held,
        &mut world.keyboard,
        &world.bindings,
        &mut world.targets,
        &world.focus,
        &world.seats,
        world.mode,
    );
    if let Some(bytes) = &outcome.input {
        let receiver = outcome.receiver.expect("bytes are for somebody");
        world.received.push((receiver, bytes.clone()));
    }
    if let KeyAction::TogglePlane { to } = outcome.action {
        world.mode = to;
    }
    outcome
}

fn typed(key_code: KeyCode, text: &str) -> KeyEvent {
    KeyEvent {
        key_code,
        logical_key: Key::Character(text.to_string()),
        pressed: true,
        text: Some(text.to_string()),
        repeat: false,
    }
}

fn special(key_code: KeyCode) -> KeyEvent {
    KeyEvent { key_code, logical_key: Key::Other, pressed: true, text: None, repeat: false }
}

#[test]
fn typing_follows_focus() {
    let mut world = routing_world();
    assert_eq!(world.seats.len(), 2, "seat count asserted");

    focus(&mut world, SEAT_A);
    press(&mut world, typed(KeyCode::KeyA, "a"));
    assert_eq!(receive(&mut world, SEAT_A), Some(b"a".to_vec()), "A receives its byte");
    assert_eq!(receive(&mut world, SEAT_B), None, "typing into A must not reach B");

    focus(&mut world, SEAT_B);
    press(&mut world, typed(KeyCode::KeyB, "b"));
    assert_eq!(receive(&mut world, SEAT_B), Some(b"b".to_vec()), "B receives its byte");
    assert_eq!(receive(&mut world, SEAT_A), None, "the byte path re-targets with focus");
}

#[test]
fn a_focused_seat_without_a_terminal_gets_nothing_and_none_stands_in() {
    let mut world = routing_world();
    focus(&mut world, SEAT_A);
    world.targets.retain(|target| target.entity != SEAT_A);
    let outcome = press(&mut world, typed(KeyCode::KeyA, "a"));
    assert_eq!(outcome.receiver, None);
    assert_eq!(outcome.input, None);
}

#[test]
fn the_focus_cycle_chord_requests_the_lru_seat_and_sends_no_bytes() {
    let mut world = routing_world();
    assert_eq!(world.seats.len(), 2, "seat count asserted");
    focus(&mut world, SEAT_A);

    // Hold Ctrl+Alt physically, press Tab.
    world.held = CTRL_ALT;
    let outcome = press(&mut world, special(KeyCode::Tab));
    assert_eq!(
        outcome.action,
        KeyAction::Focus(FocusRequest {
            target: Some(SEAT_B),
            origin: FocusOrigin::Keybinding,
        }),
        "the chord emits one user-class request at the LRU seat"
    );
    assert_eq!(outcome.input, None, "a consumed chord never leaks bytes to any terminal");
}

#[test]
fn the_close_chord_queues_the_focused_seat_and_sends_no_bytes() {
    let mut world = routing_world();
    assert_eq!(world.seats.len(), 2, "seat count asserted");
    focus(&mut world, SEAT_B);
    let id_b: TerminalId = world.seats[1].id;

    world.held = CTRL_ALT;
    let outcome = press(&mut world, typed(KeyCode::KeyW, "w"));
    assert_eq!(
        outcome.action,
        KeyAction::CloseTerminal(id_b),
        "the focused seat is queued, not the boot seat"
    );
    assert_eq!(outcome.input, None, "a consumed chord never leaks bytes to any terminal");
}

/// Closing the last terminal would leave the app blank and deaf.
#[test]
fn the_close_chord_refuses_the_only_live_terminal() {
    let mut world = routing_world();
    world.seats.truncate(1);
    assert_eq!(world.seats.len(), 1, "seat count asserted");
    focus(&mut world, SEAT_A);

    world.held = CTRL_ALT;
    let outcome = press(&mut world, typed(KeyCode::KeyW, "w"));
    assert_eq!(
        outcome.action,
        KeyAction::Nothing,
        "the last terminal is not closable by chord"
    );
    assert_eq!(outcome.input, None);
}

#[test]
fn no_focus_drops_bytes_but_scene_chords_still_work() {
    let mut world = routing_world();
    assert_eq!(world.seats.len(), 2, "seat count asserted");

    // Nothing is focused at this point, deliberately.
    let outcome = press(&mut world, typed(KeyCode::KeyX, "x"));
    assert_eq!(outcome.input, None, "with no focus, byte input drops");
    assert!(
        receive(&mut world, SEAT_A).is_none() && receive(&mut world, SEAT_B).is_none(),
        "no terminal stands in for a focused one"
    );

    // Scene chords keep working with no terminal focused.
    world.held = CTRL_ALT;
    press(&mut world, special(KeyCode::Enter));
    assert_eq!(
        world.mode,
        TerminalPresentationMode::Plane3d,
        "scene chords survive zero focus"
    );
    assert!(receive(&mut world, SEAT_A).is_none() && receive(&mut world, SEAT_B).is_none());
    press(&mut world, special(KeyCode::Enter));
    assert_eq!(world.mode, TerminalPresentationMode::Flat2d, "the second switch undoes the first");
}

#[test]
fn the_strip_is_entered_with_the_mode_before_and_left() {
    let mut world = routing_world();
    world.held = CTRL_ALT;
    world.mode = TerminalPresentationMode::Plane3d;
    let outcome = press(&mut world, special(KeyCode::KeyM));
    assert_eq!(
        outcome.action,
        KeyAction::EnterMobius { from: TerminalPresentationMode::Plane3d }
    );
    world.mode = TerminalPresentationMode::Mobius3d;
    let outcome = press(&mut world, special(KeyCode::KeyM));
    assert_eq!(outcome.action, KeyAction::LeaveMobius);
    assert_eq!(
        TerminalPresentationMode::Mobius3d.toggle_plane_mode(),
        TerminalPresentationMode::Flat2d
    );
}

#[test]
fn wheel_turns_are_reported_in_each_encoding() {
    assert_eq!(encode_mouse_wheel(4, 9, true, MouseEncoding::Sgr), b"\x1b[<64;10;5M".to_vec());
    assert_eq!(
        encode_mouse_wheel(0, 0, false, MouseEncoding::Plain),
        vec![0x1b, b'[', b'M', 97, 33, 33]
    );
    assert_eq!(
        encode_mouse_wheel(0, 300, true, MouseEncoding::Plain),
        vec![0x1b, b'[', b'M', 96, 255, 33]
    );
    let mut expected = b"\x1b[M`".to_vec();
    expected.extend_from_slice("\u{14d}!".as_bytes());
    assert_eq!(encode_mouse_wheel(0, 300, true, MouseEncoding::Utf8), expected);
    let mut furthest = b"\x1b[M`!".to_vec();
    furthest.extend_from_slice("\u{7ff}".as_bytes());
    assert_eq!(encode_mouse_wheel(60_000, 0, true, MouseEncoding::Utf8), furthest);
}

#[test]
fn key_bindings_are_read_from_settings() {
    let text = "[[bindings.keys]]\nkey = \"Digit0\"\nwith = \"ctrl | alt\"\naction = \"Copy\"\n\
                [[bindings.keys]]\nkey = \"ctrl|a\"\naction = \"None\"\n";
    let keys = key_bindings_from_toml_str(text).expect("they parse");
    assert_eq!(keys.len(), 2);
    assert_eq!(keys[1].with, "");
    assert_eq!(keys[1].action, BindingAction::Nothing);
    let bindings = TerminalKeyBindings::new(&keys);
    assert_eq!(bindings.action_for(KeyCode::Digit0, CTRL_ALT), Some(BindingAction::Copy));

    assert!(key_bindings_from_toml_str("").expect("no bindings").is_empty());
    for (text, fault) in [
        ("bindings = 3\n", "bindings is not a table"),
        ("[bindings]\nkeys = 3\n", "keys is not a list"),
        ("[[bindings.keys]]\nwith = \"ctrl\"\n", "key is missing"),
        ("[[bindings.keys]]\nkey = 3\n", "key is not a text"),
        ("[[bindings.keys]]\nkey = \"a\"\naction = \"Fly\"\n", "Fly is not an action"),
    ] {
        match key_bindings_from_toml_str(text) {
            Err(message) => assert_eq!(message, fault),
            Ok(keys) => panic!("{keys:?} from {text}"),
        }
    }
}

#[test]
fn the_spawn_chord_requests_one_terminal_and_sends_no_bytes() {
    let mut world = routing_world();
    assert_eq!(world.seats.len(), 2, "seat count asserted");
    focus(&mut world, SEAT_A);

    world.held = CTRL_ALT;
    let outcome = press(&mut world, typed(KeyCode::KeyT, "t"));
    assert_eq!(outcome.action, KeyAction::SpawnTerminal);
    assert_eq!(outcome.input, None, "a consumed spawn chord never leaks bytes");

    // A held chord asks once.
    let mut held_down = typed(KeyCode::KeyT, "t");
    held_down.repeat = true;
    let outcome = press(&mut world, held_down);
    assert_eq!(outcome.action, KeyAction::Nothing);
    assert_eq!(outcome.input, None);
}

#[test]
fn the_font_chord_steps_the_size() {
    let mut world = routing_world();
    focus(&mut world, SEAT_A);
    world.held = CTRL_ALT;
    let outcome = press(&mut world, special(KeyCode::Digit0));
    assert_eq!(outcome.action, KeyAction::FontSize(FontStep::Reset));
}

#[test]
fn page_chords_scroll_the_focused_view_or_turn_the_programs_wheel() {
    let mut world = routing_world();
    focus(&mut world, SEAT_A);
    for _ in 0..60 {
        screen(&mut world, SEAT_A).show(b"line\r\n");
    }
    let bindings = &world.bindings;
    let chord = [CTRL_ALT, BindingModifiers { shift: true, ..NO_MODIFIERS }]
        .into_iter()
        .find(|held| {
            bindings.action_for(KeyCode::PageUp, *held) == Some(BindingAction::ScrollPageUp)
        })
        .expect("a chord pages up");
    world.held = chord;
    let outcome = press(&mut world, special(KeyCode::PageUp));
    assert_eq!(outcome.action, KeyAction::Nothing);
    assert_eq!(outcome.repaint, Repaint::Focused);
    let scrolled = screen(&mut world, SEAT_A).scrollback();
    assert!(scrolled > 0, "the view moved back");

    // A program that asked for the pointer gets wheel steps.
    screen(&mut world, SEAT_A).show(b"\x1b[?1000h\x1b[?1006h");
    let outcome = press(&mut world, special(KeyCode::PageUp));
    match outcome.action {
        KeyAction::Wheel { up, encoding, .. } => {
            assert!(up);
            assert_eq!(encoding, MouseEncoding::Sgr);
        }
        other => panic!("the program's wheel turns, not {other:?}"),
    }
}

fn bytes_of(keyboard: TerminalKeyboard, event: KeyEvent, modes: KeyModes) -> Option<Vec<u8>> {
    let mut keyboard = keyboard;
    keyboard.handle_event_with_modes(&event, modes)
}

#[test]
fn keys_translate_to_bytes() {
    let plain = TerminalKeyboard::new();
    let ctrl = TerminalKeyboard { ctrl_pressed: true, ..plain };
    let alt = TerminalKeyboard { left_alt_pressed: true, ..plain };
    let alt_gr = TerminalKeyboard { right_alt_pressed: true, ..plain };
    let shift = TerminalKeyboard { shift_pressed: true, ..plain };

    assert_eq!(bytes_of(plain, typed(KeyCode::KeyA, "ä"), PLAIN_MODES), Some("ä".into()));
    assert_eq!(bytes_of(ctrl, typed(KeyCode::KeyC, "c"), PLAIN_MODES), Some(vec![3]));
    assert_eq!(bytes_of(alt, typed(KeyCode::KeyX, "x"), PLAIN_MODES), Some(b"\x1bx".to_vec()));
    assert_eq!(bytes_of(alt_gr, typed(KeyCode::KeyQ, "@"), PLAIN_MODES), Some(b"@".to_vec()));
    assert_eq!(bytes_of(plain, special(KeyCode::Enter), PLAIN_MODES), Some(b"\r".to_vec()));
    assert_eq!(bytes_of(plain, special(KeyCode::ArrowUp), PLAIN_MODES), Some(b"\x1b[A".to_vec()));
    assert_eq!(
        bytes_of(
            plain,
            special(KeyCode::ArrowUp),
            KeyModes { application_cursor: true, ..PLAIN_MODES }
        ),
        Some(b"\x1bOA".to_vec())
    );
    assert_eq!(
        bytes_of(ctrl, special(KeyCode::ArrowLeft), PLAIN_MODES),
        Some(b"\x1b[1;5D".to_vec())
    );
    assert_eq!(
        bytes_of(
            shift,
            special(KeyCode::Enter),
            KeyModes { kitty_keyboard_flags: 1, ..PLAIN_MODES }
        ),
        Some(b"\x1b[13;2u".to_vec())
    );
    assert_eq!(
        bytes_of(
            ctrl,
            special(KeyCode::Tab),
            KeyModes { modify_other_keys: Some(1), ..PLAIN_MODES }
        ),
        Some(b"\x1b[27;5;9~".to_vec())
    );
    assert_eq!(NavigationKey::Delete.encode(false, false), b"\x1b[3~".to_vec());
}

#[test]
fn modifier_keys_are_kept_in_step_and_send_nothing() {
    let mut keyboard = TerminalKeyboard::new();
    let down = special(KeyCode::ControlLeft);
    assert_eq!(keyboard.handle_event_with_modes(&down, PLAIN_MODES), None);
    assert!(keyboard.ctrl_pressed);
    let mut up = special(KeyCode::ControlLeft);
    up.pressed = false;
    assert_eq!(keyboard.handle_event_with_modes(&up, PLAIN_MODES), None);
    assert!(!keyboard.ctrl_pressed);
}
