//! The keyboard: where a key press goes.
//!
//! Chords of the scene work whether or not a terminal is focused. Chords of a
//! terminal, and the bytes of everything that is no chord, go to the focused
//! terminal; without one they are dropped. A chord never leaks bytes. Held
//! modifiers are tracked whatever happens, so that they never fall out of step.

use vstd::prelude::*;
use crate::bindings::{action_of, BindingAction, BindingModifiers, TerminalKeyBindings};
use crate::focus::{FocusOrigin, FocusRequest, FocusState, FocusedTerminal, LiveSeat};
use crate::identity::TerminalId;
use crate::keys::{
    binding_code, is_modifier_key, modifies, navigation_key_code, KeyCode, KeyEvent, KeyModes,
    TerminalKeyboard,
};
use crate::pty::bytes_view;
use crate::scene::TerminalPresentationMode;
use crate::screen::{
    screen_application_cursor, screen_bracketed_paste, screen_cursor, screen_heard,
    screen_history, screen_limit, screen_mouse_encoding, screen_mouse_mode, screen_scrollback,
    screen_size, MouseEncoding, MouseMode, TerminalScreen,
};

verus! {

/// A change of the font size.
#[derive(Clone, Copy, Debug, PartialEq, Eq, Structural)]
pub enum FontStep {
    /// One larger.
    Larger,
    /// One smaller.
    Smaller,
    /// The default size.
    Reset,
}

/// What is left to do after a key press.
#[derive(Clone, Copy, Debug, PartialEq, Eq, Structural)]
pub enum KeyAction {
    /// Nothing.
    Nothing,
    /// Present the scene in another mode; whatever moves stops.
    TogglePlane {
        /// The mode from now on.
        to: TerminalPresentationMode,
    },
    /// Go onto the strip; a camera move stops.
    EnterMobius {
        /// The mode before, to which leaving goes back.
        from: TerminalPresentationMode,
    },
    /// Leave the strip; a camera move stops.
    LeaveMobius,
    /// Report turns of the wheel to the focused terminal's program.
    Wheel {
        /// The cell's row.
        row: u16,
        /// The cell's column.
        col: u16,
        /// Whether it turns up.
        up: bool,
        /// How reports are encoded.
        encoding: MouseEncoding,
        /// How many reports.
        times: u16,
    },
    /// Shape the focused terminal's surface; a camera move stops.
    Warp {
        /// Whether it gets more.
        more: bool,
    },
    /// Put the selected text on the clipboard.
    Copy,
    /// Send the clipboard to the focused terminal.
    Paste,
    /// Change the focused terminal's font size.
    FontSize(FontStep),
    /// Ask for focus.
    Focus(FocusRequest),
    /// Open a terminal.
    SpawnTerminal,
    /// Close a terminal.
    CloseTerminal(TerminalId),
}

/// Which terminals are painted again.
#[derive(Clone, Copy, Debug, PartialEq, Eq, Structural)]
pub enum Repaint {
    /// None.
    Nobody,
    /// The focused one.
    Focused,
    /// All.
    Everybody,
}

/// A terminal, as far as the keyboard goes.
pub struct KeyTarget {
    /// The seat.
    pub entity: u64,
    /// The rows of its surface, where it has one.
    pub rows: Option<u16>,
    /// Its screen, where its program runs.
    pub screen: Option<TerminalScreen>,
    /// The flags of the newer keyboard protocol.
    pub kitty_keyboard_flags: u8,
    /// The level of the older keyboard protocol.
    pub modify_other_keys: Option<u8>,
    /// Whether the selection is its own, or nobody's.
    pub owns_selection: bool,
}

/// What happens after a key event.
#[derive(Debug)]
pub struct KeyOutcome {
    /// The focused terminal's seat, where that terminal is there: the only one
    /// that anything goes to.
    pub receiver: Option<u64>,
    /// What is left to do.
    pub action: KeyAction,
    /// Whether the selection goes. Where there was one and a terminal is
    /// focused, that terminal is painted again.
    pub clear_selection: bool,
    /// Which terminals are painted again.
    pub repaint: Repaint,
    /// The bytes for the focused terminal's program.
    pub input: Option<Vec<u8>>,
}

/// What the keyboard reads of a screen.
pub struct ScreenFacts {
    /// Whether cursor keys are in application mode.
    pub application_cursor: bool,
    /// What the program asked to be told about the pointer.
    pub mouse_mode: MouseMode,
    /// How pointer reports are encoded.
    pub mouse_encoding: MouseEncoding,
    /// The cursor's row and column.
    pub cursor: (u16, u16),
    /// How far back the view is scrolled.
    pub scrollback: nat,
}

/// What the keyboard reads of a terminal.
pub struct KeyFacts {
    /// The seat.
    pub entity: u64,
    /// The rows of its surface, where it has one.
    pub rows: Option<u16>,
    /// Its screen, where its program runs.
    pub screen: Option<ScreenFacts>,
    /// The flags of the newer keyboard protocol.
    pub kitty_keyboard_flags: u8,
    /// The level of the older keyboard protocol.
    pub modify_other_keys: Option<u8>,
    /// Whether the selection is its own, or nobody's.
    pub owns_selection: bool,
}

/// What the keyboard reads of a screen.
pub open spec fn screen_facts(screen: TerminalScreen) -> ScreenFacts {
    ScreenFacts {
        application_cursor: screen_application_cursor(screen),
        mouse_mode: screen_mouse_mode(screen),
        mouse_encoding: screen_mouse_encoding(screen),
        cursor: screen_cursor(screen),
        scrollback: screen_scrollback(screen),
    }
}

impl View for KeyTarget {
    type V = KeyFacts;

    open spec fn view(&self) -> KeyFacts {
        KeyFacts {
            entity: self.entity,
            rows: self.rows,
            screen: match self.screen {
                Some(screen) => Some(screen_facts(screen)),
                None => None,
            },
            kitty_keyboard_flags: self.kitty_keyboard_flags,
            modify_other_keys: self.modify_other_keys,
            owns_selection: self.owns_selection,
        }
    }
}

impl KeyTarget {
    /// The screen has room to draw in.
    pub open spec fn wf(&self) -> bool {
        self.screen matches Some(screen) ==> screen.wf()
    }
}

/// What a key event comes to.
pub struct KeyDecision {
    /// The seat that anything goes to.
    pub receiver: Option<u64>,
    /// What is left to do.
    pub action: KeyAction,
    /// Whether the selection goes.
    pub clear_selection: bool,
    /// Which terminals are painted again.
    pub repaint: Repaint,
    /// The bytes for the focused terminal's program.
    pub input: Option<Seq<u8>>,
    /// Where the view is scrolled to, as far as the history goes.
    pub scroll: Option<nat>,
}

/// Nothing happens.
pub open spec fn ignored() -> KeyDecision {
    KeyDecision {
        receiver: None,
        action: KeyAction::Nothing,
        clear_selection: false,
        repaint: Repaint::Nobody,
        input: None,
        scroll: None,
    }
}

/// Whether a chord acts again while its key is held.
pub open spec fn repeats(action: BindingAction) -> bool {
    match action {
        BindingAction::IncreaseFontSize => true,
        BindingAction::DecreaseFontSize => true,
        BindingAction::ResetFontSize => true,
        BindingAction::ScrollPageUp => true,
        BindingAction::ScrollPageDown => true,
        BindingAction::ScrollUp => true,
        BindingAction::ScrollDown => true,
        BindingAction::IncreaseWarp => true,
        BindingAction::DecreaseWarp => true,
        _ => false,
    }
}

/// How many rows a scroll chord goes: a page is a row less than the surface,
/// and at least one. None where it is no scroll chord, or there is no surface
/// to take a page of.
pub open spec fn scroll_rows(action: BindingAction, rows: Option<u16>) -> Option<u16> {
    match action {
        BindingAction::ScrollUp => Some(1u16),
        BindingAction::ScrollDown => Some(1u16),
        BindingAction::ScrollPageUp => page_rows(rows),
        BindingAction::ScrollPageDown => page_rows(rows),
        _ => None,
    }
}

/// The rows of a page.
pub open spec fn page_rows(rows: Option<u16>) -> Option<u16> {
    match rows {
        Some(rows) => Some(
            (if rows >= 2 {
                rows - 1
            } else {
                1
            }) as u16,
        ),
        None => None,
    }
}

/// Whether a scroll chord goes back.
pub open spec fn scrolls_up(action: BindingAction) -> bool {
    action == BindingAction::ScrollPageUp || action == BindingAction::ScrollUp
}

/// What a scroll chord comes to. On the flat scene a program that follows the
/// pointer is sent turns of the wheel; otherwise the view is scrolled.
pub open spec fn scroll_decision(
    action: BindingAction,
    target: Option<KeyFacts>,
    mode: TerminalPresentationMode,
) -> KeyDecision {
    match target {
        Some(target) => match (scroll_rows(action, target.rows), target.screen) {
            (Some(rows), Some(screen)) => if mode == TerminalPresentationMode::Flat2d
                && screen.mouse_mode != MouseMode::Silent {
                KeyDecision {
                    action: KeyAction::Wheel {
                        row: screen.cursor.0,
                        col: screen.cursor.1,
                        up: scrolls_up(action),
                        encoding: screen.mouse_encoding,
                        times: rows,
                    },
                    ..ignored()
                }
            } else {
                KeyDecision {
                    clear_selection: target.owns_selection,
                    repaint: Repaint::Focused,
                    scroll: Some(
                        if scrolls_up(action) {
                            if screen.scrollback + rows <= usize::MAX {
                                screen.scrollback + rows as nat
                            } else {
                                usize::MAX as nat
                            }
                        } else if screen.scrollback >= rows {
                            (screen.scrollback - rows) as nat
                        } else {
                            0
                        },
                    ),
                    ..ignored()
                }
            },
            _ => ignored(),
        },
        None => ignored(),
    }
}

/// The index of a seat.
pub open spec fn seat_of(seats: Seq<LiveSeat>, entity: u64) -> Option<int>
    decreases seats.len(),
{
    if seats.len() == 0 {
        None
    } else {
        match seat_of(seats.drop_last(), entity) {
            Some(i) => Some(i),
            None => if seats.last().entity == entity {
                Some(seats.len() - 1)
            } else {
                None
            },
        }
    }
}

/// What a chord comes to.
pub open spec fn chord_decision(
    action: BindingAction,
    target: Option<KeyFacts>,
    focus: FocusState,
    seats: Seq<LiveSeat>,
    mode: TerminalPresentationMode,
) -> KeyDecision {
    match action {
        BindingAction::Toggle3DMode => KeyDecision {
            action: KeyAction::TogglePlane { to: mode.plane_toggled() },
            clear_selection: true,
            repaint: Repaint::Everybody,
            ..ignored()
        },
        BindingAction::ToggleMobiusMode => KeyDecision {
            action: if mode == TerminalPresentationMode::Mobius3d {
                KeyAction::LeaveMobius
            } else {
                KeyAction::EnterMobius { from: mode }
            },
            clear_selection: true,
            repaint: Repaint::Everybody,
            ..ignored()
        },
        BindingAction::IncreaseWarp => if target is Some {
            KeyDecision {
                action: KeyAction::Warp { more: true },
                repaint: Repaint::Focused,
                ..ignored()
            }
        } else {
            ignored()
        },
        BindingAction::DecreaseWarp => if target is Some {
            KeyDecision {
                action: KeyAction::Warp { more: false },
                repaint: Repaint::Focused,
                ..ignored()
            }
        } else {
            ignored()
        },
        BindingAction::Copy => match target {
            Some(target) => if target.owns_selection && target.screen is Some {
                KeyDecision { action: KeyAction::Copy, clear_selection: true, ..ignored() }
            } else {
                ignored()
            },
            None => ignored(),
        },
        BindingAction::Paste => match target {
            Some(target) => if target.screen is Some {
                KeyDecision {
                    action: KeyAction::Paste,
                    clear_selection: target.owns_selection,
                    ..ignored()
                }
            } else {
                ignored()
            },
            None => ignored(),
        },
        BindingAction::IncreaseFontSize => font_decision(target, FontStep::Larger),
        BindingAction::DecreaseFontSize => font_decision(target, FontStep::Smaller),
        BindingAction::ResetFontSize => font_decision(target, FontStep::Reset),
        BindingAction::FocusCycle => match focus.cycle_index(seats) {
            Some(i) => KeyDecision {
                action: KeyAction::Focus(
                    FocusRequest {
                        target: Some(seats[i].entity),
                        origin: FocusOrigin::Keybinding,
                    },
                ),
                ..ignored()
            },
            None => ignored(),
        },
        BindingAction::SpawnTerminal => KeyDecision {
            action: KeyAction::SpawnTerminal,
            ..ignored()
        },
        BindingAction::CloseTerminal => match focus.current {
            Some(focused) => match seat_of(seats, focused) {
                Some(i) => if seats.len() >= 2 {
                    KeyDecision { action: KeyAction::CloseTerminal(seats[i].id), ..ignored() }
                } else {
                    ignored()
                },
                None => ignored(),
            },
            None => ignored(),
        },
        _ => scroll_decision(action, target, mode),
    }
}

/// What a font chord comes to.
pub open spec fn font_decision(target: Option<KeyFacts>, step: FontStep) -> KeyDecision {
    match target {
        Some(target) => if target.rows is Some {
            KeyDecision { action: KeyAction::FontSize(step), ..ignored() }
        } else {
            ignored()
        },
        None => ignored(),
    }
}

/// What the focused terminal's program asked of the keyboard.
pub open spec fn modes_of(target: Option<KeyFacts>) -> KeyModes {
    match target {
        Some(target) => match target.screen {
            Some(screen) => KeyModes {
                application_cursor: screen.application_cursor,
                kitty_keyboard_flags: target.kitty_keyboard_flags,
                modify_other_keys: target.modify_other_keys,
            },
            None => no_modes(),
        },
        None => no_modes(),
    }
}

/// Nothing was asked of the keyboard.
pub open spec fn no_modes() -> KeyModes {
    KeyModes { application_cursor: false, kitty_keyboard_flags: 0, modify_other_keys: None }
}

/// What a key event that is no chord comes to: its bytes go to the focused
/// terminal, whose view goes back to the present; typing clears its own
/// selection.
pub open spec fn typing_decision(
    event: KeyEvent,
    keyboard: TerminalKeyboard,
    target: Option<KeyFacts>,
) -> KeyDecision {
    let sent = keyboard.sends(event, modes_of(target));
    let clears = target matches Some(target) && target.owns_selection && event.pressed && !modifies(
        binding_code(event.key_code, event.logical_key),
    );
    match target {
        Some(target) => match target.screen {
            Some(screen) => if sent is Some {
                KeyDecision {
                    receiver: None,
                    action: KeyAction::Nothing,
                    clear_selection: clears,
                    repaint: if screen.scrollback != 0 {
                        Repaint::Focused
                    } else {
                        Repaint::Nobody
                    },
                    input: sent,
                    scroll: if screen.scrollback != 0 {
                        Some(0)
                    } else {
                        None
                    },
                }
            } else {
                KeyDecision { clear_selection: clears, ..ignored() }
            },
            None => KeyDecision { clear_selection: clears, ..ignored() },
        },
        None => ignored(),
    }
}

/// The chord that a key event is, if it is one.
pub open spec fn chord_pressed(
    event: KeyEvent,
    held: BindingModifiers,
    keyboard: TerminalKeyboard,
    bindings: Seq<crate::bindings::KeyBinding>,
) -> Option<BindingAction> {
    if event.pressed {
        action_of(
            bindings,
            binding_code(event.key_code, event.logical_key),
            held.joined(BindingModifiers::held_by(keyboard)),
        )
    } else {
        None
    }
}

/// Whether a key event is typing: it is no chord, or one that stands for
/// nothing.
pub open spec fn types(event: KeyEvent, chord: Option<BindingAction>) -> bool {
    match chord {
        Some(action) => action == BindingAction::Nothing && !event.repeat,
        None => true,
    }
}

/// What a key event comes to.
pub open spec fn key_decision(
    event: KeyEvent,
    held: BindingModifiers,
    keyboard: TerminalKeyboard,
    bindings: Seq<crate::bindings::KeyBinding>,
    target: Option<KeyFacts>,
    focus: FocusState,
    seats: Seq<LiveSeat>,
    mode: TerminalPresentationMode,
) -> KeyDecision {
    let chord = chord_pressed(event, held, keyboard, bindings);
    if types(event, chord) {
        typing_decision(event, keyboard, target)
    } else if event.repeat && !repeats(chord->0) {
        ignored()
    } else {
        chord_decision(chord->0, target, focus, seats, mode)
    }
}

/// The target's screen has room to draw in.
pub open spec fn target_wf(target: Option<KeyTarget>) -> bool {
    target matches Some(target) ==> target.wf()
}

/// What a target looks like to the keyboard, where there is one.
pub open spec fn facts_of(target: Option<KeyTarget>) -> Option<KeyFacts> {
    match target {
        Some(target) => Some(target@),
        None => None,
    }
}

/// Whether the view of a target moved as decided, and nothing else about it
/// changed that the keyboard reads.
pub open spec fn scrolled_as(before: Option<KeyTarget>, after: Option<KeyTarget>, scroll: Option<nat>) -> bool {
    match (before, after) {
        (Some(old_target), Some(new_target)) => {
            &&& new_target.entity == old_target.entity
            &&& new_target.rows == old_target.rows
            &&& new_target.kitty_keyboard_flags == old_target.kitty_keyboard_flags
            &&& new_target.modify_other_keys == old_target.modify_other_keys
            &&& new_target.owns_selection == old_target.owns_selection
            &&& match (scroll, old_target.screen, new_target.screen) {
                (Some(to), Some(old_screen), Some(new_screen)) => {
                    &&& screen_scrollback(new_screen) == (if to < screen_history(old_screen) {
                        to
                    } else {
                        screen_history(old_screen)
                    })
                    &&& screen_history(new_screen) == screen_history(old_screen)
                    &&& screen_limit(new_screen) == screen_limit(old_screen)
                    &&& screen_size(new_screen) == screen_size(old_screen)
                    &&& screen_bracketed_paste(new_screen) == screen_bracketed_paste(old_screen)
                    &&& screen_heard(new_screen) == screen_heard(old_screen)
                    &&& screen_facts(new_screen) == (ScreenFacts {
                        scrollback: screen_scrollback(new_screen),
                        ..screen_facts(old_screen)
                    })
                },
                (Some(_), _, _) => false,
                (None, _, _) => new_target.screen == old_target.screen,
            }
        },
        (None, None) => scroll is None,
        _ => false,
    }
}

/// What was decided of an outcome.
pub open spec fn decided(outcome: KeyOutcome, decision: KeyDecision) -> bool {
    &&& outcome.receiver == decision.receiver
    &&& outcome.action == decision.action
    &&& outcome.clear_selection == decision.clear_selection
    &&& outcome.repaint == decision.repaint
    &&& bytes_view(outcome.input) == decision.input
}

fn nothing() -> (outcome: KeyOutcome)
    ensures
        decided(outcome, ignored()),
{
    only(KeyAction::Nothing)
}

fn only(action: KeyAction) -> (outcome: KeyOutcome)
    ensures
        decided(outcome, KeyDecision { action, ..ignored() }),
{
    KeyOutcome {
        receiver: None,
        action,
        clear_selection: false,
        repaint: Repaint::Nobody,
        input: None,
    }
}

fn may_repeat(action: BindingAction) -> (may: bool)
    ensures
        may == repeats(action),
{
    match action {
        BindingAction::IncreaseFontSize => true,
        BindingAction::DecreaseFontSize => true,
        BindingAction::ResetFontSize => true,
        BindingAction::ScrollPageUp => true,
        BindingAction::ScrollPageDown => true,
        BindingAction::ScrollUp => true,
        BindingAction::ScrollDown => true,
        BindingAction::IncreaseWarp => true,
        BindingAction::DecreaseWarp => true,
        _ => false,
    }
}

fn rows_to_scroll(action: BindingAction, rows: Option<u16>) -> (amount: Option<u16>)
    ensures
        amount == scroll_rows(action, rows),
{
    let page: Option<u16> = match rows {
        Some(rows) => Some(
            if rows >= 2 {
                (rows - 1) as u16
            } else {
                1
            },
        ),
        None => None,
    };
    match action {
        BindingAction::ScrollUp => Some(1u16),
        BindingAction::ScrollDown => Some(1u16),
        BindingAction::ScrollPageUp => page,
        BindingAction::ScrollPageDown => page,
        _ => None,
    }
}

fn scroll(
    action: BindingAction,
    target: &mut Option<KeyTarget>,
    mode: TerminalPresentationMode,
) -> (outcome: KeyOutcome)
    requires
        target_wf(*old(target)),
    ensures
        target_wf(*final(target)),
        decided(outcome, scroll_decision(action, facts_of(*old(target)), mode)),
        scrolled_as(
            *old(target),
            *final(target),
            scroll_decision(action, facts_of(*old(target)), mode).scroll,
        ),
{
    match target {
        Some(target) => {
            let rows: u16 = match rows_to_scroll(action, target.rows) {
                Some(rows) => rows,
                None => {
                    return nothing();
                },
            };
            match &mut target.screen {
                Some(screen) => {
                    let up: bool = action == BindingAction::ScrollPageUp || action
                        == BindingAction::ScrollUp;
                    let silent: bool = screen.mouse_mode() == MouseMode::Silent;
                    if mode == TerminalPresentationMode::Flat2d && !silent {
                        let (row, col) = screen.cursor_position();
                        let encoding = screen.mouse_encoding();
                        return only(KeyAction::Wheel { row, col, up, encoding, times: rows });
                    }
                    let current: usize = screen.scrollback();
                    let amount: usize = rows as usize;
                    let next: usize = if up {
                        current.saturating_add(amount)
                    } else {
                        current.saturating_sub(amount)
                    };
                    screen.set_scrollback(next);
                    KeyOutcome {
                        receiver: None,
                        action: KeyAction::Nothing,
                        clear_selection: target.owns_selection,
                        repaint: Repaint::Focused,
                        input: None,
                    }
                },
                None => nothing(),
            }
        },
        None => nothing(),
    }
}

fn find_seat_of(seats: &Vec<LiveSeat>, entity: u64) -> (found: Option<usize>)
    ensures
        match found {
            Some(i) => seat_of(seats@, entity) == Some(i as int) && i < seats@.len(),
            None => seat_of(seats@, entity) is None,
        },
{
    let mut found: Option<usize> = None;
    let mut i: usize = 0;
    assert(seats@.take(0) =~= Seq::empty());
    while i < seats.len()
        invariant
            i <= seats@.len(),
            match found {
                Some(f) => f < i && seat_of(seats@.take(i as int), entity) == Some(f as int),
                None => seat_of(seats@.take(i as int), entity) is None,
            },
        decreases seats.len() - i,
    {
        assert(seats@.take(i + 1).drop_last() =~= seats@.take(i as int));
        if found.is_none() && seats[i].entity == entity {
            found = Some(i);
        }
        i += 1;
    }
    assert(seats@.take(i as int) =~= seats@);
    found
}

fn run_chord(
    action: BindingAction,
    target: &mut Option<KeyTarget>,
    focus: &FocusedTerminal,
    seats: &Vec<LiveSeat>,
    mode: TerminalPresentationMode,
) -> (outcome: KeyOutcome)
    requires
        target_wf(*old(target)),
    ensures
        target_wf(*final(target)),
        decided(outcome, chord_decision(action, facts_of(*old(target)), focus@, seats@, mode)),
        scrolled_as(
            *old(target),
            *final(target),
            chord_decision(action, facts_of(*old(target)), focus@, seats@, mode).scroll,
        ),
{
    let (there, surface, runs, owns): (bool, bool, bool, bool) = match target {
        Some(target) => (
            true,
            target.rows.is_some(),
            target.screen.is_some(),
            target.owns_selection,
        ),
        None => (false, false, false, false),
    };
    match action {
        BindingAction::Toggle3DMode => KeyOutcome {
            receiver: None,
            action: KeyAction::TogglePlane { to: mode.toggle_plane_mode() },
            clear_selection: true,
            repaint: Repaint::Everybody,
            input: None,
        },
        BindingAction::ToggleMobiusMode => KeyOutcome {
            receiver: None,
            action: if mode == TerminalPresentationMode::Mobius3d {
                KeyAction::LeaveMobius
            } else {
                KeyAction::EnterMobius { from: mode }
            },
            clear_selection: true,
            repaint: Repaint::Everybody,
            input: None,
        },
        BindingAction::IncreaseWarp => if there {
            KeyOutcome {
                receiver: None,
                action: KeyAction::Warp { more: true },
                clear_selection: false,
                repaint: Repaint::Focused,
                input: None,
            }
        } else {
            nothing()
        },
        BindingAction::DecreaseWarp => if there {
            KeyOutcome {
                receiver: None,
                action: KeyAction::Warp { more: false },
                clear_selection: false,
                repaint: Repaint::Focused,
                input: None,
            }
        } else {
            nothing()
        },
        BindingAction::Copy => if owns && runs {
            KeyOutcome {
                receiver: None,
                action: KeyAction::Copy,
                clear_selection: true,
                repaint: Repaint::Nobody,
                input: None,
            }
        } else {
            nothing()
        },
        BindingAction::Paste => if runs {
            KeyOutcome {
                receiver: None,
                action: KeyAction::Paste,
                clear_selection: owns,
                repaint: Repaint::Nobody,
                input: None,
            }
        } else {
            nothing()
        },
        BindingAction::IncreaseFontSize => if surface {
            only(KeyAction::FontSize(FontStep::Larger))
        } else {
            nothing()
        },
        BindingAction::DecreaseFontSize => if surface {
            only(KeyAction::FontSize(FontStep::Smaller))
        } else {
            nothing()
        },
        BindingAction::ResetFontSize => if surface {
            only(KeyAction::FontSize(FontStep::Reset))
        } else {
            nothing()
        },
        BindingAction::FocusCycle => match focus.cycle_target(seats) {
            Some(entity) => only(
                KeyAction::Focus(
                    FocusRequest { target: Some(entity), origin: FocusOrigin::Keybinding },
                ),
            ),
            None => nothing(),
        },
        BindingAction::SpawnTerminal => only(KeyAction::SpawnTerminal),
        BindingAction::CloseTerminal => match focus.get() {
            Some(entity) => match find_seat_of(seats, entity) {
                Some(i) => if seats.len() >= 2 {
                    only(KeyAction::CloseTerminal(seats[i].id))
                } else {
                    nothing()
                },
                None => nothing(),
            },
            None => nothing(),
        },
        _ => scroll(action, target, mode),
    }
}

fn keyboard_modes(target: &Option<KeyTarget>) -> (modes: KeyModes)
    ensures
        modes == modes_of(facts_of(*target)),
{
    if let Some(target) = target {
        if let Some(screen) = &target.screen {
            return KeyModes {
                application_cursor: screen.application_cursor(),
                kitty_keyboard_flags: target.kitty_keyboard_flags,
                modify_other_keys: target.modify_other_keys,
            };
        }
    }
    KeyModes { application_cursor: false, kitty_keyboard_flags: 0, modify_other_keys: None }
}

fn type_key(event: &KeyEvent, keyboard: &mut TerminalKeyboard, target: &mut Option<KeyTarget>) -> (outcome:
    KeyOutcome)
    requires
        target_wf(*old(target)),
    ensures
        target_wf(*final(target)),
        *final(keyboard) == old(keyboard).after(event.key_code, event.pressed),
        decided(outcome, typing_decision(*event, *old(keyboard), facts_of(*old(target)))),
        scrolled_as(
            *old(target),
            *final(target),
            typing_decision(*event, *old(keyboard), facts_of(*old(target))).scroll,
        ),
{
    let code: KeyCode = navigation_key_code(event.key_code, &event.logical_key);
    let input = keyboard.handle_event_with_modes(event, keyboard_modes(target));
    match target {
        Some(target) => {
            let clear_selection: bool = event.pressed && !is_modifier_key(code)
                && target.owns_selection;
            let mut repaint = Repaint::Nobody;
            match &mut target.screen {
                Some(screen) => {
                    if input.is_some() && screen.scrollback() != 0 {
                        screen.set_scrollback(0);
                        repaint = Repaint::Focused;
                    }
                    KeyOutcome {
                        receiver: None,
                        action: KeyAction::Nothing,
                        clear_selection,
                        repaint,
                        input,
                    }
                },
                None => KeyOutcome {
                    receiver: None,
                    action: KeyAction::Nothing,
                    clear_selection,
                    repaint,
                    input: None,
                },
            }
        },
        None => nothing(),
    }
}

fn handle_for_target(
    event: &KeyEvent,
    held: BindingModifiers,
    keyboard: &mut TerminalKeyboard,
    bindings: &TerminalKeyBindings,
    target: &mut Option<KeyTarget>,
    focus: &FocusedTerminal,
    seats: &Vec<LiveSeat>,
    mode: TerminalPresentationMode,
) -> (outcome: KeyOutcome)
    requires
        target_wf(*old(target)),
    ensures
        target_wf(*final(target)),
        ({
            let chord = chord_pressed(*event, held, *old(keyboard), bindings@);
            let decision = key_decision(
                *event,
                held,
                *old(keyboard),
                bindings@,
                facts_of(*old(target)),
                focus@,
                seats@,
                mode,
            );
            &&& decided(outcome, decision)
            &&& scrolled_as(*old(target), *final(target), decision.scroll)
            &&& *final(keyboard) == if types(*event, chord) {
                old(keyboard).after(event.key_code, event.pressed)
            } else {
                *old(keyboard)
            }
        }),
{
    if event.pressed {
        let code: KeyCode = navigation_key_code(event.key_code, &event.logical_key);
        let modifiers = held.union(BindingModifiers::of_keyboard(*keyboard));
        if let Some(action) = bindings.action_for(code, modifiers) {
            if event.repeat && !may_repeat(action) {
                return nothing();
            }
            if action != BindingAction::Nothing {
                return run_chord(action, target, focus, seats, mode);
            }
        }
    }
    type_key(event, keyboard, target)
}

/// What the terminals look like to the keyboard.
pub open spec fn all_facts(targets: Seq<KeyTarget>) -> Seq<KeyFacts> {
    targets.map_values(|target: KeyTarget| target@)
}

/// The index of the focused terminal.
pub open spec fn focused_index(targets: Seq<KeyFacts>, focused: Option<u64>) -> Option<int>
    decreases targets.len(),
{
    if targets.len() == 0 {
        None
    } else {
        match focused_index(targets.drop_last(), focused) {
            Some(i) => Some(i),
            None => if Some(targets.last().entity) == focused {
                Some(targets.len() - 1)
            } else {
                None
            },
        }
    }
}

/// What a key event comes to among the terminals: the focused one, and it
/// alone, is the target.
pub open spec fn routed_decision(
    event: KeyEvent,
    held: BindingModifiers,
    keyboard: TerminalKeyboard,
    bindings: Seq<crate::bindings::KeyBinding>,
    targets: Seq<KeyFacts>,
    focus: FocusState,
    seats: Seq<LiveSeat>,
    mode: TerminalPresentationMode,
) -> KeyDecision {
    match focused_index(targets, focus.current) {
        Some(i) => KeyDecision {
            receiver: Some(targets[i].entity),
            ..key_decision(
                event,
                held,
                keyboard,
                bindings,
                Some(targets[i]),
                focus,
                seats,
                mode,
            )
        },
        None => key_decision(event, held, keyboard, bindings, None, focus, seats, mode),
    }
}

/// The terminal at an index, where there is one.
pub open spec fn target_at(targets: Seq<KeyTarget>, at: Option<int>) -> Option<KeyTarget> {
    match at {
        Some(i) => Some(targets[i]),
        None => None,
    }
}

proof fn lemma_focused_index(targets: Seq<KeyFacts>, focused: Option<u64>)
    ensures
        match focused_index(targets, focused) {
            Some(i) => 0 <= i < targets.len() && Some(targets[i].entity) == focused,
            None => forall|i: int|
                0 <= i < targets.len() ==> Some(#[trigger] targets[i].entity) != focused,
        },
    decreases targets.len(),
{
    if targets.len() > 0 {
        let front = targets.drop_last();
        lemma_focused_index(front, focused);
        if focused_index(targets, focused) is None {
            assert forall|i: int| 0 <= i < targets.len() implies Some(
                #[trigger] targets[i].entity,
            ) != focused by {
                if i < front.len() {
                    assert(front[i] == targets[i]);
                }
            }
        }
    }
}

fn find_focused(targets: &Vec<KeyTarget>, focused: Option<u64>) -> (found: Option<usize>)
    ensures
        match found {
            Some(i) => focused_index(all_facts(targets@), focused) == Some(i as int) && i
                < targets@.len(),
            None => focused_index(all_facts(targets@), focused) is None,
        },
{
    let mut found: Option<usize> = None;
    let mut i: usize = 0;
    assert(all_facts(targets@).take(0) =~= Seq::empty());
    while i < targets.len()
        invariant
            i <= targets@.len(),
            match found {
                Some(f) => f < i && focused_index(all_facts(targets@).take(i as int), focused)
                    == Some(f as int),
                None => focused_index(all_facts(targets@).take(i as int), focused) is None,
            },
        decreases targets.len() - i,
    {
        assert(all_facts(targets@).take(i + 1).drop_last() =~= all_facts(targets@).take(i as int));
        assert(all_facts(targets@)[i as int].entity == targets@[i as int].entity);
        if let (None, Some(entity)) = (found, focused) {
            if targets[i].entity == entity {
                found = Some(i);
            }
        }
        i += 1;
    }
    assert(all_facts(targets@).take(i as int) =~= all_facts(targets@));
    found
}

/// Handles a key event, with the modifiers that the window holds to be down,
/// the terminals, which of them is focused, and the live seats. What goes to a
/// terminal goes to the focused one; no other is touched.
pub fn handle_keyboard_input(
    event: &KeyEvent,
    held: BindingModifiers,
    keyboard: &mut TerminalKeyboard,
    bindings: &TerminalKeyBindings,
    targets: &mut Vec<KeyTarget>,
    focus: &FocusedTerminal,
    seats: &Vec<LiveSeat>,
    mode: TerminalPresentationMode,
) -> (outcome: KeyOutcome)
    requires
        forall|i: int| 0 <= i < old(targets)@.len() ==> (#[trigger] old(targets)@[i]).wf(),
    ensures
        forall|i: int| 0 <= i < final(targets)@.len() ==> (#[trigger] final(targets)@[i]).wf(),
        final(targets)@.len() == old(targets)@.len(),
        ({
            let chord = chord_pressed(*event, held, *old(keyboard), bindings@);
            let facts = all_facts(old(targets)@);
            let at = focused_index(facts, focus@.current);
            let decision = routed_decision(
                *event,
                held,
                *old(keyboard),
                bindings@,
                facts,
                focus@,
                seats@,
                mode,
            );
            &&& decided(outcome, decision)
            &&& scrolled_as(
                target_at(old(targets)@, at),
                target_at(final(targets)@, at),
                decision.scroll,
            )
            &&& (forall|i: int|
                0 <= i < old(targets)@.len() && at != Some(i) ==> #[trigger] final(targets)@[i]
                    == old(targets)@[i])
            &&& *final(keyboard) == if types(*event, chord) {
                old(keyboard).after(event.key_code, event.pressed)
            } else {
                *old(keyboard)
            }
        }),
        outcome.receiver is Some ==> outcome.receiver == focus@.current,
        outcome.input is Some ==> outcome.receiver is Some,
        forall|i: int|
            0 <= i < old(targets)@.len() && Some(old(targets)@[i].entity) != focus@.current
                ==> #[trigger] final(targets)@[i] == old(targets)@[i],
{
    let ghost facts = all_facts(targets@);
    proof {
        lemma_focused_index(facts, focus@.current);
    }
    match find_focused(targets, focus.get()) {
        Some(at) => {
            let receiver: u64 = targets[at].entity;
            assert(facts[at as int] == targets@[at as int]@);
            let mut target: Option<KeyTarget> = Some(targets.remove(at));
            let ghost before = target;
            let outcome = handle_for_target(
                event,
                held,
                keyboard,
                bindings,
                &mut target,
                focus,
                seats,
                mode,
            );
            if let Some(target) = target {
                targets.insert(at, target);
            }
            assert(target_at(old(targets)@, Some(at as int)) == before);
            KeyOutcome { receiver: Some(receiver), ..outcome }
        },
        None => {
            let mut target: Option<KeyTarget> = None;
            handle_for_target(event, held, keyboard, bindings, &mut target, focus, seats, mode)
        },
    }
}

/// A chord never leaks bytes to any terminal.
pub proof fn law_chords_send_no_bytes(
    event: KeyEvent,
    held: BindingModifiers,
    keyboard: TerminalKeyboard,
    bindings: Seq<crate::bindings::KeyBinding>,
    targets: Seq<KeyFacts>,
    focus: FocusState,
    seats: Seq<LiveSeat>,
    mode: TerminalPresentationMode,
)
    requires
        !types(event, chord_pressed(event, held, keyboard, bindings)),
    ensures
        routed_decision(event, held, keyboard, bindings, targets, focus, seats, mode).input is None,
{
}

/// Whether an action is aimed at a terminal, and not at the scene.
pub open spec fn aims_at_terminal(action: KeyAction) -> bool {
    action is Wheel || action is Warp || action is Copy || action is Paste || action is FontSize
        || action is CloseTerminal
}

/// Typing follows focus. While nothing is focused, no terminal gets bytes, is
/// scrolled or is aimed at: none stands in for the focused one. While one is
/// focused, whatever goes to a terminal goes to it and to no other, and what
/// it types arrives; a close is its own, and only where another terminal lives.
pub proof fn law_typing_follows_focus(
    event: KeyEvent,
    held: BindingModifiers,
    keyboard: TerminalKeyboard,
    bindings: Seq<crate::bindings::KeyBinding>,
    targets: Seq<KeyFacts>,
    focus: FocusState,
    seats: Seq<LiveSeat>,
    mode: TerminalPresentationMode,
)
    ensures
        ({
            let decision = routed_decision(
                event,
                held,
                keyboard,
                bindings,
                targets,
                focus,
                seats,
                mode,
            );
            let at = focused_index(targets, focus.current);
            let arrives = if let Some(i) = at {
                targets[i].screen is Some && types(
                    event,
                    chord_pressed(event, held, keyboard, bindings),
                ) && keyboard.sends(event, modes_of(Some(targets[i]))) is Some
            } else {
                false
            };
            &&& focus.current is None ==> decision.receiver is None && decision.input is None
                && decision.scroll is None && !aims_at_terminal(decision.action)
            &&& decision.receiver is Some ==> decision.receiver == focus.current
            &&& decision.input is Some || decision.scroll is Some || (aims_at_terminal(
                decision.action,
            ) && !(decision.action is CloseTerminal)) ==> decision.receiver is Some
            &&& decision.action matches KeyAction::CloseTerminal(id) ==> seats.len() >= 2 && (exists|
                i: int,
            |
                0 <= i < seats.len() && (#[trigger] seats[i]).id == id && Some(seats[i].entity)
                    == focus.current)
            &&& (decision.input is Some <==> arrives)
            &&& arrives ==> decision.input == keyboard.sends(event, modes_of(Some(targets[at->0])))
                && decision.receiver == Some(targets[at->0].entity)
        }),
{
    lemma_focused_index(targets, focus.current);
    if let Some(focused) = focus.current {
        lemma_seat_of(seats, focused);
    }
}

proof fn lemma_seat_of(seats: Seq<LiveSeat>, entity: u64)
    ensures
        seat_of(seats, entity) matches Some(i) ==> 0 <= i < seats.len() && seats[i].entity
            == entity,
    decreases seats.len(),
{
    if seats.len() > 0 {
        lemma_seat_of(seats.drop_last(), entity);
    }
}

/// What a chord does to the scene it does whether or not a terminal is
/// focused, and whichever is.
pub proof fn law_scene_chords_need_no_focus(
    event: KeyEvent,
    held: BindingModifiers,
    keyboard: TerminalKeyboard,
    bindings: Seq<crate::bindings::KeyBinding>,
    targets: Seq<KeyFacts>,
    focus: FocusState,
    nobody: FocusState,
    seats: Seq<LiveSeat>,
    mode: TerminalPresentationMode,
)
    requires
        nobody.current is None,
    ensures
        ({
            let alone = routed_decision(
                event,
                held,
                keyboard,
                bindings,
                targets,
                nobody,
                seats,
                mode,
            );
            let focused = routed_decision(
                event,
                held,
                keyboard,
                bindings,
                targets,
                focus,
                seats,
                mode,
            );
            focused.action is TogglePlane || focused.action is EnterMobius
                || focused.action is LeaveMobius || focused.action is SpawnTerminal ==> alone == (
            KeyDecision { receiver: None, ..focused })
        }),
{
    lemma_focused_index(targets, nobody.current);
}

/// The chord for space toggles the plane, and the one for the strip goes onto
/// it, keeping the mode before, or leaves it; nothing else changes the mode.
pub proof fn law_mode_after_a_chord(
    event: KeyEvent,
    held: BindingModifiers,
    keyboard: TerminalKeyboard,
    bindings: Seq<crate::bindings::KeyBinding>,
    targets: Seq<KeyFacts>,
    focus: FocusState,
    seats: Seq<LiveSeat>,
    mode: TerminalPresentationMode,
)
    ensures
        ({
            let chord = chord_pressed(event, held, keyboard, bindings);
            let action = routed_decision(
                event,
                held,
                keyboard,
                bindings,
                targets,
                focus,
                seats,
                mode,
            ).action;
            let fresh = !event.repeat;
            &&& (action is TogglePlane <==> fresh && chord == Some(BindingAction::Toggle3DMode))
            &&& action matches KeyAction::TogglePlane { to } ==> to == mode.plane_toggled()
            &&& (action is EnterMobius <==> fresh && chord == Some(BindingAction::ToggleMobiusMode)
                && mode != TerminalPresentationMode::Mobius3d)
            &&& action matches KeyAction::EnterMobius { from } ==> from == mode
            &&& (action is LeaveMobius <==> fresh && chord == Some(BindingAction::ToggleMobiusMode)
                && mode == TerminalPresentationMode::Mobius3d)
        }),
{
}

/// The modifiers that are held never fall out of step: a modifier going down
/// or up is always tracked, and sends nothing.
pub proof fn law_modifiers_stay_in_step(
    event: KeyEvent,
    held: BindingModifiers,
    keyboard: TerminalKeyboard,
    configs: Seq<crate::bindings::KeyBindingConfig>,
    modes: KeyModes,
)
    requires
        modifies(binding_code(event.key_code, event.logical_key)),
    ensures
        types(
            event,
            chord_pressed(
                event,
                held,
                keyboard,
                crate::bindings::overridden(crate::bindings::built_in_bindings(), configs),
            ),
        ),
        keyboard.sends(event, modes) is None,
{
    let bindings = crate::bindings::overridden(crate::bindings::built_in_bindings(), configs);
    crate::bindings::law_modifiers_are_never_chords(configs);
    crate::bindings::lemma_unbound_key(
        bindings,
        binding_code(event.key_code, event.logical_key),
        held.joined(BindingModifiers::held_by(keyboard)),
    );
}

/// The last terminal is never closed by a chord.
pub proof fn law_the_last_terminal_stays(
    event: KeyEvent,
    held: BindingModifiers,
    keyboard: TerminalKeyboard,
    bindings: Seq<crate::bindings::KeyBinding>,
    targets: Seq<KeyFacts>,
    focus: FocusState,
    seats: Seq<LiveSeat>,
    mode: TerminalPresentationMode,
)
    requires
        seats.len() < 2,
    ensures
        !(routed_decision(
            event,
            held,
            keyboard,
            bindings,
            targets,
            focus,
            seats,
            mode,
        ).action is CloseTerminal),
{
}

/// Whether a terminal is the focused one.
pub open spec fn is_focused(targets: Seq<KeyFacts>, focus: FocusState, at: int) -> bool {
    &&& 0 <= at < targets.len()
    &&& focus.current == Some(targets[at].entity)
    &&& forall|j: int| 0 <= j < at ==> (#[trigger] targets[j]).entity != targets[at].entity
}

proof fn lemma_is_focused(targets: Seq<KeyFacts>, focus: FocusState, at: int)
    requires
        is_focused(targets, focus, at),
    ensures
        focused_index(targets, focus.current) == Some(at),
    decreases targets.len(),
{
    let front = targets.drop_last();
    lemma_focused_index(front, focus.current);
    if at < front.len() {
        assert forall|j: int| 0 <= j < at implies (#[trigger] front[j]).entity
            != front[at].entity by {
            assert(front[j] == targets[j]);
        }
        lemma_is_focused(front, focus, at);
    } else if let Some(i) = focused_index(front, focus.current) {
        assert(front[i] == targets[i]);
    }
}

/// What the scroll chords do. A row, or a page of one row less than the surface
/// and at least one, is scrolled back or on, and not beyond the present. On the
/// flat scene a program that follows the pointer is sent that many turns of the
/// wheel at its cursor instead.
pub proof fn law_scroll_chords(
    event: KeyEvent,
    held: BindingModifiers,
    keyboard: TerminalKeyboard,
    bindings: Seq<crate::bindings::KeyBinding>,
    targets: Seq<KeyFacts>,
    focus: FocusState,
    seats: Seq<LiveSeat>,
    mode: TerminalPresentationMode,
    action: BindingAction,
    at: int,
    rows: nat,
)
    requires
        is_focused(targets, focus, at),
        targets[at].screen is Some,
        chord_pressed(event, held, keyboard, bindings) == Some(action),
        action is ScrollUp || action is ScrollDown || action is ScrollPageUp
            || action is ScrollPageDown,
        action is ScrollUp || action is ScrollDown ==> rows == 1,
        action is ScrollPageUp || action is ScrollPageDown ==> targets[at].rows is Some && rows == (
        if targets[at].rows->0 >= 2 {
            (targets[at].rows->0 - 1) as nat
        } else {
            1
        }),
        targets[at].screen->0.scrollback + rows <= usize::MAX,
    ensures
        ({
            let decision = routed_decision(
                event,
                held,
                keyboard,
                bindings,
                targets,
                focus,
                seats,
                mode,
            );
            let screen = targets[at].screen->0;
            let back = action is ScrollUp || action is ScrollPageUp;
            let wheel = mode is Flat2d && !(screen.mouse_mode is Silent);
            &&& decision.receiver == Some(targets[at].entity)
            &&& decision.input is None
            &&& wheel ==> {
                &&& decision.scroll is None
                &&& decision.action matches KeyAction::Wheel { row, col, up, encoding, times } && row
                    == screen.cursor.0 && col == screen.cursor.1 && up == back && encoding
                    == screen.mouse_encoding && times == rows
                &&& !decision.clear_selection
            }
            &&& !wheel ==> {
                &&& decision.action is Nothing
                &&& back ==> decision.scroll == Some(screen.scrollback + rows)
                &&& !back && screen.scrollback >= rows ==> decision.scroll == Some(
                    (screen.scrollback - rows) as nat,
                )
                &&& !back && screen.scrollback < rows ==> decision.scroll == Some(0nat)
                &&& decision.repaint is Focused
                &&& decision.clear_selection == targets[at].owns_selection
            }
        }),
{
    lemma_is_focused(targets, focus, at);
}

/// What the other chords do to the focused terminal. More and less warp, larger,
/// smaller and default text are told apart; text is copied only from a selection
/// that is the terminal's own, or nobody's, and pasted only where a program
/// runs; the next terminal is asked for by the chord. Only some act again while
/// their key is held.
pub proof fn law_chords_do_what_they_say(
    event: KeyEvent,
    held: BindingModifiers,
    keyboard: TerminalKeyboard,
    bindings: Seq<crate::bindings::KeyBinding>,
    targets: Seq<KeyFacts>,
    focus: FocusState,
    seats: Seq<LiveSeat>,
    mode: TerminalPresentationMode,
    action: BindingAction,
    at: int,
)
    requires
        is_focused(targets, focus, at),
        chord_pressed(event, held, keyboard, bindings) == Some(action),
    ensures
        ({
            let decision = routed_decision(
                event,
                held,
                keyboard,
                bindings,
                targets,
                focus,
                seats,
                mode,
            );
            let target = targets[at];
            let fresh = !event.repeat;
            &&& action is IncreaseWarp ==> decision.action == (KeyAction::Warp { more: true })
                && decision.repaint is Focused
            &&& action is DecreaseWarp ==> decision.action == (KeyAction::Warp { more: false })
                && decision.repaint is Focused
            &&& action is IncreaseFontSize && target.rows is Some ==> decision.action
                == KeyAction::FontSize(FontStep::Larger)
            &&& action is DecreaseFontSize && target.rows is Some ==> decision.action
                == KeyAction::FontSize(FontStep::Smaller)
            &&& action is ResetFontSize && target.rows is Some ==> decision.action
                == KeyAction::FontSize(FontStep::Reset)
            &&& action is Copy && fresh ==> (decision.action is Copy <==> target.owns_selection
                && target.screen is Some) && (decision.clear_selection <==> decision.action is Copy)
            &&& action is Paste && fresh ==> (decision.action is Paste <==> target.screen is Some)
                && (decision.clear_selection <==> target.owns_selection && target.screen is Some)
            &&& action is SpawnTerminal && fresh ==> decision.action is SpawnTerminal
            &&& action is FocusCycle && fresh ==> (match focus.cycle_index(seats) {
                Some(i) => decision.action matches KeyAction::Focus(request) && request.target
                    == Some(seats[i].entity) && request.origin is Keybinding,
                None => decision.action is Nothing,
            })
            &&& event.repeat && (action is Copy || action is Paste || action is SpawnTerminal
                || action is FocusCycle || action is CloseTerminal || action is Toggle3DMode
                || action is ToggleMobiusMode) ==> decision.action is Nothing
                && !decision.clear_selection && decision.repaint is Nobody
            &&& !(action is Nothing) ==> decision.input is None
        }),
{
    lemma_is_focused(targets, focus, at);
}

/// The chord that closes a terminal closes the focused one, as long as another
/// lives.
pub proof fn law_the_close_chord_closes_the_focused(
    event: KeyEvent,
    held: BindingModifiers,
    keyboard: TerminalKeyboard,
    bindings: Seq<crate::bindings::KeyBinding>,
    targets: Seq<KeyFacts>,
    focus: FocusState,
    seats: Seq<LiveSeat>,
    mode: TerminalPresentationMode,
    seat: int,
)
    requires
        chord_pressed(event, held, keyboard, bindings) == Some(BindingAction::CloseTerminal),
        !event.repeat,
        seats.len() >= 2,
        0 <= seat < seats.len(),
        focus.current == Some(seats[seat].entity),
        forall|j: int| 0 <= j < seat ==> (#[trigger] seats[j]).entity != seats[seat].entity,
    ensures
        routed_decision(event, held, keyboard, bindings, targets, focus, seats, mode).action
            == KeyAction::CloseTerminal(seats[seat].id),
{
    lemma_first_seat(seats, seats[seat].entity, seat);
}

proof fn lemma_first_seat(seats: Seq<LiveSeat>, entity: u64, at: int)
    requires
        0 <= at < seats.len(),
        seats[at].entity == entity,
        forall|j: int| 0 <= j < at ==> (#[trigger] seats[j]).entity != entity,
    ensures
        seat_of(seats, entity) == Some(at),
    decreases seats.len(),
{
    let front = seats.drop_last();
    lemma_seat_of(front, entity);
    if at < front.len() {
        assert forall|j: int| 0 <= j < at implies (#[trigger] front[j]).entity != entity by {
            assert(front[j] == seats[j]);
        }
        lemma_first_seat(front, entity, at);
    } else if let Some(i) = seat_of(front, entity) {
        assert(front[i] == seats[i]);
    }
}

/// A chord that switches the mode clears any selection and has every terminal
/// painted again.
pub proof fn law_mode_chords_repaint_everybody(
    event: KeyEvent,
    held: BindingModifiers,
    keyboard: TerminalKeyboard,
    bindings: Seq<crate::bindings::KeyBinding>,
    targets: Seq<KeyFacts>,
    focus: FocusState,
    seats: Seq<LiveSeat>,
    mode: TerminalPresentationMode,
)
    requires
        !event.repeat,
        chord_pressed(event, held, keyboard, bindings) == Some(BindingAction::Toggle3DMode)
            || chord_pressed(event, held, keyboard, bindings) == Some(
            BindingAction::ToggleMobiusMode,
        ),
    ensures
        ({
            let decision = routed_decision(
                event,
                held,
                keyboard,
                bindings,
                targets,
                focus,
                seats,
                mode,
            );
            &&& decision.clear_selection
            &&& decision.repaint is Everybody
            &&& chord_pressed(event, held, keyboard, bindings) == Some(BindingAction::Toggle3DMode)
                ==> (decision.action matches KeyAction::TogglePlane { to } && (to is Plane3d
                <==> mode is Flat2d) && (to is Flat2d <==> !(mode is Flat2d)))
            &&& chord_pressed(event, held, keyboard, bindings) == Some(
                BindingAction::ToggleMobiusMode,
            ) ==> (if mode is Mobius3d {
                decision.action is LeaveMobius
            } else {
                decision.action == (KeyAction::EnterMobius { from: mode })
            })
        }),
{
}

/// Typing into the focused terminal: its program is sent what the key makes in
/// the modes that it asked for, a view that was scrolled back comes home and is
/// painted, and a key that goes down and is no modifier clears the terminal's
/// own selection.
pub proof fn law_typing_reaches_the_focused_program(
    event: KeyEvent,
    held: BindingModifiers,
    keyboard: TerminalKeyboard,
    bindings: Seq<crate::bindings::KeyBinding>,
    targets: Seq<KeyFacts>,
    focus: FocusState,
    seats: Seq<LiveSeat>,
    mode: TerminalPresentationMode,
    at: int,
)
    requires
        is_focused(targets, focus, at),
        chord_pressed(event, held, keyboard, bindings) is None,
        targets[at].screen is Some,
    ensures
        ({
            let decision = routed_decision(
                event,
                held,
                keyboard,
                bindings,
                targets,
                focus,
                seats,
                mode,
            );
            let target = targets[at];
            let screen = target.screen->0;
            let sent = keyboard.sends(
                event,
                KeyModes {
                    application_cursor: screen.application_cursor,
                    kitty_keyboard_flags: target.kitty_keyboard_flags,
                    modify_other_keys: target.modify_other_keys,
                },
            );
            &&& decision.action is Nothing
            &&& decision.receiver == Some(target.entity)
            &&& decision.input == sent
            &&& sent is Some && screen.scrollback > 0 ==> decision.scroll == Some(0nat)
                && decision.repaint is Focused
            &&& sent is None || screen.scrollback == 0 ==> decision.scroll is None
                && decision.repaint is Nobody
            &&& decision.clear_selection <==> target.owns_selection && event.pressed && !modifies(
                binding_code(event.key_code, event.logical_key),
            )
        }),
{
    lemma_is_focused(targets, focus, at);
}

/// A view is scrolled as far as it was decided and its history goes, and
/// nothing else about it changes that is read of it.
pub proof fn law_views_scroll_as_decided(
    before: KeyTarget,
    after: KeyTarget,
    scroll: Option<nat>,
)
    requires
        scrolled_as(Some(before), Some(after), scroll),
    ensures
        after.entity == before.entity,
        scroll is None ==> after.screen == before.screen,
        scroll matches Some(to) ==> after.screen is Some && before.screen is Some
            && screen_scrollback(after.screen->0) <= to && screen_scrollback(after.screen->0)
            <= screen_history(before.screen->0) && (screen_scrollback(after.screen->0) == to
            || screen_scrollback(after.screen->0) == screen_history(before.screen->0))
            && screen_cursor(after.screen->0) == screen_cursor(before.screen->0),
{
}

/// An outcome is what was decided: who receives it, what is left to do, whether
/// the selection goes, who is painted again, and the bytes.
pub proof fn law_outcomes_are_what_was_decided(outcome: KeyOutcome, decision: KeyDecision)
    requires
        decided(outcome, decision),
    ensures
        outcome.receiver == decision.receiver,
        outcome.action == decision.action,
        outcome.clear_selection == decision.clear_selection,
        outcome.repaint == decision.repaint,
        outcome.input is Some <==> decision.input is Some,
        outcome.input matches Some(bytes) ==> decision.input == Some(bytes@),
{
}

} // verus!
