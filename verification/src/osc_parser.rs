//! The first control grammar: what a program may ask of the terminal by OSC.
//!
//! A sequence names an action and carries a percent-encoded payload, which is a
//! list of fields. Fields have defaults; a command whose required fields are
//! missing or read as nothing is no command. Of a field given twice the last
//! counts. Numbers with a fraction are kept as they are written.

use vstd::prelude::*;
use crate::number::Single;
use crate::query::token_view;
use crate::text::{
    chars_of, first_index, halves_at, parse_unsigned, pieces, pieces_of, reads, split_chars, split_once,
    string_from, unsigned_value,
};
use crate::url::{url_decode, url_decoded, url_encoded, law_payloads_read_back};

verus! {

/// A number as it is written, and the number that counts where it is missing or
/// reads as none.
#[derive(Debug)]
pub struct NumberField {
    /// As it is written.
    pub text: Option<String>,
    /// What counts otherwise.
    pub fallback: Single,
}

/// A number field's contents.
pub struct NumberView {
    /// As it is written.
    pub text: Option<Seq<char>>,
    /// What counts otherwise.
    pub fallback: Single,
}

impl View for NumberField {
    type V = NumberView;

    open spec fn view(&self) -> NumberView {
        NumberView { text: token_view(self.text), fallback: self.fallback }
    }
}

/// What a program asks of the terminal.
#[derive(Debug)]
#[allow(inconsistent_fields)]
pub enum RattyAiCommand {
    /// Sets the presentation mode.
    SetMode {
        /// The payload as a whole.
        mode: String,
    },
    /// Sets the warp.
    SetWarp {
        /// `intensity=`.
        intensity: NumberField,
    },
    /// Adds an object.
    SpawnObject {
        /// `path=`.
        path: String,
        /// `x=`.
        x: u16,
        /// `y=`.
        y: u16,
        /// `scale=`.
        scale: NumberField,
        /// `spin=`.
        spin: NumberField,
        /// `brightness=`.
        brightness: NumberField,
        /// `remesh=`.
        remesh: bool,
    },
    /// Removes an object.
    RemoveObject {
        /// `id=`.
        id: u32,
    },
    /// Removes all objects.
    ClearObjects,
    /// Changes an object.
    UpdateObject {
        /// `id=`.
        id: u32,
        /// `x=`.
        x: Option<u16>,
        /// `y=`.
        y: Option<u16>,
        /// `scale=`, as it is written.
        scale: Option<String>,
        /// `spin=`, as it is written.
        spin: Option<String>,
        /// `brightness=`, as it is written.
        brightness: Option<String>,
    },
    /// Flashes.
    Flash {
        /// `color=`.
        color: String,
        /// `duration=`.
        duration: NumberField,
    },
    /// Pulses.
    Pulse {
        /// `intensity=`.
        intensity: NumberField,
        /// `duration=`.
        duration: NumberField,
    },
    /// Changes the cursor.
    UpdateCursor {
        /// `model=`.
        model: Option<String>,
        /// `spin=`, as it is written.
        spin: Option<String>,
        /// `bob_speed=`, as it is written.
        bob_speed: Option<String>,
        /// `bob_amp=`, as it is written.
        bob_amp: Option<String>,
        /// `brightness=`, as it is written.
        brightness: Option<String>,
        /// `visible=`.
        visible: Option<bool>,
    },
    /// Resets everything.
    Reset,
    /// Takes a picture.
    Screenshot {
        /// `path=`.
        path: String,
    },
    /// Draws a chart.
    Chart {
        /// `kind=`.
        kind: String,
        /// `x=`.
        x: u16,
        /// `y=`.
        y: u16,
        /// `scale=`.
        scale: NumberField,
        /// `data=`.
        data: String,
    },
    /// Draws a timeline.
    Timeline {
        /// `x=`.
        x: u16,
        /// `y=`.
        y: u16,
        /// `scale=`.
        scale: NumberField,
        /// `input=`.
        input: String,
    },
    /// Tints.
    Tint {
        /// The payload as a whole.
        color: String,
        /// `opacity=`.
        opacity: NumberField,
    },
    /// Shows processes.
    Ps {
        /// `visualize=`.
        visualize: bool,
        /// `highlight=`.
        highlight: Option<u32>,
        /// `color=`.
        color: Option<String>,
    },
    /// Ends a process.
    Kill {
        /// `pid=`.
        pid: u32,
        /// `effect=`.
        effect: String,
    },
    /// Enters a directory.
    Cd {
        /// `path=`.
        path: String,
        /// `visualize=`.
        visualize: bool,
    },
    /// Lists a directory.
    Ls {
        /// `path=`.
        path: String,
        /// `visualize=`.
        visualize: bool,
    },
    /// Shows a directory tree.
    Tree {
        /// `depth=`.
        depth: u8,
        /// `visualize=`.
        visualize: bool,
    },
    /// Shows branches.
    GitBranch {
        /// `visualize=`.
        visualize: bool,
    },
    /// Shows differences.
    GitDiff {
        /// `visualize=`.
        visualize: bool,
    },
    /// Shows a merge.
    GitMerge {
        /// `visualize=`.
        visualize: bool,
    },
    /// Shows the stash.
    GitStash {
        /// `visualize=`.
        visualize: bool,
    },
    /// Shows connections.
    Net {
        /// `visualize=`.
        visualize: bool,
        /// `host=`.
        host: Option<String>,
    },
    /// Starts or ends thinking.
    Think {
        /// `state=`.
        state: String,
    },
    /// Sets the confidence.
    Confidence {
        /// `level=`.
        level: NumberField,
    },
    /// Sets the mood.
    Mood {
        /// `mood=`.
        mood: String,
    },
    /// Splits a pane.
    SplitPane {
        /// `direction=`.
        direction: String,
        /// `ratio=`.
        ratio: NumberField,
    },
    /// Focuses a pane.
    FocusPane {
        /// `pane=`.
        pane: u8,
    },
    /// Resizes a pane.
    ResizePane {
        /// `pane=`.
        pane: u8,
        /// `width=`.
        width: Option<u16>,
        /// `height=`.
        height: Option<u16>,
    },
    /// Closes a pane.
    ClosePane {
        /// `pane=`.
        pane: u8,
    },
    /// Shows the history.
    History {
        /// `last=`.
        last: usize,
        /// `visualize=`.
        visualize: bool,
    },
    /// Stores the view.
    Bookmark {
        /// `name=`.
        name: String,
    },
    /// Goes to a stored view.
    Jump {
        /// `name=`.
        name: String,
    },
    /// A user joins.
    UserJoin {
        /// `name=`.
        name: String,
        /// `color=`.
        color: String,
    },
    /// A user leaves.
    UserLeave {
        /// `name=`.
        name: String,
    },
    /// A user's cursor moves.
    UserCursor {
        /// `name=`.
        name: String,
        /// `x=`.
        x: u16,
        /// `y=`.
        y: u16,
    },
    /// Leaves a note.
    Note {
        /// `text=`.
        text: String,
        /// `x=`.
        x: u16,
        /// `y=`.
        y: u16,
        /// `expires=`.
        expires: String,
    },
    /// Plays a sound.
    Sound {
        /// `kind=`.
        kind: String,
        /// `loop=`.
        loop_sound: bool,
    },
    /// Changes the avatar.
    AvatarSet {
        /// `model=`.
        model: String,
        /// `position=`.
        position: String,
    },
    /// Has the avatar gesture.
    AvatarGesture {
        /// `gesture=`.
        gesture: String,
    },
    /// Has the avatar speak.
    AvatarSpeak {
        /// `text=`.
        text: String,
    },
    /// Hides the avatar.
    AvatarHide,
    /// Starts a recording.
    MacroRecord {
        /// `name=`.
        name: String,
    },
    /// Ends a recording.
    MacroStop,
    /// Plays a macro.
    MacroPlay {
        /// `name=`.
        name: String,
    },
    /// Exports a macro.
    MacroExport {
        /// `name=`.
        name: String,
        /// `to=`.
        to: String,
    },
    /// Runs a macro.
    MacroRun {
        /// `path=`.
        path: String,
    },
    /// Reacts to the system.
    React {
        /// `effect=`.
        effect: String,
        /// `cpu_high=`, as it is written.
        cpu_high: Option<String>,
        /// `memory_high=`, as it is written.
        memory_high: Option<String>,
        /// `battery_low=`, as it is written.
        battery_low: Option<String>,
    },
}

/// A command's contents.
#[allow(inconsistent_fields)]
pub enum CommandView {
    /// Sets the presentation mode.
    SetMode {
        /// The payload as a whole.
        mode: Seq<char>,
    },
    /// Sets the warp.
    SetWarp {
        /// `intensity=`.
        intensity: NumberView,
    },
    /// Adds an object.
    SpawnObject {
        /// `path=`.
        path: Seq<char>,
        /// `x=`.
        x: u16,
        /// `y=`.
        y: u16,
        /// `scale=`.
        scale: NumberView,
        /// `spin=`.
        spin: NumberView,
        /// `brightness=`.
        brightness: NumberView,
        /// `remesh=`.
        remesh: bool,
    },
    /// Removes an object.
    RemoveObject {
        /// `id=`.
        id: u32,
    },
    /// Removes all objects.
    ClearObjects,
    /// Changes an object.
    UpdateObject {
        /// `id=`.
        id: u32,
        /// `x=`.
        x: Option<u16>,
        /// `y=`.
        y: Option<u16>,
        /// `scale=`, as it is written.
        scale: Option<Seq<char>>,
        /// `spin=`, as it is written.
        spin: Option<Seq<char>>,
        /// `brightness=`, as it is written.
        brightness: Option<Seq<char>>,
    },
    /// Flashes.
    Flash {
        /// `color=`.
        color: Seq<char>,
        /// `duration=`.
        duration: NumberView,
    },
    /// Pulses.
    Pulse {
        /// `intensity=`.
        intensity: NumberView,
        /// `duration=`.
        duration: NumberView,
    },
    /// Changes the cursor.
    UpdateCursor {
        /// `model=`.
        model: Option<Seq<char>>,
        /// `spin=`, as it is written.
        spin: Option<Seq<char>>,
        /// `bob_speed=`, as it is written.
        bob_speed: Option<Seq<char>>,
        /// `bob_amp=`, as it is written.
        bob_amp: Option<Seq<char>>,
        /// `brightness=`, as it is written.
        brightness: Option<Seq<char>>,
        /// `visible=`.
        visible: Option<bool>,
    },
    /// Resets everything.
    Reset,
    /// Takes a picture.
    Screenshot {
        /// `path=`.
        path: Seq<char>,
    },
    /// Draws a chart.
    Chart {
        /// `kind=`.
        kind: Seq<char>,
        /// `x=`.
        x: u16,
        /// `y=`.
        y: u16,
        /// `scale=`.
        scale: NumberView,
        /// `data=`.
        data: Seq<char>,
    },
    /// Draws a timeline.
    Timeline {
        /// `x=`.
        x: u16,
        /// `y=`.
        y: u16,
        /// `scale=`.
        scale: NumberView,
        /// `input=`.
        input: Seq<char>,
    },
    /// Tints.
    Tint {
        /// The payload as a whole.
        color: Seq<char>,
        /// `opacity=`.
        opacity: NumberView,
    },
    /// Shows processes.
    Ps {
        /// `visualize=`.
        visualize: bool,
        /// `highlight=`.
        highlight: Option<u32>,
        /// `color=`.
        color: Option<Seq<char>>,
    },
    /// Ends a process.
    Kill {
        /// `pid=`.
        pid: u32,
        /// `effect=`.
        effect: Seq<char>,
    },
    /// Enters a directory.
    Cd {
        /// `path=`.
        path: Seq<char>,
        /// `visualize=`.
        visualize: bool,
    },
    /// Lists a directory.
    Ls {
        /// `path=`.
        path: Seq<char>,
        /// `visualize=`.
        visualize: bool,
    },
    /// Shows a directory tree.
    Tree {
        /// `depth=`.
        depth: u8,
        /// `visualize=`.
        visualize: bool,
    },
    /// Shows branches.
    GitBranch {
        /// `visualize=`.
        visualize: bool,
    },
    /// Shows differences.
    GitDiff {
        /// `visualize=`.
        visualize: bool,
    },
    /// Shows a merge.
    GitMerge {
        /// `visualize=`.
        visualize: bool,
    },
    /// Shows the stash.
    GitStash {
        /// `visualize=`.
        visualize: bool,
    },
    /// Shows connections.
    Net {
        /// `visualize=`.
        visualize: bool,
        /// `host=`.
        host: Option<Seq<char>>,
    },
    /// Starts or ends thinking.
    Think {
        /// `state=`.
        state: Seq<char>,
    },
    /// Sets the confidence.
    Confidence {
        /// `level=`.
        level: NumberView,
    },
    /// Sets the mood.
    Mood {
        /// `mood=`.
        mood: Seq<char>,
    },
    /// Splits a pane.
    SplitPane {
        /// `direction=`.
        direction: Seq<char>,
        /// `ratio=`.
        ratio: NumberView,
    },
    /// Focuses a pane.
    FocusPane {
        /// `pane=`.
        pane: u8,
    },
    /// Resizes a pane.
    ResizePane {
        /// `pane=`.
        pane: u8,
        /// `width=`.
        width: Option<u16>,
        /// `height=`.
        height: Option<u16>,
    },
    /// Closes a pane.
    ClosePane {
        /// `pane=`.
        pane: u8,
    },
    /// Shows the history.
    History {
        /// `last=`.
        last: usize,
        /// `visualize=`.
        visualize: bool,
    },
    /// Stores the view.
    Bookmark {
        /// `name=`.
        name: Seq<char>,
    },
    /// Goes to a stored view.
    Jump {
        /// `name=`.
        name: Seq<char>,
    },
    /// A user joins.
    UserJoin {
        /// `name=`.
        name: Seq<char>,
        /// `color=`.
        color: Seq<char>,
    },
    /// A user leaves.
    UserLeave {
        /// `name=`.
        name: Seq<char>,
    },
    /// A user's cursor moves.
    UserCursor {
        /// `name=`.
        name: Seq<char>,
        /// `x=`.
        x: u16,
        /// `y=`.
        y: u16,
    },
    /// Leaves a note.
    Note {
        /// `text=`.
        text: Seq<char>,
        /// `x=`.
        x: u16,
        /// `y=`.
        y: u16,
        /// `expires=`.
        expires: Seq<char>,
    },
    /// Plays a sound.
    Sound {
        /// `kind=`.
        kind: Seq<char>,
        /// `loop=`.
        loop_sound: bool,
    },
    /// Changes the avatar.
    AvatarSet {
        /// `model=`.
        model: Seq<char>,
        /// `position=`.
        position: Seq<char>,
    },
    /// Has the avatar gesture.
    AvatarGesture {
        /// `gesture=`.
        gesture: Seq<char>,
    },
    /// Has the avatar speak.
    AvatarSpeak {
        /// `text=`.
        text: Seq<char>,
    },
    /// Hides the avatar.
    AvatarHide,
    /// Starts a recording.
    MacroRecord {
        /// `name=`.
        name: Seq<char>,
    },
    /// Ends a recording.
    MacroStop,
    /// Plays a macro.
    MacroPlay {
        /// `name=`.
        name: Seq<char>,
    },
    /// Exports a macro.
    MacroExport {
        /// `name=`.
        name: Seq<char>,
        /// `to=`.
        to: Seq<char>,
    },
    /// Runs a macro.
    MacroRun {
        /// `path=`.
        path: Seq<char>,
    },
    /// Reacts to the system.
    React {
        /// `effect=`.
        effect: Seq<char>,
        /// `cpu_high=`, as it is written.
        cpu_high: Option<Seq<char>>,
        /// `memory_high=`, as it is written.
        memory_high: Option<Seq<char>>,
        /// `battery_low=`, as it is written.
        battery_low: Option<Seq<char>>,
    },
}

impl View for RattyAiCommand {
    type V = CommandView;

    open spec fn view(&self) -> CommandView {
        match self {
            RattyAiCommand::SetMode { mode } => CommandView::SetMode {
                mode: mode@,
            },
            RattyAiCommand::SetWarp { intensity } => CommandView::SetWarp {
                intensity: intensity@,
            },
            RattyAiCommand::SpawnObject { path, x, y, scale, spin, brightness, remesh } => CommandView::SpawnObject {
                path: path@,
                x: *x,
                y: *y,
                scale: scale@,
                spin: spin@,
                brightness: brightness@,
                remesh: *remesh,
            },
            RattyAiCommand::RemoveObject { id } => CommandView::RemoveObject {
                id: *id,
            },
            RattyAiCommand::ClearObjects => CommandView::ClearObjects,
            RattyAiCommand::UpdateObject { id, x, y, scale, spin, brightness } => CommandView::UpdateObject {
                id: *id,
                x: *x,
                y: *y,
                scale: token_view(*scale),
                spin: token_view(*spin),
                brightness: token_view(*brightness),
            },
            RattyAiCommand::Flash { color, duration } => CommandView::Flash {
                color: color@,
                duration: duration@,
            },
            RattyAiCommand::Pulse { intensity, duration } => CommandView::Pulse {
                intensity: intensity@,
                duration: duration@,
            },
            RattyAiCommand::UpdateCursor { model, spin, bob_speed, bob_amp, brightness, visible } => CommandView::UpdateCursor {
                model: token_view(*model),
                spin: token_view(*spin),
                bob_speed: token_view(*bob_speed),
                bob_amp: token_view(*bob_amp),
                brightness: token_view(*brightness),
                visible: *visible,
            },
            RattyAiCommand::Reset => CommandView::Reset,
            RattyAiCommand::Screenshot { path } => CommandView::Screenshot {
                path: path@,
            },
            RattyAiCommand::Chart { kind, x, y, scale, data } => CommandView::Chart {
                kind: kind@,
                x: *x,
                y: *y,
                scale: scale@,
                data: data@,
            },
            RattyAiCommand::Timeline { x, y, scale, input } => CommandView::Timeline {
                x: *x,
                y: *y,
                scale: scale@,
                input: input@,
            },
            RattyAiCommand::Tint { color, opacity } => CommandView::Tint {
                color: color@,
                opacity: opacity@,
            },
            RattyAiCommand::Ps { visualize, highlight, color } => CommandView::Ps {
                visualize: *visualize,
                highlight: *highlight,
                color: token_view(*color),
            },
            RattyAiCommand::Kill { pid, effect } => CommandView::Kill {
                pid: *pid,
                effect: effect@,
            },
            RattyAiCommand::Cd { path, visualize } => CommandView::Cd {
                path: path@,
                visualize: *visualize,
            },
            RattyAiCommand::Ls { path, visualize } => CommandView::Ls {
                path: path@,
                visualize: *visualize,
            },
            RattyAiCommand::Tree { depth, visualize } => CommandView::Tree {
                depth: *depth,
                visualize: *visualize,
            },
            RattyAiCommand::GitBranch { visualize } => CommandView::GitBranch {
                visualize: *visualize,
            },
            RattyAiCommand::GitDiff { visualize } => CommandView::GitDiff {
                visualize: *visualize,
            },
            RattyAiCommand::GitMerge { visualize } => CommandView::GitMerge {
                visualize: *visualize,
            },
            RattyAiCommand::GitStash { visualize } => CommandView::GitStash {
                visualize: *visualize,
            },
            RattyAiCommand::Net { visualize, host } => CommandView::Net {
                visualize: *visualize,
                host: token_view(*host),
            },
            RattyAiCommand::Think { state } => CommandView::Think {
                state: state@,
            },
            RattyAiCommand::Confidence { level } => CommandView::Confidence {
                level: level@,
            },
            RattyAiCommand::Mood { mood } => CommandView::Mood {
                mood: mood@,
            },
            RattyAiCommand::SplitPane { direction, ratio } => CommandView::SplitPane {
                direction: direction@,
                ratio: ratio@,
            },
            RattyAiCommand::FocusPane { pane } => CommandView::FocusPane {
                pane: *pane,
            },
            RattyAiCommand::ResizePane { pane, width, height } => CommandView::ResizePane {
                pane: *pane,
                width: *width,
                height: *height,
            },
            RattyAiCommand::ClosePane { pane } => CommandView::ClosePane {
                pane: *pane,
            },
            RattyAiCommand::History { last, visualize } => CommandView::History {
                last: *last,
                visualize: *visualize,
            },
            RattyAiCommand::Bookmark { name } => CommandView::Bookmark {
                name: name@,
            },
            RattyAiCommand::Jump { name } => CommandView::Jump {
                name: name@,
            },
            RattyAiCommand::UserJoin { name, color } => CommandView::UserJoin {
                name: name@,
                color: color@,
            },
            RattyAiCommand::UserLeave { name } => CommandView::UserLeave {
                name: name@,
            },
            RattyAiCommand::UserCursor { name, x, y } => CommandView::UserCursor {
                name: name@,
                x: *x,
                y: *y,
            },
            RattyAiCommand::Note { text, x, y, expires } => CommandView::Note {
                text: text@,
                x: *x,
                y: *y,
                expires: expires@,
            },
            RattyAiCommand::Sound { kind, loop_sound } => CommandView::Sound {
                kind: kind@,
                loop_sound: *loop_sound,
            },
            RattyAiCommand::AvatarSet { model, position } => CommandView::AvatarSet {
                model: model@,
                position: position@,
            },
            RattyAiCommand::AvatarGesture { gesture } => CommandView::AvatarGesture {
                gesture: gesture@,
            },
            RattyAiCommand::AvatarSpeak { text } => CommandView::AvatarSpeak {
                text: text@,
            },
            RattyAiCommand::AvatarHide => CommandView::AvatarHide,
            RattyAiCommand::MacroRecord { name } => CommandView::MacroRecord {
                name: name@,
            },
            RattyAiCommand::MacroStop => CommandView::MacroStop,
            RattyAiCommand::MacroPlay { name } => CommandView::MacroPlay {
                name: name@,
            },
            RattyAiCommand::MacroExport { name, to } => CommandView::MacroExport {
                name: name@,
                to: to@,
            },
            RattyAiCommand::MacroRun { path } => CommandView::MacroRun {
                path: path@,
            },
            RattyAiCommand::React { effect, cpu_high, memory_high, battery_low } => CommandView::React {
                effect: effect@,
                cpu_high: token_view(*cpu_high),
                memory_high: token_view(*memory_high),
                battery_low: token_view(*battery_low),
            },
        }
    }
}

/// A command's contents, where there is a command.
pub open spec fn command_view(command: Option<RattyAiCommand>) -> Option<CommandView> {
    match command {
        Some(command) => Some(command@),
        None => None,
    }
}

/// The value of a field: of those with its name, the last.
pub open spec fn field(pairs: Seq<Seq<char>>, key: Seq<char>) -> Option<Seq<char>>
    decreases pairs.len(),
{
    if pairs.len() == 0 {
        None
    } else {
        match halves_at(pairs.last(), '=') {
            Some((name, value)) => if name == key {
                Some(value)
            } else {
                field(pairs.drop_last(), key)
            },
            None => field(pairs.drop_last(), key),
        }
    }
}

/// The fields of a payload.
pub open spec fn pairs_of(payload: Seq<char>) -> Seq<Seq<char>> {
    pieces(payload, '&', 0)
}

/// A text field, or its default.
pub open spec fn text_or(pairs: Seq<Seq<char>>, key: Seq<char>, fallback: Seq<char>) -> Seq<char> {
    match field(pairs, key) {
        Some(value) => value,
        None => fallback,
    }
}

/// A whole number, where the field reads as one.
pub open spec fn whole_field(pairs: Seq<Seq<char>>, key: Seq<char>, max: nat) -> Option<nat> {
    match field(pairs, key) {
        Some(value) => unsigned_value(value, max),
        None => None,
    }
}

/// A cell coordinate, or zero.
pub open spec fn cell_field(pairs: Seq<Seq<char>>, key: Seq<char>) -> u16 {
    match whole_field(pairs, key, u16::MAX as nat) {
        Some(value) => value as u16,
        None => 0,
    }
}

/// A cell coordinate, where the field reads as one.
pub open spec fn some_cell_field(pairs: Seq<Seq<char>>, key: Seq<char>) -> Option<u16> {
    match whole_field(pairs, key, u16::MAX as nat) {
        Some(value) => Some(value as u16),
        None => None,
    }
}

/// An id, where the field reads as one.
pub open spec fn some_id_field(pairs: Seq<Seq<char>>, key: Seq<char>) -> Option<u32> {
    match whole_field(pairs, key, u32::MAX as nat) {
        Some(value) => Some(value as u32),
        None => None,
    }
}

/// A small number, where the field reads as one.
pub open spec fn some_small_field(pairs: Seq<Seq<char>>, key: Seq<char>) -> Option<u8> {
    match whole_field(pairs, key, u8::MAX as nat) {
        Some(value) => Some(value as u8),
        None => None,
    }
}

/// A count, or its default.
pub open spec fn count_or(pairs: Seq<Seq<char>>, key: Seq<char>, fallback: usize) -> usize {
    match whole_field(pairs, key, usize::MAX as nat) {
        Some(value) => value as usize,
        None => fallback,
    }
}

/// A number with a fraction.
pub open spec fn number_field(pairs: Seq<Seq<char>>, key: Seq<char>, fallback: u32) -> NumberView {
    NumberView { text: field(pairs, key), fallback: Single { bits: fallback } }
}

/// Whether a field says so.
pub open spec fn flag_field(pairs: Seq<Seq<char>>, key: Seq<char>) -> bool {
    field(pairs, key) == Some("true"@)
}

/// Whether a field says so, where there is one.
pub open spec fn some_flag_field(pairs: Seq<Seq<char>>, key: Seq<char>) -> Option<bool> {
    match field(pairs, key) {
        Some(value) => Some(value == "true"@),
        None => None,
    }
}

/// What `mode` asks.
pub open spec fn set_mode_command(payload: Seq<char>) -> Option<CommandView> {
    Some(
        CommandView::SetMode {
            mode: payload,
        },
    )
}

/// What `warp` asks.
pub open spec fn set_warp_command(pairs: Seq<Seq<char>>) -> Option<CommandView> {
    Some(
        CommandView::SetWarp {
            intensity: number_field(pairs, "intensity"@, 0),
        },
    )
}

/// What `object.add` asks.
pub open spec fn spawn_object_command(pairs: Seq<Seq<char>>) -> Option<CommandView> {
    match field(pairs, "path"@) {
        Some(path) => Some(
            CommandView::SpawnObject {
                path,
                x: cell_field(pairs, "x"@),
                y: cell_field(pairs, "y"@),
                scale: number_field(pairs, "scale"@, 0x3f80_0000),
                spin: number_field(pairs, "spin"@, 0),
                brightness: number_field(pairs, "brightness"@, 0x3f80_0000),
                remesh: flag_field(pairs, "remesh"@),
            },
        ),
        None => None,
    }
}

/// What `object.remove` asks.
pub open spec fn remove_object_command(pairs: Seq<Seq<char>>) -> Option<CommandView> {
    match some_id_field(pairs, "id"@) {
        Some(id) => Some(
            CommandView::RemoveObject {
                id,
            },
        ),
        None => None,
    }
}

/// What `object.update` asks.
pub open spec fn update_object_command(pairs: Seq<Seq<char>>) -> Option<CommandView> {
    match some_id_field(pairs, "id"@) {
        Some(id) => Some(
            CommandView::UpdateObject {
                id,
                x: some_cell_field(pairs, "x"@),
                y: some_cell_field(pairs, "y"@),
                scale: field(pairs, "scale"@),
                spin: field(pairs, "spin"@),
                brightness: field(pairs, "brightness"@),
            },
        ),
        None => None,
    }
}

/// What `flash` asks.
pub open spec fn flash_command(pairs: Seq<Seq<char>>) -> Option<CommandView> {
    Some(
        CommandView::Flash {
            color: text_or(pairs, "color"@, "#ffffff"@),
            duration: number_field(pairs, "duration"@, 0x3f00_0000),
        },
    )
}

/// What `pulse` asks.
pub open spec fn pulse_command(pairs: Seq<Seq<char>>) -> Option<CommandView> {
    Some(
        CommandView::Pulse {
            intensity: number_field(pairs, "intensity"@, 0x3f4c_cccd),
            duration: number_field(pairs, "duration"@, 0x3f80_0000),
        },
    )
}

/// What `cursor` asks.
pub open spec fn update_cursor_command(pairs: Seq<Seq<char>>) -> Option<CommandView> {
    Some(
        CommandView::UpdateCursor {
            model: field(pairs, "model"@),
            spin: field(pairs, "spin"@),
            bob_speed: field(pairs, "bob_speed"@),
            bob_amp: field(pairs, "bob_amp"@),
            brightness: field(pairs, "brightness"@),
            visible: some_flag_field(pairs, "visible"@),
        },
    )
}

/// What `screenshot` asks.
pub open spec fn screenshot_command(pairs: Seq<Seq<char>>) -> Option<CommandView> {
    Some(
        CommandView::Screenshot {
            path: text_or(pairs, "path"@, "ratty-screenshot.png"@),
        },
    )
}

/// What `chart` asks.
pub open spec fn chart_command(pairs: Seq<Seq<char>>) -> Option<CommandView> {
    Some(
        CommandView::Chart {
            kind: text_or(pairs, "kind"@, "bar"@),
            x: cell_field(pairs, "x"@),
            y: cell_field(pairs, "y"@),
            scale: number_field(pairs, "scale"@, 0x3f80_0000),
            data: text_or(pairs, "data"@, "[]"@),
        },
    )
}

/// What `timeline` asks.
pub open spec fn timeline_command(pairs: Seq<Seq<char>>) -> Option<CommandView> {
    Some(
        CommandView::Timeline {
            x: cell_field(pairs, "x"@),
            y: cell_field(pairs, "y"@),
            scale: number_field(pairs, "scale"@, 0x3f80_0000),
            input: text_or(pairs, "input"@, ""@),
        },
    )
}

/// What `tint` asks.
pub open spec fn tint_command(payload: Seq<char>, pairs: Seq<Seq<char>>) -> Option<CommandView> {
    Some(
        CommandView::Tint {
            color: payload,
            opacity: number_field(pairs, "opacity"@, 0x3dcc_cccd),
        },
    )
}

/// What `ps` asks.
pub open spec fn ps_command(pairs: Seq<Seq<char>>) -> Option<CommandView> {
    Some(
        CommandView::Ps {
            visualize: flag_field(pairs, "visualize"@),
            highlight: some_id_field(pairs, "highlight"@),
            color: field(pairs, "color"@),
        },
    )
}

/// What `kill` asks.
pub open spec fn kill_command(pairs: Seq<Seq<char>>) -> Option<CommandView> {
    match some_id_field(pairs, "pid"@) {
        Some(pid) => Some(
            CommandView::Kill {
                pid,
                effect: text_or(pairs, "effect"@, "explode"@),
            },
        ),
        None => None,
    }
}

/// What `cd` asks.
pub open spec fn cd_command(pairs: Seq<Seq<char>>) -> Option<CommandView> {
    match field(pairs, "path"@) {
        Some(path) => Some(
            CommandView::Cd {
                path,
                visualize: flag_field(pairs, "visualize"@),
            },
        ),
        None => None,
    }
}

/// What `ls` asks.
pub open spec fn ls_command(pairs: Seq<Seq<char>>) -> Option<CommandView> {
    Some(
        CommandView::Ls {
            path: text_or(pairs, "path"@, "."@),
            visualize: flag_field(pairs, "visualize"@),
        },
    )
}

/// What `tree` asks.
pub open spec fn tree_command(pairs: Seq<Seq<char>>) -> Option<CommandView> {
    Some(
        CommandView::Tree {
            depth: match some_small_field(pairs, "depth"@) {
        Some(value) => value,
        None => 3,
    },
            visualize: flag_field(pairs, "visualize"@),
        },
    )
}

/// What `git.branch` asks.
pub open spec fn git_branch_command(pairs: Seq<Seq<char>>) -> Option<CommandView> {
    Some(
        CommandView::GitBranch {
            visualize: flag_field(pairs, "visualize"@),
        },
    )
}

/// What `git.diff` asks.
pub open spec fn git_diff_command(pairs: Seq<Seq<char>>) -> Option<CommandView> {
    Some(
        CommandView::GitDiff {
            visualize: flag_field(pairs, "visualize"@),
        },
    )
}

/// What `git.merge` asks.
pub open spec fn git_merge_command(pairs: Seq<Seq<char>>) -> Option<CommandView> {
    Some(
        CommandView::GitMerge {
            visualize: flag_field(pairs, "visualize"@),
        },
    )
}

/// What `git.stash` asks.
pub open spec fn git_stash_command(pairs: Seq<Seq<char>>) -> Option<CommandView> {
    Some(
        CommandView::GitStash {
            visualize: flag_field(pairs, "visualize"@),
        },
    )
}

/// What `net` asks.
pub open spec fn net_command(pairs: Seq<Seq<char>>) -> Option<CommandView> {
    Some(
        CommandView::Net {
            visualize: flag_field(pairs, "visualize"@),
            host: field(pairs, "host"@),
        },
    )
}

/// What `think` asks.
pub open spec fn think_command(pairs: Seq<Seq<char>>) -> Option<CommandView> {
    Some(
        CommandView::Think {
            state: text_or(pairs, "state"@, "toggle"@),
        },
    )
}

/// What `confidence` asks.
pub open spec fn confidence_command(pairs: Seq<Seq<char>>) -> Option<CommandView> {
    Some(
        CommandView::Confidence {
            level: number_field(pairs, "level"@, 0x3f00_0000),
        },
    )
}

/// What `mood` asks.
pub open spec fn mood_command(pairs: Seq<Seq<char>>) -> Option<CommandView> {
    Some(
        CommandView::Mood {
            mood: text_or(pairs, "mood"@, "focused"@),
        },
    )
}

/// What `pane.split` asks.
pub open spec fn split_pane_command(pairs: Seq<Seq<char>>) -> Option<CommandView> {
    Some(
        CommandView::SplitPane {
            direction: text_or(pairs, "direction"@, "vertical"@),
            ratio: number_field(pairs, "ratio"@, 0x3f00_0000),
        },
    )
}

/// What `pane.focus` asks.
pub open spec fn focus_pane_command(pairs: Seq<Seq<char>>) -> Option<CommandView> {
    match some_small_field(pairs, "pane"@) {
        Some(pane) => Some(
            CommandView::FocusPane {
                pane,
            },
        ),
        None => None,
    }
}

/// What `pane.resize` asks.
pub open spec fn resize_pane_command(pairs: Seq<Seq<char>>) -> Option<CommandView> {
    match some_small_field(pairs, "pane"@) {
        Some(pane) => Some(
            CommandView::ResizePane {
                pane,
                width: some_cell_field(pairs, "width"@),
                height: some_cell_field(pairs, "height"@),
            },
        ),
        None => None,
    }
}

/// What `pane.close` asks.
pub open spec fn close_pane_command(pairs: Seq<Seq<char>>) -> Option<CommandView> {
    match some_small_field(pairs, "pane"@) {
        Some(pane) => Some(
            CommandView::ClosePane {
                pane,
            },
        ),
        None => None,
    }
}

/// What `history` asks.
pub open spec fn history_command(pairs: Seq<Seq<char>>) -> Option<CommandView> {
    Some(
        CommandView::History {
            last: count_or(pairs, "last"@, 50),
            visualize: flag_field(pairs, "visualize"@),
        },
    )
}

/// What `bookmark` asks.
pub open spec fn bookmark_command(pairs: Seq<Seq<char>>) -> Option<CommandView> {
    match field(pairs, "name"@) {
        Some(name) => Some(
            CommandView::Bookmark {
                name,
            },
        ),
        None => None,
    }
}

/// What `jump` asks.
pub open spec fn jump_command(pairs: Seq<Seq<char>>) -> Option<CommandView> {
    match field(pairs, "name"@) {
        Some(name) => Some(
            CommandView::Jump {
                name,
            },
        ),
        None => None,
    }
}

/// What `user.join` asks.
pub open spec fn user_join_command(pairs: Seq<Seq<char>>) -> Option<CommandView> {
    match field(pairs, "name"@) {
        Some(name) => Some(
            CommandView::UserJoin {
                name,
                color: text_or(pairs, "color"@, "#00ff00"@),
            },
        ),
        None => None,
    }
}

/// What `user.leave` asks.
pub open spec fn user_leave_command(pairs: Seq<Seq<char>>) -> Option<CommandView> {
    match field(pairs, "name"@) {
        Some(name) => Some(
            CommandView::UserLeave {
                name,
            },
        ),
        None => None,
    }
}

/// What `user.cursor` asks.
pub open spec fn user_cursor_command(pairs: Seq<Seq<char>>) -> Option<CommandView> {
    match field(pairs, "name"@) {
        Some(name) => Some(
            CommandView::UserCursor {
                name,
                x: cell_field(pairs, "x"@),
                y: cell_field(pairs, "y"@),
            },
        ),
        None => None,
    }
}

/// What `note` asks.
pub open spec fn note_command(pairs: Seq<Seq<char>>) -> Option<CommandView> {
    match field(pairs, "text"@) {
        Some(text) => Some(
            CommandView::Note {
                text,
                x: cell_field(pairs, "x"@),
                y: cell_field(pairs, "y"@),
                expires: text_or(pairs, "expires"@, "1h"@),
            },
        ),
        None => None,
    }
}

/// What `sound` asks.
pub open spec fn sound_command(pairs: Seq<Seq<char>>) -> Option<CommandView> {
    Some(
        CommandView::Sound {
            kind: text_or(pairs, "kind"@, "click"@),
            loop_sound: flag_field(pairs, "loop"@),
        },
    )
}

/// What `avatar.set` asks.
pub open spec fn avatar_set_command(pairs: Seq<Seq<char>>) -> Option<CommandView> {
    Some(
        CommandView::AvatarSet {
            model: text_or(pairs, "model"@, "ai-helper.glb"@),
            position: text_or(pairs, "position"@, "top-right"@),
        },
    )
}

/// What `avatar.gesture` asks.
pub open spec fn avatar_gesture_command(pairs: Seq<Seq<char>>) -> Option<CommandView> {
    Some(
        CommandView::AvatarGesture {
            gesture: text_or(pairs, "gesture"@, "wave"@),
        },
    )
}

/// What `avatar.speak` asks.
pub open spec fn avatar_speak_command(pairs: Seq<Seq<char>>) -> Option<CommandView> {
    match field(pairs, "text"@) {
        Some(text) => Some(
            CommandView::AvatarSpeak {
                text,
            },
        ),
        None => None,
    }
}

/// What `macro.record` asks.
pub open spec fn macro_record_command(pairs: Seq<Seq<char>>) -> Option<CommandView> {
    match field(pairs, "name"@) {
        Some(name) => Some(
            CommandView::MacroRecord {
                name,
            },
        ),
        None => None,
    }
}

/// What `macro.play` asks.
pub open spec fn macro_play_command(pairs: Seq<Seq<char>>) -> Option<CommandView> {
    match field(pairs, "name"@) {
        Some(name) => Some(
            CommandView::MacroPlay {
                name,
            },
        ),
        None => None,
    }
}

/// What `macro.export` asks.
pub open spec fn macro_export_command(pairs: Seq<Seq<char>>) -> Option<CommandView> {
    match field(pairs, "name"@) {
        Some(name) => Some(
            CommandView::MacroExport {
                name,
                to: text_or(pairs, "to"@, "macro.ratty"@),
            },
        ),
        None => None,
    }
}

/// What `macro.run` asks.
pub open spec fn macro_run_command(pairs: Seq<Seq<char>>) -> Option<CommandView> {
    match field(pairs, "path"@) {
        Some(path) => Some(
            CommandView::MacroRun {
                path,
            },
        ),
        None => None,
    }
}

/// What `react` asks.
pub open spec fn react_command(pairs: Seq<Seq<char>>) -> Option<CommandView> {
    match field(pairs, "effect"@) {
        Some(effect) => Some(
            CommandView::React {
                effect,
                cpu_high: field(pairs, "cpu_high"@),
                memory_high: field(pairs, "memory_high"@),
                battery_low: field(pairs, "battery_low"@),
            },
        ),
        None => None,
    }
}

/// What an action with a payload asks, if anything.
pub open spec fn command_of(action: Seq<char>, payload: Seq<char>) -> Option<CommandView> {
    if action == "mode"@ {
        set_mode_command(payload)
    } else if action == "warp"@ {
        set_warp_command(pairs_of(payload))
    } else if action == "object.add"@ {
        spawn_object_command(pairs_of(payload))
    } else if action == "object.remove"@ {
        remove_object_command(pairs_of(payload))
    } else if action == "object.clear"@ {
        Some(CommandView::ClearObjects)
    } else if action == "object.update"@ {
        update_object_command(pairs_of(payload))
    } else if action == "flash"@ {
        flash_command(pairs_of(payload))
    } else if action == "pulse"@ {
        pulse_command(pairs_of(payload))
    } else if action == "cursor"@ {
        update_cursor_command(pairs_of(payload))
    } else if action == "reset"@ {
        Some(CommandView::Reset)
    } else if action == "screenshot"@ {
        screenshot_command(pairs_of(payload))
    } else if action == "chart"@ {
        chart_command(pairs_of(payload))
    } else if action == "timeline"@ {
        timeline_command(pairs_of(payload))
    } else if action == "tint"@ {
        tint_command(payload, pairs_of(payload))
    } else if action == "ps"@ {
        ps_command(pairs_of(payload))
    } else if action == "kill"@ {
        kill_command(pairs_of(payload))
    } else if action == "cd"@ {
        cd_command(pairs_of(payload))
    } else if action == "ls"@ {
        ls_command(pairs_of(payload))
    } else if action == "tree"@ {
        tree_command(pairs_of(payload))
    } else if action == "git.branch"@ {
        git_branch_command(pairs_of(payload))
    } else if action == "git.diff"@ {
        git_diff_command(pairs_of(payload))
    } else if action == "git.merge"@ {
        git_merge_command(pairs_of(payload))
    } else if action == "git.stash"@ {
        git_stash_command(pairs_of(payload))
    } else if action == "net"@ {
        net_command(pairs_of(payload))
    } else if action == "think"@ {
        think_command(pairs_of(payload))
    } else if action == "confidence"@ {
        confidence_command(pairs_of(payload))
    } else if action == "mood"@ {
        mood_command(pairs_of(payload))
    } else if action == "pane.split"@ {
        split_pane_command(pairs_of(payload))
    } else if action == "pane.focus"@ {
        focus_pane_command(pairs_of(payload))
    } else if action == "pane.resize"@ {
        resize_pane_command(pairs_of(payload))
    } else if action == "pane.close"@ {
        close_pane_command(pairs_of(payload))
    } else if action == "history"@ {
        history_command(pairs_of(payload))
    } else if action == "bookmark"@ {
        bookmark_command(pairs_of(payload))
    } else if action == "jump"@ {
        jump_command(pairs_of(payload))
    } else if action == "user.join"@ {
        user_join_command(pairs_of(payload))
    } else if action == "user.leave"@ {
        user_leave_command(pairs_of(payload))
    } else if action == "user.cursor"@ {
        user_cursor_command(pairs_of(payload))
    } else if action == "note"@ {
        note_command(pairs_of(payload))
    } else if action == "sound"@ {
        sound_command(pairs_of(payload))
    } else if action == "avatar.set"@ {
        avatar_set_command(pairs_of(payload))
    } else if action == "avatar.gesture"@ {
        avatar_gesture_command(pairs_of(payload))
    } else if action == "avatar.speak"@ {
        avatar_speak_command(pairs_of(payload))
    } else if action == "avatar.hide"@ {
        Some(CommandView::AvatarHide)
    } else if action == "macro.record"@ {
        macro_record_command(pairs_of(payload))
    } else if action == "macro.stop"@ {
        Some(CommandView::MacroStop)
    } else if action == "macro.play"@ {
        macro_play_command(pairs_of(payload))
    } else if action == "macro.export"@ {
        macro_export_command(pairs_of(payload))
    } else if action == "macro.run"@ {
        macro_run_command(pairs_of(payload))
    } else if action == "react"@ {
        react_command(pairs_of(payload))
    } else {
        None
    }
}

/// What the data of a sequence asks, if anything: it has the prefix, then the
/// action, then perhaps a semicolon and the payload.
pub open spec fn sequence_command(data: Seq<char>) -> Option<CommandView> {
    let prefix = "ratty:"@;
    if !(prefix.len() <= data.len() && data.take(prefix.len() as int) == prefix) {
        None
    } else {
        let rest = data.skip(prefix.len() as int);
        let (action, written) = match halves_at(rest, ';') {
            Some(halves) => halves,
            None => (rest, Seq::empty()),
        };
        match url_decoded(written) {
            Some(payload) => command_of(action, payload),
            None => None,
        }
    }
}

/// The fields of a payload, taken apart.
struct Params {
    pairs: Vec<Vec<char>>,
}

impl View for Params {
    type V = Seq<Seq<char>>;

    closed spec fn view(&self) -> Seq<Seq<char>> {
        pieces_of(self.pairs@)
    }
}

/// Takes the fields of a payload apart.
fn parse_params(payload: &str) -> (params: Params)
    ensures
        params@ == pairs_of(payload@),
{
    Params { pairs: split_chars(&chars_of(payload), '&') }
}

impl Params {
    fn find(&self, key: &str) -> (value: Option<Vec<char>>)
        ensures
            match value {
                Some(value) => field(self@, key@) == Some(value@),
                None => field(self@, key@) is None,
            },
    {
        let ghost all = self@;
        let mut i: usize = self.pairs.len();
        assert(all.take(i as int) =~= all);
        while i > 0
            invariant
                i <= self.pairs@.len(),
                all == self@,
                all.len() == self.pairs@.len(),
                field(all, key@) == field(all.take(i as int), key@),
            decreases i,
        {
            proof {
                let shorter = all.take(i as int);
                assert(shorter.drop_last() =~= all.take(i - 1));
                assert(shorter.last() == self.pairs@[i - 1]@);
            }
            i -= 1;
            if let Some((name, value)) = split_once(&self.pairs[i], '=') {
                if reads(&name, key) {
                    return Some(value);
                }
            }
        }
        None
    }

    fn text(&self, key: &str) -> (value: Option<String>)
        ensures
            token_view(value) == field(self@, key@),
    {
        match self.find(key) {
            Some(value) => Some(string_from(value.as_slice())),
            None => None,
        }
    }

    fn text_or(&self, key: &str, fallback: &str) -> (value: String)
        ensures
            value@ == text_or(self@, key@, fallback@),
    {
        match self.text(key) {
            Some(value) => value,
            None => fallback.to_owned(),
        }
    }

    fn whole(&self, key: &str, max: u64) -> (value: Option<u64>)
        ensures
            match value {
                Some(value) => whole_field(self@, key@, max as nat) == Some(value as nat) && value
                    <= max,
                None => whole_field(self@, key@, max as nat) is None,
            },
    {
        match self.find(key) {
            Some(value) => parse_unsigned(&value, max),
            None => None,
        }
    }

    fn get_u16(&self, key: &str) -> (value: u16)
        ensures
            value == cell_field(self@, key@),
    {
        match self.whole(key, u16::MAX as u64) {
            Some(value) => value as u16,
            None => 0,
        }
    }

    fn cell(&self, key: &str) -> (value: Option<u16>)
        ensures
            value == some_cell_field(self@, key@),
    {
        match self.whole(key, u16::MAX as u64) {
            Some(value) => Some(value as u16),
            None => None,
        }
    }

    fn id(&self, key: &str) -> (value: Option<u32>)
        ensures
            value == some_id_field(self@, key@),
    {
        match self.whole(key, u32::MAX as u64) {
            Some(value) => Some(value as u32),
            None => None,
        }
    }

    fn small(&self, key: &str) -> (value: Option<u8>)
        ensures
            value == some_small_field(self@, key@),
    {
        match self.whole(key, u8::MAX as u64) {
            Some(value) => Some(value as u8),
            None => None,
        }
    }

    fn small_or(&self, key: &str, fallback: u8) -> (value: u8)
        ensures
            value == match some_small_field(self@, key@) {
                Some(value) => value,
                None => fallback,
            },
    {
        match self.small(key) {
            Some(value) => value,
            None => fallback,
        }
    }

    fn count_or(&self, key: &str, fallback: usize) -> (value: usize)
        ensures
            value == count_or(self@, key@, fallback),
    {
        match self.whole(key, usize::MAX as u64) {
            Some(value) => value as usize,
            None => fallback,
        }
    }

    fn get_f32(&self, key: &str, fallback: u32) -> (value: NumberField)
        ensures
            value@ == number_field(self@, key@, fallback),
    {
        NumberField { text: self.text(key), fallback: Single { bits: fallback } }
    }

    fn flag(&self, key: &str) -> (value: bool)
        ensures
            value == flag_field(self@, key@),
    {
        match self.find(key) {
            Some(value) => reads(&value, "true"),
            None => false,
        }
    }

    fn some_flag(&self, key: &str) -> (value: Option<bool>)
        ensures
            value == some_flag_field(self@, key@),
    {
        match self.find(key) {
            Some(value) => Some(reads(&value, "true")),
            None => None,
        }
    }
}

fn read_set_mode(payload: &str) -> (command: Option<RattyAiCommand>)
    ensures
        command_view(command) == set_mode_command(payload@),
{
    Some(
        RattyAiCommand::SetMode {
            mode: payload.to_owned(),
        },
    )
}

fn read_set_warp(p: &Params) -> (command: Option<RattyAiCommand>)
    ensures
        command_view(command) == set_warp_command(p@),
{
    Some(
        RattyAiCommand::SetWarp {
            intensity: p.get_f32("intensity", 0),
        },
    )
}

fn read_spawn_object(p: &Params) -> (command: Option<RattyAiCommand>)
    ensures
        command_view(command) == spawn_object_command(p@),
{
    let path: String = match p.text("path") {
        Some(value) => value,
        None => {
            return None;
        },
    };
    Some(
        RattyAiCommand::SpawnObject {
            path,
            x: p.get_u16("x"),
            y: p.get_u16("y"),
            scale: p.get_f32("scale", 0x3f80_0000),
            spin: p.get_f32("spin", 0),
            brightness: p.get_f32("brightness", 0x3f80_0000),
            remesh: p.flag("remesh"),
        },
    )
}

fn read_remove_object(p: &Params) -> (command: Option<RattyAiCommand>)
    ensures
        command_view(command) == remove_object_command(p@),
{
    let id: u32 = match p.id("id") {
        Some(value) => value,
        None => {
            return None;
        },
    };
    Some(
        RattyAiCommand::RemoveObject {
            id,
        },
    )
}

fn read_update_object(p: &Params) -> (command: Option<RattyAiCommand>)
    ensures
        command_view(command) == update_object_command(p@),
{
    let id: u32 = match p.id("id") {
        Some(value) => value,
        None => {
            return None;
        },
    };
    Some(
        RattyAiCommand::UpdateObject {
            id,
            x: p.cell("x"),
            y: p.cell("y"),
            scale: p.text("scale"),
            spin: p.text("spin"),
            brightness: p.text("brightness"),
        },
    )
}

fn read_flash(p: &Params) -> (command: Option<RattyAiCommand>)
    ensures
        command_view(command) == flash_command(p@),
{
    Some(
        RattyAiCommand::Flash {
            color: p.text_or("color", "#ffffff"),
            duration: p.get_f32("duration", 0x3f00_0000),
        },
    )
}

fn read_pulse(p: &Params) -> (command: Option<RattyAiCommand>)
    ensures
        command_view(command) == pulse_command(p@),
{
    Some(
        RattyAiCommand::Pulse {
            intensity: p.get_f32("intensity", 0x3f4c_cccd),
            duration: p.get_f32("duration", 0x3f80_0000),
        },
    )
}

fn read_update_cursor(p: &Params) -> (command: Option<RattyAiCommand>)
    ensures
        command_view(command) == update_cursor_command(p@),
{
    Some(
        RattyAiCommand::UpdateCursor {
            model: p.text("model"),
            spin: p.text("spin"),
            bob_speed: p.text("bob_speed"),
            bob_amp: p.text("bob_amp"),
            brightness: p.text("brightness"),
            visible: p.some_flag("visible"),
        },
    )
}

fn read_screenshot(p: &Params) -> (command: Option<RattyAiCommand>)
    ensures
        command_view(command) == screenshot_command(p@),
{
    Some(
        RattyAiCommand::Screenshot {
            path: p.text_or("path", "ratty-screenshot.png"),
        },
    )
}

fn read_chart(p: &Params) -> (command: Option<RattyAiCommand>)
    ensures
        command_view(command) == chart_command(p@),
{
    Some(
        RattyAiCommand::Chart {
            kind: p.text_or("kind", "bar"),
            x: p.get_u16("x"),
            y: p.get_u16("y"),
            scale: p.get_f32("scale", 0x3f80_0000),
            data: p.text_or("data", "[]"),
        },
    )
}

fn read_timeline(p: &Params) -> (command: Option<RattyAiCommand>)
    ensures
        command_view(command) == timeline_command(p@),
{
    Some(
        RattyAiCommand::Timeline {
            x: p.get_u16("x"),
            y: p.get_u16("y"),
            scale: p.get_f32("scale", 0x3f80_0000),
            input: p.text_or("input", ""),
        },
    )
}

fn read_tint(payload: &str, p: &Params) -> (command: Option<RattyAiCommand>)
    ensures
        command_view(command) == tint_command(payload@, p@),
{
    Some(
        RattyAiCommand::Tint {
            color: payload.to_owned(),
            opacity: p.get_f32("opacity", 0x3dcc_cccd),
        },
    )
}

fn read_ps(p: &Params) -> (command: Option<RattyAiCommand>)
    ensures
        command_view(command) == ps_command(p@),
{
    Some(
        RattyAiCommand::Ps {
            visualize: p.flag("visualize"),
            highlight: p.id("highlight"),
            color: p.text("color"),
        },
    )
}

fn read_kill(p: &Params) -> (command: Option<RattyAiCommand>)
    ensures
        command_view(command) == kill_command(p@),
{
    let pid: u32 = match p.id("pid") {
        Some(value) => value,
        None => {
            return None;
        },
    };
    Some(
        RattyAiCommand::Kill {
            pid,
            effect: p.text_or("effect", "explode"),
        },
    )
}

fn read_cd(p: &Params) -> (command: Option<RattyAiCommand>)
    ensures
        command_view(command) == cd_command(p@),
{
    let path: String = match p.text("path") {
        Some(value) => value,
        None => {
            return None;
        },
    };
    Some(
        RattyAiCommand::Cd {
            path,
            visualize: p.flag("visualize"),
        },
    )
}

fn read_ls(p: &Params) -> (command: Option<RattyAiCommand>)
    ensures
        command_view(command) == ls_command(p@),
{
    Some(
        RattyAiCommand::Ls {
            path: p.text_or("path", "."),
            visualize: p.flag("visualize"),
        },
    )
}

fn read_tree(p: &Params) -> (command: Option<RattyAiCommand>)
    ensures
        command_view(command) == tree_command(p@),
{
    Some(
        RattyAiCommand::Tree {
            depth: p.small_or("depth", 3),
            visualize: p.flag("visualize"),
        },
    )
}

fn read_git_branch(p: &Params) -> (command: Option<RattyAiCommand>)
    ensures
        command_view(command) == git_branch_command(p@),
{
    Some(
        RattyAiCommand::GitBranch {
            visualize: p.flag("visualize"),
        },
    )
}

fn read_git_diff(p: &Params) -> (command: Option<RattyAiCommand>)
    ensures
        command_view(command) == git_diff_command(p@),
{
    Some(
        RattyAiCommand::GitDiff {
            visualize: p.flag("visualize"),
        },
    )
}

fn read_git_merge(p: &Params) -> (command: Option<RattyAiCommand>)
    ensures
        command_view(command) == git_merge_command(p@),
{
    Some(
        RattyAiCommand::GitMerge {
            visualize: p.flag("visualize"),
        },
    )
}

fn read_git_stash(p: &Params) -> (command: Option<RattyAiCommand>)
    ensures
        command_view(command) == git_stash_command(p@),
{
    Some(
        RattyAiCommand::GitStash {
            visualize: p.flag("visualize"),
        },
    )
}

fn read_net(p: &Params) -> (command: Option<RattyAiCommand>)
    ensures
        command_view(command) == net_command(p@),
{
    Some(
        RattyAiCommand::Net {
            visualize: p.flag("visualize"),
            host: p.text("host"),
        },
    )
}

fn read_think(p: &Params) -> (command: Option<RattyAiCommand>)
    ensures
        command_view(command) == think_command(p@),
{
    Some(
        RattyAiCommand::Think {
            state: p.text_or("state", "toggle"),
        },
    )
}

fn read_confidence(p: &Params) -> (command: Option<RattyAiCommand>)
    ensures
        command_view(command) == confidence_command(p@),
{
    Some(
        RattyAiCommand::Confidence {
            level: p.get_f32("level", 0x3f00_0000),
        },
    )
}

fn read_mood(p: &Params) -> (command: Option<RattyAiCommand>)
    ensures
        command_view(command) == mood_command(p@),
{
    Some(
        RattyAiCommand::Mood {
            mood: p.text_or("mood", "focused"),
        },
    )
}

fn read_split_pane(p: &Params) -> (command: Option<RattyAiCommand>)
    ensures
        command_view(command) == split_pane_command(p@),
{
    Some(
        RattyAiCommand::SplitPane {
            direction: p.text_or("direction", "vertical"),
            ratio: p.get_f32("ratio", 0x3f00_0000),
        },
    )
}

fn read_focus_pane(p: &Params) -> (command: Option<RattyAiCommand>)
    ensures
        command_view(command) == focus_pane_command(p@),
{
    let pane: u8 = match p.small("pane") {
        Some(value) => value,
        None => {
            return None;
        },
    };
    Some(
        RattyAiCommand::FocusPane {
            pane,
        },
    )
}

fn read_resize_pane(p: &Params) -> (command: Option<RattyAiCommand>)
    ensures
        command_view(command) == resize_pane_command(p@),
{
    let pane: u8 = match p.small("pane") {
        Some(value) => value,
        None => {
            return None;
        },
    };
    Some(
        RattyAiCommand::ResizePane {
            pane,
            width: p.cell("width"),
            height: p.cell("height"),
        },
    )
}

fn read_close_pane(p: &Params) -> (command: Option<RattyAiCommand>)
    ensures
        command_view(command) == close_pane_command(p@),
{
    let pane: u8 = match p.small("pane") {
        Some(value) => value,
        None => {
            return None;
        },
    };
    Some(
        RattyAiCommand::ClosePane {
            pane,
        },
    )
}

fn read_history(p: &Params) -> (command: Option<RattyAiCommand>)
    ensures
        command_view(command) == history_command(p@),
{
    Some(
        RattyAiCommand::History {
            last: p.count_or("last", 50),
            visualize: p.flag("visualize"),
        },
    )
}

fn read_bookmark(p: &Params) -> (command: Option<RattyAiCommand>)
    ensures
        command_view(command) == bookmark_command(p@),
{
    let name: String = match p.text("name") {
        Some(value) => value,
        None => {
            return None;
        },
    };
    Some(
        RattyAiCommand::Bookmark {
            name,
        },
    )
}

fn read_jump(p: &Params) -> (command: Option<RattyAiCommand>)
    ensures
        command_view(command) == jump_command(p@),
{
    let name: String = match p.text("name") {
        Some(value) => value,
        None => {
            return None;
        },
    };
    Some(
        RattyAiCommand::Jump {
            name,
        },
    )
}

fn read_user_join(p: &Params) -> (command: Option<RattyAiCommand>)
    ensures
        command_view(command) == user_join_command(p@),
{
    let name: String = match p.text("name") {
        Some(value) => value,
        None => {
            return None;
        },
    };
    Some(
        RattyAiCommand::UserJoin {
            name,
            color: p.text_or("color", "#00ff00"),
        },
    )
}

fn read_user_leave(p: &Params) -> (command: Option<RattyAiCommand>)
    ensures
        command_view(command) == user_leave_command(p@),
{
    let name: String = match p.text("name") {
        Some(value) => value,
        None => {
            return None;
        },
    };
    Some(
        RattyAiCommand::UserLeave {
            name,
        },
    )
}

fn read_user_cursor(p: &Params) -> (command: Option<RattyAiCommand>)
    ensures
        command_view(command) == user_cursor_command(p@),
{
    let name: String = match p.text("name") {
        Some(value) => value,
        None => {
            return None;
        },
    };
    Some(
        RattyAiCommand::UserCursor {
            name,
            x: p.get_u16("x"),
            y: p.get_u16("y"),
        },
    )
}

fn read_note(p: &Params) -> (command: Option<RattyAiCommand>)
    ensures
        command_view(command) == note_command(p@),
{
    let text: String = match p.text("text") {
        Some(value) => value,
        None => {
            return None;
        },
    };
    Some(
        RattyAiCommand::Note {
            text,
            x: p.get_u16("x"),
            y: p.get_u16("y"),
            expires: p.text_or("expires", "1h"),
        },
    )
}

fn read_sound(p: &Params) -> (command: Option<RattyAiCommand>)
    ensures
        command_view(command) == sound_command(p@),
{
    Some(
        RattyAiCommand::Sound {
            kind: p.text_or("kind", "click"),
            loop_sound: p.flag("loop"),
        },
    )
}

fn read_avatar_set(p: &Params) -> (command: Option<RattyAiCommand>)
    ensures
        command_view(command) == avatar_set_command(p@),
{
    Some(
        RattyAiCommand::AvatarSet {
            model: p.text_or("model", "ai-helper.glb"),
            position: p.text_or("position", "top-right"),
        },
    )
}

fn read_avatar_gesture(p: &Params) -> (command: Option<RattyAiCommand>)
    ensures
        command_view(command) == avatar_gesture_command(p@),
{
    Some(
        RattyAiCommand::AvatarGesture {
            gesture: p.text_or("gesture", "wave"),
        },
    )
}

fn read_avatar_speak(p: &Params) -> (command: Option<RattyAiCommand>)
    ensures
        command_view(command) == avatar_speak_command(p@),
{
    let text: String = match p.text("text") {
        Some(value) => value,
        None => {
            return None;
        },
    };
    Some(
        RattyAiCommand::AvatarSpeak {
            text,
        },
    )
}

fn read_macro_record(p: &Params) -> (command: Option<RattyAiCommand>)
    ensures
        command_view(command) == macro_record_command(p@),
{
    let name: String = match p.text("name") {
        Some(value) => value,
        None => {
            return None;
        },
    };
    Some(
        RattyAiCommand::MacroRecord {
            name,
        },
    )
}

fn read_macro_play(p: &Params) -> (command: Option<RattyAiCommand>)
    ensures
        command_view(command) == macro_play_command(p@),
{
    let name: String = match p.text("name") {
        Some(value) => value,
        None => {
            return None;
        },
    };
    Some(
        RattyAiCommand::MacroPlay {
            name,
        },
    )
}

fn read_macro_export(p: &Params) -> (command: Option<RattyAiCommand>)
    ensures
        command_view(command) == macro_export_command(p@),
{
    let name: String = match p.text("name") {
        Some(value) => value,
        None => {
            return None;
        },
    };
    Some(
        RattyAiCommand::MacroExport {
            name,
            to: p.text_or("to", "macro.ratty"),
        },
    )
}

fn read_macro_run(p: &Params) -> (command: Option<RattyAiCommand>)
    ensures
        command_view(command) == macro_run_command(p@),
{
    let path: String = match p.text("path") {
        Some(value) => value,
        None => {
            return None;
        },
    };
    Some(
        RattyAiCommand::MacroRun {
            path,
        },
    )
}

fn read_react(p: &Params) -> (command: Option<RattyAiCommand>)
    ensures
        command_view(command) == react_command(p@),
{
    let effect: String = match p.text("effect") {
        Some(value) => value,
        None => {
            return None;
        },
    };
    Some(
        RattyAiCommand::React {
            effect,
            cpu_high: p.text("cpu_high"),
            memory_high: p.text("memory_high"),
            battery_low: p.text("battery_low"),
        },
    )
}

fn read_command(action: &Vec<char>, payload: &str) -> (command: Option<RattyAiCommand>)
    ensures
        command_view(command) == command_of(action@, payload@),
{
    let p = parse_params(payload);
    if reads(action, "mode") {
        read_set_mode(payload)
    } else if reads(action, "warp") {
        read_set_warp(&p)
    } else if reads(action, "object.add") {
        read_spawn_object(&p)
    } else if reads(action, "object.remove") {
        read_remove_object(&p)
    } else if reads(action, "object.clear") {
        Some(RattyAiCommand::ClearObjects)
    } else if reads(action, "object.update") {
        read_update_object(&p)
    } else if reads(action, "flash") {
        read_flash(&p)
    } else if reads(action, "pulse") {
        read_pulse(&p)
    } else if reads(action, "cursor") {
        read_update_cursor(&p)
    } else if reads(action, "reset") {
        Some(RattyAiCommand::Reset)
    } else if reads(action, "screenshot") {
        read_screenshot(&p)
    } else if reads(action, "chart") {
        read_chart(&p)
    } else if reads(action, "timeline") {
        read_timeline(&p)
    } else if reads(action, "tint") {
        read_tint(payload, &p)
    } else if reads(action, "ps") {
        read_ps(&p)
    } else if reads(action, "kill") {
        read_kill(&p)
    } else if reads(action, "cd") {
        read_cd(&p)
    } else if reads(action, "ls") {
        read_ls(&p)
    } else if reads(action, "tree") {
        read_tree(&p)
    } else if reads(action, "git.branch") {
        read_git_branch(&p)
    } else if reads(action, "git.diff") {
        read_git_diff(&p)
    } else if reads(action, "git.merge") {
        read_git_merge(&p)
    } else if reads(action, "git.stash") {
        read_git_stash(&p)
    } else if reads(action, "net") {
        read_net(&p)
    } else if reads(action, "think") {
        read_think(&p)
    } else if reads(action, "confidence") {
        read_confidence(&p)
    } else if reads(action, "mood") {
        read_mood(&p)
    } else if reads(action, "pane.split") {
        read_split_pane(&p)
    } else if reads(action, "pane.focus") {
        read_focus_pane(&p)
    } else if reads(action, "pane.resize") {
        read_resize_pane(&p)
    } else if reads(action, "pane.close") {
        read_close_pane(&p)
    } else if reads(action, "history") {
        read_history(&p)
    } else if reads(action, "bookmark") {
        read_bookmark(&p)
    } else if reads(action, "jump") {
        read_jump(&p)
    } else if reads(action, "user.join") {
        read_user_join(&p)
    } else if reads(action, "user.leave") {
        read_user_leave(&p)
    } else if reads(action, "user.cursor") {
        read_user_cursor(&p)
    } else if reads(action, "note") {
        read_note(&p)
    } else if reads(action, "sound") {
        read_sound(&p)
    } else if reads(action, "avatar.set") {
        read_avatar_set(&p)
    } else if reads(action, "avatar.gesture") {
        read_avatar_gesture(&p)
    } else if reads(action, "avatar.speak") {
        read_avatar_speak(&p)
    } else if reads(action, "avatar.hide") {
        Some(RattyAiCommand::AvatarHide)
    } else if reads(action, "macro.record") {
        read_macro_record(&p)
    } else if reads(action, "macro.stop") {
        Some(RattyAiCommand::MacroStop)
    } else if reads(action, "macro.play") {
        read_macro_play(&p)
    } else if reads(action, "macro.export") {
        read_macro_export(&p)
    } else if reads(action, "macro.run") {
        read_macro_run(&p)
    } else if reads(action, "react") {
        read_react(&p)
    } else {
        None
    }
}

/// Reads the data of a sequence as a command.
pub fn parse_osc_777(data: &str) -> (command: Option<RattyAiCommand>)
    ensures
        command_view(command) == sequence_command(data@),
{
    let chars = chars_of(data);
    let rest: Vec<char> = match after_prefix(&chars) {
        Some(rest) => rest,
        None => {
            return None;
        },
    };
    let (action, written): (Vec<char>, Vec<char>) = match split_once(&rest, ';') {
        Some(halves) => halves,
        None => {
            let none: Vec<char> = Vec::new();
            assert(none@ =~= Seq::empty());
            (rest, none)
        },
    };
    match url_decode(&string_from(written.as_slice())) {
        Some(payload) => read_command(&action, &payload),
        None => None,
    }
}

fn after_prefix(chars: &Vec<char>) -> (rest: Option<Vec<char>>)
    ensures
        ({
            let prefix = "ratty:"@;
            match rest {
                Some(rest) => prefix.len() <= chars@.len() && chars@.take(prefix.len() as int)
                    == prefix && rest@ == chars@.skip(prefix.len() as int),
                None => !(prefix.len() <= chars@.len() && chars@.take(prefix.len() as int)
                    == prefix),
            }
        }),
{
    let prefix = chars_of("ratty:");
    if chars.len() < prefix.len() {
        return None;
    }
    let mut i: usize = 0;
    while i < prefix.len()
        invariant
            i <= prefix@.len() <= chars@.len(),
            prefix@ == "ratty:"@,
            forall|j: int| 0 <= j < i ==> chars@[j] == prefix@[j],
        decreases prefix.len() - i,
    {
        if chars[i] != prefix[i] {
            assert(chars@.take(prefix@.len() as int)[i as int] != prefix@[i as int]);
            return None;
        }
        i += 1;
    }
    assert(chars@.take(prefix@.len() as int) =~= prefix@);
    let mut rest: Vec<char> = Vec::new();
    while i < chars.len()
        invariant
            prefix@.len() <= i <= chars@.len(),
            rest@ == chars@.subrange(prefix@.len() as int, i as int),
        decreases chars.len() - i,
    {
        rest.push(chars[i]);
        assert(rest@ =~= chars@.subrange(prefix@.len() as int, i + 1));
        i += 1;
    }
    assert(rest@ =~= chars@.skip(prefix@.len() as int));
    Some(rest)
}

/// The data of a sequence for an action with a payload.
pub open spec fn sequence_data(action: Seq<char>, payload: Seq<char>) -> Seq<char> {
    "ratty:"@ + action + ";"@ + url_encoded(payload)
}

proof fn lemma_first_mark(s: Seq<char>, mark: char, from: int, at: int)
    requires
        0 <= from <= at < s.len(),
        forall|j: int| from <= j < at ==> #[trigger] s[j] != mark,
        s[at] == mark,
    ensures
        first_index(s, mark, from) == at,
    decreases at - from,
{
    if from < at {
        assert(s[from] != mark);
        lemma_first_mark(s, mark, from + 1, at);
    }
}

/// A sequence reads back as what was written: the action with its payload, as
/// no action has a semicolon.
pub proof fn law_sequences_read_back(action: Seq<char>, payload: Seq<char>)
    requires
        !action.contains(';'),
    ensures
        sequence_command(sequence_data(action, payload)) == command_of(action, payload),
{
    reveal_strlit(";");
    assert(";"@.len() == 1 && ";"@[0] == ';');
    let prefix = "ratty:"@;
    let data = sequence_data(action, payload);
    let rest = data.skip(prefix.len() as int);
    assert(data.take(prefix.len() as int) =~= prefix);
    assert(rest =~= action + ";"@ + url_encoded(payload));
    assert forall|j: int| 0 <= j < action.len() implies #[trigger] rest[j] != ';' by {
        assert(action.contains(action[j]));
        assert(rest[j] == action[j]);
    }
    lemma_first_mark(rest, ';', 0, action.len() as int);
    assert(rest.take(action.len() as int) =~= action);
    assert(rest.skip(action.len() as int + 1) =~= url_encoded(payload));
    law_payloads_read_back(payload);
}

} // verus!
