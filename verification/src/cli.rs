//! The command line's commands, as the sequences that they print.
//!
//! A payload is a list of fields. Numbers with a fraction come as they are to be
//! written.

use vstd::prelude::*;
use crate::effects::Mood;
use crate::osc_parser::{field, pairs_of};
use crate::query::token_view;
use crate::text::{
    chars_of, decimal, decimal_text, first_index, halves_at, pieces, string_from,
};
use crate::url::{url_encode, url_encoded};

verus! {

/// A change of the thinking indicator.
#[derive(Clone, Copy, Debug, PartialEq, Eq, Structural)]
pub enum ThinkArg {
    /// It begins.
    Start,
    /// It ends.
    End,
    /// It turns.
    Toggle,
}

/// A sound.
#[derive(Clone, Copy, Debug, PartialEq, Eq, Structural)]
pub enum SoundKind {
    /// A click.
    Click,
    /// An error.
    Error,
    /// A success.
    Success,
    /// A warning.
    Warning,
    /// An ambience.
    Ambient,
    /// A notice.
    Notify,
}

/// A gesture.
#[derive(Clone, Copy, Debug, PartialEq, Eq, Structural)]
pub enum GestureArg {
    /// Point.
    Point,
    /// Think.
    Think,
    /// Celebrate.
    Celebrate,
    /// Wave.
    Wave,
    /// Nod.
    Nod,
    /// Shake.
    Shake,
}

impl ThinkArg {
    /// What the two flags ask for.
    pub open spec fn of_flags(start: bool, end: bool) -> ThinkArg {
        if start {
            ThinkArg::Start
        } else if end {
            ThinkArg::End
        } else {
            ThinkArg::Toggle
        }
    }

    /// What the two flags ask for: the first of them that is set, or a turn.
    pub fn from_flags(start: bool, end: bool) -> (state: ThinkArg)
        ensures
            state == ThinkArg::of_flags(start, end),
            state == (if start {
                ThinkArg::Start
            } else if end {
                ThinkArg::End
            } else {
                ThinkArg::Toggle
            }),
    {
        if start {
            ThinkArg::Start
        } else if end {
            ThinkArg::End
        } else {
            ThinkArg::Toggle
        }
    }

    /// The word for it.
    pub open spec fn word(self) -> &'static str {
        match self {
            ThinkArg::Start => "start",
            ThinkArg::End => "end",
            ThinkArg::Toggle => "toggle",
        }
    }

    /// The word for it.
    pub fn as_str(self) -> (word: &'static str)
        ensures
            word == self.word(),
    {
        match self {
            ThinkArg::Start => "start",
            ThinkArg::End => "end",
            ThinkArg::Toggle => "toggle",
        }
    }
}

impl SoundKind {
    /// The word for it.
    pub open spec fn word(self) -> &'static str {
        match self {
            SoundKind::Click => "click",
            SoundKind::Error => "error",
            SoundKind::Success => "success",
            SoundKind::Warning => "warning",
            SoundKind::Ambient => "ambient",
            SoundKind::Notify => "notify",
        }
    }

    /// The word for it.
    pub fn as_str(self) -> (word: &'static str)
        ensures
            word == self.word(),
    {
        match self {
            SoundKind::Click => "click",
            SoundKind::Error => "error",
            SoundKind::Success => "success",
            SoundKind::Warning => "warning",
            SoundKind::Ambient => "ambient",
            SoundKind::Notify => "notify",
        }
    }
}

impl GestureArg {
    /// The word for it.
    pub open spec fn word(self) -> &'static str {
        match self {
            GestureArg::Point => "point",
            GestureArg::Think => "think",
            GestureArg::Celebrate => "celebrate",
            GestureArg::Wave => "wave",
            GestureArg::Nod => "nod",
            GestureArg::Shake => "shake",
        }
    }

    /// The word for it.
    pub fn as_str(self) -> (word: &'static str)
        ensures
            word == self.word(),
    {
        match self {
            GestureArg::Point => "point",
            GestureArg::Think => "think",
            GestureArg::Celebrate => "celebrate",
            GestureArg::Wave => "wave",
            GestureArg::Nod => "nod",
            GestureArg::Shake => "shake",
        }
    }
}

/// A command of the command line.
#[derive(Debug)]
#[allow(inconsistent_fields)]
pub enum Commands {
    /// Adds an object.
    ObjectAdd {
        /// `path=`.
        path: String,
        /// `x=`.
        x: u16,
        /// `y=`.
        y: u16,
        /// `scale=`, as it is written.
        scale: String,
        /// `spin=`, as it is written.
        spin: String,
        /// `brightness=`, as it is written.
        brightness: String,
        /// `remesh=`.
        remesh: bool,
    },
    /// Removes an object.
    ObjectRemove {
        /// `id=`.
        id: u32,
    },
    /// Removes all objects.
    ObjectClear,
    /// Lists the objects.
    ObjectList,
    /// Changes an object.
    ObjectUpdate {
        /// `id=`.
        id: u32,
        /// `x=`.
        x: Option<u16>,
        /// `y=`.
        y: Option<u16>,
        /// `scale=`, as it is written.
        scale: Option<String>,
        /// `spin=`, as it is written.
        spin: Option<String>,
        /// `brightness=`, as it is written.
        brightness: Option<String>,
    },
    /// Sets the presentation mode.
    Mode {
        /// The payload.
        mode: String,
    },
    /// Sets the warp.
    Warp {
        /// The payload: a number, as it is written.
        intensity: String,
    },
    /// Flashes.
    Flash {
        /// `color=`.
        color: String,
        /// `duration=`, as it is written.
        duration: String,
    },
    /// Pulses.
    Pulse {
        /// `intensity=`, as it is written.
        intensity: String,
        /// `duration=`, as it is written.
        duration: String,
    },
    /// Changes the cursor.
    Cursor {
        /// `model=`.
        model: Option<String>,
        /// `spin=`, as it is written.
        spin: Option<String>,
        /// `bob_speed=`, as it is written.
        bob_speed: Option<String>,
        /// `bob_amp=`, as it is written.
        bob_amp: Option<String>,
        /// `brightness=`, as it is written.
        brightness: Option<String>,
        /// `visible=`.
        visible: Option<bool>,
    },
    /// Resets everything.
    Reset,
    /// Asks for the state.
    State,
    /// Takes a picture.
    Screenshot {
        /// `path=`.
        path: String,
    },
    /// Draws a chart.
    Chart {
        /// `kind=`.
        kind: String,
        /// `x=`.
        x: u16,
        /// `y=`.
        y: u16,
        /// `scale=`, as it is written.
        scale: String,
        /// `data=`.
        data: String,
    },
    /// Draws a timeline.
    Timeline {
        /// `x=`.
        x: u16,
        /// `y=`.
        y: u16,
        /// `scale=`, as it is written.
        scale: String,
        /// `input=`.
        input: String,
    },
    /// Tints.
    Tint {
        /// `color=`.
        color: String,
        /// `opacity=`, as it is written.
        opacity: String,
    },
    /// Shows processes.
    Ps {
        /// `visualize=`.
        visualize: bool,
        /// `highlight=`.
        highlight: Option<u32>,
        /// `color=`.
        color: Option<String>,
    },
    /// Ends a process.
    Kill {
        /// `pid=`.
        pid: u32,
        /// `effect=`.
        effect: String,
    },
    /// Enters a directory.
    Cd {
        /// `path=`.
        path: String,
        /// `visualize=`.
        visualize: bool,
    },
    /// Lists a directory.
    Ls {
        /// `path=`.
        path: String,
        /// `visualize=`.
        visualize: bool,
    },
    /// Shows a directory tree.
    Tree {
        /// `depth=`.
        depth: u8,
        /// `visualize=`.
        visualize: bool,
    },
    /// Shows branches.
    GitBranch {
        /// `visualize=`.
        visualize: bool,
    },
    /// Shows differences.
    GitDiff {
        /// `visualize=`.
        visualize: bool,
    },
    /// Shows a merge.
    GitMerge {
        /// `visualize=`.
        visualize: bool,
    },
    /// Shows the stash.
    GitStash {
        /// `visualize=`.
        visualize: bool,
    },
    /// Shows connections.
    Net {
        /// `visualize=`.
        visualize: bool,
        /// `host=`.
        host: Option<String>,
    },
    /// Starts or ends thinking.
    Think {
        /// `state=`.
        state: ThinkArg,
    },
    /// Sets the confidence.
    Confidence {
        /// `level=`, as it is written.
        level: String,
    },
    /// Sets the mood.
    Mood {
        /// `mood=`.
        mood: Mood,
    },
    /// Splits a pane.
    Split {
        /// `direction=`.
        direction: String,
        /// `ratio=`, as it is written.
        ratio: String,
    },
    /// Focuses a pane.
    Focus {
        /// `pane=`.
        pane: u8,
    },
    /// Resizes a pane.
    Resize {
        /// `pane=`.
        pane: u8,
        /// `width=`.
        width: Option<u16>,
        /// `height=`.
        height: Option<u16>,
    },
    /// Closes a pane.
    Close {
        /// `pane=`.
        pane: u8,
    },
    /// Shows the history.
    History {
        /// `last=`.
        last: usize,
        /// `visualize=`.
        visualize: bool,
    },
    /// Stores the view.
    Bookmark {
        /// `name=`.
        name: String,
    },
    /// Goes to a stored view.
    Jump {
        /// `name=`.
        name: String,
    },
    /// A user joins.
    UserJoin {
        /// `name=`.
        name: String,
        /// `color=`.
        color: String,
    },
    /// A user leaves.
    UserLeave {
        /// `name=`.
        name: String,
    },
    /// A user's cursor moves.
    UserCursor {
        /// `name=`.
        name: String,
        /// `x=`.
        x: u16,
        /// `y=`.
        y: u16,
    },
    /// Leaves a note.
    Note {
        /// `text=`.
        text: String,
        /// `x=`.
        x: u16,
        /// `y=`.
        y: u16,
        /// `expires=`.
        expires: String,
    },
    /// Plays a sound.
    Sound {
        /// `kind=`.
        kind: SoundKind,
        /// `loop=`.
        loop_sound: bool,
    },
    /// Changes the avatar.
    AvatarSet {
        /// `model=`.
        model: String,
        /// `position=`.
        position: String,
    },
    /// Has the avatar gesture.
    AvatarGesture {
        /// `gesture=`.
        gesture: GestureArg,
    },
    /// Has the avatar speak.
    AvatarSpeak {
        /// `text=`.
        text: String,
    },
    /// Hides the avatar.
    AvatarHide,
    /// Starts a recording.
    MacroRecord {
        /// `name=`.
        name: String,
    },
    /// Ends a recording.
    MacroStop,
    /// Plays a macro.
    MacroPlay {
        /// `name=`.
        name: String,
    },
    /// Exports a macro.
    MacroExport {
        /// `name=`.
        name: String,
        /// `to=`.
        to: String,
    },
    /// Runs a macro.
    MacroRun {
        /// `path=`.
        path: String,
    },
    /// Reacts to the system.
    React {
        /// `effect=`.
        effect: String,
        /// `cpu_high=`, as it is written.
        cpu_high: Option<String>,
        /// `memory_high=`, as it is written.
        memory_high: Option<String>,
        /// `battery_low=`, as it is written.
        battery_low: Option<String>,
    },
}

/// Fields: a name and a value each.
pub type FieldsView = Seq<(Seq<char>, Seq<char>)>;

/// Fields written out: name, equals sign and value, with an ampersand between
/// two.
pub open spec fn joined(fields: FieldsView) -> Seq<char>
    decreases fields.len(),
{
    if fields.len() == 0 {
        Seq::empty()
    } else {
        let own = fields.last().0 + "="@ + fields.last().1;
        if fields.len() == 1 {
            own
        } else {
            joined(fields.drop_last()) + "&"@ + own
        }
    }
}

/// A yes or no, written out.
pub open spec fn flag_text(flag: bool) -> Seq<char> {
    if flag {
        "true"@
    } else {
        "false"@
    }
}

/// Fields with one more.
pub open spec fn with_field(fields: FieldsView, name: Seq<char>, value: Seq<char>) -> FieldsView {
    fields.push((name, value))
}

/// Fields with one more, where there is a value.
pub open spec fn with_some(
    fields: FieldsView,
    name: Seq<char>,
    value: Option<Seq<char>>,
) -> FieldsView {
    match value {
        Some(value) => fields.push((name, value)),
        None => fields,
    }
}

/// A number written out, where there is one.
pub open spec fn some_decimal(value: Option<nat>) -> Option<Seq<char>> {
    match value {
        Some(value) => Some(decimal(value)),
        None => None,
    }
}

/// A yes or no written out, where there is one.
pub open spec fn some_flag_text(value: Option<bool>) -> Option<Seq<char>> {
    match value {
        Some(value) => Some(flag_text(value)),
        None => None,
    }
}

/// A small number, where there is one.
pub open spec fn wide16(value: Option<u16>) -> Option<nat> {
    match value {
        Some(value) => Some(value as nat),
        None => None,
    }
}

/// An id, where there is one.
pub open spec fn wide32(value: Option<u32>) -> Option<nat> {
    match value {
        Some(value) => Some(value as nat),
        None => None,
    }
}

/// The fields of a command's payload.
pub open spec fn fields_of(command: Commands) -> FieldsView {
    match command {
        Commands::ObjectAdd { path, x, y, scale, spin, brightness, remesh } => {
            let fields = Seq::empty();
            let fields = with_field(fields, "path"@, path@);
            let fields = with_field(fields, "x"@, decimal(x as nat));
            let fields = with_field(fields, "y"@, decimal(y as nat));
            let fields = with_field(fields, "scale"@, scale@);
            let fields = with_field(fields, "spin"@, spin@);
            let fields = with_field(fields, "brightness"@, brightness@);
            let fields = with_field(fields, "remesh"@, flag_text(remesh));
            fields
        },
        Commands::ObjectRemove { id } => {
            let fields = Seq::empty();
            let fields = with_field(fields, "id"@, decimal(id as nat));
            fields
        },
        Commands::ObjectUpdate { id, x, y, scale, spin, brightness } => {
            let fields = Seq::empty();
            let fields = with_field(fields, "id"@, decimal(id as nat));
            let fields = with_some(fields, "x"@, some_decimal(wide16(x)));
            let fields = with_some(fields, "y"@, some_decimal(wide16(y)));
            let fields = with_some(fields, "scale"@, token_view(scale));
            let fields = with_some(fields, "spin"@, token_view(spin));
            let fields = with_some(fields, "brightness"@, token_view(brightness));
            fields
        },
        Commands::Flash { color, duration } => {
            let fields = Seq::empty();
            let fields = with_field(fields, "color"@, color@);
            let fields = with_field(fields, "duration"@, duration@);
            fields
        },
        Commands::Pulse { intensity, duration } => {
            let fields = Seq::empty();
            let fields = with_field(fields, "intensity"@, intensity@);
            let fields = with_field(fields, "duration"@, duration@);
            fields
        },
        Commands::Cursor { model, spin, bob_speed, bob_amp, brightness, visible } => {
            let fields = Seq::empty();
            let fields = with_some(fields, "model"@, token_view(model));
            let fields = with_some(fields, "spin"@, token_view(spin));
            let fields = with_some(fields, "bob_speed"@, token_view(bob_speed));
            let fields = with_some(fields, "bob_amp"@, token_view(bob_amp));
            let fields = with_some(fields, "brightness"@, token_view(brightness));
            let fields = with_some(fields, "visible"@, some_flag_text(visible));
            fields
        },
        Commands::Screenshot { path } => {
            let fields = Seq::empty();
            let fields = with_field(fields, "path"@, path@);
            fields
        },
        Commands::Chart { kind, x, y, scale, data } => {
            let fields = Seq::empty();
            let fields = with_field(fields, "kind"@, kind@);
            let fields = with_field(fields, "x"@, decimal(x as nat));
            let fields = with_field(fields, "y"@, decimal(y as nat));
            let fields = with_field(fields, "scale"@, scale@);
            let fields = with_field(fields, "data"@, data@);
            fields
        },
        Commands::Timeline { x, y, scale, input } => {
            let fields = Seq::empty();
            let fields = with_field(fields, "x"@, decimal(x as nat));
            let fields = with_field(fields, "y"@, decimal(y as nat));
            let fields = with_field(fields, "scale"@, scale@);
            let fields = with_field(fields, "input"@, input@);
            fields
        },
        Commands::Tint { color, opacity } => {
            let fields = Seq::empty();
            let fields = with_field(fields, "color"@, color@);
            let fields = with_field(fields, "opacity"@, opacity@);
            fields
        },
        Commands::Ps { visualize, highlight, color } => {
            let fields = Seq::empty();
            let fields = with_field(fields, "visualize"@, flag_text(visualize));
            let fields = with_some(fields, "highlight"@, some_decimal(wide32(highlight)));
            let fields = with_some(fields, "color"@, token_view(color));
            fields
        },
        Commands::Kill { pid, effect } => {
            let fields = Seq::empty();
            let fields = with_field(fields, "pid"@, decimal(pid as nat));
            let fields = with_field(fields, "effect"@, effect@);
            fields
        },
        Commands::Cd { path, visualize } => {
            let fields = Seq::empty();
            let fields = with_field(fields, "path"@, path@);
            let fields = with_field(fields, "visualize"@, flag_text(visualize));
            fields
        },
        Commands::Ls { path, visualize } => {
            let fields = Seq::empty();
            let fields = with_field(fields, "path"@, path@);
            let fields = with_field(fields, "visualize"@, flag_text(visualize));
            fields
        },
        Commands::Tree { depth, visualize } => {
            let fields = Seq::empty();
            let fields = with_field(fields, "depth"@, decimal(depth as nat));
            let fields = with_field(fields, "visualize"@, flag_text(visualize));
            fields
        },
        Commands::GitBranch { visualize } => {
            let fields = Seq::empty();
            let fields = with_field(fields, "visualize"@, flag_text(visualize));
            fields
        },
        Commands::GitDiff { visualize } => {
            let fields = Seq::empty();
            let fields = with_field(fields, "visualize"@, flag_text(visualize));
            fields
        },
        Commands::GitMerge { visualize } => {
            let fields = Seq::empty();
            let fields = with_field(fields, "visualize"@, flag_text(visualize));
            fields
        },
        Commands::GitStash { visualize } => {
            let fields = Seq::empty();
            let fields = with_field(fields, "visualize"@, flag_text(visualize));
            fields
        },
        Commands::Net { visualize, host } => {
            let fields = Seq::empty();
            let fields = with_field(fields, "visualize"@, flag_text(visualize));
            let fields = with_some(fields, "host"@, token_view(host));
            fields
        },
        Commands::Think { state } => {
            let fields = Seq::empty();
            let fields = with_field(fields, "state"@, state.word()@);
            fields
        },
        Commands::Confidence { level } => {
            let fields = Seq::empty();
            let fields = with_field(fields, "level"@, level@);
            fields
        },
        Commands::Mood { mood } => {
            let fields = Seq::empty();
            let fields = with_field(fields, "mood"@, mood.name()@);
            fields
        },
        Commands::Split { direction, ratio } => {
            let fields = Seq::empty();
            let fields = with_field(fields, "direction"@, direction@);
            let fields = with_field(fields, "ratio"@, ratio@);
            fields
        },
        Commands::Focus { pane } => {
            let fields = Seq::empty();
            let fields = with_field(fields, "pane"@, decimal(pane as nat));
            fields
        },
        Commands::Resize { pane, width, height } => {
            let fields = Seq::empty();
            let fields = with_field(fields, "pane"@, decimal(pane as nat));
            let fields = with_some(fields, "width"@, some_decimal(wide16(width)));
            let fields = with_some(fields, "height"@, some_decimal(wide16(height)));
            fields
        },
        Commands::Close { pane } => {
            let fields = Seq::empty();
            let fields = with_field(fields, "pane"@, decimal(pane as nat));
            fields
        },
        Commands::History { last, visualize } => {
            let fields = Seq::empty();
            let fields = with_field(fields, "last"@, decimal(last as nat));
            let fields = with_field(fields, "visualize"@, flag_text(visualize));
            fields
        },
        Commands::Bookmark { name } => {
            let fields = Seq::empty();
            let fields = with_field(fields, "name"@, name@);
            fields
        },
        Commands::Jump { name } => {
            let fields = Seq::empty();
            let fields = with_field(fields, "name"@, name@);
            fields
        },
        Commands::UserJoin { name, color } => {
            let fields = Seq::empty();
            let fields = with_field(fields, "name"@, name@);
            let fields = with_field(fields, "color"@, color@);
            fields
        },
        Commands::UserLeave { name } => {
            let fields = Seq::empty();
            let fields = with_field(fields, "name"@, name@);
            fields
        },
        Commands::UserCursor { name, x, y } => {
            let fields = Seq::empty();
            let fields = with_field(fields, "name"@, name@);
            let fields = with_field(fields, "x"@, decimal(x as nat));
            let fields = with_field(fields, "y"@, decimal(y as nat));
            fields
        },
        Commands::Note { text, x, y, expires } => {
            let fields = Seq::empty();
            let fields = with_field(fields, "text"@, text@);
            let fields = with_field(fields, "x"@, decimal(x as nat));
            let fields = with_field(fields, "y"@, decimal(y as nat));
            let fields = with_field(fields, "expires"@, expires@);
            fields
        },
        Commands::Sound { kind, loop_sound } => {
            let fields = Seq::empty();
            let fields = with_field(fields, "kind"@, kind.word()@);
            let fields = with_field(fields, "loop"@, flag_text(loop_sound));
            fields
        },
        Commands::AvatarSet { model, position } => {
            let fields = Seq::empty();
            let fields = with_field(fields, "model"@, model@);
            let fields = with_field(fields, "position"@, position@);
            fields
        },
        Commands::AvatarGesture { gesture } => {
            let fields = Seq::empty();
            let fields = with_field(fields, "gesture"@, gesture.word()@);
            fields
        },
        Commands::AvatarSpeak { text } => {
            let fields = Seq::empty();
            let fields = with_field(fields, "text"@, text@);
            fields
        },
        Commands::MacroRecord { name } => {
            let fields = Seq::empty();
            let fields = with_field(fields, "name"@, name@);
            fields
        },
        Commands::MacroPlay { name } => {
            let fields = Seq::empty();
            let fields = with_field(fields, "name"@, name@);
            fields
        },
        Commands::MacroExport { name, to } => {
            let fields = Seq::empty();
            let fields = with_field(fields, "name"@, name@);
            let fields = with_field(fields, "to"@, to@);
            fields
        },
        Commands::MacroRun { path } => {
            let fields = Seq::empty();
            let fields = with_field(fields, "path"@, path@);
            fields
        },
        Commands::React { effect, cpu_high, memory_high, battery_low } => {
            let fields = Seq::empty();
            let fields = with_field(fields, "effect"@, effect@);
            let fields = with_some(fields, "cpu_high"@, token_view(cpu_high));
            let fields = with_some(fields, "memory_high"@, token_view(memory_high));
            let fields = with_some(fields, "battery_low"@, token_view(battery_low));
            fields
        },
        _ => Seq::empty(),
    }
}

/// A command's action and payload. A mode and a warp are their payload; of the
/// others it is made of fields.
pub open spec fn emission(command: Commands) -> (Seq<char>, Seq<char>) {
    match command {
        Commands::ObjectAdd { .. } => ("object.add"@, joined(fields_of(command))),
        Commands::ObjectRemove { .. } => ("object.remove"@, joined(fields_of(command))),
        Commands::ObjectClear => ("object.clear"@, joined(fields_of(command))),
        Commands::ObjectList => ("object.list"@, joined(fields_of(command))),
        Commands::ObjectUpdate { .. } => ("object.update"@, joined(fields_of(command))),
        Commands::Mode { mode } => ("mode"@, mode@),
        Commands::Warp { intensity } => ("warp"@, intensity@),
        Commands::Flash { .. } => ("flash"@, joined(fields_of(command))),
        Commands::Pulse { .. } => ("pulse"@, joined(fields_of(command))),
        Commands::Cursor { .. } => ("cursor"@, joined(fields_of(command))),
        Commands::Reset => ("reset"@, joined(fields_of(command))),
        Commands::State => ("state"@, joined(fields_of(command))),
        Commands::Screenshot { .. } => ("screenshot"@, joined(fields_of(command))),
        Commands::Chart { .. } => ("chart"@, joined(fields_of(command))),
        Commands::Timeline { .. } => ("timeline"@, joined(fields_of(command))),
        Commands::Tint { .. } => ("tint"@, joined(fields_of(command))),
        Commands::Ps { .. } => ("ps"@, joined(fields_of(command))),
        Commands::Kill { .. } => ("kill"@, joined(fields_of(command))),
        Commands::Cd { .. } => ("cd"@, joined(fields_of(command))),
        Commands::Ls { .. } => ("ls"@, joined(fields_of(command))),
        Commands::Tree { .. } => ("tree"@, joined(fields_of(command))),
        Commands::GitBranch { .. } => ("git.branch"@, joined(fields_of(command))),
        Commands::GitDiff { .. } => ("git.diff"@, joined(fields_of(command))),
        Commands::GitMerge { .. } => ("git.merge"@, joined(fields_of(command))),
        Commands::GitStash { .. } => ("git.stash"@, joined(fields_of(command))),
        Commands::Net { .. } => ("net"@, joined(fields_of(command))),
        Commands::Think { .. } => ("think"@, joined(fields_of(command))),
        Commands::Confidence { .. } => ("confidence"@, joined(fields_of(command))),
        Commands::Mood { .. } => ("mood"@, joined(fields_of(command))),
        Commands::Split { .. } => ("pane.split"@, joined(fields_of(command))),
        Commands::Focus { .. } => ("pane.focus"@, joined(fields_of(command))),
        Commands::Resize { .. } => ("pane.resize"@, joined(fields_of(command))),
        Commands::Close { .. } => ("pane.close"@, joined(fields_of(command))),
        Commands::History { .. } => ("history"@, joined(fields_of(command))),
        Commands::Bookmark { .. } => ("bookmark"@, joined(fields_of(command))),
        Commands::Jump { .. } => ("jump"@, joined(fields_of(command))),
        Commands::UserJoin { .. } => ("user.join"@, joined(fields_of(command))),
        Commands::UserLeave { .. } => ("user.leave"@, joined(fields_of(command))),
        Commands::UserCursor { .. } => ("user.cursor"@, joined(fields_of(command))),
        Commands::Note { .. } => ("note"@, joined(fields_of(command))),
        Commands::Sound { .. } => ("sound"@, joined(fields_of(command))),
        Commands::AvatarSet { .. } => ("avatar.set"@, joined(fields_of(command))),
        Commands::AvatarGesture { .. } => ("avatar.gesture"@, joined(fields_of(command))),
        Commands::AvatarSpeak { .. } => ("avatar.speak"@, joined(fields_of(command))),
        Commands::AvatarHide => ("avatar.hide"@, joined(fields_of(command))),
        Commands::MacroRecord { .. } => ("macro.record"@, joined(fields_of(command))),
        Commands::MacroStop => ("macro.stop"@, joined(fields_of(command))),
        Commands::MacroPlay { .. } => ("macro.play"@, joined(fields_of(command))),
        Commands::MacroExport { .. } => ("macro.export"@, joined(fields_of(command))),
        Commands::MacroRun { .. } => ("macro.run"@, joined(fields_of(command))),
        Commands::React { .. } => ("react"@, joined(fields_of(command))),
    }
}

/// A payload in the making.
struct Fields {
    text: String,
    count: usize,
    list: Ghost<FieldsView>,
}

impl Fields {
    spec fn wf(&self) -> bool {
        self.text@ == joined(self.list@) && self.count == self.list@.len() && self.count <= 16
    }

    fn new() -> (fields: Fields)
        ensures
            fields.wf(),
            fields.list@ == Seq::<(Seq<char>, Seq<char>)>::empty(),
    {
        let fields = Fields { text: String::new(), count: 0, list: Ghost(Seq::empty()) };
        assert(fields.text@ =~= joined(fields.list@));
        fields
    }

    fn put(&mut self, name: &str, value: &str)
        requires
            old(self).wf(),
            old(self).list@.len() < 16,
        ensures
            final(self).wf(),
            final(self).list@ == old(self).list@.push((name@, value@)),
    {
        let ghost before = self.list@;
        if self.count > 0 {
            self.text.append("&");
        }
        self.text.append(name);
        self.text.append("=");
        self.text.append(value);
        self.count += 1;
        proof {
            let fields = before.push((name@, value@));
            assert(fields.drop_last() =~= before);
            self.list = Ghost(fields);
            assert(self.text@ =~= joined(fields));
        }
    }

    fn put_some(&mut self, name: &str, value: &Option<String>)
        requires
            old(self).wf(),
            old(self).list@.len() < 16,
        ensures
            final(self).wf(),
            final(self).list@ == with_some(old(self).list@, name@, token_view(*value)),
    {
        if let Some(value) = value {
            self.put(name, value);
        }
    }

    fn put_number(&mut self, name: &str, value: u64)
        requires
            old(self).wf(),
            old(self).list@.len() < 16,
        ensures
            final(self).wf(),
            final(self).list@ == with_field(old(self).list@, name@, decimal(value as nat)),
    {
        self.put(name, &decimal_text(value));
    }

    fn put_some_cell(&mut self, name: &str, value: Option<u16>)
        requires
            old(self).wf(),
            old(self).list@.len() < 16,
        ensures
            final(self).wf(),
            final(self).list@ == with_some(old(self).list@, name@, some_decimal(wide16(value))),
    {
        if let Some(value) = value {
            self.put_number(name, value as u64);
        }
    }

    fn put_some_id(&mut self, name: &str, value: Option<u32>)
        requires
            old(self).wf(),
            old(self).list@.len() < 16,
        ensures
            final(self).wf(),
            final(self).list@ == with_some(old(self).list@, name@, some_decimal(wide32(value))),
    {
        if let Some(value) = value {
            self.put_number(name, value as u64);
        }
    }

    fn put_flag(&mut self, name: &str, value: bool)
        requires
            old(self).wf(),
            old(self).list@.len() < 16,
        ensures
            final(self).wf(),
            final(self).list@ == with_field(old(self).list@, name@, flag_text(value)),
    {
        if value {
            self.put(name, "true");
        } else {
            self.put(name, "false");
        }
    }

    fn put_some_flag(&mut self, name: &str, value: Option<bool>)
        requires
            old(self).wf(),
            old(self).list@.len() < 16,
        ensures
            final(self).wf(),
            final(self).list@ == with_some(old(self).list@, name@, some_flag_text(value)),
    {
        if let Some(value) = value {
            self.put_flag(name, value);
        }
    }
}

/// A command's action and payload.
pub fn emit_command(command: &Commands) -> (emitted: (&'static str, String))
    ensures
        (emitted.0@, emitted.1@) == emission(*command),
{
    let mut fields = Fields::new();
    let action: &'static str = match command {
        Commands::ObjectAdd { path, x, y, scale, spin, brightness, remesh } => {
            fields.put("path", path);
            fields.put_number("x", *x as u64);
            fields.put_number("y", *y as u64);
            fields.put("scale", scale);
            fields.put("spin", spin);
            fields.put("brightness", brightness);
            fields.put_flag("remesh", *remesh);
            "object.add"
        },
        Commands::ObjectRemove { id } => {
            fields.put_number("id", *id as u64);
            "object.remove"
        },
        Commands::ObjectClear => "object.clear",
        Commands::ObjectList => "object.list",
        Commands::ObjectUpdate { id, x, y, scale, spin, brightness } => {
            fields.put_number("id", *id as u64);
            fields.put_some_cell("x", *x);
            fields.put_some_cell("y", *y);
            fields.put_some("scale", scale);
            fields.put_some("spin", spin);
            fields.put_some("brightness", brightness);
            "object.update"
        },
        Commands::Mode { mode } => {
            return ("mode", mode.clone());
        },
        Commands::Warp { intensity } => {
            return ("warp", intensity.clone());
        },
        Commands::Flash { color, duration } => {
            fields.put("color", color);
            fields.put("duration", duration);
            "flash"
        },
        Commands::Pulse { intensity, duration } => {
            fields.put("intensity", intensity);
            fields.put("duration", duration);
            "pulse"
        },
        Commands::Cursor { model, spin, bob_speed, bob_amp, brightness, visible } => {
            fields.put_some("model", model);
            fields.put_some("spin", spin);
            fields.put_some("bob_speed", bob_speed);
            fields.put_some("bob_amp", bob_amp);
            fields.put_some("brightness", brightness);
            fields.put_some_flag("visible", *visible);
            "cursor"
        },
        Commands::Reset => "reset",
        Commands::State => "state",
        Commands::Screenshot { path } => {
            fields.put("path", path);
            "screenshot"
        },
        Commands::Chart { kind, x, y, scale, data } => {
            fields.put("kind", kind);
            fields.put_number("x", *x as u64);
            fields.put_number("y", *y as u64);
            fields.put("scale", scale);
            fields.put("data", data);
            "chart"
        },
        Commands::Timeline { x, y, scale, input } => {
            fields.put_number("x", *x as u64);
            fields.put_number("y", *y as u64);
            fields.put("scale", scale);
            fields.put("input", input);
            "timeline"
        },
        Commands::Tint { color, opacity } => {
            fields.put("color", color);
            fields.put("opacity", opacity);
            "tint"
        },
        Commands::Ps { visualize, highlight, color } => {
            fields.put_flag("visualize", *visualize);
            fields.put_some_id("highlight", *highlight);
            fields.put_some("color", color);
            "ps"
        },
        Commands::Kill { pid, effect } => {
            fields.put_number("pid", *pid as u64);
            fields.put("effect", effect);
            "kill"
        },
        Commands::Cd { path, visualize } => {
            fields.put("path", path);
            fields.put_flag("visualize", *visualize);
            "cd"
        },
        Commands::Ls { path, visualize } => {
            fields.put("path", path);
            fields.put_flag("visualize", *visualize);
            "ls"
        },
        Commands::Tree { depth, visualize } => {
            fields.put_number("depth", *depth as u64);
            fields.put_flag("visualize", *visualize);
            "tree"
        },
        Commands::GitBranch { visualize } => {
            fields.put_flag("visualize", *visualize);
            "git.branch"
        },
        Commands::GitDiff { visualize } => {
            fields.put_flag("visualize", *visualize);
            "git.diff"
        },
        Commands::GitMerge { visualize } => {
            fields.put_flag("visualize", *visualize);
            "git.merge"
        },
        Commands::GitStash { visualize } => {
            fields.put_flag("visualize", *visualize);
            "git.stash"
        },
        Commands::Net { visualize, host } => {
            fields.put_flag("visualize", *visualize);
            fields.put_some("host", host);
            "net"
        },
        Commands::Think { state } => {
            fields.put("state", state.as_str());
            "think"
        },
        Commands::Confidence { level } => {
            fields.put("level", level);
            "confidence"
        },
        Commands::Mood { mood } => {
            fields.put("mood", mood.tag());
            "mood"
        },
        Commands::Split { direction, ratio } => {
            fields.put("direction", direction);
            fields.put("ratio", ratio);
            "pane.split"
        },
        Commands::Focus { pane } => {
            fields.put_number("pane", *pane as u64);
            "pane.focus"
        },
        Commands::Resize { pane, width, height } => {
            fields.put_number("pane", *pane as u64);
            fields.put_some_cell("width", *width);
            fields.put_some_cell("height", *height);
            "pane.resize"
        },
        Commands::Close { pane } => {
            fields.put_number("pane", *pane as u64);
            "pane.close"
        },
        Commands::History { last, visualize } => {
            fields.put_number("last", *last as u64);
            fields.put_flag("visualize", *visualize);
            "history"
        },
        Commands::Bookmark { name } => {
            fields.put("name", name);
            "bookmark"
        },
        Commands::Jump { name } => {
            fields.put("name", name);
            "jump"
        },
        Commands::UserJoin { name, color } => {
            fields.put("name", name);
            fields.put("color", color);
            "user.join"
        },
        Commands::UserLeave { name } => {
            fields.put("name", name);
            "user.leave"
        },
        Commands::UserCursor { name, x, y } => {
            fields.put("name", name);
            fields.put_number("x", *x as u64);
            fields.put_number("y", *y as u64);
            "user.cursor"
        },
        Commands::Note { text, x, y, expires } => {
            fields.put("text", text);
            fields.put_number("x", *x as u64);
            fields.put_number("y", *y as u64);
            fields.put("expires", expires);
            "note"
        },
        Commands::Sound { kind, loop_sound } => {
            fields.put("kind", kind.as_str());
            fields.put_flag("loop", *loop_sound);
            "sound"
        },
        Commands::AvatarSet { model, position } => {
            fields.put("model", model);
            fields.put("position", position);
            "avatar.set"
        },
        Commands::AvatarGesture { gesture } => {
            fields.put("gesture", gesture.as_str());
            "avatar.gesture"
        },
        Commands::AvatarSpeak { text } => {
            fields.put("text", text);
            "avatar.speak"
        },
        Commands::AvatarHide => "avatar.hide",
        Commands::MacroRecord { name } => {
            fields.put("name", name);
            "macro.record"
        },
        Commands::MacroStop => "macro.stop",
        Commands::MacroPlay { name } => {
            fields.put("name", name);
            "macro.play"
        },
        Commands::MacroExport { name, to } => {
            fields.put("name", name);
            fields.put("to", to);
            "macro.export"
        },
        Commands::MacroRun { path } => {
            fields.put("path", path);
            "macro.run"
        },
        Commands::React { effect, cpu_high, memory_high, battery_low } => {
            fields.put("effect", effect);
            fields.put_some("cpu_high", cpu_high);
            fields.put_some("memory_high", memory_high);
            fields.put_some("battery_low", battery_low);
            "react"
        },
    };
    (action, fields.text)
}

/// The sequence that carries an action and its payload.
pub open spec fn sequence_text(action: Seq<char>, payload: Seq<char>) -> Seq<char> {
    "\u{1b}]"@ + ";"@ + "777;ratty"@ + ":"@ + action + ";"@ + url_encoded(payload) + "\u{7}"@
}

/// The sequence that carries an action and its payload.
pub fn emit(action: &str, payload: &str) -> (text: String)
    ensures
        text@ == sequence_text(action@, payload@),
{
    let mut text = "\u{1b}]".to_owned();
    text.append(";");
    text.append("777;ratty");
    text.append(":");
    text.append(action);
    text.append(";");
    text.append(&url_encode(payload));
    text.append("\u{7}");
    text
}

/// A sequence with its control characters spelled out.
pub open spec fn spelled(text: Seq<char>) -> Seq<char>
    decreases text.len(),
{
    if text.len() == 0 {
        Seq::empty()
    } else {
        spelled(text.drop_last()) + if text.last() == '\u{1b}' {
            seq!['E', 'S', 'C']
        } else if text.last() == '\u{7}' {
            seq!['B', 'E', 'L']
        } else {
            seq![text.last()]
        }
    }
}

/// What is shown in place of a sequence that is not to be sent.
pub fn dry_run_text(sequence: &str) -> (text: String)
    ensures
        text@ == "[dry-run] "@ + spelled(sequence@),
{
    let chars = chars_of(sequence);
    let mut shown: Vec<char> = Vec::new();
    let mut i: usize = 0;
    proof {
        assert(chars@.take(0) =~= Seq::empty());
        assert(shown@ =~= spelled(chars@.take(0)));
    }
    while i < chars.len()
        invariant
            i <= chars@.len(),
            shown@ == spelled(chars@.take(i as int)),
        decreases chars.len() - i,
    {
        let ghost before = shown@;
        assert(chars@.take(i + 1).drop_last() =~= chars@.take(i as int));
        if chars[i] == '\u{1b}' {
            shown.push('E');
            shown.push('S');
            shown.push('C');
            assert(shown@ =~= before + seq!['E', 'S', 'C']);
        } else if chars[i] == '\u{7}' {
            shown.push('B');
            shown.push('E');
            shown.push('L');
            assert(shown@ =~= before + seq!['B', 'E', 'L']);
        } else {
            shown.push(chars[i]);
            assert(shown@ =~= before + seq![chars@[i as int]]);
        }
        i += 1;
    }
    assert(chars@.take(i as int) =~= chars@);
    let mut text = "[dry-run] ".to_owned();
    text.append(&string_from(shown.as_slice()));
    text
}

/// Whether fields can be told apart once written: no ampersand in them, and no
/// equals sign in a name.
pub open spec fn separable(fields: FieldsView) -> bool {
    forall|i: int|
        0 <= i < fields.len() ==> !(#[trigger] fields[i]).0.contains('&')
            && !fields[i].0.contains('=') && !fields[i].1.contains('&')
}

proof fn lemma_no_mark(s: Seq<char>, mark: char, from: int)
    requires
        0 <= from <= s.len(),
        forall|j: int| from <= j < s.len() ==> #[trigger] s[j] != mark,
    ensures
        first_index(s, mark, from) == s.len(),
    decreases s.len() - from,
{
    if from < s.len() {
        assert(s[from] != mark);
        lemma_no_mark(s, mark, from + 1);
    }
}

proof fn lemma_index_in_front(s: Seq<char>, t: Seq<char>, mark: char, from: int)
    requires
        0 <= from <= s.len(),
    ensures
        first_index(s + seq![mark] + t, mark, from) == first_index(s, mark, from),
        from <= first_index(s, mark, from) <= s.len(),
    decreases s.len() - from,
{
    let all = s + seq![mark] + t;
    if from < s.len() {
        assert(all[from] == s[from]);
        if s[from] != mark {
            lemma_index_in_front(s, t, mark, from + 1);
        }
    } else {
        assert(all[from] == mark);
    }
}

proof fn lemma_pieces_of_joined(s: Seq<char>, t: Seq<char>, mark: char, from: int)
    requires
        0 <= from <= s.len(),
        !t.contains(mark),
    ensures
        pieces(s + seq![mark] + t, mark, from) == pieces(s, mark, from) + seq![t],
    decreases s.len() - from,
{
    let all = s + seq![mark] + t;
    lemma_index_in_front(s, t, mark, from);
    let end = first_index(s, mark, from);
    assert(all.subrange(from, end) =~= s.subrange(from, end));
    if end < s.len() {
        lemma_pieces_of_joined(s, t, mark, end + 1);
        assert(pieces(all, mark, from) =~= pieces(s, mark, from) + seq![t]);
    } else {
        let tail = all.len() - t.len();
        assert forall|j: int| tail <= j < all.len() implies #[trigger] all[j] != mark by {
            assert(all[j] == t[j - tail]);
            assert(t.contains(t[j - tail]));
        }
        lemma_no_mark(all, mark, tail);
        assert(all.subrange(tail, all.len() as int) =~= t);
        assert(pieces(all, mark, end + 1) =~= seq![t]);
        assert(pieces(all, mark, from) =~= pieces(s, mark, from) + seq![t]);
    }
}

/// What a field is written as.
pub open spec fn written(field: (Seq<char>, Seq<char>)) -> Seq<char> {
    field.0 + "="@ + field.1
}

proof fn lemma_written_has_no_mark(field: (Seq<char>, Seq<char>))
    requires
        !field.0.contains('&'),
        !field.1.contains('&'),
    ensures
        !written(field).contains('&'),
{
    reveal_strlit("=");
    assert("="@.len() == 1 && "="@[0] == '=');
    let text = written(field);
    if text.contains('&') {
        let j = choose|j: int| 0 <= j < text.len() && text[j] == '&';
        if j < field.0.len() {
            assert(field.0[j] == '&');
        } else if j > field.0.len() {
            assert(field.1[j - field.0.len() - 1] == '&');
        }
    }
}

proof fn lemma_pairs(fields: FieldsView)
    requires
        separable(fields),
        fields.len() > 0,
    ensures
        pairs_of(joined(fields)) == fields.map_values(|field: (Seq<char>, Seq<char>)| written(field)),
    decreases fields.len(),
{
    reveal_strlit("&");
    assert("&"@ =~= seq!['&']);
    let plain = |field: (Seq<char>, Seq<char>)| written(field);
    let last = fields.last();
    assert(!fields[fields.len() - 1].0.contains('&'));
    lemma_written_has_no_mark(last);
    let own = written(last);
    if fields.len() == 1 {
        assert forall|j: int| 0 <= j < own.len() implies #[trigger] own[j] != '&' by {
            assert(own.contains(own[j]));
        }
        lemma_no_mark(own, '&', 0);
        assert(own.subrange(0, own.len() as int) =~= own);
        assert(pairs_of(joined(fields)) =~= fields.map_values(plain));
    } else {
        let rest = fields.drop_last();
        assert forall|i: int| 0 <= i < rest.len() implies !(#[trigger] rest[i]).0.contains('&')
            && !rest[i].0.contains('=') && !rest[i].1.contains('&') by {
            assert(rest[i] == fields[i]);
        }
        lemma_pairs(rest);
        lemma_pieces_of_joined(joined(rest), own, '&', 0);
        assert(joined(fields) =~= joined(rest) + seq!['&'] + own);
        assert(pairs_of(joined(fields)) =~= fields.map_values(plain));
    }
}

proof fn lemma_written_reads_back(field: (Seq<char>, Seq<char>))
    requires
        !field.0.contains('='),
    ensures
        halves_at(written(field), '=') == Some(field),
{
    reveal_strlit("=");
    assert("="@ =~= seq!['=']);
    let text = written(field);
    assert(text =~= field.0 + seq!['='] + field.1);
    lemma_index_in_front(field.0, field.1, '=', 0);
    assert forall|j: int| 0 <= j < field.0.len() implies #[trigger] field.0[j] != '=' by {
        assert(field.0.contains(field.0[j]));
    }
    lemma_no_mark(field.0, '=', 0);
    assert(text.take(field.0.len() as int) =~= field.0);
    assert(text.skip(field.0.len() as int + 1) =~= field.1);
}

/// The last value that fields have under a name, if any.
pub open spec fn last_value(fields: FieldsView, name: Seq<char>) -> Option<Seq<char>>
    decreases fields.len(),
{
    if fields.len() == 0 {
        None
    } else if fields.last().0 == name {
        Some(fields.last().1)
    } else {
        last_value(fields.drop_last(), name)
    }
}

proof fn lemma_field_found(fields: FieldsView, name: Seq<char>)
    requires
        separable(fields),
    ensures
        field(fields.map_values(|field: (Seq<char>, Seq<char>)| written(field)), name)
            == last_value(fields, name),
    decreases fields.len(),
{
    let plain = |field: (Seq<char>, Seq<char>)| written(field);
    let pairs = fields.map_values(plain);
    if fields.len() > 0 {
        assert(!fields[fields.len() - 1].0.contains('='));
        lemma_written_reads_back(fields.last());
        let rest = fields.drop_last();
        assert(pairs.drop_last() =~= rest.map_values(plain));
        assert forall|i: int| 0 <= i < rest.len() implies !(#[trigger] rest[i]).0.contains('&')
            && !rest[i].0.contains('=') && !rest[i].1.contains('&') by {
            assert(rest[i] == fields[i]);
        }
        lemma_field_found(rest, name);
    }
}

/// A payload's fields read back: a name gives the last value that was written
/// under it, and none where none was, as long as the fields can be told apart.
pub proof fn law_fields_read_back(fields: FieldsView, name: Seq<char>)
    requires
        separable(fields),
    ensures
        field(pairs_of(joined(fields)), name) == last_value(fields, name),
{
    if fields.len() == 0 {
        let blank = Seq::<char>::empty();
        lemma_no_mark(blank, '&', 0);
        lemma_no_mark(blank, '=', 0);
        assert(blank.subrange(0, 0) =~= blank);
        assert(pairs_of(blank) =~= seq![blank]);
        let pairs = seq![blank];
        assert(pairs.drop_last() =~= Seq::<Seq<char>>::empty());
        assert(pairs.last() == blank && halves_at(blank, '=') is None);
        assert(field(pairs.drop_last(), name) is None);
        assert(field(pairs, name) is None);
        assert(joined(fields) == blank);
    } else {
        lemma_pairs(fields);
        lemma_field_found(fields, name);
    }
}

/// A field as it is written behind another: an ampersand, the name, an equals
/// sign and the value.
pub open spec fn part(name: Seq<char>, value: Seq<char>) -> Seq<char> {
    seq!['&'] + name + seq!['='] + value
}

/// A field as it is written behind another, where there is a value.
pub open spec fn some_part(name: Seq<char>, value: Option<Seq<char>>) -> Seq<char> {
    match value {
        Some(value) => part(name, value),
        None => Seq::empty(),
    }
}

/// Fields written one behind the other, each with an ampersand in front.
pub open spec fn parts(fields: FieldsView) -> Seq<char>
    decreases fields.len(),
{
    if fields.len() == 0 {
        Seq::empty()
    } else {
        parts(fields.drop_last()) + part(fields.last().0, fields.last().1)
    }
}

proof fn lemma_parts(fields: FieldsView)
    ensures
        fields.len() > 0 ==> seq!['&'] + joined(fields) == parts(fields),
        fields.len() == 0 ==> joined(fields).len() == 0,
    decreases fields.len(),
{
    reveal_strlit("&");
    reveal_strlit("=");
    assert("&"@ =~= seq!['&']);
    assert("="@ =~= seq!['=']);
    if fields.len() > 0 {
        let rest = fields.drop_last();
        lemma_parts(rest);
        if fields.len() == 1 {
            assert(parts(rest) =~= Seq::empty());
            assert(seq!['&'] + joined(fields) =~= parts(fields));
        } else {
            assert(seq!['&'] + joined(fields) =~= (seq!['&'] + joined(rest)) + part(
                fields.last().0,
                fields.last().1,
            ));
        }
    }
}

proof fn lemma_part(fields: FieldsView, name: Seq<char>, value: Seq<char>)
    ensures
        parts(with_field(fields, name, value)) == parts(fields) + part(name, value),
{
    assert(with_field(fields, name, value).drop_last() =~= fields);
}

proof fn lemma_some_part(fields: FieldsView, name: Seq<char>, value: Option<Seq<char>>)
    ensures
        parts(with_some(fields, name, value)) == parts(fields) + some_part(name, value),
{
    match value {
        Some(value) => lemma_part(fields, name, value),
        None => {
            assert(parts(fields) + Seq::<char>::empty() =~= parts(fields));
        },
    }
}

/// What a number, a yes or no and their absence are written as.
pub proof fn law_how_values_are_written(n: u32, flag: bool)
    ensures
        flag_text(true) == seq!['t', 'r', 'u', 'e'],
        flag_text(false) == seq!['f', 'a', 'l', 's', 'e'],
        some_flag_text(None) is None,
        some_flag_text(Some(flag)) == Some(flag_text(flag)),
        some_decimal(wide32(Some(n))) == Some(decimal(n as nat)),
        some_decimal(wide32(None)) is None,
        n <= 65535 ==> some_decimal(wide16(Some(n as u16))) == Some(decimal(n as nat)),
        some_decimal(wide16(None)) is None,
{
    reveal_strlit("true");
    reveal_strlit("false");
    assert("true"@ =~= seq!['t', 'r', 'u', 'e']);
    assert("false"@ =~= seq!['f', 'a', 'l', 's', 'e']);
}

/// The words of the arguments.
pub proof fn law_words_of_arguments(think: ThinkArg, sound: SoundKind, gesture: GestureArg)
    ensures
        think is Start ==> think.word()@ == "start"@,
        think is End ==> think.word()@ == "end"@,
        think is Toggle ==> think.word()@ == "toggle"@,
        sound is Click ==> sound.word()@ == "click"@,
        sound is Error ==> sound.word()@ == "error"@,
        sound is Success ==> sound.word()@ == "success"@,
        sound is Warning ==> sound.word()@ == "warning"@,
        sound is Ambient ==> sound.word()@ == "ambient"@,
        sound is Notify ==> sound.word()@ == "notify"@,
        gesture is Point ==> gesture.word()@ == "point"@,
        gesture is Think ==> gesture.word()@ == "think"@,
        gesture is Celebrate ==> gesture.word()@ == "celebrate"@,
        gesture is Wave ==> gesture.word()@ == "wave"@,
        gesture is Nod ==> gesture.word()@ == "nod"@,
        gesture is Shake ==> gesture.word()@ == "shake"@,
{
}

/// What is shown in place of a sequence: every character as it is, but for an
/// escape and a bell, which are spelled out.
pub proof fn law_control_characters_are_spelled_out(text: Seq<char>, c: char)
    ensures
        spelled(Seq::empty()).len() == 0,
        c == '\u{1b}' ==> spelled(text.push(c)) == spelled(text) + seq!['E', 'S', 'C'],
        c == '\u{7}' ==> spelled(text.push(c)) == spelled(text) + seq!['B', 'E', 'L'],
        c != '\u{1b}' && c != '\u{7}' ==> spelled(text.push(c)) == spelled(text) + seq![c],
{
    assert(text.push(c).drop_last() =~= text);
}

/// The actions of the commands without fields, and of those whose payload is
/// their one argument.
pub proof fn law_plain_commands_are_written(command: Commands)
    ensures
        command is ObjectClear ==> emission(command).0 == "object.clear"@,
        command is ObjectList ==> emission(command).0 == "object.list"@,
        command is Reset ==> emission(command).0 == "reset"@,
        command is State ==> emission(command).0 == "state"@,
        command is AvatarHide ==> emission(command).0 == "avatar.hide"@,
        command is MacroStop ==> emission(command).0 == "macro.stop"@,
        command is ObjectClear || command is ObjectList || command is Reset || command is State
            || command is AvatarHide || command is MacroStop ==> emission(command).1.len() == 0,
        command matches Commands::Mode { mode } ==> emission(command) == ("mode"@, mode@),
        command matches Commands::Warp { intensity } ==> emission(command) == (
            "warp"@,
            intensity@,
        ),
{
    lemma_parts(fields_of(command));
}

/// What `object.add` is written as.
pub proof fn law_object_add_is_written(command: Commands)
    requires
        command is ObjectAdd,
    ensures
        emission(command).0 == "object.add"@,
        match command {
            Commands::ObjectAdd { path, x, y, scale, spin, brightness, remesh } => {
                &&& seq!['&'] + emission(command).1 == part("path"@, path@) + part("x"@, decimal(x as nat)) + part("y"@, decimal(y as nat)) + part("scale"@, scale@) + part("spin"@, spin@) + part("brightness"@, brightness@) + part("remesh"@, flag_text(remesh))
            },
            _ => true,
        },
{
    match command {
        Commands::ObjectAdd { path, x, y, scale, spin, brightness, remesh } => {
            let f0: FieldsView = Seq::empty();
            let f1 = with_field(f0, "path"@, path@);
            lemma_part(f0, "path"@, path@);
            let f2 = with_field(f1, "x"@, decimal(x as nat));
            lemma_part(f1, "x"@, decimal(x as nat));
            let f3 = with_field(f2, "y"@, decimal(y as nat));
            lemma_part(f2, "y"@, decimal(y as nat));
            let f4 = with_field(f3, "scale"@, scale@);
            lemma_part(f3, "scale"@, scale@);
            let f5 = with_field(f4, "spin"@, spin@);
            lemma_part(f4, "spin"@, spin@);
            let f6 = with_field(f5, "brightness"@, brightness@);
            lemma_part(f5, "brightness"@, brightness@);
            let f7 = with_field(f6, "remesh"@, flag_text(remesh));
            lemma_part(f6, "remesh"@, flag_text(remesh));
            assert(f7 == fields_of(command));
            assert(parts(f0) =~= Seq::empty());
            assert(parts(f7) =~= part("path"@, path@) + part("x"@, decimal(x as nat)) + part("y"@, decimal(y as nat)) + part("scale"@, scale@) + part("spin"@, spin@) + part("brightness"@, brightness@) + part("remesh"@, flag_text(remesh)));
            lemma_parts(f7);
        },
        _ => {},
    }
}

/// What `object.remove` is written as.
pub proof fn law_object_remove_is_written(command: Commands)
    requires
        command is ObjectRemove,
    ensures
        emission(command).0 == "object.remove"@,
        match command {
            Commands::ObjectRemove { id } => {
                &&& seq!['&'] + emission(command).1 == part("id"@, decimal(id as nat))
            },
            _ => true,
        },
{
    match command {
        Commands::ObjectRemove { id } => {
            let f0: FieldsView = Seq::empty();
            let f1 = with_field(f0, "id"@, decimal(id as nat));
            lemma_part(f0, "id"@, decimal(id as nat));
            assert(f1 == fields_of(command));
            assert(parts(f0) =~= Seq::empty());
            assert(parts(f1) =~= part("id"@, decimal(id as nat)));
            lemma_parts(f1);
        },
        _ => {},
    }
}

/// What `object.update` is written as.
pub proof fn law_object_update_is_written(command: Commands)
    requires
        command is ObjectUpdate,
    ensures
        emission(command).0 == "object.update"@,
        match command {
            Commands::ObjectUpdate { id, x, y, scale, spin, brightness } => {
                &&& seq!['&'] + emission(command).1 == part("id"@, decimal(id as nat)) + some_part("x"@, some_decimal(wide16(x))) + some_part("y"@, some_decimal(wide16(y))) + some_part("scale"@, token_view(scale)) + some_part("spin"@, token_view(spin)) + some_part("brightness"@, token_view(brightness))
            },
            _ => true,
        },
{
    match command {
        Commands::ObjectUpdate { id, x, y, scale, spin, brightness } => {
            let f0: FieldsView = Seq::empty();
            let f1 = with_field(f0, "id"@, decimal(id as nat));
            lemma_part(f0, "id"@, decimal(id as nat));
            let f2 = with_some(f1, "x"@, some_decimal(wide16(x)));
            lemma_some_part(f1, "x"@, some_decimal(wide16(x)));
            let f3 = with_some(f2, "y"@, some_decimal(wide16(y)));
            lemma_some_part(f2, "y"@, some_decimal(wide16(y)));
            let f4 = with_some(f3, "scale"@, token_view(scale));
            lemma_some_part(f3, "scale"@, token_view(scale));
            let f5 = with_some(f4, "spin"@, token_view(spin));
            lemma_some_part(f4, "spin"@, token_view(spin));
            let f6 = with_some(f5, "brightness"@, token_view(brightness));
            lemma_some_part(f5, "brightness"@, token_view(brightness));
            assert(f6 == fields_of(command));
            assert(parts(f0) =~= Seq::empty());
            assert(parts(f6) =~= part("id"@, decimal(id as nat)) + some_part("x"@, some_decimal(wide16(x))) + some_part("y"@, some_decimal(wide16(y))) + some_part("scale"@, token_view(scale)) + some_part("spin"@, token_view(spin)) + some_part("brightness"@, token_view(brightness)));
            lemma_parts(f6);
        },
        _ => {},
    }
}

/// What `flash` is written as.
pub proof fn law_flash_is_written(command: Commands)
    requires
        command is Flash,
    ensures
        emission(command).0 == "flash"@,
        match command {
            Commands::Flash { color, duration } => {
                &&& seq!['&'] + emission(command).1 == part("color"@, color@) + part("duration"@, duration@)
            },
            _ => true,
        },
{
    match command {
        Commands::Flash { color, duration } => {
            let f0: FieldsView = Seq::empty();
            let f1 = with_field(f0, "color"@, color@);
            lemma_part(f0, "color"@, color@);
            let f2 = with_field(f1, "duration"@, duration@);
            lemma_part(f1, "duration"@, duration@);
            assert(f2 == fields_of(command));
            assert(parts(f0) =~= Seq::empty());
            assert(parts(f2) =~= part("color"@, color@) + part("duration"@, duration@));
            lemma_parts(f2);
        },
        _ => {},
    }
}

/// What `pulse` is written as.
pub proof fn law_pulse_is_written(command: Commands)
    requires
        command is Pulse,
    ensures
        emission(command).0 == "pulse"@,
        match command {
            Commands::Pulse { intensity, duration } => {
                &&& seq!['&'] + emission(command).1 == part("intensity"@, intensity@) + part("duration"@, duration@)
            },
            _ => true,
        },
{
    match command {
        Commands::Pulse { intensity, duration } => {
            let f0: FieldsView = Seq::empty();
            let f1 = with_field(f0, "intensity"@, intensity@);
            lemma_part(f0, "intensity"@, intensity@);
            let f2 = with_field(f1, "duration"@, duration@);
            lemma_part(f1, "duration"@, duration@);
            assert(f2 == fields_of(command));
            assert(parts(f0) =~= Seq::empty());
            assert(parts(f2) =~= part("intensity"@, intensity@) + part("duration"@, duration@));
            lemma_parts(f2);
        },
        _ => {},
    }
}

/// What `cursor` is written as.
pub proof fn law_cursor_is_written(command: Commands)
    requires
        command is Cursor,
    ensures
        emission(command).0 == "cursor"@,
        match command {
            Commands::Cursor { model, spin, bob_speed, bob_amp, brightness, visible } => {
                &&& (some_part("model"@, token_view(model)) + some_part("spin"@, token_view(spin)) + some_part("bob_speed"@, token_view(bob_speed)) + some_part("bob_amp"@, token_view(bob_amp)) + some_part("brightness"@, token_view(brightness)) + some_part("visible"@, some_flag_text(visible))).len() > 0 ==> seq!['&'] + emission(command).1 == some_part("model"@, token_view(model)) + some_part("spin"@, token_view(spin)) + some_part("bob_speed"@, token_view(bob_speed)) + some_part("bob_amp"@, token_view(bob_amp)) + some_part("brightness"@, token_view(brightness)) + some_part("visible"@, some_flag_text(visible))
                &&& (some_part("model"@, token_view(model)) + some_part("spin"@, token_view(spin)) + some_part("bob_speed"@, token_view(bob_speed)) + some_part("bob_amp"@, token_view(bob_amp)) + some_part("brightness"@, token_view(brightness)) + some_part("visible"@, some_flag_text(visible))).len() == 0 ==> emission(command).1.len() == 0
            },
            _ => true,
        },
{
    match command {
        Commands::Cursor { model, spin, bob_speed, bob_amp, brightness, visible } => {
            let f0: FieldsView = Seq::empty();
            let f1 = with_some(f0, "model"@, token_view(model));
            lemma_some_part(f0, "model"@, token_view(model));
            let f2 = with_some(f1, "spin"@, token_view(spin));
            lemma_some_part(f1, "spin"@, token_view(spin));
            let f3 = with_some(f2, "bob_speed"@, token_view(bob_speed));
            lemma_some_part(f2, "bob_speed"@, token_view(bob_speed));
            let f4 = with_some(f3, "bob_amp"@, token_view(bob_amp));
            lemma_some_part(f3, "bob_amp"@, token_view(bob_amp));
            let f5 = with_some(f4, "brightness"@, token_view(brightness));
            lemma_some_part(f4, "brightness"@, token_view(brightness));
            let f6 = with_some(f5, "visible"@, some_flag_text(visible));
            lemma_some_part(f5, "visible"@, some_flag_text(visible));
            assert(f6 == fields_of(command));
            assert(parts(f0) =~= Seq::empty());
            assert(parts(f6) =~= some_part("model"@, token_view(model)) + some_part("spin"@, token_view(spin)) + some_part("bob_speed"@, token_view(bob_speed)) + some_part("bob_amp"@, token_view(bob_amp)) + some_part("brightness"@, token_view(brightness)) + some_part("visible"@, some_flag_text(visible)));
            lemma_parts(f6);
        },
        _ => {},
    }
}

/// What `screenshot` is written as.
pub proof fn law_screenshot_is_written(command: Commands)
    requires
        command is Screenshot,
    ensures
        emission(command).0 == "screenshot"@,
        match command {
            Commands::Screenshot { path } => {
                &&& seq!['&'] + emission(command).1 == part("path"@, path@)
            },
            _ => true,
        },
{
    match command {
        Commands::Screenshot { path } => {
            let f0: FieldsView = Seq::empty();
            let f1 = with_field(f0, "path"@, path@);
            lemma_part(f0, "path"@, path@);
            assert(f1 == fields_of(command));
            assert(parts(f0) =~= Seq::empty());
            assert(parts(f1) =~= part("path"@, path@));
            lemma_parts(f1);
        },
        _ => {},
    }
}

/// What `chart` is written as.
pub proof fn law_chart_is_written(command: Commands)
    requires
        command is Chart,
    ensures
        emission(command).0 == "chart"@,
        match command {
            Commands::Chart { kind, x, y, scale, data } => {
                &&& seq!['&'] + emission(command).1 == part("kind"@, kind@) + part("x"@, decimal(x as nat)) + part("y"@, decimal(y as nat)) + part("scale"@, scale@) + part("data"@, data@)
            },
            _ => true,
        },
{
    match command {
        Commands::Chart { kind, x, y, scale, data } => {
            let f0: FieldsView = Seq::empty();
            let f1 = with_field(f0, "kind"@, kind@);
            lemma_part(f0, "kind"@, kind@);
            let f2 = with_field(f1, "x"@, decimal(x as nat));
            lemma_part(f1, "x"@, decimal(x as nat));
            let f3 = with_field(f2, "y"@, decimal(y as nat));
            lemma_part(f2, "y"@, decimal(y as nat));
            let f4 = with_field(f3, "scale"@, scale@);
            lemma_part(f3, "scale"@, scale@);
            let f5 = with_field(f4, "data"@, data@);
            lemma_part(f4, "data"@, data@);
            assert(f5 == fields_of(command));
            assert(parts(f0) =~= Seq::empty());
            assert(parts(f5) =~= part("kind"@, kind@) + part("x"@, decimal(x as nat)) + part("y"@, decimal(y as nat)) + part("scale"@, scale@) + part("data"@, data@));
            lemma_parts(f5);
        },
        _ => {},
    }
}

/// What `timeline` is written as.
pub proof fn law_timeline_is_written(command: Commands)
    requires
        command is Timeline,
    ensures
        emission(command).0 == "timeline"@,
        match command {
            Commands::Timeline { x, y, scale, input } => {
                &&& seq!['&'] + emission(command).1 == part("x"@, decimal(x as nat)) + part("y"@, decimal(y as nat)) + part("scale"@, scale@) + part("input"@, input@)
            },
            _ => true,
        },
{
    match command {
        Commands::Timeline { x, y, scale, input } => {
            let f0: FieldsView = Seq::empty();
            let f1 = with_field(f0, "x"@, decimal(x as nat));
            lemma_part(f0, "x"@, decimal(x as nat));
            let f2 = with_field(f1, "y"@, decimal(y as nat));
            lemma_part(f1, "y"@, decimal(y as nat));
            let f3 = with_field(f2, "scale"@, scale@);
            lemma_part(f2, "scale"@, scale@);
            let f4 = with_field(f3, "input"@, input@);
            lemma_part(f3, "input"@, input@);
            assert(f4 == fields_of(command));
            assert(parts(f0) =~= Seq::empty());
            assert(parts(f4) =~= part("x"@, decimal(x as nat)) + part("y"@, decimal(y as nat)) + part("scale"@, scale@) + part("input"@, input@));
            lemma_parts(f4);
        },
        _ => {},
    }
}

/// What `tint` is written as.
pub proof fn law_tint_is_written(command: Commands)
    requires
        command is Tint,
    ensures
        emission(command).0 == "tint"@,
        match command {
            Commands::Tint { color, opacity } => {
                &&& seq!['&'] + emission(command).1 == part("color"@, color@) + part("opacity"@, opacity@)
            },
            _ => true,
        },
{
    match command {
        Commands::Tint { color, opacity } => {
            let f0: FieldsView = Seq::empty();
            let f1 = with_field(f0, "color"@, color@);
            lemma_part(f0, "color"@, color@);
            let f2 = with_field(f1, "opacity"@, opacity@);
            lemma_part(f1, "opacity"@, opacity@);
            assert(f2 == fields_of(command));
            assert(parts(f0) =~= Seq::empty());
            assert(parts(f2) =~= part("color"@, color@) + part("opacity"@, opacity@));
            lemma_parts(f2);
        },
        _ => {},
    }
}

/// What `ps` is written as.
pub proof fn law_ps_is_written(command: Commands)
    requires
        command is Ps,
    ensures
        emission(command).0 == "ps"@,
        match command {
            Commands::Ps { visualize, highlight, color } => {
                &&& seq!['&'] + emission(command).1 == part("visualize"@, flag_text(visualize)) + some_part("highlight"@, some_decimal(wide32(highlight))) + some_part("color"@, token_view(color))
            },
            _ => true,
        },
{
    match command {
        Commands::Ps { visualize, highlight, color } => {
            let f0: FieldsView = Seq::empty();
            let f1 = with_field(f0, "visualize"@, flag_text(visualize));
            lemma_part(f0, "visualize"@, flag_text(visualize));
            let f2 = with_some(f1, "highlight"@, some_decimal(wide32(highlight)));
            lemma_some_part(f1, "highlight"@, some_decimal(wide32(highlight)));
            let f3 = with_some(f2, "color"@, token_view(color));
            lemma_some_part(f2, "color"@, token_view(color));
            assert(f3 == fields_of(command));
            assert(parts(f0) =~= Seq::empty());
            assert(parts(f3) =~= part("visualize"@, flag_text(visualize)) + some_part("highlight"@, some_decimal(wide32(highlight))) + some_part("color"@, token_view(color)));
            lemma_parts(f3);
        },
        _ => {},
    }
}

/// What `kill` is written as.
pub proof fn law_kill_is_written(command: Commands)
    requires
        command is Kill,
    ensures
        emission(command).0 == "kill"@,
        match command {
            Commands::Kill { pid, effect } => {
                &&& seq!['&'] + emission(command).1 == part("pid"@, decimal(pid as nat)) + part("effect"@, effect@)
            },
            _ => true,
        },
{
    match command {
        Commands::Kill { pid, effect } => {
            let f0: FieldsView = Seq::empty();
            let f1 = with_field(f0, "pid"@, decimal(pid as nat));
            lemma_part(f0, "pid"@, decimal(pid as nat));
            let f2 = with_field(f1, "effect"@, effect@);
            lemma_part(f1, "effect"@, effect@);
            assert(f2 == fields_of(command));
            assert(parts(f0) =~= Seq::empty());
            assert(parts(f2) =~= part("pid"@, decimal(pid as nat)) + part("effect"@, effect@));
            lemma_parts(f2);
        },
        _ => {},
    }
}

/// What `cd` is written as.
pub proof fn law_cd_is_written(command: Commands)
    requires
        command is Cd,
    ensures
        emission(command).0 == "cd"@,
        match command {
            Commands::Cd { path, visualize } => {
                &&& seq!['&'] + emission(command).1 == part("path"@, path@) + part("visualize"@, flag_text(visualize))
            },
            _ => true,
        },
{
    match command {
        Commands::Cd { path, visualize } => {
            let f0: FieldsView = Seq::empty();
            let f1 = with_field(f0, "path"@, path@);
            lemma_part(f0, "path"@, path@);
            let f2 = with_field(f1, "visualize"@, flag_text(visualize));
            lemma_part(f1, "visualize"@, flag_text(visualize));
            assert(f2 == fields_of(command));
            assert(parts(f0) =~= Seq::empty());
            assert(parts(f2) =~= part("path"@, path@) + part("visualize"@, flag_text(visualize)));
            lemma_parts(f2);
        },
        _ => {},
    }
}

/// What `ls` is written as.
pub proof fn law_ls_is_written(command: Commands)
    requires
        command is Ls,
    ensures
        emission(command).0 == "ls"@,
        match command {
            Commands::Ls { path, visualize } => {
                &&& seq!['&'] + emission(command).1 == part("path"@, path@) + part("visualize"@, flag_text(visualize))
            },
            _ => true,
        },
{
    match command {
        Commands::Ls { path, visualize } => {
            let f0: FieldsView = Seq::empty();
            let f1 = with_field(f0, "path"@, path@);
            lemma_part(f0, "path"@, path@);
            let f2 = with_field(f1, "visualize"@, flag_text(visualize));
            lemma_part(f1, "visualize"@, flag_text(visualize));
            assert(f2 == fields_of(command));
            assert(parts(f0) =~= Seq::empty());
            assert(parts(f2) =~= part("path"@, path@) + part("visualize"@, flag_text(visualize)));
            lemma_parts(f2);
        },
        _ => {},
    }
}

/// What `tree` is written as.
pub proof fn law_tree_is_written(command: Commands)
    requires
        command is Tree,
    ensures
        emission(command).0 == "tree"@,
        match command {
            Commands::Tree { depth, visualize } => {
                &&& seq!['&'] + emission(command).1 == part("depth"@, decimal(depth as nat)) + part("visualize"@, flag_text(visualize))
            },
            _ => true,
        },
{
    match command {
        Commands::Tree { depth, visualize } => {
            let f0: FieldsView = Seq::empty();
            let f1 = with_field(f0, "depth"@, decimal(depth as nat));
            lemma_part(f0, "depth"@, decimal(depth as nat));
            let f2 = with_field(f1, "visualize"@, flag_text(visualize));
            lemma_part(f1, "visualize"@, flag_text(visualize));
            assert(f2 == fields_of(command));
            assert(parts(f0) =~= Seq::empty());
            assert(parts(f2) =~= part("depth"@, decimal(depth as nat)) + part("visualize"@, flag_text(visualize)));
            lemma_parts(f2);
        },
        _ => {},
    }
}

/// What `git.branch` is written as.
pub proof fn law_git_branch_is_written(command: Commands)
    requires
        command is GitBranch,
    ensures
        emission(command).0 == "git.branch"@,
        match command {
            Commands::GitBranch { visualize } => {
                &&& seq!['&'] + emission(command).1 == part("visualize"@, flag_text(visualize))
            },
            _ => true,
        },
{
    match command {
        Commands::GitBranch { visualize } => {
            let f0: FieldsView = Seq::empty();
            let f1 = with_field(f0, "visualize"@, flag_text(visualize));
            lemma_part(f0, "visualize"@, flag_text(visualize));
            assert(f1 == fields_of(command));
            assert(parts(f0) =~= Seq::empty());
            assert(parts(f1) =~= part("visualize"@, flag_text(visualize)));
            lemma_parts(f1);
        },
        _ => {},
    }
}

/// What `git.diff` is written as.
pub proof fn law_git_diff_is_written(command: Commands)
    requires
        command is GitDiff,
    ensures
        emission(command).0 == "git.diff"@,
        match command {
            Commands::GitDiff { visualize } => {
                &&& seq!['&'] + emission(command).1 == part("visualize"@, flag_text(visualize))
            },
            _ => true,
        },
{
    match command {
        Commands::GitDiff { visualize } => {
            let f0: FieldsView = Seq::empty();
            let f1 = with_field(f0, "visualize"@, flag_text(visualize));
            lemma_part(f0, "visualize"@, flag_text(visualize));
            assert(f1 == fields_of(command));
            assert(parts(f0) =~= Seq::empty());
            assert(parts(f1) =~= part("visualize"@, flag_text(visualize)));
            lemma_parts(f1);
        },
        _ => {},
    }
}

/// What `git.merge` is written as.
pub proof fn law_git_merge_is_written(command: Commands)
    requires
        command is GitMerge,
    ensures
        emission(command).0 == "git.merge"@,
        match command {
            Commands::GitMerge { visualize } => {
                &&& seq!['&'] + emission(command).1 == part("visualize"@, flag_text(visualize))
            },
            _ => true,
        },
{
    match command {
        Commands::GitMerge { visualize } => {
            let f0: FieldsView = Seq::empty();
            let f1 = with_field(f0, "visualize"@, flag_text(visualize));
            lemma_part(f0, "visualize"@, flag_text(visualize));
            assert(f1 == fields_of(command));
            assert(parts(f0) =~= Seq::empty());
            assert(parts(f1) =~= part("visualize"@, flag_text(visualize)));
            lemma_parts(f1);
        },
        _ => {},
    }
}

/// What `git.stash` is written as.
pub proof fn law_git_stash_is_written(command: Commands)
    requires
        command is GitStash,
    ensures
        emission(command).0 == "git.stash"@,
        match command {
            Commands::GitStash { visualize } => {
                &&& seq!['&'] + emission(command).1 == part("visualize"@, flag_text(visualize))
            },
            _ => true,
        },
{
    match command {
        Commands::GitStash { visualize } => {
            let f0: FieldsView = Seq::empty();
            let f1 = with_field(f0, "visualize"@, flag_text(visualize));
            lemma_part(f0, "visualize"@, flag_text(visualize));
            assert(f1 == fields_of(command));
            assert(parts(f0) =~= Seq::empty());
            assert(parts(f1) =~= part("visualize"@, flag_text(visualize)));
            lemma_parts(f1);
        },
        _ => {},
    }
}

/// What `net` is written as.
pub proof fn law_net_is_written(command: Commands)
    requires
        command is Net,
    ensures
        emission(command).0 == "net"@,
        match command {
            Commands::Net { visualize, host } => {
                &&& seq!['&'] + emission(command).1 == part("visualize"@, flag_text(visualize)) + some_part("host"@, token_view(host))
            },
            _ => true,
        },
{
    match command {
        Commands::Net { visualize, host } => {
            let f0: FieldsView = Seq::empty();
            let f1 = with_field(f0, "visualize"@, flag_text(visualize));
            lemma_part(f0, "visualize"@, flag_text(visualize));
            let f2 = with_some(f1, "host"@, token_view(host));
            lemma_some_part(f1, "host"@, token_view(host));
            assert(f2 == fields_of(command));
            assert(parts(f0) =~= Seq::empty());
            assert(parts(f2) =~= part("visualize"@, flag_text(visualize)) + some_part("host"@, token_view(host)));
            lemma_parts(f2);
        },
        _ => {},
    }
}

/// What `think` is written as.
pub proof fn law_think_is_written(command: Commands)
    requires
        command is Think,
    ensures
        emission(command).0 == "think"@,
        match command {
            Commands::Think { state } => {
                &&& seq!['&'] + emission(command).1 == part("state"@, state.word()@)
            },
            _ => true,
        },
{
    match command {
        Commands::Think { state } => {
            let f0: FieldsView = Seq::empty();
            let f1 = with_field(f0, "state"@, state.word()@);
            lemma_part(f0, "state"@, state.word()@);
            assert(f1 == fields_of(command));
            assert(parts(f0) =~= Seq::empty());
            assert(parts(f1) =~= part("state"@, state.word()@));
            lemma_parts(f1);
        },
        _ => {},
    }
}

/// What `confidence` is written as.
pub proof fn law_confidence_is_written(command: Commands)
    requires
        command is Confidence,
    ensures
        emission(command).0 == "confidence"@,
        match command {
            Commands::Confidence { level } => {
                &&& seq!['&'] + emission(command).1 == part("level"@, level@)
            },
            _ => true,
        },
{
    match command {
        Commands::Confidence { level } => {
            let f0: FieldsView = Seq::empty();
            let f1 = with_field(f0, "level"@, level@);
            lemma_part(f0, "level"@, level@);
            assert(f1 == fields_of(command));
            assert(parts(f0) =~= Seq::empty());
            assert(parts(f1) =~= part("level"@, level@));
            lemma_parts(f1);
        },
        _ => {},
    }
}

/// What `mood` is written as.
pub proof fn law_mood_is_written(command: Commands)
    requires
        command is Mood,
    ensures
        emission(command).0 == "mood"@,
        match command {
            Commands::Mood { mood } => {
                &&& seq!['&'] + emission(command).1 == part("mood"@, mood.name()@)
            },
            _ => true,
        },
{
    match command {
        Commands::Mood { mood } => {
            let f0: FieldsView = Seq::empty();
            let f1 = with_field(f0, "mood"@, mood.name()@);
            lemma_part(f0, "mood"@, mood.name()@);
            assert(f1 == fields_of(command));
            assert(parts(f0) =~= Seq::empty());
            assert(parts(f1) =~= part("mood"@, mood.name()@));
            lemma_parts(f1);
        },
        _ => {},
    }
}

/// What `pane.split` is written as.
pub proof fn law_split_is_written(command: Commands)
    requires
        command is Split,
    ensures
        emission(command).0 == "pane.split"@,
        match command {
            Commands::Split { direction, ratio } => {
                &&& seq!['&'] + emission(command).1 == part("direction"@, direction@) + part("ratio"@, ratio@)
            },
            _ => true,
        },
{
    match command {
        Commands::Split { direction, ratio } => {
            let f0: FieldsView = Seq::empty();
            let f1 = with_field(f0, "direction"@, direction@);
            lemma_part(f0, "direction"@, direction@);
            let f2 = with_field(f1, "ratio"@, ratio@);
            lemma_part(f1, "ratio"@, ratio@);
            assert(f2 == fields_of(command));
            assert(parts(f0) =~= Seq::empty());
            assert(parts(f2) =~= part("direction"@, direction@) + part("ratio"@, ratio@));
            lemma_parts(f2);
        },
        _ => {},
    }
}

/// What `pane.focus` is written as.
pub proof fn law_focus_is_written(command: Commands)
    requires
        command is Focus,
    ensures
        emission(command).0 == "pane.focus"@,
        match command {
            Commands::Focus { pane } => {
                &&& seq!['&'] + emission(command).1 == part("pane"@, decimal(pane as nat))
            },
            _ => true,
        },
{
    match command {
        Commands::Focus { pane } => {
            let f0: FieldsView = Seq::empty();
            let f1 = with_field(f0, "pane"@, decimal(pane as nat));
            lemma_part(f0, "pane"@, decimal(pane as nat));
            assert(f1 == fields_of(command));
            assert(parts(f0) =~= Seq::empty());
            assert(parts(f1) =~= part("pane"@, decimal(pane as nat)));
            lemma_parts(f1);
        },
        _ => {},
    }
}

/// What `pane.resize` is written as.
pub proof fn law_resize_is_written(command: Commands)
    requires
        command is Resize,
    ensures
        emission(command).0 == "pane.resize"@,
        match command {
            Commands::Resize { pane, width, height } => {
                &&& seq!['&'] + emission(command).1 == part("pane"@, decimal(pane as nat)) + some_part("width"@, some_decimal(wide16(width))) + some_part("height"@, some_decimal(wide16(height)))
            },
            _ => true,
        },
{
    match command {
        Commands::Resize { pane, width, height } => {
            let f0: FieldsView = Seq::empty();
            let f1 = with_field(f0, "pane"@, decimal(pane as nat));
            lemma_part(f0, "pane"@, decimal(pane as nat));
            let f2 = with_some(f1, "width"@, some_decimal(wide16(width)));
            lemma_some_part(f1, "width"@, some_decimal(wide16(width)));
            let f3 = with_some(f2, "height"@, some_decimal(wide16(height)));
            lemma_some_part(f2, "height"@, some_decimal(wide16(height)));
            assert(f3 == fields_of(command));
            assert(parts(f0) =~= Seq::empty());
            assert(parts(f3) =~= part("pane"@, decimal(pane as nat)) + some_part("width"@, some_decimal(wide16(width))) + some_part("height"@, some_decimal(wide16(height))));
            lemma_parts(f3);
        },
        _ => {},
    }
}

/// What `pane.close` is written as.
pub proof fn law_close_is_written(command: Commands)
    requires
        command is Close,
    ensures
        emission(command).0 == "pane.close"@,
        match command {
            Commands::Close { pane } => {
                &&& seq!['&'] + emission(command).1 == part("pane"@, decimal(pane as nat))
            },
            _ => true,
        },
{
    match command {
        Commands::Close { pane } => {
            let f0: FieldsView = Seq::empty();
            let f1 = with_field(f0, "pane"@, decimal(pane as nat));
            lemma_part(f0, "pane"@, decimal(pane as nat));
            assert(f1 == fields_of(command));
            assert(parts(f0) =~= Seq::empty());
            assert(parts(f1) =~= part("pane"@, decimal(pane as nat)));
            lemma_parts(f1);
        },
        _ => {},
    }
}

/// What `history` is written as.
pub proof fn law_history_is_written(command: Commands)
    requires
        command is History,
    ensures
        emission(command).0 == "history"@,
        match command {
            Commands::History { last, visualize } => {
                &&& seq!['&'] + emission(command).1 == part("last"@, decimal(last as nat)) + part("visualize"@, flag_text(visualize))
            },
            _ => true,
        },
{
    match command {
        Commands::History { last, visualize } => {
            let f0: FieldsView = Seq::empty();
            let f1 = with_field(f0, "last"@, decimal(last as nat));
            lemma_part(f0, "last"@, decimal(last as nat));
            let f2 = with_field(f1, "visualize"@, flag_text(visualize));
            lemma_part(f1, "visualize"@, flag_text(visualize));
            assert(f2 == fields_of(command));
            assert(parts(f0) =~= Seq::empty());
            assert(parts(f2) =~= part("last"@, decimal(last as nat)) + part("visualize"@, flag_text(visualize)));
            lemma_parts(f2);
        },
        _ => {},
    }
}

/// What `bookmark` is written as.
pub proof fn law_bookmark_is_written(command: Commands)
    requires
        command is Bookmark,
    ensures
        emission(command).0 == "bookmark"@,
        match command {
            Commands::Bookmark { name } => {
                &&& seq!['&'] + emission(command).1 == part("name"@, name@)
            },
            _ => true,
        },
{
    match command {
        Commands::Bookmark { name } => {
            let f0: FieldsView = Seq::empty();
            let f1 = with_field(f0, "name"@, name@);
            lemma_part(f0, "name"@, name@);
            assert(f1 == fields_of(command));
            assert(parts(f0) =~= Seq::empty());
            assert(parts(f1) =~= part("name"@, name@));
            lemma_parts(f1);
        },
        _ => {},
    }
}

/// What `jump` is written as.
pub proof fn law_jump_is_written(command: Commands)
    requires
        command is Jump,
    ensures
        emission(command).0 == "jump"@,
        match command {
            Commands::Jump { name } => {
                &&& seq!['&'] + emission(command).1 == part("name"@, name@)
            },
            _ => true,
        },
{
    match command {
        Commands::Jump { name } => {
            let f0: FieldsView = Seq::empty();
            let f1 = with_field(f0, "name"@, name@);
            lemma_part(f0, "name"@, name@);
            assert(f1 == fields_of(command));
            assert(parts(f0) =~= Seq::empty());
            assert(parts(f1) =~= part("name"@, name@));
            lemma_parts(f1);
        },
        _ => {},
    }
}

/// What `user.join` is written as.
pub proof fn law_user_join_is_written(command: Commands)
    requires
        command is UserJoin,
    ensures
        emission(command).0 == "user.join"@,
        match command {
            Commands::UserJoin { name, color } => {
                &&& seq!['&'] + emission(command).1 == part("name"@, name@) + part("color"@, color@)
            },
            _ => true,
        },
{
    match command {
        Commands::UserJoin { name, color } => {
            let f0: FieldsView = Seq::empty();
            let f1 = with_field(f0, "name"@, name@);
            lemma_part(f0, "name"@, name@);
            let f2 = with_field(f1, "color"@, color@);
            lemma_part(f1, "color"@, color@);
            assert(f2 == fields_of(command));
            assert(parts(f0) =~= Seq::empty());
            assert(parts(f2) =~= part("name"@, name@) + part("color"@, color@));
            lemma_parts(f2);
        },
        _ => {},
    }
}

/// What `user.leave` is written as.
pub proof fn law_user_leave_is_written(command: Commands)
    requires
        command is UserLeave,
    ensures
        emission(command).0 == "user.leave"@,
        match command {
            Commands::UserLeave { name } => {
                &&& seq!['&'] + emission(command).1 == part("name"@, name@)
            },
            _ => true,
        },
{
    match command {
        Commands::UserLeave { name } => {
            let f0: FieldsView = Seq::empty();
            let f1 = with_field(f0, "name"@, name@);
            lemma_part(f0, "name"@, name@);
            assert(f1 == fields_of(command));
            assert(parts(f0) =~= Seq::empty());
            assert(parts(f1) =~= part("name"@, name@));
            lemma_parts(f1);
        },
        _ => {},
    }
}

/// What `user.cursor` is written as.
pub proof fn law_user_cursor_is_written(command: Commands)
    requires
        command is UserCursor,
    ensures
        emission(command).0 == "user.cursor"@,
        match command {
            Commands::UserCursor { name, x, y } => {
                &&& seq!['&'] + emission(command).1 == part("name"@, name@) + part("x"@, decimal(x as nat)) + part("y"@, decimal(y as nat))
            },
            _ => true,
        },
{
    match command {
        Commands::UserCursor { name, x, y } => {
            let f0: FieldsView = Seq::empty();
            let f1 = with_field(f0, "name"@, name@);
            lemma_part(f0, "name"@, name@);
            let f2 = with_field(f1, "x"@, decimal(x as nat));
            lemma_part(f1, "x"@, decimal(x as nat));
            let f3 = with_field(f2, "y"@, decimal(y as nat));
            lemma_part(f2, "y"@, decimal(y as nat));
            assert(f3 == fields_of(command));
            assert(parts(f0) =~= Seq::empty());
            assert(parts(f3) =~= part("name"@, name@) + part("x"@, decimal(x as nat)) + part("y"@, decimal(y as nat)));
            lemma_parts(f3);
        },
        _ => {},
    }
}

/// What `note` is written as.
pub proof fn law_note_is_written(command: Commands)
    requires
        command is Note,
    ensures
        emission(command).0 == "note"@,
        match command {
            Commands::Note { text, x, y, expires } => {
                &&& seq!['&'] + emission(command).1 == part("text"@, text@) + part("x"@, decimal(x as nat)) + part("y"@, decimal(y as nat)) + part("expires"@, expires@)
            },
            _ => true,
        },
{
    match command {
        Commands::Note { text, x, y, expires } => {
            let f0: FieldsView = Seq::empty();
            let f1 = with_field(f0, "text"@, text@);
            lemma_part(f0, "text"@, text@);
            let f2 = with_field(f1, "x"@, decimal(x as nat));
            lemma_part(f1, "x"@, decimal(x as nat));
            let f3 = with_field(f2, "y"@, decimal(y as nat));
            lemma_part(f2, "y"@, decimal(y as nat));
            let f4 = with_field(f3, "expires"@, expires@);
            lemma_part(f3, "expires"@, expires@);
            assert(f4 == fields_of(command));
            assert(parts(f0) =~= Seq::empty());
            assert(parts(f4) =~= part("text"@, text@) + part("x"@, decimal(x as nat)) + part("y"@, decimal(y as nat)) + part("expires"@, expires@));
            lemma_parts(f4);
        },
        _ => {},
    }
}

/// What `sound` is written as.
pub proof fn law_sound_is_written(command: Commands)
    requires
        command is Sound,
    ensures
        emission(command).0 == "sound"@,
        match command {
            Commands::Sound { kind, loop_sound } => {
                &&& seq!['&'] + emission(command).1 == part("kind"@, kind.word()@) + part("loop"@, flag_text(loop_sound))
            },
            _ => true,
        },
{
    match command {
        Commands::Sound { kind, loop_sound } => {
            let f0: FieldsView = Seq::empty();
            let f1 = with_field(f0, "kind"@, kind.word()@);
            lemma_part(f0, "kind"@, kind.word()@);
            let f2 = with_field(f1, "loop"@, flag_text(loop_sound));
            lemma_part(f1, "loop"@, flag_text(loop_sound));
            assert(f2 == fields_of(command));
            assert(parts(f0) =~= Seq::empty());
            assert(parts(f2) =~= part("kind"@, kind.word()@) + part("loop"@, flag_text(loop_sound)));
            lemma_parts(f2);
        },
        _ => {},
    }
}

/// What `avatar.set` is written as.
pub proof fn law_avatar_set_is_written(command: Commands)
    requires
        command is AvatarSet,
    ensures
        emission(command).0 == "avatar.set"@,
        match command {
            Commands::AvatarSet { model, position } => {
                &&& seq!['&'] + emission(command).1 == part("model"@, model@) + part("position"@, position@)
            },
            _ => true,
        },
{
    match command {
        Commands::AvatarSet { model, position } => {
            let f0: FieldsView = Seq::empty();
            let f1 = with_field(f0, "model"@, model@);
            lemma_part(f0, "model"@, model@);
            let f2 = with_field(f1, "position"@, position@);
            lemma_part(f1, "position"@, position@);
            assert(f2 == fields_of(command));
            assert(parts(f0) =~= Seq::empty());
            assert(parts(f2) =~= part("model"@, model@) + part("position"@, position@));
            lemma_parts(f2);
        },
        _ => {},
    }
}

/// What `avatar.gesture` is written as.
pub proof fn law_avatar_gesture_is_written(command: Commands)
    requires
        command is AvatarGesture,
    ensures
        emission(command).0 == "avatar.gesture"@,
        match command {
            Commands::AvatarGesture { gesture } => {
                &&& seq!['&'] + emission(command).1 == part("gesture"@, gesture.word()@)
            },
            _ => true,
        },
{
    match command {
        Commands::AvatarGesture { gesture } => {
            let f0: FieldsView = Seq::empty();
            let f1 = with_field(f0, "gesture"@, gesture.word()@);
            lemma_part(f0, "gesture"@, gesture.word()@);
            assert(f1 == fields_of(command));
            assert(parts(f0) =~= Seq::empty());
            assert(parts(f1) =~= part("gesture"@, gesture.word()@));
            lemma_parts(f1);
        },
        _ => {},
    }
}

/// What `avatar.speak` is written as.
pub proof fn law_avatar_speak_is_written(command: Commands)
    requires
        command is AvatarSpeak,
    ensures
        emission(command).0 == "avatar.speak"@,
        match command {
            Commands::AvatarSpeak { text } => {
                &&& seq!['&'] + emission(command).1 == part("text"@, text@)
            },
            _ => true,
        },
{
    match command {
        Commands::AvatarSpeak { text } => {
            let f0: FieldsView = Seq::empty();
            let f1 = with_field(f0, "text"@, text@);
            lemma_part(f0, "text"@, text@);
            assert(f1 == fields_of(command));
            assert(parts(f0) =~= Seq::empty());
            assert(parts(f1) =~= part("text"@, text@));
            lemma_parts(f1);
        },
        _ => {},
    }
}

/// What `macro.record` is written as.
pub proof fn law_macro_record_is_written(command: Commands)
    requires
        command is MacroRecord,
    ensures
        emission(command).0 == "macro.record"@,
        match command {
            Commands::MacroRecord { name } => {
                &&& seq!['&'] + emission(command).1 == part("name"@, name@)
            },
            _ => true,
        },
{
    match command {
        Commands::MacroRecord { name } => {
            let f0: FieldsView = Seq::empty();
            let f1 = with_field(f0, "name"@, name@);
            lemma_part(f0, "name"@, name@);
            assert(f1 == fields_of(command));
            assert(parts(f0) =~= Seq::empty());
            assert(parts(f1) =~= part("name"@, name@));
            lemma_parts(f1);
        },
        _ => {},
    }
}

/// What `macro.play` is written as.
pub proof fn law_macro_play_is_written(command: Commands)
    requires
        command is MacroPlay,
    ensures
        emission(command).0 == "macro.play"@,
        match command {
            Commands::MacroPlay { name } => {
                &&& seq!['&'] + emission(command).1 == part("name"@, name@)
            },
            _ => true,
        },
{
    match command {
        Commands::MacroPlay { name } => {
            let f0: FieldsView = Seq::empty();
            let f1 = with_field(f0, "name"@, name@);
            lemma_part(f0, "name"@, name@);
            assert(f1 == fields_of(command));
            assert(parts(f0) =~= Seq::empty());
            assert(parts(f1) =~= part("name"@, name@));
            lemma_parts(f1);
        },
        _ => {},
    }
}

/// What `macro.export` is written as.
pub proof fn law_macro_export_is_written(command: Commands)
    requires
        command is MacroExport,
    ensures
        emission(command).0 == "macro.export"@,
        match command {
            Commands::MacroExport { name, to } => {
                &&& seq!['&'] + emission(command).1 == part("name"@, name@) + part("to"@, to@)
            },
            _ => true,
        },
{
    match command {
        Commands::MacroExport { name, to } => {
            let f0: FieldsView = Seq::empty();
            let f1 = with_field(f0, "name"@, name@);
            lemma_part(f0, "name"@, name@);
            let f2 = with_field(f1, "to"@, to@);
            lemma_part(f1, "to"@, to@);
            assert(f2 == fields_of(command));
            assert(parts(f0) =~= Seq::empty());
            assert(parts(f2) =~= part("name"@, name@) + part("to"@, to@));
            lemma_parts(f2);
        },
        _ => {},
    }
}

/// What `macro.run` is written as.
pub proof fn law_macro_run_is_written(command: Commands)
    requires
        command is MacroRun,
    ensures
        emission(command).0 == "macro.run"@,
        match command {
            Commands::MacroRun { path } => {
                &&& seq!['&'] + emission(command).1 == part("path"@, path@)
            },
            _ => true,
        },
{
    match command {
        Commands::MacroRun { path } => {
            let f0: FieldsView = Seq::empty();
            let f1 = with_field(f0, "path"@, path@);
            lemma_part(f0, "path"@, path@);
            assert(f1 == fields_of(command));
            assert(parts(f0) =~= Seq::empty());
            assert(parts(f1) =~= part("path"@, path@));
            lemma_parts(f1);
        },
        _ => {},
    }
}

/// What `react` is written as.
pub proof fn law_react_is_written(command: Commands)
    requires
        command is React,
    ensures
        emission(command).0 == "react"@,
        match command {
            Commands::React { effect, cpu_high, memory_high, battery_low } => {
                &&& seq!['&'] + emission(command).1 == part("effect"@, effect@) + some_part("cpu_high"@, token_view(cpu_high)) + some_part("memory_high"@, token_view(memory_high)) + some_part("battery_low"@, token_view(battery_low))
            },
            _ => true,
        },
{
    match command {
        Commands::React { effect, cpu_high, memory_high, battery_low } => {
            let f0: FieldsView = Seq::empty();
            let f1 = with_field(f0, "effect"@, effect@);
            lemma_part(f0, "effect"@, effect@);
            let f2 = with_some(f1, "cpu_high"@, token_view(cpu_high));
            lemma_some_part(f1, "cpu_high"@, token_view(cpu_high));
            let f3 = with_some(f2, "memory_high"@, token_view(memory_high));
            lemma_some_part(f2, "memory_high"@, token_view(memory_high));
            let f4 = with_some(f3, "battery_low"@, token_view(battery_low));
            lemma_some_part(f3, "battery_low"@, token_view(battery_low));
            assert(f4 == fields_of(command));
            assert(parts(f0) =~= Seq::empty());
            assert(parts(f4) =~= part("effect"@, effect@) + some_part("cpu_high"@, token_view(cpu_high)) + some_part("memory_high"@, token_view(memory_high)) + some_part("battery_low"@, token_view(battery_low)));
            lemma_parts(f4);
        },
        _ => {},
    }
}

/// What the flags for thinking ask: to start, or else to end, and without
/// either to turn around.
pub proof fn law_flags_for_thinking(start: bool, end: bool)
    ensures
        ThinkArg::of_flags(start, end) is Start <==> start,
        ThinkArg::of_flags(start, end) is End <==> end && !start,
        ThinkArg::of_flags(start, end) is Toggle <==> !start && !end,
{
}

} // verus!
