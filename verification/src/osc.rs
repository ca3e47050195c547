//! The wire vocabulary: commands, their classes, and the partition of object
//! ids by agent namespace.

use vstd::prelude::*;
use crate::number::Single;
use crate::text::chars_of;

verus! {

/// Which registry a macro name resolves in.
#[derive(Clone, Copy, Debug, PartialEq, Eq, Structural)]
pub enum MacroScope {
    /// The caller's session macros.
    Session,
    /// The trusted macros.
    Trusted,
}

/// Whose pending speech is cleared.
#[derive(Clone, Copy, Debug, PartialEq, Eq, Structural)]
pub enum SpeechClearScope {
    /// The caller's own.
    Own,
    /// One namespace's.
    Namespace(u8),
    /// Everyone's, the voice with it.
    All,
}

/// A canonical command. Fields of organs outside this library travel as the
/// organ's own payload text.
#[allow(inconsistent_fields)]
#[derive(Debug)]
pub enum RattyAiCommand {
    /// Selects a presentation mode.
    SetMode {
        /// `mode=`.
        mode: String,
    },
    /// Sets the plane warp.
    SetWarp {
        /// `intensity=`.
        intensity: Single,
    },
    /// Returns the scene to its baseline.
    Reset,
    /// Flashes a color.
    Flash {
        /// `color=`.
        color: String,
        /// `duration=`.
        duration: Single,
    },
    /// Pulses rhythmically.
    Pulse {
        /// `intensity=`.
        intensity: Single,
        /// `duration=`.
        duration: Single,
    },
    /// Applies a steady tint.
    Tint {
        /// `color=`.
        color: String,
        /// `opacity=`.
        opacity: Single,
    },
    /// Drives the thinking indicator.
    Think {
        /// `state=`.
        state: String,
    },
    /// Sets the confidence aura.
    Confidence {
        /// `level=`.
        level: Single,
    },
    /// Sets the mood.
    Mood {
        /// `mood=`.
        mood: String,
    },
    /// Spawns an object.
    SpawnObject {
        /// `id=`.
        id: u32,
        /// `path=`.
        path: String,
        /// `x=`.
        x: u16,
        /// `y=`.
        y: u16,
        /// `scale=`.
        scale: Single,
        /// `spin=`.
        spin: Single,
        /// `brightness=`.
        brightness: Single,
        /// `replace=`.
        replace: bool,
    },
    /// Removes an object.
    RemoveObject {
        /// `id=`.
        id: u32,
    },
    /// Removes the caller's objects.
    ClearObjects,
    /// Updates an object in place.
    UpdateObject {
        /// `id=`.
        id: u32,
        /// `x=`.
        x: Option<u16>,
        /// `y=`.
        y: Option<u16>,
        /// `scale=`.
        scale: Option<Single>,
        /// `spin=`.
        spin: Option<Single>,
        /// `brightness=`.
        brightness: Option<Single>,
    },
    /// Restyles the cursor model.
    UpdateCursor {
        /// `model=`.
        model: Option<String>,
        /// `spin=`.
        spin: Option<Single>,
        /// `bob_speed=`.
        bob_speed: Option<Single>,
        /// `bob_amp=`.
        bob_amp: Option<Single>,
        /// `brightness=`.
        brightness: Option<Single>,
        /// `visible=`.
        visible: Option<bool>,
    },
    /// Sets a visualization.
    VizSet {
        /// `payload=`.
        payload: String,
    },
    /// Plays an effect on a visualization.
    VizEffect {
        /// `payload=`.
        payload: String,
    },
    /// Removes a visualization.
    VizRemove {
        /// `payload=`.
        payload: String,
    },
    /// Plays a sound.
    SoundPlay {
        /// `payload=`.
        payload: String,
    },
    /// Sets the ambient bed.
    SoundAmbientSet {
        /// `payload=`.
        payload: String,
    },
    /// Stops the ambient bed.
    SoundAmbientStop,
    /// Stores the current view.
    Bookmark {
        /// `name=`.
        name: String,
        /// `replace=`.
        replace: bool,
    },
    /// Jumps to a stored view.
    BookmarkJump {
        /// `name=`.
        name: String,
    },
    /// Starts a recording.
    MacroRecord {
        /// `name=`.
        name: String,
        /// `replace=`.
        replace: bool,
    },
    /// Finishes a recording or cancels a playback.
    MacroStop,
    /// Starts a playback.
    MacroPlay {
        /// `name=`.
        name: String,
        /// `hash=`.
        hash: Option<String>,
        /// `rate=`.
        rate: Single,
        /// `instant=`.
        instant: bool,
        /// `scope=`.
        scope: Option<MacroScope>,
    },
    /// Asks for a macro to be written to a path.
    MacroExport {
        /// `name=`.
        name: String,
        /// `to=`.
        to: String,
    },
    /// Asks for a macro to be read from a path.
    MacroRun {
        /// `path=`.
        path: String,
    },
    /// Sets a reactive rule.
    RuleSet {
        /// `payload=`.
        payload: String,
    },
    /// Removes a reactive rule.
    RuleRemove {
        /// `payload=`.
        payload: String,
    },
    /// Enables a reactive rule.
    RuleEnable {
        /// `payload=`.
        payload: String,
    },
    /// Disables a reactive rule.
    RuleDisable {
        /// `payload=`.
        payload: String,
    },
    /// Publishes a sensor reading.
    SensorPublish {
        /// `payload=`.
        payload: String,
    },
    /// Removes a sensor.
    SensorRemove {
        /// `payload=`.
        payload: String,
    },
    /// Places and shows the avatar.
    AvatarSet {
        /// `model=`.
        model: Option<String>,
        /// `position=`.
        position: Option<String>,
        /// `dx=`.
        dx: Option<Single>,
        /// `dy=`.
        dy: Option<Single>,
        /// `scale=`.
        scale: Option<Single>,
    },
    /// Shows the avatar.
    AvatarShow,
    /// Hides the avatar.
    AvatarHide,
    /// Plays a gesture.
    AvatarGesture {
        /// `gesture=`.
        gesture: String,
    },
    /// Speaks.
    AvatarSpeak {
        /// `text=`.
        text: String,
        /// `from=`.
        from: Option<String>,
        /// `duration=`.
        duration: Option<Single>,
    },
    /// Stops the caller's own speech.
    AvatarStopSpeaking,
    /// Cancels an utterance by handle.
    AvatarCancel {
        /// `execution_id=`.
        execution_id: String,
    },
    /// Clears pending speech.
    AvatarSpeechClear {
        /// `scope=`.
        scope: SpeechClearScope,
    },
    /// A participant joins.
    UserJoin {
        /// `id=`.
        id: String,
        /// `name=`.
        name: String,
        /// `color=`.
        color: String,
        /// `ttl=`.
        ttl: Option<Single>,
        /// `replace=`.
        replace: bool,
    },
    /// A participant renews its presence.
    UserRenew {
        /// `payload=`.
        payload: String,
    },
    /// A participant's cursor moves.
    UserCursor {
        /// `payload=`.
        payload: String,
    },
    /// A participant leaves.
    UserLeave {
        /// `payload=`.
        payload: String,
    },
    /// Leaves a note.
    Note {
        /// `payload=`.
        payload: String,
    },
    /// Removes a note.
    NoteRemove {
        /// `id=`.
        id: String,
    },
}

impl Clone for RattyAiCommand {
    fn clone(&self) -> (copy: Self)
        ensures
            copy == *self,
    {
        match self {
            RattyAiCommand::SetMode { mode } => RattyAiCommand::SetMode {
                mode: mode.clone(),
            },
            RattyAiCommand::SetWarp { intensity } => RattyAiCommand::SetWarp {
                intensity: *intensity,
            },
            RattyAiCommand::Reset => RattyAiCommand::Reset,
            RattyAiCommand::Flash { color, duration } => RattyAiCommand::Flash {
                color: color.clone(),
                duration: *duration,
            },
            RattyAiCommand::Pulse { intensity, duration } => RattyAiCommand::Pulse {
                intensity: *intensity,
                duration: *duration,
            },
            RattyAiCommand::Tint { color, opacity } => RattyAiCommand::Tint {
                color: color.clone(),
                opacity: *opacity,
            },
            RattyAiCommand::Think { state } => RattyAiCommand::Think {
                state: state.clone(),
            },
            RattyAiCommand::Confidence { level } => RattyAiCommand::Confidence {
                level: *level,
            },
            RattyAiCommand::Mood { mood } => RattyAiCommand::Mood {
                mood: mood.clone(),
            },
            RattyAiCommand::SpawnObject { id, path, x, y, scale, spin, brightness, replace } => RattyAiCommand::SpawnObject {
                id: *id,
                path: path.clone(),
                x: *x,
                y: *y,
                scale: *scale,
                spin: *spin,
                brightness: *brightness,
                replace: *replace,
            },
            RattyAiCommand::RemoveObject { id } => RattyAiCommand::RemoveObject {
                id: *id,
            },
            RattyAiCommand::ClearObjects => RattyAiCommand::ClearObjects,
            RattyAiCommand::UpdateObject { id, x, y, scale, spin, brightness } => RattyAiCommand::UpdateObject {
                id: *id,
                x: *x,
                y: *y,
                scale: *scale,
                spin: *spin,
                brightness: *brightness,
            },
            RattyAiCommand::UpdateCursor { model, spin, bob_speed, bob_amp, brightness, visible } => RattyAiCommand::UpdateCursor {
                model: model.clone(),
                spin: *spin,
                bob_speed: *bob_speed,
                bob_amp: *bob_amp,
                brightness: *brightness,
                visible: *visible,
            },
            RattyAiCommand::VizSet { payload } => RattyAiCommand::VizSet {
                payload: payload.clone(),
            },
            RattyAiCommand::VizEffect { payload } => RattyAiCommand::VizEffect {
                payload: payload.clone(),
            },
            RattyAiCommand::VizRemove { payload } => RattyAiCommand::VizRemove {
                payload: payload.clone(),
            },
            RattyAiCommand::SoundPlay { payload } => RattyAiCommand::SoundPlay {
                payload: payload.clone(),
            },
            RattyAiCommand::SoundAmbientSet { payload } => RattyAiCommand::SoundAmbientSet {
                payload: payload.clone(),
            },
            RattyAiCommand::SoundAmbientStop => RattyAiCommand::SoundAmbientStop,
            RattyAiCommand::Bookmark { name, replace } => RattyAiCommand::Bookmark {
                name: name.clone(),
                replace: *replace,
            },
            RattyAiCommand::BookmarkJump { name } => RattyAiCommand::BookmarkJump {
                name: name.clone(),
            },
            RattyAiCommand::MacroRecord { name, replace } => RattyAiCommand::MacroRecord {
                name: name.clone(),
                replace: *replace,
            },
            RattyAiCommand::MacroStop => RattyAiCommand::MacroStop,
            RattyAiCommand::MacroPlay { name, hash, rate, instant, scope } => RattyAiCommand::MacroPlay {
                name: name.clone(),
                hash: hash.clone(),
                rate: *rate,
                instant: *instant,
                scope: *scope,
            },
            RattyAiCommand::MacroExport { name, to } => RattyAiCommand::MacroExport {
                name: name.clone(),
                to: to.clone(),
            },
            RattyAiCommand::MacroRun { path } => RattyAiCommand::MacroRun {
                path: path.clone(),
            },
            RattyAiCommand::RuleSet { payload } => RattyAiCommand::RuleSet {
                payload: payload.clone(),
            },
            RattyAiCommand::RuleRemove { payload } => RattyAiCommand::RuleRemove {
                payload: payload.clone(),
            },
            RattyAiCommand::RuleEnable { payload } => RattyAiCommand::RuleEnable {
                payload: payload.clone(),
            },
            RattyAiCommand::RuleDisable { payload } => RattyAiCommand::RuleDisable {
                payload: payload.clone(),
            },
            RattyAiCommand::SensorPublish { payload } => RattyAiCommand::SensorPublish {
                payload: payload.clone(),
            },
            RattyAiCommand::SensorRemove { payload } => RattyAiCommand::SensorRemove {
                payload: payload.clone(),
            },
            RattyAiCommand::AvatarSet { model, position, dx, dy, scale } => RattyAiCommand::AvatarSet {
                model: model.clone(),
                position: position.clone(),
                dx: *dx,
                dy: *dy,
                scale: *scale,
            },
            RattyAiCommand::AvatarShow => RattyAiCommand::AvatarShow,
            RattyAiCommand::AvatarHide => RattyAiCommand::AvatarHide,
            RattyAiCommand::AvatarGesture { gesture } => RattyAiCommand::AvatarGesture {
                gesture: gesture.clone(),
            },
            RattyAiCommand::AvatarSpeak { text, from, duration } => RattyAiCommand::AvatarSpeak {
                text: text.clone(),
                from: from.clone(),
                duration: *duration,
            },
            RattyAiCommand::AvatarStopSpeaking => RattyAiCommand::AvatarStopSpeaking,
            RattyAiCommand::AvatarCancel { execution_id } => RattyAiCommand::AvatarCancel {
                execution_id: execution_id.clone(),
            },
            RattyAiCommand::AvatarSpeechClear { scope } => RattyAiCommand::AvatarSpeechClear {
                scope: *scope,
            },
            RattyAiCommand::UserJoin { id, name, color, ttl, replace } => RattyAiCommand::UserJoin {
                id: id.clone(),
                name: name.clone(),
                color: color.clone(),
                ttl: *ttl,
                replace: *replace,
            },
            RattyAiCommand::UserRenew { payload } => RattyAiCommand::UserRenew {
                payload: payload.clone(),
            },
            RattyAiCommand::UserCursor { payload } => RattyAiCommand::UserCursor {
                payload: payload.clone(),
            },
            RattyAiCommand::UserLeave { payload } => RattyAiCommand::UserLeave {
                payload: payload.clone(),
            },
            RattyAiCommand::Note { payload } => RattyAiCommand::Note {
                payload: payload.clone(),
            },
            RattyAiCommand::NoteRemove { id } => RattyAiCommand::NoteRemove {
                id: id.clone(),
            },
        }
    }
}

/// The little-endian bytes of a 32-bit number.
pub open spec fn u32_bytes(n: u32) -> Seq<u8> {
    seq![
        (n % 256) as u8,
        (n / 256 % 256) as u8,
        (n / 65536 % 256) as u8,
        (n / 16777216 % 256) as u8,
    ]
}

/// The canonical bytes of a text: every character in four bytes, then an end
/// mark that no character has.
pub open spec fn text_bytes(text: Seq<char>) -> Seq<u8>
    decreases text.len(),
{
    if text.len() == 0 {
        u32_bytes(u32::MAX)
    } else {
        u32_bytes(text[0] as u32) + text_bytes(text.drop_first())
    }
}

/// The canonical bytes of a yes or no.
pub open spec fn flag_bytes(flag: bool) -> Seq<u8> {
    u32_bytes(
        if flag {
            1
        } else {
            0
        },
    )
}

pub(crate) fn put_u32(out: &mut Vec<u8>, n: u32)
    ensures
        final(out)@ == old(out)@ + u32_bytes(n),
{
    out.push((n % 256) as u8);
    out.push((n / 256 % 256) as u8);
    out.push((n / 65536 % 256) as u8);
    out.push((n / 16777216 % 256) as u8);
}

pub(crate) fn put_flag(out: &mut Vec<u8>, flag: bool)
    ensures
        final(out)@ == old(out)@ + flag_bytes(flag),
{
    put_u32(
        out,
        if flag {
            1
        } else {
            0
        },
    );
}

fn put_text(out: &mut Vec<u8>, text: &str)
    ensures
        final(out)@ == old(out)@ + text_bytes(text@),
{
    let chars = chars_of(text);
    let mut i: usize = 0;
    assert(chars@.skip(0) =~= chars@);
    while i < chars.len()
        invariant
            i <= chars@.len(),
            chars@ == text@,
            out@ + text_bytes(chars@.skip(i as int)) == old(out)@ + text_bytes(text@),
        decreases chars.len() - i,
    {
        proof {
            let rest = chars@.skip(i as int);
            assert(rest.drop_first() =~= chars@.skip(i + 1));
            assert(out@ + (u32_bytes(rest[0] as u32) + text_bytes(rest.drop_first())) =~= (out@
                + u32_bytes(rest[0] as u32)) + text_bytes(rest.drop_first()));
        }
        put_u32(out, chars[i] as u32);
        i += 1;
    }
    assert(chars@.skip(i as int) =~= Seq::empty());
    put_u32(out, u32::MAX);
}

/// The canonical number of a macro scope.
pub open spec fn scope_number(scope: MacroScope) -> u32 {
    match scope {
        MacroScope::Session => 0,
        MacroScope::Trusted => 1,
    }
}

/// The canonical bytes of a speech-clear scope.
pub open spec fn clear_scope_bytes(scope: SpeechClearScope) -> Seq<u8> {
    match scope {
        SpeechClearScope::Own => u32_bytes(0),
        SpeechClearScope::Namespace(namespace) => u32_bytes(1) + u32_bytes(namespace as u32),
        SpeechClearScope::All => u32_bytes(2),
    }
}

fn put_clear_scope(out: &mut Vec<u8>, scope: SpeechClearScope)
    ensures
        final(out)@ == old(out)@ + clear_scope_bytes(scope),
{
    match scope {
        SpeechClearScope::Own => put_u32(out, 0),
        SpeechClearScope::Namespace(namespace) => {
            put_u32(out, 1);
            put_u32(out, namespace as u32);
        },
        SpeechClearScope::All => put_u32(out, 2),
    }
}

/// The canonical bytes of an optional field.
pub open spec fn maybe_u16_bytes(field: Option<u16>) -> Seq<u8> {
    match field {
        Some(value) => u32_bytes(1) + u32_bytes(value as u32),
        None => u32_bytes(0),
    }
}

fn put_maybe_u16(out: &mut Vec<u8>, field: &Option<u16>)
    ensures
        final(out)@ == old(out)@ + maybe_u16_bytes(*field),
{
    match field {
        Some(value) => {
            put_u32(out, 1);
            put_u32(out, *value as u32);
        },
        None => put_u32(out, 0),
    }
}

/// The canonical bytes of an optional field.
pub open spec fn maybe_single_bytes(field: Option<Single>) -> Seq<u8> {
    match field {
        Some(value) => u32_bytes(1) + u32_bytes(value.bits),
        None => u32_bytes(0),
    }
}

fn put_maybe_single(out: &mut Vec<u8>, field: &Option<Single>)
    ensures
        final(out)@ == old(out)@ + maybe_single_bytes(*field),
{
    match field {
        Some(value) => {
            put_u32(out, 1);
            put_u32(out, value.bits);
        },
        None => put_u32(out, 0),
    }
}

/// The canonical bytes of an optional field.
pub open spec fn maybe_flag_bytes(field: Option<bool>) -> Seq<u8> {
    match field {
        Some(value) => u32_bytes(1) + flag_bytes(value),
        None => u32_bytes(0),
    }
}

fn put_maybe_flag(out: &mut Vec<u8>, field: &Option<bool>)
    ensures
        final(out)@ == old(out)@ + maybe_flag_bytes(*field),
{
    match field {
        Some(value) => {
            put_u32(out, 1);
            put_flag(out, *value);
        },
        None => put_u32(out, 0),
    }
}

/// The canonical bytes of an optional field.
pub open spec fn maybe_text_bytes(field: Option<String>) -> Seq<u8> {
    match field {
        Some(value) => u32_bytes(1) + text_bytes(value@),
        None => u32_bytes(0),
    }
}

fn put_maybe_text(out: &mut Vec<u8>, field: &Option<String>)
    ensures
        final(out)@ == old(out)@ + maybe_text_bytes(*field),
{
    match field {
        Some(value) => {
            put_u32(out, 1);
            put_text(out, value);
        },
        None => put_u32(out, 0),
    }
}

/// The canonical bytes of an optional field.
pub open spec fn maybe_scope_bytes(field: Option<MacroScope>) -> Seq<u8> {
    match field {
        Some(value) => u32_bytes(1) + u32_bytes(scope_number(value)),
        None => u32_bytes(0),
    }
}

fn put_maybe_scope(out: &mut Vec<u8>, field: &Option<MacroScope>)
    ensures
        final(out)@ == old(out)@ + maybe_scope_bytes(*field),
{
    match field {
        Some(value) => {
            put_u32(out, 1);
            put_u32(
                out,
                match value {
                    MacroScope::Session => 0,
                    MacroScope::Trusted => 1,
                },
            );
        },
        None => put_u32(out, 0),
    }
}

/// The bytes `out` followed by the canonical bytes of a command: a number for
/// the variant, then the fields.
pub open spec fn with_command(out: Seq<u8>, command: RattyAiCommand) -> Seq<u8> {
    match command {
        RattyAiCommand::SetMode { mode } => out + u32_bytes(0)
            + text_bytes(mode@),
        RattyAiCommand::SetWarp { intensity } => out + u32_bytes(1)
            + u32_bytes(intensity.bits),
        RattyAiCommand::Reset => out + u32_bytes(2),
        RattyAiCommand::Flash { color, duration } => out + u32_bytes(3)
            + text_bytes(color@)
            + u32_bytes(duration.bits),
        RattyAiCommand::Pulse { intensity, duration } => out + u32_bytes(4)
            + u32_bytes(intensity.bits)
            + u32_bytes(duration.bits),
        RattyAiCommand::Tint { color, opacity } => out + u32_bytes(5)
            + text_bytes(color@)
            + u32_bytes(opacity.bits),
        RattyAiCommand::Think { state } => out + u32_bytes(6)
            + text_bytes(state@),
        RattyAiCommand::Confidence { level } => out + u32_bytes(7)
            + u32_bytes(level.bits),
        RattyAiCommand::Mood { mood } => out + u32_bytes(8)
            + text_bytes(mood@),
        RattyAiCommand::SpawnObject { id, path, x, y, scale, spin, brightness, replace } => out + u32_bytes(9)
            + u32_bytes(id)
            + text_bytes(path@)
            + u32_bytes(x as u32)
            + u32_bytes(y as u32)
            + u32_bytes(scale.bits)
            + u32_bytes(spin.bits)
            + u32_bytes(brightness.bits)
            + flag_bytes(replace),
        RattyAiCommand::RemoveObject { id } => out + u32_bytes(10)
            + u32_bytes(id),
        RattyAiCommand::ClearObjects => out + u32_bytes(11),
        RattyAiCommand::UpdateObject { id, x, y, scale, spin, brightness } => out + u32_bytes(12)
            + u32_bytes(id)
            + maybe_u16_bytes(x)
            + maybe_u16_bytes(y)
            + maybe_single_bytes(scale)
            + maybe_single_bytes(spin)
            + maybe_single_bytes(brightness),
        RattyAiCommand::UpdateCursor { model, spin, bob_speed, bob_amp, brightness, visible } => out + u32_bytes(13)
            + maybe_text_bytes(model)
            + maybe_single_bytes(spin)
            + maybe_single_bytes(bob_speed)
            + maybe_single_bytes(bob_amp)
            + maybe_single_bytes(brightness)
            + maybe_flag_bytes(visible),
        RattyAiCommand::VizSet { payload } => out + u32_bytes(14)
            + text_bytes(payload@),
        RattyAiCommand::VizEffect { payload } => out + u32_bytes(15)
            + text_bytes(payload@),
        RattyAiCommand::VizRemove { payload } => out + u32_bytes(16)
            + text_bytes(payload@),
        RattyAiCommand::SoundPlay { payload } => out + u32_bytes(17)
            + text_bytes(payload@),
        RattyAiCommand::SoundAmbientSet { payload } => out + u32_bytes(18)
            + text_bytes(payload@),
        RattyAiCommand::SoundAmbientStop => out + u32_bytes(19),
        RattyAiCommand::Bookmark { name, replace } => out + u32_bytes(20)
            + text_bytes(name@)
            + flag_bytes(replace),
        RattyAiCommand::BookmarkJump { name } => out + u32_bytes(21)
            + text_bytes(name@),
        RattyAiCommand::MacroRecord { name, replace } => out + u32_bytes(22)
            + text_bytes(name@)
            + flag_bytes(replace),
        RattyAiCommand::MacroStop => out + u32_bytes(23),
        RattyAiCommand::MacroPlay { name, hash, rate, instant, scope } => out + u32_bytes(24)
            + text_bytes(name@)
            + maybe_text_bytes(hash)
            + u32_bytes(rate.bits)
            + flag_bytes(instant)
            + maybe_scope_bytes(scope),
        RattyAiCommand::MacroExport { name, to } => out + u32_bytes(25)
            + text_bytes(name@)
            + text_bytes(to@),
        RattyAiCommand::MacroRun { path } => out + u32_bytes(26)
            + text_bytes(path@),
        RattyAiCommand::RuleSet { payload } => out + u32_bytes(27)
            + text_bytes(payload@),
        RattyAiCommand::RuleRemove { payload } => out + u32_bytes(28)
            + text_bytes(payload@),
        RattyAiCommand::RuleEnable { payload } => out + u32_bytes(29)
            + text_bytes(payload@),
        RattyAiCommand::RuleDisable { payload } => out + u32_bytes(30)
            + text_bytes(payload@),
        RattyAiCommand::SensorPublish { payload } => out + u32_bytes(31)
            + text_bytes(payload@),
        RattyAiCommand::SensorRemove { payload } => out + u32_bytes(32)
            + text_bytes(payload@),
        RattyAiCommand::AvatarSet { model, position, dx, dy, scale } => out + u32_bytes(33)
            + maybe_text_bytes(model)
            + maybe_text_bytes(position)
            + maybe_single_bytes(dx)
            + maybe_single_bytes(dy)
            + maybe_single_bytes(scale),
        RattyAiCommand::AvatarShow => out + u32_bytes(34),
        RattyAiCommand::AvatarHide => out + u32_bytes(35),
        RattyAiCommand::AvatarGesture { gesture } => out + u32_bytes(36)
            + text_bytes(gesture@),
        RattyAiCommand::AvatarSpeak { text, from, duration } => out + u32_bytes(37)
            + text_bytes(text@)
            + maybe_text_bytes(from)
            + maybe_single_bytes(duration),
        RattyAiCommand::AvatarStopSpeaking => out + u32_bytes(38),
        RattyAiCommand::AvatarCancel { execution_id } => out + u32_bytes(39)
            + text_bytes(execution_id@),
        RattyAiCommand::AvatarSpeechClear { scope } => out + u32_bytes(40)
            + clear_scope_bytes(scope),
        RattyAiCommand::UserJoin { id, name, color, ttl, replace } => out + u32_bytes(41)
            + text_bytes(id@)
            + text_bytes(name@)
            + text_bytes(color@)
            + maybe_single_bytes(ttl)
            + flag_bytes(replace),
        RattyAiCommand::UserRenew { payload } => out + u32_bytes(42)
            + text_bytes(payload@),
        RattyAiCommand::UserCursor { payload } => out + u32_bytes(43)
            + text_bytes(payload@),
        RattyAiCommand::UserLeave { payload } => out + u32_bytes(44)
            + text_bytes(payload@),
        RattyAiCommand::Note { payload } => out + u32_bytes(45)
            + text_bytes(payload@),
        RattyAiCommand::NoteRemove { id } => out + u32_bytes(46)
            + text_bytes(id@),
    }
}

impl RattyAiCommand {
    /// Appends the canonical bytes.
    pub fn put_bytes(&self, out: &mut Vec<u8>)
        ensures
            final(out)@ == with_command(old(out)@, *self),
    {
        match self {
            RattyAiCommand::SetMode { mode } => {
                put_u32(out, 0);
                put_text(out, mode);
            },
            RattyAiCommand::SetWarp { intensity } => {
                put_u32(out, 1);
                put_u32(out, intensity.bits);
            },
            RattyAiCommand::Reset => put_u32(out, 2),
            RattyAiCommand::Flash { color, duration } => {
                put_u32(out, 3);
                put_text(out, color);
                put_u32(out, duration.bits);
            },
            RattyAiCommand::Pulse { intensity, duration } => {
                put_u32(out, 4);
                put_u32(out, intensity.bits);
                put_u32(out, duration.bits);
            },
            RattyAiCommand::Tint { color, opacity } => {
                put_u32(out, 5);
                put_text(out, color);
                put_u32(out, opacity.bits);
            },
            RattyAiCommand::Think { state } => {
                put_u32(out, 6);
                put_text(out, state);
            },
            RattyAiCommand::Confidence { level } => {
                put_u32(out, 7);
                put_u32(out, level.bits);
            },
            RattyAiCommand::Mood { mood } => {
                put_u32(out, 8);
                put_text(out, mood);
            },
            RattyAiCommand::SpawnObject { id, path, x, y, scale, spin, brightness, replace } => {
                put_u32(out, 9);
                put_u32(out, *id);
                put_text(out, path);
                put_u32(out, *x as u32);
                put_u32(out, *y as u32);
                put_u32(out, scale.bits);
                put_u32(out, spin.bits);
                put_u32(out, brightness.bits);
                put_flag(out, *replace);
            },
            RattyAiCommand::RemoveObject { id } => {
                put_u32(out, 10);
                put_u32(out, *id);
            },
            RattyAiCommand::ClearObjects => put_u32(out, 11),
            RattyAiCommand::UpdateObject { id, x, y, scale, spin, brightness } => {
                put_u32(out, 12);
                put_u32(out, *id);
                put_maybe_u16(out, x);
                put_maybe_u16(out, y);
                put_maybe_single(out, scale);
                put_maybe_single(out, spin);
                put_maybe_single(out, brightness);
            },
            RattyAiCommand::UpdateCursor { model, spin, bob_speed, bob_amp, brightness, visible } => {
                put_u32(out, 13);
                put_maybe_text(out, model);
                put_maybe_single(out, spin);
                put_maybe_single(out, bob_speed);
                put_maybe_single(out, bob_amp);
                put_maybe_single(out, brightness);
                put_maybe_flag(out, visible);
            },
            RattyAiCommand::VizSet { payload } => {
                put_u32(out, 14);
                put_text(out, payload);
            },
            RattyAiCommand::VizEffect { payload } => {
                put_u32(out, 15);
                put_text(out, payload);
            },
            RattyAiCommand::VizRemove { payload } => {
                put_u32(out, 16);
                put_text(out, payload);
            },
            RattyAiCommand::SoundPlay { payload } => {
                put_u32(out, 17);
                put_text(out, payload);
            },
            RattyAiCommand::SoundAmbientSet { payload } => {
                put_u32(out, 18);
                put_text(out, payload);
            },
            RattyAiCommand::SoundAmbientStop => put_u32(out, 19),
            RattyAiCommand::Bookmark { name, replace } => {
                put_u32(out, 20);
                put_text(out, name);
                put_flag(out, *replace);
            },
            RattyAiCommand::BookmarkJump { name } => {
                put_u32(out, 21);
                put_text(out, name);
            },
            RattyAiCommand::MacroRecord { name, replace } => {
                put_u32(out, 22);
                put_text(out, name);
                put_flag(out, *replace);
            },
            RattyAiCommand::MacroStop => put_u32(out, 23),
            RattyAiCommand::MacroPlay { name, hash, rate, instant, scope } => {
                put_u32(out, 24);
                put_text(out, name);
                put_maybe_text(out, hash);
                put_u32(out, rate.bits);
                put_flag(out, *instant);
                put_maybe_scope(out, scope);
            },
            RattyAiCommand::MacroExport { name, to } => {
                put_u32(out, 25);
                put_text(out, name);
                put_text(out, to);
            },
            RattyAiCommand::MacroRun { path } => {
                put_u32(out, 26);
                put_text(out, path);
            },
            RattyAiCommand::RuleSet { payload } => {
                put_u32(out, 27);
                put_text(out, payload);
            },
            RattyAiCommand::RuleRemove { payload } => {
                put_u32(out, 28);
                put_text(out, payload);
            },
            RattyAiCommand::RuleEnable { payload } => {
                put_u32(out, 29);
                put_text(out, payload);
            },
            RattyAiCommand::RuleDisable { payload } => {
                put_u32(out, 30);
                put_text(out, payload);
            },
            RattyAiCommand::SensorPublish { payload } => {
                put_u32(out, 31);
                put_text(out, payload);
            },
            RattyAiCommand::SensorRemove { payload } => {
                put_u32(out, 32);
                put_text(out, payload);
            },
            RattyAiCommand::AvatarSet { model, position, dx, dy, scale } => {
                put_u32(out, 33);
                put_maybe_text(out, model);
                put_maybe_text(out, position);
                put_maybe_single(out, dx);
                put_maybe_single(out, dy);
                put_maybe_single(out, scale);
            },
            RattyAiCommand::AvatarShow => put_u32(out, 34),
            RattyAiCommand::AvatarHide => put_u32(out, 35),
            RattyAiCommand::AvatarGesture { gesture } => {
                put_u32(out, 36);
                put_text(out, gesture);
            },
            RattyAiCommand::AvatarSpeak { text, from, duration } => {
                put_u32(out, 37);
                put_text(out, text);
                put_maybe_text(out, from);
                put_maybe_single(out, duration);
            },
            RattyAiCommand::AvatarStopSpeaking => put_u32(out, 38),
            RattyAiCommand::AvatarCancel { execution_id } => {
                put_u32(out, 39);
                put_text(out, execution_id);
            },
            RattyAiCommand::AvatarSpeechClear { scope } => {
                put_u32(out, 40);
                put_clear_scope(out, *scope);
            },
            RattyAiCommand::UserJoin { id, name, color, ttl, replace } => {
                put_u32(out, 41);
                put_text(out, id);
                put_text(out, name);
                put_text(out, color);
                put_maybe_single(out, ttl);
                put_flag(out, *replace);
            },
            RattyAiCommand::UserRenew { payload } => {
                put_u32(out, 42);
                put_text(out, payload);
            },
            RattyAiCommand::UserCursor { payload } => {
                put_u32(out, 43);
                put_text(out, payload);
            },
            RattyAiCommand::UserLeave { payload } => {
                put_u32(out, 44);
                put_text(out, payload);
            },
            RattyAiCommand::Note { payload } => {
                put_u32(out, 45);
                put_text(out, payload);
            },
            RattyAiCommand::NoteRemove { id } => {
                put_u32(out, 46);
                put_text(out, id);
            },
        }
    }

    /// Whether the command changes what every terminal shows: a macro that holds
    /// one is privileged.
    pub open spec fn scene_global(self) -> bool {
        match self {
            RattyAiCommand::SetMode { .. }
            | RattyAiCommand::SetWarp { .. }
            | RattyAiCommand::Reset
            | RattyAiCommand::AvatarSet { .. }
            | RattyAiCommand::AvatarShow
            | RattyAiCommand::AvatarHide => true,
            _ => false,
        }
    }

    /// Whether the command changes what every terminal shows: a macro that holds
    /// one is privileged.
    pub fn is_scene_global(&self) -> (answer: bool)
        ensures
            answer == self.scene_global(),
    {
        match self {
            RattyAiCommand::SetMode { .. }
            | RattyAiCommand::SetWarp { .. }
            | RattyAiCommand::Reset
            | RattyAiCommand::AvatarSet { .. }
            | RattyAiCommand::AvatarShow
            | RattyAiCommand::AvatarHide => true,
            _ => false,
        }
    }

    /// Whether the command is plain choreography that a reactive rule may fire.
    pub open spec fn rule_safe_action(self) -> bool {
        match self {
            RattyAiCommand::Flash { .. }
            | RattyAiCommand::Pulse { .. }
            | RattyAiCommand::Tint { .. }
            | RattyAiCommand::Think { .. }
            | RattyAiCommand::Confidence { .. }
            | RattyAiCommand::Mood { .. } => true,
            _ => false,
        }
    }

    /// Whether the command is plain choreography that a reactive rule may fire.
    pub fn is_rule_safe_action(&self) -> (answer: bool)
        ensures
            answer == self.rule_safe_action(),
    {
        match self {
            RattyAiCommand::Flash { .. }
            | RattyAiCommand::Pulse { .. }
            | RattyAiCommand::Tint { .. }
            | RattyAiCommand::Think { .. }
            | RattyAiCommand::Confidence { .. }
            | RattyAiCommand::Mood { .. } => true,
            _ => false,
        }
    }

    /// Whether the command drives the macro organ.
    pub open spec fn macro_control(self) -> bool {
        match self {
            RattyAiCommand::MacroRecord { .. }
            | RattyAiCommand::MacroStop
            | RattyAiCommand::MacroPlay { .. }
            | RattyAiCommand::MacroExport { .. }
            | RattyAiCommand::MacroRun { .. } => true,
            _ => false,
        }
    }

    /// Whether the command drives the macro organ.
    pub fn is_macro_control(&self) -> (answer: bool)
        ensures
            answer == self.macro_control(),
    {
        match self {
            RattyAiCommand::MacroRecord { .. }
            | RattyAiCommand::MacroStop
            | RattyAiCommand::MacroPlay { .. }
            | RattyAiCommand::MacroExport { .. }
            | RattyAiCommand::MacroRun { .. } => true,
            _ => false,
        }
    }

    /// Whether the command acts on a live execution.
    pub open spec fn execution_control(self) -> bool {
        match self {
            RattyAiCommand::AvatarStopSpeaking
            | RattyAiCommand::AvatarCancel { .. } => true,
            _ => false,
        }
    }

    /// Whether the command acts on a live execution.
    pub fn is_execution_control(&self) -> (answer: bool)
        ensures
            answer == self.execution_control(),
    {
        match self {
            RattyAiCommand::AvatarStopSpeaking
            | RattyAiCommand::AvatarCancel { .. } => true,
            _ => false,
        }
    }

    /// Whether the command is a rule, a sensor or presence: never recorded.
    pub open spec fn control_plane(self) -> bool {
        match self {
            RattyAiCommand::RuleSet { .. }
            | RattyAiCommand::RuleRemove { .. }
            | RattyAiCommand::RuleEnable { .. }
            | RattyAiCommand::RuleDisable { .. }
            | RattyAiCommand::SensorPublish { .. }
            | RattyAiCommand::SensorRemove { .. }
            | RattyAiCommand::UserJoin { .. }
            | RattyAiCommand::UserRenew { .. }
            | RattyAiCommand::UserCursor { .. }
            | RattyAiCommand::UserLeave { .. }
            | RattyAiCommand::Note { .. }
            | RattyAiCommand::NoteRemove { .. } => true,
            _ => false,
        }
    }

    /// Whether the command is a rule, a sensor or presence: never recorded.
    pub fn is_control_plane(&self) -> (answer: bool)
        ensures
            answer == self.control_plane(),
    {
        match self {
            RattyAiCommand::RuleSet { .. }
            | RattyAiCommand::RuleRemove { .. }
            | RattyAiCommand::RuleEnable { .. }
            | RattyAiCommand::RuleDisable { .. }
            | RattyAiCommand::SensorPublish { .. }
            | RattyAiCommand::SensorRemove { .. }
            | RattyAiCommand::UserJoin { .. }
            | RattyAiCommand::UserRenew { .. }
            | RattyAiCommand::UserCursor { .. }
            | RattyAiCommand::UserLeave { .. }
            | RattyAiCommand::Note { .. }
            | RattyAiCommand::NoteRemove { .. } => true,
            _ => false,
        }
    }

}

/// The lowest object id of the agents' partition.
pub const AI_OBJECT_BASE: u32 = 0x8000_0000;

/// The namespace that an object id belongs to: agents own the upper half of
/// the ids, cut into 128 namespaces of equal size.
pub open spec fn object_namespace(id: u32) -> Option<u8> {
    if id >= AI_OBJECT_BASE {
        Some(((id - AI_OBJECT_BASE) / 0x100_0000) as u8)
    } else {
        None
    }
}

/// The namespace that an object id belongs to, or `None` for the ids of the
/// other wire surfaces.
pub fn ai_object_namespace(id: u32) -> (namespace: Option<u8>)
    ensures
        namespace == object_namespace(id),
{
    if id >= AI_OBJECT_BASE {
        Some(((id - AI_OBJECT_BASE) / 0x100_0000) as u8)
    } else {
        None
    }
}

/// The partition reads the seven bits above the low twenty-four.
pub proof fn law_namespace_is_seven_bits(id: u32)
    ensures
        object_namespace(id) == if id >= 0x8000_0000 {
            Some(((id >> 24) & 0x7F) as u8)
        } else {
            None
        },
{
    assert(id >= 0x8000_0000 ==> ((id >> 24) & 0x7F) == (id - 0x8000_0000) / 0x100_0000)
        by (bit_vector);
}

/// No rule-safe action is scene-global.
pub proof fn law_rule_safe_is_never_scene_global(command: RattyAiCommand)
    ensures
        command.rule_safe_action() ==> !command.scene_global(),
{
}

/// Which commands are of which class. What every terminal shows changes with
/// the mode, the warp, a reset and the avatar's look; a rule may flash, pulse,
/// tint, think, doubt and brood; rules, sensors, presence and notes are of the
/// control plane.
pub proof fn law_classes_of_commands(command: RattyAiCommand)
    ensures
        command.scene_global() <==> command is SetMode || command is SetWarp || command is Reset
            || command is AvatarSet || command is AvatarShow || command is AvatarHide,
        command.rule_safe_action() <==> command is Flash || command is Pulse || command is Tint
            || command is Think || command is Confidence || command is Mood,
        command.macro_control() <==> command is MacroRecord || command is MacroStop
            || command is MacroPlay || command is MacroExport || command is MacroRun,
        command.execution_control() <==> command is AvatarStopSpeaking || command is AvatarCancel,
        command.control_plane() <==> command is RuleSet || command is RuleRemove
            || command is RuleEnable || command is RuleDisable || command is SensorPublish
            || command is SensorRemove || command is UserJoin || command is UserRenew
            || command is UserCursor || command is UserLeave || command is Note
            || command is NoteRemove,
{
}

/// Whether two commands are the same, field by field.
pub open spec fn alike(a: RattyAiCommand, b: RattyAiCommand) -> bool {
    match (a, b) {
        (RattyAiCommand::SetMode { mode: mode1 }, RattyAiCommand::SetMode { mode: mode2 }) => mode1@ == mode2@,
        (RattyAiCommand::SetWarp { intensity: intensity1 }, RattyAiCommand::SetWarp { intensity: intensity2 }) => intensity1 == intensity2,
        (RattyAiCommand::Reset, RattyAiCommand::Reset) => true,
        (RattyAiCommand::Flash { color: color1, duration: duration1 }, RattyAiCommand::Flash { color: color2, duration: duration2 }) => color1@ == color2@ && duration1 == duration2,
        (RattyAiCommand::Pulse { intensity: intensity1, duration: duration1 }, RattyAiCommand::Pulse { intensity: intensity2, duration: duration2 }) => intensity1 == intensity2 && duration1 == duration2,
        (RattyAiCommand::Tint { color: color1, opacity: opacity1 }, RattyAiCommand::Tint { color: color2, opacity: opacity2 }) => color1@ == color2@ && opacity1 == opacity2,
        (RattyAiCommand::Think { state: state1 }, RattyAiCommand::Think { state: state2 }) => state1@ == state2@,
        (RattyAiCommand::Confidence { level: level1 }, RattyAiCommand::Confidence { level: level2 }) => level1 == level2,
        (RattyAiCommand::Mood { mood: mood1 }, RattyAiCommand::Mood { mood: mood2 }) => mood1@ == mood2@,
        (RattyAiCommand::SpawnObject { id: id1, path: path1, x: x1, y: y1, scale: scale1, spin: spin1, brightness: brightness1, replace: replace1 }, RattyAiCommand::SpawnObject { id: id2, path: path2, x: x2, y: y2, scale: scale2, spin: spin2, brightness: brightness2, replace: replace2 }) => id1 == id2 && path1@ == path2@ && x1 == x2 && y1 == y2 && scale1 == scale2 && spin1 == spin2 && brightness1 == brightness2 && replace1 == replace2,
        (RattyAiCommand::RemoveObject { id: id1 }, RattyAiCommand::RemoveObject { id: id2 }) => id1 == id2,
        (RattyAiCommand::ClearObjects, RattyAiCommand::ClearObjects) => true,
        (RattyAiCommand::UpdateObject { id: id1, x: x1, y: y1, scale: scale1, spin: spin1, brightness: brightness1 }, RattyAiCommand::UpdateObject { id: id2, x: x2, y: y2, scale: scale2, spin: spin2, brightness: brightness2 }) => id1 == id2 && x1 == x2 && y1 == y2 && scale1 == scale2 && spin1 == spin2 && brightness1 == brightness2,
        (RattyAiCommand::UpdateCursor { model: model1, spin: spin1, bob_speed: bob_speed1, bob_amp: bob_amp1, brightness: brightness1, visible: visible1 }, RattyAiCommand::UpdateCursor { model: model2, spin: spin2, bob_speed: bob_speed2, bob_amp: bob_amp2, brightness: brightness2, visible: visible2 }) => same_maybe_text(model1, model2) && spin1 == spin2 && bob_speed1 == bob_speed2 && bob_amp1 == bob_amp2 && brightness1 == brightness2 && visible1 == visible2,
        (RattyAiCommand::VizSet { payload: payload1 }, RattyAiCommand::VizSet { payload: payload2 }) => payload1@ == payload2@,
        (RattyAiCommand::VizEffect { payload: payload1 }, RattyAiCommand::VizEffect { payload: payload2 }) => payload1@ == payload2@,
        (RattyAiCommand::VizRemove { payload: payload1 }, RattyAiCommand::VizRemove { payload: payload2 }) => payload1@ == payload2@,
        (RattyAiCommand::SoundPlay { payload: payload1 }, RattyAiCommand::SoundPlay { payload: payload2 }) => payload1@ == payload2@,
        (RattyAiCommand::SoundAmbientSet { payload: payload1 }, RattyAiCommand::SoundAmbientSet { payload: payload2 }) => payload1@ == payload2@,
        (RattyAiCommand::SoundAmbientStop, RattyAiCommand::SoundAmbientStop) => true,
        (RattyAiCommand::Bookmark { name: name1, replace: replace1 }, RattyAiCommand::Bookmark { name: name2, replace: replace2 }) => name1@ == name2@ && replace1 == replace2,
        (RattyAiCommand::BookmarkJump { name: name1 }, RattyAiCommand::BookmarkJump { name: name2 }) => name1@ == name2@,
        (RattyAiCommand::MacroRecord { name: name1, replace: replace1 }, RattyAiCommand::MacroRecord { name: name2, replace: replace2 }) => name1@ == name2@ && replace1 == replace2,
        (RattyAiCommand::MacroStop, RattyAiCommand::MacroStop) => true,
        (RattyAiCommand::MacroPlay { name: name1, hash: hash1, rate: rate1, instant: instant1, scope: scope1 }, RattyAiCommand::MacroPlay { name: name2, hash: hash2, rate: rate2, instant: instant2, scope: scope2 }) => name1@ == name2@ && same_maybe_text(hash1, hash2) && rate1 == rate2 && instant1 == instant2 && scope1 == scope2,
        (RattyAiCommand::MacroExport { name: name1, to: to1 }, RattyAiCommand::MacroExport { name: name2, to: to2 }) => name1@ == name2@ && to1@ == to2@,
        (RattyAiCommand::MacroRun { path: path1 }, RattyAiCommand::MacroRun { path: path2 }) => path1@ == path2@,
        (RattyAiCommand::RuleSet { payload: payload1 }, RattyAiCommand::RuleSet { payload: payload2 }) => payload1@ == payload2@,
        (RattyAiCommand::RuleRemove { payload: payload1 }, RattyAiCommand::RuleRemove { payload: payload2 }) => payload1@ == payload2@,
        (RattyAiCommand::RuleEnable { payload: payload1 }, RattyAiCommand::RuleEnable { payload: payload2 }) => payload1@ == payload2@,
        (RattyAiCommand::RuleDisable { payload: payload1 }, RattyAiCommand::RuleDisable { payload: payload2 }) => payload1@ == payload2@,
        (RattyAiCommand::SensorPublish { payload: payload1 }, RattyAiCommand::SensorPublish { payload: payload2 }) => payload1@ == payload2@,
        (RattyAiCommand::SensorRemove { payload: payload1 }, RattyAiCommand::SensorRemove { payload: payload2 }) => payload1@ == payload2@,
        (RattyAiCommand::AvatarSet { model: model1, position: position1, dx: dx1, dy: dy1, scale: scale1 }, RattyAiCommand::AvatarSet { model: model2, position: position2, dx: dx2, dy: dy2, scale: scale2 }) => same_maybe_text(model1, model2) && same_maybe_text(position1, position2) && dx1 == dx2 && dy1 == dy2 && scale1 == scale2,
        (RattyAiCommand::AvatarShow, RattyAiCommand::AvatarShow) => true,
        (RattyAiCommand::AvatarHide, RattyAiCommand::AvatarHide) => true,
        (RattyAiCommand::AvatarGesture { gesture: gesture1 }, RattyAiCommand::AvatarGesture { gesture: gesture2 }) => gesture1@ == gesture2@,
        (RattyAiCommand::AvatarSpeak { text: text1, from: from1, duration: duration1 }, RattyAiCommand::AvatarSpeak { text: text2, from: from2, duration: duration2 }) => text1@ == text2@ && same_maybe_text(from1, from2) && duration1 == duration2,
        (RattyAiCommand::AvatarStopSpeaking, RattyAiCommand::AvatarStopSpeaking) => true,
        (RattyAiCommand::AvatarCancel { execution_id: execution_id1 }, RattyAiCommand::AvatarCancel { execution_id: execution_id2 }) => execution_id1@ == execution_id2@,
        (RattyAiCommand::AvatarSpeechClear { scope: scope1 }, RattyAiCommand::AvatarSpeechClear { scope: scope2 }) => scope1 == scope2,
        (RattyAiCommand::UserJoin { id: id1, name: name1, color: color1, ttl: ttl1, replace: replace1 }, RattyAiCommand::UserJoin { id: id2, name: name2, color: color2, ttl: ttl2, replace: replace2 }) => id1@ == id2@ && name1@ == name2@ && color1@ == color2@ && ttl1 == ttl2 && replace1 == replace2,
        (RattyAiCommand::UserRenew { payload: payload1 }, RattyAiCommand::UserRenew { payload: payload2 }) => payload1@ == payload2@,
        (RattyAiCommand::UserCursor { payload: payload1 }, RattyAiCommand::UserCursor { payload: payload2 }) => payload1@ == payload2@,
        (RattyAiCommand::UserLeave { payload: payload1 }, RattyAiCommand::UserLeave { payload: payload2 }) => payload1@ == payload2@,
        (RattyAiCommand::Note { payload: payload1 }, RattyAiCommand::Note { payload: payload2 }) => payload1@ == payload2@,
        (RattyAiCommand::NoteRemove { id: id1 }, RattyAiCommand::NoteRemove { id: id2 }) => id1@ == id2@,
        _ => false,
    }
}

/// Whether two texts are the same, or both are absent.
pub open spec fn same_maybe_text(a: Option<String>, b: Option<String>) -> bool {
    match (a, b) {
        (Some(a), Some(b)) => a@ == b@,
        (None, None) => true,
        _ => false,
    }
}

proof fn lemma_u32_peels(n: u32, x: Seq<u8>, m: u32, y: Seq<u8>)
    requires
        u32_bytes(n) + x == u32_bytes(m) + y,
    ensures
        n == m,
        x == y,
{
    let (a, b) = (u32_bytes(n), u32_bytes(m));
    assert((a + x)[0] == a[0] && (a + x)[1] == a[1] && (a + x)[2] == a[2] && (a + x)[3] == a[3]);
    assert((b + y)[0] == b[0] && (b + y)[1] == b[1] && (b + y)[2] == b[2] && (b + y)[3] == b[3]);
    assert(x =~= (a + x).skip(4));
    assert(y =~= (b + y).skip(4));
    assert(n == n % 256 + 256 * (n / 256 % 256) + 65536 * (n / 65536 % 256) + 16777216 * (n
        / 16777216 % 256));
    assert(m == m % 256 + 256 * (m / 256 % 256) + 65536 * (m / 65536 % 256) + 16777216 * (m
        / 16777216 % 256));
}

proof fn lemma_characters(c: char, d: char)
    ensures
        c as u32 != u32::MAX,
        c as u32 == d as u32 ==> c == d,
{
}

proof fn lemma_text_peels(a: Seq<char>, x: Seq<u8>, b: Seq<char>, y: Seq<u8>)
    requires
        text_bytes(a) + x == text_bytes(b) + y,
    ensures
        a == b,
        x == y,
    decreases a.len(),
{
    let left = text_bytes(a) + x;
    let right = text_bytes(b) + y;
    if a.len() == 0 && b.len() == 0 {
        lemma_u32_peels(u32::MAX, x, u32::MAX, y);
        assert(a =~= b);
    } else if a.len() == 0 {
        let rest = text_bytes(b.drop_first()) + y;
        assert(right =~= u32_bytes(b[0] as u32) + rest);
        lemma_u32_peels(u32::MAX, x, b[0] as u32, rest);
        lemma_characters(b[0], b[0]);
    } else if b.len() == 0 {
        let rest = text_bytes(a.drop_first()) + x;
        assert(left =~= u32_bytes(a[0] as u32) + rest);
        lemma_u32_peels(a[0] as u32, rest, u32::MAX, y);
        lemma_characters(a[0], a[0]);
    } else {
        let one = text_bytes(a.drop_first()) + x;
        let two = text_bytes(b.drop_first()) + y;
        assert(left =~= u32_bytes(a[0] as u32) + one);
        assert(right =~= u32_bytes(b[0] as u32) + two);
        lemma_u32_peels(a[0] as u32, one, b[0] as u32, two);
        lemma_characters(a[0], b[0]);
        lemma_text_peels(a.drop_first(), x, b.drop_first(), y);
        assert(a =~= seq![a[0]] + a.drop_first());
        assert(b =~= seq![b[0]] + b.drop_first());
    }
}

proof fn lemma_flag_peels(a: bool, x: Seq<u8>, b: bool, y: Seq<u8>)
    requires
        flag_bytes(a) + x == flag_bytes(b) + y,
    ensures
        a == b,
        x == y,
{
    lemma_u32_peels(
        if a {
            1
        } else {
            0
        },
        x,
        if b {
            1
        } else {
            0
        },
        y,
    );
}

proof fn lemma_maybe_u16_peels(a: Option<u16>, x: Seq<u8>, b: Option<u16>, y: Seq<u8>)
    requires
        maybe_u16_bytes(a) + x == maybe_u16_bytes(b) + y,
    ensures
        a == b,
        x == y,
{
    let tail = |t: Option<u16>, z: Seq<u8>|
        match t {
            Some(v) => u32_bytes(v as u32) + z,
            None => z,
        };
    let head = |t: Option<u16>|
        if t is Some {
            1u32
        } else {
            0u32
        };
    assert(maybe_u16_bytes(a) + x =~= u32_bytes(head(a)) + tail(a, x));
    assert(maybe_u16_bytes(b) + y =~= u32_bytes(head(b)) + tail(b, y));
    lemma_u32_peels(head(a), tail(a, x), head(b), tail(b, y));
    if a is Some && b is Some {
        lemma_u32_peels(a->0 as u32, x, b->0 as u32, y);
    }
}

proof fn lemma_maybe_single_peels(a: Option<Single>, x: Seq<u8>, b: Option<Single>, y: Seq<u8>)
    requires
        maybe_single_bytes(a) + x == maybe_single_bytes(b) + y,
    ensures
        a == b,
        x == y,
{
    let tail = |t: Option<Single>, z: Seq<u8>|
        match t {
            Some(v) => u32_bytes(v.bits) + z,
            None => z,
        };
    let head = |t: Option<Single>|
        if t is Some {
            1u32
        } else {
            0u32
        };
    assert(maybe_single_bytes(a) + x =~= u32_bytes(head(a)) + tail(a, x));
    assert(maybe_single_bytes(b) + y =~= u32_bytes(head(b)) + tail(b, y));
    lemma_u32_peels(head(a), tail(a, x), head(b), tail(b, y));
    if a is Some && b is Some {
        lemma_u32_peels(a->0.bits, x, b->0.bits, y);
    }
}

proof fn lemma_maybe_flag_peels(a: Option<bool>, x: Seq<u8>, b: Option<bool>, y: Seq<u8>)
    requires
        maybe_flag_bytes(a) + x == maybe_flag_bytes(b) + y,
    ensures
        a == b,
        x == y,
{
    let tail = |t: Option<bool>, z: Seq<u8>|
        match t {
            Some(v) => flag_bytes(v) + z,
            None => z,
        };
    let head = |t: Option<bool>|
        if t is Some {
            1u32
        } else {
            0u32
        };
    assert(maybe_flag_bytes(a) + x =~= u32_bytes(head(a)) + tail(a, x));
    assert(maybe_flag_bytes(b) + y =~= u32_bytes(head(b)) + tail(b, y));
    lemma_u32_peels(head(a), tail(a, x), head(b), tail(b, y));
    if a is Some && b is Some {
        lemma_flag_peels(a->0, x, b->0, y);
    }
}

proof fn lemma_maybe_text_peels(a: Option<String>, x: Seq<u8>, b: Option<String>, y: Seq<u8>)
    requires
        maybe_text_bytes(a) + x == maybe_text_bytes(b) + y,
    ensures
        same_maybe_text(a, b),
        x == y,
{
    let tail = |t: Option<String>, z: Seq<u8>|
        match t {
            Some(v) => text_bytes(v@) + z,
            None => z,
        };
    let head = |t: Option<String>|
        if t is Some {
            1u32
        } else {
            0u32
        };
    assert(maybe_text_bytes(a) + x =~= u32_bytes(head(a)) + tail(a, x));
    assert(maybe_text_bytes(b) + y =~= u32_bytes(head(b)) + tail(b, y));
    lemma_u32_peels(head(a), tail(a, x), head(b), tail(b, y));
    if a is Some && b is Some {
        lemma_text_peels(a->0@, x, b->0@, y);
    }
}

proof fn lemma_maybe_scope_peels(a: Option<MacroScope>, x: Seq<u8>, b: Option<MacroScope>, y: Seq<u8>)
    requires
        maybe_scope_bytes(a) + x == maybe_scope_bytes(b) + y,
    ensures
        a == b,
        x == y,
{
    let tail = |t: Option<MacroScope>, z: Seq<u8>|
        match t {
            Some(v) => u32_bytes(scope_number(v)) + z,
            None => z,
        };
    let head = |t: Option<MacroScope>|
        if t is Some {
            1u32
        } else {
            0u32
        };
    assert(maybe_scope_bytes(a) + x =~= u32_bytes(head(a)) + tail(a, x));
    assert(maybe_scope_bytes(b) + y =~= u32_bytes(head(b)) + tail(b, y));
    lemma_u32_peels(head(a), tail(a, x), head(b), tail(b, y));
    if a is Some && b is Some {
        lemma_u32_peels(scope_number(a->0), x, scope_number(b->0), y);
    }
}

proof fn lemma_clear_scope_peels(
    a: SpeechClearScope,
    x: Seq<u8>,
    b: SpeechClearScope,
    y: Seq<u8>,
)
    requires
        clear_scope_bytes(a) + x == clear_scope_bytes(b) + y,
    ensures
        a == b,
        x == y,
{
    let tail = |t: SpeechClearScope, z: Seq<u8>|
        match t {
            SpeechClearScope::Namespace(namespace) => u32_bytes(namespace as u32) + z,
            _ => z,
        };
    let head = |t: SpeechClearScope|
        match t {
            SpeechClearScope::Own => 0u32,
            SpeechClearScope::Namespace(_) => 1u32,
            SpeechClearScope::All => 2u32,
        };
    assert(clear_scope_bytes(a) + x =~= u32_bytes(head(a)) + tail(a, x));
    assert(clear_scope_bytes(b) + y =~= u32_bytes(head(b)) + tail(b, y));
    lemma_u32_peels(head(a), tail(a, x), head(b), tail(b, y));
    if a is Namespace && b is Namespace {
        lemma_u32_peels(a->Namespace_0 as u32, x, b->Namespace_0 as u32, y);
    }
}

/// The number of a command among the kinds of commands.
pub open spec fn kind_number(command: RattyAiCommand) -> u32 {
    match command {
        RattyAiCommand::SetMode { .. } => 0,
        RattyAiCommand::SetWarp { .. } => 1,
        RattyAiCommand::Reset => 2,
        RattyAiCommand::Flash { .. } => 3,
        RattyAiCommand::Pulse { .. } => 4,
        RattyAiCommand::Tint { .. } => 5,
        RattyAiCommand::Think { .. } => 6,
        RattyAiCommand::Confidence { .. } => 7,
        RattyAiCommand::Mood { .. } => 8,
        RattyAiCommand::SpawnObject { .. } => 9,
        RattyAiCommand::RemoveObject { .. } => 10,
        RattyAiCommand::ClearObjects => 11,
        RattyAiCommand::UpdateObject { .. } => 12,
        RattyAiCommand::UpdateCursor { .. } => 13,
        RattyAiCommand::VizSet { .. } => 14,
        RattyAiCommand::VizEffect { .. } => 15,
        RattyAiCommand::VizRemove { .. } => 16,
        RattyAiCommand::SoundPlay { .. } => 17,
        RattyAiCommand::SoundAmbientSet { .. } => 18,
        RattyAiCommand::SoundAmbientStop => 19,
        RattyAiCommand::Bookmark { .. } => 20,
        RattyAiCommand::BookmarkJump { .. } => 21,
        RattyAiCommand::MacroRecord { .. } => 22,
        RattyAiCommand::MacroStop => 23,
        RattyAiCommand::MacroPlay { .. } => 24,
        RattyAiCommand::MacroExport { .. } => 25,
        RattyAiCommand::MacroRun { .. } => 26,
        RattyAiCommand::RuleSet { .. } => 27,
        RattyAiCommand::RuleRemove { .. } => 28,
        RattyAiCommand::RuleEnable { .. } => 29,
        RattyAiCommand::RuleDisable { .. } => 30,
        RattyAiCommand::SensorPublish { .. } => 31,
        RattyAiCommand::SensorRemove { .. } => 32,
        RattyAiCommand::AvatarSet { .. } => 33,
        RattyAiCommand::AvatarShow => 34,
        RattyAiCommand::AvatarHide => 35,
        RattyAiCommand::AvatarGesture { .. } => 36,
        RattyAiCommand::AvatarSpeak { .. } => 37,
        RattyAiCommand::AvatarStopSpeaking => 38,
        RattyAiCommand::AvatarCancel { .. } => 39,
        RattyAiCommand::AvatarSpeechClear { .. } => 40,
        RattyAiCommand::UserJoin { .. } => 41,
        RattyAiCommand::UserRenew { .. } => 42,
        RattyAiCommand::UserCursor { .. } => 43,
        RattyAiCommand::UserLeave { .. } => 44,
        RattyAiCommand::Note { .. } => 45,
        RattyAiCommand::NoteRemove { .. } => 46,
    }
}

spec fn fields_then(command: RattyAiCommand, rest: Seq<u8>) -> Seq<u8> {
    match command {
        RattyAiCommand::SetMode { mode } => (text_bytes(mode@) + rest),
        RattyAiCommand::SetWarp { intensity } => (u32_bytes(intensity.bits) + rest),
        RattyAiCommand::Reset => rest,
        RattyAiCommand::Flash { color, duration } => (text_bytes(color@) + (u32_bytes(duration.bits) + rest)),
        RattyAiCommand::Pulse { intensity, duration } => (u32_bytes(intensity.bits) + (u32_bytes(duration.bits) + rest)),
        RattyAiCommand::Tint { color, opacity } => (text_bytes(color@) + (u32_bytes(opacity.bits) + rest)),
        RattyAiCommand::Think { state } => (text_bytes(state@) + rest),
        RattyAiCommand::Confidence { level } => (u32_bytes(level.bits) + rest),
        RattyAiCommand::Mood { mood } => (text_bytes(mood@) + rest),
        RattyAiCommand::SpawnObject { id, path, x, y, scale, spin, brightness, replace } => (u32_bytes(id) + (text_bytes(path@) + (u32_bytes(x as u32) + (u32_bytes(y as u32) + (u32_bytes(scale.bits) + (u32_bytes(spin.bits) + (u32_bytes(brightness.bits) + (flag_bytes(replace) + rest)))))))),
        RattyAiCommand::RemoveObject { id } => (u32_bytes(id) + rest),
        RattyAiCommand::ClearObjects => rest,
        RattyAiCommand::UpdateObject { id, x, y, scale, spin, brightness } => (u32_bytes(id) + (maybe_u16_bytes(x) + (maybe_u16_bytes(y) + (maybe_single_bytes(scale) + (maybe_single_bytes(spin) + (maybe_single_bytes(brightness) + rest)))))),
        RattyAiCommand::UpdateCursor { model, spin, bob_speed, bob_amp, brightness, visible } => (maybe_text_bytes(model) + (maybe_single_bytes(spin) + (maybe_single_bytes(bob_speed) + (maybe_single_bytes(bob_amp) + (maybe_single_bytes(brightness) + (maybe_flag_bytes(visible) + rest)))))),
        RattyAiCommand::VizSet { payload } => (text_bytes(payload@) + rest),
        RattyAiCommand::VizEffect { payload } => (text_bytes(payload@) + rest),
        RattyAiCommand::VizRemove { payload } => (text_bytes(payload@) + rest),
        RattyAiCommand::SoundPlay { payload } => (text_bytes(payload@) + rest),
        RattyAiCommand::SoundAmbientSet { payload } => (text_bytes(payload@) + rest),
        RattyAiCommand::SoundAmbientStop => rest,
        RattyAiCommand::Bookmark { name, replace } => (text_bytes(name@) + (flag_bytes(replace) + rest)),
        RattyAiCommand::BookmarkJump { name } => (text_bytes(name@) + rest),
        RattyAiCommand::MacroRecord { name, replace } => (text_bytes(name@) + (flag_bytes(replace) + rest)),
        RattyAiCommand::MacroStop => rest,
        RattyAiCommand::MacroPlay { name, hash, rate, instant, scope } => (text_bytes(name@) + (maybe_text_bytes(hash) + (u32_bytes(rate.bits) + (flag_bytes(instant) + (maybe_scope_bytes(scope) + rest))))),
        RattyAiCommand::MacroExport { name, to } => (text_bytes(name@) + (text_bytes(to@) + rest)),
        RattyAiCommand::MacroRun { path } => (text_bytes(path@) + rest),
        RattyAiCommand::RuleSet { payload } => (text_bytes(payload@) + rest),
        RattyAiCommand::RuleRemove { payload } => (text_bytes(payload@) + rest),
        RattyAiCommand::RuleEnable { payload } => (text_bytes(payload@) + rest),
        RattyAiCommand::RuleDisable { payload } => (text_bytes(payload@) + rest),
        RattyAiCommand::SensorPublish { payload } => (text_bytes(payload@) + rest),
        RattyAiCommand::SensorRemove { payload } => (text_bytes(payload@) + rest),
        RattyAiCommand::AvatarSet { model, position, dx, dy, scale } => (maybe_text_bytes(model) + (maybe_text_bytes(position) + (maybe_single_bytes(dx) + (maybe_single_bytes(dy) + (maybe_single_bytes(scale) + rest))))),
        RattyAiCommand::AvatarShow => rest,
        RattyAiCommand::AvatarHide => rest,
        RattyAiCommand::AvatarGesture { gesture } => (text_bytes(gesture@) + rest),
        RattyAiCommand::AvatarSpeak { text, from, duration } => (text_bytes(text@) + (maybe_text_bytes(from) + (maybe_single_bytes(duration) + rest))),
        RattyAiCommand::AvatarStopSpeaking => rest,
        RattyAiCommand::AvatarCancel { execution_id } => (text_bytes(execution_id@) + rest),
        RattyAiCommand::AvatarSpeechClear { scope } => (clear_scope_bytes(scope) + rest),
        RattyAiCommand::UserJoin { id, name, color, ttl, replace } => (text_bytes(id@) + (text_bytes(name@) + (text_bytes(color@) + (maybe_single_bytes(ttl) + (flag_bytes(replace) + rest))))),
        RattyAiCommand::UserRenew { payload } => (text_bytes(payload@) + rest),
        RattyAiCommand::UserCursor { payload } => (text_bytes(payload@) + rest),
        RattyAiCommand::UserLeave { payload } => (text_bytes(payload@) + rest),
        RattyAiCommand::Note { payload } => (text_bytes(payload@) + rest),
        RattyAiCommand::NoteRemove { id } => (text_bytes(id@) + rest),
    }
}

proof fn lemma_bytes_of_set_mode(out: Seq<u8>, command: RattyAiCommand, rest: Seq<u8>)
    requires
        command is SetMode,
    ensures
        with_command(out, command) + rest == out + (u32_bytes(0) + fields_then(command, rest)),
{
    match command {
        RattyAiCommand::SetMode { mode } => {
            let b0 = out + u32_bytes(0);
            let b1 = b0 + text_bytes(mode@);
            assert(b1 + rest =~= b0 + (text_bytes(mode@) + rest));
            assert(b0 + (text_bytes(mode@) + rest) =~= out + (u32_bytes(0) + (text_bytes(mode@) + rest)));
        },
        _ => {},
    }
}

proof fn lemma_bytes_of_set_warp(out: Seq<u8>, command: RattyAiCommand, rest: Seq<u8>)
    requires
        command is SetWarp,
    ensures
        with_command(out, command) + rest == out + (u32_bytes(1) + fields_then(command, rest)),
{
    match command {
        RattyAiCommand::SetWarp { intensity } => {
            let b0 = out + u32_bytes(1);
            let b1 = b0 + u32_bytes(intensity.bits);
            assert(b1 + rest =~= b0 + (u32_bytes(intensity.bits) + rest));
            assert(b0 + (u32_bytes(intensity.bits) + rest) =~= out + (u32_bytes(1) + (u32_bytes(intensity.bits) + rest)));
        },
        _ => {},
    }
}

proof fn lemma_bytes_of_reset(out: Seq<u8>, command: RattyAiCommand, rest: Seq<u8>)
    requires
        command is Reset,
    ensures
        with_command(out, command) + rest == out + (u32_bytes(2) + fields_then(command, rest)),
{
    match command {
        RattyAiCommand::Reset => {
            let b0 = out + u32_bytes(2);
            assert(b0 + rest =~= out + (u32_bytes(2) + rest));
        },
        _ => {},
    }
}

proof fn lemma_bytes_of_flash(out: Seq<u8>, command: RattyAiCommand, rest: Seq<u8>)
    requires
        command is Flash,
    ensures
        with_command(out, command) + rest == out + (u32_bytes(3) + fields_then(command, rest)),
{
    match command {
        RattyAiCommand::Flash { color, duration } => {
            let b0 = out + u32_bytes(3);
            let b1 = b0 + text_bytes(color@);
            let b2 = b1 + u32_bytes(duration.bits);
            assert(b2 + rest =~= b1 + (u32_bytes(duration.bits) + rest));
            assert(b1 + (u32_bytes(duration.bits) + rest) =~= b0 + (text_bytes(color@) + (u32_bytes(duration.bits) + rest)));
            assert(b0 + (text_bytes(color@) + (u32_bytes(duration.bits) + rest)) =~= out + (u32_bytes(3) + (text_bytes(color@) + (u32_bytes(duration.bits) + rest))));
        },
        _ => {},
    }
}

proof fn lemma_bytes_of_pulse(out: Seq<u8>, command: RattyAiCommand, rest: Seq<u8>)
    requires
        command is Pulse,
    ensures
        with_command(out, command) + rest == out + (u32_bytes(4) + fields_then(command, rest)),
{
    match command {
        RattyAiCommand::Pulse { intensity, duration } => {
            let b0 = out + u32_bytes(4);
            let b1 = b0 + u32_bytes(intensity.bits);
            let b2 = b1 + u32_bytes(duration.bits);
            assert(b2 + rest =~= b1 + (u32_bytes(duration.bits) + rest));
            assert(b1 + (u32_bytes(duration.bits) + rest) =~= b0 + (u32_bytes(intensity.bits) + (u32_bytes(duration.bits) + rest)));
            assert(b0 + (u32_bytes(intensity.bits) + (u32_bytes(duration.bits) + rest)) =~= out + (u32_bytes(4) + (u32_bytes(intensity.bits) + (u32_bytes(duration.bits) + rest))));
        },
        _ => {},
    }
}

proof fn lemma_bytes_of_tint(out: Seq<u8>, command: RattyAiCommand, rest: Seq<u8>)
    requires
        command is Tint,
    ensures
        with_command(out, command) + rest == out + (u32_bytes(5) + fields_then(command, rest)),
{
    match command {
        RattyAiCommand::Tint { color, opacity } => {
            let b0 = out + u32_bytes(5);
            let b1 = b0 + text_bytes(color@);
            let b2 = b1 + u32_bytes(opacity.bits);
            assert(b2 + rest =~= b1 + (u32_bytes(opacity.bits) + rest));
            assert(b1 + (u32_bytes(opacity.bits) + rest) =~= b0 + (text_bytes(color@) + (u32_bytes(opacity.bits) + rest)));
            assert(b0 + (text_bytes(color@) + (u32_bytes(opacity.bits) + rest)) =~= out + (u32_bytes(5) + (text_bytes(color@) + (u32_bytes(opacity.bits) + rest))));
        },
        _ => {},
    }
}

proof fn lemma_bytes_of_think(out: Seq<u8>, command: RattyAiCommand, rest: Seq<u8>)
    requires
        command is Think,
    ensures
        with_command(out, command) + rest == out + (u32_bytes(6) + fields_then(command, rest)),
{
    match command {
        RattyAiCommand::Think { state } => {
            let b0 = out + u32_bytes(6);
            let b1 = b0 + text_bytes(state@);
            assert(b1 + rest =~= b0 + (text_bytes(state@) + rest));
            assert(b0 + (text_bytes(state@) + rest) =~= out + (u32_bytes(6) + (text_bytes(state@) + rest)));
        },
        _ => {},
    }
}

proof fn lemma_bytes_of_confidence(out: Seq<u8>, command: RattyAiCommand, rest: Seq<u8>)
    requires
        command is Confidence,
    ensures
        with_command(out, command) + rest == out + (u32_bytes(7) + fields_then(command, rest)),
{
    match command {
        RattyAiCommand::Confidence { level } => {
            let b0 = out + u32_bytes(7);
            let b1 = b0 + u32_bytes(level.bits);
            assert(b1 + rest =~= b0 + (u32_bytes(level.bits) + rest));
            assert(b0 + (u32_bytes(level.bits) + rest) =~= out + (u32_bytes(7) + (u32_bytes(level.bits) + rest)));
        },
        _ => {},
    }
}

proof fn lemma_bytes_of_mood(out: Seq<u8>, command: RattyAiCommand, rest: Seq<u8>)
    requires
        command is Mood,
    ensures
        with_command(out, command) + rest == out + (u32_bytes(8) + fields_then(command, rest)),
{
    match command {
        RattyAiCommand::Mood { mood } => {
            let b0 = out + u32_bytes(8);
            let b1 = b0 + text_bytes(mood@);
            assert(b1 + rest =~= b0 + (text_bytes(mood@) + rest));
            assert(b0 + (text_bytes(mood@) + rest) =~= out + (u32_bytes(8) + (text_bytes(mood@) + rest)));
        },
        _ => {},
    }
}

proof fn lemma_bytes_of_spawn_object(out: Seq<u8>, command: RattyAiCommand, rest: Seq<u8>)
    requires
        command is SpawnObject,
    ensures
        with_command(out, command) + rest == out + (u32_bytes(9) + fields_then(command, rest)),
{
    match command {
        RattyAiCommand::SpawnObject { id, path, x, y, scale, spin, brightness, replace } => {
            let b0 = out + u32_bytes(9);
            let b1 = b0 + u32_bytes(id);
            let b2 = b1 + text_bytes(path@);
            let b3 = b2 + u32_bytes(x as u32);
            let b4 = b3 + u32_bytes(y as u32);
            let b5 = b4 + u32_bytes(scale.bits);
            let b6 = b5 + u32_bytes(spin.bits);
            let b7 = b6 + u32_bytes(brightness.bits);
            let b8 = b7 + flag_bytes(replace);
            assert(b8 + rest =~= b7 + (flag_bytes(replace) + rest));
            assert(b7 + (flag_bytes(replace) + rest) =~= b6 + (u32_bytes(brightness.bits) + (flag_bytes(replace) + rest)));
            assert(b6 + (u32_bytes(brightness.bits) + (flag_bytes(replace) + rest)) =~= b5 + (u32_bytes(spin.bits) + (u32_bytes(brightness.bits) + (flag_bytes(replace) + rest))));
            assert(b5 + (u32_bytes(spin.bits) + (u32_bytes(brightness.bits) + (flag_bytes(replace) + rest))) =~= b4 + (u32_bytes(scale.bits) + (u32_bytes(spin.bits) + (u32_bytes(brightness.bits) + (flag_bytes(replace) + rest)))));
            assert(b4 + (u32_bytes(scale.bits) + (u32_bytes(spin.bits) + (u32_bytes(brightness.bits) + (flag_bytes(replace) + rest)))) =~= b3 + (u32_bytes(y as u32) + (u32_bytes(scale.bits) + (u32_bytes(spin.bits) + (u32_bytes(brightness.bits) + (flag_bytes(replace) + rest))))));
            assert(b3 + (u32_bytes(y as u32) + (u32_bytes(scale.bits) + (u32_bytes(spin.bits) + (u32_bytes(brightness.bits) + (flag_bytes(replace) + rest))))) =~= b2 + (u32_bytes(x as u32) + (u32_bytes(y as u32) + (u32_bytes(scale.bits) + (u32_bytes(spin.bits) + (u32_bytes(brightness.bits) + (flag_bytes(replace) + rest)))))));
            assert(b2 + (u32_bytes(x as u32) + (u32_bytes(y as u32) + (u32_bytes(scale.bits) + (u32_bytes(spin.bits) + (u32_bytes(brightness.bits) + (flag_bytes(replace) + rest)))))) =~= b1 + (text_bytes(path@) + (u32_bytes(x as u32) + (u32_bytes(y as u32) + (u32_bytes(scale.bits) + (u32_bytes(spin.bits) + (u32_bytes(brightness.bits) + (flag_bytes(replace) + rest))))))));
            assert(b1 + (text_bytes(path@) + (u32_bytes(x as u32) + (u32_bytes(y as u32) + (u32_bytes(scale.bits) + (u32_bytes(spin.bits) + (u32_bytes(brightness.bits) + (flag_bytes(replace) + rest))))))) =~= b0 + (u32_bytes(id) + (text_bytes(path@) + (u32_bytes(x as u32) + (u32_bytes(y as u32) + (u32_bytes(scale.bits) + (u32_bytes(spin.bits) + (u32_bytes(brightness.bits) + (flag_bytes(replace) + rest)))))))));
            assert(b0 + (u32_bytes(id) + (text_bytes(path@) + (u32_bytes(x as u32) + (u32_bytes(y as u32) + (u32_bytes(scale.bits) + (u32_bytes(spin.bits) + (u32_bytes(brightness.bits) + (flag_bytes(replace) + rest)))))))) =~= out + (u32_bytes(9) + (u32_bytes(id) + (text_bytes(path@) + (u32_bytes(x as u32) + (u32_bytes(y as u32) + (u32_bytes(scale.bits) + (u32_bytes(spin.bits) + (u32_bytes(brightness.bits) + (flag_bytes(replace) + rest))))))))));
        },
        _ => {},
    }
}

proof fn lemma_bytes_of_remove_object(out: Seq<u8>, command: RattyAiCommand, rest: Seq<u8>)
    requires
        command is RemoveObject,
    ensures
        with_command(out, command) + rest == out + (u32_bytes(10) + fields_then(command, rest)),
{
    match command {
        RattyAiCommand::RemoveObject { id } => {
            let b0 = out + u32_bytes(10);
            let b1 = b0 + u32_bytes(id);
            assert(b1 + rest =~= b0 + (u32_bytes(id) + rest));
            assert(b0 + (u32_bytes(id) + rest) =~= out + (u32_bytes(10) + (u32_bytes(id) + rest)));
        },
        _ => {},
    }
}

proof fn lemma_bytes_of_clear_objects(out: Seq<u8>, command: RattyAiCommand, rest: Seq<u8>)
    requires
        command is ClearObjects,
    ensures
        with_command(out, command) + rest == out + (u32_bytes(11) + fields_then(command, rest)),
{
    match command {
        RattyAiCommand::ClearObjects => {
            let b0 = out + u32_bytes(11);
            assert(b0 + rest =~= out + (u32_bytes(11) + rest));
        },
        _ => {},
    }
}

proof fn lemma_bytes_of_update_object(out: Seq<u8>, command: RattyAiCommand, rest: Seq<u8>)
    requires
        command is UpdateObject,
    ensures
        with_command(out, command) + rest == out + (u32_bytes(12) + fields_then(command, rest)),
{
    match command {
        RattyAiCommand::UpdateObject { id, x, y, scale, spin, brightness } => {
            let b0 = out + u32_bytes(12);
            let b1 = b0 + u32_bytes(id);
            let b2 = b1 + maybe_u16_bytes(x);
            let b3 = b2 + maybe_u16_bytes(y);
            let b4 = b3 + maybe_single_bytes(scale);
            let b5 = b4 + maybe_single_bytes(spin);
            let b6 = b5 + maybe_single_bytes(brightness);
            assert(b6 + rest =~= b5 + (maybe_single_bytes(brightness) + rest));
            assert(b5 + (maybe_single_bytes(brightness) + rest) =~= b4 + (maybe_single_bytes(spin) + (maybe_single_bytes(brightness) + rest)));
            assert(b4 + (maybe_single_bytes(spin) + (maybe_single_bytes(brightness) + rest)) =~= b3 + (maybe_single_bytes(scale) + (maybe_single_bytes(spin) + (maybe_single_bytes(brightness) + rest))));
            assert(b3 + (maybe_single_bytes(scale) + (maybe_single_bytes(spin) + (maybe_single_bytes(brightness) + rest))) =~= b2 + (maybe_u16_bytes(y) + (maybe_single_bytes(scale) + (maybe_single_bytes(spin) + (maybe_single_bytes(brightness) + rest)))));
            assert(b2 + (maybe_u16_bytes(y) + (maybe_single_bytes(scale) + (maybe_single_bytes(spin) + (maybe_single_bytes(brightness) + rest)))) =~= b1 + (maybe_u16_bytes(x) + (maybe_u16_bytes(y) + (maybe_single_bytes(scale) + (maybe_single_bytes(spin) + (maybe_single_bytes(brightness) + rest))))));
            assert(b1 + (maybe_u16_bytes(x) + (maybe_u16_bytes(y) + (maybe_single_bytes(scale) + (maybe_single_bytes(spin) + (maybe_single_bytes(brightness) + rest))))) =~= b0 + (u32_bytes(id) + (maybe_u16_bytes(x) + (maybe_u16_bytes(y) + (maybe_single_bytes(scale) + (maybe_single_bytes(spin) + (maybe_single_bytes(brightness) + rest)))))));
            assert(b0 + (u32_bytes(id) + (maybe_u16_bytes(x) + (maybe_u16_bytes(y) + (maybe_single_bytes(scale) + (maybe_single_bytes(spin) + (maybe_single_bytes(brightness) + rest)))))) =~= out + (u32_bytes(12) + (u32_bytes(id) + (maybe_u16_bytes(x) + (maybe_u16_bytes(y) + (maybe_single_bytes(scale) + (maybe_single_bytes(spin) + (maybe_single_bytes(brightness) + rest))))))));
        },
        _ => {},
    }
}

proof fn lemma_bytes_of_update_cursor(out: Seq<u8>, command: RattyAiCommand, rest: Seq<u8>)
    requires
        command is UpdateCursor,
    ensures
        with_command(out, command) + rest == out + (u32_bytes(13) + fields_then(command, rest)),
{
    match command {
        RattyAiCommand::UpdateCursor { model, spin, bob_speed, bob_amp, brightness, visible } => {
            let b0 = out + u32_bytes(13);
            let b1 = b0 + maybe_text_bytes(model);
            let b2 = b1 + maybe_single_bytes(spin);
            let b3 = b2 + maybe_single_bytes(bob_speed);
            let b4 = b3 + maybe_single_bytes(bob_amp);
            let b5 = b4 + maybe_single_bytes(brightness);
            let b6 = b5 + maybe_flag_bytes(visible);
            assert(b6 + rest =~= b5 + (maybe_flag_bytes(visible) + rest));
            assert(b5 + (maybe_flag_bytes(visible) + rest) =~= b4 + (maybe_single_bytes(brightness) + (maybe_flag_bytes(visible) + rest)));
            assert(b4 + (maybe_single_bytes(brightness) + (maybe_flag_bytes(visible) + rest)) =~= b3 + (maybe_single_bytes(bob_amp) + (maybe_single_bytes(brightness) + (maybe_flag_bytes(visible) + rest))));
            assert(b3 + (maybe_single_bytes(bob_amp) + (maybe_single_bytes(brightness) + (maybe_flag_bytes(visible) + rest))) =~= b2 + (maybe_single_bytes(bob_speed) + (maybe_single_bytes(bob_amp) + (maybe_single_bytes(brightness) + (maybe_flag_bytes(visible) + rest)))));
            assert(b2 + (maybe_single_bytes(bob_speed) + (maybe_single_bytes(bob_amp) + (maybe_single_bytes(brightness) + (maybe_flag_bytes(visible) + rest)))) =~= b1 + (maybe_single_bytes(spin) + (maybe_single_bytes(bob_speed) + (maybe_single_bytes(bob_amp) + (maybe_single_bytes(brightness) + (maybe_flag_bytes(visible) + rest))))));
            assert(b1 + (maybe_single_bytes(spin) + (maybe_single_bytes(bob_speed) + (maybe_single_bytes(bob_amp) + (maybe_single_bytes(brightness) + (maybe_flag_bytes(visible) + rest))))) =~= b0 + (maybe_text_bytes(model) + (maybe_single_bytes(spin) + (maybe_single_bytes(bob_speed) + (maybe_single_bytes(bob_amp) + (maybe_single_bytes(brightness) + (maybe_flag_bytes(visible) + rest)))))));
            assert(b0 + (maybe_text_bytes(model) + (maybe_single_bytes(spin) + (maybe_single_bytes(bob_speed) + (maybe_single_bytes(bob_amp) + (maybe_single_bytes(brightness) + (maybe_flag_bytes(visible) + rest)))))) =~= out + (u32_bytes(13) + (maybe_text_bytes(model) + (maybe_single_bytes(spin) + (maybe_single_bytes(bob_speed) + (maybe_single_bytes(bob_amp) + (maybe_single_bytes(brightness) + (maybe_flag_bytes(visible) + rest))))))));
        },
        _ => {},
    }
}

proof fn lemma_bytes_of_viz_set(out: Seq<u8>, command: RattyAiCommand, rest: Seq<u8>)
    requires
        command is VizSet,
    ensures
        with_command(out, command) + rest == out + (u32_bytes(14) + fields_then(command, rest)),
{
    match command {
        RattyAiCommand::VizSet { payload } => {
            let b0 = out + u32_bytes(14);
            let b1 = b0 + text_bytes(payload@);
            assert(b1 + rest =~= b0 + (text_bytes(payload@) + rest));
            assert(b0 + (text_bytes(payload@) + rest) =~= out + (u32_bytes(14) + (text_bytes(payload@) + rest)));
        },
        _ => {},
    }
}

proof fn lemma_bytes_of_viz_effect(out: Seq<u8>, command: RattyAiCommand, rest: Seq<u8>)
    requires
        command is VizEffect,
    ensures
        with_command(out, command) + rest == out + (u32_bytes(15) + fields_then(command, rest)),
{
    match command {
        RattyAiCommand::VizEffect { payload } => {
            let b0 = out + u32_bytes(15);
            let b1 = b0 + text_bytes(payload@);
            assert(b1 + rest =~= b0 + (text_bytes(payload@) + rest));
            assert(b0 + (text_bytes(payload@) + rest) =~= out + (u32_bytes(15) + (text_bytes(payload@) + rest)));
        },
        _ => {},
    }
}

proof fn lemma_bytes_of_viz_remove(out: Seq<u8>, command: RattyAiCommand, rest: Seq<u8>)
    requires
        command is VizRemove,
    ensures
        with_command(out, command) + rest == out + (u32_bytes(16) + fields_then(command, rest)),
{
    match command {
        RattyAiCommand::VizRemove { payload } => {
            let b0 = out + u32_bytes(16);
            let b1 = b0 + text_bytes(payload@);
            assert(b1 + rest =~= b0 + (text_bytes(payload@) + rest));
            assert(b0 + (text_bytes(payload@) + rest) =~= out + (u32_bytes(16) + (text_bytes(payload@) + rest)));
        },
        _ => {},
    }
}

proof fn lemma_bytes_of_sound_play(out: Seq<u8>, command: RattyAiCommand, rest: Seq<u8>)
    requires
        command is SoundPlay,
    ensures
        with_command(out, command) + rest == out + (u32_bytes(17) + fields_then(command, rest)),
{
    match command {
        RattyAiCommand::SoundPlay { payload } => {
            let b0 = out + u32_bytes(17);
            let b1 = b0 + text_bytes(payload@);
            assert(b1 + rest =~= b0 + (text_bytes(payload@) + rest));
            assert(b0 + (text_bytes(payload@) + rest) =~= out + (u32_bytes(17) + (text_bytes(payload@) + rest)));
        },
        _ => {},
    }
}

proof fn lemma_bytes_of_sound_ambient_set(out: Seq<u8>, command: RattyAiCommand, rest: Seq<u8>)
    requires
        command is SoundAmbientSet,
    ensures
        with_command(out, command) + rest == out + (u32_bytes(18) + fields_then(command, rest)),
{
    match command {
        RattyAiCommand::SoundAmbientSet { payload } => {
            let b0 = out + u32_bytes(18);
            let b1 = b0 + text_bytes(payload@);
            assert(b1 + rest =~= b0 + (text_bytes(payload@) + rest));
            assert(b0 + (text_bytes(payload@) + rest) =~= out + (u32_bytes(18) + (text_bytes(payload@) + rest)));
        },
        _ => {},
    }
}

proof fn lemma_bytes_of_sound_ambient_stop(out: Seq<u8>, command: RattyAiCommand, rest: Seq<u8>)
    requires
        command is SoundAmbientStop,
    ensures
        with_command(out, command) + rest == out + (u32_bytes(19) + fields_then(command, rest)),
{
    match command {
        RattyAiCommand::SoundAmbientStop => {
            let b0 = out + u32_bytes(19);
            assert(b0 + rest =~= out + (u32_bytes(19) + rest));
        },
        _ => {},
    }
}

proof fn lemma_bytes_of_bookmark(out: Seq<u8>, command: RattyAiCommand, rest: Seq<u8>)
    requires
        command is Bookmark,
    ensures
        with_command(out, command) + rest == out + (u32_bytes(20) + fields_then(command, rest)),
{
    match command {
        RattyAiCommand::Bookmark { name, replace } => {
            let b0 = out + u32_bytes(20);
            let b1 = b0 + text_bytes(name@);
            let b2 = b1 + flag_bytes(replace);
            assert(b2 + rest =~= b1 + (flag_bytes(replace) + rest));
            assert(b1 + (flag_bytes(replace) + rest) =~= b0 + (text_bytes(name@) + (flag_bytes(replace) + rest)));
            assert(b0 + (text_bytes(name@) + (flag_bytes(replace) + rest)) =~= out + (u32_bytes(20) + (text_bytes(name@) + (flag_bytes(replace) + rest))));
        },
        _ => {},
    }
}

proof fn lemma_bytes_of_bookmark_jump(out: Seq<u8>, command: RattyAiCommand, rest: Seq<u8>)
    requires
        command is BookmarkJump,
    ensures
        with_command(out, command) + rest == out + (u32_bytes(21) + fields_then(command, rest)),
{
    match command {
        RattyAiCommand::BookmarkJump { name } => {
            let b0 = out + u32_bytes(21);
            let b1 = b0 + text_bytes(name@);
            assert(b1 + rest =~= b0 + (text_bytes(name@) + rest));
            assert(b0 + (text_bytes(name@) + rest) =~= out + (u32_bytes(21) + (text_bytes(name@) + rest)));
        },
        _ => {},
    }
}

proof fn lemma_bytes_of_macro_record(out: Seq<u8>, command: RattyAiCommand, rest: Seq<u8>)
    requires
        command is MacroRecord,
    ensures
        with_command(out, command) + rest == out + (u32_bytes(22) + fields_then(command, rest)),
{
    match command {
        RattyAiCommand::MacroRecord { name, replace } => {
            let b0 = out + u32_bytes(22);
            let b1 = b0 + text_bytes(name@);
            let b2 = b1 + flag_bytes(replace);
            assert(b2 + rest =~= b1 + (flag_bytes(replace) + rest));
            assert(b1 + (flag_bytes(replace) + rest) =~= b0 + (text_bytes(name@) + (flag_bytes(replace) + rest)));
            assert(b0 + (text_bytes(name@) + (flag_bytes(replace) + rest)) =~= out + (u32_bytes(22) + (text_bytes(name@) + (flag_bytes(replace) + rest))));
        },
        _ => {},
    }
}

proof fn lemma_bytes_of_macro_stop(out: Seq<u8>, command: RattyAiCommand, rest: Seq<u8>)
    requires
        command is MacroStop,
    ensures
        with_command(out, command) + rest == out + (u32_bytes(23) + fields_then(command, rest)),
{
    match command {
        RattyAiCommand::MacroStop => {
            let b0 = out + u32_bytes(23);
            assert(b0 + rest =~= out + (u32_bytes(23) + rest));
        },
        _ => {},
    }
}

proof fn lemma_bytes_of_macro_play(out: Seq<u8>, command: RattyAiCommand, rest: Seq<u8>)
    requires
        command is MacroPlay,
    ensures
        with_command(out, command) + rest == out + (u32_bytes(24) + fields_then(command, rest)),
{
    match command {
        RattyAiCommand::MacroPlay { name, hash, rate, instant, scope } => {
            let b0 = out + u32_bytes(24);
            let b1 = b0 + text_bytes(name@);
            let b2 = b1 + maybe_text_bytes(hash);
            let b3 = b2 + u32_bytes(rate.bits);
            let b4 = b3 + flag_bytes(instant);
            let b5 = b4 + maybe_scope_bytes(scope);
            assert(b5 + rest =~= b4 + (maybe_scope_bytes(scope) + rest));
            assert(b4 + (maybe_scope_bytes(scope) + rest) =~= b3 + (flag_bytes(instant) + (maybe_scope_bytes(scope) + rest)));
            assert(b3 + (flag_bytes(instant) + (maybe_scope_bytes(scope) + rest)) =~= b2 + (u32_bytes(rate.bits) + (flag_bytes(instant) + (maybe_scope_bytes(scope) + rest))));
            assert(b2 + (u32_bytes(rate.bits) + (flag_bytes(instant) + (maybe_scope_bytes(scope) + rest))) =~= b1 + (maybe_text_bytes(hash) + (u32_bytes(rate.bits) + (flag_bytes(instant) + (maybe_scope_bytes(scope) + rest)))));
            assert(b1 + (maybe_text_bytes(hash) + (u32_bytes(rate.bits) + (flag_bytes(instant) + (maybe_scope_bytes(scope) + rest)))) =~= b0 + (text_bytes(name@) + (maybe_text_bytes(hash) + (u32_bytes(rate.bits) + (flag_bytes(instant) + (maybe_scope_bytes(scope) + rest))))));
            assert(b0 + (text_bytes(name@) + (maybe_text_bytes(hash) + (u32_bytes(rate.bits) + (flag_bytes(instant) + (maybe_scope_bytes(scope) + rest))))) =~= out + (u32_bytes(24) + (text_bytes(name@) + (maybe_text_bytes(hash) + (u32_bytes(rate.bits) + (flag_bytes(instant) + (maybe_scope_bytes(scope) + rest)))))));
        },
        _ => {},
    }
}

proof fn lemma_bytes_of_macro_export(out: Seq<u8>, command: RattyAiCommand, rest: Seq<u8>)
    requires
        command is MacroExport,
    ensures
        with_command(out, command) + rest == out + (u32_bytes(25) + fields_then(command, rest)),
{
    match command {
        RattyAiCommand::MacroExport { name, to } => {
            let b0 = out + u32_bytes(25);
            let b1 = b0 + text_bytes(name@);
            let b2 = b1 + text_bytes(to@);
            assert(b2 + rest =~= b1 + (text_bytes(to@) + rest));
            assert(b1 + (text_bytes(to@) + rest) =~= b0 + (text_bytes(name@) + (text_bytes(to@) + rest)));
            assert(b0 + (text_bytes(name@) + (text_bytes(to@) + rest)) =~= out + (u32_bytes(25) + (text_bytes(name@) + (text_bytes(to@) + rest))));
        },
        _ => {},
    }
}

proof fn lemma_bytes_of_macro_run(out: Seq<u8>, command: RattyAiCommand, rest: Seq<u8>)
    requires
        command is MacroRun,
    ensures
        with_command(out, command) + rest == out + (u32_bytes(26) + fields_then(command, rest)),
{
    match command {
        RattyAiCommand::MacroRun { path } => {
            let b0 = out + u32_bytes(26);
            let b1 = b0 + text_bytes(path@);
            assert(b1 + rest =~= b0 + (text_bytes(path@) + rest));
            assert(b0 + (text_bytes(path@) + rest) =~= out + (u32_bytes(26) + (text_bytes(path@) + rest)));
        },
        _ => {},
    }
}

proof fn lemma_bytes_of_rule_set(out: Seq<u8>, command: RattyAiCommand, rest: Seq<u8>)
    requires
        command is RuleSet,
    ensures
        with_command(out, command) + rest == out + (u32_bytes(27) + fields_then(command, rest)),
{
    match command {
        RattyAiCommand::RuleSet { payload } => {
            let b0 = out + u32_bytes(27);
            let b1 = b0 + text_bytes(payload@);
            assert(b1 + rest =~= b0 + (text_bytes(payload@) + rest));
            assert(b0 + (text_bytes(payload@) + rest) =~= out + (u32_bytes(27) + (text_bytes(payload@) + rest)));
        },
        _ => {},
    }
}

proof fn lemma_bytes_of_rule_remove(out: Seq<u8>, command: RattyAiCommand, rest: Seq<u8>)
    requires
        command is RuleRemove,
    ensures
        with_command(out, command) + rest == out + (u32_bytes(28) + fields_then(command, rest)),
{
    match command {
        RattyAiCommand::RuleRemove { payload } => {
            let b0 = out + u32_bytes(28);
            let b1 = b0 + text_bytes(payload@);
            assert(b1 + rest =~= b0 + (text_bytes(payload@) + rest));
            assert(b0 + (text_bytes(payload@) + rest) =~= out + (u32_bytes(28) + (text_bytes(payload@) + rest)));
        },
        _ => {},
    }
}

proof fn lemma_bytes_of_rule_enable(out: Seq<u8>, command: RattyAiCommand, rest: Seq<u8>)
    requires
        command is RuleEnable,
    ensures
        with_command(out, command) + rest == out + (u32_bytes(29) + fields_then(command, rest)),
{
    match command {
        RattyAiCommand::RuleEnable { payload } => {
            let b0 = out + u32_bytes(29);
            let b1 = b0 + text_bytes(payload@);
            assert(b1 + rest =~= b0 + (text_bytes(payload@) + rest));
            assert(b0 + (text_bytes(payload@) + rest) =~= out + (u32_bytes(29) + (text_bytes(payload@) + rest)));
        },
        _ => {},
    }
}

proof fn lemma_bytes_of_rule_disable(out: Seq<u8>, command: RattyAiCommand, rest: Seq<u8>)
    requires
        command is RuleDisable,
    ensures
        with_command(out, command) + rest == out + (u32_bytes(30) + fields_then(command, rest)),
{
    match command {
        RattyAiCommand::RuleDisable { payload } => {
            let b0 = out + u32_bytes(30);
            let b1 = b0 + text_bytes(payload@);
            assert(b1 + rest =~= b0 + (text_bytes(payload@) + rest));
            assert(b0 + (text_bytes(payload@) + rest) =~= out + (u32_bytes(30) + (text_bytes(payload@) + rest)));
        },
        _ => {},
    }
}

proof fn lemma_bytes_of_sensor_publish(out: Seq<u8>, command: RattyAiCommand, rest: Seq<u8>)
    requires
        command is SensorPublish,
    ensures
        with_command(out, command) + rest == out + (u32_bytes(31) + fields_then(command, rest)),
{
    match command {
        RattyAiCommand::SensorPublish { payload } => {
            let b0 = out + u32_bytes(31);
            let b1 = b0 + text_bytes(payload@);
            assert(b1 + rest =~= b0 + (text_bytes(payload@) + rest));
            assert(b0 + (text_bytes(payload@) + rest) =~= out + (u32_bytes(31) + (text_bytes(payload@) + rest)));
        },
        _ => {},
    }
}

proof fn lemma_bytes_of_sensor_remove(out: Seq<u8>, command: RattyAiCommand, rest: Seq<u8>)
    requires
        command is SensorRemove,
    ensures
        with_command(out, command) + rest == out + (u32_bytes(32) + fields_then(command, rest)),
{
    match command {
        RattyAiCommand::SensorRemove { payload } => {
            let b0 = out + u32_bytes(32);
            let b1 = b0 + text_bytes(payload@);
            assert(b1 + rest =~= b0 + (text_bytes(payload@) + rest));
            assert(b0 + (text_bytes(payload@) + rest) =~= out + (u32_bytes(32) + (text_bytes(payload@) + rest)));
        },
        _ => {},
    }
}

proof fn lemma_bytes_of_avatar_set(out: Seq<u8>, command: RattyAiCommand, rest: Seq<u8>)
    requires
        command is AvatarSet,
    ensures
        with_command(out, command) + rest == out + (u32_bytes(33) + fields_then(command, rest)),
{
    match command {
        RattyAiCommand::AvatarSet { model, position, dx, dy, scale } => {
            let b0 = out + u32_bytes(33);
            let b1 = b0 + maybe_text_bytes(model);
            let b2 = b1 + maybe_text_bytes(position);
            let b3 = b2 + maybe_single_bytes(dx);
            let b4 = b3 + maybe_single_bytes(dy);
            let b5 = b4 + maybe_single_bytes(scale);
            assert(b5 + rest =~= b4 + (maybe_single_bytes(scale) + rest));
            assert(b4 + (maybe_single_bytes(scale) + rest) =~= b3 + (maybe_single_bytes(dy) + (maybe_single_bytes(scale) + rest)));
            assert(b3 + (maybe_single_bytes(dy) + (maybe_single_bytes(scale) + rest)) =~= b2 + (maybe_single_bytes(dx) + (maybe_single_bytes(dy) + (maybe_single_bytes(scale) + rest))));
            assert(b2 + (maybe_single_bytes(dx) + (maybe_single_bytes(dy) + (maybe_single_bytes(scale) + rest))) =~= b1 + (maybe_text_bytes(position) + (maybe_single_bytes(dx) + (maybe_single_bytes(dy) + (maybe_single_bytes(scale) + rest)))));
            assert(b1 + (maybe_text_bytes(position) + (maybe_single_bytes(dx) + (maybe_single_bytes(dy) + (maybe_single_bytes(scale) + rest)))) =~= b0 + (maybe_text_bytes(model) + (maybe_text_bytes(position) + (maybe_single_bytes(dx) + (maybe_single_bytes(dy) + (maybe_single_bytes(scale) + rest))))));
            assert(b0 + (maybe_text_bytes(model) + (maybe_text_bytes(position) + (maybe_single_bytes(dx) + (maybe_single_bytes(dy) + (maybe_single_bytes(scale) + rest))))) =~= out + (u32_bytes(33) + (maybe_text_bytes(model) + (maybe_text_bytes(position) + (maybe_single_bytes(dx) + (maybe_single_bytes(dy) + (maybe_single_bytes(scale) + rest)))))));
        },
        _ => {},
    }
}

proof fn lemma_bytes_of_avatar_show(out: Seq<u8>, command: RattyAiCommand, rest: Seq<u8>)
    requires
        command is AvatarShow,
    ensures
        with_command(out, command) + rest == out + (u32_bytes(34) + fields_then(command, rest)),
{
    match command {
        RattyAiCommand::AvatarShow => {
            let b0 = out + u32_bytes(34);
            assert(b0 + rest =~= out + (u32_bytes(34) + rest));
        },
        _ => {},
    }
}

proof fn lemma_bytes_of_avatar_hide(out: Seq<u8>, command: RattyAiCommand, rest: Seq<u8>)
    requires
        command is AvatarHide,
    ensures
        with_command(out, command) + rest == out + (u32_bytes(35) + fields_then(command, rest)),
{
    match command {
        RattyAiCommand::AvatarHide => {
            let b0 = out + u32_bytes(35);
            assert(b0 + rest =~= out + (u32_bytes(35) + rest));
        },
        _ => {},
    }
}

proof fn lemma_bytes_of_avatar_gesture(out: Seq<u8>, command: RattyAiCommand, rest: Seq<u8>)
    requires
        command is AvatarGesture,
    ensures
        with_command(out, command) + rest == out + (u32_bytes(36) + fields_then(command, rest)),
{
    match command {
        RattyAiCommand::AvatarGesture { gesture } => {
            let b0 = out + u32_bytes(36);
            let b1 = b0 + text_bytes(gesture@);
            assert(b1 + rest =~= b0 + (text_bytes(gesture@) + rest));
            assert(b0 + (text_bytes(gesture@) + rest) =~= out + (u32_bytes(36) + (text_bytes(gesture@) + rest)));
        },
        _ => {},
    }
}

proof fn lemma_bytes_of_avatar_speak(out: Seq<u8>, command: RattyAiCommand, rest: Seq<u8>)
    requires
        command is AvatarSpeak,
    ensures
        with_command(out, command) + rest == out + (u32_bytes(37) + fields_then(command, rest)),
{
    match command {
        RattyAiCommand::AvatarSpeak { text, from, duration } => {
            let b0 = out + u32_bytes(37);
            let b1 = b0 + text_bytes(text@);
            let b2 = b1 + maybe_text_bytes(from);
            let b3 = b2 + maybe_single_bytes(duration);
            assert(b3 + rest =~= b2 + (maybe_single_bytes(duration) + rest));
            assert(b2 + (maybe_single_bytes(duration) + rest) =~= b1 + (maybe_text_bytes(from) + (maybe_single_bytes(duration) + rest)));
            assert(b1 + (maybe_text_bytes(from) + (maybe_single_bytes(duration) + rest)) =~= b0 + (text_bytes(text@) + (maybe_text_bytes(from) + (maybe_single_bytes(duration) + rest))));
            assert(b0 + (text_bytes(text@) + (maybe_text_bytes(from) + (maybe_single_bytes(duration) + rest))) =~= out + (u32_bytes(37) + (text_bytes(text@) + (maybe_text_bytes(from) + (maybe_single_bytes(duration) + rest)))));
        },
        _ => {},
    }
}

proof fn lemma_bytes_of_avatar_stop_speaking(out: Seq<u8>, command: RattyAiCommand, rest: Seq<u8>)
    requires
        command is AvatarStopSpeaking,
    ensures
        with_command(out, command) + rest == out + (u32_bytes(38) + fields_then(command, rest)),
{
    match command {
        RattyAiCommand::AvatarStopSpeaking => {
            let b0 = out + u32_bytes(38);
            assert(b0 + rest =~= out + (u32_bytes(38) + rest));
        },
        _ => {},
    }
}

proof fn lemma_bytes_of_avatar_cancel(out: Seq<u8>, command: RattyAiCommand, rest: Seq<u8>)
    requires
        command is AvatarCancel,
    ensures
        with_command(out, command) + rest == out + (u32_bytes(39) + fields_then(command, rest)),
{
    match command {
        RattyAiCommand::AvatarCancel { execution_id } => {
            let b0 = out + u32_bytes(39);
            let b1 = b0 + text_bytes(execution_id@);
            assert(b1 + rest =~= b0 + (text_bytes(execution_id@) + rest));
            assert(b0 + (text_bytes(execution_id@) + rest) =~= out + (u32_bytes(39) + (text_bytes(execution_id@) + rest)));
        },
        _ => {},
    }
}

proof fn lemma_bytes_of_avatar_speech_clear(out: Seq<u8>, command: RattyAiCommand, rest: Seq<u8>)
    requires
        command is AvatarSpeechClear,
    ensures
        with_command(out, command) + rest == out + (u32_bytes(40) + fields_then(command, rest)),
{
    match command {
        RattyAiCommand::AvatarSpeechClear { scope } => {
            let b0 = out + u32_bytes(40);
            let b1 = b0 + clear_scope_bytes(scope);
            assert(b1 + rest =~= b0 + (clear_scope_bytes(scope) + rest));
            assert(b0 + (clear_scope_bytes(scope) + rest) =~= out + (u32_bytes(40) + (clear_scope_bytes(scope) + rest)));
        },
        _ => {},
    }
}

proof fn lemma_bytes_of_user_join(out: Seq<u8>, command: RattyAiCommand, rest: Seq<u8>)
    requires
        command is UserJoin,
    ensures
        with_command(out, command) + rest == out + (u32_bytes(41) + fields_then(command, rest)),
{
    match command {
        RattyAiCommand::UserJoin { id, name, color, ttl, replace } => {
            let b0 = out + u32_bytes(41);
            let b1 = b0 + text_bytes(id@);
            let b2 = b1 + text_bytes(name@);
            let b3 = b2 + text_bytes(color@);
            let b4 = b3 + maybe_single_bytes(ttl);
            let b5 = b4 + flag_bytes(replace);
            assert(b5 + rest =~= b4 + (flag_bytes(replace) + rest));
            assert(b4 + (flag_bytes(replace) + rest) =~= b3 + (maybe_single_bytes(ttl) + (flag_bytes(replace) + rest)));
            assert(b3 + (maybe_single_bytes(ttl) + (flag_bytes(replace) + rest)) =~= b2 + (text_bytes(color@) + (maybe_single_bytes(ttl) + (flag_bytes(replace) + rest))));
            assert(b2 + (text_bytes(color@) + (maybe_single_bytes(ttl) + (flag_bytes(replace) + rest))) =~= b1 + (text_bytes(name@) + (text_bytes(color@) + (maybe_single_bytes(ttl) + (flag_bytes(replace) + rest)))));
            assert(b1 + (text_bytes(name@) + (text_bytes(color@) + (maybe_single_bytes(ttl) + (flag_bytes(replace) + rest)))) =~= b0 + (text_bytes(id@) + (text_bytes(name@) + (text_bytes(color@) + (maybe_single_bytes(ttl) + (flag_bytes(replace) + rest))))));
            assert(b0 + (text_bytes(id@) + (text_bytes(name@) + (text_bytes(color@) + (maybe_single_bytes(ttl) + (flag_bytes(replace) + rest))))) =~= out + (u32_bytes(41) + (text_bytes(id@) + (text_bytes(name@) + (text_bytes(color@) + (maybe_single_bytes(ttl) + (flag_bytes(replace) + rest)))))));
        },
        _ => {},
    }
}

proof fn lemma_bytes_of_user_renew(out: Seq<u8>, command: RattyAiCommand, rest: Seq<u8>)
    requires
        command is UserRenew,
    ensures
        with_command(out, command) + rest == out + (u32_bytes(42) + fields_then(command, rest)),
{
    match command {
        RattyAiCommand::UserRenew { payload } => {
            let b0 = out + u32_bytes(42);
            let b1 = b0 + text_bytes(payload@);
            assert(b1 + rest =~= b0 + (text_bytes(payload@) + rest));
            assert(b0 + (text_bytes(payload@) + rest) =~= out + (u32_bytes(42) + (text_bytes(payload@) + rest)));
        },
        _ => {},
    }
}

proof fn lemma_bytes_of_user_cursor(out: Seq<u8>, command: RattyAiCommand, rest: Seq<u8>)
    requires
        command is UserCursor,
    ensures
        with_command(out, command) + rest == out + (u32_bytes(43) + fields_then(command, rest)),
{
    match command {
        RattyAiCommand::UserCursor { payload } => {
            let b0 = out + u32_bytes(43);
            let b1 = b0 + text_bytes(payload@);
            assert(b1 + rest =~= b0 + (text_bytes(payload@) + rest));
            assert(b0 + (text_bytes(payload@) + rest) =~= out + (u32_bytes(43) + (text_bytes(payload@) + rest)));
        },
        _ => {},
    }
}

proof fn lemma_bytes_of_user_leave(out: Seq<u8>, command: RattyAiCommand, rest: Seq<u8>)
    requires
        command is UserLeave,
    ensures
        with_command(out, command) + rest == out + (u32_bytes(44) + fields_then(command, rest)),
{
    match command {
        RattyAiCommand::UserLeave { payload } => {
            let b0 = out + u32_bytes(44);
            let b1 = b0 + text_bytes(payload@);
            assert(b1 + rest =~= b0 + (text_bytes(payload@) + rest));
            assert(b0 + (text_bytes(payload@) + rest) =~= out + (u32_bytes(44) + (text_bytes(payload@) + rest)));
        },
        _ => {},
    }
}

proof fn lemma_bytes_of_note(out: Seq<u8>, command: RattyAiCommand, rest: Seq<u8>)
    requires
        command is Note,
    ensures
        with_command(out, command) + rest == out + (u32_bytes(45) + fields_then(command, rest)),
{
    match command {
        RattyAiCommand::Note { payload } => {
            let b0 = out + u32_bytes(45);
            let b1 = b0 + text_bytes(payload@);
            assert(b1 + rest =~= b0 + (text_bytes(payload@) + rest));
            assert(b0 + (text_bytes(payload@) + rest) =~= out + (u32_bytes(45) + (text_bytes(payload@) + rest)));
        },
        _ => {},
    }
}

proof fn lemma_bytes_of_note_remove(out: Seq<u8>, command: RattyAiCommand, rest: Seq<u8>)
    requires
        command is NoteRemove,
    ensures
        with_command(out, command) + rest == out + (u32_bytes(46) + fields_then(command, rest)),
{
    match command {
        RattyAiCommand::NoteRemove { id } => {
            let b0 = out + u32_bytes(46);
            let b1 = b0 + text_bytes(id@);
            assert(b1 + rest =~= b0 + (text_bytes(id@) + rest));
            assert(b0 + (text_bytes(id@) + rest) =~= out + (u32_bytes(46) + (text_bytes(id@) + rest)));
        },
        _ => {},
    }
}

proof fn lemma_command_bytes(out: Seq<u8>, command: RattyAiCommand, rest: Seq<u8>)
    ensures
        with_command(out, command) + rest == out + (u32_bytes(kind_number(command)) + fields_then(
            command,
            rest,
        )),
{
    match command {
        RattyAiCommand::SetMode { .. } => lemma_bytes_of_set_mode(out, command, rest),
        RattyAiCommand::SetWarp { .. } => lemma_bytes_of_set_warp(out, command, rest),
        RattyAiCommand::Reset => lemma_bytes_of_reset(out, command, rest),
        RattyAiCommand::Flash { .. } => lemma_bytes_of_flash(out, command, rest),
        RattyAiCommand::Pulse { .. } => lemma_bytes_of_pulse(out, command, rest),
        RattyAiCommand::Tint { .. } => lemma_bytes_of_tint(out, command, rest),
        RattyAiCommand::Think { .. } => lemma_bytes_of_think(out, command, rest),
        RattyAiCommand::Confidence { .. } => lemma_bytes_of_confidence(out, command, rest),
        RattyAiCommand::Mood { .. } => lemma_bytes_of_mood(out, command, rest),
        RattyAiCommand::SpawnObject { .. } => lemma_bytes_of_spawn_object(out, command, rest),
        RattyAiCommand::RemoveObject { .. } => lemma_bytes_of_remove_object(out, command, rest),
        RattyAiCommand::ClearObjects => lemma_bytes_of_clear_objects(out, command, rest),
        RattyAiCommand::UpdateObject { .. } => lemma_bytes_of_update_object(out, command, rest),
        RattyAiCommand::UpdateCursor { .. } => lemma_bytes_of_update_cursor(out, command, rest),
        RattyAiCommand::VizSet { .. } => lemma_bytes_of_viz_set(out, command, rest),
        RattyAiCommand::VizEffect { .. } => lemma_bytes_of_viz_effect(out, command, rest),
        RattyAiCommand::VizRemove { .. } => lemma_bytes_of_viz_remove(out, command, rest),
        RattyAiCommand::SoundPlay { .. } => lemma_bytes_of_sound_play(out, command, rest),
        RattyAiCommand::SoundAmbientSet { .. } => lemma_bytes_of_sound_ambient_set(out, command, rest),
        RattyAiCommand::SoundAmbientStop => lemma_bytes_of_sound_ambient_stop(out, command, rest),
        RattyAiCommand::Bookmark { .. } => lemma_bytes_of_bookmark(out, command, rest),
        RattyAiCommand::BookmarkJump { .. } => lemma_bytes_of_bookmark_jump(out, command, rest),
        RattyAiCommand::MacroRecord { .. } => lemma_bytes_of_macro_record(out, command, rest),
        RattyAiCommand::MacroStop => lemma_bytes_of_macro_stop(out, command, rest),
        RattyAiCommand::MacroPlay { .. } => lemma_bytes_of_macro_play(out, command, rest),
        RattyAiCommand::MacroExport { .. } => lemma_bytes_of_macro_export(out, command, rest),
        RattyAiCommand::MacroRun { .. } => lemma_bytes_of_macro_run(out, command, rest),
        RattyAiCommand::RuleSet { .. } => lemma_bytes_of_rule_set(out, command, rest),
        RattyAiCommand::RuleRemove { .. } => lemma_bytes_of_rule_remove(out, command, rest),
        RattyAiCommand::RuleEnable { .. } => lemma_bytes_of_rule_enable(out, command, rest),
        RattyAiCommand::RuleDisable { .. } => lemma_bytes_of_rule_disable(out, command, rest),
        RattyAiCommand::SensorPublish { .. } => lemma_bytes_of_sensor_publish(out, command, rest),
        RattyAiCommand::SensorRemove { .. } => lemma_bytes_of_sensor_remove(out, command, rest),
        RattyAiCommand::AvatarSet { .. } => lemma_bytes_of_avatar_set(out, command, rest),
        RattyAiCommand::AvatarShow => lemma_bytes_of_avatar_show(out, command, rest),
        RattyAiCommand::AvatarHide => lemma_bytes_of_avatar_hide(out, command, rest),
        RattyAiCommand::AvatarGesture { .. } => lemma_bytes_of_avatar_gesture(out, command, rest),
        RattyAiCommand::AvatarSpeak { .. } => lemma_bytes_of_avatar_speak(out, command, rest),
        RattyAiCommand::AvatarStopSpeaking => lemma_bytes_of_avatar_stop_speaking(out, command, rest),
        RattyAiCommand::AvatarCancel { .. } => lemma_bytes_of_avatar_cancel(out, command, rest),
        RattyAiCommand::AvatarSpeechClear { .. } => lemma_bytes_of_avatar_speech_clear(out, command, rest),
        RattyAiCommand::UserJoin { .. } => lemma_bytes_of_user_join(out, command, rest),
        RattyAiCommand::UserRenew { .. } => lemma_bytes_of_user_renew(out, command, rest),
        RattyAiCommand::UserCursor { .. } => lemma_bytes_of_user_cursor(out, command, rest),
        RattyAiCommand::UserLeave { .. } => lemma_bytes_of_user_leave(out, command, rest),
        RattyAiCommand::Note { .. } => lemma_bytes_of_note(out, command, rest),
        RattyAiCommand::NoteRemove { .. } => lemma_bytes_of_note_remove(out, command, rest),
    }
}

proof fn lemma_fields_of_set_mode(a: RattyAiCommand, x: Seq<u8>, b: RattyAiCommand, y: Seq<u8>)
    requires
        a is SetMode,
        b is SetMode,
        fields_then(a, x) == fields_then(b, y),
    ensures
        alike(a, b),
        x == y,
{
    match (a, b) {
        (RattyAiCommand::SetMode { mode: mode1 }, RattyAiCommand::SetMode { mode: mode2 }) => {
            lemma_text_peels(mode1@, x, mode2@, y);
        },
        _ => {},
    }
}

proof fn lemma_fields_of_set_warp(a: RattyAiCommand, x: Seq<u8>, b: RattyAiCommand, y: Seq<u8>)
    requires
        a is SetWarp,
        b is SetWarp,
        fields_then(a, x) == fields_then(b, y),
    ensures
        alike(a, b),
        x == y,
{
    match (a, b) {
        (RattyAiCommand::SetWarp { intensity: intensity1 }, RattyAiCommand::SetWarp { intensity: intensity2 }) => {
            lemma_u32_peels(intensity1.bits, x, intensity2.bits, y);
        },
        _ => {},
    }
}

proof fn lemma_fields_of_flash(a: RattyAiCommand, x: Seq<u8>, b: RattyAiCommand, y: Seq<u8>)
    requires
        a is Flash,
        b is Flash,
        fields_then(a, x) == fields_then(b, y),
    ensures
        alike(a, b),
        x == y,
{
    match (a, b) {
        (RattyAiCommand::Flash { color: color1, duration: duration1 }, RattyAiCommand::Flash { color: color2, duration: duration2 }) => {
            lemma_text_peels(color1@, u32_bytes(duration1.bits) + x, color2@, u32_bytes(duration2.bits) + y);
            lemma_u32_peels(duration1.bits, x, duration2.bits, y);
        },
        _ => {},
    }
}

proof fn lemma_fields_of_pulse(a: RattyAiCommand, x: Seq<u8>, b: RattyAiCommand, y: Seq<u8>)
    requires
        a is Pulse,
        b is Pulse,
        fields_then(a, x) == fields_then(b, y),
    ensures
        alike(a, b),
        x == y,
{
    match (a, b) {
        (RattyAiCommand::Pulse { intensity: intensity1, duration: duration1 }, RattyAiCommand::Pulse { intensity: intensity2, duration: duration2 }) => {
            lemma_u32_peels(intensity1.bits, u32_bytes(duration1.bits) + x, intensity2.bits, u32_bytes(duration2.bits) + y);
            lemma_u32_peels(duration1.bits, x, duration2.bits, y);
        },
        _ => {},
    }
}

proof fn lemma_fields_of_tint(a: RattyAiCommand, x: Seq<u8>, b: RattyAiCommand, y: Seq<u8>)
    requires
        a is Tint,
        b is Tint,
        fields_then(a, x) == fields_then(b, y),
    ensures
        alike(a, b),
        x == y,
{
    match (a, b) {
        (RattyAiCommand::Tint { color: color1, opacity: opacity1 }, RattyAiCommand::Tint { color: color2, opacity: opacity2 }) => {
            lemma_text_peels(color1@, u32_bytes(opacity1.bits) + x, color2@, u32_bytes(opacity2.bits) + y);
            lemma_u32_peels(opacity1.bits, x, opacity2.bits, y);
        },
        _ => {},
    }
}

proof fn lemma_fields_of_think(a: RattyAiCommand, x: Seq<u8>, b: RattyAiCommand, y: Seq<u8>)
    requires
        a is Think,
        b is Think,
        fields_then(a, x) == fields_then(b, y),
    ensures
        alike(a, b),
        x == y,
{
    match (a, b) {
        (RattyAiCommand::Think { state: state1 }, RattyAiCommand::Think { state: state2 }) => {
            lemma_text_peels(state1@, x, state2@, y);
        },
        _ => {},
    }
}

proof fn lemma_fields_of_confidence(a: RattyAiCommand, x: Seq<u8>, b: RattyAiCommand, y: Seq<u8>)
    requires
        a is Confidence,
        b is Confidence,
        fields_then(a, x) == fields_then(b, y),
    ensures
        alike(a, b),
        x == y,
{
    match (a, b) {
        (RattyAiCommand::Confidence { level: level1 }, RattyAiCommand::Confidence { level: level2 }) => {
            lemma_u32_peels(level1.bits, x, level2.bits, y);
        },
        _ => {},
    }
}

proof fn lemma_fields_of_mood(a: RattyAiCommand, x: Seq<u8>, b: RattyAiCommand, y: Seq<u8>)
    requires
        a is Mood,
        b is Mood,
        fields_then(a, x) == fields_then(b, y),
    ensures
        alike(a, b),
        x == y,
{
    match (a, b) {
        (RattyAiCommand::Mood { mood: mood1 }, RattyAiCommand::Mood { mood: mood2 }) => {
            lemma_text_peels(mood1@, x, mood2@, y);
        },
        _ => {},
    }
}

proof fn lemma_fields_of_spawn_object(a: RattyAiCommand, x: Seq<u8>, b: RattyAiCommand, y: Seq<u8>)
    requires
        a is SpawnObject,
        b is SpawnObject,
        fields_then(a, x) == fields_then(b, y),
    ensures
        alike(a, b),
        x == y,
{
    match (a, b) {
        (RattyAiCommand::SpawnObject { id: id1, path: path1, x: x1, y: y1, scale: scale1, spin: spin1, brightness: brightness1, replace: replace1 }, RattyAiCommand::SpawnObject { id: id2, path: path2, x: x2, y: y2, scale: scale2, spin: spin2, brightness: brightness2, replace: replace2 }) => {
            lemma_u32_peels(id1, text_bytes(path1@) + (u32_bytes(x1 as u32) + (u32_bytes(y1 as u32) + (u32_bytes(scale1.bits) + (u32_bytes(spin1.bits) + (u32_bytes(brightness1.bits) + (flag_bytes(replace1) + x)))))), id2, text_bytes(path2@) + (u32_bytes(x2 as u32) + (u32_bytes(y2 as u32) + (u32_bytes(scale2.bits) + (u32_bytes(spin2.bits) + (u32_bytes(brightness2.bits) + (flag_bytes(replace2) + y)))))));
            lemma_text_peels(path1@, u32_bytes(x1 as u32) + (u32_bytes(y1 as u32) + (u32_bytes(scale1.bits) + (u32_bytes(spin1.bits) + (u32_bytes(brightness1.bits) + (flag_bytes(replace1) + x))))), path2@, u32_bytes(x2 as u32) + (u32_bytes(y2 as u32) + (u32_bytes(scale2.bits) + (u32_bytes(spin2.bits) + (u32_bytes(brightness2.bits) + (flag_bytes(replace2) + y))))));
            lemma_u32_peels(x1 as u32, u32_bytes(y1 as u32) + (u32_bytes(scale1.bits) + (u32_bytes(spin1.bits) + (u32_bytes(brightness1.bits) + (flag_bytes(replace1) + x)))), x2 as u32, u32_bytes(y2 as u32) + (u32_bytes(scale2.bits) + (u32_bytes(spin2.bits) + (u32_bytes(brightness2.bits) + (flag_bytes(replace2) + y)))));
            lemma_u32_peels(y1 as u32, u32_bytes(scale1.bits) + (u32_bytes(spin1.bits) + (u32_bytes(brightness1.bits) + (flag_bytes(replace1) + x))), y2 as u32, u32_bytes(scale2.bits) + (u32_bytes(spin2.bits) + (u32_bytes(brightness2.bits) + (flag_bytes(replace2) + y))));
            lemma_u32_peels(scale1.bits, u32_bytes(spin1.bits) + (u32_bytes(brightness1.bits) + (flag_bytes(replace1) + x)), scale2.bits, u32_bytes(spin2.bits) + (u32_bytes(brightness2.bits) + (flag_bytes(replace2) + y)));
            lemma_u32_peels(spin1.bits, u32_bytes(brightness1.bits) + (flag_bytes(replace1) + x), spin2.bits, u32_bytes(brightness2.bits) + (flag_bytes(replace2) + y));
            lemma_u32_peels(brightness1.bits, flag_bytes(replace1) + x, brightness2.bits, flag_bytes(replace2) + y);
            lemma_flag_peels(replace1, x, replace2, y);
        },
        _ => {},
    }
}

proof fn lemma_fields_of_remove_object(a: RattyAiCommand, x: Seq<u8>, b: RattyAiCommand, y: Seq<u8>)
    requires
        a is RemoveObject,
        b is RemoveObject,
        fields_then(a, x) == fields_then(b, y),
    ensures
        alike(a, b),
        x == y,
{
    match (a, b) {
        (RattyAiCommand::RemoveObject { id: id1 }, RattyAiCommand::RemoveObject { id: id2 }) => {
            lemma_u32_peels(id1, x, id2, y);
        },
        _ => {},
    }
}

proof fn lemma_fields_of_update_object(a: RattyAiCommand, x: Seq<u8>, b: RattyAiCommand, y: Seq<u8>)
    requires
        a is UpdateObject,
        b is UpdateObject,
        fields_then(a, x) == fields_then(b, y),
    ensures
        alike(a, b),
        x == y,
{
    match (a, b) {
        (RattyAiCommand::UpdateObject { id: id1, x: x1, y: y1, scale: scale1, spin: spin1, brightness: brightness1 }, RattyAiCommand::UpdateObject { id: id2, x: x2, y: y2, scale: scale2, spin: spin2, brightness: brightness2 }) => {
            lemma_u32_peels(id1, maybe_u16_bytes(x1) + (maybe_u16_bytes(y1) + (maybe_single_bytes(scale1) + (maybe_single_bytes(spin1) + (maybe_single_bytes(brightness1) + x)))), id2, maybe_u16_bytes(x2) + (maybe_u16_bytes(y2) + (maybe_single_bytes(scale2) + (maybe_single_bytes(spin2) + (maybe_single_bytes(brightness2) + y)))));
            lemma_maybe_u16_peels(x1, maybe_u16_bytes(y1) + (maybe_single_bytes(scale1) + (maybe_single_bytes(spin1) + (maybe_single_bytes(brightness1) + x))), x2, maybe_u16_bytes(y2) + (maybe_single_bytes(scale2) + (maybe_single_bytes(spin2) + (maybe_single_bytes(brightness2) + y))));
            lemma_maybe_u16_peels(y1, maybe_single_bytes(scale1) + (maybe_single_bytes(spin1) + (maybe_single_bytes(brightness1) + x)), y2, maybe_single_bytes(scale2) + (maybe_single_bytes(spin2) + (maybe_single_bytes(brightness2) + y)));
            lemma_maybe_single_peels(scale1, maybe_single_bytes(spin1) + (maybe_single_bytes(brightness1) + x), scale2, maybe_single_bytes(spin2) + (maybe_single_bytes(brightness2) + y));
            lemma_maybe_single_peels(spin1, maybe_single_bytes(brightness1) + x, spin2, maybe_single_bytes(brightness2) + y);
            lemma_maybe_single_peels(brightness1, x, brightness2, y);
        },
        _ => {},
    }
}

proof fn lemma_fields_of_update_cursor(a: RattyAiCommand, x: Seq<u8>, b: RattyAiCommand, y: Seq<u8>)
    requires
        a is UpdateCursor,
        b is UpdateCursor,
        fields_then(a, x) == fields_then(b, y),
    ensures
        alike(a, b),
        x == y,
{
    match (a, b) {
        (RattyAiCommand::UpdateCursor { model: model1, spin: spin1, bob_speed: bob_speed1, bob_amp: bob_amp1, brightness: brightness1, visible: visible1 }, RattyAiCommand::UpdateCursor { model: model2, spin: spin2, bob_speed: bob_speed2, bob_amp: bob_amp2, brightness: brightness2, visible: visible2 }) => {
            lemma_maybe_text_peels(model1, maybe_single_bytes(spin1) + (maybe_single_bytes(bob_speed1) + (maybe_single_bytes(bob_amp1) + (maybe_single_bytes(brightness1) + (maybe_flag_bytes(visible1) + x)))), model2, maybe_single_bytes(spin2) + (maybe_single_bytes(bob_speed2) + (maybe_single_bytes(bob_amp2) + (maybe_single_bytes(brightness2) + (maybe_flag_bytes(visible2) + y)))));
            lemma_maybe_single_peels(spin1, maybe_single_bytes(bob_speed1) + (maybe_single_bytes(bob_amp1) + (maybe_single_bytes(brightness1) + (maybe_flag_bytes(visible1) + x))), spin2, maybe_single_bytes(bob_speed2) + (maybe_single_bytes(bob_amp2) + (maybe_single_bytes(brightness2) + (maybe_flag_bytes(visible2) + y))));
            lemma_maybe_single_peels(bob_speed1, maybe_single_bytes(bob_amp1) + (maybe_single_bytes(brightness1) + (maybe_flag_bytes(visible1) + x)), bob_speed2, maybe_single_bytes(bob_amp2) + (maybe_single_bytes(brightness2) + (maybe_flag_bytes(visible2) + y)));
            lemma_maybe_single_peels(bob_amp1, maybe_single_bytes(brightness1) + (maybe_flag_bytes(visible1) + x), bob_amp2, maybe_single_bytes(brightness2) + (maybe_flag_bytes(visible2) + y));
            lemma_maybe_single_peels(brightness1, maybe_flag_bytes(visible1) + x, brightness2, maybe_flag_bytes(visible2) + y);
            lemma_maybe_flag_peels(visible1, x, visible2, y);
        },
        _ => {},
    }
}

proof fn lemma_fields_of_viz_set(a: RattyAiCommand, x: Seq<u8>, b: RattyAiCommand, y: Seq<u8>)
    requires
        a is VizSet,
        b is VizSet,
        fields_then(a, x) == fields_then(b, y),
    ensures
        alike(a, b),
        x == y,
{
    match (a, b) {
        (RattyAiCommand::VizSet { payload: payload1 }, RattyAiCommand::VizSet { payload: payload2 }) => {
            lemma_text_peels(payload1@, x, payload2@, y);
        },
        _ => {},
    }
}

proof fn lemma_fields_of_viz_effect(a: RattyAiCommand, x: Seq<u8>, b: RattyAiCommand, y: Seq<u8>)
    requires
        a is VizEffect,
        b is VizEffect,
        fields_then(a, x) == fields_then(b, y),
    ensures
        alike(a, b),
        x == y,
{
    match (a, b) {
        (RattyAiCommand::VizEffect { payload: payload1 }, RattyAiCommand::VizEffect { payload: payload2 }) => {
            lemma_text_peels(payload1@, x, payload2@, y);
        },
        _ => {},
    }
}

proof fn lemma_fields_of_viz_remove(a: RattyAiCommand, x: Seq<u8>, b: RattyAiCommand, y: Seq<u8>)
    requires
        a is VizRemove,
        b is VizRemove,
        fields_then(a, x) == fields_then(b, y),
    ensures
        alike(a, b),
        x == y,
{
    match (a, b) {
        (RattyAiCommand::VizRemove { payload: payload1 }, RattyAiCommand::VizRemove { payload: payload2 }) => {
            lemma_text_peels(payload1@, x, payload2@, y);
        },
        _ => {},
    }
}

proof fn lemma_fields_of_sound_play(a: RattyAiCommand, x: Seq<u8>, b: RattyAiCommand, y: Seq<u8>)
    requires
        a is SoundPlay,
        b is SoundPlay,
        fields_then(a, x) == fields_then(b, y),
    ensures
        alike(a, b),
        x == y,
{
    match (a, b) {
        (RattyAiCommand::SoundPlay { payload: payload1 }, RattyAiCommand::SoundPlay { payload: payload2 }) => {
            lemma_text_peels(payload1@, x, payload2@, y);
        },
        _ => {},
    }
}

proof fn lemma_fields_of_sound_ambient_set(a: RattyAiCommand, x: Seq<u8>, b: RattyAiCommand, y: Seq<u8>)
    requires
        a is SoundAmbientSet,
        b is SoundAmbientSet,
        fields_then(a, x) == fields_then(b, y),
    ensures
        alike(a, b),
        x == y,
{
    match (a, b) {
        (RattyAiCommand::SoundAmbientSet { payload: payload1 }, RattyAiCommand::SoundAmbientSet { payload: payload2 }) => {
            lemma_text_peels(payload1@, x, payload2@, y);
        },
        _ => {},
    }
}

proof fn lemma_fields_of_bookmark(a: RattyAiCommand, x: Seq<u8>, b: RattyAiCommand, y: Seq<u8>)
    requires
        a is Bookmark,
        b is Bookmark,
        fields_then(a, x) == fields_then(b, y),
    ensures
        alike(a, b),
        x == y,
{
    match (a, b) {
        (RattyAiCommand::Bookmark { name: name1, replace: replace1 }, RattyAiCommand::Bookmark { name: name2, replace: replace2 }) => {
            lemma_text_peels(name1@, flag_bytes(replace1) + x, name2@, flag_bytes(replace2) + y);
            lemma_flag_peels(replace1, x, replace2, y);
        },
        _ => {},
    }
}

proof fn lemma_fields_of_bookmark_jump(a: RattyAiCommand, x: Seq<u8>, b: RattyAiCommand, y: Seq<u8>)
    requires
        a is BookmarkJump,
        b is BookmarkJump,
        fields_then(a, x) == fields_then(b, y),
    ensures
        alike(a, b),
        x == y,
{
    match (a, b) {
        (RattyAiCommand::BookmarkJump { name: name1 }, RattyAiCommand::BookmarkJump { name: name2 }) => {
            lemma_text_peels(name1@, x, name2@, y);
        },
        _ => {},
    }
}

proof fn lemma_fields_of_macro_record(a: RattyAiCommand, x: Seq<u8>, b: RattyAiCommand, y: Seq<u8>)
    requires
        a is MacroRecord,
        b is MacroRecord,
        fields_then(a, x) == fields_then(b, y),
    ensures
        alike(a, b),
        x == y,
{
    match (a, b) {
        (RattyAiCommand::MacroRecord { name: name1, replace: replace1 }, RattyAiCommand::MacroRecord { name: name2, replace: replace2 }) => {
            lemma_text_peels(name1@, flag_bytes(replace1) + x, name2@, flag_bytes(replace2) + y);
            lemma_flag_peels(replace1, x, replace2, y);
        },
        _ => {},
    }
}

proof fn lemma_fields_of_macro_play(a: RattyAiCommand, x: Seq<u8>, b: RattyAiCommand, y: Seq<u8>)
    requires
        a is MacroPlay,
        b is MacroPlay,
        fields_then(a, x) == fields_then(b, y),
    ensures
        alike(a, b),
        x == y,
{
    match (a, b) {
        (RattyAiCommand::MacroPlay { name: name1, hash: hash1, rate: rate1, instant: instant1, scope: scope1 }, RattyAiCommand::MacroPlay { name: name2, hash: hash2, rate: rate2, instant: instant2, scope: scope2 }) => {
            lemma_text_peels(name1@, maybe_text_bytes(hash1) + (u32_bytes(rate1.bits) + (flag_bytes(instant1) + (maybe_scope_bytes(scope1) + x))), name2@, maybe_text_bytes(hash2) + (u32_bytes(rate2.bits) + (flag_bytes(instant2) + (maybe_scope_bytes(scope2) + y))));
            lemma_maybe_text_peels(hash1, u32_bytes(rate1.bits) + (flag_bytes(instant1) + (maybe_scope_bytes(scope1) + x)), hash2, u32_bytes(rate2.bits) + (flag_bytes(instant2) + (maybe_scope_bytes(scope2) + y)));
            lemma_u32_peels(rate1.bits, flag_bytes(instant1) + (maybe_scope_bytes(scope1) + x), rate2.bits, flag_bytes(instant2) + (maybe_scope_bytes(scope2) + y));
            lemma_flag_peels(instant1, maybe_scope_bytes(scope1) + x, instant2, maybe_scope_bytes(scope2) + y);
            lemma_maybe_scope_peels(scope1, x, scope2, y);
        },
        _ => {},
    }
}

proof fn lemma_fields_of_macro_export(a: RattyAiCommand, x: Seq<u8>, b: RattyAiCommand, y: Seq<u8>)
    requires
        a is MacroExport,
        b is MacroExport,
        fields_then(a, x) == fields_then(b, y),
    ensures
        alike(a, b),
        x == y,
{
    match (a, b) {
        (RattyAiCommand::MacroExport { name: name1, to: to1 }, RattyAiCommand::MacroExport { name: name2, to: to2 }) => {
            lemma_text_peels(name1@, text_bytes(to1@) + x, name2@, text_bytes(to2@) + y);
            lemma_text_peels(to1@, x, to2@, y);
        },
        _ => {},
    }
}

proof fn lemma_fields_of_macro_run(a: RattyAiCommand, x: Seq<u8>, b: RattyAiCommand, y: Seq<u8>)
    requires
        a is MacroRun,
        b is MacroRun,
        fields_then(a, x) == fields_then(b, y),
    ensures
        alike(a, b),
        x == y,
{
    match (a, b) {
        (RattyAiCommand::MacroRun { path: path1 }, RattyAiCommand::MacroRun { path: path2 }) => {
            lemma_text_peels(path1@, x, path2@, y);
        },
        _ => {},
    }
}

proof fn lemma_fields_of_rule_set(a: RattyAiCommand, x: Seq<u8>, b: RattyAiCommand, y: Seq<u8>)
    requires
        a is RuleSet,
        b is RuleSet,
        fields_then(a, x) == fields_then(b, y),
    ensures
        alike(a, b),
        x == y,
{
    match (a, b) {
        (RattyAiCommand::RuleSet { payload: payload1 }, RattyAiCommand::RuleSet { payload: payload2 }) => {
            lemma_text_peels(payload1@, x, payload2@, y);
        },
        _ => {},
    }
}

proof fn lemma_fields_of_rule_remove(a: RattyAiCommand, x: Seq<u8>, b: RattyAiCommand, y: Seq<u8>)
    requires
        a is RuleRemove,
        b is RuleRemove,
        fields_then(a, x) == fields_then(b, y),
    ensures
        alike(a, b),
        x == y,
{
    match (a, b) {
        (RattyAiCommand::RuleRemove { payload: payload1 }, RattyAiCommand::RuleRemove { payload: payload2 }) => {
            lemma_text_peels(payload1@, x, payload2@, y);
        },
        _ => {},
    }
}

proof fn lemma_fields_of_rule_enable(a: RattyAiCommand, x: Seq<u8>, b: RattyAiCommand, y: Seq<u8>)
    requires
        a is RuleEnable,
        b is RuleEnable,
        fields_then(a, x) == fields_then(b, y),
    ensures
        alike(a, b),
        x == y,
{
    match (a, b) {
        (RattyAiCommand::RuleEnable { payload: payload1 }, RattyAiCommand::RuleEnable { payload: payload2 }) => {
            lemma_text_peels(payload1@, x, payload2@, y);
        },
        _ => {},
    }
}

proof fn lemma_fields_of_rule_disable(a: RattyAiCommand, x: Seq<u8>, b: RattyAiCommand, y: Seq<u8>)
    requires
        a is RuleDisable,
        b is RuleDisable,
        fields_then(a, x) == fields_then(b, y),
    ensures
        alike(a, b),
        x == y,
{
    match (a, b) {
        (RattyAiCommand::RuleDisable { payload: payload1 }, RattyAiCommand::RuleDisable { payload: payload2 }) => {
            lemma_text_peels(payload1@, x, payload2@, y);
        },
        _ => {},
    }
}

proof fn lemma_fields_of_sensor_publish(a: RattyAiCommand, x: Seq<u8>, b: RattyAiCommand, y: Seq<u8>)
    requires
        a is SensorPublish,
        b is SensorPublish,
        fields_then(a, x) == fields_then(b, y),
    ensures
        alike(a, b),
        x == y,
{
    match (a, b) {
        (RattyAiCommand::SensorPublish { payload: payload1 }, RattyAiCommand::SensorPublish { payload: payload2 }) => {
            lemma_text_peels(payload1@, x, payload2@, y);
        },
        _ => {},
    }
}

proof fn lemma_fields_of_sensor_remove(a: RattyAiCommand, x: Seq<u8>, b: RattyAiCommand, y: Seq<u8>)
    requires
        a is SensorRemove,
        b is SensorRemove,
        fields_then(a, x) == fields_then(b, y),
    ensures
        alike(a, b),
        x == y,
{
    match (a, b) {
        (RattyAiCommand::SensorRemove { payload: payload1 }, RattyAiCommand::SensorRemove { payload: payload2 }) => {
            lemma_text_peels(payload1@, x, payload2@, y);
        },
        _ => {},
    }
}

proof fn lemma_fields_of_avatar_set(a: RattyAiCommand, x: Seq<u8>, b: RattyAiCommand, y: Seq<u8>)
    requires
        a is AvatarSet,
        b is AvatarSet,
        fields_then(a, x) == fields_then(b, y),
    ensures
        alike(a, b),
        x == y,
{
    match (a, b) {
        (RattyAiCommand::AvatarSet { model: model1, position: position1, dx: dx1, dy: dy1, scale: scale1 }, RattyAiCommand::AvatarSet { model: model2, position: position2, dx: dx2, dy: dy2, scale: scale2 }) => {
            lemma_maybe_text_peels(model1, maybe_text_bytes(position1) + (maybe_single_bytes(dx1) + (maybe_single_bytes(dy1) + (maybe_single_bytes(scale1) + x))), model2, maybe_text_bytes(position2) + (maybe_single_bytes(dx2) + (maybe_single_bytes(dy2) + (maybe_single_bytes(scale2) + y))));
            lemma_maybe_text_peels(position1, maybe_single_bytes(dx1) + (maybe_single_bytes(dy1) + (maybe_single_bytes(scale1) + x)), position2, maybe_single_bytes(dx2) + (maybe_single_bytes(dy2) + (maybe_single_bytes(scale2) + y)));
            lemma_maybe_single_peels(dx1, maybe_single_bytes(dy1) + (maybe_single_bytes(scale1) + x), dx2, maybe_single_bytes(dy2) + (maybe_single_bytes(scale2) + y));
            lemma_maybe_single_peels(dy1, maybe_single_bytes(scale1) + x, dy2, maybe_single_bytes(scale2) + y);
            lemma_maybe_single_peels(scale1, x, scale2, y);
        },
        _ => {},
    }
}

proof fn lemma_fields_of_avatar_gesture(a: RattyAiCommand, x: Seq<u8>, b: RattyAiCommand, y: Seq<u8>)
    requires
        a is AvatarGesture,
        b is AvatarGesture,
        fields_then(a, x) == fields_then(b, y),
    ensures
        alike(a, b),
        x == y,
{
    match (a, b) {
        (RattyAiCommand::AvatarGesture { gesture: gesture1 }, RattyAiCommand::AvatarGesture { gesture: gesture2 }) => {
            lemma_text_peels(gesture1@, x, gesture2@, y);
        },
        _ => {},
    }
}

proof fn lemma_fields_of_avatar_speak(a: RattyAiCommand, x: Seq<u8>, b: RattyAiCommand, y: Seq<u8>)
    requires
        a is AvatarSpeak,
        b is AvatarSpeak,
        fields_then(a, x) == fields_then(b, y),
    ensures
        alike(a, b),
        x == y,
{
    match (a, b) {
        (RattyAiCommand::AvatarSpeak { text: text1, from: from1, duration: duration1 }, RattyAiCommand::AvatarSpeak { text: text2, from: from2, duration: duration2 }) => {
            lemma_text_peels(text1@, maybe_text_bytes(from1) + (maybe_single_bytes(duration1) + x), text2@, maybe_text_bytes(from2) + (maybe_single_bytes(duration2) + y));
            lemma_maybe_text_peels(from1, maybe_single_bytes(duration1) + x, from2, maybe_single_bytes(duration2) + y);
            lemma_maybe_single_peels(duration1, x, duration2, y);
        },
        _ => {},
    }
}

proof fn lemma_fields_of_avatar_cancel(a: RattyAiCommand, x: Seq<u8>, b: RattyAiCommand, y: Seq<u8>)
    requires
        a is AvatarCancel,
        b is AvatarCancel,
        fields_then(a, x) == fields_then(b, y),
    ensures
        alike(a, b),
        x == y,
{
    match (a, b) {
        (RattyAiCommand::AvatarCancel { execution_id: execution_id1 }, RattyAiCommand::AvatarCancel { execution_id: execution_id2 }) => {
            lemma_text_peels(execution_id1@, x, execution_id2@, y);
        },
        _ => {},
    }
}

proof fn lemma_fields_of_avatar_speech_clear(a: RattyAiCommand, x: Seq<u8>, b: RattyAiCommand, y: Seq<u8>)
    requires
        a is AvatarSpeechClear,
        b is AvatarSpeechClear,
        fields_then(a, x) == fields_then(b, y),
    ensures
        alike(a, b),
        x == y,
{
    match (a, b) {
        (RattyAiCommand::AvatarSpeechClear { scope: scope1 }, RattyAiCommand::AvatarSpeechClear { scope: scope2 }) => {
            lemma_clear_scope_peels(scope1, x, scope2, y);
        },
        _ => {},
    }
}

proof fn lemma_fields_of_user_join(a: RattyAiCommand, x: Seq<u8>, b: RattyAiCommand, y: Seq<u8>)
    requires
        a is UserJoin,
        b is UserJoin,
        fields_then(a, x) == fields_then(b, y),
    ensures
        alike(a, b),
        x == y,
{
    match (a, b) {
        (RattyAiCommand::UserJoin { id: id1, name: name1, color: color1, ttl: ttl1, replace: replace1 }, RattyAiCommand::UserJoin { id: id2, name: name2, color: color2, ttl: ttl2, replace: replace2 }) => {
            lemma_text_peels(id1@, text_bytes(name1@) + (text_bytes(color1@) + (maybe_single_bytes(ttl1) + (flag_bytes(replace1) + x))), id2@, text_bytes(name2@) + (text_bytes(color2@) + (maybe_single_bytes(ttl2) + (flag_bytes(replace2) + y))));
            lemma_text_peels(name1@, text_bytes(color1@) + (maybe_single_bytes(ttl1) + (flag_bytes(replace1) + x)), name2@, text_bytes(color2@) + (maybe_single_bytes(ttl2) + (flag_bytes(replace2) + y)));
            lemma_text_peels(color1@, maybe_single_bytes(ttl1) + (flag_bytes(replace1) + x), color2@, maybe_single_bytes(ttl2) + (flag_bytes(replace2) + y));
            lemma_maybe_single_peels(ttl1, flag_bytes(replace1) + x, ttl2, flag_bytes(replace2) + y);
            lemma_flag_peels(replace1, x, replace2, y);
        },
        _ => {},
    }
}

proof fn lemma_fields_of_user_renew(a: RattyAiCommand, x: Seq<u8>, b: RattyAiCommand, y: Seq<u8>)
    requires
        a is UserRenew,
        b is UserRenew,
        fields_then(a, x) == fields_then(b, y),
    ensures
        alike(a, b),
        x == y,
{
    match (a, b) {
        (RattyAiCommand::UserRenew { payload: payload1 }, RattyAiCommand::UserRenew { payload: payload2 }) => {
            lemma_text_peels(payload1@, x, payload2@, y);
        },
        _ => {},
    }
}

proof fn lemma_fields_of_user_cursor(a: RattyAiCommand, x: Seq<u8>, b: RattyAiCommand, y: Seq<u8>)
    requires
        a is UserCursor,
        b is UserCursor,
        fields_then(a, x) == fields_then(b, y),
    ensures
        alike(a, b),
        x == y,
{
    match (a, b) {
        (RattyAiCommand::UserCursor { payload: payload1 }, RattyAiCommand::UserCursor { payload: payload2 }) => {
            lemma_text_peels(payload1@, x, payload2@, y);
        },
        _ => {},
    }
}

proof fn lemma_fields_of_user_leave(a: RattyAiCommand, x: Seq<u8>, b: RattyAiCommand, y: Seq<u8>)
    requires
        a is UserLeave,
        b is UserLeave,
        fields_then(a, x) == fields_then(b, y),
    ensures
        alike(a, b),
        x == y,
{
    match (a, b) {
        (RattyAiCommand::UserLeave { payload: payload1 }, RattyAiCommand::UserLeave { payload: payload2 }) => {
            lemma_text_peels(payload1@, x, payload2@, y);
        },
        _ => {},
    }
}

proof fn lemma_fields_of_note(a: RattyAiCommand, x: Seq<u8>, b: RattyAiCommand, y: Seq<u8>)
    requires
        a is Note,
        b is Note,
        fields_then(a, x) == fields_then(b, y),
    ensures
        alike(a, b),
        x == y,
{
    match (a, b) {
        (RattyAiCommand::Note { payload: payload1 }, RattyAiCommand::Note { payload: payload2 }) => {
            lemma_text_peels(payload1@, x, payload2@, y);
        },
        _ => {},
    }
}

proof fn lemma_fields_of_note_remove(a: RattyAiCommand, x: Seq<u8>, b: RattyAiCommand, y: Seq<u8>)
    requires
        a is NoteRemove,
        b is NoteRemove,
        fields_then(a, x) == fields_then(b, y),
    ensures
        alike(a, b),
        x == y,
{
    match (a, b) {
        (RattyAiCommand::NoteRemove { id: id1 }, RattyAiCommand::NoteRemove { id: id2 }) => {
            lemma_text_peels(id1@, x, id2@, y);
        },
        _ => {},
    }
}

proof fn lemma_fields_peel(a: RattyAiCommand, x: Seq<u8>, b: RattyAiCommand, y: Seq<u8>)
    requires
        kind_number(a) == kind_number(b),
        fields_then(a, x) == fields_then(b, y),
    ensures
        alike(a, b),
        x == y,
{
    match a {
        RattyAiCommand::SetMode { .. } => lemma_fields_of_set_mode(a, x, b, y),
        RattyAiCommand::SetWarp { .. } => lemma_fields_of_set_warp(a, x, b, y),
        RattyAiCommand::Flash { .. } => lemma_fields_of_flash(a, x, b, y),
        RattyAiCommand::Pulse { .. } => lemma_fields_of_pulse(a, x, b, y),
        RattyAiCommand::Tint { .. } => lemma_fields_of_tint(a, x, b, y),
        RattyAiCommand::Think { .. } => lemma_fields_of_think(a, x, b, y),
        RattyAiCommand::Confidence { .. } => lemma_fields_of_confidence(a, x, b, y),
        RattyAiCommand::Mood { .. } => lemma_fields_of_mood(a, x, b, y),
        RattyAiCommand::SpawnObject { .. } => lemma_fields_of_spawn_object(a, x, b, y),
        RattyAiCommand::RemoveObject { .. } => lemma_fields_of_remove_object(a, x, b, y),
        RattyAiCommand::UpdateObject { .. } => lemma_fields_of_update_object(a, x, b, y),
        RattyAiCommand::UpdateCursor { .. } => lemma_fields_of_update_cursor(a, x, b, y),
        RattyAiCommand::VizSet { .. } => lemma_fields_of_viz_set(a, x, b, y),
        RattyAiCommand::VizEffect { .. } => lemma_fields_of_viz_effect(a, x, b, y),
        RattyAiCommand::VizRemove { .. } => lemma_fields_of_viz_remove(a, x, b, y),
        RattyAiCommand::SoundPlay { .. } => lemma_fields_of_sound_play(a, x, b, y),
        RattyAiCommand::SoundAmbientSet { .. } => lemma_fields_of_sound_ambient_set(a, x, b, y),
        RattyAiCommand::Bookmark { .. } => lemma_fields_of_bookmark(a, x, b, y),
        RattyAiCommand::BookmarkJump { .. } => lemma_fields_of_bookmark_jump(a, x, b, y),
        RattyAiCommand::MacroRecord { .. } => lemma_fields_of_macro_record(a, x, b, y),
        RattyAiCommand::MacroPlay { .. } => lemma_fields_of_macro_play(a, x, b, y),
        RattyAiCommand::MacroExport { .. } => lemma_fields_of_macro_export(a, x, b, y),
        RattyAiCommand::MacroRun { .. } => lemma_fields_of_macro_run(a, x, b, y),
        RattyAiCommand::RuleSet { .. } => lemma_fields_of_rule_set(a, x, b, y),
        RattyAiCommand::RuleRemove { .. } => lemma_fields_of_rule_remove(a, x, b, y),
        RattyAiCommand::RuleEnable { .. } => lemma_fields_of_rule_enable(a, x, b, y),
        RattyAiCommand::RuleDisable { .. } => lemma_fields_of_rule_disable(a, x, b, y),
        RattyAiCommand::SensorPublish { .. } => lemma_fields_of_sensor_publish(a, x, b, y),
        RattyAiCommand::SensorRemove { .. } => lemma_fields_of_sensor_remove(a, x, b, y),
        RattyAiCommand::AvatarSet { .. } => lemma_fields_of_avatar_set(a, x, b, y),
        RattyAiCommand::AvatarGesture { .. } => lemma_fields_of_avatar_gesture(a, x, b, y),
        RattyAiCommand::AvatarSpeak { .. } => lemma_fields_of_avatar_speak(a, x, b, y),
        RattyAiCommand::AvatarCancel { .. } => lemma_fields_of_avatar_cancel(a, x, b, y),
        RattyAiCommand::AvatarSpeechClear { .. } => lemma_fields_of_avatar_speech_clear(a, x, b, y),
        RattyAiCommand::UserJoin { .. } => lemma_fields_of_user_join(a, x, b, y),
        RattyAiCommand::UserRenew { .. } => lemma_fields_of_user_renew(a, x, b, y),
        RattyAiCommand::UserCursor { .. } => lemma_fields_of_user_cursor(a, x, b, y),
        RattyAiCommand::UserLeave { .. } => lemma_fields_of_user_leave(a, x, b, y),
        RattyAiCommand::Note { .. } => lemma_fields_of_note(a, x, b, y),
        RattyAiCommand::NoteRemove { .. } => lemma_fields_of_note_remove(a, x, b, y),
        _ => {},
    }
}

/// No two different commands have the same canonical bytes, whatever stands
/// before and behind them: none of their fields is left out, and none can be
/// taken for another.
pub proof fn law_commands_have_their_own_bytes(
    out: Seq<u8>,
    a: RattyAiCommand,
    x: Seq<u8>,
    b: RattyAiCommand,
    y: Seq<u8>,
)
    requires
        with_command(out, a) + x == with_command(out, b) + y,
    ensures
        alike(a, b),
        x == y,
{
    lemma_command_bytes(out, a, x);
    lemma_command_bytes(out, b, y);
    let one = u32_bytes(kind_number(a)) + fields_then(a, x);
    let two = u32_bytes(kind_number(b)) + fields_then(b, y);
    assert(one =~= (out + one).skip(out.len() as int));
    assert(two =~= (out + two).skip(out.len() as int));
    lemma_u32_peels(kind_number(a), fields_then(a, x), kind_number(b), fields_then(b, y));
    lemma_fields_peel(a, x, b, y);
}

/// The number behind a command's canonical bytes, and what follows, can be told
/// apart too.
pub proof fn law_numbers_have_their_own_bytes(n: u32, x: Seq<u8>, m: u32, y: Seq<u8>)
    requires
        u32_bytes(n) + x == u32_bytes(m) + y,
    ensures
        n == m,
        x == y,
{
    lemma_u32_peels(n, x, m, y);
}

/// The canonical bytes of a command come behind what is there.
pub proof fn law_commands_extend_what_is_there(out: Seq<u8>, command: RattyAiCommand)
    ensures
        with_command(out, command) == out + with_command(Seq::empty(), command),
        with_command(Seq::empty(), command).len() >= 4,
{
    let blank = Seq::<u8>::empty();
    lemma_command_bytes(out, command, blank);
    lemma_command_bytes(blank, command, blank);
    let own = u32_bytes(kind_number(command)) + fields_then(command, blank);
    assert(with_command(out, command) + blank =~= with_command(out, command));
    assert(with_command(blank, command) + blank =~= with_command(blank, command));
    assert(blank + own =~= own);
}

} // verus!
