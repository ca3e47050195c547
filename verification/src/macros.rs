//! Macros: recorded choreography.
//!
//! A macro is a sequence of canonical commands with the offsets at which they
//! were captured. Recording is a tap on the command stream; playback puts the
//! captured commands back on it, under the caller's current authority. Every
//! terminal has one slot for a recording or a playback. A macro that holds a
//! scene-global command is privileged and plays only under the exclusive scene
//! lock. Session macros die with their terminal; trusted macros are durable
//! and out of the wire's reach.
//!
//! Times are nanoseconds on the frame clock; offsets are seconds.

use std::collections::hash_map::DefaultHasher;
use std::hash::Hasher;
use vstd::prelude::*;
use vstd::std_specs::hash::DefaultHasherAdditionalSpecFns;
use crate::ai::{AiCommand, CommandOrigin};
use crate::identity::{IngressSource, TerminalId, TerminalIdentity};
use crate::named::{distinct, index_of, lemma_index_of, law_store_then_lookup, lookup, stored, Named};
use crate::number::Single;
use crate::osc::{
    MacroScope, RattyAiCommand, alike, flag_bytes, law_commands_have_their_own_bytes,
    law_numbers_have_their_own_bytes, put_flag, put_u32, u32_bytes, with_command,
};
use crate::query::{
    reply_view, token_view, Code, Eta, Handle, HandleView, LogState, QuerySession, Reject, Reply,
    ReplyLog, ReplyView, SessionState,
};
use crate::text::{
    byte_len, decimal, decimal_text, hex_text, hexadecimal, is_before, law_text_order_is_total,
    law_text_order_is_transitive, same_text, text_before, text_byte_len,
};

verus! {

/// Upper bound on stored macros per agent.
pub const MAX_MACROS_PER_NAMESPACE: usize = 32;

/// Upper bound, in bytes, on a macro name.
pub const MAX_MACRO_NAME_BYTES: usize = 64;

/// Upper bound on the commands that one macro may capture.
pub const MAX_COMMANDS_PER_MACRO: usize = 256;

/// The bits of 300, the upper bound in seconds on a recording's span.
pub const MAX_RECORDING_SECS_BITS: u32 = 0x4396_0000;

/// The bits of 1000, the upper bound on the playback rate.
pub const MAX_PLAYBACK_RATE_BITS: u32 = 0x447a_0000;

/// Commands put back per frame across all playbacks.
pub const MAX_PLAYBACK_COMMANDS_PER_FRAME: usize = 64;

/// The macro artifact format that is recorded and replayed.
pub const MACRO_VERSION: u32 = 1;

/// One captured command with its offset from the recording's start.
#[derive(Debug)]
pub struct MacroStep {
    /// Seconds since the recording began.
    pub offset: Single,
    /// The captured command.
    pub command: RattyAiCommand,
}

impl Clone for MacroStep {
    fn clone(&self) -> (copy: Self)
        ensures
            copy == *self,
    {
        MacroStep { offset: self.offset, command: self.command.clone() }
    }
}

/// A macro's contents.
pub struct MacroView {
    /// Artifact format version.
    pub v: u32,
    /// The captured steps, in capture order.
    pub steps: Seq<MacroStep>,
    /// Whether it needs the scene lock to play.
    pub privileged: bool,
    /// Whether a reactive rule may play it.
    pub rule_safe: bool,
    /// Content id.
    pub hash: Seq<char>,
}

/// A finalized, replayable macro.
#[derive(Debug)]
pub struct Macro {
    /// Artifact format version.
    pub v: u32,
    /// The captured steps, in capture order.
    pub steps: Vec<MacroStep>,
    /// Whether it needs the scene lock to play.
    pub privileged: bool,
    /// Whether a reactive rule may play it.
    pub rule_safe: bool,
    /// Content id.
    pub hash: String,
}

impl View for Macro {
    type V = MacroView;

    open spec fn view(&self) -> MacroView {
        MacroView {
            v: self.v,
            steps: self.steps@,
            privileged: self.privileged,
            rule_safe: self.rule_safe,
            hash: self.hash@,
        }
    }
}

fn copy_steps(steps: &Vec<MacroStep>) -> (copy: Vec<MacroStep>)
    ensures
        copy@ == steps@,
{
    let mut copy: Vec<MacroStep> = Vec::new();
    let mut i: usize = 0;
    while i < steps.len()
        invariant
            i <= steps@.len(),
            copy@ == steps@.take(i as int),
        decreases steps.len() - i,
    {
        copy.push(steps[i].clone());
        i += 1;
    }
    copy
}

impl Clone for Macro {
    fn clone(&self) -> (copy: Self)
        ensures
            copy@ == self@,
    {
        Macro {
            v: self.v,
            steps: copy_steps(&self.steps),
            privileged: self.privileged,
            rule_safe: self.rule_safe,
            hash: self.hash.clone(),
        }
    }
}

impl Macro {
    /// The artifact format version.
    pub fn version(&self) -> (v: u32)
        ensures
            v == self@.v,
    {
        self.v
    }

    /// The number of captured commands.
    pub fn step_count(&self) -> (count: usize)
        ensures
            count == self@.steps.len(),
    {
        self.steps.len()
    }

    /// A captured step.
    pub fn step(&self, index: usize) -> (step: &MacroStep)
        requires
            index < self@.steps.len(),
        ensures
            *step == self@.steps[index as int],
    {
        &self.steps[index]
    }

    /// Whether the macro needs the exclusive scene lock to play.
    pub fn is_privileged(&self) -> (privileged: bool)
        ensures
            privileged == self@.privileged,
    {
        self.privileged
    }

    /// Whether a reactive rule may play the macro.
    pub fn is_rule_safe(&self) -> (rule_safe: bool)
        ensures
            rule_safe == self@.rule_safe,
    {
        self.rule_safe
    }

    /// The macro's immutable content id.
    pub fn hash(&self) -> (hash: &str)
        ensures
            hash@ == self@.hash,
    {
        self.hash.as_str()
    }
}

/// The bytes that a macro's content id is taken over: the format version, the
/// privilege, and every step's offset and command.
pub open spec fn content_bytes(steps: Seq<MacroStep>, privileged: bool) -> Seq<u8>
    decreases steps.len(),
{
    if steps.len() == 0 {
        u32_bytes(MACRO_VERSION) + flag_bytes(privileged)
    } else {
        with_command(
            content_bytes(steps.drop_last(), privileged) + u32_bytes(steps.last().offset.bits),
            steps.last().command,
        )
    }
}

/// The content id: the hash of the content bytes in hexadecimal.
pub open spec fn content_id(steps: Seq<MacroStep>, privileged: bool) -> Seq<char> {
    hexadecimal(DefaultHasher::spec_finish(seq![content_bytes(steps, privileged)]) as nat, 16)
}

/// The content id of a recording's steps.
pub fn content_hash(steps: &Vec<MacroStep>, privileged: bool) -> (hash: String)
    ensures
        hash@ == content_id(steps@, privileged),
{
    let mut bytes: Vec<u8> = Vec::new();
    put_u32(&mut bytes, MACRO_VERSION);
    put_flag(&mut bytes, privileged);
    let mut i: usize = 0;
    proof {
        assert(steps@.take(0) =~= Seq::empty());
        assert(bytes@ =~= content_bytes(steps@.take(0), privileged));
    }
    while i < steps.len()
        invariant
            i <= steps@.len(),
            bytes@ == content_bytes(steps@.take(i as int), privileged),
        decreases steps.len() - i,
    {
        proof {
            let next = steps@.take(i + 1);
            assert(next.drop_last() =~= steps@.take(i as int));
            assert(next.last() == steps@[i as int]);
        }
        put_u32(&mut bytes, steps[i].offset.bits);
        steps[i].command.put_bytes(&mut bytes);
        i += 1;
    }
    proof {
        assert(steps@.take(i as int) =~= steps@);
    }
    let mut hasher = DefaultHasher::new();
    hasher.write(bytes.as_slice());
    proof {
        assert(hasher@ =~= seq![content_bytes(steps@, privileged)]);
    }
    hex_text(hasher.finish())
}

/// A recording in progress.
#[derive(Debug)]
pub struct ActiveRecording {
    name: String,
    started: u64,
    steps: Vec<MacroStep>,
    privileged: bool,
    rule_safe: bool,
    poisoned: Option<Code>,
}

/// A playback in progress.
#[derive(Debug)]
pub struct ActivePlayback {
    source: IngressSource,
    origin: CommandOrigin,
    name: String,
    pinned: Macro,
    rate: Single,
    instant: bool,
    started: u64,
    next_index: usize,
    scene_locked: bool,
    execution_id: String,
}

/// The operation occupying a terminal's slot.
#[derive(Debug)]
pub enum SlotState {
    /// A recording captures commands.
    Recording(ActiveRecording),
    /// A playback puts commands back.
    Playing(ActivePlayback),
}

/// A recording's contents.
pub struct RecordingView {
    /// The name that the macro will be stored under.
    pub name: Seq<char>,
    /// When recording began.
    pub started: u64,
    /// The steps captured so far.
    pub steps: Seq<MacroStep>,
    /// Whether a scene-global command was captured.
    pub privileged: bool,
    /// Whether only rule-safe actions were captured.
    pub rule_safe: bool,
    /// The code of the limit that was exceeded.
    pub poisoned: Option<Code>,
}

/// A playback's contents.
pub struct PlaybackView {
    /// Whose authority it runs under.
    pub source: IngressSource,
    /// The origin stamped on what it puts back.
    pub origin: CommandOrigin,
    /// The name that the macro is stored under.
    pub name: Seq<char>,
    /// The macro version resolved at start.
    pub pinned: MacroView,
    /// Clock multiplier.
    pub rate: Single,
    /// Whether recorded delays are dropped.
    pub instant: bool,
    /// When playback began.
    pub started: u64,
    /// Index of the next step.
    pub next_index: nat,
    /// Whether it holds the scene lock.
    pub scene_locked: bool,
    /// Execution handle.
    pub execution_id: Seq<char>,
}

/// A slot's contents.
pub enum SlotView {
    /// A recording.
    Recording(RecordingView),
    /// A playback.
    Playing(PlaybackView),
}

impl View for ActiveRecording {
    type V = RecordingView;

    closed spec fn view(&self) -> RecordingView {
        RecordingView {
            name: self.name@,
            started: self.started,
            steps: self.steps@,
            privileged: self.privileged,
            rule_safe: self.rule_safe,
            poisoned: self.poisoned,
        }
    }
}

impl View for ActivePlayback {
    type V = PlaybackView;

    closed spec fn view(&self) -> PlaybackView {
        PlaybackView {
            source: self.source,
            origin: self.origin,
            name: self.name@,
            pinned: self.pinned@,
            rate: self.rate,
            instant: self.instant,
            started: self.started,
            next_index: self.next_index as nat,
            scene_locked: self.scene_locked,
            execution_id: self.execution_id@,
        }
    }
}

impl View for SlotState {
    type V = SlotView;

    open spec fn view(&self) -> SlotView {
        match self {
            SlotState::Recording(rec) => SlotView::Recording(rec@),
            SlotState::Playing(playback) => SlotView::Playing(playback@),
        }
    }
}

/// One terminal's macros: what it has stored, and its slot.
pub struct MacrosState {
    /// The session macros by name.
    pub session: Seq<(Seq<char>, MacroView)>,
    /// The active recording or playback.
    pub slot: Option<SlotView>,
}

/// The trusted macros and the scene lock.
pub struct TrustedState {
    /// The trusted macros by name.
    pub trusted: Seq<(Seq<char>, MacroView)>,
    /// The terminal holding the exclusive scene lock.
    pub scene_lock: Option<TerminalId>,
}

/// The sentence for a busy slot.
pub open spec fn slot_busy() -> Seq<char> {
    "a recording or playback is already active for this agent"@
}

/// How long a playback runs.
#[derive(Clone, Copy, Debug, PartialEq, Eq, Structural)]
pub enum PlaybackEta {
    /// Timed playback: the last step's offset divided by the clamped rate, in
    /// seconds.
    Run {
        /// The last step's offset.
        offset: Single,
        /// The clamped rate.
        rate: Single,
    },
    /// Instant playback: frames at the shared per-frame budget.
    Frames(u64),
}

/// The first macro with a content id, under its name.
pub open spec fn hash_index(entries: Seq<(Seq<char>, MacroView)>, hash: Seq<char>) -> Option<int>
    decreases entries.len(),
{
    if entries.len() == 0 {
        None
    } else {
        match hash_index(entries.drop_last(), hash) {
            Some(i) => Some(i),
            None => if entries.last().1.hash == hash {
                Some(entries.len() - 1)
            } else {
                None
            },
        }
    }
}

/// The macro under a name, with the name.
pub open spec fn entry_named(entries: Seq<(Seq<char>, MacroView)>, name: Seq<char>) -> Option<
    (Seq<char>, MacroView),
> {
    match index_of(entries, name) {
        Some(i) => Some(entries[i]),
        None => None,
    }
}

/// The macro with a content id, with its name.
pub open spec fn entry_hashed(entries: Seq<(Seq<char>, MacroView)>, hash: Seq<char>) -> Option<
    (Seq<char>, MacroView),
> {
    match hash_index(entries, hash) {
        Some(i) => Some(entries[i]),
        None => None,
    }
}

/// The macro that a name means in a scope: without one, the caller's session
/// comes before the trusted macros.
pub open spec fn resolved(
    session: Seq<(Seq<char>, MacroView)>,
    trusted: Seq<(Seq<char>, MacroView)>,
    name: Seq<char>,
    scope: Option<MacroScope>,
) -> Option<(Seq<char>, MacroView)> {
    match scope {
        Some(MacroScope::Session) => entry_named(session, name),
        Some(MacroScope::Trusted) => entry_named(trusted, name),
        None => match entry_named(session, name) {
            Some(entry) => Some(entry),
            None => entry_named(trusted, name),
        },
    }
}

/// The macro that a content id means: the caller's session comes before the
/// trusted macros.
pub open spec fn resolved_by_hash(
    session: Seq<(Seq<char>, MacroView)>,
    trusted: Seq<(Seq<char>, MacroView)>,
    hash: Seq<char>,
) -> Option<(Seq<char>, MacroView)> {
    match entry_hashed(session, hash) {
        Some(entry) => Some(entry),
        None => entry_hashed(trusted, hash),
    }
}

/// How many of the steps from `next` on are due, at most `budget`.
pub open spec fn due(
    steps: Seq<MacroStep>,
    next: nat,
    instant: bool,
    position: Single,
    budget: nat,
) -> nat
    decreases budget,
{
    if budget == 0 || next >= steps.len() {
        0
    } else if !instant && position.below(steps[next as int].offset) {
        0
    } else {
        1 + due(steps, next + 1, instant, position, (budget - 1) as nat)
    }
}

impl MacrosState {
    /// Nothing stored, nothing active.
    pub open spec fn fresh() -> MacrosState {
        MacrosState { session: Seq::empty(), slot: None }
    }

    /// Names are distinct, every limit holds, nothing rule-safe is privileged,
    /// and a recording has a place to be stored in.
    pub open spec fn wf(self) -> bool {
        &&& distinct(self.session)
        &&& self.session.len() <= MAX_MACROS_PER_NAMESPACE
        &&& forall|i: int|
            0 <= i < self.session.len() ==> ((#[trigger] self.session[i]).1.rule_safe
                ==> !self.session[i].1.privileged)
        &&& match self.slot {
            Some(SlotView::Recording(rec)) => {
                &&& rec.steps.len() <= MAX_COMMANDS_PER_MACRO
                &&& rec.rule_safe ==> !rec.privileged
                &&& rec.poisoned matches Some(code) ==> code == Code::TooLarge
                &&& index_of(self.session, rec.name) is Some || self.session.len()
                    < MAX_MACROS_PER_NAMESPACE
            },
            Some(SlotView::Playing(playback)) => playback.next_index
                <= playback.pinned.steps.len(),
            None => true,
        }
    }

    /// Whether the slot is a playback that holds the scene lock.
    pub open spec fn locks_scene(self) -> bool {
        match self.slot {
            Some(SlotView::Playing(playback)) => playback.scene_locked,
            _ => false,
        }
    }

    /// What starting a recording does. The checks: a name, not too long; a
    /// free slot; no collision without replacement; room for another macro.
    pub open spec fn record(
        self,
        source: IngressSource,
        name: Seq<char>,
        replace: bool,
        now: u64,
    ) -> Result<MacrosState, (Code, Seq<char>)> {
        let exists = index_of(self.session, name) is Some;
        if name.len() == 0 {
            Err((Code::BadPayload, "name= must be non-empty"@))
        } else if byte_len(name) > MAX_MACRO_NAME_BYTES {
            Err((Code::TooLarge, "name exceeds 64 bytes"@))
        } else if self.slot is Some {
            Err((Code::Busy, slot_busy()))
        } else if exists && !replace {
            Err(
                (
                    Code::AlreadyExists,
                    "macro '"@ + name + "' exists (pass mode=replace to overwrite it)"@,
                ),
            )
        } else if !exists && self.session.len() >= MAX_MACROS_PER_NAMESPACE {
            Err(
                (
                    Code::NamespaceCap,
                    "namespace "@ + decimal(source.slot() as nat) + " is at its 32-macro limit"@,
                ),
            )
        } else {
            Ok(
                MacrosState {
                    session: self.session,
                    slot: Some(
                        SlotView::Recording(
                            RecordingView {
                                name,
                                started: now,
                                steps: Seq::empty(),
                                privileged: false,
                                rule_safe: true,
                                poisoned: None,
                            },
                        ),
                    ),
                },
            )
        }
    }

    /// What the tap does with a command: a recording takes it, or is poisoned
    /// by the limit that it would exceed. It never takes a command of the
    /// control plane.
    pub open spec fn capture(self, command: RattyAiCommand, offset: Single) -> MacrosState {
        if command.control_plane() {
            self
        } else {
            match self.slot {
                Some(SlotView::Recording(rec)) => if rec.poisoned is Some {
                    self
                } else if rec.steps.len() >= MAX_COMMANDS_PER_MACRO || (Single {
                    bits: MAX_RECORDING_SECS_BITS,
                }).below(offset) {
                    MacrosState {
                        session: self.session,
                        slot: Some(
                            SlotView::Recording(
                                RecordingView { poisoned: Some(Code::TooLarge), ..rec },
                            ),
                        ),
                    }
                } else {
                    MacrosState {
                        session: self.session,
                        slot: Some(
                            SlotView::Recording(
                                RecordingView {
                                    privileged: rec.privileged || command.scene_global(),
                                    rule_safe: rec.rule_safe && command.rule_safe_action(),
                                    steps: rec.steps.push(MacroStep { offset, command }),
                                    ..rec
                                },
                            ),
                        ),
                    }
                },
                _ => self,
            }
        }
    }

    /// The offset at which a command is captured now: nothing of a recording
    /// that began now has elapsed.
    pub open spec fn offset_now(self, elapsed: Single, now: u64) -> Single {
        match self.slot {
            Some(SlotView::Recording(rec)) => if rec.started >= now {
                Single { bits: 0 }
            } else {
                elapsed
            },
            _ => elapsed,
        }
    }

    /// The slot is free.
    pub open spec fn idle(self) -> MacrosState {
        MacrosState { session: self.session, slot: None }
    }
}

/// The macro that a recording becomes.
pub open spec fn finalized(rec: RecordingView) -> MacroView {
    MacroView {
        v: MACRO_VERSION,
        steps: rec.steps,
        privileged: rec.privileged,
        rule_safe: rec.rule_safe,
        hash: content_id(rec.steps, rec.privileged),
    }
}

/// The result of stopping: the terminal's macros, whether a scene-locked
/// playback was cancelled, and the refusal where there was nothing to save or
/// to cancel.
pub struct Stopped {
    /// The terminal's macros after the stop.
    pub macros: MacrosState,
    /// Whether the scene lock must be released.
    pub unlocks: bool,
    /// The refusal.
    pub refusal: Option<(Code, Seq<char>)>,
}

/// What stopping the slot does: a recording is saved, unless a limit was
/// exceeded, and then what was stored stays as it was; a playback ends.
pub open spec fn stopped(macros: MacrosState) -> Stopped {
    match macros.slot {
        Some(SlotView::Recording(rec)) => match rec.poisoned {
            Some(code) => Stopped {
                macros: macros.idle(),
                unlocks: false,
                refusal: Some((code, "recording exceeded a limit and was discarded"@)),
            },
            None => Stopped {
                macros: MacrosState {
                    session: stored(macros.session, rec.name, finalized(rec)),
                    slot: None,
                },
                unlocks: false,
                refusal: None,
            },
        },
        Some(SlotView::Playing(playback)) => Stopped {
            macros: macros.idle(),
            unlocks: playback.scene_locked,
            refusal: None,
        },
        None => Stopped {
            macros,
            unlocks: false,
            refusal: Some((Code::NothingActive, "no active recording or playback to stop"@)),
        },
    }
}

/// A request to play a macro.
pub struct PlayRequest {
    /// The name.
    pub name: Seq<char>,
    /// The content id, which takes precedence over the name.
    pub hash: Option<Seq<char>>,
    /// Clock multiplier.
    pub rate: Single,
    /// Whether delays are dropped.
    pub instant: bool,
    /// Where the name is looked up.
    pub scope: Option<MacroScope>,
}

/// What starting a playback does. The checks: a free slot; a positive rate; a
/// macro that resolves; rule safety where a rule asks; the scene lock where
/// the macro is privileged.
pub open spec fn played(
    macros: MacrosState,
    registry: TrustedState,
    source: IngressSource,
    origin: CommandOrigin,
    request: PlayRequest,
    execution_id: Seq<char>,
    now: u64,
) -> Result<(MacrosState, TrustedState, PlaybackEta), (Code, Seq<char>)> {
    let found = match request.hash {
        Some(hash) => resolved_by_hash(macros.session, registry.trusted, hash),
        None => resolved(macros.session, registry.trusted, request.name, request.scope),
    };
    if macros.slot is Some {
        Err((Code::Busy, slot_busy()))
    } else if !(request.rate.finite() && 0 < request.rate.bits < 0x8000_0000) {
        Err((Code::BadPayload, "rate must be a finite value greater than 0"@))
    } else if found is None {
        Err((Code::UnknownId, "no macro resolves under the given name/hash and scope"@))
    } else if origin == CommandOrigin::Rule && !(found->0).1.rule_safe {
        Err(
            (
                Code::NotPermitted,
                "a rule may only play a rule-safe macro (every step in the allowlisted choreography class)"@,
            ),
        )
    } else if (found->0).1.privileged && registry.scene_lock is Some {
        Err(
            (
                Code::SceneLocked,
                "a privileged macro cannot play while the exclusive scene lock is held"@,
            ),
        )
    } else {
        let pinned = (found->0).1;
        let top = Single { bits: MAX_PLAYBACK_RATE_BITS };
        let rate = if top.below(request.rate) {
            top
        } else {
            request.rate
        };
        Ok(
            (
                MacrosState {
                    session: macros.session,
                    slot: Some(
                        SlotView::Playing(
                            PlaybackView {
                                source,
                                origin: if origin == CommandOrigin::Rule {
                                    CommandOrigin::Rule
                                } else {
                                    CommandOrigin::Macro
                                },
                                name: (found->0).0,
                                pinned,
                                rate,
                                instant: request.instant,
                                started: now,
                                next_index: 0,
                                scene_locked: pinned.privileged,
                                execution_id,
                            },
                        ),
                    ),
                },
                TrustedState {
                    trusted: registry.trusted,
                    scene_lock: if pinned.privileged {
                        Some(source.terminal_id())
                    } else {
                        registry.scene_lock
                    },
                },
                if request.instant {
                    PlaybackEta::Frames(
                        ((pinned.steps.len() + 63) / MAX_PLAYBACK_COMMANDS_PER_FRAME as nat) as u64,
                    )
                } else {
                    PlaybackEta::Run {
                        offset: if pinned.steps.len() == 0 {
                            Single { bits: 0 }
                        } else {
                            pinned.steps.last().offset
                        },
                        rate,
                    }
                },
            ),
        )
    }
}

/// One terminal seat's session macros and slot.
#[derive(Debug)]
pub struct TerminalMacros {
    session: Named<Macro>,
    slot: Option<SlotState>,
}

impl View for TerminalMacros {
    type V = MacrosState;

    closed spec fn view(&self) -> MacrosState {
        MacrosState {
            session: self.session@,
            slot: match self.slot {
                Some(slot) => Some(slot@),
                None => None,
            },
        }
    }
}

/// The trusted macros and the exclusive scene lock.
#[derive(Debug)]
pub struct MacroRegistry {
    trusted: Named<Macro>,
    scene_lock: Option<TerminalId>,
}

impl View for MacroRegistry {
    type V = TrustedState;

    closed spec fn view(&self) -> TrustedState {
        TrustedState { trusted: self.trusted@, scene_lock: self.scene_lock }
    }
}

/// What shows of a terminal's slot.
#[derive(Debug)]
pub struct ExecutionView {
    /// `"recording"` or `"playback"`.
    pub kind: &'static str,
    /// The execution handle of a playback.
    pub id: Option<String>,
    /// The name that a recording will be stored under, or that the macro being
    /// played is stored under.
    pub name: String,
    /// Whether the operation is privileged.
    pub privileged: bool,
    /// Commands captured so far, or commands of the macro being played.
    pub commands: usize,
    /// Commands put back so far.
    pub played: Option<usize>,
    /// Whether the playback drops delays.
    pub instant: Option<bool>,
    /// The playback's clock multiplier.
    pub rate: Option<Single>,
    /// Whether the operation holds the scene lock.
    pub scene_locked: bool,
}

/// Whether a row shows a slot.
pub open spec fn shows_slot(row: ExecutionView, slot: SlotView) -> bool {
    match slot {
        SlotView::Recording(rec) => {
            &&& row.kind@ == "recording"@
            &&& row.id is None
            &&& row.name@ == rec.name
            &&& row.privileged == rec.privileged
            &&& row.commands == rec.steps.len()
            &&& row.played is None
            &&& row.instant is None
            &&& row.rate is None
            &&& !row.scene_locked
        },
        SlotView::Playing(playback) => {
            &&& row.kind@ == "playback"@
            &&& token_view(row.id) == Some(playback.execution_id)
            &&& row.name@ == playback.name
            &&& row.privileged == playback.pinned.privileged
            &&& row.commands == playback.pinned.steps.len()
            &&& row.played is Some
            &&& row.played->0 == playback.next_index
            &&& row.instant == Some(playback.instant)
            &&& row.rate == Some(playback.rate)
            &&& row.scene_locked == playback.scene_locked
        },
    }
}

impl TerminalMacros {
    /// Names are distinct and every limit holds.
    pub open spec fn wf(&self) -> bool {
        self@.wf()
    }

    /// Nothing stored, nothing active.
    pub fn new() -> (macros: TerminalMacros)
        ensures
            macros.wf(),
            macros@ == MacrosState::fresh(),
    {
        TerminalMacros { session: Named::new(), slot: None }
    }

    /// Number of session macros that this terminal stores.
    pub fn session_len(&self) -> (len: usize)
        ensures
            len == self@.session.len(),
    {
        self.session.len()
    }

    /// A session macro under its name.
    pub fn session_entry(&self, index: usize) -> (entry: (&String, &Macro))
        requires
            index < self@.session.len(),
        ensures
            (entry.0@, entry.1@) == self@.session[index as int],
    {
        self.session.entry(index)
    }

    /// Whether the slot is an active playback.
    pub fn has_active_playback(&self) -> (playing: bool)
        ensures
            playing == (self@.slot matches Some(SlotView::Playing(_))),
    {
        match &self.slot {
            Some(SlotState::Playing(_)) => true,
            _ => false,
        }
    }

    /// Whether the slot is taken.
    pub fn is_busy(&self) -> (busy: bool)
        ensures
            busy == (self@.slot is Some),
    {
        self.slot.is_some()
    }

    /// When the active recording or playback began.
    pub fn started(&self) -> (started: Option<u64>)
        ensures
            started == match self@.slot {
                Some(SlotView::Recording(rec)) => Some(rec.started),
                Some(SlotView::Playing(playback)) => Some(playback.started),
                None => None,
            },
    {
        match &self.slot {
            Some(SlotState::Recording(rec)) => Some(rec.started),
            Some(SlotState::Playing(playback)) => Some(playback.started),
            None => None,
        }
    }

    /// What shows of the slot.
    pub fn execution_view(&self) -> (row: Option<ExecutionView>)
        ensures
            match row {
                Some(row) => self@.slot is Some && shows_slot(row, self@.slot->0),
                None => self@.slot is None,
            },
    {
        match &self.slot {
            Some(SlotState::Recording(rec)) => Some(
                ExecutionView {
                    kind: "recording",
                    id: None,
                    name: rec.name.clone(),
                    privileged: rec.privileged,
                    commands: rec.steps.len(),
                    played: None,
                    instant: None,
                    rate: None,
                    scene_locked: false,
                },
            ),
            Some(SlotState::Playing(playback)) => Some(
                ExecutionView {
                    kind: "playback",
                    id: Some(playback.execution_id.clone()),
                    name: playback.name.clone(),
                    privileged: playback.pinned.privileged,
                    commands: playback.pinned.steps.len(),
                    played: Some(playback.next_index),
                    instant: Some(playback.instant),
                    rate: Some(playback.rate),
                    scene_locked: playback.scene_locked,
                },
            ),
            None => None,
        }
    }

    /// Starts a recording in this terminal's slot.
    pub fn start_recording(
        &mut self,
        source: IngressSource,
        name: &str,
        replace: bool,
        now: u64,
    ) -> (started: Result<(), Reject>)
        requires
            old(self).wf(),
        ensures
            final(self).wf(),
            match started {
                Ok(_) => old(self)@.record(source, name@, replace, now) == Ok::<
                    MacrosState,
                    (Code, Seq<char>),
                >(final(self)@),
                Err(reject) => final(self)@ == old(self)@ && old(self)@.record(
                    source,
                    name@,
                    replace,
                    now,
                ) == Err::<MacrosState, (Code, Seq<char>)>(reject@),
            },
    {
        if name.is_empty() {
            return Err(Reject::new(Code::BadPayload, "name= must be non-empty"));
        }
        if text_byte_len(name) > MAX_MACRO_NAME_BYTES {
            return Err(Reject::new(Code::TooLarge, "name exceeds 64 bytes"));
        }
        if self.slot.is_some() {
            return Err(
                Reject::new(
                    Code::Busy,
                    "a recording or playback is already active for this agent",
                ),
            );
        }
        let exists: bool = self.session.contains(name);
        if exists && !replace {
            let mut message = "macro '".to_owned();
            message.append(name);
            message.append("' exists (pass mode=replace to overwrite it)");
            return Err(Reject { code: Code::AlreadyExists, message });
        }
        if !exists && self.session.len() >= MAX_MACROS_PER_NAMESPACE {
            let mut message = "namespace ".to_owned();
            message.append(&decimal_text(source.namespace() as u64));
            message.append(" is at its 32-macro limit");
            return Err(Reject { code: Code::NamespaceCap, message });
        }
        self.slot = Some(
            SlotState::Recording(
                ActiveRecording {
                    name: name.to_owned(),
                    started: now,
                    steps: Vec::new(),
                    privileged: false,
                    rule_safe: true,
                    poisoned: None,
                },
            ),
        );
        proof {
            assert(self@.slot->0->Recording_0.steps =~= Seq::empty());
        }
        Ok(())
    }

    /// Taps a command into the active recording, if there is one. A command of
    /// the control plane is never taken.
    pub fn capture(&mut self, command: &RattyAiCommand, offset: Single)
        requires
            old(self).wf(),
        ensures
            final(self).wf(),
            final(self)@ == old(self)@.capture(*command, offset),
    {
        if command.is_control_plane() {
            return ;
        }
        match self.slot.take() {
            Some(SlotState::Recording(rec)) => {
                let mut rec = rec;
                if rec.poisoned.is_none() {
                    let span = Single { bits: MAX_RECORDING_SECS_BITS };
                    if rec.steps.len() >= MAX_COMMANDS_PER_MACRO || span.is_below(offset) {
                        rec.poisoned = Some(Code::TooLarge);
                    } else {
                        if command.is_scene_global() {
                            rec.privileged = true;
                        }
                        if !command.is_rule_safe_action() {
                            rec.rule_safe = false;
                        }
                        rec.steps.push(MacroStep { offset, command: command.clone() });
                    }
                }
                self.slot = Some(SlotState::Recording(rec));
            },
            other => {
                self.slot = other;
            },
        }
    }

    /// Saves the active recording or cancels the active playback; says whether
    /// a cancelled playback held the scene lock.
    pub fn stop_slot(&mut self) -> (unlocks: Result<bool, Reject>)
        requires
            old(self).wf(),
        ensures
            final(self).wf(),
            final(self)@ == stopped(old(self)@).macros,
            match unlocks {
                Ok(unlocks) => stopped(old(self)@).refusal is None && unlocks == stopped(
                    old(self)@,
                ).unlocks,
                Err(reject) => stopped(old(self)@).refusal == Some(reject@),
            },
    {
        match self.slot.take() {
            Some(SlotState::Recording(rec)) => {
                if let Some(code) = rec.poisoned {
                    return Err(
                        Reject::new(code, "recording exceeded a limit and was discarded"),
                    );
                }
                let hash = content_hash(&rec.steps, rec.privileged);
                let saved = Macro {
                    v: MACRO_VERSION,
                    steps: rec.steps,
                    privileged: rec.privileged,
                    rule_safe: rec.rule_safe,
                    hash,
                };
                proof {
                    lemma_index_of(self@.session, rec.name@);
                }
                self.session.store(rec.name, saved);
                Ok(false)
            },
            Some(SlotState::Playing(playback)) => Ok(playback.scene_locked),
            None => Err(
                Reject::new(Code::NothingActive, "no active recording or playback to stop"),
            ),
        }
    }
}

impl Default for TerminalMacros {
    fn default() -> (macros: Self)
        ensures
            macros.wf(),
            macros@ == MacrosState::fresh(),
    {
        TerminalMacros::new()
    }
}

/// Whether some step is in a class.
pub open spec fn any_step(steps: Seq<MacroStep>, class: spec_fn(RattyAiCommand) -> bool) -> bool {
    exists|i: int| 0 <= i < steps.len() && class(#[trigger] steps[i].command)
}

/// What promoting a macro does: one that drives macros or executions is
/// refused, and rule safety is worked out from the steps.
pub open spec fn promoted(registry: TrustedState, name: Seq<char>, source: MacroView) -> Result<
    TrustedState,
    Seq<char>,
> {
    if any_step(source.steps, |command: RattyAiCommand| command.macro_control()) {
        Err("a trusted macro may not contain macro-control commands"@)
    } else if any_step(source.steps, |command: RattyAiCommand| command.execution_control()) {
        Err("a trusted macro may not contain execution-control commands"@)
    } else {
        Ok(
            TrustedState {
                trusted: stored(
                    registry.trusted,
                    name,
                    MacroView {
                        rule_safe: !any_step(
                            source.steps,
                            |command: RattyAiCommand| !command.rule_safe_action(),
                        ),
                        ..source
                    },
                ),
                scene_lock: registry.scene_lock,
            },
        )
    }
}

proof fn lemma_hash_index(entries: Seq<(Seq<char>, MacroView)>, hash: Seq<char>)
    ensures
        match hash_index(entries, hash) {
            Some(i) => 0 <= i < entries.len() && entries[i].1.hash == hash && forall|j: int|
                0 <= j < i ==> #[trigger] entries[j].1.hash != hash,
            None => forall|j: int| 0 <= j < entries.len() ==> #[trigger] entries[j].1.hash != hash,
        },
    decreases entries.len(),
{
    if entries.len() > 0 {
        lemma_hash_index(entries.drop_last(), hash);
        assert forall|j: int| 0 <= j < entries.len() - 1 implies #[trigger] entries[j]
            == entries.drop_last()[j] by {}
    }
}

/// The contents of a found entry.
pub open spec fn entry_view(found: Option<(&String, &Macro)>) -> Option<(Seq<char>, MacroView)> {
    match found {
        Some(entry) => Some((entry.0@, entry.1@)),
        None => None,
    }
}

fn find_hashed<'a>(entries: &'a Named<Macro>, hash: &str) -> (found: Option<
    (&'a String, &'a Macro),
>)
    ensures
        entry_view(found) == entry_hashed(entries@, hash@),
{
    proof {
        lemma_hash_index(entries@, hash@);
    }
    let mut i: usize = 0;
    while i < entries.len()
        invariant
            i <= entries@.len(),
            forall|j: int| 0 <= j < i ==> #[trigger] entries@[j].1.hash != hash@,
            match hash_index(entries@, hash@) {
                Some(k) => 0 <= k < entries@.len() && entries@[k].1.hash == hash@ && forall|j: int|
                    0 <= j < k ==> #[trigger] entries@[j].1.hash != hash@,
                None => forall|j: int|
                    0 <= j < entries@.len() ==> #[trigger] entries@[j].1.hash != hash@,
            },
        decreases entries@.len() - i,
    {
        let entry = entries.entry(i);
        if same_text(entry.1.hash(), hash) {
            assert(entries@[i as int].1.hash == hash@);
            return Some(entry);
        }
        assert(entries@[i as int].1.hash != hash@);
        i += 1;
    }
    None
}

fn find_named<'a>(entries: &'a Named<Macro>, name: &str) -> (found: Option<
    (&'a String, &'a Macro),
>)
    ensures
        entry_view(found) == entry_named(entries@, name@),
{
    proof {
        lemma_index_of(entries@, name@);
    }
    let mut i: usize = 0;
    while i < entries.len()
        invariant
            i <= entries@.len(),
            forall|j: int| 0 <= j < i ==> #[trigger] entries@[j].0 != name@,
            match index_of(entries@, name@) {
                Some(k) => 0 <= k < entries@.len() && entries@[k].0 == name@ && forall|j: int|
                    0 <= j < k ==> #[trigger] entries@[j].0 != name@,
                None => forall|j: int|
                    0 <= j < entries@.len() ==> #[trigger] entries@[j].0 != name@,
            },
        decreases entries@.len() - i,
    {
        let entry = entries.entry(i);
        if same_text(entry.0, name) {
            assert(entries@[i as int].0 == name@);
            return Some(entry);
        }
        assert(entries@[i as int].0 != name@);
        i += 1;
    }
    None
}

impl MacroRegistry {
    /// No trusted name occurs twice.
    pub open spec fn wf(&self) -> bool {
        distinct(self@.trusted)
    }

    /// No trusted macros, and the scene is free.
    pub fn new() -> (registry: MacroRegistry)
        ensures
            registry.wf(),
            registry@ == (TrustedState { trusted: Seq::empty(), scene_lock: None }),
    {
        MacroRegistry { trusted: Named::new(), scene_lock: None }
    }

    /// The terminal holding the scene lock.
    pub fn scene_lock(&self) -> (holder: Option<TerminalId>)
        ensures
            holder == self@.scene_lock,
    {
        self.scene_lock
    }

    /// Promotes a macro into the durable trusted registry; the wire never
    /// reaches this.
    pub fn insert_trusted(&mut self, name: String, steps_source: &Macro) -> (inserted: Result<
        (),
        &'static str,
    >)
        requires
            old(self).wf(),
        ensures
            final(self).wf(),
            match inserted {
                Ok(_) => promoted(old(self)@, name@, steps_source@) == Ok::<
                    TrustedState,
                    Seq<char>,
                >(final(self)@),
                Err(text) => final(self)@ == old(self)@ && promoted(
                    old(self)@,
                    name@,
                    steps_source@,
                ) == Err::<TrustedState, Seq<char>>(text@),
            },
    {
        let ghost drives = |command: RattyAiCommand| command.macro_control();
        let ghost controls = |command: RattyAiCommand| command.execution_control();
        let ghost unsafe_for_rules = |command: RattyAiCommand| !command.rule_safe_action();
        let ghost steps = steps_source@.steps;
        let mut controls_macros: bool = false;
        let mut controls_executions: bool = false;
        let mut rule_safe: bool = true;
        let mut i: usize = 0;
        while i < steps_source.steps.len()
            invariant
                i <= steps.len(),
                steps == steps_source.steps@,
                controls_macros == exists|j: int|
                    0 <= j < i && (#[trigger] steps[j].command).macro_control(),
                controls_executions == exists|j: int|
                    0 <= j < i && (#[trigger] steps[j].command).execution_control(),
                !rule_safe == exists|j: int|
                    0 <= j < i && !(#[trigger] steps[j].command).rule_safe_action(),
            decreases steps.len() - i,
        {
            let command = &steps_source.steps[i].command;
            assert(steps[i as int].command == *command);
            if command.is_macro_control() {
                controls_macros = true;
            }
            if command.is_execution_control() {
                controls_executions = true;
            }
            if !command.is_rule_safe_action() {
                rule_safe = false;
            }
            i += 1;
        }
        proof {
            assert(any_step(steps, drives) == controls_macros) by {
                if any_step(steps, drives) {
                    let k = choose|k: int|
                        0 <= k < steps.len() && drives(#[trigger] steps[k].command);
                    assert(steps[k].command.macro_control());
                }
                if controls_macros {
                    let k = choose|k: int|
                        0 <= k < i && (#[trigger] steps[k].command).macro_control();
                    assert(drives(steps[k].command));
                }
            }
            assert(any_step(steps, controls) == controls_executions) by {
                if any_step(steps, controls) {
                    let k = choose|k: int|
                        0 <= k < steps.len() && controls(#[trigger] steps[k].command);
                    assert(steps[k].command.execution_control());
                }
                if controls_executions {
                    let k = choose|k: int|
                        0 <= k < i && (#[trigger] steps[k].command).execution_control();
                    assert(controls(steps[k].command));
                }
            }
            assert(any_step(steps, unsafe_for_rules) == !rule_safe) by {
                if any_step(steps, unsafe_for_rules) {
                    let k = choose|k: int|
                        0 <= k < steps.len() && unsafe_for_rules(#[trigger] steps[k].command);
                    assert(!steps[k].command.rule_safe_action());
                }
                if !rule_safe {
                    let k = choose|k: int|
                        0 <= k < i && !(#[trigger] steps[k].command).rule_safe_action();
                    assert(unsafe_for_rules(steps[k].command));
                }
            }
        }
        if controls_macros {
            return Err("a trusted macro may not contain macro-control commands");
        }
        if controls_executions {
            return Err("a trusted macro may not contain execution-control commands");
        }
        self.trusted.store(
            name,
            Macro {
                v: steps_source.v,
                steps: copy_steps(&steps_source.steps),
                privileged: steps_source.privileged,
                rule_safe,
                hash: steps_source.hash.clone(),
            },
        );
        Ok(())
    }

    /// How many trusted macros there are.
    pub fn trusted_len(&self) -> (len: usize)
        ensures
            len == self@.trusted.len(),
    {
        self.trusted.len()
    }

    /// A trusted macro under its name.
    pub fn trusted_entry(&self, index: usize) -> (entry: (&String, &Macro))
        requires
            index < self@.trusted.len(),
        ensures
            (entry.0@, entry.1@) == self@.trusted[index as int],
    {
        self.trusted.entry(index)
    }

    /// Resolves a macro by name, with the name that it is stored under.
    pub fn resolve<'a>(
        &'a self,
        seat: &'a TerminalMacros,
        name: &str,
        scope: Option<MacroScope>,
    ) -> (found: Option<(&'a String, &'a Macro)>)
        ensures
            entry_view(found) == resolved(seat@.session, self@.trusted, name@, scope),
    {
        match scope {
            Some(MacroScope::Session) => find_named(&seat.session, name),
            Some(MacroScope::Trusted) => find_named(&self.trusted, name),
            None => match find_named(&seat.session, name) {
                Some(entry) => Some(entry),
                None => find_named(&self.trusted, name),
            },
        }
    }

    /// Resolves a macro by its immutable content id; never in another agent's
    /// session.
    pub fn resolve_by_hash<'a>(&'a self, seat: &'a TerminalMacros, hash: &str) -> (found: Option<
        (&'a String, &'a Macro),
    >)
        ensures
            entry_view(found) == resolved_by_hash(seat@.session, self@.trusted, hash@),
    {
        match find_hashed(&seat.session, hash) {
            Some(entry) => Some(entry),
            None => find_hashed(&self.trusted, hash),
        }
    }

    fn release_scene_lock(&mut self, holder: TerminalId)
        requires
            old(self)@.scene_lock == Some(holder),
        ensures
            final(self)@ == (TrustedState { scene_lock: None, ..old(self)@ }),
    {
        self.scene_lock = None;
    }

    /// Saves `seat`'s active recording or cancels its active playback,
    /// releasing the scene lock when the cancelled playback held it.
    pub fn stop(&mut self, seat: &mut TerminalMacros, source: IngressSource) -> (done: Result<
        (),
        Reject,
    >)
        requires
            old(seat).wf(),
            old(seat)@.locks_scene() ==> old(self)@.scene_lock == Some(source.terminal_id()),
        ensures
            final(seat).wf(),
            final(seat)@ == stopped(old(seat)@).macros,
            final(self)@ == (TrustedState {
                trusted: old(self)@.trusted,
                scene_lock: if stopped(old(seat)@).unlocks {
                    None
                } else {
                    old(self)@.scene_lock
                },
            }),
            match done {
                Ok(_) => stopped(old(seat)@).refusal is None,
                Err(reject) => stopped(old(seat)@).refusal == Some(reject@),
            },
    {
        match seat.stop_slot() {
            Ok(unlocks) => {
                if unlocks {
                    self.release_scene_lock(source.terminal());
                }
                Ok(())
            },
            Err(reject) => Err(reject),
        }
    }

    /// Starts a playback in `seat`'s slot.
    pub fn start_playback(
        &mut self,
        seat: &mut TerminalMacros,
        source: IngressSource,
        origin: CommandOrigin,
        name: &str,
        hash: Option<&str>,
        rate: Single,
        instant: bool,
        scope: Option<MacroScope>,
        execution_id: String,
        now: u64,
    ) -> (started: Result<PlaybackEta, Reject>)
        requires
            old(seat).wf(),
        ensures
            final(seat).wf(),
            ({
                let request = PlayRequest {
                    name: name@,
                    hash: match hash {
                        Some(hash) => Some(hash@),
                        None => None,
                    },
                    rate,
                    instant,
                    scope,
                };
                let outcome = played(
                    old(seat)@,
                    old(self)@,
                    source,
                    origin,
                    request,
                    execution_id@,
                    now,
                );
                match started {
                    Ok(eta) => outcome == Ok::<
                        (MacrosState, TrustedState, PlaybackEta),
                        (Code, Seq<char>),
                    >((final(seat)@, final(self)@, eta)),
                    Err(reject) => {
                        &&& final(seat)@ == old(seat)@
                        &&& final(self)@ == old(self)@
                        &&& outcome == Err::<
                            (MacrosState, TrustedState, PlaybackEta),
                            (Code, Seq<char>),
                        >(reject@)
                    },
                }
            }),
    {
        if seat.slot.is_some() {
            return Err(
                Reject::new(
                    Code::Busy,
                    "a recording or playback is already active for this agent",
                ),
            );
        }
        if !rate.is_finite() || rate.bits == 0 || rate.bits >= 0x8000_0000 {
            return Err(
                Reject::new(Code::BadPayload, "rate must be a finite value greater than 0"),
            );
        }
        let top = Single { bits: MAX_PLAYBACK_RATE_BITS };
        let rate: Single = if top.is_below(rate) {
            top
        } else {
            rate
        };
        let found = match hash {
            Some(hash) => self.resolve_by_hash(seat, hash),
            None => self.resolve(seat, name, scope),
        };
        let (stored_name, pinned): (String, Macro) = match found {
            Some(entry) => (entry.0.clone(), entry.1.clone()),
            None => {
                return Err(
                    Reject::new(
                        Code::UnknownId,
                        "no macro resolves under the given name/hash and scope",
                    ),
                );
            },
        };
        if origin == CommandOrigin::Rule && !pinned.rule_safe {
            return Err(
                Reject::new(
                    Code::NotPermitted,
                    "a rule may only play a rule-safe macro (every step in the allowlisted choreography class)",
                ),
            );
        }
        if pinned.privileged {
            if self.scene_lock.is_some() {
                return Err(
                    Reject::new(
                        Code::SceneLocked,
                        "a privileged macro cannot play while the exclusive scene lock is held",
                    ),
                );
            }
            self.scene_lock = Some(source.terminal());
        }
        let count: usize = pinned.steps.len();
        let eta: PlaybackEta = if instant {
            let whole: u64 = (count / MAX_PLAYBACK_COMMANDS_PER_FRAME) as u64;
            if count % MAX_PLAYBACK_COMMANDS_PER_FRAME == 0 {
                PlaybackEta::Frames(whole)
            } else {
                PlaybackEta::Frames(whole + 1)
            }
        } else {
            PlaybackEta::Run {
                offset: if count == 0 {
                    Single { bits: 0 }
                } else {
                    pinned.steps[count - 1].offset
                },
                rate,
            }
        };
        let scene_locked: bool = pinned.privileged;
        seat.slot = Some(
            SlotState::Playing(
                ActivePlayback {
                    source,
                    origin: if origin == CommandOrigin::Rule {
                        CommandOrigin::Rule
                    } else {
                        CommandOrigin::Macro
                    },
                    name: stored_name,
                    pinned,
                    rate,
                    instant,
                    started: now,
                    next_index: 0,
                    scene_locked,
                    execution_id,
                },
            ),
        );
        Ok(eta)
    }

    /// Session reset of the terminal that asked: its slot is cancelled, its
    /// session macros are dropped, and the scene lock is released if that
    /// terminal holds it. Trusted macros stay.
    pub fn reset(&mut self, seat: &mut TerminalMacros, terminal: TerminalId)
        ensures
            final(seat).wf(),
            final(seat)@ == MacrosState::fresh(),
            final(self)@ == swept(old(self)@, terminal),
    {
        seat.session.clear();
        seat.slot = None;
        if self.scene_lock == Some(terminal) {
            self.scene_lock = None;
        }
    }

    /// Releases the scene lock of a terminal that died.
    pub fn sweep_terminal(&mut self, terminal: TerminalId)
        ensures
            final(self)@ == swept(old(self)@, terminal),
    {
        if self.scene_lock == Some(terminal) {
            self.scene_lock = None;
        }
    }
}

/// The registry without a terminal's hold on the scene.
pub open spec fn swept(registry: TrustedState, terminal: TerminalId) -> TrustedState {
    TrustedState {
        trusted: registry.trusted,
        scene_lock: if registry.scene_lock == Some(terminal) {
            None
        } else {
            registry.scene_lock
        },
    }
}

impl Default for MacroRegistry {
    fn default() -> (registry: Self)
        ensures
            registry.wf(),
            registry@ == (TrustedState { trusted: Seq::empty(), scene_lock: None }),
    {
        MacroRegistry::new()
    }
}

/// A terminal seat as the macro organ sees it.
#[derive(Debug)]
pub struct MacroSeat {
    /// Who sits there.
    pub identity: TerminalIdentity,
    /// Its macros.
    pub macros: TerminalMacros,
    /// Seconds since its recording began.
    pub elapsed: Single,
    /// Seconds since its playback began, times the playback's rate.
    pub position: Single,
}

/// A seat's contents.
pub struct SeatView {
    /// Who sits there.
    pub identity: TerminalIdentity,
    /// Its macros.
    pub macros: MacrosState,
    /// Seconds since its recording began.
    pub elapsed: Single,
    /// Seconds since its playback began, times the playback's rate.
    pub position: Single,
}

impl View for MacroSeat {
    type V = SeatView;

    open spec fn view(&self) -> SeatView {
        SeatView {
            identity: self.identity,
            macros: self.macros@,
            elapsed: self.elapsed,
            position: self.position,
        }
    }
}

/// The contents of all seats.
pub open spec fn seat_views(seats: Seq<MacroSeat>) -> Seq<SeatView> {
    seats.map_values(|seat: MacroSeat| seat@)
}

/// The index of a terminal's seat.
pub open spec fn seat_index(seats: Seq<SeatView>, id: TerminalId) -> Option<int>
    decreases seats.len(),
{
    if seats.len() == 0 {
        None
    } else {
        match seat_index(seats.drop_last(), id) {
            Some(i) => Some(i),
            None => if seats.last().identity.terminal_id() == id {
                Some(seats.len() - 1)
            } else {
                None
            },
        }
    }
}

proof fn lemma_seat_index(seats: Seq<SeatView>, id: TerminalId)
    ensures
        match seat_index(seats, id) {
            Some(i) => 0 <= i < seats.len() && seats[i].identity.terminal_id() == id && forall|j: int|
                0 <= j < i ==> (#[trigger] seats[j]).identity.terminal_id() != id,
            None => forall|j: int|
                0 <= j < seats.len() ==> (#[trigger] seats[j]).identity.terminal_id() != id,
        },
    decreases seats.len(),
{
    if seats.len() > 0 {
        lemma_seat_index(seats.drop_last(), id);
        assert forall|j: int| 0 <= j < seats.len() - 1 implies #[trigger] seats[j]
            == seats.drop_last()[j] by {}
    }
}

/// Every seat is a different terminal with macros in order, and the scene lock
/// is held by a terminal exactly if its slot is a playback that holds it.
pub open spec fn seats_wf(seats: Seq<SeatView>, scene_lock: Option<TerminalId>) -> bool {
    &&& forall|i: int, j: int|
        0 <= i < j < seats.len() ==> (#[trigger] seats[i]).identity.terminal_id() != (
        #[trigger] seats[j]).identity.terminal_id()
    &&& forall|i: int| 0 <= i < seats.len() ==> (#[trigger] seats[i]).macros.wf()
    &&& forall|i: int|
        0 <= i < seats.len() ==> (#[trigger] seats[i]).macros.locks_scene() == (scene_lock == Some(
            seats[i].identity.terminal_id(),
        ))
}

/// The estimate in a started reply.
pub open spec fn eta_of(eta: PlaybackEta) -> Eta {
    match eta {
        PlaybackEta::Run { offset, rate } => Eta::Run { offset, rate },
        PlaybackEta::Frames(frames) => Eta::Frames(frames),
    }
}

/// What a command does to the macros of the terminal that sent it, and what
/// is answered: the macro commands are answered here, a reset is silent, and
/// of everything else a recording takes what is recordable.
pub open spec fn macro_step(
    macros: MacrosState,
    elapsed: Single,
    registry: TrustedState,
    session: SessionState,
    entry: AiCommand,
    now: u64,
) -> (MacrosState, TrustedState, SessionState, Option<ReplyView>) {
    match entry.command {
        RattyAiCommand::MacroRecord { name, replace } => match macros.record(
            entry.source,
            name@,
            replace,
            now,
        ) {
            Ok(next) => (next, registry, session, Some(ReplyView::Commit)),
            Err((code, message)) => (
                macros,
                registry,
                session,
                Some(ReplyView::Refused("macro.record"@, code, message)),
            ),
        },
        RattyAiCommand::MacroStop => {
            let stop = stopped(macros);
            (
                stop.macros,
                TrustedState {
                    trusted: registry.trusted,
                    scene_lock: if stop.unlocks {
                        None
                    } else {
                        registry.scene_lock
                    },
                },
                session,
                match stop.refusal {
                    Some((code, message)) => Some(ReplyView::Refused("macro.stop"@, code, message)),
                    None => Some(ReplyView::Commit),
                },
            )
        },
        RattyAiCommand::MacroPlay { name, hash, rate, instant, scope } => {
            let id = session.next_handle();
            let request = PlayRequest {
                name: name@,
                hash: token_view(hash),
                rate,
                instant,
                scope,
            };
            match played(macros, registry, entry.source, entry.origin, request, id, now) {
                Ok((next, registry, eta)) => (
                    next,
                    registry,
                    session.after_mint(),
                    Some(
                        ReplyView::LongRunning(
                            Code::Started,
                            HandleView { id, position: 0, eta: eta_of(eta) },
                        ),
                    ),
                ),
                Err((code, message)) => (
                    macros,
                    registry,
                    session.after_mint(),
                    Some(ReplyView::Refused("macro.play"@, code, message)),
                ),
            }
        },
        RattyAiCommand::MacroExport { .. } => (
            macros,
            registry,
            session,
            Some(
                ReplyView::Refused(
                    "macro.export"@,
                    Code::WireFilesystem,
                    "macro.export never writes a filesystem path; promotion is a trusted-tier act"@,
                ),
            ),
        ),
        RattyAiCommand::MacroRun { .. } => (
            macros,
            registry,
            session,
            Some(
                ReplyView::Refused(
                    "macro.run"@,
                    Code::WireFilesystem,
                    "macro.run never reads a filesystem path; the terminal byte stream is untrusted"@,
                ),
            ),
        ),
        RattyAiCommand::Reset => (
            MacrosState::fresh(),
            swept(registry, entry.source.terminal_id()),
            session,
            None,
        ),
        _ => if entry.command.control_plane() || entry.command.execution_control() || entry.origin
            == CommandOrigin::Rule {
            (macros, registry, session, None)
        } else {
            (
                macros.capture(entry.command, macros.offset_now(elapsed, now)),
                registry,
                session,
                None,
            )
        },
    }
}

/// Everything that the macro organ touches.
pub struct MacroWorld {
    /// The seats.
    pub seats: Seq<SeatView>,
    /// The trusted macros and the scene lock.
    pub registry: TrustedState,
    /// The session that handles are minted in.
    pub session: SessionState,
    /// The answers.
    pub log: LogState,
}

impl MacroWorld {
    /// The seats are in order and the trusted names are distinct.
    pub open spec fn wf(self) -> bool {
        &&& seats_wf(self.seats, self.registry.scene_lock)
        &&& distinct(self.registry.trusted)
    }

    /// The world after a command; one from a terminal that is gone is dropped.
    pub open spec fn after(self, entry: AiCommand, now: u64) -> MacroWorld {
        match seat_index(self.seats, entry.source.terminal_id()) {
            Some(i) => {
                let seat = self.seats[i];
                let (macros, registry, session, reply) = macro_step(
                    seat.macros,
                    seat.elapsed,
                    self.registry,
                    self.session,
                    entry,
                    now,
                );
                MacroWorld {
                    seats: self.seats.update(i, SeatView { macros, ..seat }),
                    registry,
                    session,
                    log: self.log.answered(entry.source, token_view(entry.ack_token), reply),
                }
            },
            None => self,
        }
    }

    /// The world after a run of commands.
    pub open spec fn run(self, commands: Seq<AiCommand>, now: u64) -> MacroWorld
        decreases commands.len(),
    {
        if commands.len() == 0 {
            self
        } else {
            self.run(commands.drop_last(), now).after(commands.last(), now)
        }
    }
}

proof fn lemma_step_keeps_macros(
    macros: MacrosState,
    elapsed: Single,
    registry: TrustedState,
    session: SessionState,
    entry: AiCommand,
    now: u64,
)
    requires
        macros.wf(),
        macros.locks_scene() == (registry.scene_lock == Some(entry.source.terminal_id())),
        distinct(registry.trusted),
    ensures
        ({
            let (next, after, _, _) = macro_step(macros, elapsed, registry, session, entry, now);
            &&& next.wf()
            &&& distinct(after.trusted)
            &&& next.locks_scene() == (after.scene_lock == Some(entry.source.terminal_id()))
            &&& after.scene_lock != registry.scene_lock ==> {
                ||| registry.scene_lock is None && after.scene_lock == Some(
                    entry.source.terminal_id(),
                )
                ||| after.scene_lock is None && registry.scene_lock == Some(
                    entry.source.terminal_id(),
                )
            }
        }),
{
    match macros.slot {
        Some(SlotView::Recording(rec)) => {
            lemma_index_of(macros.session, rec.name);
            law_store_then_lookup(macros.session, rec.name, finalized(rec), rec.name);
        },
        _ => {},
    }
}

/// Every command keeps the macros in order and the scene lock consistent: it
/// is held by a terminal exactly if that terminal's slot is a playback that
/// holds it.
pub proof fn law_scene_lock_is_consistent(world: MacroWorld, entry: AiCommand, now: u64)
    requires
        world.wf(),
    ensures
        world.after(entry, now).wf(),
{
    lemma_seat_index(world.seats, entry.source.terminal_id());
    match seat_index(world.seats, entry.source.terminal_id()) {
        Some(i) => {
            let seat = world.seats[i];
            lemma_step_keeps_macros(
                seat.macros,
                seat.elapsed,
                world.registry,
                world.session,
                entry,
                now,
            );
            let after = world.after(entry, now);
            assert forall|j: int| 0 <= j < after.seats.len() implies (
            #[trigger] after.seats[j]).macros.wf() && after.seats[j].macros.locks_scene() == (
            after.registry.scene_lock == Some(after.seats[j].identity.terminal_id())) by {
                if j != i {
                    assert(after.seats[j] == world.seats[j]);
                    if i < j {
                        assert(world.seats[i].identity.terminal_id()
                            != world.seats[j].identity.terminal_id());
                    } else {
                        assert(world.seats[j].identity.terminal_id()
                            != world.seats[i].identity.terminal_id());
                    }
                }
            }
            assert forall|a: int, b: int| 0 <= a < b < after.seats.len() implies (
            #[trigger] after.seats[a]).identity.terminal_id() != (
            #[trigger] after.seats[b]).identity.terminal_id() by {
                assert(after.seats[a].identity == world.seats[a].identity);
                assert(after.seats[b].identity == world.seats[b].identity);
            }
        },
        None => {},
    }
}

fn find_seat(seats: &Vec<MacroSeat>, id: TerminalId) -> (found: Option<usize>)
    ensures
        match found {
            Some(i) => seat_index(seat_views(seats@), id) == Some(i as int) && i < seats@.len(),
            None => seat_index(seat_views(seats@), id) is None,
        },
{
    let ghost views = seat_views(seats@);
    proof {
        lemma_seat_index(views, id);
    }
    let mut i: usize = 0;
    while i < seats.len()
        invariant
            i <= seats@.len(),
            views == seat_views(seats@),
            views.len() == seats@.len(),
            forall|j: int| 0 <= j < i ==> (#[trigger] views[j]).identity.terminal_id() != id,
            match seat_index(views, id) {
                Some(k) => 0 <= k < views.len() && views[k].identity.terminal_id() == id
                    && forall|j: int|
                    0 <= j < k ==> (#[trigger] views[j]).identity.terminal_id() != id,
                None => forall|j: int|
                    0 <= j < views.len() ==> (#[trigger] views[j]).identity.terminal_id() != id,
            },
        decreases seats.len() - i,
    {
        assert(views[i as int] == seats@[i as int]@);
        if seats[i].identity.id() == id {
            return Some(i);
        }
        i += 1;
    }
    None
}

fn apply_macro_command(
    registry: &mut MacroRegistry,
    seat: &mut TerminalMacros,
    elapsed: Single,
    session: &mut QuerySession,
    entry: &AiCommand,
    now: u64,
) -> (reply: Option<Reply>)
    requires
        old(seat).wf(),
        old(seat)@.locks_scene() == (old(registry)@.scene_lock == Some(
            entry.source.terminal_id(),
        )),
        distinct(old(registry)@.trusted),
        old(session)@.minted < u64::MAX,
    ensures
        final(seat).wf(),
        (final(seat)@, final(registry)@, final(session)@, reply_view(reply)) == macro_step(
            old(seat)@,
            elapsed,
            old(registry)@,
            old(session)@,
            *entry,
            now,
        ),
{
    proof {
        lemma_step_keeps_macros(seat@, elapsed, registry@, session@, *entry, now);
    }
    match &entry.command {
        RattyAiCommand::MacroRecord { name, replace } => {
            match seat.start_recording(entry.source, name, *replace, now) {
                Ok(()) => Some(Reply::Commit),
                Err(reject) => Some(Reply::Refused { action: "macro.record", reject }),
            }
        },
        RattyAiCommand::MacroStop => {
            match registry.stop(seat, entry.source) {
                Ok(()) => Some(Reply::Commit),
                Err(reject) => Some(Reply::Refused { action: "macro.stop", reject }),
            }
        },
        RattyAiCommand::MacroPlay { name, hash, rate, instant, scope } => {
            let execution_id = session.mint_execution_id();
            let hash: Option<&str> = match hash {
                Some(hash) => Some(hash.as_str()),
                None => None,
            };
            match registry.start_playback(
                seat,
                entry.source,
                entry.origin,
                name,
                hash,
                *rate,
                *instant,
                *scope,
                execution_id.clone(),
                now,
            ) {
                Ok(eta) => {
                    let eta: Eta = match eta {
                        PlaybackEta::Run { offset, rate } => Eta::Run { offset, rate },
                        PlaybackEta::Frames(frames) => Eta::Frames(frames),
                    };
                    Some(
                        Reply::LongRunning {
                            code: Code::Started,
                            handle: Handle { id: execution_id, position: 0, eta },
                        },
                    )
                },
                Err(reject) => Some(Reply::Refused { action: "macro.play", reject }),
            }
        },
        RattyAiCommand::MacroExport { .. } => Some(
            Reply::refuse(
                "macro.export",
                Code::WireFilesystem,
                "macro.export never writes a filesystem path; promotion is a trusted-tier act",
            ),
        ),
        RattyAiCommand::MacroRun { .. } => Some(
            Reply::refuse(
                "macro.run",
                Code::WireFilesystem,
                "macro.run never reads a filesystem path; the terminal byte stream is untrusted",
            ),
        ),
        RattyAiCommand::Reset => {
            registry.reset(seat, entry.source.terminal());
            None
        },
        other => {
            if !other.is_control_plane() && !other.is_execution_control() && entry.origin
                != CommandOrigin::Rule {
                let offset: Single = match seat.started() {
                    Some(started) => if started >= now && !seat.has_active_playback() {
                        Single { bits: 0 }
                    } else {
                        elapsed
                    },
                    None => elapsed,
                };
                seat.capture(other, offset);
            }
            None
        },
    }
}

/// Handles the macro commands of a frame and taps the callers' recordable
/// choreography into their active recordings. A command whose terminal is gone
/// is dropped, never rerouted.
pub fn apply_macro_commands(
    commands: &Vec<AiCommand>,
    registry: &mut MacroRegistry,
    seats: &mut Vec<MacroSeat>,
    session: &mut QuerySession,
    log: &mut ReplyLog,
    now: u64,
)
    requires
        seats_wf(seat_views(old(seats)@), old(registry)@.scene_lock),
        old(registry).wf(),
        old(session)@.minted + commands@.len() <= u64::MAX,
    ensures
        seats_wf(seat_views(final(seats)@), final(registry)@.scene_lock),
        final(registry).wf(),
        (MacroWorld {
            seats: seat_views(final(seats)@),
            registry: final(registry)@,
            session: final(session)@,
            log: final(log)@,
        }) == (MacroWorld {
            seats: seat_views(old(seats)@),
            registry: old(registry)@,
            session: old(session)@,
            log: old(log)@,
        }).run(commands@, now),
{
    let ghost start = MacroWorld {
        seats: seat_views(seats@),
        registry: registry@,
        session: session@,
        log: log@,
    };
    let mut i: usize = 0;
    assert(commands@.take(0) =~= Seq::empty());
    while i < commands.len()
        invariant
            i <= commands@.len(),
            start.session.minted + commands@.len() <= u64::MAX,
            session@.minted <= start.session.minted + i,
            (MacroWorld {
                seats: seat_views(seats@),
                registry: registry@,
                session: session@,
                log: log@,
            }) == start.run(commands@.take(i as int), now),
            start.run(commands@.take(i as int), now).wf(),
        decreases commands.len() - i,
    {
        let entry = &commands[i];
        let ghost before = start.run(commands@.take(i as int), now);
        proof {
            let next = commands@.take(i + 1);
            assert(next.drop_last() =~= commands@.take(i as int));
            assert(next.last() == commands@[i as int]);
            law_scene_lock_is_consistent(before, *entry, now);
            lemma_seat_index(before.seats, entry.source.terminal_id());
        }
        if let Some(at) = find_seat(seats, entry.source.terminal()) {
            let ghost rows = seats@;
            let mut seat = seats.remove(at);
            assert(before.seats[at as int] == seat@);
            let elapsed: Single = seat.elapsed;
            let reply = apply_macro_command(
                registry,
                &mut seat.macros,
                elapsed,
                session,
                entry,
                now,
            );
            seats.insert(at, seat);
            proof {
                assert(seat_views(seats@) =~= before.seats.update(at as int, seat@));
            }
            log.answer(entry.source, &entry.ack_token, reply);
        }
        i += 1;
    }
    assert(commands@.take(i as int) =~= commands@);
}

/// The commands of the `count` steps from `next` on.
pub open spec fn step_commands(steps: Seq<MacroStep>, next: nat, count: nat) -> Seq<
    RattyAiCommand,
> {
    Seq::new(count, |k: int| steps[next + k].command)
}

proof fn lemma_due(
    steps: Seq<MacroStep>,
    next: nat,
    instant: bool,
    position: Single,
    budget: nat,
)
    requires
        next <= steps.len(),
    ensures
        due(steps, next, instant, position, budget) <= budget,
        next + due(steps, next, instant, position, budget) <= steps.len(),
    decreases budget,
{
    if budget > 0 && next < steps.len() && !(!instant && position.below(
        steps[next as int].offset,
    )) {
        lemma_due(steps, next + 1, instant, position, (budget - 1) as nat);
    }
}

impl ActivePlayback {
    /// Collects the commands due at a position, in order, at most `budget` of
    /// them; an instant playback does not wait.
    pub fn collect_due(&mut self, position: Single, budget: usize) -> (commands: Vec<
        RattyAiCommand,
    >)
        requires
            old(self)@.next_index <= old(self)@.pinned.steps.len(),
        ensures
            ({
                let count = due(
                    old(self)@.pinned.steps,
                    old(self)@.next_index,
                    old(self)@.instant,
                    position,
                    budget as nat,
                );
                &&& commands@ == step_commands(
                    old(self)@.pinned.steps,
                    old(self)@.next_index,
                    count,
                )
                &&& final(self)@ == (PlaybackView {
                    next_index: old(self)@.next_index + count,
                    ..old(self)@
                })
                &&& final(self)@.next_index <= final(self)@.pinned.steps.len()
            }),
    {
        let ghost steps = self@.pinned.steps;
        let ghost first = self@.next_index;
        let ghost total = due(steps, first, self.instant, position, budget as nat);
        let mut commands: Vec<RattyAiCommand> = Vec::new();
        proof {
            lemma_due(steps, first, self.instant, position, budget as nat);
        }
        while self.next_index < self.pinned.steps.len() && commands.len() < budget
            invariant_except_break
                commands@.len() + due(
                    steps,
                    self.next_index as nat,
                    self.instant,
                    position,
                    (budget - commands@.len()) as nat,
                ) == total,
            invariant
                steps == self.pinned.steps@,
                self@ == (PlaybackView {
                    next_index: self.next_index as nat,
                    ..old(self)@
                }),
                first == old(self)@.next_index,
                steps == old(self)@.pinned.steps,
                self.next_index == first + commands@.len(),
                self.next_index <= steps.len(),
                commands@.len() <= budget,
                commands@ == step_commands(steps, first, commands@.len()),
            ensures
                commands@.len() == total,
            decreases steps.len() - self.next_index,
        {
            let next: usize = self.next_index;
            let step = &self.pinned.steps[next];
            if !self.instant && position.is_below(step.offset) {
                break;
            }
            commands.push(step.command.clone());
            self.next_index = next + 1;
            assert(commands@ =~= step_commands(steps, first, commands@.len()));
        }
        commands
    }

    /// Whether every step has been put back.
    pub fn finished(&self) -> (finished: bool)
        ensures
            finished == (self@.next_index >= self@.pinned.steps.len()),
    {
        self.next_index >= self.pinned.steps.len()
    }
}

impl TerminalMacros {
    /// The seat's playback.
    pub fn playback(&self) -> (playback: Option<&ActivePlayback>)
        ensures
            playback is Some <==> (self@.slot matches Some(slot) && slot is Playing),
            playback is Some ==> self@.slot == Some(SlotView::Playing((playback->0)@)),
    {
        match &self.slot {
            Some(SlotState::Playing(playback)) => Some(playback),
            _ => None,
        }
    }

    /// Collects what the seat's playback has due at a position, at most
    /// `budget` commands; nothing where the seat plays nothing.
    pub fn collect_due(&mut self, position: Single, budget: usize) -> (commands: Vec<
        RattyAiCommand,
    >)
        requires
            old(self).wf(),
        ensures
            final(self).wf(),
            match old(self)@.slot {
                Some(SlotView::Playing(playback)) => {
                    let count = due(
                        playback.pinned.steps,
                        playback.next_index,
                        playback.instant,
                        position,
                        budget as nat,
                    );
                    &&& commands@ == step_commands(
                        playback.pinned.steps,
                        playback.next_index,
                        count,
                    )
                    &&& final(self)@ == (MacrosState {
                        slot: Some(
                            SlotView::Playing(
                                PlaybackView {
                                    next_index: playback.next_index + count,
                                    ..playback
                                },
                            ),
                        ),
                        ..old(self)@
                    })
                },
                _ => commands@.len() == 0 && final(self)@ == old(self)@,
            },
    {
        match self.slot.take() {
            Some(SlotState::Playing(mut playback)) => {
                let commands = playback.collect_due(position, budget);
                self.slot = Some(SlotState::Playing(playback));
                commands
            },
            slot => {
                self.slot = slot;
                Vec::new()
            },
        }
    }
}

/// Commands as a playback puts them on the stream: without a token, under the
/// playback's source and origin.
pub open spec fn replayed(
    source: IngressSource,
    origin: CommandOrigin,
    commands: Seq<RattyAiCommand>,
) -> Seq<AiCommand> {
    commands.map_values(
        |command: RattyAiCommand| AiCommand { source, ack_token: None, origin, command },
    )
}

/// What a frame does to one seat: its playback, if it has one and the frame's
/// budget is not spent, puts back what is due, and ends when it has put back
/// everything, releasing the scene lock if it holds it.
pub open spec fn drive_seat(seat: SeatView, registry: TrustedState, spent: nat) -> (
    SeatView,
    TrustedState,
    Seq<AiCommand>,
) {
    match seat.macros.slot {
        Some(SlotView::Playing(playback)) => if spent < MAX_PLAYBACK_COMMANDS_PER_FRAME {
            let count = due(
                playback.pinned.steps,
                playback.next_index,
                playback.instant,
                seat.position,
                (MAX_PLAYBACK_COMMANDS_PER_FRAME - spent) as nat,
            );
            let next_index = playback.next_index + count;
            let done = next_index >= playback.pinned.steps.len();
            (
                SeatView {
                    macros: MacrosState {
                        session: seat.macros.session,
                        slot: if done {
                            None
                        } else {
                            Some(SlotView::Playing(PlaybackView { next_index, ..playback }))
                        },
                    },
                    ..seat
                },
                TrustedState {
                    trusted: registry.trusted,
                    scene_lock: if done && playback.scene_locked {
                        None
                    } else {
                        registry.scene_lock
                    },
                },
                replayed(
                    playback.source,
                    playback.origin,
                    step_commands(playback.pinned.steps, playback.next_index, count),
                ),
            )
        } else {
            (seat, registry, Seq::empty())
        },
        _ => (seat, registry, Seq::empty()),
    }
}

/// What a frame does to all seats, in order, under one budget.
pub open spec fn driven(seats: Seq<SeatView>, registry: TrustedState) -> (
    Seq<SeatView>,
    TrustedState,
    Seq<AiCommand>,
)
    decreases seats.len(),
{
    if seats.len() == 0 {
        (Seq::empty(), registry, Seq::empty())
    } else {
        let (done, registry, out) = driven(seats.drop_last(), registry);
        let (seat, registry, more) = drive_seat(seats.last(), registry, out.len());
        (done.push(seat), registry, out + more)
    }
}

proof fn lemma_drive_seat(
    seats: Seq<SeatView>,
    at: int,
    registry: TrustedState,
    spent: nat,
)
    requires
        0 <= at < seats.len(),
        seats_wf(seats, registry.scene_lock),
        spent <= MAX_PLAYBACK_COMMANDS_PER_FRAME,
    ensures
        ({
            let (seat, after, out) = drive_seat(seats[at], registry, spent);
            &&& seats_wf(seats.update(at, seat), after.scene_lock)
            &&& spent + out.len() <= MAX_PLAYBACK_COMMANDS_PER_FRAME
            &&& after.trusted == registry.trusted
        }),
{
    let (seat, after, out) = drive_seat(seats[at], registry, spent);
    match seats[at].macros.slot {
        Some(SlotView::Playing(playback)) => {
            if spent < MAX_PLAYBACK_COMMANDS_PER_FRAME {
                lemma_due(
                    playback.pinned.steps,
                    playback.next_index,
                    playback.instant,
                    seats[at].position,
                    (MAX_PLAYBACK_COMMANDS_PER_FRAME - spent) as nat,
                );
            }
        },
        _ => {},
    }
    let next = seats.update(at, seat);
    assert forall|j: int| 0 <= j < next.len() implies (#[trigger] next[j]).macros.wf()
        && next[j].macros.locks_scene() == (after.scene_lock == Some(
        next[j].identity.terminal_id(),
    )) by {
        if j != at {
            assert(next[j] == seats[j]);
            if at < j {
                assert(seats[at].identity.terminal_id() != seats[j].identity.terminal_id());
            } else {
                assert(seats[j].identity.terminal_id() != seats[at].identity.terminal_id());
            }
        }
    }
    assert forall|a: int, b: int| 0 <= a < b < next.len() implies (
    #[trigger] next[a]).identity.terminal_id() != (#[trigger] next[b]).identity.terminal_id() by {
        assert(next[a].identity == seats[a].identity);
        assert(next[b].identity == seats[b].identity);
    }
}

proof fn lemma_driven(seats: Seq<SeatView>, registry: TrustedState, upto: int)
    requires
        seats_wf(seats, registry.scene_lock),
        0 <= upto <= seats.len(),
    ensures
        ({
            let (done, after, out) = driven(seats.take(upto), registry);
            &&& done.len() == upto
            &&& seats_wf(done + seats.skip(upto), after.scene_lock)
            &&& out.len() <= MAX_PLAYBACK_COMMANDS_PER_FRAME
            &&& after.trusted == registry.trusted
        }),
    decreases upto,
{
    if upto == 0 {
        assert(seats.take(0) =~= Seq::empty());
        assert(Seq::<SeatView>::empty() + seats.skip(0) =~= seats);
    } else {
        lemma_driven(seats, registry, upto - 1);
        let (done, after, out) = driven(seats.take(upto - 1), registry);
        assert(seats.take(upto).drop_last() =~= seats.take(upto - 1));
        let mixed = done + seats.skip(upto - 1);
        assert(mixed[upto - 1] == seats[upto - 1]);
        lemma_drive_seat(mixed, upto - 1, after, out.len());
        let (seat, last, more) = drive_seat(seats[upto - 1], after, out.len());
        assert(mixed.update(upto - 1, seat) =~= done.push(seat) + seats.skip(upto));
    }
}

/// A frame puts back at most the shared budget of commands, keeps every
/// terminal's macros in order, and keeps the scene lock consistent.
pub proof fn law_playback_respects_the_budget(seats: Seq<SeatView>, registry: TrustedState)
    requires
        seats_wf(seats, registry.scene_lock),
    ensures
        ({
            let (after, left, out) = driven(seats, registry);
            &&& out.len() <= MAX_PLAYBACK_COMMANDS_PER_FRAME
            &&& seats_wf(after, left.scene_lock)
        }),
{
    lemma_driven(seats, registry, seats.len() as int);
    assert(seats.take(seats.len() as int) =~= seats);
    let (after, left, out) = driven(seats, registry);
    assert(after + seats.skip(seats.len() as int) =~= after);
}

fn drive_one(seat: &mut MacroSeat, registry: &mut MacroRegistry, spent: usize) -> (out: Vec<
    AiCommand,
>)
    requires
        old(seat).macros.wf(),
        old(seat)@.macros.locks_scene() == (old(registry)@.scene_lock == Some(
            old(seat)@.identity.terminal_id(),
        )),
        spent <= MAX_PLAYBACK_COMMANDS_PER_FRAME,
    ensures
        (final(seat)@, final(registry)@, out@) == drive_seat(
            old(seat)@,
            old(registry)@,
            spent as nat,
        ),
{
    let mut out: Vec<AiCommand> = Vec::new();
    if spent >= MAX_PLAYBACK_COMMANDS_PER_FRAME {
        return out;
    }
    match seat.macros.slot.take() {
        Some(SlotState::Playing(playback)) => {
            let mut playback = playback;
            let commands = playback.collect_due(
                seat.position,
                MAX_PLAYBACK_COMMANDS_PER_FRAME - spent,
            );
            let source: IngressSource = playback.source;
            let origin: CommandOrigin = playback.origin;
            let mut i: usize = 0;
            while i < commands.len()
                invariant
                    i <= commands@.len(),
                    out@ == replayed(source, origin, commands@.take(i as int)),
                decreases commands.len() - i,
            {
                proof {
                    let next = commands@.take(i + 1);
                    assert(next.drop_last() =~= commands@.take(i as int));
                }
                out.push(
                    AiCommand { source, ack_token: None, origin, command: commands[i].clone() },
                );
                assert(out@ =~= replayed(source, origin, commands@.take(i + 1)));
                i += 1;
            }
            assert(commands@.take(i as int) =~= commands@);
            if playback.finished() {
                if playback.scene_locked {
                    registry.release_scene_lock(seat.identity.id());
                }
            } else {
                seat.macros.slot = Some(SlotState::Playing(playback));
            }
        },
        other => {
            seat.macros.slot = other;
        },
    }
    out
}

/// Puts the due commands of every playback back on the stream, under one
/// per-frame budget. A playback that has put back its last step is cleared and
/// its scene lock released.
pub fn drive_macro_playback(seats: &mut Vec<MacroSeat>, registry: &mut MacroRegistry) -> (out: Vec<
    AiCommand,
>)
    requires
        seats_wf(seat_views(old(seats)@), old(registry)@.scene_lock),
    ensures
        seats_wf(seat_views(final(seats)@), final(registry)@.scene_lock),
        (seat_views(final(seats)@), final(registry)@, out@) == driven(
            seat_views(old(seats)@),
            old(registry)@,
        ),
{
    let ghost start = seat_views(seats@);
    let ghost lock = registry@;
    let count: usize = seats.len();
    let mut out: Vec<AiCommand> = Vec::new();
    let mut i: usize = 0;
    proof {
        assert(start.take(0) =~= Seq::empty());
        assert(Seq::<SeatView>::empty() + start.skip(0) =~= start);
    }
    while i < count
        invariant
            i <= count,
            count == start.len(),
            seats@.len() == count,
            seats_wf(start, lock.scene_lock),
            ({
                let (done, after, sent) = driven(start.take(i as int), lock);
                &&& seat_views(seats@) == done + start.skip(i as int)
                &&& done.len() == i
                &&& registry@ == after
                &&& out@ == sent
            }),
        decreases count - i,
    {
        let ghost before = driven(start.take(i as int), lock);
        proof {
            lemma_driven(start, lock, i as int);
            lemma_driven(start, lock, i + 1);
            assert(start.take(i + 1).drop_last() =~= start.take(i as int));
            assert(start.take(i + 1).last() == start[i as int]);
            assert((before.0 + start.skip(i as int))[i as int] == start[i as int]);
            assert(seat_views(seats@)[i as int] == seats@[i as int]@);
        }
        let ghost rows = seats@;
        let mut seat = seats.remove(i);
        let mut more = drive_one(&mut seat, registry, out.len());
        out.append(&mut more);
        seats.insert(i, seat);
        proof {
            let mixed = before.0 + start.skip(i as int);
            let next = before.0.push(seat@) + start.skip(i + 1);
            assert(seat_views(rows) == mixed);
            assert(seats@ =~= rows.update(i as int, seat));
            assert forall|j: int| 0 <= j < count implies seat_views(seats@)[j] == next[j] by {
                if j != i {
                    assert(seat_views(seats@)[j] == seat_views(rows)[j]);
                    assert(mixed[j] == next[j]);
                }
            }
            assert(seat_views(seats@) =~= next);
        }
        i += 1;
    }
    proof {
        lemma_driven(start, lock, count as int);
        assert(start.take(count as int) =~= start);
        let (done, after, sent) = driven(start, lock);
        assert(done + start.skip(count as int) =~= done);
    }
    out
}

/// One row of the macro listing.
#[derive(Debug)]
pub struct MacroRow {
    /// The name.
    pub name: String,
    /// The registry.
    pub scope: MacroScope,
    /// Artifact format version.
    pub v: u32,
    /// How many commands it holds.
    pub commands: usize,
    /// Whether it needs the scene lock.
    pub privileged: bool,
    /// Whether a rule may play it.
    pub rule_safe: bool,
    /// Content id.
    pub hash: String,
}

/// A row's contents.
pub struct RowView {
    /// The name.
    pub name: Seq<char>,
    /// The registry.
    pub scope: MacroScope,
    /// Artifact format version.
    pub v: u32,
    /// How many commands it holds.
    pub commands: nat,
    /// Whether it needs the scene lock.
    pub privileged: bool,
    /// Whether a rule may play it.
    pub rule_safe: bool,
    /// Content id.
    pub hash: Seq<char>,
}

impl View for MacroRow {
    type V = RowView;

    open spec fn view(&self) -> RowView {
        RowView {
            name: self.name@,
            scope: self.scope,
            v: self.v,
            commands: self.commands as nat,
            privileged: self.privileged,
            rule_safe: self.rule_safe,
            hash: self.hash@,
        }
    }
}

/// The row that shows an entry of a registry.
pub open spec fn row_of(entry: (Seq<char>, MacroView), scope: MacroScope) -> RowView {
    RowView {
        name: entry.0,
        scope,
        v: entry.1.v,
        commands: entry.1.steps.len(),
        privileged: entry.1.privileged,
        rule_safe: entry.1.rule_safe,
        hash: entry.1.hash,
    }
}

/// The rows of a registry.
pub open spec fn rows_of(entries: Seq<(Seq<char>, MacroView)>, scope: MacroScope) -> Seq<RowView> {
    entries.map_values(|entry: (Seq<char>, MacroView)| row_of(entry, scope))
}

/// Whether the names ascend.
pub open spec fn ascending(rows: Seq<RowView>) -> bool {
    forall|i: int, j: int|
        0 <= i < j < rows.len() ==> text_before(
            (#[trigger] rows[i]).name,
            (#[trigger] rows[j]).name,
        )
}

/// The contents of rows.
pub open spec fn row_views(rows: Seq<MacroRow>) -> Seq<RowView> {
    rows.map_values(|row: MacroRow| row@)
}

/// Whether no row has a name.
pub open spec fn lacks(rows: Seq<RowView>, name: Seq<char>) -> bool {
    forall|i: int| 0 <= i < rows.len() ==> (#[trigger] rows[i]).name != name
}

fn place_row(rows: &mut Vec<MacroRow>, row: MacroRow)
    requires
        ascending(row_views(old(rows)@)),
        lacks(row_views(old(rows)@), row.name@),
    ensures
        ascending(row_views(final(rows)@)),
        row_views(final(rows)@).to_multiset() == row_views(old(rows)@).to_multiset().insert(row@),
        final(rows)@.len() == old(rows)@.len() + 1,
        forall|name: Seq<char>|
            lacks(row_views(old(rows)@), name) && row.name@ != name ==> #[trigger] lacks(
                row_views(final(rows)@),
                name,
            ),
{
    let ghost before = row_views(rows@);
    let mut at: usize = 0;
    while at < rows.len() && is_before(&rows[at].name, &row.name)
        invariant
            at <= rows@.len(),
            before == row_views(rows@),
            forall|i: int| 0 <= i < at ==> text_before((#[trigger] before[i]).name, row.name@),
        decreases rows.len() - at,
    {
        assert(before[at as int].name == rows@[at as int].name@);
        at += 1;
    }
    proof {
        assert forall|i: int| at <= i < before.len() implies text_before(
            row.name@,
            (#[trigger] before[i]).name,
        ) by {
            assert(before[at as int].name == rows@[at as int].name@);
            law_text_order_is_total(before[at as int].name, row.name@);
            if i > at {
                law_text_order_is_transitive(row.name@, before[at as int].name, before[i].name);
            }
        }
        let after = before.insert(at as int, row@);
        assert(after.to_multiset() =~= before.to_multiset().insert(row@)) by {
            broadcast use vstd::seq_lib::group_to_multiset_ensures;

            assert(after.remove(at as int) =~= before);
            assert(after[at as int] == row@);
            assert(after.contains(row@));
            assert(after.to_multiset().count(row@) > 0);
        }
        assert(ascending(after));
    }
    rows.insert(at, row);
    proof {
        assert(row_views(rows@) =~= before.insert(at as int, row@));
    }
}

fn listed(entries: &Named<Macro>, scope: MacroScope) -> (rows: Vec<MacroRow>)
    requires
        entries.wf(),
    ensures
        ascending(row_views(rows@)),
        row_views(rows@).to_multiset() == rows_of(entries@, scope).to_multiset(),
        rows@.len() == entries@.len(),
{
    let mut rows: Vec<MacroRow> = Vec::new();
    let mut i: usize = 0;
    proof {
        assert(entries@.take(0) =~= Seq::empty());
        assert(row_views(rows@) =~= rows_of(entries@.take(0), scope));
    }
    while i < entries.len()
        invariant
            i <= entries@.len(),
            rows@.len() == i,
            entries.wf(),
            ascending(row_views(rows@)),
            row_views(rows@).to_multiset() == rows_of(entries@.take(i as int), scope).to_multiset(),
            forall|k: int|
                i <= k < entries@.len() ==> lacks(row_views(rows@), (#[trigger] entries@[k]).0),
        decreases entries@.len() - i,
    {
        let entry = entries.entry(i);
        let row = MacroRow {
            name: entry.0.clone(),
            scope,
            v: entry.1.version(),
            commands: entry.1.step_count(),
            privileged: entry.1.is_privileged(),
            rule_safe: entry.1.is_rule_safe(),
            hash: entry.1.hash().to_owned(),
        };
        proof {
            let next = rows_of(entries@.take(i + 1), scope);
            assert(next =~= rows_of(entries@.take(i as int), scope).push(row@));
            broadcast use vstd::seq_lib::group_to_multiset_ensures;

        }
        place_row(&mut rows, row);
        i += 1;
    }
    assert(entries@.take(i as int) =~= entries@);
    rows
}

/// The caller's session macros, then the trusted macros, each part in the
/// order of the names.
pub fn macros_state_items(seat: &TerminalMacros, registry: &MacroRegistry) -> (rows: Vec<MacroRow>)
    requires
        seat.wf(),
        registry.wf(),
    ensures
        ({
            let all = row_views(rows@);
            let split = seat@.session.len() as int;
            &&& all.len() == split + registry@.trusted.len()
            &&& ascending(all.take(split))
            &&& all.take(split).to_multiset() == rows_of(
                seat@.session,
                MacroScope::Session,
            ).to_multiset()
            &&& ascending(all.skip(split))
            &&& all.skip(split).to_multiset() == rows_of(
                registry@.trusted,
                MacroScope::Trusted,
            ).to_multiset()
        }),
{
    let mut rows = listed(&seat.session, MacroScope::Session);
    let mut trusted = listed(&registry.trusted, MacroScope::Trusted);
    let ghost first = row_views(rows@);
    let ghost second = row_views(trusted@);
    rows.append(&mut trusted);
    proof {
        let all = row_views(rows@);
        assert(all =~= first + second);
        assert(all.take(first.len() as int) =~= first);
        assert(all.skip(first.len() as int) =~= second);
    }
    rows
}

/// The caller's own active slot, as a list of at most one row.
pub fn executions_state_value(seat: &TerminalMacros) -> (rows: Vec<ExecutionView>)
    ensures
        match seat@.slot {
            Some(slot) => rows@.len() == 1 && shows_slot(rows@[0], slot),
            None => rows@.len() == 0,
        },
{
    let mut rows: Vec<ExecutionView> = Vec::new();
    if let Some(row) = seat.execution_view() {
        rows.push(row);
    }
    rows
}

/// What a playback puts back over some frames, each with a position and a
/// budget, and where it then stands.
pub open spec fn collected(playback: PlaybackView, frames: Seq<(Single, nat)>) -> (
    PlaybackView,
    Seq<RattyAiCommand>,
)
    decreases frames.len(),
{
    if frames.len() == 0 {
        (playback, Seq::empty())
    } else {
        let (before, out) = collected(playback, frames.drop_last());
        let (position, budget) = frames.last();
        let count = due(
            before.pinned.steps,
            before.next_index,
            before.instant,
            position,
            budget,
        );
        (
            PlaybackView { next_index: before.next_index + count, ..before },
            out + step_commands(before.pinned.steps, before.next_index, count),
        )
    }
}

/// A playback puts back what was recorded: however the frames fall, the
/// commands of the macro in their order, each once, from the first on; and all
/// of them once a frame has reached every offset and had room for the rest.
pub proof fn law_playback_replays_the_recording(
    playback: PlaybackView,
    frames: Seq<(Single, nat)>,
)
    requires
        playback.next_index == 0,
    ensures
        ({
            let (after, out) = collected(playback, frames);
            let steps = playback.pinned.steps;
            &&& after == (PlaybackView { next_index: after.next_index, ..playback })
            &&& after.next_index <= steps.len()
            &&& out == step_commands(steps, 0, after.next_index)
            &&& frames.len() > 0 && steps.len() <= frames.last().1 && (playback.instant || forall|
                i: int,
            |
                0 <= i < steps.len() ==> !frames.last().0.below((#[trigger] steps[i]).offset))
                ==> out == step_commands(steps, 0, steps.len())
        }),
    decreases frames.len(),
{
    let steps = playback.pinned.steps;
    if frames.len() == 0 {
        assert(step_commands(steps, 0, 0) =~= Seq::<RattyAiCommand>::empty());
    } else {
        law_playback_replays_the_recording(playback, frames.drop_last());
        let (before, out) = collected(playback, frames.drop_last());
        let (position, budget) = frames.last();
        let count = due(steps, before.next_index, before.instant, position, budget);
        lemma_due(steps, before.next_index, before.instant, position, budget);
        assert(out + step_commands(steps, before.next_index, count) =~= step_commands(
            steps,
            0,
            before.next_index + count,
        ));
        if steps.len() <= budget && (playback.instant || forall|i: int|
            0 <= i < steps.len() ==> !position.below((#[trigger] steps[i]).offset)) {
            lemma_all_due(steps, before.next_index, before.instant, position, budget);
        }
    }
}

proof fn lemma_all_due(
    steps: Seq<MacroStep>,
    next: nat,
    instant: bool,
    position: Single,
    budget: nat,
)
    requires
        next <= steps.len() <= next + budget,
        instant || forall|i: int|
            0 <= i < steps.len() ==> !position.below((#[trigger] steps[i]).offset),
    ensures
        due(steps, next, instant, position, budget) == steps.len() - next,
    decreases budget,
{
    if next < steps.len() {
        lemma_all_due(steps, next + 1, instant, position, (budget - 1) as nat);
    }
}

/// What is saved is what plays: a recording that is saved resolves under its
/// name to a macro of exactly the captured steps, and a playback of it pins
/// those.
pub proof fn law_what_is_saved_is_what_plays(
    macros: MacrosState,
    registry: TrustedState,
    rec: RecordingView,
    source: IngressSource,
    origin: CommandOrigin,
    request: PlayRequest,
    execution_id: Seq<char>,
    now: u64,
)
    requires
        macros.wf(),
        macros.slot == Some(SlotView::Recording(rec)),
        rec.poisoned is None,
        request.name == rec.name,
        request.hash is None,
        request.scope is None,
    ensures
        ({
            let saved = stopped(macros).macros;
            &&& stopped(macros).refusal is None
            &&& resolved(saved.session, registry.trusted, rec.name, None) == Some(
                (rec.name, finalized(rec)),
            )
            &&& match played(saved, registry, source, origin, request, execution_id, now) {
                Ok((next, _, _)) => {
                    &&& next.slot matches Some(SlotView::Playing(playback))
                    &&& next.slot->0->Playing_0.pinned.steps == rec.steps
                    &&& next.slot->0->Playing_0.next_index == 0
                },
                Err(_) => true,
            }
        }),
{
    law_store_then_lookup(macros.session, rec.name, finalized(rec), rec.name);
    let saved = stored(macros.session, rec.name, finalized(rec));
    lemma_index_of(saved, rec.name);
}

/// What a playback puts back carries no token, and runs under the authority
/// and the origin of the playback.
pub proof fn law_replays_carry_no_token(seats: Seq<SeatView>, registry: TrustedState, at: int)
    requires
        0 <= at < driven(seats, registry).2.len(),
    ensures
        ({
            let replay = driven(seats, registry).2[at];
            &&& replay.ack_token is None
            &&& exists|i: int| #[trigger]
                is_replay_of(replay, seats, i)
        }),
    decreases seats.len(),
{
    if seats.len() > 0 {
        let (done, before, out) = driven(seats.drop_last(), registry);
        let (seat, after, more) = drive_seat(seats.last(), before, out.len());
        if at < out.len() {
            law_replays_carry_no_token(seats.drop_last(), registry, at);
            let i = choose|i: int| #[trigger] is_replay_of(out[at], seats.drop_last(), i);
            assert(is_replay_of(out[at], seats, i));
        } else {
            assert(is_replay_of(more[at - out.len()], seats, seats.len() - 1));
        }
    }
}

/// Whether a command is what a seat's playback puts back.
pub open spec fn is_replay_of(replay: AiCommand, seats: Seq<SeatView>, i: int) -> bool {
    &&& 0 <= i < seats.len()
    &&& match seats[i].macros.slot {
        Some(SlotView::Playing(playback)) => replay.source == playback.source && replay.origin
            == playback.origin,
        _ => false,
    }
}

/// Replacement is transactional: what is stored changes only when a recording
/// is saved. Starting one, capturing into it, and stopping one that exceeded a
/// limit leave every stored macro as it was.
pub proof fn law_replace_is_transactional(
    macros: MacrosState,
    source: IngressSource,
    name: Seq<char>,
    replace: bool,
    command: RattyAiCommand,
    offset: Single,
    now: u64,
)
    ensures
        macros.record(source, name, replace, now) matches Ok(next) ==> next.session
            == macros.session,
        macros.capture(command, offset).session == macros.session,
        stopped(macros).refusal is Some ==> stopped(macros).macros.session == macros.session,
{
}

/// No command on the stream changes a trusted macro.
pub proof fn law_the_wire_never_touches_trusted_macros(
    macros: MacrosState,
    elapsed: Single,
    registry: TrustedState,
    session: SessionState,
    entry: AiCommand,
    now: u64,
)
    ensures
        macro_step(macros, elapsed, registry, session, entry, now).1.trusted == registry.trusted,
{
}

/// A recording never takes a command that drives macros, a rule, a sensor,
/// presence or a live execution, a reset, or anything that a rule fired.
pub proof fn law_control_is_never_captured(
    macros: MacrosState,
    elapsed: Single,
    registry: TrustedState,
    session: SessionState,
    entry: AiCommand,
    now: u64,
    rec: RecordingView,
)
    requires
        macros.slot == Some(SlotView::Recording(rec)),
        entry.command.macro_control() || entry.command.control_plane()
            || entry.command.execution_control() || entry.command is Reset || entry.origin
            == CommandOrigin::Rule,
    ensures
        match macro_step(macros, elapsed, registry, session, entry, now).0.slot {
            Some(SlotView::Recording(after)) => after.steps == rec.steps,
            _ => true,
        },
        entry.command.control_plane() ==> macros.capture(entry.command, elapsed) == macros,
{
}

/// A macro that a rule may play is never privileged.
pub proof fn law_rule_safe_macros_are_not_privileged(macros: MacrosState, name: Seq<char>)
    requires
        macros.wf(),
    ensures
        lookup(macros.session, name) matches Some(found) ==> (found.rule_safe
            ==> !found.privileged),
{
    lemma_index_of(macros.session, name);
}

/// Equal content has one content id, whatever it is stored under.
pub proof fn law_content_addresses_content(a: RecordingView, b: RecordingView)
    requires
        a.steps == b.steps,
        a.privileged == b.privileged,
    ensures
        finalized(a).hash == finalized(b).hash,
{
}

/// A playback runs as it was asked for. Its rate is the rate that was asked
/// for, to the bit, up to a thousand, and a thousand above; the estimate is the
/// last step's offset over that same rate, or as many frames of sixty-four
/// commands as it takes. It starts now, at its first step, under the caller's
/// authority, and takes the scene lock exactly if the macro is privileged.
pub proof fn law_playback_runs_as_asked(
    macros: MacrosState,
    registry: TrustedState,
    source: IngressSource,
    origin: CommandOrigin,
    request: PlayRequest,
    execution_id: Seq<char>,
    now: u64,
)
    requires
        played(macros, registry, source, origin, request, execution_id, now) is Ok,
    ensures
        ({
            let (next, after, eta) = played(
                macros,
                registry,
                source,
                origin,
                request,
                execution_id,
                now,
            )->Ok_0;
            let playback = next.slot->0->Playing_0;
            let steps = playback.pinned.steps;
            &&& next.session == macros.session
            &&& next.slot is Some && next.slot->0 is Playing
            &&& request.rate.bits <= 0x447a_0000 ==> playback.rate == request.rate
            &&& request.rate.bits > 0x447a_0000 ==> playback.rate.bits == 0x447a_0000
            &&& playback.instant == request.instant
            &&& playback.source == source
            &&& playback.origin == CommandOrigin::Rule <==> origin == CommandOrigin::Rule
            &&& origin != CommandOrigin::Rule ==> playback.origin == CommandOrigin::Macro
            &&& playback.started == now
            &&& playback.next_index == 0
            &&& playback.execution_id == execution_id
            &&& playback.scene_locked == playback.pinned.privileged
            &&& after.trusted == registry.trusted
            &&& playback.pinned.privileged ==> registry.scene_lock is None && after.scene_lock
                == Some(source.terminal_id())
            &&& !playback.pinned.privileged ==> after.scene_lock == registry.scene_lock
            &&& !request.instant && steps.len() > 0 ==> eta == (PlaybackEta::Run {
                offset: steps[steps.len() - 1].offset,
                rate: playback.rate,
            })
            &&& !request.instant && steps.len() == 0 ==> eta == (PlaybackEta::Run {
                offset: Single { bits: 0 },
                rate: playback.rate,
            })
            &&& request.instant && steps.len() < 0x1_0000_0000 ==> {
                &&& eta is Frames
                &&& steps.len() <= 64 * eta->Frames_0
                &&& 64 * eta->Frames_0 < steps.len() + 64
            }
        }),
{
}

/// Two playbacks that are asked for at different rates, neither above a
/// thousand, run at different rates.
pub proof fn law_rates_are_told_apart(
    macros: MacrosState,
    registry: TrustedState,
    source: IngressSource,
    origin: CommandOrigin,
    request: PlayRequest,
    rate: Single,
    execution_id: Seq<char>,
    now: u64,
)
    requires
        0 < request.rate.bits < rate.bits <= 0x447a_0000,
        played(macros, registry, source, origin, request, execution_id, now) is Ok,
    ensures
        ({
            let faster = PlayRequest { rate, ..request };
            let one = played(macros, registry, source, origin, request, execution_id, now);
            let other = played(macros, registry, source, origin, faster, execution_id, now);
            &&& other is Ok
            &&& one->Ok_0.0.slot->0->Playing_0.rate.below(other->Ok_0.0.slot->0->Playing_0.rate)
            &&& one->Ok_0.0.slot->0->Playing_0.pinned == other->Ok_0.0.slot->0->Playing_0.pinned
        }),
{
}

/// Whether a list holds a macro under a name.
pub open spec fn holds(
    entries: Seq<(Seq<char>, MacroView)>,
    name: Seq<char>,
    found: MacroView,
) -> bool {
    exists|i: int| 0 <= i < entries.len() && #[trigger] entries[i] == (name, found)
}

/// Which macro is played: by a content id the one with that id, the caller's
/// own before a trusted one; by a name the one that is stored under it, in the
/// registry that was asked for, or else in the caller's own before the trusted.
pub proof fn law_the_macro_that_was_asked_for_plays(
    macros: MacrosState,
    registry: TrustedState,
    source: IngressSource,
    origin: CommandOrigin,
    request: PlayRequest,
    execution_id: Seq<char>,
    now: u64,
)
    requires
        played(macros, registry, source, origin, request, execution_id, now) is Ok,
    ensures
        ({
            let playback = played(
                macros,
                registry,
                source,
                origin,
                request,
                execution_id,
                now,
            )->Ok_0.0.slot->0->Playing_0;
            let own = holds(macros.session, playback.name, playback.pinned);
            let shared = holds(registry.trusted, playback.name, playback.pinned);
            &&& own || shared
            &&& request.hash is None ==> {
                &&& playback.name == request.name
                &&& request.scope == Some(MacroScope::Session) ==> own
                &&& request.scope == Some(MacroScope::Trusted) ==> shared
                &&& request.scope is None && !own ==> forall|i: int|
                    0 <= i < macros.session.len() ==> (#[trigger] macros.session[i]).0
                        != request.name
            }
            &&& request.hash matches Some(hash) ==> {
                &&& playback.pinned.hash == hash
                &&& !own ==> forall|i: int|
                    0 <= i < macros.session.len() ==> (#[trigger] macros.session[i]).1.hash != hash
            }
        }),
{
    lemma_index_of(macros.session, request.name);
    lemma_index_of(registry.trusted, request.name);
    if let Some(hash) = request.hash {
        lemma_hash_index(macros.session, hash);
        lemma_hash_index(registry.trusted, hash);
        match hash_index(macros.session, hash) {
            Some(i) => {
                assert(macros.session[i] == entry_hashed(macros.session, hash)->0);
            },
            None => {
                let i = hash_index(registry.trusted, hash)->0;
                assert(registry.trusted[i] == entry_hashed(registry.trusted, hash)->0);
            },
        }
    } else {
        if let Some(i) = index_of(macros.session, request.name) {
            assert(macros.session[i] == entry_named(macros.session, request.name)->0);
        }
        if let Some(i) = index_of(registry.trusted, request.name) {
            assert(registry.trusted[i] == entry_named(registry.trusted, request.name)->0);
        }
    }
}

/// When a playback starts: the slot is free, the rate is finite and positive,
/// some macro answers to what was asked, a rule asks only for what is rule-safe,
/// and a privileged macro finds the scene free. The first of these that fails
/// is the refusal.
pub proof fn law_when_a_playback_starts(
    macros: MacrosState,
    registry: TrustedState,
    source: IngressSource,
    origin: CommandOrigin,
    request: PlayRequest,
    execution_id: Seq<char>,
    now: u64,
    found: (Seq<char>, MacroView),
)
    requires
        distinct(macros.session),
        request.hash is None,
        request.scope == Some(MacroScope::Trusted) || holds(macros.session, found.0, found.1),
        request.scope == Some(MacroScope::Trusted) ==> distinct(registry.trusted) && holds(
            registry.trusted,
            found.0,
            found.1,
        ),
        found.0 == request.name,
    ensures
        ({
            let outcome = played(macros, registry, source, origin, request, execution_id, now);
            let positive = 0 < request.rate.bits < 0x7f80_0000;
            let barred = origin == CommandOrigin::Rule && !found.1.rule_safe;
            let locked = found.1.privileged && registry.scene_lock is Some;
            &&& outcome is Ok <==> macros.slot is None && positive && !barred && !locked
            &&& outcome matches Ok(started) ==> started.0.slot->0->Playing_0.pinned == found.1
            &&& outcome matches Err(refusal) ==> refusal.0 == (if macros.slot is Some {
                Code::Busy
            } else if !positive {
                Code::BadPayload
            } else if barred {
                Code::NotPermitted
            } else {
                Code::SceneLocked
            })
        }),
{
    let entries = if request.scope == Some(MacroScope::Trusted) {
        registry.trusted
    } else {
        macros.session
    };
    let i = choose|i: int| 0 <= i < entries.len() && #[trigger] entries[i] == found;
    lemma_index_of(entries, request.name);
    assert(entries[i].0 == request.name);
    let at = index_of(entries, request.name)->0;
    assert(at == i) by {
        if at != i {
            assert(entries[at].0 == entries[i].0);
        }
    }
    assert(entry_named(entries, request.name) == Some(found));
}

/// Nothing plays that nobody stored.
pub proof fn law_unknown_macros_do_not_play(
    macros: MacrosState,
    registry: TrustedState,
    source: IngressSource,
    origin: CommandOrigin,
    request: PlayRequest,
    execution_id: Seq<char>,
    now: u64,
)
    requires
        macros.slot is None,
        0 < request.rate.bits < 0x7f80_0000,
        request.hash is None ==> forall|i: int|
            0 <= i < macros.session.len() ==> (#[trigger] macros.session[i]).0 != request.name,
        request.hash is None ==> forall|i: int|
            0 <= i < registry.trusted.len() ==> (#[trigger] registry.trusted[i]).0 != request.name,
        request.hash matches Some(hash) ==> forall|i: int|
            0 <= i < macros.session.len() ==> (#[trigger] macros.session[i]).1.hash != hash,
        request.hash matches Some(hash) ==> forall|i: int|
            0 <= i < registry.trusted.len() ==> (#[trigger] registry.trusted[i]).1.hash != hash,
    ensures
        played(macros, registry, source, origin, request, execution_id, now) matches Err(refusal)
            && refusal.0 == Code::UnknownId,
{
    lemma_index_of(macros.session, request.name);
    lemma_index_of(registry.trusted, request.name);
    if let Some(hash) = request.hash {
        lemma_hash_index(macros.session, hash);
        lemma_hash_index(registry.trusted, hash);
    }
}

/// When a recording starts: under a name of one to sixty-four bytes, into a
/// free slot, over another macro only where that was asked for, and beside at
/// most thirty-one. It starts now, and empty.
pub proof fn law_when_a_recording_starts(
    macros: MacrosState,
    source: IngressSource,
    name: Seq<char>,
    replace: bool,
    now: u64,
    taken: bool,
)
    requires
        taken <==> exists|i: int| 0 <= i < macros.session.len() && (#[trigger] macros.session[i]).0
            == name,
    ensures
        ({
            let outcome = macros.record(source, name, replace, now);
            let bytes = vstd::utf8::encode_utf8(name).len();
            &&& outcome is Ok <==> name.len() > 0 && bytes <= 64 && macros.slot is None && (taken
                ==> replace) && (taken || macros.session.len() < 32)
            &&& outcome matches Ok(next) ==> {
                &&& next.session == macros.session
                &&& next.slot matches Some(SlotView::Recording(rec)) && rec.name == name
                    && rec.started == now && rec.steps.len() == 0 && !rec.privileged && rec.rule_safe
                    && rec.poisoned is None
            }
            &&& outcome matches Err(refusal) ==> refusal.0 == (if name.len() == 0 {
                Code::BadPayload
            } else if bytes > 64 {
                Code::TooLarge
            } else if macros.slot is Some {
                Code::Busy
            } else if taken {
                Code::AlreadyExists
            } else {
                Code::NamespaceCap
            })
        }),
{
    lemma_index_of(macros.session, name);
    if let Some(i) = index_of(macros.session, name) {
        assert(macros.session[i].0 == name);
    }
}

/// What a recording takes: a command that is not of the control plane goes
/// behind the others with its own offset, up to 256 of them and up to 300
/// seconds; the one that exceeds a limit spoils the recording and is not taken.
pub proof fn law_what_a_recording_takes(
    macros: MacrosState,
    rec: RecordingView,
    command: RattyAiCommand,
    offset: Single,
)
    requires
        macros.slot == Some(SlotView::Recording(rec)),
        !command.control_plane(),
        rec.poisoned is None,
        offset.bits <= 0x7f80_0000,
    ensures
        ({
            let next = macros.capture(command, offset);
            let after = next.slot->0->Recording_0;
            let fits = rec.steps.len() < 256 && offset.bits <= 0x4396_0000;
            &&& next.session == macros.session
            &&& next.slot is Some && next.slot->0 is Recording
            &&& after.name == rec.name && after.started == rec.started
            &&& fits ==> {
                &&& after.steps.len() == rec.steps.len() + 1
                &&& after.steps.drop_last() == rec.steps
                &&& after.steps.last().command == command
                &&& after.steps.last().offset == offset
                &&& after.poisoned is None
                &&& after.privileged <==> rec.privileged || command.scene_global()
                &&& after.rule_safe <==> rec.rule_safe && command.rule_safe_action()
            }
            &&& !fits ==> after.steps == rec.steps && after.poisoned is Some
        }),
{
    if rec.steps.len() < 256 && offset.bits <= 0x4396_0000 {
        let after = macros.capture(command, offset).slot->0->Recording_0;
        assert(after.steps.drop_last() =~= rec.steps);
    }
}

/// A spoiled recording takes nothing more and is not saved; stopping it gives
/// the slot back, refused as too large.
pub proof fn law_spoiled_recordings_are_discarded(
    macros: MacrosState,
    rec: RecordingView,
    command: RattyAiCommand,
    offset: Single,
)
    requires
        macros.wf(),
        macros.slot == Some(SlotView::Recording(rec)),
        rec.poisoned is Some,
    ensures
        macros.capture(command, offset) == macros,
        stopped(macros).macros.session == macros.session,
        stopped(macros).macros.slot is None,
        !stopped(macros).unlocks,
        stopped(macros).refusal matches Some(refusal) && refusal.0 == Code::TooLarge,
{
}

/// A recording that is stopped is stored under its name, step for step, in the
/// first format, and no other macro changes.
pub proof fn law_stopping_saves_the_recording(
    macros: MacrosState,
    rec: RecordingView,
    other: Seq<char>,
)
    requires
        macros.wf(),
        macros.slot == Some(SlotView::Recording(rec)),
        rec.poisoned is None,
    ensures
        ({
            let stop = stopped(macros);
            let saved = lookup(stop.macros.session, rec.name);
            &&& stop.refusal is None
            &&& !stop.unlocks
            &&& stop.macros.slot is None
            &&& saved is Some
            &&& saved->0.steps == rec.steps
            &&& saved->0.privileged == rec.privileged
            &&& saved->0.rule_safe == rec.rule_safe
            &&& saved->0.v == 1
            &&& other != rec.name ==> lookup(stop.macros.session, other) == lookup(
                macros.session,
                other,
            )
        }),
{
    law_store_then_lookup(macros.session, rec.name, finalized(rec), rec.name);
    law_store_then_lookup(macros.session, rec.name, finalized(rec), other);
}

/// A playback that is stopped ends and gives the scene back if it held it; with
/// nothing active there is nothing to stop.
pub proof fn law_stopping_ends_the_playback(macros: MacrosState)
    ensures
        macros.slot matches Some(SlotView::Playing(playback)) ==> {
            &&& stopped(macros).refusal is None
            &&& stopped(macros).macros.slot is None
            &&& stopped(macros).macros.session == macros.session
            &&& stopped(macros).unlocks == playback.scene_locked
        },
        macros.slot is None ==> {
            &&& stopped(macros).macros == macros
            &&& !stopped(macros).unlocks
            &&& stopped(macros).refusal matches Some(refusal) && refusal.0 == Code::NothingActive
        },
{
}

/// How many steps are due: each of them has its time, the next one has not, and
/// never more than the budget. An instant playback waits for no time.
pub proof fn law_steps_are_due_at_their_time(
    steps: Seq<MacroStep>,
    next: nat,
    instant: bool,
    position: Single,
    budget: nat,
    at: int,
)
    requires
        next <= steps.len(),
    ensures
        ({
            let count = due(steps, next, instant, position, budget);
            &&& count <= budget
            &&& next + count <= steps.len()
            &&& next <= at < next + count ==> instant || !position.below(steps[at].offset)
            &&& count < budget && next + count < steps.len() ==> !instant && position.below(
                steps[(next + count) as int].offset,
            )
        }),
    decreases budget,
{
    lemma_due(steps, next, instant, position, budget);
    if budget > 0 && next < steps.len() {
        law_steps_are_due_at_their_time(
            steps,
            next + 1,
            instant,
            position,
            (budget - 1) as nat,
            at,
        );
    }
}

/// What a frame does to a playback within its budget of sixty-four: it puts
/// back the commands of the steps that are due, in order, and goes on behind
/// them; with the last it ends, and gives the scene back if it held it.
pub proof fn law_a_frame_puts_back_what_is_due(
    seat: SeatView,
    playback: PlaybackView,
    registry: TrustedState,
    spent: nat,
    at: int,
)
    requires
        seat.macros.slot == Some(SlotView::Playing(playback)),
        playback.next_index <= playback.pinned.steps.len(),
        spent <= 64,
    ensures
        ({
            let (after, left, out) = drive_seat(seat, registry, spent);
            let steps = playback.pinned.steps;
            let next = playback.next_index + out.len();
            &&& out.len() <= 64 - spent
            &&& next <= steps.len()
            &&& 0 <= at < out.len() ==> {
                &&& out[at].command == steps[playback.next_index + at].command
                &&& out[at].source == playback.source
                &&& out[at].origin == playback.origin
                &&& out[at].ack_token is None
                &&& playback.instant || !seat.position.below(
                    steps[playback.next_index + at].offset,
                )
            }
            &&& spent + out.len() < 64 && next < steps.len() ==> !playback.instant
                && seat.position.below(steps[next as int].offset)
            &&& after.macros.session == seat.macros.session
            &&& after.identity == seat.identity
            &&& left.trusted == registry.trusted
            &&& spent < 64 && next == steps.len() ==> {
                &&& after.macros.slot is None
                &&& playback.scene_locked ==> left.scene_lock is None
                &&& !playback.scene_locked ==> left.scene_lock == registry.scene_lock
            }
            &&& spent == 64 || next < steps.len() ==> {
                &&& left == registry
                &&& after.macros.slot matches Some(SlotView::Playing(going)) && going
                    == (PlaybackView { next_index: next, ..playback })
            }
        }),
{
    if spent < 64 {
        law_steps_are_due_at_their_time(
            playback.pinned.steps,
            playback.next_index,
            playback.instant,
            seat.position,
            (64 - spent) as nat,
            playback.next_index + at,
        );
    }
}

/// Seats without a playback are left alone by a frame.
pub proof fn law_a_frame_leaves_other_seats_alone(
    seat: SeatView,
    registry: TrustedState,
    spent: nat,
)
    requires
        !(seat.macros.slot is Some && seat.macros.slot->0 is Playing),
    ensures
        drive_seat(seat, registry, spent).0 == seat,
        drive_seat(seat, registry, spent).1 == registry,
        drive_seat(seat, registry, spent).2.len() == 0,
{
}

/// What the macro commands are answered. The wire neither writes nor reads a
/// file; a reset forgets the caller's macros and gives its hold on the scene
/// back, and nobody else's; a playback is minted a handle of its own.
pub proof fn law_macro_commands_are_answered(
    macros: MacrosState,
    elapsed: Single,
    registry: TrustedState,
    session: SessionState,
    entry: AiCommand,
    now: u64,
)
    ensures
        ({
            let (next, after, minted, reply) = macro_step(
                macros,
                elapsed,
                registry,
                session,
                entry,
                now,
            );
            let own = entry.source.terminal_id();
            &&& entry.command is MacroExport ==> next == macros && after == registry && (
            reply matches Some(ReplyView::Refused(action, code, _)) && action == "macro.export"@
                && code == Code::WireFilesystem)
            &&& entry.command is MacroRun ==> next == macros && after == registry && (
            reply matches Some(ReplyView::Refused(action, code, _)) && action == "macro.run"@
                && code == Code::WireFilesystem)
            &&& entry.command is Reset ==> {
                &&& next.session.len() == 0 && next.slot is None
                &&& registry.scene_lock == Some(own) ==> after.scene_lock is None
                &&& registry.scene_lock != Some(own) ==> after.scene_lock == registry.scene_lock
                &&& reply is None
            }
            &&& entry.command matches RattyAiCommand::MacroRecord { name, replace } ==> match (
                macros.record(entry.source, name@, replace, now),
                reply,
            ) {
                (Ok(started), Some(ReplyView::Commit)) => next == started && after == registry,
                (Err(refusal), Some(ReplyView::Refused(action, code, message))) => next == macros
                    && after == registry && action == "macro.record"@ && code == refusal.0 && message
                    == refusal.1,
                _ => false,
            }
            &&& entry.command is MacroStop ==> {
                &&& next == stopped(macros).macros
                &&& stopped(macros).unlocks ==> after.scene_lock is None
                &&& !stopped(macros).unlocks ==> after == registry
                &&& stopped(macros).refusal is None ==> reply == Some(ReplyView::Commit)
                &&& stopped(macros).refusal is Some ==> (
                reply matches Some(ReplyView::Refused(action, code, message)) && action == "macro.stop"@
                    && stopped(macros).refusal == Some((code, message)))
            }
            &&& entry.command is MacroPlay ==> match reply {
                Some(ReplyView::LongRunning(code, handle)) => {
                    &&& code == Code::Started
                    &&& handle.position == 0
                    &&& next.slot matches Some(SlotView::Playing(playback))
                        && playback.execution_id == handle.id && playback.source == entry.source
                    &&& handle.eta matches Eta::Run { rate, .. } ==> rate
                        == next.slot->0->Playing_0.rate
                    &&& handle.eta is Frames <==> next.slot->0->Playing_0.instant
                },
                Some(ReplyView::Refused(action, _, _)) => action == "macro.play"@ && next == macros
                    && after == registry,
                _ => false,
            }
            &&& !(entry.command is MacroPlay) ==> minted == session
        }),
{
}

/// A play command reaches the playback unchanged: the rate, up to a thousand,
/// whether it is instant, and the name or the content id.
pub proof fn law_play_commands_play_what_they_say(
    macros: MacrosState,
    elapsed: Single,
    registry: TrustedState,
    session: SessionState,
    entry: AiCommand,
    now: u64,
    playback: PlaybackView,
)
    requires
        entry.command is MacroPlay,
        macros.slot is None,
        macro_step(macros, elapsed, registry, session, entry, now).0.slot == Some(
            SlotView::Playing(playback),
        ),
    ensures
        entry.command matches RattyAiCommand::MacroPlay { name, hash, rate, instant, scope } && (
        rate.bits <= 0x447a_0000 ==> playback.rate == rate) && playback.instant == instant && (
        hash is None ==> playback.name == name@) && (hash matches Some(hash)
            ==> playback.pinned.hash == hash@) && (hash is None && scope == Some(
            MacroScope::Trusted,
        ) ==> holds(registry.trusted, playback.name, playback.pinned)) && (hash is None && scope
            == Some(MacroScope::Session) ==> holds(
            macros.session,
            playback.name,
            playback.pinned,
        )),
{
    if let RattyAiCommand::MacroPlay { name, hash, rate, instant, scope } = entry.command {
        let request = PlayRequest { name: name@, hash: token_view(hash), rate, instant, scope };
        law_the_macro_that_was_asked_for_plays(
            macros,
            registry,
            entry.source,
            entry.origin,
            request,
            session.next_handle(),
            now,
        );
    }
}

/// A trusted macro holds no command that drives macros or executions. It keeps
/// its steps, and a rule may play it exactly if every step is one that a rule
/// may make.
pub proof fn law_what_may_be_trusted(
    registry: TrustedState,
    name: Seq<char>,
    source: MacroView,
    other: Seq<char>,
)
    requires
        distinct(registry.trusted),
    ensures
        ({
            let outcome = promoted(registry, name, source);
            &&& outcome is Err <==> exists|i: int|
                0 <= i < source.steps.len() && ((#[trigger] source.steps[i]).command.macro_control()
                    || source.steps[i].command.execution_control())
            &&& outcome matches Ok(after) ==> {
                let stored = lookup(after.trusted, name);
                &&& after.scene_lock == registry.scene_lock
                &&& stored is Some
                &&& stored->0.steps == source.steps
                &&& stored->0.hash == source.hash
                &&& stored->0.v == source.v
                &&& stored->0.privileged == source.privileged
                &&& stored->0.rule_safe <==> forall|i: int|
                    0 <= i < source.steps.len() ==> (
                    #[trigger] source.steps[i]).command.rule_safe_action()
                &&& other != name ==> lookup(after.trusted, other) == lookup(
                    registry.trusted,
                    other,
                )
            }
        }),
{
    let value = MacroView {
        rule_safe: !any_step(source.steps, |command: RattyAiCommand| !command.rule_safe_action()),
        ..source
    };
    law_store_then_lookup(registry.trusted, name, value, name);
    law_store_then_lookup(registry.trusted, name, value, other);
    let moves = |command: RattyAiCommand| command.macro_control();
    let runs = |command: RattyAiCommand| command.execution_control();
    let bars = |command: RattyAiCommand| !command.rule_safe_action();
    assert forall|i: int| 0 <= i < source.steps.len() implies (moves(source.steps[i].command) ==
        #[trigger] source.steps[i].command.macro_control()) by {}
    if exists|i: int|
        0 <= i < source.steps.len() && ((#[trigger] source.steps[i]).command.macro_control()
            || source.steps[i].command.execution_control()) {
        let i = choose|i: int|
            0 <= i < source.steps.len() && ((#[trigger] source.steps[i]).command.macro_control()
                || source.steps[i].command.execution_control());
        if source.steps[i].command.macro_control() {
            assert(moves(source.steps[i].command));
            assert(any_step(source.steps, moves));
        } else {
            assert(runs(source.steps[i].command));
            assert(any_step(source.steps, runs));
        }
    }
    if any_step(source.steps, moves) {
        let i = choose|i: int| 0 <= i < source.steps.len() && moves(#[trigger] source.steps[i].command);
        assert(source.steps[i].command.macro_control());
    }
    if any_step(source.steps, runs) {
        let i = choose|i: int| 0 <= i < source.steps.len() && runs(#[trigger] source.steps[i].command);
        assert(source.steps[i].command.execution_control());
    }
    if any_step(source.steps, bars) {
        let i = choose|i: int| 0 <= i < source.steps.len() && bars(#[trigger] source.steps[i].command);
        assert(!source.steps[i].command.rule_safe_action());
    } else {
        assert forall|i: int| 0 <= i < source.steps.len() implies (
        #[trigger] source.steps[i]).command.rule_safe_action() by {
            assert(!bars(source.steps[i].command));
        }
    }
}

/// A terminal that died gives its own hold on the scene back and nobody else's.
pub proof fn law_the_dead_hold_nothing(registry: TrustedState, terminal: TerminalId)
    ensures
        swept(registry, terminal).trusted == registry.trusted,
        swept(registry, terminal).scene_lock != Some(terminal),
        registry.scene_lock != Some(terminal) ==> swept(registry, terminal) == registry,
{
}

/// What a row of the listing of executions shows.
pub proof fn law_rows_show_what_runs(row: ExecutionView, slot: SlotView)
    requires
        shows_slot(row, slot),
    ensures
        slot matches SlotView::Recording(rec) ==> row.kind@ == "recording"@ && row.id is None
            && row.name@ == rec.name && row.commands == rec.steps.len() && row.privileged
            == rec.privileged && row.played is None && row.rate is None && row.instant is None
            && !row.scene_locked,
        slot matches SlotView::Playing(playback) ==> row.kind@ == "playback"@ && token_view(row.id)
            == Some(playback.execution_id) && row.name@ == playback.name && row.commands
            == playback.pinned.steps.len() && row.privileged == playback.pinned.privileged
            && row.played is Some && row.played->0 == playback.next_index && row.rate == Some(
            playback.rate,
        ) && row.instant == Some(playback.instant) && row.scene_locked == playback.scene_locked,
{
}

/// What a row of the listing of macros shows.
pub proof fn law_rows_show_what_is_stored(
    entries: Seq<(Seq<char>, MacroView)>,
    scope: MacroScope,
    at: int,
)
    requires
        0 <= at < entries.len(),
    ensures
        rows_of(entries, scope).len() == entries.len(),
        rows_of(entries, scope)[at].name == entries[at].0,
        rows_of(entries, scope)[at].scope == scope,
        rows_of(entries, scope)[at].v == entries[at].1.v,
        rows_of(entries, scope)[at].commands == entries[at].1.steps.len(),
        rows_of(entries, scope)[at].privileged == entries[at].1.privileged,
        rows_of(entries, scope)[at].rule_safe == entries[at].1.rule_safe,
        rows_of(entries, scope)[at].hash == entries[at].1.hash,
{
}

/// Commands go by the macros of the terminal that they came through, one by one
/// and in their order; the macros of no other terminal change.
pub proof fn law_macro_commands_run_in_order(
    world: MacroWorld,
    commands: Seq<AiCommand>,
    last: AiCommand,
    now: u64,
    at: int,
    other: int,
)
    requires
        0 <= at < world.seats.len(),
        world.seats[at].identity.terminal_id() == last.source.terminal_id(),
        forall|j: int|
            0 <= j < at ==> (#[trigger] world.seats[j]).identity.terminal_id()
                != last.source.terminal_id(),
        0 <= other < world.seats.len(),
        other != at,
    ensures
        world.run(Seq::empty(), now) == world,
        world.run(commands.push(last), now) == world.run(commands, now).after(last, now),
        ({
            let after = world.after(last, now);
            let (macros, registry, session, reply) = macro_step(
                world.seats[at].macros,
                world.seats[at].elapsed,
                world.registry,
                world.session,
                last,
                now,
            );
            &&& after.seats.len() == world.seats.len()
            &&& after.seats[at].macros == macros
            &&& after.seats[at].identity == world.seats[at].identity
            &&& after.seats[other] == world.seats[other]
            &&& after.registry == registry
            &&& after.session == session
            &&& after.log == world.log.answered(last.source, token_view(last.ack_token), reply)
        }),
{
    assert(commands.push(last).drop_last() =~= commands);
    lemma_seat_index(world.seats, last.source.terminal_id());
}

/// A recording takes a command at the time that has elapsed since it began, and
/// at none where it began just now.
pub proof fn law_commands_are_taken_at_their_time(
    macros: MacrosState,
    rec: RecordingView,
    elapsed: Single,
    registry: TrustedState,
    session: SessionState,
    entry: AiCommand,
    now: u64,
)
    requires
        macros.slot == Some(SlotView::Recording(rec)),
        rec.poisoned is None,
        rec.steps.len() < 256,
        elapsed.bits <= 0x4396_0000,
        !entry.command.macro_control() && !entry.command.control_plane()
            && !entry.command.execution_control() && !(entry.command is Reset),
        entry.origin != CommandOrigin::Rule,
    ensures
        ({
            let after = macro_step(macros, elapsed, registry, session, entry, now).0;
            &&& after.slot matches Some(SlotView::Recording(longer)) && longer.steps.len()
                == rec.steps.len() + 1 && longer.steps.last().command == entry.command && (
            rec.started < now ==> longer.steps.last().offset == elapsed) && (rec.started >= now
                ==> longer.steps.last().offset.bits == 0)
        }),
{
}

/// Seats are driven in their order, under one budget.
pub proof fn law_seats_are_driven_in_order(
    seats: Seq<SeatView>,
    seat: SeatView,
    registry: TrustedState,
)
    ensures
        driven(Seq::empty(), registry) == (
            Seq::<SeatView>::empty(),
            registry,
            Seq::<AiCommand>::empty(),
        ),
        ({
            let (done, between, out) = driven(seats, registry);
            let (last, left, more) = drive_seat(seat, between, out.len());
            driven(seats.push(seat), registry) == (done.push(last), left, out + more)
        }),
{
    assert(seats.push(seat).drop_last() =~= seats);
}

spec fn steps_bytes(steps: Seq<MacroStep>) -> Seq<u8>
    decreases steps.len(),
{
    if steps.len() == 0 {
        Seq::empty()
    } else {
        with_command(u32_bytes(steps[0].offset.bits), steps[0].command) + steps_bytes(
            steps.drop_first(),
        )
    }
}

proof fn lemma_steps_push(steps: Seq<MacroStep>, step: MacroStep)
    ensures
        steps_bytes(steps.push(step)) == steps_bytes(steps) + with_command(
            u32_bytes(step.offset.bits),
            step.command,
        ),
    decreases steps.len(),
{
    let longer = steps.push(step);
    let own = with_command(u32_bytes(step.offset.bits), step.command);
    if steps.len() == 0 {
        assert(longer.drop_first() =~= Seq::empty());
        assert(steps_bytes(longer.drop_first()) =~= Seq::empty());
        assert(steps_bytes(longer) =~= own);
        assert(steps_bytes(steps) + own =~= own);
    } else {
        assert(longer.drop_first() =~= steps.drop_first().push(step));
        lemma_steps_push(steps.drop_first(), step);
        assert(steps_bytes(longer) =~= steps_bytes(steps) + own);
    }
}

proof fn lemma_content(steps: Seq<MacroStep>, privileged: bool)
    ensures
        content_bytes(steps, privileged) == u32_bytes(1) + (flag_bytes(privileged) + steps_bytes(
            steps,
        )),
    decreases steps.len(),
{
    if steps.len() == 0 {
        assert(content_bytes(steps, privileged) =~= u32_bytes(1) + (flag_bytes(privileged)
            + steps_bytes(steps)));
    } else {
        let rest = steps.drop_last();
        let last = steps.last();
        lemma_content(rest, privileged);
        lemma_steps_push(rest, last);
        assert(rest.push(last) =~= steps);
        let out = content_bytes(rest, privileged);
        let mark = u32_bytes(last.offset.bits);
        crate::osc::law_commands_extend_what_is_there(out + mark, last.command);
        crate::osc::law_commands_extend_what_is_there(mark, last.command);
        let own = with_command(Seq::empty(), last.command);
        assert(content_bytes(steps, privileged) =~= u32_bytes(1) + (flag_bytes(privileged)
            + steps_bytes(steps)));
    }
}

proof fn lemma_steps_told_apart(a: Seq<MacroStep>, b: Seq<MacroStep>)
    requires
        steps_bytes(a) == steps_bytes(b),
    ensures
        a.len() == b.len(),
        forall|i: int|
            0 <= i < a.len() ==> (#[trigger] a[i]).offset == b[i].offset && alike(
                a[i].command,
                b[i].command,
            ),
    decreases a.len(),
{
    if a.len() > 0 {
        crate::osc::law_commands_extend_what_is_there(
            u32_bytes(a[0].offset.bits),
            a[0].command,
        );
    }
    if b.len() > 0 {
        crate::osc::law_commands_extend_what_is_there(
            u32_bytes(b[0].offset.bits),
            b[0].command,
        );
    }
    if a.len() > 0 && b.len() > 0 {
        let (x, y) = (steps_bytes(a.drop_first()), steps_bytes(b.drop_first()));
        let (p, q) = (
            with_command(Seq::empty(), a[0].command) + x,
            with_command(Seq::empty(), b[0].command) + y,
        );
        assert(steps_bytes(a) =~= u32_bytes(a[0].offset.bits) + p);
        assert(steps_bytes(b) =~= u32_bytes(b[0].offset.bits) + q);
        law_numbers_have_their_own_bytes(a[0].offset.bits, p, b[0].offset.bits, q);
        law_commands_have_their_own_bytes(Seq::empty(), a[0].command, x, b[0].command, y);
        lemma_steps_told_apart(a.drop_first(), b.drop_first());
        assert forall|i: int| 0 <= i < a.len() implies (#[trigger] a[i]).offset == b[i].offset
            && alike(a[i].command, b[i].command) by {
            if i > 0 {
                assert(a.drop_first()[i - 1] == a[i]);
                assert(b.drop_first()[i - 1] == b[i]);
            }
        }
    } else {
        assert(a.len() == 0 <==> b.len() == 0) by {
            if a.len() > 0 {
                assert(steps_bytes(a).len() >= 4);
            }
            if b.len() > 0 {
                assert(steps_bytes(b).len() >= 4);
            }
        }
    }
}

/// A content id is taken over the whole content: no two macros that differ in a
/// step, in its offset, in any field of its command, or in whether they are
/// privileged, have the same bytes.
pub proof fn law_different_content_has_different_bytes(
    a: Seq<MacroStep>,
    p: bool,
    b: Seq<MacroStep>,
    q: bool,
)
    requires
        content_bytes(a, p) == content_bytes(b, q),
    ensures
        p == q,
        a.len() == b.len(),
        forall|i: int|
            0 <= i < a.len() ==> (#[trigger] a[i]).offset == b[i].offset && alike(
                a[i].command,
                b[i].command,
            ),
{
    lemma_content(a, p);
    lemma_content(b, q);
    law_numbers_have_their_own_bytes(
        1,
        flag_bytes(p) + steps_bytes(a),
        1,
        flag_bytes(q) + steps_bytes(b),
    );
    law_numbers_have_their_own_bytes(
        if p {
            1
        } else {
            0
        },
        steps_bytes(a),
        if q {
            1
        } else {
            0
        },
        steps_bytes(b),
    );
    lemma_steps_told_apart(a, b);
}

/// Refusals to record say why: by name, and by namespace.
pub proof fn law_recording_refusals_say_why(
    macros: MacrosState,
    source: IngressSource,
    name: Seq<char>,
    replace: bool,
    now: u64,
)
    ensures
        macros.record(source, name, replace, now) matches Err(refusal) ==> {
            &&& refusal.0 == Code::AlreadyExists ==> refusal.1 == "macro '"@ + name
                + "' exists (pass mode=replace to overwrite it)"@
            &&& refusal.0 == Code::NamespaceCap ==> refusal.1 == "namespace "@ + decimal(
                source.slot() as nat,
            ) + " is at its 32-macro limit"@
            &&& refusal.0 == Code::TooLarge ==> refusal.1 == "name exceeds 64 bytes"@
        },
{
}

/// A saved macro's content id is the hash of its content in sixteen hexadecimal
/// digits.
pub proof fn law_content_ids_are_sixteen_digits(rec: RecordingView)
    ensures
        finalized(rec).hash.len() == 16,
        finalized(rec).hash == hexadecimal(
            DefaultHasher::spec_finish(seq![content_bytes(rec.steps, rec.privileged)]) as nat,
            16,
        ),
{
    crate::text::law_hexadecimal_digits(
        DefaultHasher::spec_finish(seq![content_bytes(rec.steps, rec.privileged)]) as nat,
        16,
    );
}

} // verus!
