//! The avatar: a presence that belongs to the scene, not to whichever agent
//! spoke last.
//!
//! Agents submit attributed speech and gestures. Only the avatar-scene
//! capability may change the representation, show or hide it, or clear another
//! agent's speech. Attribution is always the ingress namespace; the optional
//! `from=` label is decoration.

use vstd::prelude::*;
use crate::ai::AiCommand;
use crate::capability::SceneCapability;
use crate::config::AppConfig;
use crate::identity::IngressSource;
use crate::number::{Single, ONE_BITS};
use crate::osc::{RattyAiCommand, SpeechClearScope};
use crate::query::{
    reply_view, token_view, Code, Eta, Handle, HandleView, LogState, QuerySession, Reject, Reply,
    ReplyLog, ReplyView, SessionState,
};
use crate::speech::{
    handle_index, lemma_handle_index, lemma_waiting_index, waiting_index, MAX_UTTERANCE_MS, MIN_UTTERANCE_MS, NANOS_PER_MS, SpeakAdmission, SpeechQueue, SpeechState, Utterance, UtteranceView,
};
use crate::text::{byte_len, char_count, decimal, decimal_text, same_text, text_byte_len};

verus! {

/// Byte cap on one utterance's text.
pub const MAX_AVATAR_TEXT_BYTES: usize = 1000;

/// Byte cap on the optional speaker label.
pub const MAX_AVATAR_SPEAKER_BYTES: usize = 64;

/// Reading-speed heuristic for durations derived from the text.
pub const UTTERANCE_MS_PER_CHAR: u64 = 60;

/// The bits of 512, the bound on the anchor offset in logical pixels.
pub const AVATAR_OFFSET_MAX_BITS: u32 = 0x4400_0000;

/// The bits of -512.
pub const AVATAR_OFFSET_MIN_BITS: u32 = 0xc400_0000;

/// The bits of 0.25, the scale floor.
pub const AVATAR_SCALE_MIN_BITS: u32 = 0x3e80_0000;

/// The bits of 4, the scale ceiling.
pub const AVATAR_SCALE_MAX_BITS: u32 = 0x4080_0000;

/// One entry of the avatar model registry.
#[derive(Clone, Copy, Debug)]
pub struct AvatarModelSpec {
    /// The registry id.
    pub id: &'static str,
    /// The embedded asset's file name.
    pub file: &'static str,
    /// The URL that the asset loads from.
    pub embedded_url: &'static str,
    /// Display scale of the spawned scene.
    pub scale: Single,
}

/// The registered model: the mascot.
pub open spec fn mascot() -> AvatarModelSpec {
    AvatarModelSpec {
        id: "mascot",
        file: "SpinyMouse.glb",
        embedded_url: "embedded://objects/SpinyMouse.glb",
        scale: Single { bits: ONE_BITS },
    }
}

fn the_mascot() -> (model: AvatarModelSpec)
    ensures
        model == mascot(),
{
    AvatarModelSpec {
        id: "mascot",
        file: "SpinyMouse.glb",
        embedded_url: "embedded://objects/SpinyMouse.glb",
        scale: Single { bits: ONE_BITS },
    }
}

/// Looks up a registry id, or `None` when it is not registered.
pub fn avatar_model_spec(id: &str) -> (found: Option<AvatarModelSpec>)
    ensures
        found == if id@ == "mascot"@ {
            Some(mascot())
        } else {
            None
        },
{
    if same_text(id, "mascot") {
        Some(the_mascot())
    } else {
        None
    }
}

/// The nine named screen-space anchors: corners, edge midpoints and center.
#[derive(Clone, Copy, Debug, PartialEq, Eq, Structural)]
pub enum AvatarAnchor {
    /// `top-left`.
    TopLeft,
    /// `top`.
    Top,
    /// `top-right`.
    TopRight,
    /// `left`.
    Left,
    /// `center`.
    Center,
    /// `right`.
    Right,
    /// `bottom-left`.
    BottomLeft,
    /// `bottom`.
    Bottom,
    /// `bottom-right`, the default.
    BottomRight,
}

impl AvatarAnchor {
    /// The wire name.
    pub open spec fn name(self) -> Seq<char> {
        match self {
            AvatarAnchor::TopLeft => "top-left"@,
            AvatarAnchor::Top => "top"@,
            AvatarAnchor::TopRight => "top-right"@,
            AvatarAnchor::Left => "left"@,
            AvatarAnchor::Center => "center"@,
            AvatarAnchor::Right => "right"@,
            AvatarAnchor::BottomLeft => "bottom-left"@,
            AvatarAnchor::Bottom => "bottom"@,
            AvatarAnchor::BottomRight => "bottom-right"@,
        }
    }

    /// The anchor with a wire name.
    pub open spec fn named(name: Seq<char>) -> Option<AvatarAnchor> {
        if name == "top-left"@ {
            Some(AvatarAnchor::TopLeft)
        } else if name == "top"@ {
            Some(AvatarAnchor::Top)
        } else if name == "top-right"@ {
            Some(AvatarAnchor::TopRight)
        } else if name == "left"@ {
            Some(AvatarAnchor::Left)
        } else if name == "center"@ {
            Some(AvatarAnchor::Center)
        } else if name == "right"@ {
            Some(AvatarAnchor::Right)
        } else if name == "bottom-left"@ {
            Some(AvatarAnchor::BottomLeft)
        } else if name == "bottom"@ {
            Some(AvatarAnchor::Bottom)
        } else if name == "bottom-right"@ {
            Some(AvatarAnchor::BottomRight)
        } else {
            None
        }
    }

    /// Parses a wire anchor name.
    pub fn parse(name: &str) -> (anchor: Option<AvatarAnchor>)
        ensures
            anchor == AvatarAnchor::named(name@),
    {
        if same_text(name, "top-left") {
            Some(AvatarAnchor::TopLeft)
        } else if same_text(name, "top") {
            Some(AvatarAnchor::Top)
        } else if same_text(name, "top-right") {
            Some(AvatarAnchor::TopRight)
        } else if same_text(name, "left") {
            Some(AvatarAnchor::Left)
        } else if same_text(name, "center") {
            Some(AvatarAnchor::Center)
        } else if same_text(name, "right") {
            Some(AvatarAnchor::Right)
        } else if same_text(name, "bottom-left") {
            Some(AvatarAnchor::BottomLeft)
        } else if same_text(name, "bottom") {
            Some(AvatarAnchor::Bottom)
        } else if same_text(name, "bottom-right") {
            Some(AvatarAnchor::BottomRight)
        } else {
            None
        }
    }

    /// The wire name.
    pub fn as_str(self) -> (name: &'static str)
        ensures
            name@ == self.name(),
    {
        match self {
            AvatarAnchor::TopLeft => "top-left",
            AvatarAnchor::Top => "top",
            AvatarAnchor::TopRight => "top-right",
            AvatarAnchor::Left => "left",
            AvatarAnchor::Center => "center",
            AvatarAnchor::Right => "right",
            AvatarAnchor::BottomLeft => "bottom-left",
            AvatarAnchor::Bottom => "bottom",
            AvatarAnchor::BottomRight => "bottom-right",
        }
    }

    /// Window coordinates in half window extents, origin top-left, y down.
    pub open spec fn halves(self) -> (u8, u8) {
        match self {
            AvatarAnchor::TopLeft => (0, 0),
            AvatarAnchor::Top => (1, 0),
            AvatarAnchor::TopRight => (2, 0),
            AvatarAnchor::Left => (0, 1),
            AvatarAnchor::Center => (1, 1),
            AvatarAnchor::Right => (2, 1),
            AvatarAnchor::BottomLeft => (0, 2),
            AvatarAnchor::Bottom => (1, 2),
            AvatarAnchor::BottomRight => (2, 2),
        }
    }

    /// Window coordinates in half window extents, origin top-left, y down.
    pub fn normalized(self) -> (halves: (u8, u8))
        ensures
            halves == self.halves(),
    {
        match self {
            AvatarAnchor::TopLeft => (0, 0),
            AvatarAnchor::Top => (1, 0),
            AvatarAnchor::TopRight => (2, 0),
            AvatarAnchor::Left => (0, 1),
            AvatarAnchor::Center => (1, 1),
            AvatarAnchor::Right => (2, 1),
            AvatarAnchor::BottomLeft => (0, 2),
            AvatarAnchor::Bottom => (1, 2),
            AvatarAnchor::BottomRight => (2, 2),
        }
    }
}

/// The named choreographies.
#[derive(Clone, Copy, Debug, PartialEq, Eq, Structural)]
pub enum AvatarChoreography {
    /// A gentle vertical bounce.
    Bob,
    /// A sway.
    Tilt,
    /// A lean toward the bubble and back.
    Lean,
    /// Two quick dips.
    Nod,
    /// One full turn.
    Spin,
}

impl AvatarChoreography {
    /// The wire name.
    pub open spec fn name(self) -> Seq<char> {
        match self {
            AvatarChoreography::Bob => "bob"@,
            AvatarChoreography::Tilt => "tilt"@,
            AvatarChoreography::Lean => "lean"@,
            AvatarChoreography::Nod => "nod"@,
            AvatarChoreography::Spin => "spin"@,
        }
    }

    /// The choreography with a wire name.
    pub open spec fn named(name: Seq<char>) -> Option<AvatarChoreography> {
        if name == "bob"@ {
            Some(AvatarChoreography::Bob)
        } else if name == "tilt"@ {
            Some(AvatarChoreography::Tilt)
        } else if name == "lean"@ {
            Some(AvatarChoreography::Lean)
        } else if name == "nod"@ {
            Some(AvatarChoreography::Nod)
        } else if name == "spin"@ {
            Some(AvatarChoreography::Spin)
        } else {
            None
        }
    }

    /// Parses a wire gesture name.
    pub fn parse(name: &str) -> (which: Option<AvatarChoreography>)
        ensures
            which == AvatarChoreography::named(name@),
    {
        if same_text(name, "bob") {
            Some(AvatarChoreography::Bob)
        } else if same_text(name, "tilt") {
            Some(AvatarChoreography::Tilt)
        } else if same_text(name, "lean") {
            Some(AvatarChoreography::Lean)
        } else if same_text(name, "nod") {
            Some(AvatarChoreography::Nod)
        } else if same_text(name, "spin") {
            Some(AvatarChoreography::Spin)
        } else {
            None
        }
    }

    /// The wire name.
    pub fn as_str(self) -> (name: &'static str)
        ensures
            name@ == self.name(),
    {
        match self {
            AvatarChoreography::Bob => "bob",
            AvatarChoreography::Tilt => "tilt",
            AvatarChoreography::Lean => "lean",
            AvatarChoreography::Nod => "nod",
            AvatarChoreography::Spin => "spin",
        }
    }

    /// One-shot length in tenths of a second.
    pub open spec fn tenths(self) -> u8 {
        match self {
            AvatarChoreography::Bob => 10,
            AvatarChoreography::Tilt => 12,
            AvatarChoreography::Lean => 12,
            AvatarChoreography::Nod => 9,
            AvatarChoreography::Spin => 14,
        }
    }

    /// One-shot length in tenths of a second.
    pub fn duration_tenths(self) -> (tenths: u8)
        ensures
            tenths == self.tenths(),
    {
        match self {
            AvatarChoreography::Bob => 10,
            AvatarChoreography::Tilt => 12,
            AvatarChoreography::Lean => 12,
            AvatarChoreography::Nod => 9,
            AvatarChoreography::Spin => 14,
        }
    }
}

/// Every anchor parses from its wire name.
pub proof fn law_anchor_names_round_trip(anchor: AvatarAnchor)
    ensures
        AvatarAnchor::named(anchor.name()) == Some(anchor),
{
    reveal_strlit("top-left");
    reveal_strlit("top");
    reveal_strlit("top-right");
    reveal_strlit("left");
    reveal_strlit("center");
    reveal_strlit("right");
    reveal_strlit("bottom-left");
    reveal_strlit("bottom");
    reveal_strlit("bottom-right");
    assert("top-left"@.len() == 8 && "top"@.len() == 3 && "top-right"@.len() == 9);
    assert("left"@.len() == 4 && "center"@.len() == 6 && "right"@.len() == 5);
    assert("bottom-left"@.len() == 11 && "bottom"@.len() == 6 && "bottom-right"@.len() == 12);
    assert("center"@[0] == 'c' && "bottom"@[0] == 'b');
}

/// Every choreography parses from its wire name.
pub proof fn law_choreography_names_round_trip(which: AvatarChoreography)
    ensures
        AvatarChoreography::named(which.name()) == Some(which),
{
    reveal_strlit("bob");
    reveal_strlit("tilt");
    reveal_strlit("lean");
    reveal_strlit("nod");
    reveal_strlit("spin");
    assert("bob"@[0] == 'b' && "tilt"@[0] == 't' && "lean"@[0] == 'l' && "nod"@[0] == 'n'
        && "spin"@[0] == 's');
}

/// A one-shot gesture in progress.
#[derive(Clone, Copy, Debug, PartialEq, Eq, Structural)]
pub struct ActiveGesture {
    /// The choreography playing.
    pub which: AvatarChoreography,
    /// When it began, in nanoseconds on the frame clock.
    pub started: u64,
}

/// What the avatar is and does.
pub struct AvatarScene {
    /// Whether it is shown.
    pub shown: bool,
    /// The model in effect.
    pub model: AvatarModelSpec,
    /// The anchor in effect.
    pub anchor: AvatarAnchor,
    /// Clamped anchor offset in logical pixels, rightward.
    pub offset_x: Single,
    /// Clamped anchor offset in logical pixels, downward.
    pub offset_y: Single,
    /// Clamped scale.
    pub scale: Single,
    /// The gesture in progress.
    pub gesture: Option<ActiveGesture>,
    /// Whether the mascot must be rebuilt.
    pub needs_respawn: bool,
    /// The speech.
    pub speech: SpeechState,
}

/// Scene-global avatar state.
#[derive(Debug)]
pub struct AvatarState {
    /// Whether the avatar is shown.
    pub shown: bool,
    /// The model in effect.
    pub model: AvatarModelSpec,
    /// The anchor in effect.
    pub anchor: AvatarAnchor,
    /// Clamped anchor offset in logical pixels, rightward.
    pub offset_x: Single,
    /// Clamped anchor offset in logical pixels, downward.
    pub offset_y: Single,
    /// Clamped scale.
    pub scale: Single,
    /// The one-shot gesture in progress, if any.
    pub gesture: Option<ActiveGesture>,
    /// Set when the mascot must be despawned and rebuilt.
    pub needs_respawn: bool,
    /// The fair bounded speech queue.
    pub speech: SpeechQueue,
}

impl View for AvatarState {
    type V = AvatarScene;

    open spec fn view(&self) -> AvatarScene {
        AvatarScene {
            shown: self.shown,
            model: self.model,
            anchor: self.anchor,
            offset_x: self.offset_x,
            offset_y: self.offset_y,
            scale: self.scale,
            gesture: self.gesture,
            needs_respawn: self.needs_respawn,
            speech: self.speech@,
        }
    }
}

/// What any agent may see of the avatar: no text of anyone's.
#[derive(Debug)]
pub struct AvatarPublic {
    /// Whether it is shown.
    pub visible: bool,
    /// Whether someone speaks.
    pub speaking: bool,
    /// Who speaks.
    pub speaker: Option<u8>,
    /// The speaker's execution handle.
    pub execution: Option<String>,
    /// How many utterances wait.
    pub queue_depth: usize,
    /// The model's registry id.
    pub model: &'static str,
    /// The anchor's wire name.
    pub position: &'static str,
}

/// The sentence that refuses scene control.
pub open spec fn needs_scene_capability() -> Seq<char> {
    "avatar scene control requires the avatar-scene capability ([trust.local] avatar_scene); ordinary agents may speak and gesture only"@
}

/// The sentence that refuses speech and gestures of a hidden avatar.
pub open spec fn avatar_hidden() -> Seq<char> {
    "the avatar is hidden (avatar.set or avatar.show first)"@
}

/// A number of milliseconds moved into the range of utterance durations.
pub open spec fn utterance_ms(ms: nat) -> nat {
    if ms < MIN_UTTERANCE_MS {
        MIN_UTTERANCE_MS as nat
    } else if ms > MAX_UTTERANCE_MS {
        MAX_UTTERANCE_MS as nat
    } else {
        ms
    }
}

/// The display duration that an utterance is pinned to, in nanoseconds: from
/// the text when none is asked for, and moved into the range either way. What
/// is asked for must be a positive number of seconds.
pub open spec fn pinned(text: Seq<char>, requested: Option<Single>) -> Result<
    u64,
    (Code, Seq<char>),
> {
    match requested {
        None => Ok((utterance_ms(text.len() * UTTERANCE_MS_PER_CHAR as nat) * NANOS_PER_MS) as u64),
        Some(secs) => if secs.finite() && 0 < secs.bits < 0x8000_0000 {
            Ok((utterance_ms(secs.thousandfold()) * NANOS_PER_MS) as u64)
        } else {
            Err((Code::BadPayload, "duration must be a finite value greater than 0"@))
        },
    }
}

/// Derives the pinned display duration at admission.
pub fn pin_duration(text: &str, requested: Option<Single>) -> (pinned_nanos: Result<u64, Reject>)
    ensures
        match pinned_nanos {
            Ok(nanos) => pinned(text@, requested) == Ok::<u64, (Code, Seq<char>)>(nanos),
            Err(reject) => pinned(text@, requested) == Err::<u64, (Code, Seq<char>)>(reject@),
        },
{
    let ms: u64 = match requested {
        None => {
            let count: usize = char_count(text);
            if count >= 250 {
                MAX_UTTERANCE_MS
            } else {
                let ms: u64 = count as u64 * UTTERANCE_MS_PER_CHAR;
                if ms < MIN_UTTERANCE_MS {
                    MIN_UTTERANCE_MS
                } else {
                    ms
                }
            }
        },
        Some(secs) => {
            if !secs.is_finite() || secs.bits == 0 || secs.bits >= 0x8000_0000 {
                return Err(
                    Reject::new(
                        Code::BadPayload,
                        "duration must be a finite value greater than 0",
                    ),
                );
            }
            secs.thousandfold_within(MIN_UTTERANCE_MS, MAX_UTTERANCE_MS)
        },
    };
    Ok(ms * NANOS_PER_MS)
}

/// The sentence that refuses an unknown model.
pub open spec fn unknown_model(id: Seq<char>) -> Seq<char> {
    "model '"@ + id + "' is not a registered avatar model (registry: mascot)"@
}

/// The sentence that refuses an unknown anchor.
pub open spec fn unknown_anchor(name: Seq<char>) -> Seq<char> {
    "position '"@ + name + "' is not one of the nine named anchors"@
}

/// The sentence that refuses an unknown gesture.
pub open spec fn unknown_gesture(name: Seq<char>) -> Seq<char> {
    "gesture '"@ + name + "' is not a named choreography (bob, tilt, lean, nod, spin)"@
}

/// The sentence that refuses a text that is too long.
pub open spec fn text_too_long(bytes: nat) -> Seq<char> {
    "utterance text is "@ + decimal(bytes) + " bytes, over the 1000-byte cap"@
}

/// The sentence that refuses a label that is too long.
pub open spec fn label_too_long(bytes: nat) -> Seq<char> {
    "from label is "@ + decimal(bytes) + " bytes, over the 64-byte cap"@
}

/// The sentence that refuses another session's handle.
pub open spec fn foreign_handle(id: Seq<char>) -> Seq<char> {
    "handle '"@ + id + "' was not minted by this session"@
}

/// A number moved into the offset range.
pub open spec fn offset_within(x: Single) -> Single {
    x.clamped(
        Single { bits: AVATAR_OFFSET_MIN_BITS },
        Single { bits: AVATAR_OFFSET_MAX_BITS },
    )
}

/// A number moved into the scale range.
pub open spec fn scale_within(x: Single) -> Single {
    x.clamped(Single { bits: AVATAR_SCALE_MIN_BITS }, Single { bits: AVATAR_SCALE_MAX_BITS })
}

/// An optional new value over an old one.
pub open spec fn updated(new: Option<Single>, old_value: Single, within: spec_fn(Single) -> Single) -> Single {
    match new {
        Some(x) => within(x),
        None => old_value,
    }
}

impl AvatarScene {
    /// Hidden, at the default place, silent.
    pub open spec fn baseline() -> AvatarScene {
        AvatarScene {
            shown: false,
            model: mascot(),
            anchor: AvatarAnchor::BottomRight,
            offset_x: Single { bits: 0 },
            offset_y: Single { bits: 0 },
            scale: Single { bits: ONE_BITS },
            gesture: None,
            needs_respawn: false,
            speech: SpeechState::silent(),
        }
    }

    /// The baseline again; a mascot that was shown must go.
    pub open spec fn reset(self) -> AvatarScene {
        AvatarScene { needs_respawn: self.shown, ..AvatarScene::baseline() }
    }

    /// The avatar placed and shown, all named changes at once.
    pub open spec fn placed(
        self,
        model: Option<Seq<char>>,
        position: Option<Seq<char>>,
        dx: Option<Single>,
        dy: Option<Single>,
        scale: Option<Single>,
    ) -> AvatarScene {
        let swaps = model is Some && self.model.id@ != "mascot"@;
        AvatarScene {
            shown: true,
            model: if swaps {
                mascot()
            } else {
                self.model
            },
            anchor: match position {
                Some(name) => AvatarAnchor::named(name)->0,
                None => self.anchor,
            },
            offset_x: updated(dx, self.offset_x, |x: Single| offset_within(x)),
            offset_y: updated(dy, self.offset_y, |x: Single| offset_within(x)),
            scale: updated(scale, self.scale, |x: Single| scale_within(x)),
            gesture: self.gesture,
            needs_respawn: self.needs_respawn || swaps,
            speech: self.speech,
        }
    }

    /// The avatar with other speech.
    pub open spec fn speaking(self, speech: SpeechState) -> AvatarScene {
        AvatarScene { speech, ..self }
    }

    /// What a spoken utterance does once its duration is pinned.
    pub open spec fn speak(
        self,
        session: SessionState,
        source: IngressSource,
        text: Seq<char>,
        from: Option<Seq<char>>,
        duration: u64,
        now: u64,
    ) -> (AvatarScene, SessionState, Option<ReplyView>) {
        let id = session.next_handle();
        let utterance = UtteranceView {
            id,
            namespace: source.slot(),
            text,
            from,
            duration,
        };
        match self.speech.admission(utterance, now) {
            Ok((speech, SpeakAdmission::Started)) => (
                self.speaking(speech),
                session.after_mint(),
                Some(
                    ReplyView::LongRunning(
                        Code::Started,
                        HandleView { id, position: 0, eta: Eta::Millis(0) },
                    ),
                ),
            ),
            Ok((speech, SpeakAdmission::Queued { position, eta })) => (
                self.speaking(speech),
                session.after_mint(),
                Some(
                    ReplyView::LongRunning(
                        Code::Queued,
                        HandleView {
                            id,
                            position,
                            eta: Eta::Millis((eta / (NANOS_PER_MS as u128)) as u64),
                        },
                    ),
                ),
            ),
            Err((code, message)) => (
                self,
                session.after_mint(),
                Some(ReplyView::Refused("avatar.speak"@, code, message)),
            ),
        }
    }

    /// What a command does to the avatar, and what its owner answers; `None`
    /// where the command is another organ's, or is silent here.
    pub open spec fn step(
        self,
        session: SessionState,
        source: IngressSource,
        config: AppConfig,
        command: RattyAiCommand,
        now: u64,
    ) -> (AvatarScene, SessionState, Option<ReplyView>) {
        let trusted = SceneCapability::AvatarScene.grants(source, config);
        match command {
            RattyAiCommand::AvatarSet { model, position, dx, dy, scale } => if !trusted {
                (
                    self,
                    session,
                    Some(
                        ReplyView::Refused(
                            "avatar.set"@,
                            Code::NotPermitted,
                            needs_scene_capability(),
                        ),
                    ),
                )
            } else if model is Some && model->0@ != "mascot"@ {
                (
                    self,
                    session,
                    Some(
                        ReplyView::Refused(
                            "avatar.set"@,
                            Code::UnknownModel,
                            unknown_model(model->0@),
                        ),
                    ),
                )
            } else if position is Some && AvatarAnchor::named(position->0@) is None {
                (
                    self,
                    session,
                    Some(
                        ReplyView::Refused(
                            "avatar.set"@,
                            Code::UnknownAnchor,
                            unknown_anchor(position->0@),
                        ),
                    ),
                )
            } else {
                (
                    self.placed(token_view(model), token_view(position), dx, dy, scale),
                    session,
                    Some(ReplyView::Commit),
                )
            },
            RattyAiCommand::AvatarShow => if !trusted {
                (
                    self,
                    session,
                    Some(
                        ReplyView::Refused(
                            "avatar.show"@,
                            Code::NotPermitted,
                            needs_scene_capability(),
                        ),
                    ),
                )
            } else {
                (AvatarScene { shown: true, ..self }, session, Some(ReplyView::Commit))
            },
            RattyAiCommand::AvatarHide => if !trusted {
                (
                    self,
                    session,
                    Some(
                        ReplyView::Refused(
                            "avatar.hide"@,
                            Code::NotPermitted,
                            needs_scene_capability(),
                        ),
                    ),
                )
            } else {
                (
                    AvatarScene {
                        shown: false,
                        gesture: None,
                        speech: SpeechState::silent(),
                        ..self
                    },
                    session,
                    Some(ReplyView::Commit),
                )
            },
            RattyAiCommand::AvatarGesture { gesture } => if !self.shown {
                (
                    self,
                    session,
                    Some(
                        ReplyView::Refused("avatar.gesture"@, Code::NothingActive, avatar_hidden()),
                    ),
                )
            } else {
                match AvatarChoreography::named(gesture@) {
                    Some(which) => (
                        AvatarScene { gesture: Some(ActiveGesture { which, started: now }), ..self },
                        session,
                        Some(ReplyView::Commit),
                    ),
                    None => (
                        self,
                        session,
                        Some(
                            ReplyView::Refused(
                                "avatar.gesture"@,
                                Code::UnknownGesture,
                                unknown_gesture(gesture@),
                            ),
                        ),
                    ),
                }
            },
            RattyAiCommand::AvatarSpeak { text, from, duration } => if !self.shown {
                (
                    self,
                    session,
                    Some(
                        ReplyView::Refused("avatar.speak"@, Code::NothingActive, avatar_hidden()),
                    ),
                )
            } else if byte_len(text@) > MAX_AVATAR_TEXT_BYTES {
                (
                    self,
                    session,
                    Some(
                        ReplyView::Refused(
                            "avatar.speak"@,
                            Code::TextTooLong,
                            text_too_long(byte_len(text@)),
                        ),
                    ),
                )
            } else if from is Some && byte_len(from->0@) > MAX_AVATAR_SPEAKER_BYTES {
                (
                    self,
                    session,
                    Some(
                        ReplyView::Refused(
                            "avatar.speak"@,
                            Code::TooLarge,
                            label_too_long(byte_len(from->0@)),
                        ),
                    ),
                )
            } else {
                match pinned(text@, duration) {
                    Ok(nanos) => self.speak(session, source, text@, token_view(from), nanos, now),
                    Err((code, message)) => (
                        self,
                        session,
                        Some(ReplyView::Refused("avatar.speak"@, code, message)),
                    ),
                }
            },
            RattyAiCommand::AvatarStopSpeaking => match self.speech.stop_speaking(source.slot()) {
                Ok(speech) => (self.speaking(speech), session, Some(ReplyView::Commit)),
                Err((code, message)) => (
                    self,
                    session,
                    Some(ReplyView::Refused("avatar.stop"@, code, message)),
                ),
            },
            RattyAiCommand::AvatarCancel { execution_id } => if !session.owns(execution_id@) {
                (
                    self,
                    session,
                    Some(
                        ReplyView::Refused(
                            "avatar.cancel"@,
                            Code::UnknownId,
                            foreign_handle(execution_id@),
                        ),
                    ),
                )
            } else {
                match self.speech.cancel(source.slot(), execution_id@) {
                    Ok(speech) => (self.speaking(speech), session, Some(ReplyView::Commit)),
                    Err((code, message)) => (
                        self,
                        session,
                        Some(ReplyView::Refused("avatar.cancel"@, code, message)),
                    ),
                }
            },
            RattyAiCommand::AvatarSpeechClear { scope } => {
                let own = scope == SpeechClearScope::Own || scope == SpeechClearScope::Namespace(
                    source.slot(),
                );
                if !own && !trusted {
                    (
                        self,
                        session,
                        Some(
                            ReplyView::Refused(
                                "avatar.speech.clear"@,
                                Code::NotPermitted,
                                needs_scene_capability(),
                            ),
                        ),
                    )
                } else {
                    (
                        self.speaking(
                            match scope {
                                SpeechClearScope::Own => self.speech.clear_namespace(source.slot()),
                                SpeechClearScope::Namespace(namespace) => self.speech.clear_namespace(
                                    namespace,
                                ),
                                SpeechClearScope::All => SpeechState::silent(),
                            },
                        ),
                        session,
                        Some(ReplyView::Commit),
                    )
                }
            },
            RattyAiCommand::Reset => (self.reset(), session, None),
            _ => (self, session, None),
        }
    }
}

/// The avatar, the session and the answers after a run of commands.
pub open spec fn avatar_run(
    scene: AvatarScene,
    session: SessionState,
    log: LogState,
    config: AppConfig,
    commands: Seq<AiCommand>,
    now: u64,
) -> (AvatarScene, SessionState, LogState)
    decreases commands.len(),
{
    if commands.len() == 0 {
        (scene, session, log)
    } else {
        let (scene, session, log) = avatar_run(
            scene,
            session,
            log,
            config,
            commands.drop_last(),
            now,
        );
        let last = commands.last();
        let (scene, session, reply) = scene.step(session, last.source, config, last.command, now);
        (scene, session, log.answered(last.source, token_view(last.ack_token), reply))
    }
}

fn sentence(before: &str, middle: &str, after: &str) -> (text: String)
    ensures
        text@ == before@ + middle@ + after@,
{
    let mut text = before.to_owned();
    text.append(middle);
    text.append(after);
    text
}

fn refuse(action: &'static str, code: Code, message: String) -> (reply: Option<Reply>)
    ensures
        reply_view(reply) == Some(ReplyView::Refused(action@, code, message@)),
{
    Some(Reply::Refused { action, reject: Reject { code, message } })
}

fn refuse_untrusted(action: &'static str) -> (reply: Option<Reply>)
    ensures
        reply_view(reply) == Some(
            ReplyView::Refused(action@, Code::NotPermitted, needs_scene_capability()),
        ),
{
    Some(
        Reply::refuse(
            action,
            Code::NotPermitted,
            "avatar scene control requires the avatar-scene capability ([trust.local] avatar_scene); ordinary agents may speak and gesture only",
        ),
    )
}

fn refuse_hidden(action: &'static str) -> (reply: Option<Reply>)
    ensures
        reply_view(reply) == Some(
            ReplyView::Refused(action@, Code::NothingActive, avatar_hidden()),
        ),
{
    Some(
        Reply::refuse(
            action,
            Code::NothingActive,
            "the avatar is hidden (avatar.set or avatar.show first)",
        ),
    )
}

impl Default for AvatarState {
    fn default() -> (state: Self)
        ensures
            state.wf(),
            state@ == AvatarScene::baseline(),
    {
        AvatarState {
            shown: false,
            model: the_mascot(),
            anchor: AvatarAnchor::BottomRight,
            offset_x: Single { bits: 0 },
            offset_y: Single { bits: 0 },
            scale: Single { bits: ONE_BITS },
            gesture: None,
            needs_respawn: false,
            speech: SpeechQueue::new(),
        }
    }
}

impl AvatarState {
    /// The speech queue is within its caps.
    pub open spec fn wf(&self) -> bool {
        self.speech.wf()
    }

    /// What any agent may see.
    pub fn public_scene(&self) -> (shown: AvatarPublic)
        ensures
            shown.visible == self.shown,
            shown.speaking == (self.speech@.active is Some),
            shown.speaker == match self.speech@.active {
                Some(active) => Some(active.utterance.namespace),
                None => None,
            },
            token_view(shown.execution) == match self.speech@.active {
                Some(active) => Some(active.utterance.id),
                None => None,
            },
            shown.queue_depth == self.speech@.waiting.len(),
            shown.model@ == self.model.id@,
            shown.position@ == self.anchor.name(),
    {
        let (speaker, execution) = match self.speech.active() {
            Some(active) => (Some(active.utterance.namespace), Some(active.utterance.id.clone())),
            None => (None, None),
        };
        AvatarPublic {
            visible: self.shown,
            speaking: speaker.is_some(),
            speaker,
            execution,
            queue_depth: self.speech.queue_depth(),
            model: self.model.id,
            position: self.anchor.as_str(),
        }
    }

    /// Returns to the baseline. A shown mascot must despawn, so the flag
    /// survives.
    pub fn reset(&mut self)
        ensures
            final(self).wf(),
            final(self)@ == old(self)@.reset(),
    {
        let respawn: bool = self.shown;
        *self = AvatarState::default();
        self.needs_respawn = respawn;
    }

    fn place(
        &mut self,
        model: &Option<String>,
        position: &Option<String>,
        dx: Option<Single>,
        dy: Option<Single>,
        scale: Option<Single>,
    ) -> (reply: Option<Reply>)
        requires
            old(self).wf(),
        ensures
            final(self).wf(),
            if model is Some && model->0@ != "mascot"@ {
                &&& final(self)@ == old(self)@
                &&& reply_view(reply) == Some(
                    ReplyView::Refused("avatar.set"@, Code::UnknownModel, unknown_model(model->0@)),
                )
            } else if position is Some && AvatarAnchor::named(position->0@) is None {
                &&& final(self)@ == old(self)@
                &&& reply_view(reply) == Some(
                    ReplyView::Refused(
                        "avatar.set"@,
                        Code::UnknownAnchor,
                        unknown_anchor(position->0@),
                    ),
                )
            } else {
                &&& final(self)@ == old(self)@.placed(
                    token_view(*model),
                    token_view(*position),
                    dx,
                    dy,
                    scale,
                )
                &&& reply_view(reply) == Some(ReplyView::Commit)
            },
    {
        let spec: Option<AvatarModelSpec> = match model {
            None => None,
            Some(id) => match avatar_model_spec(id) {
                Some(spec) => Some(spec),
                None => {
                    return refuse(
                        "avatar.set",
                        Code::UnknownModel,
                        sentence(
                            "model '",
                            id,
                            "' is not a registered avatar model (registry: mascot)",
                        ),
                    );
                },
            },
        };
        let anchor: Option<AvatarAnchor> = match position {
            None => None,
            Some(name) => match AvatarAnchor::parse(name) {
                Some(anchor) => Some(anchor),
                None => {
                    return refuse(
                        "avatar.set",
                        Code::UnknownAnchor,
                        sentence("position '", name, "' is not one of the nine named anchors"),
                    );
                },
            },
        };
        if let Some(spec) = spec {
            if !same_text(self.model.id, spec.id) {
                self.model = spec;
                self.needs_respawn = true;
            }
        }
        if let Some(anchor) = anchor {
            self.anchor = anchor;
        }
        if let Some(dx) = dx {
            self.offset_x = dx.clamp_to(
                Single { bits: AVATAR_OFFSET_MIN_BITS },
                Single { bits: AVATAR_OFFSET_MAX_BITS },
            );
        }
        if let Some(dy) = dy {
            self.offset_y = dy.clamp_to(
                Single { bits: AVATAR_OFFSET_MIN_BITS },
                Single { bits: AVATAR_OFFSET_MAX_BITS },
            );
        }
        if let Some(scale) = scale {
            self.scale = scale.clamp_to(
                Single { bits: AVATAR_SCALE_MIN_BITS },
                Single { bits: AVATAR_SCALE_MAX_BITS },
            );
        }
        self.shown = true;
        Some(Reply::Commit)
    }

    fn speak(
        &mut self,
        session: &mut QuerySession,
        source: IngressSource,
        text: &String,
        from: &Option<String>,
        duration: u64,
        now: u64,
    ) -> (reply: Option<Reply>)
        requires
            old(self).wf(),
            old(session)@.minted < u64::MAX,
        ensures
            final(self).wf(),
            old(self)@.speak(old(session)@, source, text@, token_view(*from), duration, now) == (
                final(self)@,
                final(session)@,
                reply_view(reply),
            ),
    {
        let id = session.mint_execution_id();
        let utterance = Utterance {
            id: id.clone(),
            namespace: source.namespace(),
            text: text.clone(),
            from: from.clone(),
            duration,
        };
        match self.speech.admit_utterance(utterance, now) {
            Ok(SpeakAdmission::Started) => Some(
                Reply::LongRunning {
                    code: Code::Started,
                    handle: Handle { id, position: 0, eta: Eta::Millis(0) },
                },
            ),
            Ok(SpeakAdmission::Queued { position, eta }) => {
                let millis: u64 = (eta / (NANOS_PER_MS as u128)) as u64;
                Some(
                    Reply::LongRunning {
                        code: Code::Queued,
                        handle: Handle { id, position, eta: Eta::Millis(millis) },
                    },
                )
            },
            Err(reject) => Some(Reply::Refused { action: "avatar.speak", reject }),
        }
    }

    /// Applies one command.
    pub fn apply(
        &mut self,
        session: &mut QuerySession,
        source: IngressSource,
        config: &AppConfig,
        command: &RattyAiCommand,
        now: u64,
    ) -> (reply: Option<Reply>)
        requires
            old(self).wf(),
            old(session)@.minted < u64::MAX,
        ensures
            final(self).wf(),
            old(self)@.step(old(session)@, source, *config, *command, now) == (
                final(self)@,
                final(session)@,
                reply_view(reply),
            ),
    {
        let trusted: bool = SceneCapability::AvatarScene.granted_to(source, config);
        match command {
            RattyAiCommand::AvatarSet { model, position, dx, dy, scale } => {
                if !trusted {
                    return refuse_untrusted("avatar.set");
                }
                self.place(model, position, *dx, *dy, *scale)
            },
            RattyAiCommand::AvatarShow => {
                if !trusted {
                    return refuse_untrusted("avatar.show");
                }
                self.shown = true;
                Some(Reply::Commit)
            },
            RattyAiCommand::AvatarHide => {
                if !trusted {
                    return refuse_untrusted("avatar.hide");
                }
                self.shown = false;
                self.gesture = None;
                self.speech.clear_all();
                Some(Reply::Commit)
            },
            RattyAiCommand::AvatarGesture { gesture } => {
                if !self.shown {
                    return refuse_hidden("avatar.gesture");
                }
                match AvatarChoreography::parse(gesture) {
                    Some(which) => {
                        self.gesture = Some(ActiveGesture { which, started: now });
                        Some(Reply::Commit)
                    },
                    None => refuse(
                        "avatar.gesture",
                        Code::UnknownGesture,
                        sentence(
                            "gesture '",
                            gesture,
                            "' is not a named choreography (bob, tilt, lean, nod, spin)",
                        ),
                    ),
                }
            },
            RattyAiCommand::AvatarSpeak { text, from, duration } => {
                if !self.shown {
                    return refuse_hidden("avatar.speak");
                }
                let bytes: usize = text_byte_len(text);
                if bytes > MAX_AVATAR_TEXT_BYTES {
                    return refuse(
                        "avatar.speak",
                        Code::TextTooLong,
                        sentence(
                            "utterance text is ",
                            &decimal_text(bytes as u64),
                            " bytes, over the 1000-byte cap",
                        ),
                    );
                }
                if let Some(from) = from {
                    let bytes: usize = text_byte_len(from);
                    if bytes > MAX_AVATAR_SPEAKER_BYTES {
                        return refuse(
                            "avatar.speak",
                            Code::TooLarge,
                            sentence(
                                "from label is ",
                                &decimal_text(bytes as u64),
                                " bytes, over the 64-byte cap",
                            ),
                        );
                    }
                }
                match pin_duration(text, *duration) {
                    Ok(nanos) => self.speak(session, source, text, from, nanos, now),
                    Err(reject) => Some(Reply::Refused { action: "avatar.speak", reject }),
                }
            },
            RattyAiCommand::AvatarStopSpeaking => {
                match self.speech.stop_speaking(source.namespace()) {
                    Ok(()) => Some(Reply::Commit),
                    Err(reject) => Some(Reply::Refused { action: "avatar.stop", reject }),
                }
            },
            RattyAiCommand::AvatarCancel { execution_id } => {
                if !session.owns_execution_id(execution_id) {
                    return refuse(
                        "avatar.cancel",
                        Code::UnknownId,
                        sentence("handle '", execution_id, "' was not minted by this session"),
                    );
                }
                match self.speech.cancel(source.namespace(), execution_id) {
                    Ok(()) => Some(Reply::Commit),
                    Err(reject) => Some(Reply::Refused { action: "avatar.cancel", reject }),
                }
            },
            RattyAiCommand::AvatarSpeechClear { scope } => {
                let own: bool = match scope {
                    SpeechClearScope::Own => true,
                    SpeechClearScope::Namespace(namespace) => *namespace == source.namespace(),
                    SpeechClearScope::All => false,
                };
                if !own && !trusted {
                    return refuse_untrusted("avatar.speech.clear");
                }
                match scope {
                    SpeechClearScope::Own => self.speech.clear_namespace(source.namespace()),
                    SpeechClearScope::Namespace(namespace) => self.speech.clear_namespace(
                        *namespace,
                    ),
                    SpeechClearScope::All => self.speech.clear_all(),
                }
                Some(Reply::Commit)
            },
            RattyAiCommand::Reset => {
                self.reset();
                None
            },
            _ => None,
        }
    }
}

/// Expires and promotes utterances on the frame clock; it runs before
/// [`apply_avatar_commands`], so an expiry frees the voice before new
/// admissions.
pub fn drive_avatar_speech(avatar: &mut AvatarState, now: u64)
    requires
        old(avatar).wf(),
    ensures
        final(avatar).wf(),
        final(avatar)@ == old(avatar)@.speaking(old(avatar)@.speech.tick(now)),
{
    avatar.speech.tick(now);
}

/// Applies a frame's commands to the avatar and answers those that are the
/// avatar's.
pub fn apply_avatar_commands(
    commands: &Vec<AiCommand>,
    avatar: &mut AvatarState,
    config: &AppConfig,
    session: &mut QuerySession,
    log: &mut ReplyLog,
    now: u64,
)
    requires
        old(avatar).wf(),
        old(session)@.minted + commands@.len() <= u64::MAX,
    ensures
        final(avatar).wf(),
        (final(avatar)@, final(session)@, final(log)@) == avatar_run(
            old(avatar)@,
            old(session)@,
            old(log)@,
            *config,
            commands@,
            now,
        ),
{
    let mut i: usize = 0;
    assert(commands@.take(0) =~= Seq::empty());
    while i < commands.len()
        invariant
            i <= commands@.len(),
            avatar.wf(),
            session@.minted <= old(session)@.minted + i,
            old(session)@.minted + commands@.len() <= u64::MAX,
            (avatar@, session@, log@) == avatar_run(
                old(avatar)@,
                old(session)@,
                old(log)@,
                *config,
                commands@.take(i as int),
                now,
            ),
        decreases commands.len() - i,
    {
        let entry = &commands[i];
        proof {
            let next = commands@.take(i + 1);
            assert(next.drop_last() =~= commands@.take(i as int));
            assert(next.last() == commands@[i as int]);
        }
        let reply = avatar.apply(session, entry.source, config, &entry.command, now);
        log.answer(entry.source, &entry.ack_token, reply);
        i += 1;
    }
    assert(commands@.take(i as int) =~= commands@);
}

/// Only the capability directs the avatar: without it, no command but a reset
/// changes whether it is shown, its model, its place or its size.
pub proof fn law_direction_needs_the_capability(
    scene: AvatarScene,
    session: SessionState,
    source: IngressSource,
    config: AppConfig,
    command: RattyAiCommand,
    now: u64,
)
    requires
        !SceneCapability::AvatarScene.grants(source, config),
        !(command is Reset),
    ensures
        ({
            let after = scene.step(session, source, config, command, now).0;
            &&& after.shown == scene.shown
            &&& after.model == scene.model
            &&& after.anchor == scene.anchor
            &&& after.offset_x == scene.offset_x
            &&& after.offset_y == scene.offset_y
            &&& after.scale == scene.scale
            &&& after.needs_respawn == scene.needs_respawn
        }),
{
}

/// Whether an utterance has the voice or waits for it.
pub open spec fn in_line(speech: SpeechState, utterance: UtteranceView) -> bool {
    (speech.active is Some && speech.active->0.utterance == utterance) || speech.waiting.contains(
        utterance,
    )
}

/// Nobody silences another agent without the capability: what others say or
/// wait to say stays in line, whatever the command, but for a reset.
pub proof fn law_others_speech_is_safe(
    scene: AvatarScene,
    session: SessionState,
    source: IngressSource,
    config: AppConfig,
    command: RattyAiCommand,
    now: u64,
    utterance: UtteranceView,
)
    requires
        !SceneCapability::AvatarScene.grants(source, config),
        !(command is Reset),
        utterance.namespace != source.slot(),
        in_line(scene.speech, utterance),
    ensures
        in_line(scene.step(session, source, config, command, now).0.speech, utterance),
{
    let speech = scene.speech;
    let after = scene.step(session, source, config, command, now).0.speech;
    lemma_waiting_index(speech.waiting, source.slot());
    match command {
        RattyAiCommand::AvatarCancel { execution_id } => {
            lemma_handle_index(speech.waiting, execution_id@);
        },
        _ => {},
    }
    if speech.waiting.contains(utterance) {
        let k = choose|k: int| 0 <= k < speech.waiting.len() && speech.waiting[k] == utterance;
        if after.waiting.len() == speech.waiting.len() + 1 {
            assert(after.waiting[k] == utterance);
        } else if after.waiting.len() == speech.waiting.len() {
            assert(after.waiting[k] == utterance);
        } else {
            let gone = match command {
                RattyAiCommand::AvatarCancel { execution_id } => handle_index(
                    speech.waiting,
                    execution_id@,
                )->0,
                _ => waiting_index(speech.waiting, source.slot())->0,
            };
            assert(speech.waiting[gone].namespace == source.slot());
            if k < gone {
                assert(after.waiting[k] == utterance);
            } else {
                assert(after.waiting[k - 1] == utterance);
            }
        }
    }
}

/// Where the nine anchors are: left, middle or right, and top, middle or bottom,
/// in halves of the window, as their names say.
pub proof fn law_anchors_are_where_their_names_say()
    ensures
        AvatarAnchor::named("top-left"@) matches Some(anchor) && anchor.halves() == (0u8, 0u8),
        AvatarAnchor::named("top"@) matches Some(anchor) && anchor.halves() == (1u8, 0u8),
        AvatarAnchor::named("top-right"@) matches Some(anchor) && anchor.halves() == (2u8, 0u8),
        AvatarAnchor::named("left"@) matches Some(anchor) && anchor.halves() == (0u8, 1u8),
        AvatarAnchor::named("center"@) matches Some(anchor) && anchor.halves() == (1u8, 1u8),
        AvatarAnchor::named("right"@) matches Some(anchor) && anchor.halves() == (2u8, 1u8),
        AvatarAnchor::named("bottom-left"@) matches Some(anchor) && anchor.halves() == (0u8, 2u8),
        AvatarAnchor::named("bottom"@) matches Some(anchor) && anchor.halves() == (1u8, 2u8),
        AvatarAnchor::named("bottom-right"@) matches Some(anchor) && anchor.halves() == (2u8, 2u8),
{
    law_anchor_names_round_trip(AvatarAnchor::TopLeft);
    law_anchor_names_round_trip(AvatarAnchor::Top);
    law_anchor_names_round_trip(AvatarAnchor::TopRight);
    law_anchor_names_round_trip(AvatarAnchor::Left);
    law_anchor_names_round_trip(AvatarAnchor::Center);
    law_anchor_names_round_trip(AvatarAnchor::Right);
    law_anchor_names_round_trip(AvatarAnchor::BottomLeft);
    law_anchor_names_round_trip(AvatarAnchor::Bottom);
    law_anchor_names_round_trip(AvatarAnchor::BottomRight);
}

/// How long the gestures take, by their names, in tenths of a second.
pub proof fn law_gestures_take_their_time()
    ensures
        AvatarChoreography::named("bob"@) matches Some(which) && which is Bob && which.tenths()
            == 10,
        AvatarChoreography::named("tilt"@) matches Some(which) && which is Tilt && which.tenths()
            == 12,
        AvatarChoreography::named("lean"@) matches Some(which) && which is Lean && which.tenths()
            == 12,
        AvatarChoreography::named("nod"@) matches Some(which) && which is Nod && which.tenths()
            == 9,
        AvatarChoreography::named("spin"@) matches Some(which) && which is Spin && which.tenths()
            == 14,
{
    law_choreography_names_round_trip(AvatarChoreography::Bob);
    law_choreography_names_round_trip(AvatarChoreography::Tilt);
    law_choreography_names_round_trip(AvatarChoreography::Lean);
    law_choreography_names_round_trip(AvatarChoreography::Nod);
    law_choreography_names_round_trip(AvatarChoreography::Spin);
}

/// How long an utterance lasts: sixty milliseconds for each character, or as
/// long as was asked for, but not less than 750 milliseconds nor more than 15
/// seconds; and what was asked for must be finite and positive.
pub proof fn law_how_long_an_utterance_lasts(text: Seq<char>, secs: Single)
    ensures
        text.len() * 60 < 750 ==> pinned(text, None) == Ok::<u64, (Code, Seq<char>)>(750_000_000),
        750 <= text.len() * 60 <= 15_000 ==> (pinned(text, None) matches Ok(nanos) && nanos
            == text.len() * 60 * 1_000_000),
        text.len() * 60 > 15_000 ==> pinned(text, None) == Ok::<u64, (Code, Seq<char>)>(
            15_000_000_000,
        ),
        pinned(text, Some(secs)) is Ok <==> 0 < secs.bits < 0x7f80_0000,
        pinned(text, Some(secs)) matches Ok(nanos) ==> {
            &&& secs.thousandfold() < 750 ==> nanos == 750_000_000
            &&& 750 <= secs.thousandfold() <= 15_000 ==> nanos == secs.thousandfold() * 1_000_000
            &&& secs.thousandfold() > 15_000 ==> nanos == 15_000_000_000
        },
        pinned(text, Some(secs)) matches Err(refusal) ==> refusal.0 == Code::BadPayload,
{
}

/// What placing the avatar does, for an agent that may direct it: it is shown,
/// at the anchor that was named, moved and scaled by what was given within the
/// bounds, each its own; what was not given stays. A model or an anchor that is
/// not known is refused and changes nothing.
pub proof fn law_the_avatar_is_placed_as_asked(
    scene: AvatarScene,
    session: SessionState,
    source: IngressSource,
    config: AppConfig,
    model: Option<String>,
    position: Option<String>,
    dx: Option<Single>,
    dy: Option<Single>,
    scale: Option<Single>,
    now: u64,
)
    requires
        config.trust.local.avatar_scene,
    ensures
        ({
            let command = RattyAiCommand::AvatarSet { model, position, dx, dy, scale };
            let (after, minted, reply) = scene.step(session, source, config, command, now);
            let strange = model is Some && model->0@ != "mascot"@;
            let lost = position is Some && AvatarAnchor::named(position->0@) is None;
            &&& minted == session
            &&& reply == Some(ReplyView::Commit) <==> !strange && !lost
            &&& strange ==> after == scene && (
            reply matches Some(ReplyView::Refused(action, code, _)) && action == "avatar.set"@
                && code == Code::UnknownModel)
            &&& !strange && lost ==> after == scene && (
            reply matches Some(ReplyView::Refused(action, code, _)) && action == "avatar.set"@
                && code == Code::UnknownAnchor)
            &&& !strange && !lost ==> {
                &&& after.shown
                &&& position is None ==> after.anchor == scene.anchor
                &&& position matches Some(name) ==> AvatarAnchor::named(name@) == Some(after.anchor)
                &&& dx is None ==> after.offset_x == scene.offset_x
                &&& dy is None ==> after.offset_y == scene.offset_y
                &&& scale is None ==> after.scale == scene.scale
                &&& dx matches Some(x) ==> (x.bits <= 0x4400_0000 ==> after.offset_x == x) && (
                0x4400_0000 < x.bits <= 0x7f80_0000 ==> after.offset_x.bits == 0x4400_0000) && (
                0x8000_0000 <= x.bits <= 0xc400_0000 ==> after.offset_x == x) && (0xc400_0000 < x.bits
                    <= 0xff80_0000 ==> after.offset_x.bits == 0xc400_0000)
                &&& dy matches Some(y) ==> (y.bits <= 0x4400_0000 ==> after.offset_y == y) && (
                0x4400_0000 < y.bits <= 0x7f80_0000 ==> after.offset_y.bits == 0x4400_0000) && (
                0x8000_0000 <= y.bits <= 0xc400_0000 ==> after.offset_y == y) && (0xc400_0000 < y.bits
                    <= 0xff80_0000 ==> after.offset_y.bits == 0xc400_0000)
                &&& scale matches Some(s) ==> (0x3e80_0000 <= s.bits <= 0x4080_0000 ==> after.scale
                    == s) && (s.bits < 0x3e80_0000 ==> after.scale.bits == 0x3e80_0000) && (
                0x4080_0000 < s.bits <= 0x7f80_0000 ==> after.scale.bits == 0x4080_0000)
                &&& after.gesture == scene.gesture && after.speech == scene.speech
                &&& scene.model.id@ == "mascot"@ ==> after.model == scene.model
                    && after.needs_respawn == scene.needs_respawn
            }
        }),
{
}

/// Showing shows and changes nothing else; hiding hides, ends the gesture and
/// silences everybody. A reset goes back to the bottom right, unscaled, unmoved
/// and silent, and a mascot that was shown must go.
pub proof fn law_showing_hiding_and_resetting(
    scene: AvatarScene,
    session: SessionState,
    source: IngressSource,
    config: AppConfig,
    now: u64,
)
    ensures
        ({
            let (shown, _, show) = scene.step(
                session,
                source,
                config,
                RattyAiCommand::AvatarShow,
                now,
            );
            let (hidden, _, hide) = scene.step(
                session,
                source,
                config,
                RattyAiCommand::AvatarHide,
                now,
            );
            let (reset, _, answer) = scene.step(session, source, config, RattyAiCommand::Reset, now);
            let trusted = config.trust.local.avatar_scene;
            &&& trusted ==> show == Some(ReplyView::Commit) && shown == (AvatarScene {
                shown: true,
                ..scene
            })
            &&& trusted ==> hide == Some(ReplyView::Commit) && !hidden.shown && hidden.gesture is None
                && hidden.speech.active is None && hidden.speech.waiting.len() == 0
                && hidden.anchor == scene.anchor && hidden.scale == scene.scale && hidden.offset_x
                == scene.offset_x && hidden.offset_y == scene.offset_y && hidden.model
                == scene.model
            &&& !trusted ==> shown == scene && hidden == scene && (
            show matches Some(ReplyView::Refused(action, code, _)) && action == "avatar.show"@
                && code == Code::NotPermitted) && (
            hide matches Some(ReplyView::Refused(action, code, _)) && action == "avatar.hide"@
                && code == Code::NotPermitted)
            &&& answer is None
            &&& !reset.shown && reset.anchor is BottomRight && reset.scale.bits == 0x3f80_0000
                && reset.offset_x.bits == 0 && reset.offset_y.bits == 0 && reset.gesture is None
            &&& reset.speech.active is None && reset.speech.waiting.len() == 0
            &&& reset.needs_respawn == scene.shown
            &&& reset.model.id@ == "mascot"@
        }),
{
}

/// A shown avatar makes the gesture that is named, from now on.
pub proof fn law_gestures_are_made_when_asked_for(
    scene: AvatarScene,
    session: SessionState,
    source: IngressSource,
    config: AppConfig,
    gesture: String,
    now: u64,
)
    ensures
        ({
            let (after, minted, reply) = scene.step(
                session,
                source,
                config,
                RattyAiCommand::AvatarGesture { gesture },
                now,
            );
            let which = AvatarChoreography::named(gesture@);
            &&& minted == session
            &&& scene.shown && which is Some ==> reply == Some(ReplyView::Commit)
                && after.gesture is Some && after.gesture->0.which == which->0
                && after.gesture->0.started == now && after == (AvatarScene {
                gesture: after.gesture,
                ..scene
            })
            &&& !scene.shown ==> after == scene && (
            reply matches Some(ReplyView::Refused(action, code, _)) && action == "avatar.gesture"@
                && code == Code::NothingActive)
            &&& scene.shown && which is None ==> after == scene && (
            reply matches Some(ReplyView::Refused(action, code, _)) && action == "avatar.gesture"@
                && code == Code::UnknownGesture)
        }),
{
}

/// A shown avatar says what it is given, as the caller's own, under a new handle:
/// the text of at most a thousand bytes, the speaker's label of at most
/// sixty-four, for as long as it was pinned. The answer carries that handle.
pub proof fn law_the_avatar_says_what_it_is_given(
    scene: AvatarScene,
    session: SessionState,
    source: IngressSource,
    config: AppConfig,
    text: String,
    from: Option<String>,
    duration: Option<Single>,
    now: u64,
)
    ensures
        ({
            let (after, minted, reply) = scene.step(
                session,
                source,
                config,
                RattyAiCommand::AvatarSpeak { text, from, duration },
                now,
            );
            let id = session.next_handle();
            let long = vstd::utf8::encode_utf8(text@).len() > 1000;
            let wide = from is Some && vstd::utf8::encode_utf8(from->0@).len() > 64;
            let lasts = pinned(text@, duration);
            let said = UtteranceView {
                id,
                namespace: source.slot(),
                text: text@,
                from: match from {
                    Some(from) => Some(from@),
                    None => None,
                },
                duration: lasts->Ok_0,
            };
            let turn = scene.speech.admission(said, now);
            &&& after.shown == scene.shown && after.anchor == scene.anchor && after.gesture
                == scene.gesture && after.scale == scene.scale
            &&& scene.shown && !long && !wide && lasts is Ok ==> minted == session.after_mint() && (
            match turn {
                Ok((speech, SpeakAdmission::Started)) => after.speech == speech && (
                reply matches Some(ReplyView::LongRunning(code, handle)) && code == Code::Started
                    && handle.id == id && handle.position == 0 && handle.eta == Eta::Millis(0)),
                Ok((speech, SpeakAdmission::Queued { position, eta })) => after.speech == speech && (
                reply matches Some(ReplyView::LongRunning(code, handle)) && code == Code::Queued
                    && handle.id == id && handle.position == position && handle.eta == Eta::Millis(
                    (eta / 1_000_000) as u64,
                )),
                Err(refusal) => after == scene && (
                reply matches Some(ReplyView::Refused(action, code, _)) && action
                    == "avatar.speak"@ && code == refusal.0),
            })
            &&& !(scene.shown && !long && !wide && lasts is Ok) ==> after == scene && minted
                == session && (reply matches Some(ReplyView::Refused(action, code, _)) && action
                == "avatar.speak"@ && code == (if !scene.shown {
                Code::NothingActive
            } else if long {
                Code::TextTooLong
            } else if wide {
                Code::TooLarge
            } else {
                Code::BadPayload
            }))
        }),
{
}

/// Stopping and cancelling are the caller's own; a handle of another session is
/// not known. Clearing one's own needs no leave, and clearing others' does.
pub proof fn law_speech_is_taken_back_as_asked(
    scene: AvatarScene,
    session: SessionState,
    source: IngressSource,
    config: AppConfig,
    execution_id: String,
    scope: SpeechClearScope,
    now: u64,
)
    ensures
        ({
            let (stopped, _, stop) = scene.step(
                session,
                source,
                config,
                RattyAiCommand::AvatarStopSpeaking,
                now,
            );
            let (cancelled, _, cancel) = scene.step(
                session,
                source,
                config,
                RattyAiCommand::AvatarCancel { execution_id },
                now,
            );
            let (cleared, _, clear) = scene.step(
                session,
                source,
                config,
                RattyAiCommand::AvatarSpeechClear { scope },
                now,
            );
            let own = source.slot();
            &&& match scene.speech.stop_speaking(own) {
                Ok(speech) => stop == Some(ReplyView::Commit) && stopped == (AvatarScene {
                    speech,
                    ..scene
                }),
                Err(refusal) => stopped == scene && (
                stop matches Some(ReplyView::Refused(action, code, _)) && action == "avatar.stop"@
                    && code == refusal.0),
            }
            &&& !session.owns(execution_id@) ==> cancelled == scene && (
            cancel matches Some(ReplyView::Refused(action, code, _)) && action == "avatar.cancel"@
                && code == Code::UnknownId)
            &&& session.owns(execution_id@) ==> match scene.speech.cancel(own, execution_id@) {
                Ok(speech) => cancel == Some(ReplyView::Commit) && cancelled == (AvatarScene {
                    speech,
                    ..scene
                }),
                Err(refusal) => cancelled == scene && (
                cancel matches Some(ReplyView::Refused(action, code, _)) && action
                    == "avatar.cancel"@ && code == refusal.0),
            }
            &&& scope is Own ==> clear == Some(ReplyView::Commit) && cleared.speech
                == scene.speech.clear_namespace(own)
            &&& scope matches SpeechClearScope::Namespace(whose) ==> (if whose == own
                || config.trust.local.avatar_scene {
                clear == Some(ReplyView::Commit) && cleared.speech == scene.speech.clear_namespace(
                    whose,
                )
            } else {
                cleared == scene && (clear matches Some(ReplyView::Refused(_, code, _)) && code
                    == Code::NotPermitted)
            })
            &&& scope is All ==> (if config.trust.local.avatar_scene {
                clear == Some(ReplyView::Commit) && cleared.speech.active is None
                    && cleared.speech.waiting.len() == 0
            } else {
                cleared == scene && (clear matches Some(ReplyView::Refused(_, code, _)) && code
                    == Code::NotPermitted)
            })
        }),
{
}

/// Commands take effect one by one, in their order.
pub proof fn law_avatar_commands_run_in_order(
    scene: AvatarScene,
    session: SessionState,
    log: LogState,
    config: AppConfig,
    commands: Seq<AiCommand>,
    last: AiCommand,
    now: u64,
)
    ensures
        avatar_run(scene, session, log, config, Seq::empty(), now) == (scene, session, log),
        ({
            let (before, minted, said) = avatar_run(scene, session, log, config, commands, now);
            let (after, more, reply) = before.step(minted, last.source, config, last.command, now);
            avatar_run(scene, session, log, config, commands.push(last), now) == (
                after,
                more,
                said.answered(last.source, token_view(last.ack_token), reply),
            )
        }),
{
    assert(commands.push(last).drop_last() =~= commands);
}

/// Refusals say why: they name what is not known, and how long what is too long
/// is.
pub proof fn law_avatar_refusals_say_why(
    scene: AvatarScene,
    session: SessionState,
    source: IngressSource,
    config: AppConfig,
    name: String,
    text: String,
    from: Option<String>,
    now: u64,
)
    ensures
        scene.step(
            session,
            source,
            config,
            RattyAiCommand::AvatarGesture { gesture: name },
            now,
        ).2 matches Some(ReplyView::Refused(_, code, message)) ==> (code == Code::UnknownGesture
            ==> message == "gesture '"@ + name@
            + "' is not a named choreography (bob, tilt, lean, nod, spin)"@),
        scene.step(
            session,
            source,
            config,
            RattyAiCommand::AvatarSpeak { text, from, duration: None },
            now,
        ).2 matches Some(ReplyView::Refused(_, code, message)) ==> (code == Code::TextTooLong
            ==> message == "utterance text is "@ + decimal(vstd::utf8::encode_utf8(text@).len())
            + " bytes, over the 1000-byte cap"@) && (code == Code::TooLarge ==> message
            == "from label is "@ + decimal(vstd::utf8::encode_utf8(from->0@).len())
            + " bytes, over the 64-byte cap"@),
        scene.step(
            session,
            source,
            config,
            RattyAiCommand::AvatarSet {
                model: Some(name),
                position: Some(text),
                dx: None,
                dy: None,
                scale: None,
            },
            now,
        ).2 matches Some(ReplyView::Refused(_, code, message)) ==> (code == Code::UnknownModel
            ==> message == "model '"@ + name@
            + "' is not a registered avatar model (registry: mascot)"@) && (code
            == Code::UnknownAnchor ==> message == "position '"@ + text@
            + "' is not one of the nine named anchors"@),
{
}

/// The mascot is the one model.
pub proof fn law_the_mascot_is_the_one_model()
    ensures
        mascot().id@ == "mascot"@,
        mascot().file@ == "SpinyMouse.glb"@,
        mascot().embedded_url@ == "embedded://objects/SpinyMouse.glb"@,
        mascot().scale.bits == 0x3f80_0000,
{
}

} // verus!
