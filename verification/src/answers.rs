//! Who answers a command.
//!
//! Every command goes by every organ, and each organ acts on it by itself. A
//! command that carries a token is nevertheless answered once.

use vstd::prelude::*;
use crate::ai::AiCommand;
use crate::avatar::AvatarScene;
use crate::bookmarks::BookmarkWorld;
use crate::config::AppConfig;
use crate::effects::AiEffects;
use crate::macros::{macro_step, MacrosState, TrustedState};
use crate::number::Single;
use crate::objects::{object_seat, AssetLoad, CursorDefaults, ObjectWorld};
use crate::osc::RattyAiCommand;
use crate::query::{ReplyView, SessionState};
use crate::scene::TerminalPresentationMode;
use crate::stage::{stage_seat, StageWorld};

verus! {

/// Who answers a command.
pub enum Organ {
    /// The stage.
    Stage,
    /// Objects and cursor.
    Objects,
    /// Effects.
    Effects,
    /// Bookmarks.
    Bookmarks,
    /// Macros.
    Macros,
    /// The avatar.
    Avatar,
    /// Nobody here.
    Elsewhere,
}

/// The organ that answers a command. A reset concerns them all, and is the
/// stage's to answer.
pub open spec fn organ_of(command: RattyAiCommand) -> Organ {
    match command {
        RattyAiCommand::SetMode { .. } => Organ::Stage,
        RattyAiCommand::SetWarp { .. } => Organ::Stage,
        RattyAiCommand::Reset => Organ::Stage,
        RattyAiCommand::SpawnObject { .. } => Organ::Objects,
        RattyAiCommand::RemoveObject { .. } => Organ::Objects,
        RattyAiCommand::ClearObjects => Organ::Objects,
        RattyAiCommand::UpdateObject { .. } => Organ::Objects,
        RattyAiCommand::UpdateCursor { .. } => Organ::Objects,
        RattyAiCommand::Flash { .. } => Organ::Effects,
        RattyAiCommand::Pulse { .. } => Organ::Effects,
        RattyAiCommand::Tint { .. } => Organ::Effects,
        RattyAiCommand::Think { .. } => Organ::Effects,
        RattyAiCommand::Confidence { .. } => Organ::Effects,
        RattyAiCommand::Mood { .. } => Organ::Effects,
        RattyAiCommand::Bookmark { .. } => Organ::Bookmarks,
        RattyAiCommand::BookmarkJump { .. } => Organ::Bookmarks,
        RattyAiCommand::MacroRecord { .. } => Organ::Macros,
        RattyAiCommand::MacroStop => Organ::Macros,
        RattyAiCommand::MacroPlay { .. } => Organ::Macros,
        RattyAiCommand::MacroExport { .. } => Organ::Macros,
        RattyAiCommand::MacroRun { .. } => Organ::Macros,
        RattyAiCommand::AvatarSet { .. } => Organ::Avatar,
        RattyAiCommand::AvatarShow => Organ::Avatar,
        RattyAiCommand::AvatarHide => Organ::Avatar,
        RattyAiCommand::AvatarGesture { .. } => Organ::Avatar,
        RattyAiCommand::AvatarSpeak { .. } => Organ::Avatar,
        RattyAiCommand::AvatarStopSpeaking => Organ::Avatar,
        RattyAiCommand::AvatarCancel { .. } => Organ::Avatar,
        RattyAiCommand::AvatarSpeechClear { .. } => Organ::Avatar,
        _ => Organ::Elsewhere,
    }
}

/// Everything that the organs decide an answer by.
pub struct Organs {
    /// The stage.
    pub stage: StageWorld,
    /// Objects and cursor.
    pub objects: ObjectWorld,
    /// The effects.
    pub effects: AiEffects,
    /// The bookmarks.
    pub bookmarks: BookmarkWorld,
    /// The macros of the terminal that the command came through.
    pub macros: MacrosState,
    /// The trusted macros and the scene lock.
    pub registry: TrustedState,
    /// The avatar.
    pub avatar: AvatarScene,
    /// The session that handles are minted in.
    pub session: SessionState,
    /// The settings.
    pub config: AppConfig,
    /// The configured cursor.
    pub cursor: CursorDefaults,
    /// How the scene is presented.
    pub mode: TerminalPresentationMode,
    /// The warp of the surface.
    pub warp: Single,
    /// Seconds since the recording began.
    pub elapsed: Single,
}

impl Organs {
    /// What an organ answers to a command, if anything.
    pub open spec fn answer(self, organ: Organ, entry: AiCommand, asset: AssetLoad, now: u64) -> Option<
        ReplyView,
    > {
        match organ {
            Organ::Stage => self.stage.step(entry.source, entry.command).1,
            Organ::Objects => self.objects.step(entry.source, entry.command, asset, self.cursor).1,
            Organ::Effects => match self.effects.step(entry.command) {
                Some((_, reply)) => reply,
                None => None,
            },
            Organ::Bookmarks => self.bookmarks.step(
                entry.source,
                entry.command,
                self.mode,
                self.warp,
            ).1,
            Organ::Macros => macro_step(
                self.macros,
                self.elapsed,
                self.registry,
                self.session,
                entry,
                now,
            ).3,
            Organ::Avatar => self.avatar.step(
                self.session,
                entry.source,
                self.config,
                entry.command,
                now,
            ).2,
            Organ::Elsewhere => None,
        }
    }
}

/// A command is answered by one organ alone, whatever the others make of it.
pub proof fn law_only_its_organ_answers(
    organs: Organs,
    organ: Organ,
    entry: AiCommand,
    asset: AssetLoad,
    now: u64,
)
    requires
        organ != organ_of(entry.command),
    ensures
        organs.answer(organ, entry, asset, now) is None,
{
}

/// A command from a live terminal is answered: committed, begun or refused.
/// An object's asset must have been looked for.
pub proof fn law_its_organ_answers(
    organs: Organs,
    entry: AiCommand,
    asset: AssetLoad,
    now: u64,
)
    requires
        !(organ_of(entry.command) is Elsewhere),
        stage_seat(organs.stage.seats, entry.source.terminal_id()) is Some,
        object_seat(organs.objects.seats, entry.source.terminal_id()) is Some,
        entry.command is SpawnObject ==> !(asset is Unneeded),
    ensures
        organs.answer(organ_of(entry.command), entry, asset, now) is Some,
{
}

} // verus!
