//! Every command goes by every organ, and is answered once.

use ratty::ai::{AiCommand, CommandOrigin};
use ratty::avatar::{apply_avatar_commands, AvatarState};
use ratty::bookmarks::{apply_bookmark_commands, BookmarkRegistry, PendingBookmarkJumps};
use ratty::config::AppConfig;
use ratty::effects::{apply_ai_effect_commands, AiEffects};
use ratty::identity::{terminal_session_state, TerminalIdentity};
use ratty::inline::TerminalInlineObjects;
use ratty::macros::{apply_macro_commands, MacroRegistry, MacroSeat};
use ratty::number::Single;
use ratty::objects::{
    apply_ai_object_commands, AiObjectRegistry, AssetLoad, CursorDefaults, CursorSettings,
    ObjectSeat,
};
use ratty::osc::{RattyAiCommand, SpeechClearScope};
use ratty::query::{QuerySession, ReplyLog};
use ratty::scene::TerminalPresentationMode;
use ratty::stage::{apply_ai_commands, StageSeat};

fn num(x: f32) -> Single {
    Single { bits: x.to_bits() }
}

fn text(x: &str) -> String {
    x.to_string()
}

fn owned_commands() -> Vec<RattyAiCommand> {
    vec![
        RattyAiCommand::SetMode { mode: text("3d") },
        RattyAiCommand::SetMode { mode: text("cube") },
        RattyAiCommand::SetWarp { intensity: num(0.5) },
        RattyAiCommand::Reset,
        RattyAiCommand::Flash { color: text("#fff"), duration: num(0.5) },
        RattyAiCommand::Pulse { intensity: num(0.5), duration: num(0.5) },
        RattyAiCommand::Tint { color: text("#fff"), opacity: num(0.5) },
        RattyAiCommand::Think { state: text("start") },
        RattyAiCommand::Confidence { level: num(0.5) },
        RattyAiCommand::Mood { mood: text("focused") },
        RattyAiCommand::SpawnObject {
            id: 0x8000_0001,
            path: text("rat.obj"),
            x: 0,
            y: 0,
            scale: num(1.0),
            spin: num(0.0),
            brightness: num(1.0),
            replace: false,
        },
        RattyAiCommand::UpdateObject {
            id: 0x8000_0001,
            x: None,
            y: None,
            scale: None,
            spin: None,
            brightness: None,
        },
        RattyAiCommand::RemoveObject { id: 0x8000_0001 },
        RattyAiCommand::ClearObjects,
        RattyAiCommand::UpdateCursor {
            model: None,
            spin: None,
            bob_speed: None,
            bob_amp: None,
            brightness: None,
            visible: Some(false),
        },
        RattyAiCommand::Bookmark { name: text("a"), replace: false },
        RattyAiCommand::BookmarkJump { name: text("b") },
        RattyAiCommand::MacroRecord { name: text("m"), replace: false },
        RattyAiCommand::MacroStop,
        RattyAiCommand::MacroPlay {
            name: text("m"),
            hash: None,
            rate: num(1.0),
            instant: false,
            scope: None,
        },
        RattyAiCommand::MacroExport { name: text("m"), to: text("x") },
        RattyAiCommand::MacroRun { path: text("x") },
        RattyAiCommand::AvatarSet {
            model: None,
            position: None,
            dx: None,
            dy: None,
            scale: None,
        },
        RattyAiCommand::AvatarShow,
        RattyAiCommand::AvatarHide,
        RattyAiCommand::AvatarGesture { gesture: text("nod") },
        RattyAiCommand::AvatarSpeak { text: text("hi"), from: None, duration: None },
        RattyAiCommand::AvatarStopSpeaking,
        RattyAiCommand::AvatarCancel { execution_id: text("x") },
        RattyAiCommand::AvatarSpeechClear { scope: SpeechClearScope::All },
    ]
}

/// How often a command with a token is answered, all organs together.
fn answers(command: RattyAiCommand) -> usize {
    let identity = TerminalIdentity::test_boot();
    let mut log = ReplyLog::new();
    let mut session = QuerySession::new("0badcafe");
    let asset = match command {
        RattyAiCommand::SpawnObject { .. } => AssetLoad::Failed(text("no such asset")),
        _ => AssetLoad::Unneeded,
    };
    let commands = vec![AiCommand {
        source: identity.ingress(),
        ack_token: Some(text("t")),
        origin: CommandOrigin::Wire,
        command,
    }];

    let mut seats = vec![MacroSeat {
        identity,
        macros: terminal_session_state().macros,
        elapsed: num(0.0),
        position: num(0.0),
    }];
    let mut macros = MacroRegistry::new();
    apply_macro_commands(&commands, &mut macros, &mut seats, &mut session, &mut log, 0);

    let mut bookmarks = BookmarkRegistry::new();
    let mut jumps = PendingBookmarkJumps { jumps: Vec::new() };
    apply_bookmark_commands(
        &commands,
        &mut bookmarks,
        TerminalPresentationMode::Flat2d,
        num(0.0),
        &mut jumps,
        &mut log,
    );

    let mut stage = vec![StageSeat { identity, warp: num(0.0), redraw: false }];
    apply_ai_commands(&commands, &mut stage, &mut log);

    let defaults = CursorDefaults {
        spin_speed: num(1.0),
        bob_speed: num(1.0),
        bob_amplitude: num(1.0),
        brightness: num(1.0),
        visible: true,
    };
    let mut objects =
        vec![ObjectSeat { identity, objects: TerminalInlineObjects::new(), redraw: false }];
    apply_ai_object_commands(
        &commands,
        vec![asset],
        &mut objects,
        &mut AiObjectRegistry::new(),
        &mut CursorSettings::new(defaults),
        defaults,
        &mut Vec::new(),
        &mut log,
    );

    apply_ai_effect_commands(&commands, &mut AiEffects::new(), &mut log);

    let mut avatar = AvatarState::default();
    apply_avatar_commands(
        &commands,
        &mut avatar,
        &AppConfig::default(),
        &mut session,
        &mut log,
        0,
    );
    log.acks.len()
}

#[test]
fn every_owned_command_is_answered_once() {
    for command in owned_commands() {
        let name = format!("{command:?}");
        assert_eq!(answers(command), 1, "{name}");
    }
}

#[test]
fn commands_of_other_organs_are_not_answered() {
    for command in [
        RattyAiCommand::VizSet { payload: text("p") },
        RattyAiCommand::SoundPlay { payload: text("p") },
        RattyAiCommand::RuleSet { payload: text("p") },
        RattyAiCommand::SensorPublish { payload: text("p") },
        RattyAiCommand::NoteRemove { id: text("n") },
    ] {
        let name = format!("{command:?}");
        assert_eq!(answers(command), 0, "{name}");
    }
}

#[test]
fn sessions_are_born_fresh() {
    let session = terminal_session_state();
    assert_eq!(session.macros.session_len(), 0);
    assert!(!session.macros.is_busy());
    assert!(!session.effects.animating());
}
