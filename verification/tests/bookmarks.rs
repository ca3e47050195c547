//! Bookmarks.

use ratty::ai::{AiCommand, CommandOrigin};
use ratty::bookmarks::{
    apply_bookmark_commands, drain_bookmark_jumps, BookmarkRegistry, PendingBookmarkJumps,
    BOOKMARK_VERSION, MAX_BOOKMARKS_PER_NAMESPACE, MAX_BOOKMARK_NAME_BYTES,
};
use ratty::identity::IngressSource;
use ratty::number::Single;
use ratty::osc::RattyAiCommand;
use ratty::query::{Code, ReplyLog};
use ratty::scene::{mode_wire_name, parse_mode, TerminalPresentationMode};

struct App {
    registry: BookmarkRegistry,
    pending: PendingBookmarkJumps,
    mode: TerminalPresentationMode,
    warp: Single,
}

fn num(x: f32) -> Single {
    Single { bits: x.to_bits() }
}

fn test_app() -> App {
    App {
        registry: BookmarkRegistry::new(),
        pending: PendingBookmarkJumps { jumps: Vec::new() },
        mode: TerminalPresentationMode::Flat2d,
        warp: num(0.0),
    }
}

fn send(app: &mut App, command: RattyAiCommand) -> ReplyLog {
    let mut log = ReplyLog::new();
    let commands = vec![AiCommand {
        source: IngressSource::test_boot(),
        ack_token: Some("t".to_string()),
        origin: CommandOrigin::Wire,
        command,
    }];
    apply_bookmark_commands(
        &commands,
        &mut app.registry,
        app.mode,
        app.warp,
        &mut app.pending,
        &mut log,
    );
    log
}

fn send_tok(app: &mut App, command: RattyAiCommand) -> (bool, Option<Code>) {
    let log = send(app, command);
    assert_eq!(log.acks.len(), 1, "exactly one ack per tok= command");
    (log.acks[0].ok, log.acks[0].code)
}

fn bookmark(name: &str, replace: bool) -> RattyAiCommand {
    RattyAiCommand::Bookmark { name: name.to_string(), replace }
}

#[test]
fn bookmarks_limits_are_pinned() {
    assert_eq!(MAX_BOOKMARKS_PER_NAMESPACE, 16);
    assert_eq!(MAX_BOOKMARK_NAME_BYTES, 64);
    assert_eq!(BOOKMARK_VERSION, 1);
}

#[test]
fn wire_names_round_trip_through_the_mode_parser() {
    for mode in [
        TerminalPresentationMode::Flat2d,
        TerminalPresentationMode::Plane3d,
        TerminalPresentationMode::Mobius3d,
    ] {
        let name = mode_wire_name(mode);
        assert_eq!(parse_mode(name), Some(mode), "'{name}' replays onto its own mode");
    }
}

#[test]
fn store_collide_replace_and_jump() {
    let mut app = test_app();
    let (ok, _) = send_tok(&mut app, bookmark("dock", false));
    assert!(ok);
    let (ok, code) = send_tok(&mut app, bookmark("dock", false));
    assert!(!ok);
    assert_eq!(code, Some(Code::AlreadyExists));
    let (ok, _) = send_tok(&mut app, bookmark("dock", true));
    assert!(ok, "mode=replace overwrites");

    let (ok, _) = send_tok(&mut app, RattyAiCommand::BookmarkJump { name: "dock".to_string() });
    assert!(ok);
    let relowered: Vec<String> = drain_bookmark_jumps(&mut app.pending)
        .iter()
        .map(|message| format!("{:?}", message.command))
        .collect();
    assert_eq!(relowered.len(), 2, "{relowered:?}");
    assert!(relowered[0].starts_with("SetMode"), "{relowered:?}");
    assert!(relowered[1].starts_with("SetWarp"), "{relowered:?}");

    let (ok, code) =
        send_tok(&mut app, RattyAiCommand::BookmarkJump { name: "ghost".to_string() });
    assert!(!ok);
    assert_eq!(code, Some(Code::UnknownId));
}

#[test]
fn names_are_validated_and_the_namespace_is_bounded() {
    let mut app = test_app();
    let (ok, code) = send_tok(&mut app, bookmark("", false));
    assert!(!ok);
    assert_eq!(code, Some(Code::BadPayload));
    let (ok, code) =
        send_tok(&mut app, bookmark(&"x".repeat(MAX_BOOKMARK_NAME_BYTES + 1), false));
    assert!(!ok);
    assert_eq!(code, Some(Code::TooLarge));

    for index in 0..MAX_BOOKMARKS_PER_NAMESPACE {
        let (ok, _) = send_tok(&mut app, bookmark(&format!("b{index}"), false));
        assert!(ok);
    }
    let (ok, code) = send_tok(&mut app, bookmark("overflow", false));
    assert!(!ok);
    assert_eq!(code, Some(Code::NamespaceCap));
    let (ok, _) = send_tok(&mut app, bookmark("b0", true));
    assert!(ok, "replace never counts against the cap");
}

#[test]
fn reset_clears_bookmarks_silently() {
    let mut app = test_app();
    let (ok, _) = send_tok(&mut app, bookmark("dock", false));
    assert!(ok);
    let log = send(&mut app, RattyAiCommand::Reset);
    assert!(log.acks.is_empty(), "the bookmark applier never acks reset");
    assert_eq!(app.registry.namespace_len(0), 0, "reset clears every bookmark");
}

#[test]
fn a_jump_replays_the_view_that_was_stored() {
    let mut app = test_app();
    app.mode = TerminalPresentationMode::Mobius3d;
    app.warp = num(2.5);
    send_tok(&mut app, bookmark("there", false));
    app.mode = TerminalPresentationMode::Flat2d;
    app.warp = num(0.0);
    send_tok(&mut app, RattyAiCommand::BookmarkJump { name: "there".to_string() });
    let replayed = drain_bookmark_jumps(&mut app.pending);
    match &replayed[0].command {
        RattyAiCommand::SetMode { mode } => assert_eq!(mode, "mobius"),
        other => panic!("a mode comes first, not {other:?}"),
    }
    match &replayed[1].command {
        RattyAiCommand::SetWarp { intensity } => assert_eq!(*intensity, num(1.0), "clamped"),
        other => panic!("a warp comes second, not {other:?}"),
    }
    assert_eq!(replayed[0].origin, CommandOrigin::Bookmark);
    assert!(replayed[0].ack_token.is_none());
    assert!(drain_bookmark_jumps(&mut app.pending).is_empty());
    let rows = app.registry.iter_namespace(0);
    assert_eq!(rows.len(), 1);
    assert_eq!(rows[0].0, "there");
    assert_eq!(rows[0].1.mode, "mobius");
    assert!(app.registry.get(1, "there").is_none());
}

#[test]
fn refusals_come_with_their_sentences() {
    let mut app = test_app();
    let log = send(&mut app, bookmark("", false));
    assert_eq!(log.diagnostics[0].reject.message, "name= must be non-empty");
    assert_eq!(log.diagnostics[0].action, "bookmark");
    send(&mut app, bookmark("dock", false));
    let log = send(&mut app, bookmark("dock", false));
    assert_eq!(
        log.diagnostics[0].reject.message,
        "bookmark 'dock' exists (pass mode=replace to overwrite it)"
    );
    let log = send(&mut app, RattyAiCommand::BookmarkJump { name: "ghost".to_string() });
    assert_eq!(
        log.diagnostics[0].reject.message,
        "no bookmark 'ghost' in the caller's namespace"
    );
    assert_eq!(log.diagnostics[0].action, "bookmark.jump");
}
