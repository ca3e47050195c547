//! The wire: escaped payloads, the command line's sequences and their parser.

use ratty::cli::{dry_run_text, emit, emit_command, Commands, GestureArg, SoundKind, ThinkArg};
use ratty::effects::Mood;
use ratty::number::Single;
use ratty::osc_parser::{parse_osc_777, NumberField, RattyAiCommand};
use ratty::query::QuerySession;
use ratty::url::{url_decode, url_encode};

#[test]
fn escaping_reads_back() {
    for text in ["", "plain", "a b;c=d%", "grüße ✓", "~-_.", "\n\t"] {
        let escaped = url_encode(text);
        assert!(escaped.bytes().all(|byte| byte.is_ascii_graphic()), "{escaped}");
        assert!(!escaped.contains(';'));
        assert_eq!(url_decode(&escaped).as_deref(), Some(text));
    }
    assert_eq!(url_encode("a b"), "a%20b");
    assert_eq!(url_decode("%e2%9c%93").as_deref(), Some("\u{2713}"));
    // An escape that is none stands for itself.
    assert_eq!(url_decode("100%").as_deref(), Some("100%"));
    assert_eq!(url_decode("%zz").as_deref(), Some("%zz"));
    // What is no text when unescaped is refused.
    assert_eq!(url_decode("%ff"), None);
}

#[test]
fn handles_carry_the_session() {
    let mut session = QuerySession::new("0badcafe");
    assert_eq!(session.nonce_hex(), "0badcafe");
    let first = session.mint_execution_id();
    let second = session.mint_execution_id();
    assert_ne!(first, second);
    assert!(first.starts_with("0badcafe-"));
    assert!(session.owns_execution_id(&first));
    assert!(!session.owns_execution_id("deadbeef-1"));
}

/// What the terminal reads of a sequence: what stands between the number and
/// the terminator.
fn data_of(sequence: &str) -> &str {
    sequence
        .strip_prefix("\u{1b}];777;")
        .and_then(|rest| rest.strip_suffix('\u{7}'))
        .expect("a whole sequence")
}

fn sent(command: &Commands) -> RattyAiCommand {
    let (action, payload) = emit_command(command);
    let sequence = emit(action, &payload);
    parse_osc_777(data_of(&sequence)).expect("the terminal reads it")
}

fn text(field: &NumberField) -> Option<&str> {
    field.text.as_deref()
}

#[test]
fn sequences_are_framed_and_escaped() {
    assert_eq!(emit("mode", "3d"), "\u{1b}];777;ratty:mode;3d\u{7}");
    assert_eq!(
        emit("note", "text=a b&x=1"),
        "\u{1b}];777;ratty:note;text%3Da%20b%26x%3D1\u{7}"
    );
    assert_eq!(
        dry_run_text(&emit("reset", "")),
        "[dry-run] ESC];777;ratty:reset;BEL"
    );
}

#[test]
fn payloads_name_their_fields_in_order() {
    let (action, payload) = emit_command(&Commands::ObjectAdd {
        path: "rat.obj".to_string(),
        x: 3,
        y: 4,
        scale: "1.00".to_string(),
        spin: "0.00".to_string(),
        brightness: "1.00".to_string(),
        remesh: true,
    });
    assert_eq!(action, "object.add");
    assert_eq!(
        payload,
        "path=rat.obj&x=3&y=4&scale=1.00&spin=0.00&brightness=1.00&remesh=true"
    );
    assert_eq!(
        emit_command(&Commands::ObjectUpdate {
            id: 7,
            x: None,
            y: Some(2),
            scale: None,
            spin: Some("0.50".to_string()),
            brightness: None,
        }),
        ("object.update", "id=7&y=2&spin=0.50".to_string())
    );
    assert_eq!(
        emit_command(&Commands::Warp { intensity: "0.50".to_string() }),
        ("warp", "0.50".to_string())
    );
    assert_eq!(
        emit_command(&Commands::Think { state: ThinkArg::Toggle }),
        ("think", "state=toggle".to_string())
    );
    assert_eq!(
        emit_command(&Commands::Mood { mood: Mood::Cautious }),
        ("mood", "mood=cautious".to_string())
    );
    assert_eq!(
        emit_command(&Commands::Sound { kind: SoundKind::Notify, loop_sound: false }),
        ("sound", "kind=notify&loop=false".to_string())
    );
    assert_eq!(
        emit_command(&Commands::AvatarGesture { gesture: GestureArg::Nod }),
        ("avatar.gesture", "gesture=nod".to_string())
    );
    assert_eq!(emit_command(&Commands::MacroStop), ("macro.stop", String::new()));
}

#[test]
fn think_flags_choose_the_state() {
    assert_eq!(ThinkArg::from_flags(true, true), ThinkArg::Start);
    assert_eq!(ThinkArg::from_flags(false, true), ThinkArg::End);
    assert_eq!(ThinkArg::from_flags(false, false), ThinkArg::Toggle);
}

#[test]
fn commands_read_back() {
    match sent(&Commands::Note {
        text: "grüße; ✓".to_string(),
        x: 3,
        y: 4,
        expires: "2h".to_string(),
    }) {
        RattyAiCommand::Note { text, x, y, expires } => {
            assert_eq!((text.as_str(), x, y, expires.as_str()), ("grüße; ✓", 3, 4, "2h"));
        }
        other => panic!("a note, not {other:?}"),
    }
    match sent(&Commands::ObjectAdd {
        path: "rat.obj".to_string(),
        x: 65_535,
        y: 0,
        scale: "1.50".to_string(),
        spin: "0.00".to_string(),
        brightness: "1.00".to_string(),
        remesh: true,
    }) {
        RattyAiCommand::SpawnObject { path, x, y, scale, remesh, .. } => {
            assert_eq!((path.as_str(), x, y, remesh), ("rat.obj", 65_535, 0, true));
            assert_eq!(text(&scale), Some("1.50"));
            assert_eq!(scale.fallback, Single { bits: 1.0_f32.to_bits() });
        }
        other => panic!("an object, not {other:?}"),
    }
    match sent(&Commands::Resize { pane: 2, width: Some(80), height: None }) {
        RattyAiCommand::ResizePane { pane, width, height } => {
            assert_eq!((pane, width, height), (2, Some(80), None));
        }
        other => panic!("a resize, not {other:?}"),
    }
    assert!(matches!(
        sent(&Commands::GitStash { visualize: true }),
        RattyAiCommand::GitStash { visualize: true }
    ));
    assert!(matches!(sent(&Commands::Reset), RattyAiCommand::Reset));
    // A warp is written without a name, and reads back as the fallback.
    match sent(&Commands::Warp { intensity: "0.50".to_string() }) {
        RattyAiCommand::SetWarp { intensity } => assert_eq!(text(&intensity), None),
        other => panic!("a warp, not {other:?}"),
    }
}

#[test]
fn what_is_no_command_is_refused() {
    assert!(parse_osc_777("other:mode;3d").is_none());
    assert!(parse_osc_777("ratty:nonsense;").is_none());
    assert!(parse_osc_777("ratty:mode;%ff").is_none());
    // A field that has to be there.
    assert!(parse_osc_777("ratty:object.add;x%3D1").is_none());
    assert!(parse_osc_777("ratty:kill;pid%3Dmany").is_none());
    assert!(parse_osc_777("ratty:pane.focus;pane%3D256").is_none());
    // Sequences that only the other end answers.
    assert!(parse_osc_777("ratty:state;").is_none());
    assert!(parse_osc_777("ratty:object.list;").is_none());
}

#[test]
fn missing_fields_have_fallbacks() {
    match parse_osc_777("ratty:tree").expect("it reads") {
        RattyAiCommand::Tree { depth, visualize } => assert_eq!((depth, visualize), (3, false)),
        other => panic!("a tree, not {other:?}"),
    }
    match parse_osc_777("ratty:history;last%3D9%26visualize%3Dtrue").expect("it reads") {
        RattyAiCommand::History { last, visualize } => assert_eq!((last, visualize), (9, true)),
        other => panic!("a history, not {other:?}"),
    }
    match parse_osc_777("ratty:avatar.set;").expect("it reads") {
        RattyAiCommand::AvatarSet { model, position } => {
            assert_eq!((model.as_str(), position.as_str()), ("ai-helper.glb", "top-right"));
        }
        other => panic!("an avatar, not {other:?}"),
    }
    match parse_osc_777("ratty:flash;").expect("it reads") {
        RattyAiCommand::Flash { color, duration } => {
            assert_eq!(color, "#ffffff");
            assert_eq!(text(&duration), None);
            assert_eq!(duration.fallback, Single { bits: 0.5_f32.to_bits() });
        }
        other => panic!("a flash, not {other:?}"),
    }
    // The last of two fields of one name counts.
    match parse_osc_777("ratty:cd;path%3Da%26path%3Db").expect("it reads") {
        RattyAiCommand::Cd { path, .. } => assert_eq!(path, "b"),
        other => panic!("a directory, not {other:?}"),
    }
}
