//! Macros: recording, playback, the scene lock and the trusted registry.

use ratty::ai::{AiCommand, CommandOrigin};
use ratty::identity::{IngressSource, TerminalIdentity, TerminalRegistry};
use ratty::macros::{
    apply_macro_commands, content_hash, drive_macro_playback, executions_state_value,
    macros_state_items, Macro, MacroRegistry, MacroSeat, MacroStep, PlaybackEta, TerminalMacros,
    MACRO_VERSION, MAX_COMMANDS_PER_MACRO, MAX_MACROS_PER_NAMESPACE, MAX_MACRO_NAME_BYTES,
    MAX_PLAYBACK_COMMANDS_PER_FRAME,
};
use ratty::number::Single;
use ratty::osc::{MacroScope, RattyAiCommand};
use ratty::query::{AckOutcome, Code, Eta, QuerySession, Reject, ReplyLog};

fn num(x: f32) -> Single {
    Single { bits: x.to_bits() }
}

fn ns0() -> IngressSource {
    IngressSource::test_boot()
}

fn mode(target: &str) -> RattyAiCommand {
    RattyAiCommand::SetMode { mode: target.to_string() }
}

fn spawn(id: u32) -> RattyAiCommand {
    RattyAiCommand::SpawnObject {
        id,
        path: "rat.obj".to_string(),
        x: 0,
        y: 0,
        scale: num(1.0),
        spin: num(0.0),
        brightness: num(1.0),
        replace: false,
    }
}

fn record(seat: &mut TerminalMacros, name: &str, commands: &[RattyAiCommand]) {
    seat.start_recording(ns0(), name, false, 0).expect("the recording starts");
    for command in commands {
        seat.capture(command, num(0.0));
    }
    let released = seat.stop_slot().expect("the recording finalizes");
    assert!(!released, "a recording never holds the scene lock");
}

fn play_as(
    registry: &mut MacroRegistry,
    seat: &mut TerminalMacros,
    origin: CommandOrigin,
    name: &str,
) -> Result<PlaybackEta, Reject> {
    registry.start_playback(
        seat,
        ns0(),
        origin,
        name,
        None,
        num(1.0),
        false,
        None,
        "exec-test".to_string(),
        0,
    )
}

fn play(
    registry: &mut MacroRegistry,
    seat: &mut TerminalMacros,
    name: &str,
) -> Result<PlaybackEta, Reject> {
    play_as(registry, seat, CommandOrigin::Wire, name)
}

/// A fifth terminal, which plays a privileged macro and so holds the scene.
fn foreign_holder(registry: &mut MacroRegistry) -> (TerminalIdentity, TerminalMacros) {
    let mut terminals = TerminalRegistry::new();
    for _ in 0..4 {
        terminals.allocate().expect("a slot is free");
    }
    let identity = terminals.allocate().expect("a slot is free");
    assert_eq!(identity.id().raw(), 5);
    let mut seat = TerminalMacros::new();
    record(&mut seat, "hold", &[mode("3d")]);
    registry
        .start_playback(
            &mut seat,
            identity.ingress(),
            CommandOrigin::Wire,
            "hold",
            None,
            num(1.0),
            false,
            None,
            "exec-foreign".to_string(),
            0,
        )
        .expect("the scene is free");
    assert_eq!(registry.scene_lock(), Some(identity.id()));
    (identity, seat)
}

struct App {
    seats: Vec<MacroSeat>,
    registry: MacroRegistry,
    session: QuerySession,
    log: ReplyLog,
    stream: Vec<AiCommand>,
}

fn app_test() -> App {
    App {
        seats: vec![MacroSeat {
            identity: TerminalIdentity::test_boot(),
            macros: TerminalMacros::new(),
            elapsed: num(0.0),
            position: num(0.0),
        }],
        registry: MacroRegistry::new(),
        session: QuerySession::new("0badcafe"),
        log: ReplyLog::new(),
        stream: Vec::new(),
    }
}

fn send_as(app: &mut App, ack: Option<&str>, origin: CommandOrigin, command: RattyAiCommand) {
    let commands = vec![AiCommand {
        source: ns0(),
        ack_token: ack.map(str::to_string),
        origin,
        command,
    }];
    apply_macro_commands(
        &commands,
        &mut app.registry,
        &mut app.seats,
        &mut app.session,
        &mut app.log,
        0,
    );
    app.stream.extend(commands);
    app.stream.extend(drive_macro_playback(&mut app.seats, &mut app.registry));
}

fn send(app: &mut App, ack: Option<&str>, command: RattyAiCommand) {
    send_as(app, ack, CommandOrigin::Wire, command);
}

fn drain_acks(app: &mut App) -> Vec<AckOutcome> {
    std::mem::take(&mut app.log.acks)
}

fn session_steps(app: &App, name: &str) -> Option<usize> {
    app.registry.resolve(&app.seats[0].macros, name, None).map(|(_, stored)| stored.step_count())
}

#[test]
fn macros_limits_are_pinned() {
    assert_eq!(MAX_MACROS_PER_NAMESPACE, 32);
    assert_eq!(MAX_MACRO_NAME_BYTES, 64);
    assert_eq!(MAX_COMMANDS_PER_MACRO, 256);
    assert_eq!(MAX_PLAYBACK_COMMANDS_PER_FRAME, 64);
    assert_eq!(MACRO_VERSION, 1);
}

#[test]
fn record_capture_stop_preserves_relative_deltas() {
    let mut registry = MacroRegistry::default();
    let mut seat = TerminalMacros::default();
    seat.start_recording(ns0(), "deploy", false, 0).expect("record starts");
    seat.capture(&spawn(0x8000_0001), num(0.0));
    seat.capture(&spawn(0x8000_0002), num(1.5));
    registry.stop(&mut seat, ns0()).expect("finalize");

    let (_, stored) = registry.resolve(&seat, "deploy", None).expect("stored");
    assert_eq!(stored.step_count(), 2);
    assert!(!stored.is_privileged(), "no scene-global command captured");
    assert_eq!(stored.step(0).offset, num(0.0));
    assert_eq!(stored.step(1).offset, num(1.5));
}

#[test]
fn control_plane_is_never_captured() {
    let mut registry = MacroRegistry::default();
    let mut seat = TerminalMacros::default();
    seat.start_recording(ns0(), "m", false, 0).expect("registry op ok");
    // A command of the control plane is not stored, though it comes directly.
    seat.capture(&RattyAiCommand::NoteRemove { id: "n1".to_string() }, num(0.0));
    assert_eq!(seat.execution_view().expect("recording").commands, 0);
    // A scene-global command records and marks the macro privileged.
    seat.capture(&mode("3d"), num(0.0));
    registry.stop(&mut seat, ns0()).expect("registry op ok");
    let (_, stored) = registry.resolve(&seat, "m", None).expect("registry op ok");
    assert_eq!(stored.step_count(), 1);
    assert!(stored.is_privileged(), "mode is scene-global");
}

#[test]
fn avatar_commands_classify_and_filter_like_their_classes() {
    let mut registry = MacroRegistry::default();
    let mut seat = TerminalMacros::default();
    record(
        &mut seat,
        "scene",
        &[RattyAiCommand::AvatarSet {
            model: Some("mascot".to_string()),
            position: None,
            dx: None,
            dy: None,
            scale: None,
        }],
    );
    let (_, scene) = registry.resolve(&seat, "scene", None).expect("stored");
    assert!(scene.is_privileged(), "avatar.set is privileged");

    record(
        &mut seat,
        "speech",
        &[RattyAiCommand::AvatarSpeak { text: "hi".to_string(), from: None, duration: None }],
    );
    let (_, speech) = registry.resolve(&seat, "speech", None).expect("stored");
    assert!(!speech.is_privileged(), "speak is ownership-scoped");
    assert!(!speech.is_rule_safe(), "speak consumes the shared voice");

    record(&mut seat, "cancelier", &[RattyAiCommand::AvatarStopSpeaking]);
    let cancelier = registry.resolve(&seat, "cancelier", None).expect("stored").1.clone();
    assert_eq!(
        registry
            .insert_trusted("t".to_string(), &cancelier)
            .expect_err("execution control refused"),
        "a trusted macro may not contain execution-control commands"
    );
}

#[test]
fn single_slot_rejects_busy() {
    let mut registry = MacroRegistry::default();
    let mut seat = TerminalMacros::default();
    seat.start_recording(ns0(), "a", false, 0).expect("registry op ok");
    let reject = seat.start_recording(ns0(), "b", false, 0).expect_err("second op is busy");
    assert_eq!(reject.code, Code::Busy);
    let reject = play(&mut registry, &mut seat, "a").expect_err("play while recording is busy");
    assert_eq!(reject.code, Code::Busy);
}

#[test]
fn collision_rule_and_transactional_replace() {
    let mut registry = MacroRegistry::default();
    let mut seat = TerminalMacros::default();
    seat.start_recording(ns0(), "x", false, 0).expect("registry op ok");
    seat.capture(&spawn(0x8000_0001), num(0.0));
    registry.stop(&mut seat, ns0()).expect("registry op ok");

    // Same name without replace: rejected.
    let reject = seat.start_recording(ns0(), "x", false, 0).expect_err("already exists");
    assert_eq!(reject.code, Code::AlreadyExists);

    // Replace: the old macro survives until the new one finalizes.
    seat.start_recording(ns0(), "x", true, 0).expect("registry op ok");
    assert_eq!(
        registry.resolve(&seat, "x", None).expect("registry op ok").1.step_count(),
        1,
        "old version is intact mid-recording"
    );
    seat.capture(&spawn(0x8000_0002), num(0.0));
    seat.capture(&spawn(0x8000_0003), num(0.0));
    registry.stop(&mut seat, ns0()).expect("registry op ok");
    assert_eq!(
        registry.resolve(&seat, "x", None).expect("registry op ok").1.step_count(),
        2,
        "finalize swaps to the new version"
    );
}

#[test]
fn cancelled_replace_preserves_the_old_version() {
    let mut registry = MacroRegistry::default();
    let mut seat = TerminalMacros::default();
    seat.start_recording(ns0(), "x", false, 0).expect("registry op ok");
    seat.capture(&spawn(0x8000_0001), num(0.0));
    registry.stop(&mut seat, ns0()).expect("registry op ok");
    let old_hash =
        registry.resolve(&seat, "x", None).expect("registry op ok").1.hash().to_string();

    // A replace recording that never finalizes leaves the old version untouched.
    seat.start_recording(ns0(), "x", true, 0).expect("registry op ok");
    for index in 0..=MAX_COMMANDS_PER_MACRO as u32 {
        seat.capture(&spawn(0x8000_0100 + index), num(0.0));
    }
    let reject = registry.stop(&mut seat, ns0()).expect_err("poisoned recording");
    assert_eq!(reject.code, Code::TooLarge);
    assert_eq!(
        registry.resolve(&seat, "x", None).expect("registry op ok").1.hash(),
        old_hash,
        "the discarded replace never touched the stored macro"
    );
}

#[test]
fn namespace_cap_is_enforced_at_record_start() {
    let mut registry = MacroRegistry::default();
    let mut seat = TerminalMacros::default();
    for index in 0..MAX_MACROS_PER_NAMESPACE {
        seat.start_recording(ns0(), &format!("m{index}"), false, 0).expect("registry op ok");
        registry.stop(&mut seat, ns0()).expect("registry op ok");
    }
    let reject = seat.start_recording(ns0(), "overflow", false, 0).expect_err("at the cap");
    assert_eq!(reject.code, Code::NamespaceCap);
    // Replacing an existing name at the cap is not a new slot.
    seat.start_recording(ns0(), "m0", true, 0).expect("registry op ok");
}

#[test]
fn name_validation() {
    let mut seat = TerminalMacros::default();
    let reject = seat.start_recording(ns0(), "", false, 0).expect_err("empty");
    assert_eq!(reject.code, Code::BadPayload);
    let reject = seat
        .start_recording(ns0(), &"x".repeat(MAX_MACRO_NAME_BYTES + 1), false, 0)
        .expect_err("too long");
    assert_eq!(reject.code, Code::TooLarge);
}

#[test]
fn stop_when_idle_is_nothing_active() {
    let mut registry = MacroRegistry::default();
    let mut seat = TerminalMacros::default();
    let reject = registry.stop(&mut seat, ns0()).expect_err("nothing to stop");
    assert_eq!(reject.code, Code::NothingActive);
}

#[test]
fn playback_collects_due_steps_and_finishes() {
    let mut registry = MacroRegistry::default();
    let mut seat = TerminalMacros::default();
    seat.start_recording(ns0(), "seq", false, 0).expect("registry op ok");
    seat.capture(&spawn(0x8000_0001), num(0.0));
    seat.capture(&spawn(0x8000_0002), num(1.0));
    seat.capture(&spawn(0x8000_0003), num(2.0));
    registry.stop(&mut seat, ns0()).expect("registry op ok");

    registry
        .start_playback(
            &mut seat,
            ns0(),
            CommandOrigin::Wire,
            "seq",
            None,
            num(1.0),
            false,
            None,
            "exec-test".to_string(),
            10_000_000_000,
        )
        .expect("registry op ok");
    // At +0.0 only the first step is due.
    assert_eq!(seat.collect_due(num(0.0), 64).len(), 1);
    // At +1.5 the second is due, not the third.
    assert_eq!(seat.collect_due(num(1.5), 64).len(), 1);
    assert!(!seat.playback().expect("playing").finished());
    // At +2.0 the third is due; playback is drained.
    assert_eq!(seat.collect_due(num(2.0), 64).len(), 1);
    assert!(seat.playback().expect("playing").finished());
}

#[test]
fn instant_playback_ignores_timing_but_respects_budget() {
    let mut registry = MacroRegistry::default();
    let mut seat = TerminalMacros::default();
    seat.start_recording(ns0(), "big", false, 0).expect("registry op ok");
    for index in 0..5_u32 {
        seat.capture(&spawn(0x8000_0001 + index), num(index as f32));
    }
    registry.stop(&mut seat, ns0()).expect("registry op ok");
    let eta = registry
        .start_playback(
            &mut seat,
            ns0(),
            CommandOrigin::Wire,
            "big",
            None,
            num(1.0),
            true,
            None,
            "exec-test".to_string(),
            0,
        )
        .expect("registry op ok");
    assert!(matches!(eta, PlaybackEta::Frames(1)));
    // Instant ignores offsets; a budget of 2 caps the frame's emission.
    assert_eq!(seat.collect_due(num(0.0), 2).len(), 2);
    assert_eq!(seat.collect_due(num(0.0), 64).len(), 3, "the rest next frame");
    assert!(seat.playback().expect("playing").finished());
}

#[test]
fn rate_is_validated() {
    let mut registry = MacroRegistry::default();
    let mut seat = TerminalMacros::default();
    seat.start_recording(ns0(), "m", false, 0).expect("registry op ok");
    registry.stop(&mut seat, ns0()).expect("registry op ok");
    for bad in [0.0, -1.0, f32::NAN, f32::INFINITY] {
        let reject = registry
            .start_playback(
                &mut seat,
                ns0(),
                CommandOrigin::Wire,
                "m",
                None,
                num(bad),
                false,
                None,
                "exec-test".to_string(),
                0,
            )
            .expect_err("bad rate");
        assert_eq!(reject.code, Code::BadPayload);
    }
}

#[test]
fn privileged_playback_acquires_and_releases_the_scene_lock() {
    let mut registry = MacroRegistry::default();
    let mut seat = TerminalMacros::default();
    record(&mut seat, "warp", &[mode("3d")]);
    play(&mut registry, &mut seat, "warp").expect("registry op ok");
    assert_eq!(
        registry.scene_lock(),
        Some(ns0().terminal()),
        "privileged play takes the lock, keyed by the arrival terminal"
    );
    // Cancelling the playback releases the lock for the next privileged
    // operation.
    registry.stop(&mut seat, ns0()).expect("registry op ok");
    assert_eq!(registry.scene_lock(), None);
}

#[test]
fn privileged_playback_rejected_while_scene_lock_held() {
    let mut registry = MacroRegistry::default();
    let mut seat = TerminalMacros::default();
    record(&mut seat, "warp", &[mode("3d")]);
    record(&mut seat, "plain", &[spawn(0x8000_0001)]);

    let _holder = foreign_holder(&mut registry);
    let reject = play(&mut registry, &mut seat, "warp")
        .expect_err("privileged play blocked by the held lock");
    assert_eq!(reject.code, Code::SceneLocked);
    // A non-privileged macro is unaffected by the held scene lock.
    play(&mut registry, &mut seat, "plain")
        .expect("a non-privileged macro ignores the scene lock");
}

#[test]
fn scope_defeats_shadowing_and_hash_addresses_directly() {
    let mut registry = MacroRegistry::default();
    let mut seat = TerminalMacros::default();
    // A session macro and a trusted macro share the name "deploy".
    record(&mut seat, "deploy", &[spawn(0x8000_0001)]);
    let session_hash =
        registry.resolve(&seat, "deploy", None).expect("registry op ok").1.hash().to_string();

    let steps = vec![
        MacroStep { offset: num(0.0), command: spawn(0x8000_0009) },
        MacroStep { offset: num(0.0), command: spawn(0x8000_000a) },
    ];
    let trusted = Macro {
        v: MACRO_VERSION,
        hash: content_hash(&steps, false),
        steps,
        privileged: false,
        rule_safe: true,
    };
    let trusted_hash = trusted.hash().to_string();
    registry.insert_trusted("deploy".to_string(), &trusted).expect("registry op ok");

    // Unqualified resolves session first.
    assert_eq!(registry.resolve(&seat, "deploy", None).expect("resolves").1.step_count(), 1);
    // scope=trusted defeats the shadow.
    assert_eq!(
        registry
            .resolve(&seat, "deploy", Some(MacroScope::Trusted))
            .expect("resolves")
            .1
            .step_count(),
        2
    );
    // Hash addresses the exact content across registries.
    assert_eq!(
        registry.resolve_by_hash(&seat, &trusted_hash).expect("resolves").1.step_count(),
        2
    );
    assert_eq!(
        registry.resolve_by_hash(&seat, &session_hash).expect("resolves").1.step_count(),
        1
    );
}

#[test]
fn trusted_rejects_macro_control_and_survives_reset() {
    let mut registry = MacroRegistry::default();
    let mut seat = TerminalMacros::default();
    let bad = Macro {
        v: MACRO_VERSION,
        steps: vec![MacroStep { offset: num(0.0), command: RattyAiCommand::MacroStop }],
        privileged: false,
        rule_safe: false,
        hash: "z".to_string(),
    };
    assert!(
        registry.insert_trusted("bad".to_string(), &bad).is_err(),
        "no recursion: a trusted macro may not contain macro.*"
    );

    let good = Macro {
        v: MACRO_VERSION,
        steps: vec![MacroStep { offset: num(0.0), command: spawn(0x8000_0001) }],
        privileged: false,
        rule_safe: false,
        hash: "g".to_string(),
    };
    registry.insert_trusted("good".to_string(), &good).expect("registry op ok");
    // A session macro to be cleared, and an active slot to be cancelled.
    seat.start_recording(ns0(), "s", false, 0).expect("registry op ok");
    registry.reset(&mut seat, ns0().terminal());
    assert!(registry.resolve(&seat, "s", None).is_none(), "session cleared");
    assert!(!seat.is_busy(), "the slot is cancelled");
    assert!(
        registry.resolve(&seat, "good", Some(MacroScope::Trusted)).is_some(),
        "trusted survives reset"
    );
}

/// Reset is scoped to the arrival terminal: one agent's reset must not
/// release a lock that a foreign terminal holds.
#[test]
fn reset_spares_a_foreign_terminals_scene_lock() {
    let mut registry = MacroRegistry::default();
    let mut seat = TerminalMacros::default();
    let (foreign, mut foreign_seat) = foreign_holder(&mut registry);
    seat.start_recording(ns0(), "s", false, 0).expect("registry op ok");
    registry.reset(&mut seat, ns0().terminal());
    assert!(!seat.is_busy(), "the arrival seat's slot is cancelled");
    assert_eq!(
        registry.scene_lock(),
        Some(foreign.id()),
        "a foreign holder's lock survives another terminal's reset"
    );
    // The arrival terminal's own held lock is released.
    registry.stop(&mut foreign_seat, foreign.ingress()).expect("registry op ok");
    record(&mut seat, "mine", &[mode("3d")]);
    play(&mut registry, &mut seat, "mine").expect("registry op ok");
    assert_eq!(registry.scene_lock(), Some(ns0().terminal()));
    registry.reset(&mut seat, ns0().terminal());
    assert_eq!(
        registry.scene_lock(),
        None,
        "the arrival terminal's own lock releases on its reset"
    );
}

#[test]
fn a_dead_terminals_scene_lock_is_swept() {
    let mut registry = MacroRegistry::default();
    let (foreign, _seat) = foreign_holder(&mut registry);
    registry.sweep_terminal(ns0().terminal());
    assert_eq!(registry.scene_lock(), Some(foreign.id()));
    registry.sweep_terminal(foreign.id());
    assert_eq!(registry.scene_lock(), None);
}

#[test]
fn state_projections_reflect_slots_and_stored_macros() {
    let mut registry = MacroRegistry::default();
    let mut seat = TerminalMacros::default();
    // Idle: no executions.
    assert_eq!(executions_state_value(&seat).len(), 0);

    // An active recording projects as a "recording" execution.
    seat.start_recording(ns0(), "rec", false, 0).expect("record");
    seat.capture(&spawn(0x8000_0001), num(0.0));
    let exec = executions_state_value(&seat);
    assert_eq!(exec[0].kind, "recording");
    assert_eq!(exec[0].commands, 1);
    registry.stop(&mut seat, ns0()).expect("finalize");

    // The finalized macro appears in state.macros, scoped session.
    let items = macros_state_items(&seat, &registry);
    assert_eq!(items.len(), 1);
    assert_eq!(items[0].name, "rec");
    assert!(items[0].scope == MacroScope::Session);
    assert_eq!(items[0].commands, 1);
}

#[test]
fn macro_rows_come_in_order() {
    let mut registry = MacroRegistry::default();
    let mut seat = TerminalMacros::default();
    record(&mut seat, "zebra", &[spawn(0x8000_0001)]);
    record(&mut seat, "ant", &[mode("3d")]);
    let bee = registry.resolve(&seat, "zebra", None).expect("stored").1.clone();
    registry.insert_trusted("bee".to_string(), &bee).expect("promoted");
    assert_eq!((seat.session_len(), registry.trusted_len()), (2, 1));
    assert_eq!(registry.trusted_entry(0).0, "bee");
    assert!((0..2).any(|at| seat.session_entry(at).0 == "ant"));
    let rows: Vec<(String, bool, bool)> = macros_state_items(&seat, &registry)
        .into_iter()
        .map(|row| (row.name, row.scope == MacroScope::Trusted, row.privileged))
        .collect();
    assert_eq!(
        rows,
        vec![
            ("ant".to_string(), false, true),
            ("zebra".to_string(), false, false),
            ("bee".to_string(), true, false),
        ]
    );
}

#[test]
fn rule_safety_is_sealed_at_finalize_and_gates_rule_origin_playback() {
    let mut registry = MacroRegistry::default();
    let mut seat = TerminalMacros::default();
    // A macro of pure choreography (flash) is rule-safe.
    record(
        &mut seat,
        "soft",
        &[RattyAiCommand::Flash { color: "#ff0000".to_string(), duration: num(0.4) }],
    );
    let (_, soft) = registry.resolve(&seat, "soft", None).expect("registry op ok");
    assert!(soft.is_rule_safe(), "pure choreography is rule-safe");
    assert!(!soft.is_privileged());

    // A spawn breaks rule-safety.
    record(&mut seat, "hard", &[spawn(0x8000_0001)]);
    let (_, hard) = registry.resolve(&seat, "hard", None).expect("registry op ok");
    assert!(!hard.is_rule_safe(), "spawn is not rule-safe");

    // A rule-fired play of the unsafe macro rejects at fire time; the safe
    // macro plays and its steps inherit the rule origin.
    let reject = play_as(&mut registry, &mut seat, CommandOrigin::Rule, "hard")
        .expect_err("rule-origin play of a non-rule-safe macro rejects");
    assert_eq!(reject.code, Code::NotPermitted);
    play_as(&mut registry, &mut seat, CommandOrigin::Rule, "soft").expect("registry op ok");
    let mut seats = vec![MacroSeat {
        identity: TerminalIdentity::test_boot(),
        macros: seat,
        elapsed: num(0.0),
        position: num(0.0),
    }];
    let out = drive_macro_playback(&mut seats, &mut registry);
    assert_eq!(out.len(), 1);
    assert!(
        out[0].origin == CommandOrigin::Rule,
        "a rule-started playback inherits the rule's causal context"
    );
}

#[test]
fn insert_trusted_recomputes_rule_safety_from_the_steps() {
    let mut registry = MacroRegistry::default();
    let seat = TerminalMacros::default();
    let steps = vec![MacroStep { offset: num(0.0), command: spawn(0x8000_0001) }];
    // The caller's flag lies; the registry recomputes from the steps.
    let lying = Macro {
        v: MACRO_VERSION,
        hash: content_hash(&steps, false),
        steps,
        privileged: false,
        rule_safe: true,
    };
    registry.insert_trusted("promoted".to_string(), &lying).expect("registry op ok");
    assert!(
        !registry
            .resolve(&seat, "promoted", Some(MacroScope::Trusted))
            .expect("registry op ok")
            .1
            .is_rule_safe(),
        "derived state stays derived"
    );
}

#[test]
fn macro_play_acks_started_with_execution_handle_and_eta() {
    let mut app = app_test();
    send(&mut app, None, RattyAiCommand::MacroRecord { name: "x".to_string(), replace: false });
    send(&mut app, None, mode("3d"));
    send(&mut app, None, RattyAiCommand::MacroStop);
    drain_acks(&mut app);

    let nonce = app.session.nonce_hex().to_string();
    let request = |instant: bool| RattyAiCommand::MacroPlay {
        name: "x".to_string(),
        hash: None,
        rate: num(1.0),
        instant,
        scope: None,
    };
    send(&mut app, Some("p1"), request(false));
    let acks = drain_acks(&mut app);
    let ack = acks.first().expect("play acks");
    assert!(ack.ok, "play commits");
    assert_eq!(ack.code, Some(Code::Started));
    let payload = ack.payload.as_ref().expect("started ack carries data");
    assert!(
        payload.id.starts_with(&format!("{nonce}-")),
        "handle {} is session-scoped",
        payload.id
    );
    assert_eq!(payload.position, 0);
    assert!(
        matches!(payload.eta, Eta::Run { offset: Single { bits: 0 }, .. }),
        "timed playback estimates in time"
    );

    // The zero-offset playback finished during the same update; the freed
    // slot takes an instant playback, whose honest estimate is frames.
    send(&mut app, Some("p2"), request(true));
    let acks = drain_acks(&mut app);
    let ack = acks.first().expect("instant play acks");
    assert_eq!(ack.code, Some(Code::Started));
    let payload = ack.payload.as_ref().expect("data present");
    assert!(matches!(payload.eta, Eta::Frames(1)));
}

#[test]
fn executions_projection_carries_the_playback_handle() {
    let mut registry = MacroRegistry::default();
    let mut seat = TerminalMacros::default();
    record(&mut seat, "seq", &[mode("3d")]);
    registry
        .start_playback(
            &mut seat,
            ns0(),
            CommandOrigin::Wire,
            "seq",
            None,
            num(1.0),
            false,
            None,
            "cafe-1".to_string(),
            0,
        )
        .expect("playback starts");
    let rows = executions_state_value(&seat);
    assert_eq!(rows[0].id.as_deref(), Some("cafe-1"));
    assert_eq!(rows[0].kind, "playback");
    assert_eq!(rows[0].name, "seq");
    assert!(rows[0].scene_locked);
}

#[test]
fn closed_loop_record_capture_stop_play_over_the_message_stream() {
    let mut app = app_test();

    // record;name=x acks a commit and opens a recording.
    send(
        &mut app,
        Some("r"),
        RattyAiCommand::MacroRecord { name: "x".to_string(), replace: false },
    );
    let acks = drain_acks(&mut app);
    assert_eq!(acks.len(), 1);
    assert!(acks[0].ok, "record commits");

    // An ordinary recordable command is tapped off the stream.
    send(&mut app, None, spawn(0x8000_0001));
    // A rule-fired command in the same stream is reactive noise.
    send_as(&mut app, None, CommandOrigin::Rule, spawn(0x8000_0002));

    // stop finalizes the macro with the single captured command.
    send(&mut app, Some("s"), RattyAiCommand::MacroStop);
    assert!(drain_acks(&mut app)[0].ok, "stop finalizes");
    assert_eq!(session_steps(&app, "x"), Some(1));

    // Clear the backlog, then play: the captured command replays into the
    // stream exactly once, without a token.
    app.stream.clear();
    send(
        &mut app,
        Some("p"),
        RattyAiCommand::MacroPlay {
            name: "x".to_string(),
            hash: None,
            rate: num(1.0),
            instant: false,
            scope: None,
        },
    );
    assert!(drain_acks(&mut app)[0].ok, "play commits");
    let injected = app
        .stream
        .iter()
        .filter(|command| {
            command.ack_token.is_none()
                && matches!(command.command, RattyAiCommand::SpawnObject { .. })
        })
        .count();
    assert_eq!(injected, 1, "the captured command replays once, token-less");
    assert!(
        app.seats[0].macros.execution_view().is_none(),
        "a finished playback clears the slot"
    );
}

/// A macro-replayed `user.join` would forge liveness and a replayed
/// `user.leave` would evict a real participant: the tap skips the family.
#[test]
fn presence_commands_classify_and_filter_like_their_classes() {
    let mut app = app_test();
    send(&mut app, None, RattyAiCommand::MacroRecord { name: "m".to_string(), replace: false });
    send(
        &mut app,
        None,
        RattyAiCommand::UserJoin {
            id: "alice".to_string(),
            name: "alice".to_string(),
            color: "#00ff00".to_string(),
            ttl: None,
            replace: false,
        },
    );
    send(&mut app, None, RattyAiCommand::NoteRemove { id: "n1".to_string() });
    // An ordinary recordable command between them still captures.
    send(&mut app, None, spawn(0x8000_0001));
    send(&mut app, None, RattyAiCommand::MacroStop);
    assert_eq!(
        session_steps(&app, "m"),
        Some(1),
        "only the ordinary spawn was captured; the presence family never enters a recording"
    );
}

#[test]
fn filesystem_commands_are_refused_on_the_wire() {
    let mut app = app_test();
    send(
        &mut app,
        Some("e"),
        RattyAiCommand::MacroExport { name: "x".to_string(), to: "/tmp/x".to_string() },
    );
    send(&mut app, Some("r"), RattyAiCommand::MacroRun { path: "/tmp/x".to_string() });
    let acks = drain_acks(&mut app);
    assert_eq!(acks.len(), 2);
    for ack in acks {
        assert!(!ack.ok);
        assert_eq!(ack.code, Some(Code::WireFilesystem));
    }
}

#[test]
fn frames_share_one_budget() {
    let mut registry = MacroRegistry::default();
    let mut seats = Vec::new();
    let mut terminals = TerminalRegistry::new();
    for _ in 0..2 {
        let identity = terminals.allocate().expect("a slot is free");
        let mut macros = TerminalMacros::new();
        let commands: Vec<RattyAiCommand> =
            (0..40_u32).map(|index| spawn(0x8000_0001 + index)).collect();
        record(&mut macros, "big", &commands);
        registry
            .start_playback(
                &mut macros,
                identity.ingress(),
                CommandOrigin::Wire,
                "big",
                None,
                num(1.0),
                true,
                None,
                "exec-test".to_string(),
                0,
            )
            .expect("playback starts");
        seats.push(MacroSeat { identity, macros, elapsed: num(0.0), position: num(0.0) });
    }
    assert_eq!(drive_macro_playback(&mut seats, &mut registry).len(), 64);
    assert!(!seats[0].macros.has_active_playback());
    assert!(seats[1].macros.has_active_playback());
    assert_eq!(drive_macro_playback(&mut seats, &mut registry).len(), 16);
    assert!(!seats[1].macros.has_active_playback());
}
