//! The avatar and its speech.

use std::time::Duration;

use ratty::ai::{AiCommand, CommandOrigin};
use ratty::avatar::{
    apply_avatar_commands, avatar_model_spec, drive_avatar_speech, pin_duration, ActiveGesture,
    AvatarAnchor, AvatarChoreography, AvatarState, AVATAR_OFFSET_MAX_BITS, AVATAR_OFFSET_MIN_BITS,
    AVATAR_SCALE_MAX_BITS,
};
use ratty::config::AppConfig;
use ratty::identity::{IngressSource, TerminalRegistry};
use ratty::number::Single;
use ratty::osc::{RattyAiCommand, SpeechClearScope};
use ratty::overlay::{
    belongs_to_mascot, bubble_key, place_bubble, revealed_bytes, settle_gesture, shown_clusters,
    speaker_label, sync_avatar_mascot, sync_avatar_overlay, BubbleCache, MascotStep, OverlayStep,
    Placement,
};
use ratty::query::{AckOutcome, Code, Eta, QuerySession, ReplyLog};
use ratty::speech::{SpeakAdmission, SpeechQueue, SpeechStatus, Utterance};

fn t(secs: f32) -> u64 {
    Duration::from_secs_f32(secs).as_nanos() as u64
}

fn num(x: f32) -> Single {
    Single { bits: x.to_bits() }
}

fn utterance(ns: u8, id: &str, secs: f32) -> Utterance {
    Utterance {
        id: id.to_string(),
        namespace: ns,
        text: format!("utterance {id}"),
        from: None,
        duration: t(secs),
    }
}

#[test]
fn registry_stays_in_lockstep_with_the_wire_vocabulary() {
    let spec = avatar_model_spec("mascot").expect("the registry's one model");
    assert_eq!(spec.id, "mascot");
    assert!(spec.file.ends_with(".glb"));
    assert_eq!(spec.embedded_url, format!("embedded://objects/{}", spec.file));
    assert!(avatar_model_spec("ai-helper").is_none());
}

#[test]
fn anchors_round_trip_and_default_is_bottom_right() {
    let all = [
        (AvatarAnchor::TopLeft, "top-left"),
        (AvatarAnchor::Top, "top"),
        (AvatarAnchor::TopRight, "top-right"),
        (AvatarAnchor::Left, "left"),
        (AvatarAnchor::Center, "center"),
        (AvatarAnchor::Right, "right"),
        (AvatarAnchor::BottomLeft, "bottom-left"),
        (AvatarAnchor::Bottom, "bottom"),
        (AvatarAnchor::BottomRight, "bottom-right"),
    ];
    assert_eq!(all.len(), 9);
    for (anchor, wire) in all {
        assert_eq!(AvatarAnchor::parse(wire), Some(anchor));
        assert_eq!(anchor.as_str(), wire);
    }
    assert_eq!(AvatarAnchor::parse("middle"), None);
    let state = AvatarState::default();
    assert!(!state.shown);
    assert_eq!(state.anchor, AvatarAnchor::BottomRight);
    assert_eq!(state.scale, num(1.0));
    assert_eq!(state.model.id, "mascot");
}

#[test]
fn durations_pin_at_admission_with_the_locked_clamps() {
    // Text-derived: floor, proportional, ceiling.
    assert_eq!(pin_duration("hi", None).expect("pins"), t(0.75));
    assert_eq!(
        pin_duration(&"x".repeat(100), None).expect("pins"),
        Duration::from_millis(6000).as_nanos() as u64
    );
    assert_eq!(pin_duration(&"x".repeat(900), None).expect("pins"), t(15.0));
    // Explicit: clamped both ways; garbage rejects bad-payload.
    assert_eq!(pin_duration("hi", Some(num(0.1))).expect("pins"), t(0.75));
    assert_eq!(pin_duration("hi", Some(num(60.0))).expect("pins"), t(15.0));
    assert_eq!(pin_duration("hi", Some(num(4.0))).expect("pins"), t(4.0));
    assert_eq!(pin_duration("hi", Some(num(0.0))).expect_err("rejects").code, Code::BadPayload);
    assert_eq!(
        pin_duration("hi", Some(num(f32::NAN))).expect_err("rejects").code,
        Code::BadPayload
    );
    // Rounding is to the nearest millisecond.
    assert_eq!(pin_duration("hi", Some(num(1.2345))).expect("pins"), 1_235_000_000);
    assert_eq!(pin_duration("hi", Some(num(-1.0))).expect_err("rejects").code, Code::BadPayload);
}

#[test]
fn admission_respects_both_caps_and_reports_positions() {
    let mut q = SpeechQueue::new();
    assert_eq!(
        q.admit_utterance(utterance(0, "a", 10.0), t(0.0)).expect("starts"),
        SpeakAdmission::Started
    );
    match q.admit_utterance(utterance(0, "b", 5.0), t(1.0)).expect("queues") {
        SpeakAdmission::Queued { position, eta } => {
            assert_eq!(position, 1);
            assert_eq!(eta, u128::from(t(9.0)), "remaining active time");
        }
        other => panic!("expected Queued, got {other:?}"),
    }
    assert_eq!(
        q.admit_utterance(utterance(0, "c", 5.0), t(1.0)).expect_err("full").code,
        Code::AgentQueueFull
    );
    for (ns, id) in [(1, "d"), (2, "e"), (3, "f")] {
        q.admit_utterance(utterance(ns, id, 5.0), t(1.0)).expect("queues");
    }
    assert_eq!(
        q.admit_utterance(utterance(4, "g", 5.0), t(1.0)).expect_err("busy").code,
        Code::Busy
    );
    assert_eq!(q.queue_depth(), 4);
}

#[test]
fn rotation_is_seniority_snapshot_not_namespace_number() {
    let mut q = SpeechQueue::new();
    q.admit_utterance(utterance(5, "active", 1.0), t(0.0)).expect("starts");
    q.admit_utterance(utterance(7, "senior", 1.0), t(0.1)).expect("queues");
    q.admit_utterance(utterance(1, "junior", 1.0), t(0.2)).expect("queues");
    q.tick(t(1.5));
    assert_eq!(q.active().expect("promoted").utterance.id, "senior");
    q.tick(t(3.0));
    assert_eq!(q.active().expect("promoted").utterance.id, "junior");
}

#[test]
fn adversarial_admissions_cannot_stretch_the_start_bound() {
    let mut q = SpeechQueue::new();
    q.admit_utterance(utterance(9, "active", 1.0), t(0.0)).expect("starts");
    q.admit_utterance(utterance(8, "mine", 1.0), t(0.1)).expect("queues");
    q.admit_utterance(utterance(0, "later-a", 15.0), t(0.2)).expect("queues");
    q.admit_utterance(utterance(1, "later-b", 15.0), t(0.3)).expect("queues");
    q.tick(t(1.5));
    assert_eq!(q.active().expect("promoted").utterance.id, "mine");
}

#[test]
fn a_late_agent_never_overtakes_a_senior_one() {
    // Two wait when a promotion happens; an agent that is admitted after it,
    // between the two turns, still speaks last.
    let mut q = SpeechQueue::new();
    q.admit_utterance(utterance(9, "active", 1.0), t(0.0)).expect("starts");
    q.admit_utterance(utterance(8, "first", 1.0), t(0.1)).expect("queues");
    q.admit_utterance(utterance(7, "second", 1.0), t(0.2)).expect("queues");
    q.tick(t(1.0));
    assert_eq!(q.active().expect("promoted").utterance.id, "first");
    q.cancel(7, "second").expect("own cancels");
    q.admit_utterance(utterance(1, "third", 1.0), t(1.1)).expect("queues");
    q.admit_utterance(utterance(7, "again", 1.0), t(1.2)).expect("queues");
    q.tick(t(2.0));
    assert_eq!(q.active().expect("promoted").utterance.id, "third");
    q.tick(t(3.0));
    assert_eq!(q.active().expect("promoted").utterance.id, "again");
}

#[test]
fn stop_and_cancel_enforce_ownership_and_honesty() {
    let mut q = SpeechQueue::new();
    assert_eq!(q.stop_speaking(0).expect_err("idle").code, Code::NothingActive);
    q.admit_utterance(utterance(0, "a", 10.0), t(0.0)).expect("starts");
    q.admit_utterance(utterance(1, "b", 5.0), t(0.1)).expect("queues");
    assert_eq!(q.cancel(1, "a").expect_err("owned").code, Code::NotOwner);
    assert_eq!(q.cancel(0, "zzz").expect_err("unknown").code, Code::UnknownId);
    q.cancel(1, "b").expect("own queued cancels");
    assert_eq!(q.queue_depth(), 0);
    q.admit_utterance(utterance(2, "c", 5.0), t(0.2)).expect("queues");
    q.stop_speaking(0).expect("own active stops");
    assert!(q.active().is_none());
    match q.admit_utterance(utterance(3, "d", 5.0), t(0.3)).expect("queues") {
        SpeakAdmission::Queued { .. } => {}
        other => panic!("a same-frame admission must queue, got {other:?}"),
    }
    q.tick(t(0.4));
    assert_eq!(q.active().expect("promoted").utterance.id, "c");
    q.clear_namespace(3);
    assert_eq!(q.queue_depth(), 0);
    q.clear_all();
    assert!(!q.has_speech());
}

#[test]
fn execution_items_are_owner_scoped_and_forecast() {
    let mut q = SpeechQueue::new();
    q.admit_utterance(utterance(0, "a", 10.0), t(0.0)).expect("starts");
    q.admit_utterance(utterance(1, "b", 5.0), t(2.0)).expect("queues");
    let mine = q.execution_items(0, t(2.0));
    assert_eq!(mine.len(), 1);
    assert_eq!(mine[0].status, SpeechStatus::Active { remaining_ms: 8000 });
    let theirs = q.execution_items(1, t(2.0));
    assert_eq!(theirs.len(), 1);
    assert_eq!(theirs[0].status, SpeechStatus::Queued { position: 1, eta_ms: 8000 });
    assert_eq!(theirs[0].duration_ms, 5000);
    // No cross-namespace leakage.
    assert!(q.execution_items(2, t(2.0)).is_empty());
}

struct App {
    state: AvatarState,
    config: AppConfig,
    session: QuerySession,
    log: ReplyLog,
}

fn app_test(avatar_scene: bool) -> App {
    let mut config = AppConfig::default();
    config.trust.local.avatar_scene = avatar_scene;
    App {
        state: AvatarState::default(),
        config,
        session: QuerySession::new("cafe"),
        log: ReplyLog::new(),
    }
}

fn send(app: &mut App, ack: Option<&str>, command: RattyAiCommand) {
    let commands = vec![AiCommand {
        source: IngressSource::test_boot(),
        ack_token: ack.map(str::to_string),
        origin: CommandOrigin::Wire,
        command,
    }];
    drive_avatar_speech(&mut app.state, 0);
    apply_avatar_commands(
        &commands,
        &mut app.state,
        &app.config,
        &mut app.session,
        &mut app.log,
        0,
    );
}

fn drain_acks(app: &mut App) -> Vec<AckOutcome> {
    std::mem::take(&mut app.log.acks)
}

fn bare_set() -> RattyAiCommand {
    RattyAiCommand::AvatarSet { model: None, position: None, dx: None, dy: None, scale: None }
}

fn speak(text: &str) -> RattyAiCommand {
    RattyAiCommand::AvatarSpeak { text: text.to_string(), from: None, duration: None }
}

#[test]
fn revoked_capability_gates_exactly_the_privileged_forms() {
    let mut app = app_test(false);
    for (token, command) in [
        ("t1", bare_set()),
        ("t2", RattyAiCommand::AvatarShow),
        ("t3", RattyAiCommand::AvatarHide),
        ("t4", RattyAiCommand::AvatarSpeechClear { scope: SpeechClearScope::Namespace(1) }),
        ("t5", RattyAiCommand::AvatarSpeechClear { scope: SpeechClearScope::All }),
    ] {
        send(&mut app, Some(token), command);
        let acks = drain_acks(&mut app);
        assert!(!acks[0].ok, "{token} must reject");
        assert_eq!(acks[0].code, Some(Code::NotPermitted), "{token}");
    }
    for (token, command) in [
        ("t6", RattyAiCommand::AvatarSpeechClear { scope: SpeechClearScope::Own }),
        ("t7", RattyAiCommand::AvatarSpeechClear { scope: SpeechClearScope::Namespace(0) }),
    ] {
        send(&mut app, Some(token), command);
        let acks = drain_acks(&mut app);
        assert!(acks[0].ok, "{token} is ownership-scoped");
    }
}

#[test]
fn speak_flow_started_queued_and_full_with_explicit_errors() {
    let mut app = app_test(true);
    send(&mut app, Some("set"), bare_set());
    assert!(drain_acks(&mut app)[0].ok);

    send(&mut app, Some("s1"), speak("Deploy finished"));
    let acks = drain_acks(&mut app);
    assert_eq!(acks[0].code, Some(Code::Started));
    let payload = acks[0].payload.as_ref().expect("started payload");
    assert_eq!(payload.position, 0);
    assert_eq!(payload.id, "cafe-1");

    send(&mut app, Some("s2"), speak("My turn next"));
    let acks = drain_acks(&mut app);
    assert_eq!(acks[0].code, Some(Code::Queued));
    let payload = acks[0].payload.as_ref().expect("queued payload");
    assert_eq!(payload.position, 1);
    assert_eq!(payload.eta, Eta::Millis(900), "fifteen characters, sixty milliseconds each");

    send(&mut app, Some("s3"), speak("One more"));
    let acks = drain_acks(&mut app);
    assert!(!acks[0].ok);
    assert_eq!(acks[0].code, Some(Code::AgentQueueFull));

    send(&mut app, Some("s4"), speak(&"x".repeat(1001)));
    assert_eq!(drain_acks(&mut app)[0].code, Some(Code::TextTooLong));
    send(
        &mut app,
        Some("s5"),
        RattyAiCommand::AvatarSpeak {
            text: "hi".to_string(),
            from: Some("y".repeat(65)),
            duration: None,
        },
    );
    assert_eq!(drain_acks(&mut app)[0].code, Some(Code::TooLarge));
}

#[test]
fn unknown_names_reject_with_their_explicit_codes() {
    let mut app = app_test(true);
    send(
        &mut app,
        Some("m"),
        RattyAiCommand::AvatarSet {
            model: Some("ai-helper.glb".to_string()),
            position: None,
            dx: None,
            dy: None,
            scale: None,
        },
    );
    assert_eq!(drain_acks(&mut app)[0].code, Some(Code::UnknownModel));
    send(
        &mut app,
        Some("a"),
        RattyAiCommand::AvatarSet {
            model: None,
            position: Some("middle".to_string()),
            dx: None,
            dy: None,
            scale: None,
        },
    );
    assert_eq!(drain_acks(&mut app)[0].code, Some(Code::UnknownAnchor));
    // An invalid field rejects the whole command atomically.
    assert!(!app.state.shown);

    send(&mut app, Some("set"), bare_set());
    drain_acks(&mut app);
    send(
        &mut app,
        Some("g"),
        RattyAiCommand::AvatarGesture { gesture: "wave".to_string() },
    );
    assert_eq!(drain_acks(&mut app)[0].code, Some(Code::UnknownGesture));
    send(&mut app, Some("g2"), RattyAiCommand::AvatarGesture { gesture: "nod".to_string() });
    assert!(drain_acks(&mut app)[0].ok);
}

#[test]
fn hidden_avatar_rejects_speech_and_gestures_honestly() {
    let mut app = app_test(true);
    send(&mut app, Some("s"), speak("hello"));
    let acks = drain_acks(&mut app);
    assert_eq!(acks[0].code, Some(Code::NothingActive));
    send(&mut app, Some("g"), RattyAiCommand::AvatarGesture { gesture: "bob".to_string() });
    assert_eq!(drain_acks(&mut app)[0].code, Some(Code::NothingActive));
}

#[test]
fn placement_clamps_commit_and_attribution_is_the_namespace() {
    let mut app = app_test(true);
    send(
        &mut app,
        Some("set"),
        RattyAiCommand::AvatarSet {
            model: Some("mascot".to_string()),
            position: Some("top-left".to_string()),
            dx: Some(num(9000.0)),
            dy: Some(num(-9000.0)),
            scale: Some(num(100.0)),
        },
    );
    assert!(drain_acks(&mut app)[0].ok, "clamps commit, never reject");
    assert!(app.state.shown);
    assert_eq!(app.state.anchor, AvatarAnchor::TopLeft);
    assert_eq!(app.state.offset_x.bits, AVATAR_OFFSET_MAX_BITS);
    assert_eq!(app.state.offset_y.bits, AVATAR_OFFSET_MIN_BITS);
    assert_eq!(f32::from_bits(app.state.offset_x.bits), -f32::from_bits(app.state.offset_y.bits));
    assert_eq!(app.state.scale.bits, AVATAR_SCALE_MAX_BITS);
    send(
        &mut app,
        Some("s"),
        RattyAiCommand::AvatarSpeak {
            text: "hi".to_string(),
            from: Some("Fancy Agent".to_string()),
            duration: None,
        },
    );
    drain_acks(&mut app);
    let active = app.state.speech.active().expect("speaking");
    assert_eq!(active.utterance.namespace, 0);
    assert_eq!(active.utterance.from.as_deref(), Some("Fancy Agent"));
    let public = app.state.public_scene();
    assert_eq!(public.speaker, Some(0));
    assert_eq!(public.execution.as_deref(), Some("cafe-1"));
    assert_eq!(public.position, "top-left");
}

#[test]
fn hide_cancels_speech_and_reset_returns_to_baseline_silently() {
    let mut app = app_test(true);
    send(&mut app, Some("set"), bare_set());
    send(&mut app, Some("s1"), speak("one"));
    send(&mut app, Some("s2"), speak("two"));
    drain_acks(&mut app);

    send(&mut app, Some("h"), RattyAiCommand::AvatarHide);
    assert!(drain_acks(&mut app)[0].ok);
    assert!(!app.state.shown);
    assert!(!app.state.speech.has_speech(), "hide cancels current and queue");

    send(&mut app, Some("set2"), bare_set());
    drain_acks(&mut app);
    send(&mut app, None, RattyAiCommand::Reset);
    assert!(drain_acks(&mut app).is_empty(), "the reset tap is silent");
    assert!(!app.state.shown);
    assert_eq!(app.state.anchor, AvatarAnchor::BottomRight);
    assert!(app.state.needs_respawn, "a mascot that was shown must go");
}

#[test]
fn expiry_promotes_across_agents_on_the_frame_clock() {
    let mut q = SpeechQueue::new();
    q.admit_utterance(utterance(0, "a", 1.0), t(0.0)).expect("starts");
    q.admit_utterance(utterance(1, "b", 1.0), t(0.5)).expect("queues");
    q.tick(t(0.9));
    assert_eq!(q.active().expect("still speaking").utterance.id, "a");
    q.tick(t(1.0));
    assert_eq!(q.active().expect("promoted").utterance.id, "b");
    q.tick(t(2.0));
    assert!(q.active().is_none());
    assert!(!q.has_speech());
}

#[test]
fn another_agents_speech_and_handles_are_out_of_reach() {
    let mut registry = TerminalRegistry::new();
    let first = registry.allocate().expect("a lease");
    let second = registry.allocate().expect("a lease");
    let mut app = app_test(true);
    send(&mut app, None, bare_set());
    app.config.trust.local.avatar_scene = false;
    let run = |app: &mut App, source: IngressSource, command: RattyAiCommand| {
        let commands = vec![AiCommand {
            source,
            ack_token: Some("t".to_string()),
            origin: CommandOrigin::Wire,
            command,
        }];
        apply_avatar_commands(
            &commands,
            &mut app.state,
            &app.config,
            &mut app.session,
            &mut app.log,
            0,
        );
        app.log.acks.pop().expect("answered").code
    };
    assert_eq!(run(&mut app, first.ingress(), speak("mine")), Some(Code::Started));
    assert_eq!(
        run(
            &mut app,
            second.ingress(),
            RattyAiCommand::AvatarCancel { execution_id: "cafe-1".to_string() }
        ),
        Some(Code::NotOwner)
    );
    assert_eq!(
        run(
            &mut app,
            second.ingress(),
            RattyAiCommand::AvatarCancel { execution_id: "beef-1".to_string() }
        ),
        Some(Code::UnknownId)
    );
    assert_eq!(
        run(&mut app, second.ingress(), RattyAiCommand::AvatarStopSpeaking),
        Some(Code::NothingActive)
    );
    assert!(app.state.speech.active().is_some());
    assert_eq!(
        run(
            &mut app,
            first.ingress(),
            RattyAiCommand::AvatarCancel { execution_id: "cafe-1".to_string() }
        ),
        None
    );
    assert!(app.state.speech.active().is_none());
}

#[test]
fn reveal_counts_bytes_and_never_half_draws() {
    let text = "he\u{301}llo";
    assert_eq!(revealed_bytes(text, 0), 0);
    assert_eq!(revealed_bytes(text, 2), 2);
    assert_eq!(revealed_bytes(text, 3), 4);
    assert_eq!(revealed_bytes(text, 99), text.len());
    // Clusters: h, e with its mark, l, l, o.
    let ends = vec![1, 4, 5, 6, 7];
    assert_eq!(shown_clusters(&ends, 0), vec![false; 5]);
    assert_eq!(shown_clusters(&ends, 1), shown_clusters(&ends, 3));
    assert_eq!(shown_clusters(&ends, 4), vec![true, true, false, false, false]);
    assert_eq!(shown_clusters(&ends, 7), vec![true; 5]);
}

#[test]
fn the_bubble_cache_is_keyed_by_text_speaker_wrap_and_size() {
    let mut cache: BubbleCache<u32> = BubbleCache::new();
    let key = bubble_key("hello", "a", num(400.0), num(16.0));
    assert!(cache.get(key).is_none());
    cache.keep(key, 5);
    assert_eq!(cache.get(bubble_key("hello", "a", num(400.0), num(16.0))), Some(&5));
    assert_eq!(cache.get(bubble_key("hello", "a", num(400.0), num(24.0))), None);
    assert_eq!(cache.get(bubble_key("hello", "a", num(300.0), num(16.0))), None);
    assert_eq!(cache.get(bubble_key("hello", "b", num(400.0), num(16.0))), None);
    assert_eq!(cache.get(bubble_key("hell", "oa", num(400.0), num(16.0))), None);
}

#[test]
fn the_overlay_and_the_mascot_follow_the_avatar() {
    let mut app = app_test(true);
    let mut live = false;
    assert_eq!(sync_avatar_overlay(&app.state, &mut live, (640, 0)), OverlayStep::Rest);
    assert_eq!(sync_avatar_mascot(&mut app.state, false), MascotStep::Keep);
    send(&mut app, None, bare_set());
    assert_eq!(sync_avatar_mascot(&mut app.state, false), MascotStep::Respawn);
    assert_eq!(sync_avatar_mascot(&mut app.state, true), MascotStep::Keep);
    send(&mut app, None, speak("hello"));
    assert_eq!(
        sync_avatar_overlay(&app.state, &mut live, (640, 0)),
        OverlayStep::Show { width: 640, height: 1 }
    );
    assert!(live);
    send(&mut app, None, RattyAiCommand::AvatarHide);
    assert_eq!(
        sync_avatar_overlay(&app.state, &mut live, (640, 0)),
        OverlayStep::Hide { width: 1, height: 1 }
    );
    assert_eq!(sync_avatar_overlay(&app.state, &mut live, (640, 0)), OverlayStep::Rest);
    assert_eq!(sync_avatar_mascot(&mut app.state, true), MascotStep::Despawn);

    app.state.gesture = Some(ActiveGesture { which: AvatarChoreography::Nod, started: t(1.0) });
    assert!(settle_gesture(&mut app.state, t(1.5)).is_some());
    assert!(settle_gesture(&mut app.state, 1_900_000_000).is_none());
    assert!(app.state.gesture.is_none());
}

#[test]
fn the_bubble_is_labelled_and_placed_toward_the_middle() {
    assert_eq!(speaker_label(&None, 3), "agent 3");
    assert_eq!(speaker_label(&Some("ci-agent".to_string()), 3), "ci-agent");
    assert_eq!(place_bubble(AvatarAnchor::BottomRight), (Placement::Before, Placement::Before));
    assert_eq!(place_bubble(AvatarAnchor::TopLeft), (Placement::After, Placement::After));
    assert_eq!(place_bubble(AvatarAnchor::Center), (Placement::Centered, Placement::Before));
}

#[test]
fn parts_belong_to_the_mascot_through_their_parents() {
    let mut parents = std::collections::HashMap::new();
    parents.insert(3, 2);
    parents.insert(2, 1);
    parents.insert(9, 8);
    let roots = vec![1];
    assert!(belongs_to_mascot(3, &parents, &roots));
    assert!(belongs_to_mascot(1, &parents, &roots));
    assert!(!belongs_to_mascot(9, &parents, &roots));
    // A ring of parents ends nowhere.
    parents.insert(8, 9);
    assert!(!belongs_to_mascot(9, &parents, &roots));
}
