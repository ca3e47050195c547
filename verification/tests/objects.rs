//! Agents' objects, the cursor and the stage.

use ratty::ai::{AiCommand, CommandOrigin};
use ratty::identity::{IngressSource, TerminalIdentity, TerminalRegistry};
use ratty::inline::{InlineObject, InlineStyle, RgpInlineObject, TerminalInlineObjects};
use ratty::number::Single;
use ratty::objects::{
    apply_ai_object_commands, AiObjectRegistry, AiObjectRemoved, AssetLoad, CursorDefaults,
    CursorModelChoice, CursorSettings, ObjectSeat, MAX_AI_OBJECTS_PER_NAMESPACE,
    MAX_AI_OBJECT_IDS_PER_SESSION,
};
use ratty::osc::RattyAiCommand;
use ratty::query::{Code, ReplyLog};
use ratty::scene::{mode_wire_name, parse_mode, TerminalPresentationMode};
use ratty::stage::{apply_ai_commands, settle_mode_change, StageAction, StageSeat};

const ID: u32 = 0x8000_0001;

fn num(x: f32) -> Single {
    Single { bits: x.to_bits() }
}

fn defaults() -> CursorDefaults {
    CursorDefaults {
        spin_speed: num(1.4),
        bob_speed: num(2.2),
        bob_amplitude: num(0.08),
        brightness: num(1.0),
        visible: true,
    }
}

struct App {
    seats: Vec<ObjectSeat>,
    registry: AiObjectRegistry,
    cursor: CursorSettings,
    removals: Vec<AiObjectRemoved>,
    log: ReplyLog,
    token: Option<String>,
}

fn test_app() -> App {
    App {
        seats: vec![ObjectSeat {
            identity: TerminalIdentity::test_boot(),
            objects: TerminalInlineObjects::new(),
            redraw: false,
        }],
        registry: AiObjectRegistry::new(),
        cursor: CursorSettings::new(defaults()),
        removals: Vec::new(),
        log: ReplyLog::new(),
        token: None,
    }
}

fn stl_object() -> InlineObject {
    InlineObject::RgpObject(RgpInlineObject::Stl { mesh: 1 })
}

fn gltf_object() -> InlineObject {
    InlineObject::RgpObject(RgpInlineObject::Gltf { asset_path: "objects/x.glb".to_string() })
}

/// Loads the way the embedded registry does: one name is there.
fn load(command: &RattyAiCommand) -> AssetLoad {
    match command {
        RattyAiCommand::SpawnObject { path, .. } => {
            if path == "SkateMouse.stl" {
                AssetLoad::Loaded(stl_object())
            } else {
                AssetLoad::Failed(format!("no embedded asset named {path}"))
            }
        }
        RattyAiCommand::UpdateCursor { model: Some(name), .. } => {
            if name == "SkateMouse.stl" {
                AssetLoad::Unneeded
            } else {
                AssetLoad::Failed(format!("no embedded asset named {name}"))
            }
        }
        _ => AssetLoad::Unneeded,
    }
}

fn send_from(app: &mut App, source: IngressSource, command: RattyAiCommand) {
    let asset = load(&command);
    let commands = vec![AiCommand {
        source,
        ack_token: app.token.clone(),
        origin: CommandOrigin::Wire,
        command,
    }];
    apply_ai_object_commands(
        &commands,
        vec![asset],
        &mut app.seats,
        &mut app.registry,
        &mut app.cursor,
        defaults(),
        &mut app.removals,
        &mut app.log,
    );
}

fn send(app: &mut App, command: RattyAiCommand) {
    send_from(app, IngressSource::test_boot(), command);
}

fn spawn_at(app: &mut App, id: u32, x: u16, replace: bool) {
    send(
        app,
        RattyAiCommand::SpawnObject {
            id,
            path: "SkateMouse.stl".to_string(),
            x,
            y: 5,
            scale: num(1.0),
            spin: num(0.0),
            brightness: num(1.0),
            replace,
        },
    );
}

fn spawn(app: &mut App, id: u32, replace: bool) {
    spawn_at(app, id, 10, replace);
}

fn contains(app: &App, id: u32) -> bool {
    app.seats[0].objects.contains_object(id)
}

fn anchor_col(app: &App, id: u32) -> u16 {
    app.seats[0].objects.anchor(id).expect("anchor exists").col
}

fn removed(app: &App) -> Vec<u32> {
    app.removals.iter().map(|removal| removal.id).collect()
}

fn last_refusal(app: &App) -> (&'static str, Code, String) {
    let row = app.log.diagnostics.last().expect("a refusal");
    (row.action, row.reject.code, row.reject.message.clone())
}

#[test]
fn mode_strings_map_to_presentation_modes() {
    assert_eq!(parse_mode("3d"), Some(TerminalPresentationMode::Plane3d));
    assert_eq!(parse_mode("2d"), Some(TerminalPresentationMode::Flat2d));
    assert_eq!(parse_mode("mobius"), Some(TerminalPresentationMode::Mobius3d));
    assert_eq!(parse_mode("cube"), None);
}

#[test]
fn spawn_enforces_range_uniqueness_and_no_reuse() {
    let mut app = test_app();
    spawn(&mut app, 42, false);
    assert!(!contains(&app, 42));
    spawn(&mut app, ID, false);
    assert!(contains(&app, ID));
    spawn(&mut app, 0x8100_0001, false);
    assert!(!contains(&app, 0x8100_0001));
    send(&mut app, RattyAiCommand::RemoveObject { id: ID });
    assert!(!contains(&app, ID));
    assert_eq!(removed(&app), vec![ID]);
    spawn(&mut app, ID, false);
    assert!(!contains(&app, ID), "ids are never reused within a session");
}

#[test]
fn replace_requires_the_flag_and_emits_no_removal() {
    let mut app = test_app();
    spawn_at(&mut app, ID, 10, false);
    assert_eq!(anchor_col(&app, ID), 4, "anchored at x=10 (col = x - 6)");
    spawn_at(&mut app, ID, 50, false);
    assert_eq!(anchor_col(&app, ID), 4, "collision without replace is a no-op");
    spawn_at(&mut app, ID, 50, true);
    assert_eq!(anchor_col(&app, ID), 44, "replace re-anchors to x=50");
    assert!(contains(&app, ID));
    assert!(removed(&app).is_empty(), "replace keeps the id live; no removal event");
}

#[test]
fn unknown_asset_names_fail_the_spawn() {
    let mut app = test_app();
    send(
        &mut app,
        RattyAiCommand::SpawnObject {
            id: ID,
            path: "/etc/passwd".to_string(),
            x: 0,
            y: 0,
            scale: num(1.0),
            spin: num(0.0),
            brightness: num(1.0),
            replace: false,
        },
    );
    assert!(!contains(&app, ID), "wire spawns resolve embedded names only");
    assert_eq!(last_refusal(&app).1, Code::BadAsset);
    assert!(!app.registry.is_used(ID), "a failed spawn spends no id");
}

#[test]
fn clear_is_namespace_scoped_and_reset_is_global() {
    let mut app = test_app();
    spawn(&mut app, ID, false);
    app.seats[0].objects.ai_insert_object(
        0x8100_0001,
        gltf_object(),
        0,
        0,
        InlineStyle::default(),
    );
    app.seats[0].objects.register_loaded(7, gltf_object());
    send(&mut app, RattyAiCommand::ClearObjects);
    assert!(!contains(&app, ID));
    assert!(contains(&app, 0x8100_0001), "clear never crosses namespaces");
    assert!(contains(&app, 7), "clear never touches transmission objects");
    assert_eq!(removed(&app), vec![ID]);

    send(&mut app, RattyAiCommand::Reset);
    assert!(!contains(&app, 0x8100_0001), "reset destroys all AI objects");
    assert!(contains(&app, 7), "reset spares transmission objects");
}

#[test]
fn namespace_cap_rejects_spawns() {
    let mut app = test_app();
    for i in 0..MAX_AI_OBJECTS_PER_NAMESPACE as u32 {
        app.seats[0].objects.ai_insert_object(
            0x8000_0100 + i,
            gltf_object(),
            0,
            0,
            InlineStyle::default(),
        );
    }
    spawn(&mut app, ID, false);
    assert!(!contains(&app, ID), "the per-namespace object cap is enforced");
    assert_eq!(
        last_refusal(&app),
        ("object.add", Code::NamespaceCap, "namespace 0 is at its 64-object limit".to_string())
    );
}

#[test]
fn cursor_updates_apply_and_reset_restores_config() {
    let mut app = test_app();
    send(
        &mut app,
        RattyAiCommand::UpdateCursor {
            model: Some("not-embedded.obj".to_string()),
            spin: Some(num(9.0)),
            bob_speed: None,
            bob_amp: None,
            brightness: Some(num(0.5)),
            visible: Some(false),
        },
    );
    assert!(
        matches!(app.cursor.model, CursorModelChoice::Config),
        "unknown embedded names never swap the model"
    );
    assert_eq!(
        app.cursor.look.spin_speed,
        defaults().spin_speed,
        "a rejected cursor command applies nothing"
    );
    assert_eq!(app.cursor.look.brightness, defaults().brightness);
    assert!(app.cursor.look.visible);
    assert_eq!(
        last_refusal(&app),
        (
            "cursor",
            Code::BadAsset,
            "model 'not-embedded.obj' is not a loadable embedded asset (wire model swaps \
             resolve embedded names only)"
                .to_string()
        )
    );
    send(
        &mut app,
        RattyAiCommand::UpdateCursor {
            model: None,
            spin: Some(num(9.0)),
            bob_speed: None,
            bob_amp: None,
            brightness: Some(num(0.5)),
            visible: Some(false),
        },
    );
    assert_eq!(app.cursor.look.spin_speed, num(9.0));
    assert_eq!(app.cursor.look.brightness, num(0.5));
    assert!(app.cursor.needs_respawn, "brightness is baked; needs a rebuild");
    assert!(!app.cursor.look.visible);
    send(
        &mut app,
        RattyAiCommand::UpdateCursor {
            model: Some("SkateMouse.stl".to_string()),
            spin: None,
            bob_speed: None,
            bob_amp: None,
            brightness: None,
            visible: None,
        },
    );
    match &app.cursor.model {
        CursorModelChoice::Embedded(name) => assert_eq!(name, "SkateMouse.stl"),
        CursorModelChoice::Config => panic!("the model was swapped"),
    }

    send(&mut app, RattyAiCommand::Reset);
    assert!(matches!(app.cursor.model, CursorModelChoice::Config));
    assert_eq!(app.cursor.look.visible, defaults().visible);
    assert_eq!(app.cursor.look.spin_speed, defaults().spin_speed);
    assert!(app.cursor.needs_respawn, "reset rebuilds the swapped model");
}

#[test]
fn every_spawn_refusal_has_its_code_and_sentence() {
    let mut app = test_app();
    app.token = Some("t1".to_string());
    spawn(&mut app, 42, false);
    assert_eq!(
        last_refusal(&app),
        (
            "object.add",
            Code::NotOwner,
            "id 0x0000002a is outside the caller's AI range/namespace (0)".to_string()
        )
    );
    assert!(!app.log.acks[0].ok);
    assert_eq!(app.log.acks[0].token, "t1");
    spawn(&mut app, ID, false);
    assert!(app.log.acks[1].ok);
    assert!(app.seats[0].redraw);
    spawn(&mut app, ID, false);
    assert_eq!(
        last_refusal(&app),
        (
            "object.add",
            Code::AlreadyExists,
            "id 0x80000001 already exists (pass replace=true to replace it)".to_string()
        )
    );
    send(&mut app, RattyAiCommand::RemoveObject { id: ID });
    spawn(&mut app, ID, true);
    assert_eq!(
        last_refusal(&app),
        (
            "object.add",
            Code::IdReused,
            "id 0x80000001 was already used this session; ids are never reused".to_string()
        )
    );
    for i in 0..(MAX_AI_OBJECT_IDS_PER_SESSION as u32 - 1) {
        app.registry.reserve(0x8000_1000 + i);
    }
    spawn(&mut app, 0x8000_0002, false);
    assert_eq!(
        last_refusal(&app),
        (
            "object.add",
            Code::SessionBudget,
            "the session id budget (4096) is exhausted".to_string()
        )
    );
}

#[test]
fn every_update_and_removal_refusal_has_its_code_and_sentence() {
    let mut app = test_app();
    let update = |id: u32, x: Option<u16>| RattyAiCommand::UpdateObject {
        id,
        x,
        y: None,
        scale: None,
        spin: None,
        brightness: None,
    };
    send(&mut app, update(7, None));
    assert_eq!(last_refusal(&app).1, Code::NotOwner);
    send(&mut app, update(ID, None));
    assert_eq!(
        last_refusal(&app),
        ("object.update", Code::UnknownId, "no object with id 0x80000001".to_string())
    );
    send(&mut app, RattyAiCommand::RemoveObject { id: 0x8100_0001 });
    assert_eq!(
        last_refusal(&app),
        (
            "object.remove",
            Code::NotOwner,
            "id 0x81000001 is outside the caller's AI range/namespace (0)".to_string()
        )
    );
    send(&mut app, RattyAiCommand::RemoveObject { id: ID });
    assert_eq!(
        last_refusal(&app),
        ("object.remove", Code::UnknownId, "no object with id 0x80000001".to_string())
    );
    spawn(&mut app, ID, false);
    app.seats[0].objects.apply_scroll(100);
    send(&mut app, update(ID, Some(3)));
    assert_eq!(
        last_refusal(&app),
        (
            "object.update",
            Code::NoAnchor,
            "object 0x80000001 scrolled away; object.add with replace=true re-anchors it"
                .to_string()
        )
    );
}

#[test]
fn a_dead_arrival_changes_nothing_and_a_neighbor_is_out_of_reach() {
    let mut registry = TerminalRegistry::new();
    let first = registry.allocate().expect("a lease");
    let second = registry.allocate().expect("a lease");
    let dead = registry.allocate().expect("a lease");
    let seat = |identity| ObjectSeat {
        identity,
        objects: TerminalInlineObjects::new(),
        redraw: false,
    };
    let mut app = test_app();
    app.token = Some("t".to_string());
    app.seats = vec![seat(first), seat(second)];
    send_from(&mut app, dead.ingress(), RattyAiCommand::ClearObjects);
    assert!(app.log.acks.is_empty() && app.log.diagnostics.is_empty());

    let spawn_of = |id: u32| RattyAiCommand::SpawnObject {
        id,
        path: "SkateMouse.stl".to_string(),
        x: 10,
        y: 5,
        scale: num(1.0),
        spin: num(0.5),
        brightness: num(1.0),
        replace: false,
    };
    send_from(&mut app, second.ingress(), spawn_of(0x8100_0001));
    assert!(app.seats[1].objects.contains_object(0x8100_0001));
    assert!(!app.seats[0].objects.contains_object(0x8100_0001));
    let style = app.seats[1].objects.anchor(0x8100_0001).expect("placed").style;
    assert!(style.animate);
    assert_eq!(style.spin, Some(num(0.5)));
    assert_eq!(style.scale3.x, num(1.0));
    send_from(&mut app, first.ingress(), RattyAiCommand::RemoveObject { id: 0x8100_0001 });
    assert!(app.seats[1].objects.contains_object(0x8100_0001));
}

#[test]
fn a_sweep_frees_a_dead_terminals_ids_only() {
    let mut registry = AiObjectRegistry::new();
    registry.reserve(0x8000_0001);
    registry.reserve(0x8100_0001);
    registry.sweep_namespace(0);
    assert!(!registry.is_used(0x8000_0001));
    assert!(registry.is_used(0x8100_0001));
    assert_eq!(registry.len(), 1);
}

fn stage(seats: &mut Vec<StageSeat>, source: IngressSource, command: RattyAiCommand) -> (
    Vec<StageAction>,
    ReplyLog,
) {
    let mut log = ReplyLog::new();
    let commands = vec![AiCommand {
        source,
        ack_token: Some("tok".to_string()),
        origin: CommandOrigin::Wire,
        command,
    }];
    let actions = apply_ai_commands(&commands, seats, &mut log);
    (actions, log)
}

#[test]
fn the_stage_takes_modes_warps_and_resets() {
    let mut registry = TerminalRegistry::new();
    let first = registry.allocate().expect("a lease");
    let second = registry.allocate().expect("a lease");
    let dead = registry.allocate().expect("a lease");
    let seat = |identity| StageSeat { identity, warp: num(0.0), redraw: false };
    let mut seats = vec![seat(first), seat(second)];

    let (actions, log) =
        stage(&mut seats, first.ingress(), RattyAiCommand::SetMode { mode: "flat2d".to_string() });
    assert_eq!(actions, vec![StageAction::ChangeMode(TerminalPresentationMode::Flat2d)]);
    assert!(log.acks[0].ok);

    let (actions, log) =
        stage(&mut seats, first.ingress(), RattyAiCommand::SetMode { mode: "cube".to_string() });
    assert!(actions.is_empty());
    assert_eq!(log.diagnostics[0].reject.code, Code::BadMode);
    assert_eq!(log.diagnostics[0].reject.message, "unknown mode 'cube' (2d, 3d, mobius)");
    assert!(!log.acks[0].ok);

    let (actions, log) =
        stage(&mut seats, second.ingress(), RattyAiCommand::SetWarp { intensity: num(7.5) });
    assert_eq!(actions, vec![StageAction::StopTween]);
    assert!(log.acks[0].ok);
    assert_eq!(seats[0].warp, num(0.0), "a neighbor's surface is not touched");
    assert_eq!(seats[1].warp, num(1.0), "the warp is clamped");
    assert!(!seats[0].redraw && seats[1].redraw);

    let (actions, log) =
        stage(&mut seats, dead.ingress(), RattyAiCommand::SetWarp { intensity: num(0.5) });
    assert!(actions.is_empty() && log.acks.is_empty() && log.diagnostics.is_empty());

    let (actions, log) = stage(&mut seats, first.ingress(), RattyAiCommand::Reset);
    assert_eq!(actions, vec![StageAction::ResetStage]);
    assert_eq!(log.acks.len(), 1);
    assert_eq!(seats[1].warp, num(0.0));

    seats[0].redraw = false;
    seats[1].redraw = false;
    assert_eq!(settle_mode_change(false, &mut seats), None);
    assert!(seats.iter().all(|seat| !seat.redraw), "nothing changed");
    assert_eq!(settle_mode_change(true, &mut seats), Some(StageAction::StopTween));
    assert!(seats[0].redraw && seats[1].redraw);

    for mode in [
        TerminalPresentationMode::Flat2d,
        TerminalPresentationMode::Plane3d,
        TerminalPresentationMode::Mobius3d,
    ] {
        assert_eq!(parse_mode(mode_wire_name(mode)), Some(mode));
    }
}

#[test]
fn removals_stand_in_the_order_of_their_commands() {
    let mut app = test_app();
    for id in [ID, ID + 1, ID + 2] {
        spawn(&mut app, id, false);
    }
    let commands: Vec<AiCommand> = [ID + 2, ID, ID + 1]
        .into_iter()
        .map(|id| AiCommand {
            source: IngressSource::test_boot(),
            ack_token: None,
            origin: CommandOrigin::Wire,
            command: RattyAiCommand::RemoveObject { id },
        })
        .collect();
    let assets = vec![AssetLoad::Unneeded, AssetLoad::Unneeded, AssetLoad::Unneeded];
    apply_ai_object_commands(
        &commands,
        assets,
        &mut app.seats,
        &mut app.registry,
        &mut app.cursor,
        defaults(),
        &mut app.removals,
        &mut app.log,
    );
    assert_eq!(removed(&app), vec![ID + 2, ID, ID + 1]);
}

#[test]
fn codes_have_their_wire_names() {
    assert_eq!(Code::Started.wire_name(), "started");
    assert_eq!(Code::AlreadyExists.wire_name(), "already-exists");
    assert_eq!(Code::WireFilesystem.wire_name(), "wire-filesystem-access");
}
