//! Inline objects: agents' objects, programs' objects and the stage queue.

use std::collections::HashSet;

use ratty::inline::{
    ai_anchor_component, AiUpdateOutcome, ApcOperation, InlineAction, InlineAnchor, InlineObject,
    InlineStyle, KittyAnchor, KittyInlineObject, KittyOperation, RasterObject, RgpAnchor,
    RgpInlineObject, RgpOperation, RgpPlacementStyle, RgpPlacementUpdate, RgpRegisterSource,
    RgpStageUpdate, TerminalInlineObjects, Triple, TripleUpdate,
};
use ratty::number::Single;
use ratty::screen::TerminalScreen;

const AI_ID: u32 = 0x8000_0005;

fn num(x: f32) -> Single {
    Single { bits: x.to_bits() }
}

fn stl_object() -> InlineObject {
    InlineObject::RgpObject(RgpInlineObject::Stl { mesh: 1 })
}

fn gltf_object() -> InlineObject {
    InlineObject::RgpObject(RgpInlineObject::Gltf { asset_path: "objects/x.glb".to_string() })
}

fn mesh_object() -> InlineObject {
    InlineObject::RgpObject(RgpInlineObject::Obj { meshes: Vec::new() })
}

fn image(uses_placeholders: bool) -> KittyInlineObject {
    KittyInlineObject {
        raster: RasterObject { width: 1, height: 1, rgba: vec![0, 0, 0, 255] },
        uses_placeholders,
    }
}

fn no_triple() -> TripleUpdate {
    TripleUpdate { x: None, y: None, z: None }
}

fn no_update() -> RgpPlacementUpdate {
    RgpPlacementUpdate {
        animate: None,
        scale: None,
        depth: None,
        color: None,
        brightness: None,
        offset: no_triple(),
        rotation: no_triple(),
        scale3: no_triple(),
        spin: None,
        bob: None,
        bob_amplitude: None,
        phase: None,
    }
}

fn placement_style() -> RgpPlacementStyle {
    RgpPlacementStyle {
        animate: true,
        scale: num(1.0),
        depth: num(0.0),
        color: None,
        brightness: num(1.0),
        offset: (num(0.0), num(0.0), num(0.0)),
        rotation: (num(0.0), num(0.0), num(0.0)),
        scale3: (num(1.0), num(1.0), num(1.0)),
        spin: None,
        bob: None,
        bob_amplitude: None,
        phase: num(0.0),
    }
}

fn settle(inline: &mut TerminalInlineObjects) {
    inline.finish_sync((num(800.0), num(600.0)), 104, 32);
}

fn rgp(inline: &mut TerminalInlineObjects, operation: RgpOperation) -> InlineAction {
    let mut screen = TerminalScreen::new(4, 40, 0).expect("a drawable grid");
    inline.handle_apc_sequence(b"\x1b_ratty;g\x1b\\", ApcOperation::Rgp(operation), &mut screen)
}

fn kitty(inline: &mut TerminalInlineObjects, operation: KittyOperation) {
    let mut screen = TerminalScreen::new(4, 40, 0).expect("a drawable grid");
    let action =
        inline.handle_apc_sequence(b"\x1b_G\x1b\\", ApcOperation::Kitty(operation), &mut screen);
    assert!(matches!(action, InlineAction::Nothing));
}

fn update(inline: &mut TerminalInlineObjects, object_id: u32, update: RgpPlacementUpdate) {
    rgp(inline, RgpOperation::Update { object_id, update });
}

fn inline_with_object(object_id: u32, object: InlineObject) -> TerminalInlineObjects {
    let mut inline = TerminalInlineObjects::default();
    inline.register_loaded(object_id, object);
    rgp(
        &mut inline,
        RgpOperation::Place {
            object_id,
            anchor: RgpAnchor { row: 6, col: 10, columns: 8, rows: 4, style: placement_style() },
        },
    );
    let anchor = inline.anchor(object_id).expect("placed");
    assert_eq!((anchor.row, anchor.col, anchor.columns, anchor.rows), (4, 6, 8, 4));
    settle(&mut inline);
    inline
}

fn no_ids() -> HashSet<u32> {
    HashSet::new()
}

#[test]
fn ai_insert_and_remove_stay_per_object() {
    let mut inline = TerminalInlineObjects::default();
    settle(&mut inline);
    inline.ai_insert_object(AI_ID, stl_object(), 20, 10, InlineStyle::default());
    assert!(!inline.is_dirty(), "AI mutations must never trigger the scene-wide respawn");
    assert!(inline.take_rebuild_objects().contains(&AI_ID));
    assert!(inline.contains_object(AI_ID));

    assert!(inline.ai_remove_object(AI_ID));
    assert!(!inline.is_dirty());
    assert!(!inline.contains_object(AI_ID));
    assert!(
        inline.take_rebuild_objects().contains(&AI_ID),
        "removal queues a granular despawn"
    );
    assert!(!inline.ai_remove_object(AI_ID), "second removal reports absence");
}

#[test]
fn ai_update_routes_brightness_by_object_kind() {
    let mut inline = TerminalInlineObjects::default();
    inline.ai_insert_object(AI_ID, stl_object(), 0, 0, InlineStyle::default());
    inline.take_rebuild_objects();
    assert_eq!(
        inline.ai_update_object(AI_ID, None, None, None, None, Some(num(2.0))),
        AiUpdateOutcome::Applied
    );
    assert!(
        inline.take_restyle_objects().contains(&AI_ID),
        "STL brightness restyles in place"
    );
    assert!(!inline.take_rebuild_objects().contains(&AI_ID));

    let gltf_id = 0x8000_0006;
    inline.ai_insert_object(gltf_id, gltf_object(), 0, 0, InlineStyle::default());
    inline.take_rebuild_objects();
    assert_eq!(
        inline.ai_update_object(gltf_id, None, None, None, None, Some(num(2.0))),
        AiUpdateOutcome::Applied
    );
    assert!(
        inline.take_rebuild_objects().contains(&gltf_id),
        "glTF brightness needs a per-object rebuild"
    );

    assert_eq!(
        inline.ai_update_object(0x8000_0099, None, None, None, None, None),
        AiUpdateOutcome::UnknownId
    );
}

#[test]
fn ai_update_reanchor_respawns_but_live_fields_do_not() {
    let mut inline = TerminalInlineObjects::default();
    settle(&mut inline);
    inline.ai_insert_object(AI_ID, stl_object(), 20, 10, InlineStyle::default());

    // A scale/spin-only update keeps the object live: no respawn.
    inline.take_rebuild_objects();
    assert_eq!(
        inline.ai_update_object(AI_ID, None, None, Some(num(2.5)), Some(num(3.0)), None),
        AiUpdateOutcome::Applied
    );
    assert!(
        inline.take_rebuild_objects().is_empty() && !inline.is_dirty(),
        "scale/spin are live per-frame fields"
    );
    let anchor = inline.anchor(AI_ID).expect("anchor exists");
    assert_eq!(anchor.style.scale, num(2.5));
    assert_eq!(anchor.style.spin, Some(num(3.0)));
    assert!(anchor.style.animate);

    // A re-anchor is a discrete relocation: it respawns.
    assert_eq!(
        inline.ai_update_object(AI_ID, Some(40), Some(4), None, None, None),
        AiUpdateOutcome::Applied
    );
    let anchor = inline.anchor(AI_ID).expect("anchor exists");
    // Centered on (40, 4) with the default 12x6 footprint.
    assert_eq!(anchor.col, 34);
    assert_eq!(anchor.row, 1);
    assert!(
        inline.take_rebuild_objects().contains(&AI_ID) && !inline.is_dirty(),
        "re-anchor queues a per-object respawn, never a scene rebuild"
    );
}

#[test]
fn ai_update_recovers_a_scrolled_away_object() {
    let mut inline = TerminalInlineObjects::default();
    inline.ai_insert_object(AI_ID, stl_object(), 10, 2, InlineStyle::default());
    // Scroll it off the top: the anchor goes, the payload stays.
    inline.apply_scroll(50);
    assert!(inline.contains_object(AI_ID));
    assert!(inline.anchor(AI_ID).is_none(), "anchor scrolled away");

    // A single coordinate cannot fully re-place it.
    assert_eq!(
        inline.ai_update_object(AI_ID, Some(30), None, None, None, None),
        AiUpdateOutcome::NoAnchor
    );
    // Both coordinates rebuild the anchor and requeue a spawn.
    inline.take_rebuild_objects();
    assert_eq!(
        inline.ai_update_object(AI_ID, Some(30), Some(6), None, None, None),
        AiUpdateOutcome::Applied
    );
    assert!(inline.anchor(AI_ID).is_some(), "anchor recreated");
    assert!(inline.take_rebuild_objects().contains(&AI_ID));
}

#[test]
fn wire_surfaces_cannot_touch_the_ai_partition() {
    let mut inline = TerminalInlineObjects::default();
    inline.ai_insert_object(AI_ID, stl_object(), 5, 5, InlineStyle::default());
    let revision = inline.revision(AI_ID);

    // A register on an agent's id is refused.
    let action = rgp(
        &mut inline,
        RgpOperation::Register {
            object_id: AI_ID,
            format: "obj".to_string(),
            normalize: false,
            source: RgpRegisterSource::Path { path: "x.obj".to_string() },
        },
    );
    assert!(matches!(action, InlineAction::Nothing), "nothing is loaded for it");
    inline.register_loaded(AI_ID, gltf_object());
    // The object is untouched: it still restyles in place, as a mesh does.
    assert_eq!(inline.revision(AI_ID), revision);
    inline.take_rebuild_objects();
    inline.ai_update_object(AI_ID, None, None, None, None, Some(num(2.0)));
    assert!(inline.take_restyle_objects().contains(&AI_ID));

    // Delete-all clears only the programs' partition.
    inline.register_loaded(3, gltf_object());
    assert!(inline.contains_object(3));
    rgp(&mut inline, RgpOperation::Delete { object_id: None });
    assert!(inline.contains_object(AI_ID), "clear-all spares AI objects");
    assert!(!inline.contains_object(3), "it still clears its own objects");
}

#[test]
fn images_cannot_touch_the_ai_partition() {
    let mut inline = TerminalInlineObjects::default();
    inline.ai_insert_object(AI_ID, stl_object(), 5, 5, InlineStyle::default());
    let anchor = inline.anchor(AI_ID);
    let corner = KittyAnchor { row: 0, col: 0, columns: 1, rows: 1 };
    kitty(&mut inline, KittyOperation::TransmitOnly { object_id: AI_ID, image: image(false) });
    kitty(
        &mut inline,
        KittyOperation::TransmitAndPlace { object_id: AI_ID, image: image(false), anchor: corner },
    );
    kitty(&mut inline, KittyOperation::PlaceExisting { object_id: AI_ID, anchor: corner });
    kitty(&mut inline, KittyOperation::Delete { object_id: Some(AI_ID) });
    kitty(&mut inline, KittyOperation::Delete { object_id: None });
    assert!(inline.contains_object(AI_ID));
    assert_eq!(inline.anchor(AI_ID), anchor);
}

#[test]
fn ai_clear_scopes_to_namespace_and_spares_low_ids() {
    let mut inline = TerminalInlineObjects::default();
    // A program's object, below the agents' range.
    inline.register_loaded(7, stl_object());
    inline.ai_insert_object(0x8000_0001, stl_object(), 0, 0, InlineStyle::default());
    // A different agent namespace.
    inline.ai_insert_object(0x8100_0001, gltf_object(), 0, 0, InlineStyle::default());

    assert_eq!(inline.ai_clear_namespace(0), vec![0x8000_0001]);
    assert!(inline.contains_object(7));
    assert!(inline.contains_object(0x8100_0001));
    assert!(inline.ai_clear_namespace(0).is_empty(), "clear is idempotent");

    assert_eq!(inline.ai_clear_all(), vec![0x8100_0001]);
    assert!(inline.contains_object(7), "reset spares programs' objects");
}

#[test]
fn stage_sequences_queue_in_order_without_dirtying_objects() {
    let mut inline = TerminalInlineObjects::default();
    settle(&mut inline);
    let first = rgp(
        &mut inline,
        RgpOperation::Stage { update: RgpStageUpdate { warp: Some(num(0.1)), dur: None } },
    );
    let second = rgp(
        &mut inline,
        RgpOperation::Stage {
            update: RgpStageUpdate { warp: Some(num(0.9)), dur: Some(num(2.0)) },
        },
    );
    assert!(matches!(first, InlineAction::Nothing), "stage sequences produce no reply");
    assert!(matches!(second, InlineAction::Nothing));
    assert!(!inline.is_dirty(), "stage sequences must not respawn objects");
    assert!(inline.has_pending_stage());

    let updates = inline.take_stage_updates();
    assert_eq!(updates.len(), 2);
    assert_eq!(updates[0].warp, Some(num(0.1)));
    assert_eq!(updates[1].warp, Some(num(0.9)));
    assert_eq!(updates[1].dur, Some(num(2.0)));
    assert!(!inline.has_pending_stage());
}

#[test]
fn v1_place_style_converts_field_identically() {
    let style = InlineStyle::from_placement(RgpPlacementStyle {
        animate: true,
        scale: num(1.15),
        depth: num(0.2),
        color: Some((0xaa, 0xbb, 0xcc)),
        brightness: num(1.1),
        offset: (num(0.1), num(0.2), num(0.3)),
        rotation: (num(180.0), num(90.0), num(45.0)),
        scale3: (num(1.0), num(2.0), num(3.0)),
        spin: None,
        bob: None,
        bob_amplitude: None,
        phase: num(0.0),
    });
    assert!(style.animate);
    assert_eq!(style.scale, num(1.15));
    assert_eq!(style.depth, num(0.2));
    assert_eq!(style.color, Some((0xaa, 0xbb, 0xcc)));
    assert_eq!(style.brightness, num(1.1));
    assert_eq!(style.offset, Triple { x: num(0.1), y: num(0.2), z: num(0.3) });
    assert_eq!(style.rotation, Triple { x: num(180.0), y: num(90.0), z: num(45.0) });
    assert_eq!(style.scale3, Triple { x: num(1.0), y: num(2.0), z: num(3.0) });
    assert!(style.spin.is_none());
    assert!(style.bob.is_none());
    assert!(style.bob_amplitude.is_none());
    assert_eq!(style.phase, num(0.0));
}

#[test]
fn animation_updates_apply_live_without_respawning() {
    let mut inline = inline_with_object(1, mesh_object());
    update(
        &mut inline,
        1,
        RgpPlacementUpdate { spin: Some(num(2.0)), phase: Some(num(0.5)), ..no_update() },
    );
    let style = inline.anchor(1).expect("anchored").style;
    assert_eq!(style.spin, Some(num(2.0)));
    assert_eq!(style.phase, num(0.5));
    assert!(!inline.is_dirty(), "animation fields are live updates");
    assert_eq!(inline.take_rebuild_objects(), no_ids());
    assert_eq!(inline.take_restyle_objects(), no_ids());
}

#[test]
fn depth_updates_rebuild_only_their_object() {
    let mut inline = inline_with_object(1, mesh_object());
    update(
        &mut inline,
        1,
        RgpPlacementUpdate { depth: Some(num(1.0)), spin: Some(num(2.0)), ..no_update() },
    );
    let style = inline.anchor(1).expect("anchored").style;
    assert_eq!(style.depth, num(1.0));
    assert_eq!(style.spin, Some(num(2.0)));
    assert!(!inline.is_dirty(), "depth must not respawn the whole scene");
    assert_eq!(inline.take_rebuild_objects(), HashSet::from([1]));
    assert_eq!(inline.take_restyle_objects(), no_ids());
}

fn coloured() -> RgpPlacementUpdate {
    RgpPlacementUpdate { color: Some((0xff, 0x88, 0x44)), ..no_update() }
}

fn deepened() -> RgpPlacementUpdate {
    RgpPlacementUpdate { depth: Some(num(1.0)), ..no_update() }
}

#[test]
fn color_and_brightness_updates_restyle_in_place() {
    let mut inline = inline_with_object(1, mesh_object());
    update(&mut inline, 1, coloured());
    update(
        &mut inline,
        1,
        RgpPlacementUpdate { brightness: Some(num(1.5)), ..no_update() },
    );
    let style = inline.anchor(1).expect("anchored").style;
    assert_eq!(style.color, Some((0xff, 0x88, 0x44)));
    assert_eq!(style.brightness, num(1.5));
    assert!(!inline.is_dirty(), "mesh restyles must not respawn anything");
    assert_eq!(inline.take_rebuild_objects(), no_ids());
    assert!(inline.has_restyle_objects());
    assert_eq!(inline.take_restyle_objects(), HashSet::from([1]));
}

#[test]
fn depth_supersedes_a_pending_restyle() {
    let mut inline = inline_with_object(1, mesh_object());
    update(&mut inline, 1, coloured());
    update(&mut inline, 1, deepened());
    assert!(!inline.is_dirty());
    assert!(
        !inline.has_restyle_objects(),
        "the rebuild respawns from current style, covering the restyle"
    );
    assert_eq!(inline.take_rebuild_objects(), HashSet::from([1]));
}

#[test]
fn gltf_styles_take_the_rebuild_path() {
    let mut inline = inline_with_object(1, gltf_object());
    update(&mut inline, 1, coloured());
    assert!(!inline.is_dirty());
    assert!(
        !inline.has_restyle_objects(),
        "glTF scenes own their materials; style cannot rewrite them"
    );
    assert_eq!(inline.take_rebuild_objects(), HashSet::from([1]));
}

#[test]
fn updates_without_an_object_mapping_respawn_globally() {
    // An image is anchored, but is no model with an entity of its own.
    let mut inline = TerminalInlineObjects::default();
    kitty(
        &mut inline,
        KittyOperation::TransmitAndPlace {
            object_id: 1,
            image: image(false),
            anchor: KittyAnchor { row: 4, col: 6, columns: 8, rows: 4 },
        },
    );
    settle(&mut inline);
    update(&mut inline, 1, coloured());
    assert!(inline.is_dirty(), "no per-object entity mapping exists; keep the full rebuild");
    assert_eq!(inline.take_rebuild_objects(), no_ids());
    assert_eq!(inline.take_restyle_objects(), no_ids());
}

#[test]
fn finish_sync_clears_pending_granular_work() {
    let mut inline = inline_with_object(1, mesh_object());
    update(&mut inline, 1, coloured());
    update(&mut inline, 2, deepened());
    inline.ai_insert_object(0x8000_0007, stl_object(), 0, 0, InlineStyle::default());
    inline.finish_sync((num(800.0), num(600.0)), 104, 32);
    assert!(!inline.is_dirty());
    assert_eq!(inline.take_rebuild_objects(), no_ids());
    assert_eq!(inline.take_restyle_objects(), no_ids());
    // The same geometry needs no further work; another does.
    assert!(!inline.needs_sync((num(800.0), num(600.0)), 104, 32));
    assert!(inline.needs_sync((num(801.0), num(600.0)), 104, 32));
    assert!(inline.needs_sync((num(800.0), num(600.0)), 105, 32));
}

#[test]
fn an_agents_anchor_is_centered_on_its_cell() {
    assert_eq!(ai_anchor_component(40, 12), 34);
    assert_eq!(ai_anchor_component(4, 6), 1);
    assert_eq!(ai_anchor_component(2, 6), 0);
}

#[test]
fn scrolling_moves_anchors_and_drops_those_that_leave() {
    let mut inline = inline_with_object(1, mesh_object());
    assert!(inline.has_scroll_tracked_anchors());
    inline.apply_scroll(3);
    assert_eq!(inline.anchor(1).expect("still visible").row, 1);
    inline.apply_scroll(50);
    assert!(inline.anchor(1).is_none());
    assert!(!inline.has_scroll_tracked_anchors());
}

#[test]
fn placeholder_images_stay_where_their_cells_are() {
    let mut inline = TerminalInlineObjects::default();
    kitty(
        &mut inline,
        KittyOperation::TransmitAndPlace {
            object_id: 9,
            image: image(true),
            anchor: KittyAnchor { row: 4, col: 2, columns: 3, rows: 2 },
        },
    );
    assert!(!inline.has_scroll_tracked_anchors());
    let placed = inline.anchor(9).expect("placed");
    inline.apply_scroll(2);
    assert_eq!(inline.anchor(9), Some(placed));
    let moved = InlineAnchor { row: 2, ..placed };
    inline.refresh_placeholder_anchors(&[(9, moved)]);
    assert_eq!(inline.anchor(9), Some(moved));
}

#[test]
fn every_change_is_stamped_with_a_later_revision() {
    let mut inline = TerminalInlineObjects::default();
    inline.ai_insert_object(AI_ID, stl_object(), 20, 10, InlineStyle::default());
    let first = inline.revision(AI_ID);
    inline.ai_update_object(AI_ID, Some(3), Some(3), None, None, None);
    let second = inline.revision(AI_ID);
    assert!(first < second);
    assert_eq!(inline.revision(77), 0);
}

#[test]
fn namespace_lengths_count_only_their_own() {
    let mut inline = TerminalInlineObjects::default();
    inline.ai_insert_object(0x8000_0001, stl_object(), 0, 0, InlineStyle::default());
    inline.ai_insert_object(0x8000_0002, stl_object(), 0, 0, InlineStyle::default());
    inline.ai_insert_object(0x8100_0001, stl_object(), 0, 0, InlineStyle::default());
    inline.register_loaded(7, stl_object());
    assert_eq!(inline.ai_namespace_len(0), 2);
    assert_eq!(inline.ai_namespace_len(1), 1);
    assert_eq!(inline.ai_namespace_len(2), 0);
}

#[test]
fn payload_runs_hand_their_bytes_over_when_they_end() {
    let mut inline = TerminalInlineObjects::default();
    let chunk = |more: bool, data: &[u8]| RgpOperation::Register {
        object_id: 3,
        format: "obj".to_string(),
        normalize: true,
        source: RgpRegisterSource::Payload {
            name: Some("t.obj".to_string()),
            more,
            data: data.to_vec(),
        },
    };
    assert!(matches!(rgp(&mut inline, chunk(true, b"ab")), InlineAction::Nothing));
    assert_eq!(inline.pending_rgp_payload_state(), (1, 2));
    match rgp(&mut inline, chunk(false, b"cd")) {
        InlineAction::LoadBytes { object_id, format, name, data, normalize } => {
            assert_eq!(object_id, 3);
            assert_eq!(format, "obj");
            assert_eq!(name.as_deref(), Some("t.obj"));
            assert_eq!(data, b"abcd");
            assert!(normalize);
        }
        other => panic!("the run ends in a load, not in {other:?}"),
    }
    assert_eq!(inline.pending_rgp_payload_state(), (0, 0));
}

#[test]
fn the_support_query_is_answered_and_paths_are_loaded_by_name() {
    let mut inline = TerminalInlineObjects::default();
    assert!(matches!(rgp(&mut inline, RgpOperation::SupportQuery), InlineAction::ReplySupport));
    let action = rgp(
        &mut inline,
        RgpOperation::Register {
            object_id: 3,
            format: "obj".to_string(),
            normalize: false,
            source: RgpRegisterSource::Path { path: "CairoSpinyMouse.obj".to_string() },
        },
    );
    match action {
        InlineAction::LoadEmbedded { object_id, path, normalize } => {
            assert_eq!((object_id, path.as_str(), normalize), (3, "CairoSpinyMouse.obj", false));
        }
        other => panic!("a path is loaded by name, not {other:?}"),
    }
}
