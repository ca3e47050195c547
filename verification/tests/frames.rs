//! Frames on their way to the screen.

use parley_ratatui::vello::kurbo::{Affine, Rect};
use parley_ratatui::vello::peniko::{Color, Fill};
use parley_ratatui::vello::Scene;
use ratty::frames::{
    drain_published_frames, take_paintable, BaseColor, DirectTerminalSceneExchange,
    ExtractedDirectTerminalFrames, Frame, LiveSlot,
};
use ratty::identity::TerminalId;
use ratty::number::Single;

type Exchange = DirectTerminalSceneExchange;

/// A scene with something in it.
fn painted_scene() -> Scene {
    let mut scene = Scene::new();
    let square = Rect::new(0.0, 0.0, 4.0, 4.0);
    scene.fill(Fill::NonZero, Affine::IDENTITY, Color::WHITE, None, &square);
    assert!(!scene.encoding().is_empty());
    scene
}

fn frame(width: u32) -> Frame {
    let none = Single { bits: 0 };
    Frame {
        render_image: 1,
        present_image: 2,
        width,
        height: 1,
        base_color: BaseColor { red: none, green: none, blue: none, alpha: none },
        scene: painted_scene(),
    }
}

/// Whether a scene came home that was painted before: it has room.
fn came_home(scene: &Scene) -> bool {
    assert!(scene.encoding().is_empty(), "a taken scene is always empty");
    scene.encoding().path_tags.capacity() > 0
}

fn take_pending_width(exchange: &mut Exchange) -> Option<u32> {
    exchange.take_pending_frame().map(|frame| frame.width)
}

fn width_of(frames: &ExtractedDirectTerminalFrames, id: TerminalId) -> Option<u32> {
    (0..frames.len())
        .map(|at| frames.entry(at))
        .find(|entry| entry.id == id)
        .expect("an entry")
        .frame
        .as_ref()
        .map(|frame| frame.width)
}

fn ids(frames: &ExtractedDirectTerminalFrames) -> Vec<TerminalId> {
    (0..frames.len()).map(|at| frames.entry(at).id).collect()
}

#[test]
fn exchange_last_writer_wins_is_per_terminal() {
    let mut a = Exchange::new();
    let mut b = Exchange::new();
    a.publish_frame(frame(101));
    a.publish_frame(frame(102));
    assert_eq!(take_pending_width(&mut b), None, "two exchanges are two slots");
    assert_eq!(take_pending_width(&mut a), Some(102), "last writer wins within one seat's slot");
    assert!(
        came_home(&a.take_recycled_scene()),
        "the displaced scene came home to A's recycle slot"
    );
    assert!(!came_home(&b.take_recycled_scene()), "recycling never crosses seats");
    assert_eq!(
        take_pending_width(&mut a),
        None,
        "single-slot semantics per terminal: a second take is empty"
    );
}

#[test]
fn extract_keying_routes_by_terminal_id() {
    let id_a = TerminalId::from_raw(1);
    let id_b = TerminalId::from_raw(2);
    let mut live = vec![
        LiveSlot { id: id_a, exchange: Exchange::new() },
        LiveSlot { id: id_b, exchange: Exchange::new() },
    ];
    let mut frames = ExtractedDirectTerminalFrames::new();

    live[0].exchange.publish_frame(frame(101));
    drain_published_frames(&mut live, &mut frames);
    assert_eq!(frames.len(), 2, "two live seats, two entries — exactly");
    assert_eq!(width_of(&frames, id_a), Some(101), "A's publish landed under A's key");
    assert_eq!(width_of(&frames, id_b), None, "B exists but has not published");

    live[1].exchange.publish_frame(frame(202));
    drain_published_frames(&mut live, &mut frames);
    assert_eq!(frames.len(), 2, "still exactly two entries");
    assert_eq!(
        width_of(&frames, id_a),
        Some(101),
        "A's retained frame survives a drain with no new publish (retention)"
    );
    assert_eq!(width_of(&frames, id_b), Some(202), "B's publish landed under B's key");

    live[0].exchange.publish_frame(frame(103));
    drain_published_frames(&mut live, &mut frames);
    assert_eq!(width_of(&frames, id_a), Some(103), "a newer frame supersedes a retained one");
    assert!(came_home(&live[0].exchange.take_recycled_scene()));
    assert!(!came_home(&live[1].exchange.take_recycled_scene()));
}

#[test]
fn retained_frames_swept_on_despawn() {
    let id_a = TerminalId::from_raw(1);
    let id_b = TerminalId::from_raw(2);
    let mut live = vec![
        LiveSlot { id: id_b, exchange: Exchange::new() },
        LiveSlot { id: id_a, exchange: Exchange::new() },
    ];
    let mut frames = ExtractedDirectTerminalFrames::new();
    live[1].exchange.publish_frame(frame(101));
    live[0].exchange.publish_frame(frame(202));
    drain_published_frames(&mut live, &mut frames);
    assert_eq!(frames.len(), 2, "both seats retained while both live");
    assert_eq!(ids(&frames), vec![id_a, id_b], "mint order, whatever the order of the seats");

    live.remove(0);
    drain_published_frames(&mut live, &mut frames);
    assert_eq!(
        ids(&frames),
        vec![id_a],
        "the dead terminal's entry is swept; exactly the live seat remains"
    );
    assert_eq!(width_of(&frames, id_a), Some(101), "the surviving seat's retained frame is intact");
}

#[test]
fn a_frame_is_kept_until_both_textures_have_its_size() {
    let mut live = vec![LiveSlot { id: TerminalId::from_raw(5), exchange: Exchange::new() }];
    live[0].exchange.publish_frame(frame(64));
    let mut frames = ExtractedDirectTerminalFrames::new();
    drain_published_frames(&mut live, &mut frames);
    assert!(frames.take_paintable(0, None, Some((64, 1))).is_none());
    assert!(frames.take_paintable(0, Some((64, 1)), Some((65, 1))).is_none());
    assert!(frames.take_paintable(0, Some((64, 2)), Some((64, 1))).is_none());
    let painted = frames.take_paintable(0, Some((64, 1)), Some((64, 1))).expect("ready");
    assert_eq!(painted.width, 64);
    assert!(frames.take_paintable(0, Some((64, 1)), Some((64, 1))).is_none());

    let mut held = Some(frame(8));
    assert!(take_paintable(&mut held, Some((8, 1)), None).is_none());
    assert!(take_paintable(&mut held, Some((8, 1)), Some((8, 1))).is_some());
    assert!(held.is_none());

    let mut slot = Exchange::new();
    slot.publish_frame(frame(9));
    slot.absorb(&mut held);
    assert_eq!(held.as_ref().map(|frame| frame.width), Some(9));
    slot.recycle_scene(painted_scene());
    slot.recycle_scene(painted_scene());
    assert!(came_home(&slot.take_recycled_scene()));
    assert!(!came_home(&slot.take_recycled_scene()), "one scene is home at a time");
}

#[test]
fn a_frame_keeps_the_color_under_it() {
    let mut slot = Exchange::new();
    let mut published = frame(7);
    published.base_color.green = Single { bits: 0x3f80_0000 };
    let color = published.base_color;
    slot.publish_frame(published);
    assert_eq!(slot.take_pending_frame().map(|frame| frame.base_color), Some(color));
}
