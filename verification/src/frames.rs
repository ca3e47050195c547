//! Frames on their way to the screen.
//!
//! Each terminal has its own slot to publish into: the last frame wins, and
//! the scene of the one that it displaces comes home to be built into again.
//! The painter keeps one frame per live terminal, in the order in which the
//! terminals were minted, until its textures are ready; a frame of a terminal
//! that is gone goes with it.

use parley_ratatui::vello::Scene;
use vstd::prelude::*;
use crate::identity::{law_number_is_identity, TerminalId};
use crate::number::Single;

verus! {

/// A scene of `vello`: what is to be painted.
#[verifier::external_type_specification]
#[verifier::external_body]
pub struct ExScene(parley_ratatui::vello::Scene);

/// Whether a scene has no content.
pub uninterp spec fn scene_is_empty(scene: Scene) -> bool;

/// A scene whose content was removed.
pub uninterp spec fn scene_reset(scene: Scene) -> Scene;

/// `vello::Scene::new`: a scene without content.
#[verifier::external_body]
fn new_scene() -> (scene: Scene)
    ensures
        scene_is_empty(scene),
{
    Scene::new()
}

/// `vello::Scene::reset`: removes all content. What is kept for the next use,
/// such as room, depends on the scene alone and is not stated.
#[verifier::external_body]
fn reset_scene(scene: &mut Scene)
    ensures
        *final(scene) == scene_reset(*old(scene)),
        scene_is_empty(*final(scene)),
{
    scene.reset()
}

/// A color by the bits of its four parts.
#[derive(Clone, Copy, Debug, PartialEq, Eq, Structural)]
pub struct BaseColor {
    /// Red.
    pub red: Single,
    /// Green.
    pub green: Single,
    /// Blue.
    pub blue: Single,
    /// Opacity.
    pub alpha: Single,
}

/// A frame: a scene, the color under it, the textures that it is painted through, and their size.
pub struct Frame {
    /// The texture that is painted into.
    pub render_image: u64,
    /// The texture that is shown.
    pub present_image: u64,
    /// Physical pixels.
    pub width: u32,
    /// Physical pixels.
    pub height: u32,
    /// The color under the scene.
    pub base_color: BaseColor,
    /// The scene.
    pub scene: Scene,
}

/// What a slot holds.
pub struct SlotState {
    /// The published frame.
    pub pending: Option<Frame>,
    /// The scene that came home, without content.
    pub recycled: Option<Scene>,
}

impl SlotState {
    /// A scene that came home has no content.
    pub open spec fn wf(self) -> bool {
        self.recycled matches Some(scene) ==> scene_is_empty(scene)
    }

    /// A scene comes home and loses its content; where one is home already, it
    /// is dropped.
    pub open spec fn with_recycled(self, scene: Scene) -> SlotState {
        SlotState {
            recycled: match self.recycled {
                Some(kept) => Some(kept),
                None => Some(scene_reset(scene)),
            },
            ..self
        }
    }

    /// A frame is published; the scene of the one before comes home.
    pub open spec fn published(self, frame: Frame) -> SlotState {
        let next = SlotState { pending: Some(frame), ..self };
        match self.pending {
            Some(previous) => next.with_recycled(previous.scene),
            None => next,
        }
    }

    /// The published frame is taken by whoever holds a frame already: the slot
    /// afterwards, and the frame that is then held.
    pub open spec fn absorbed(self, held: Option<Frame>) -> (SlotState, Option<Frame>) {
        let emptied = SlotState { pending: None, ..self };
        match (self.pending, held) {
            (Some(next), Some(previous)) => (emptied.with_recycled(previous.scene), Some(next)),
            (Some(next), None) => (emptied, Some(next)),
            (None, held) => (self, held),
        }
    }
}

/// A terminal's slot for frames.
pub struct DirectTerminalSceneExchange {
    pending: Option<Frame>,
    recycled: Option<Scene>,
}

impl View for DirectTerminalSceneExchange {
    type V = SlotState;

    closed spec fn view(&self) -> SlotState {
        SlotState { pending: self.pending, recycled: self.recycled }
    }
}

impl DirectTerminalSceneExchange {
    /// A scene that came home has no content.
    pub open spec fn wf(&self) -> bool {
        self@.wf()
    }

    /// An empty slot.
    pub fn new() -> (slot: DirectTerminalSceneExchange)
        ensures
            slot.wf(),
            slot@ == (SlotState { pending: None, recycled: None }),
    {
        DirectTerminalSceneExchange { pending: None, recycled: None }
    }

    /// Takes the scene that came home, or a new one. It has no content.
    pub fn take_recycled_scene(&mut self) -> (scene: Scene)
        requires
            old(self).wf(),
        ensures
            final(self).wf(),
            scene_is_empty(scene),
            old(self)@.recycled matches Some(kept) ==> scene == kept,
            final(self)@ == (SlotState { recycled: None, ..old(self)@ }),
    {
        let mut scene: Option<Scene> = None;
        std::mem::swap(&mut scene, &mut self.recycled);
        match scene {
            Some(scene) => scene,
            None => new_scene(),
        }
    }

    /// Removes a scene's content and takes it home, unless one is home already.
    pub fn recycle_scene(&mut self, scene: Scene)
        requires
            old(self).wf(),
        ensures
            final(self).wf(),
            final(self)@ == old(self)@.with_recycled(scene),
    {
        let mut scene = scene;
        reset_scene(&mut scene);
        if self.recycled.is_none() {
            self.recycled = Some(scene);
        }
    }

    /// Publishes a frame in place of the one before.
    pub fn publish_frame(&mut self, frame: Frame)
        requires
            old(self).wf(),
        ensures
            final(self).wf(),
            final(self)@ == old(self)@.published(frame),
    {
        let mut previous: Option<Frame> = Some(frame);
        std::mem::swap(&mut previous, &mut self.pending);
        if let Some(previous) = previous {
            self.recycle_scene(previous.scene);
        }
    }

    /// Takes the published frame.
    pub fn take_pending_frame(&mut self) -> (frame: Option<Frame>)
        ensures
            final(self).wf() == old(self).wf(),
            frame == old(self)@.pending,
            final(self)@ == (SlotState { pending: None, ..old(self)@ }),
    {
        let mut frame: Option<Frame> = None;
        std::mem::swap(&mut frame, &mut self.pending);
        frame
    }

    /// Has the published frame take the place of a held one, whose scene comes
    /// home.
    pub fn absorb(&mut self, held: &mut Option<Frame>)
        requires
            old(self).wf(),
        ensures
            final(self).wf(),
            (final(self)@, *final(held)) == old(self)@.absorbed(*old(held)),
    {
        if let Some(next) = self.take_pending_frame() {
            let mut previous: Option<Frame> = Some(next);
            std::mem::swap(&mut previous, held);
            if let Some(previous) = previous {
                self.recycle_scene(previous.scene);
            }
        }
    }
}

/// Whether a frame can be painted: both textures are there and have its size.
pub open spec fn paintable(
    frame: Frame,
    render: Option<(u32, u32)>,
    present: Option<(u32, u32)>,
) -> bool {
    render == Some((frame.width, frame.height)) && present == Some((frame.width, frame.height))
}

fn has_size(size: Option<(u32, u32)>, width: u32, height: u32) -> (same: bool)
    ensures
        same == (size == Some((width, height))),
{
    match size {
        Some((w, h)) => w == width && h == height,
        None => false,
    }
}

/// Takes a held frame to be painted, if its textures are there and have its
/// size; otherwise it stays held for the next time.
pub fn take_paintable(
    held: &mut Option<Frame>,
    render: Option<(u32, u32)>,
    present: Option<(u32, u32)>,
) -> (frame: Option<Frame>)
    ensures
        match *old(held) {
            Some(current) => if paintable(current, render, present) {
                frame == Some(current) && *final(held) is None
            } else {
                frame is None && *final(held) == Some(current)
            },
            None => frame is None && *final(held) is None,
        },
{
    let ready: bool = match held {
        Some(frame) => has_size(render, frame.width, frame.height) && has_size(
            present,
            frame.width,
            frame.height,
        ),
        None => false,
    };
    let mut frame: Option<Frame> = None;
    if ready {
        std::mem::swap(&mut frame, held);
    }
    frame
}

/// A terminal's held frame.
pub struct RetainedTerminalFrame {
    /// The terminal.
    pub id: TerminalId,
    /// The frame, until it is painted.
    pub frame: Option<Frame>,
}

/// A live terminal and its slot.
pub struct LiveSlot {
    /// The terminal.
    pub id: TerminalId,
    /// Its slot.
    pub exchange: DirectTerminalSceneExchange,
}

/// The painter's frames, one entry per terminal, by mint order.
pub struct ExtractedDirectTerminalFrames {
    entries: Vec<RetainedTerminalFrame>,
}

impl View for ExtractedDirectTerminalFrames {
    type V = Seq<RetainedTerminalFrame>;

    closed spec fn view(&self) -> Seq<RetainedTerminalFrame> {
        self.entries@
    }
}

/// Whether entries stand in mint order, one per terminal.
pub open spec fn in_mint_order(entries: Seq<RetainedTerminalFrame>) -> bool {
    forall|i: int, j: int|
        0 <= i < j < entries.len() ==> (#[trigger] entries[i]).id.number() < (
        #[trigger] entries[j]).id.number()
}

/// Whether a terminal has an entry.
pub open spec fn has_entry(entries: Seq<RetainedTerminalFrame>, id: TerminalId) -> bool {
    exists|i: int| 0 <= i < entries.len() && (#[trigger] entries[i]).id == id
}

/// A terminal's held frame.
pub open spec fn held_frame(entries: Seq<RetainedTerminalFrame>, id: TerminalId) -> Option<
    Frame,
> {
    if has_entry(entries, id) {
        entries[choose|i: int| 0 <= i < entries.len() && (#[trigger] entries[i]).id == id].frame
    } else {
        None
    }
}

/// Whether a terminal is among the live.
pub open spec fn is_live(live: Seq<LiveSlot>, id: TerminalId) -> bool {
    exists|i: int| 0 <= i < live.len() && (#[trigger] live[i]).id == id
}

/// Whether no terminal is listed twice.
pub open spec fn slots_differ(live: Seq<LiveSlot>) -> bool {
    forall|i: int, j: int|
        0 <= i < j < live.len() ==> (#[trigger] live[i]).id != (#[trigger] live[j]).id
}

/// Whether every slot is in order.
pub open spec fn slots_wf(live: Seq<LiveSlot>) -> bool {
    forall|i: int| 0 <= i < live.len() ==> (#[trigger] live[i]).exchange.wf()
}

/// Whether frames were drained: the entries are those of the live terminals;
/// each holds what its terminal published, or else what it held before; each
/// slot is empty, and has the scene that was displaced.
pub open spec fn drained(
    before: Seq<RetainedTerminalFrame>,
    live: Seq<LiveSlot>,
    after: Seq<RetainedTerminalFrame>,
    slots: Seq<LiveSlot>,
) -> bool {
    &&& in_mint_order(after)
    &&& forall|id: TerminalId| #[trigger] has_entry(after, id) <==> is_live(live, id)
    &&& slots.len() == live.len()
    &&& forall|i: int| #![trigger live[i]] #![trigger slots[i]]
        0 <= i < live.len() ==> slots[i].id == live[i].id && (
        slots[i].exchange@,
        held_frame(after, live[i].id),
    ) == live[i].exchange@.absorbed(held_frame(before, live[i].id))
}

proof fn lemma_held(entries: Seq<RetainedTerminalFrame>, i: int)
    requires
        in_mint_order(entries),
        0 <= i < entries.len(),
    ensures
        has_entry(entries, entries[i].id),
        held_frame(entries, entries[i].id) == entries[i].frame,
{
    let j = choose|j: int| 0 <= j < entries.len() && (#[trigger] entries[j]).id == entries[i].id;
    if j < i {
        assert(entries[j].id.number() < entries[i].id.number());
    } else if i < j {
        assert(entries[i].id.number() < entries[j].id.number());
    }
}

proof fn lemma_same_id(a: TerminalId, b: TerminalId)
    ensures
        a == b <==> a.number() == b.number(),
{
    law_number_is_identity(a, b);
}

impl ExtractedDirectTerminalFrames {
    /// The entries stand in mint order, one per terminal.
    pub open spec fn wf(&self) -> bool {
        in_mint_order(self@)
    }

    /// No frames.
    pub fn new() -> (frames: ExtractedDirectTerminalFrames)
        ensures
            frames.wf(),
            frames@ == Seq::<RetainedTerminalFrame>::empty(),
    {
        let frames = ExtractedDirectTerminalFrames { entries: Vec::new() };
        assert(frames@ =~= Seq::empty());
        frames
    }

    /// How many terminals have an entry.
    pub fn len(&self) -> (count: usize)
        ensures
            count == self@.len(),
    {
        self.entries.len()
    }

    /// An entry, in mint order.
    pub fn entry(&self, at: usize) -> (entry: &RetainedTerminalFrame)
        requires
            at < self@.len(),
        ensures
            *entry == self@[at as int],
    {
        &self.entries[at]
    }

    /// Takes an entry's frame to be painted, if its textures are there and have
    /// its size.
    pub fn take_paintable(
        &mut self,
        at: usize,
        render: Option<(u32, u32)>,
        present: Option<(u32, u32)>,
    ) -> (frame: Option<Frame>)
        requires
            old(self).wf(),
            at < old(self)@.len(),
        ensures
            final(self).wf(),
            final(self)@.len() == old(self)@.len(),
            forall|i: int|
                0 <= i < old(self)@.len() && i != at ==> #[trigger] final(self)@[i] == old(
                    self,
                )@[i],
            final(self)@[at as int].id == old(self)@[at as int].id,
            match old(self)@[at as int].frame {
                Some(current) => if paintable(current, render, present) {
                    frame == Some(current) && final(self)@[at as int].frame is None
                } else {
                    frame is None && final(self)@[at as int].frame == Some(current)
                },
                None => frame is None && final(self)@[at as int].frame is None,
            },
    {
        take_paintable(&mut self.entries[at].frame, render, present)
    }

    fn position(&self, id: TerminalId) -> (at: usize)
        requires
            self.wf(),
        ensures
            at <= self@.len(),
            forall|i: int| 0 <= i < at ==> (#[trigger] self@[i]).id.number() < id.number(),
            forall|i: int|
                at <= i < self@.len() ==> id.number() <= (#[trigger] self@[i]).id.number(),
    {
        let mut at: usize = 0;
        while at < self.entries.len() && self.entries[at].id.raw() < id.raw()
            invariant
                at <= self@.len(),
                self@ == self.entries@,
                forall|i: int| 0 <= i < at ==> (#[trigger] self@[i]).id.number() < id.number(),
            decreases self.entries.len() - at,
        {
            at += 1;
        }
        assert forall|i: int| at <= i < self@.len() implies id.number() <= (
        #[trigger] self@[i]).id.number() by {
            if i > at {
                assert(self@[at as int].id.number() < self@[i].id.number());
            }
        }
        at
    }

    fn drain_slot(&mut self, id: TerminalId, exchange: &mut DirectTerminalSceneExchange)
        requires
            old(self).wf(),
            old(exchange).wf(),
        ensures
            final(self).wf(),
            final(exchange).wf(),
            forall|other: TerminalId| #[trigger]
                has_entry(final(self)@, other) <==> has_entry(old(self)@, other) || other == id,
            forall|other: TerminalId|
                other != id ==> #[trigger] held_frame(final(self)@, other) == held_frame(
                    old(self)@,
                    other,
                ),
            (final(exchange)@, held_frame(final(self)@, id)) == old(exchange)@.absorbed(
                held_frame(old(self)@, id),
            ),
    {
        let ghost start = self@;
        let at = self.position(id);
        let found: bool = at < self.entries.len() && self.entries[at].id == id;
        if !found {
            proof {
                assert forall|i: int| 0 <= i < start.len() implies (#[trigger] start[i]).id != id by {
                    lemma_same_id(start[i].id, id);
                    if i > at {
                        assert(start[at as int].id.number() < start[i].id.number());
                    }
                    lemma_same_id(start[at as int].id, id);
                }
            }
            self.entries.insert(at, RetainedTerminalFrame { id, frame: None });
            proof {
                let grown = self@;
                assert(forall|i: int| 0 <= i < at ==> grown[i] == start[i]);
                assert(grown[at as int].id == id);
                assert(forall|i: int| at < i < grown.len() ==> #[trigger] grown[i] == start[i - 1]);
                assert forall|i: int, j: int| 0 <= i < j < grown.len() implies (
                #[trigger] grown[i]).id.number() < (#[trigger] grown[j]).id.number() by {
                    if i == at {
                        lemma_same_id(start[j - 1].id, id);
                    } else if i > at {
                        assert(start[i - 1].id.number() < start[j - 1].id.number());
                    } else if j > at {
                        assert(start[i].id.number() < start[j - 1].id.number());
                    } else if j < at {
                        assert(start[i].id.number() < start[j].id.number());
                    }
                }
                assert forall|other: TerminalId| #[trigger]
                    has_entry(grown, other) <==> has_entry(start, other) || other == id by {
                    if has_entry(start, other) {
                        let k = choose|k: int| 0 <= k < start.len() && (#[trigger] start[k]).id
                            == other;
                        if k < at {
                            assert(grown[k].id == other);
                        } else {
                            assert(grown[k + 1].id == other);
                        }
                    }
                    if other == id {
                        assert(grown[at as int].id == other);
                    }
                    if has_entry(grown, other) && other != id {
                        let k = choose|k: int| 0 <= k < grown.len() && (#[trigger] grown[k]).id
                            == other;
                        if k < at {
                            assert(start[k].id == other);
                        } else {
                            assert(start[k - 1].id == other);
                        }
                    }
                }
                assert forall|other: TerminalId| other != id implies #[trigger] held_frame(
                    grown,
                    other,
                ) == held_frame(start, other) by {
                    if has_entry(start, other) {
                        let k = choose|k: int| 0 <= k < start.len() && (#[trigger] start[k]).id
                            == other;
                        lemma_held(start, k);
                        if k < at {
                            lemma_held(grown, k);
                            assert(grown[k].id == other);
                        } else {
                            lemma_held(grown, k + 1);
                            assert(grown[k + 1].id == other);
                        }
                    }
                }
                lemma_held(grown, at as int);
                assert(!has_entry(start, id));
            }
        } else {
            proof {
                lemma_held(start, at as int);
            }
        }
        let ghost middle = self@;
        exchange.absorb(&mut self.entries[at].frame);
        proof {
            let after = self@;
            assert(forall|i: int| 0 <= i < after.len() ==> (#[trigger] after[i]).id == middle[i].id);
            assert(in_mint_order(after)) by {
                assert forall|i: int, j: int| 0 <= i < j < after.len() implies (
                #[trigger] after[i]).id.number() < (#[trigger] after[j]).id.number() by {
                    assert(middle[i].id.number() < middle[j].id.number());
                }
            }
            assert forall|other: TerminalId| #[trigger] has_entry(after, other) <==> has_entry(
                middle,
                other,
            ) by {
                if has_entry(middle, other) {
                    let k = choose|k: int| 0 <= k < middle.len() && (#[trigger] middle[k]).id
                        == other;
                    assert(after[k].id == other);
                }
                if has_entry(after, other) {
                    let k = choose|k: int| 0 <= k < after.len() && (#[trigger] after[k]).id == other;
                    assert(middle[k].id == other);
                }
            }
            assert forall|other: TerminalId| other != id implies #[trigger] held_frame(after, other)
                == held_frame(middle, other) by {
                if has_entry(middle, other) {
                    let k = choose|k: int| 0 <= k < middle.len() && (#[trigger] middle[k]).id
                        == other;
                    lemma_held(middle, k);
                    lemma_held(after, k);
                }
            }
            lemma_held(after, at as int);
            lemma_held(middle, at as int);
        }
    }
}

fn lists(live: &Vec<LiveSlot>, id: TerminalId) -> (found: bool)
    ensures
        found == is_live(live@, id),
{
    let mut i: usize = 0;
    while i < live.len()
        invariant
            i <= live@.len(),
            forall|j: int| 0 <= j < i ==> (#[trigger] live@[j]).id != id,
        decreases live.len() - i,
    {
        if live[i].id == id {
            assert(live@[i as int].id == id);
            return true;
        }
        i += 1;
    }
    false
}

fn sweep(frames: &mut ExtractedDirectTerminalFrames, live: &Vec<LiveSlot>)
    requires
        old(frames).wf(),
    ensures
        final(frames).wf(),
        forall|id: TerminalId| #[trigger]
            has_entry(final(frames)@, id) <==> has_entry(old(frames)@, id) && is_live(live@, id),
        forall|id: TerminalId|
            is_live(live@, id) ==> #[trigger] held_frame(final(frames)@, id) == held_frame(
                old(frames)@,
                id,
            ),
{
    let mut i: usize = 0;
    while i < frames.entries.len()
        invariant
            i <= frames@.len(),
            frames@ == frames.entries@,
            frames.wf(),
            forall|j: int| 0 <= j < i ==> is_live(live@, (#[trigger] frames@[j]).id),
            forall|id: TerminalId|
                is_live(live@, id) ==> (#[trigger] has_entry(frames@, id) <==> has_entry(
                    old(frames)@,
                    id,
                )),
            forall|id: TerminalId| #[trigger]
                has_entry(frames@, id) ==> has_entry(old(frames)@, id),
            forall|id: TerminalId|
                is_live(live@, id) ==> #[trigger] held_frame(frames@, id) == held_frame(
                    old(frames)@,
                    id,
                ),
        decreases frames.entries.len() - i,
    {
        if lists(live, frames.entries[i].id) {
            i += 1;
        } else {
            let ghost before = frames@;
            frames.entries.remove(i);
            proof {
                let after = frames@;
                assert(after =~= before.remove(i as int));
                assert forall|a: int, b: int| 0 <= a < b < after.len() implies (
                #[trigger] after[a]).id.number() < (#[trigger] after[b]).id.number() by {
                    let x = if a < i {
                        a
                    } else {
                        a + 1
                    };
                    let y = if b < i {
                        b
                    } else {
                        b + 1
                    };
                    assert(before[x].id.number() < before[y].id.number());
                }
                assert forall|id: TerminalId| is_live(live@, id) implies (
                #[trigger] has_entry(after, id) <==> has_entry(before, id)) && held_frame(after, id)
                    == held_frame(before, id) by {
                    if has_entry(before, id) {
                        let k = choose|k: int| 0 <= k < before.len() && (#[trigger] before[k]).id
                            == id;
                        lemma_held(before, k);
                        if k < i {
                            assert(after[k] == before[k]);
                            lemma_held(after, k);
                        } else {
                            assert(k != i);
                            assert(after[k - 1] == before[k]);
                            lemma_held(after, k - 1);
                        }
                    }
                    if has_entry(after, id) {
                        let k = choose|k: int| 0 <= k < after.len() && (#[trigger] after[k]).id
                            == id;
                        if k < i {
                            assert(before[k].id == id);
                        } else {
                            assert(before[k + 1].id == id);
                        }
                    }
                }
                assert forall|id: TerminalId| #[trigger] has_entry(after, id) implies has_entry(
                    old(frames)@,
                    id,
                ) by {
                    let k = choose|k: int| 0 <= k < after.len() && (#[trigger] after[k]).id == id;
                    if k < i {
                        assert(before[k].id == id);
                    } else {
                        assert(before[k + 1].id == id);
                    }
                    assert(has_entry(before, id));
                }
                assert forall|id: TerminalId| is_live(live@, id) implies #[trigger] held_frame(
                    after,
                    id,
                ) == held_frame(old(frames)@, id) by {
                    assert(has_entry(after, id) <==> has_entry(before, id));
                    assert(held_frame(before, id) == held_frame(old(frames)@, id));
                }
            }
        }
    }
    proof {
        assert forall|id: TerminalId| #[trigger] has_entry(frames@, id) implies is_live(
            live@,
            id,
        ) by {
            let k = choose|k: int| 0 <= k < frames@.len() && (#[trigger] frames@[k]).id == id;
            assert(is_live(live@, frames@[k].id));
        }
    }
}

/// Takes what each live terminal published, and drops the frames of those that
/// are gone.
pub fn drain_published_frames(
    live: &mut Vec<LiveSlot>,
    frames: &mut ExtractedDirectTerminalFrames,
)
    requires
        old(frames).wf(),
        slots_differ(old(live)@),
        slots_wf(old(live)@),
    ensures
        final(frames).wf(),
        slots_wf(final(live)@),
        drained(old(frames)@, old(live)@, final(frames)@, final(live)@),
{
    let ghost start = frames@;
    let ghost slots = live@;
    let mut i: usize = 0;
    while i < live.len()
        invariant
            i <= live@.len(),
            live@.len() == slots.len(),
            slots_differ(slots),
            slots_wf(live@),
            frames.wf(),
            forall|j: int| 0 <= j < slots.len() ==> (#[trigger] live@[j]).id == slots[j].id,
            forall|j: int| i <= j < slots.len() ==> #[trigger] live@[j] == slots[j],
            forall|j: int| i <= j < slots.len() ==> held_frame(
                frames@,
                (#[trigger] slots[j]).id,
            ) == held_frame(start, slots[j].id),
            forall|j: int|
                0 <= j < i ==> has_entry(frames@, (#[trigger] slots[j]).id) && (
                live@[j].exchange@,
                held_frame(frames@, slots[j].id),
                ) == slots[j].exchange@.absorbed(held_frame(start, slots[j].id)),
        decreases live.len() - i,
    {
        let id: TerminalId = live[i].id;
        let ghost before = frames@;
        frames.drain_slot(id, &mut live[i].exchange);
        proof {
            assert forall|j: int| i < j < slots.len() implies held_frame(
                frames@,
                (#[trigger] slots[j]).id,
            ) == held_frame(start, slots[j].id) by {
                assert(slots[i as int].id != slots[j].id);
                assert(held_frame(before, slots[j].id) == held_frame(start, slots[j].id));
            }
            assert forall|j: int| 0 <= j < i implies has_entry(frames@, (#[trigger] slots[j]).id)
                && (live@[j].exchange@, held_frame(frames@, slots[j].id))
                == slots[j].exchange@.absorbed(held_frame(start, slots[j].id)) by {
                assert(slots[j].id != slots[i as int].id);
                assert(has_entry(before, slots[j].id));
            }
        }
        i += 1;
    }
    let ghost full = frames@;
    proof {
        assert forall|id: TerminalId| is_live(live@, id) <==> is_live(slots, id) by {
            if is_live(slots, id) {
                let k = choose|k: int| 0 <= k < slots.len() && (#[trigger] slots[k]).id == id;
                assert(live@[k].id == id);
            }
            if is_live(live@, id) {
                let k = choose|k: int| 0 <= k < live@.len() && (#[trigger] live@[k]).id == id;
                assert(slots[k].id == id);
            }
        }
    }
    sweep(frames, live);
    proof {
        assert forall|id: TerminalId| #[trigger] has_entry(frames@, id) <==> is_live(slots, id) by {
            if is_live(slots, id) {
                let k = choose|k: int| 0 <= k < slots.len() && (#[trigger] slots[k]).id == id;
                assert(has_entry(full, slots[k].id));
            }
        }
        assert forall|j: int| 0 <= j < slots.len() implies (#[trigger] live@[j]).id == slots[j].id
            && (live@[j].exchange@, held_frame(frames@, slots[j].id))
            == slots[j].exchange@.absorbed(held_frame(start, slots[j].id)) by {
            assert(has_entry(full, slots[j].id));
            assert(is_live(slots, slots[j].id));
            assert(is_live(live@, slots[j].id));
        }
    }
}

/// The last frame wins, and no scene is lost on the way home while the slot
/// for it is free.
pub proof fn law_last_writer_wins(slot: SlotState, first: Frame, second: Frame)
    ensures
        slot.published(first).published(second).pending == Some(second),
        slot.recycled is None && slot.pending is None ==> slot.published(first).published(
            second,
        ).recycled == Some(scene_reset(first.scene)),
{
}

/// A terminal that is gone keeps no frame, and one that published nothing keeps
/// what it had.
pub proof fn law_frames_go_with_their_terminal(
    before: Seq<RetainedTerminalFrame>,
    live: Seq<LiveSlot>,
    after: Seq<RetainedTerminalFrame>,
    slots: Seq<LiveSlot>,
    id: TerminalId,
)
    requires
        drained(before, live, after, slots),
    ensures
        !is_live(live, id) ==> !has_entry(after, id) && held_frame(after, id) is None,
        forall|i: int|
            0 <= i < live.len() && (#[trigger] live[i]).exchange@.pending is None ==> held_frame(
                after,
                live[i].id,
            ) == held_frame(before, live[i].id),
{
}

/// A published frame waits, field by field, and the one that it displaces sends
/// its scene home, unless one is home already.
pub proof fn law_published_frames_wait(slot: SlotState, frame: Frame)
    ensures
        slot.published(frame).pending == Some(frame),
        slot.pending is None ==> slot.published(frame).recycled == slot.recycled,
        slot.recycled is Some ==> slot.published(frame).recycled == slot.recycled,
        slot.pending matches Some(previous) ==> (slot.recycled is None ==> slot.published(
            frame,
        ).recycled == Some(scene_reset(previous.scene))),
{
}

/// A painter that absorbs a slot holds the newest frame: the published one where
/// there is one, and then the slot is empty; else the one that it held.
pub proof fn law_painters_hold_the_newest_frame(slot: SlotState, held: Option<Frame>)
    ensures
        ({
            let (after, holds) = slot.absorbed(held);
            &&& slot.pending is Some ==> holds == slot.pending && after.pending is None
            &&& slot.pending is None ==> holds == held && after == slot
            &&& slot.pending is Some && held is Some && slot.recycled is None ==> after.recycled
                == Some(scene_reset(held->0.scene))
            &&& slot.pending is Some && (held is None || slot.recycled is Some) ==> after.recycled
                == slot.recycled
        }),
{
}

/// A frame is painted only into textures that are both there and both have its
/// width and its height.
pub proof fn law_frames_are_painted_at_their_size(
    frame: Frame,
    render: Option<(u32, u32)>,
    present: Option<(u32, u32)>,
)
    ensures
        paintable(frame, render, present) <==> (render matches Some(size) && size.0 == frame.width
            && size.1 == frame.height) && (present matches Some(size) && size.0 == frame.width
            && size.1 == frame.height),
{
}

/// What is held for a terminal after a frame is what its own slot gave, for each
/// live terminal once, in the order in which they were minted.
pub proof fn law_frames_are_held_by_terminal(
    before: Seq<RetainedTerminalFrame>,
    live: Seq<LiveSlot>,
    after: Seq<RetainedTerminalFrame>,
    slots: Seq<LiveSlot>,
    at: int,
)
    requires
        drained(before, live, after, slots),
        0 <= at < live.len(),
    ensures
        has_entry(after, live[at].id),
        live[at].exchange@.pending is Some ==> held_frame(after, live[at].id)
            == live[at].exchange@.pending && slots[at].exchange@.pending is None,
        slots[at].id == live[at].id,
        forall|i: int, j: int|
            0 <= i < j < after.len() ==> (#[trigger] after[i]).id.number() < (
            #[trigger] after[j]).id.number(),
{
    assert(is_live(live, live[at].id));
    assert(slots[at].id == live[at].id);
}

/// What is held for a terminal is what its own entry holds.
pub proof fn law_entries_hold_their_own_frames(
    entries: Seq<RetainedTerminalFrame>,
    at: int,
    id: TerminalId,
)
    requires
        in_mint_order(entries),
    ensures
        0 <= at < entries.len() ==> has_entry(entries, entries[at].id) && held_frame(
            entries,
            entries[at].id,
        ) == entries[at].frame,
        (forall|i: int| 0 <= i < entries.len() ==> (#[trigger] entries[i]).id != id) ==> !has_entry(
            entries,
            id,
        ) && held_frame(entries, id) is None,
{
    if 0 <= at < entries.len() {
        lemma_held(entries, at);
    }
}

} // verus!
