//! Inline objects: images and models that live on a terminal's cells.
//!
//! Object ids are partitioned. Agents own the upper half; the graphics
//! protocols own the rest. Each surface refuses to create, change or remove
//! ids of the other's part, whatever a program prints.

use std::collections::{HashMap, HashSet};
use vstd::prelude::*;
use crate::number::Single;
use crate::osc::{ai_object_namespace, object_namespace};
use crate::pty::{PtyStream, StreamState};
use crate::screen::{screen_cursor, shown, TerminalScreen};
use crate::text::same_text;

verus! {

broadcast use vstd::std_specs::hash::group_hash_axioms;

/// Upper bound on the combined size of all chunked payloads in flight.
pub const MAX_PENDING_RGP_PAYLOAD_BYTES: usize = 67_108_864;

/// Upper bound on the number of chunked payloads in flight.
pub const MAX_PENDING_RGP_PAYLOADS: usize = 256;

/// Columns of an agent's object.
pub const AI_OBJECT_COLUMNS: u32 = 12;

/// Rows of an agent's object.
pub const AI_OBJECT_ROWS: u32 = 6;

/// Three numbers.
#[derive(Clone, Copy, Debug, PartialEq, Eq, Structural)]
pub struct Triple {
    /// Along the first axis.
    pub x: Single,
    /// Along the second axis.
    pub y: Single,
    /// Along the third axis.
    pub z: Single,
}

/// How an inline object looks and moves.
#[derive(Clone, Copy, Debug, PartialEq, Eq)]
pub struct InlineStyle {
    /// Enables default animation.
    pub animate: bool,
    /// Scale multiplier.
    pub scale: Single,
    /// Extrusion depth.
    pub depth: Single,
    /// Optional object color.
    pub color: Option<(u8, u8, u8)>,
    /// Brightness multiplier.
    pub brightness: Single,
    /// Translation relative to the anchor.
    pub offset: Triple,
    /// Rotation in degrees.
    pub rotation: Triple,
    /// Non-uniform scale multiplier.
    pub scale3: Triple,
    /// Spin speed; absent, the configured one.
    pub spin: Option<Single>,
    /// Bob speed; absent, the configured one.
    pub bob: Option<Single>,
    /// Bob amplitude; absent, the configured one.
    pub bob_amplitude: Option<Single>,
    /// Constant phase offset.
    pub phase: Single,
}

/// Zero on every axis.
pub open spec fn zeros() -> Triple {
    Triple { x: Single { bits: 0 }, y: Single { bits: 0 }, z: Single { bits: 0 } }
}

/// The style with every field empty.
pub open spec fn plain_style() -> InlineStyle {
    InlineStyle {
        animate: false,
        scale: Single { bits: 0 },
        depth: Single { bits: 0 },
        color: None,
        brightness: Single { bits: 0 },
        offset: zeros(),
        rotation: zeros(),
        scale3: zeros(),
        spin: None,
        bob: None,
        bob_amplitude: None,
        phase: Single { bits: 0 },
    }
}

fn no_offset() -> (triple: Triple)
    ensures
        triple == zeros(),
{
    Triple { x: Single { bits: 0 }, y: Single { bits: 0 }, z: Single { bits: 0 } }
}

impl Default for InlineStyle {
    fn default() -> (style: Self)
        ensures
            style == plain_style(),
    {
        InlineStyle {
            animate: false,
            scale: Single { bits: 0 },
            depth: Single { bits: 0 },
            color: None,
            brightness: Single { bits: 0 },
            offset: no_offset(),
            rotation: no_offset(),
            scale3: no_offset(),
            spin: None,
            bob: None,
            bob_amplitude: None,
            phase: Single { bits: 0 },
        }
    }
}

/// The style that a placement sequence carries.
#[derive(Clone, Copy, Debug, PartialEq, Eq)]
pub struct RgpPlacementStyle {
    /// Enables default animation.
    pub animate: bool,
    /// Scale multiplier.
    pub scale: Single,
    /// Extrusion depth.
    pub depth: Single,
    /// Optional object color.
    pub color: Option<(u8, u8, u8)>,
    /// Brightness multiplier.
    pub brightness: Single,
    /// Translation relative to the anchor.
    pub offset: (Single, Single, Single),
    /// Rotation in degrees.
    pub rotation: (Single, Single, Single),
    /// Non-uniform scale multiplier.
    pub scale3: (Single, Single, Single),
    /// Spin speed.
    pub spin: Option<Single>,
    /// Bob speed.
    pub bob: Option<Single>,
    /// Bob amplitude.
    pub bob_amplitude: Option<Single>,
    /// Constant phase offset.
    pub phase: Single,
}

/// Three numbers of a sequence.
pub open spec fn triple_of(numbers: (Single, Single, Single)) -> Triple {
    Triple { x: numbers.0, y: numbers.1, z: numbers.2 }
}

/// The style that a placement gives, field by field.
pub open spec fn placed_style(style: RgpPlacementStyle) -> InlineStyle {
    InlineStyle {
        animate: style.animate,
        scale: style.scale,
        depth: style.depth,
        color: style.color,
        brightness: style.brightness,
        offset: triple_of(style.offset),
        rotation: triple_of(style.rotation),
        scale3: triple_of(style.scale3),
        spin: style.spin,
        bob: style.bob,
        bob_amplitude: style.bob_amplitude,
        phase: style.phase,
    }
}

fn to_triple(numbers: (Single, Single, Single)) -> (triple: Triple)
    ensures
        triple == triple_of(numbers),
{
    Triple { x: numbers.0, y: numbers.1, z: numbers.2 }
}

impl InlineStyle {
    /// The style that a placement gives.
    pub fn from_placement(style: RgpPlacementStyle) -> (given: InlineStyle)
        ensures
            given == placed_style(style),
    {
        InlineStyle {
            animate: style.animate,
            scale: style.scale,
            depth: style.depth,
            color: style.color,
            brightness: style.brightness,
            offset: to_triple(style.offset),
            rotation: to_triple(style.rotation),
            scale3: to_triple(style.scale3),
            spin: style.spin,
            bob: style.bob,
            bob_amplitude: style.bob_amplitude,
            phase: style.phase,
        }
    }
}

/// Optional new numbers for the three axes.
#[derive(Clone, Copy, Debug, PartialEq, Eq, Structural)]
pub struct TripleUpdate {
    /// Along the first axis.
    pub x: Option<Single>,
    /// Along the second axis.
    pub y: Option<Single>,
    /// Along the third axis.
    pub z: Option<Single>,
}

/// The fields that an update sequence changes.
#[derive(Clone, Copy, Debug, PartialEq, Eq)]
pub struct RgpPlacementUpdate {
    /// Enables default animation.
    pub animate: Option<bool>,
    /// Scale multiplier.
    pub scale: Option<Single>,
    /// Extrusion depth.
    pub depth: Option<Single>,
    /// Object color.
    pub color: Option<(u8, u8, u8)>,
    /// Brightness multiplier.
    pub brightness: Option<Single>,
    /// Translation relative to the anchor.
    pub offset: TripleUpdate,
    /// Rotation in degrees.
    pub rotation: TripleUpdate,
    /// Non-uniform scale multiplier.
    pub scale3: TripleUpdate,
    /// Spin speed.
    pub spin: Option<Single>,
    /// Bob speed.
    pub bob: Option<Single>,
    /// Bob amplitude.
    pub bob_amplitude: Option<Single>,
    /// Constant phase offset.
    pub phase: Option<Single>,
}

/// A new value over an old one.
pub open spec fn over<T>(new: Option<T>, kept: T) -> T {
    match new {
        Some(value) => value,
        None => kept,
    }
}

/// A new rate over an old one: an update sets a rate, it never clears one.
pub open spec fn over_rate<T>(new: Option<T>, kept: Option<T>) -> Option<T> {
    match new {
        Some(value) => Some(value),
        None => kept,
    }
}

/// Three numbers after an update.
pub open spec fn updated_triple(kept: Triple, update: TripleUpdate) -> Triple {
    Triple { x: over(update.x, kept.x), y: over(update.y, kept.y), z: over(update.z, kept.z) }
}

/// A style after an update.
pub open spec fn updated_style(kept: InlineStyle, update: RgpPlacementUpdate) -> InlineStyle {
    InlineStyle {
        animate: over(update.animate, kept.animate),
        scale: over(update.scale, kept.scale),
        depth: over(update.depth, kept.depth),
        color: over_rate(update.color, kept.color),
        brightness: over(update.brightness, kept.brightness),
        offset: updated_triple(kept.offset, update.offset),
        rotation: updated_triple(kept.rotation, update.rotation),
        scale3: updated_triple(kept.scale3, update.scale3),
        spin: over_rate(update.spin, kept.spin),
        bob: over_rate(update.bob, kept.bob),
        bob_amplitude: over_rate(update.bob_amplitude, kept.bob_amplitude),
        phase: over(update.phase, kept.phase),
    }
}

fn apply_vec3_update(target: &mut Triple, update: TripleUpdate)
    ensures
        *final(target) == updated_triple(*old(target), update),
{
    if let Some(x) = update.x {
        target.x = x;
    }
    if let Some(y) = update.y {
        target.y = y;
    }
    if let Some(z) = update.z {
        target.z = z;
    }
}

fn apply_rgp_update(style: &mut InlineStyle, update: RgpPlacementUpdate)
    ensures
        *final(style) == updated_style(*old(style), update),
{
    if let Some(animate) = update.animate {
        style.animate = animate;
    }
    if let Some(scale) = update.scale {
        style.scale = scale;
    }
    if let Some(depth) = update.depth {
        style.depth = depth;
    }
    if let Some(color) = update.color {
        style.color = Some(color);
    }
    if let Some(brightness) = update.brightness {
        style.brightness = brightness;
    }
    apply_vec3_update(&mut style.offset, update.offset);
    apply_vec3_update(&mut style.rotation, update.rotation);
    apply_vec3_update(&mut style.scale3, update.scale3);
    if let Some(spin) = update.spin {
        style.spin = Some(spin);
    }
    if let Some(bob) = update.bob {
        style.bob = Some(bob);
    }
    if let Some(bob_amplitude) = update.bob_amplitude {
        style.bob_amplitude = Some(bob_amplitude);
    }
    if let Some(phase) = update.phase {
        style.phase = phase;
    }
}

/// Where an inline object stands.
#[derive(Clone, Copy, Debug, PartialEq, Eq)]
pub struct InlineAnchor {
    /// Anchor row.
    pub row: u16,
    /// Anchor column.
    pub col: u16,
    /// Object width in cells.
    pub columns: u32,
    /// Object height in cells.
    pub rows: u32,
    /// Inline styling.
    pub style: InlineStyle,
}

/// Raster image payload.
#[derive(Debug)]
pub struct RasterObject {
    /// Image width in pixels.
    pub width: u32,
    /// Image height in pixels.
    pub height: u32,
    /// Image bytes.
    pub rgba: Vec<u8>,
}

/// Kitty-backed inline object.
#[derive(Debug)]
pub struct KittyInlineObject {
    /// Raster image payload.
    pub raster: RasterObject,
    /// Whether placeholder cells place it.
    pub uses_placeholders: bool,
}

/// Model-backed inline object. Meshes and scenes live with the renderer and
/// are known here by number or path.
#[derive(Debug)]
pub enum RgpInlineObject {
    /// STL mesh payload.
    Stl {
        /// The loaded mesh.
        mesh: u64,
    },
    /// OBJ mesh payload.
    Obj {
        /// The loaded mesh parts.
        meshes: Vec<u64>,
    },
    /// glTF scene payload.
    Gltf {
        /// Scene asset path.
        asset_path: String,
    },
}

/// Registered inline object.
#[derive(Debug)]
pub enum InlineObject {
    /// Kitty image object.
    KittyImage(KittyInlineObject),
    /// Model object.
    RgpObject(RgpInlineObject),
}

impl InlineObject {
    /// Whether the object moves with the text: all but placeholder images do.
    pub open spec fn scrolls(self) -> bool {
        match self {
            InlineObject::KittyImage(image) => !image.uses_placeholders,
            InlineObject::RgpObject(_) => true,
        }
    }

    /// Whether the object's materials can be rewritten in place.
    pub open spec fn restyles(self) -> bool {
        match self {
            InlineObject::RgpObject(RgpInlineObject::Stl { .. }) => true,
            InlineObject::RgpObject(RgpInlineObject::Obj { .. }) => true,
            _ => false,
        }
    }

    fn scrolls_with_text(&self) -> (scrolls: bool)
        ensures
            scrolls == self.scrolls(),
    {
        match self {
            InlineObject::KittyImage(image) => !image.uses_placeholders,
            InlineObject::RgpObject(_) => true,
        }
    }
}

/// A camera or plane change that a stage sequence asks for.
#[derive(Clone, Copy, Debug, PartialEq, Eq, Structural)]
pub struct RgpStageUpdate {
    /// The plane warp.
    pub warp: Option<Single>,
    /// Seconds that the change takes.
    pub dur: Option<Single>,
}

/// The cells that a placement names, centered.
#[derive(Clone, Copy, Debug, PartialEq, Eq)]
pub struct RgpAnchor {
    /// Center row.
    pub row: u16,
    /// Center column.
    pub col: u16,
    /// Width in cells.
    pub columns: u32,
    /// Height in cells.
    pub rows: u32,
    /// The style.
    pub style: RgpPlacementStyle,
}

/// Where a registration takes its object from.
#[derive(Debug)]
pub enum RgpRegisterSource {
    /// An embedded asset's name.
    Path {
        /// The name.
        path: String,
    },
    /// A chunk of the object itself.
    Payload {
        /// The object's name.
        name: Option<String>,
        /// Whether more chunks follow.
        more: bool,
        /// The chunk.
        data: Vec<u8>,
    },
}

/// A decoded graphics sequence.
#[allow(inconsistent_fields)]
#[derive(Debug)]
pub enum RgpOperation {
    /// Asks whether the protocol is supported.
    SupportQuery,
    /// Registers an object.
    Register {
        /// The object's id.
        object_id: u32,
        /// `obj`, `glb` or `stl`.
        format: String,
        /// Whether to normalize the object's size.
        normalize: bool,
        /// Where it comes from.
        source: RgpRegisterSource,
    },
    /// Places a registered object.
    Place {
        /// The object's id.
        object_id: u32,
        /// Where.
        anchor: RgpAnchor,
    },
    /// Changes a placed object.
    Update {
        /// The object's id.
        object_id: u32,
        /// What changes.
        update: RgpPlacementUpdate,
    },
    /// Deletes one object, or all.
    Delete {
        /// The object's id.
        object_id: Option<u32>,
    },
    /// Changes the stage.
    Stage {
        /// How.
        update: RgpStageUpdate,
    },
    /// Nothing to do.
    Ignored,
}

/// The cells that an image covers.
#[derive(Clone, Copy, Debug, PartialEq, Eq, Structural)]
pub struct KittyAnchor {
    /// Top row.
    pub row: u16,
    /// Left column.
    pub col: u16,
    /// Width in cells.
    pub columns: u32,
    /// Height in cells.
    pub rows: u32,
}

/// A decoded image sequence.
#[allow(inconsistent_fields)]
#[derive(Debug)]
pub enum KittyOperation {
    /// More chunks follow.
    Pending,
    /// Nothing to do.
    Ignored,
    /// Stores an image.
    TransmitOnly {
        /// The image's id.
        object_id: u32,
        /// The image.
        image: KittyInlineObject,
    },
    /// Stores and places an image.
    TransmitAndPlace {
        /// The image's id.
        object_id: u32,
        /// The image.
        image: KittyInlineObject,
        /// Where.
        anchor: KittyAnchor,
    },
    /// Places a stored image.
    PlaceExisting {
        /// The image's id.
        object_id: u32,
        /// Where.
        anchor: KittyAnchor,
    },
    /// Deletes one image, or all.
    Delete {
        /// The image's id.
        object_id: Option<u32>,
    },
}

/// What an APC sequence decodes to.
#[derive(Debug)]
pub enum ApcOperation {
    /// A graphics sequence.
    Rgp(RgpOperation),
    /// An image sequence.
    Kitty(KittyOperation),
    /// Neither protocol knows it.
    Unclaimed,
}

/// What is left to do after an operation.
#[derive(Debug)]
pub enum InlineAction {
    /// Nothing.
    Nothing,
    /// Answer that the protocol is supported.
    ReplySupport,
    /// Load an embedded asset and register it.
    LoadEmbedded {
        /// The object's id.
        object_id: u32,
        /// The asset's name.
        path: String,
        /// Whether to normalize its size.
        normalize: bool,
    },
    /// Decode a complete payload and register it.
    LoadBytes {
        /// The object's id.
        object_id: u32,
        /// The format.
        format: String,
        /// The object's name.
        name: Option<String>,
        /// The payload.
        data: Vec<u8>,
        /// Whether to normalize its size.
        normalize: bool,
    },
}

/// An action's contents.
pub enum ActionView {
    /// Nothing.
    Nothing,
    /// Answer that the protocol is supported.
    ReplySupport,
    /// Load an embedded asset and register it.
    LoadEmbedded(u32, Seq<char>, bool),
    /// Decode a complete payload and register it.
    LoadBytes(u32, PayloadView),
}

/// A chunked payload in flight.
pub struct PayloadView {
    /// The format.
    pub format: Seq<char>,
    /// The object's name.
    pub name: Option<Seq<char>>,
    /// The bytes so far.
    pub data: Seq<u8>,
    /// Whether to normalize its size.
    pub normalize: bool,
}

impl View for InlineAction {
    type V = ActionView;

    open spec fn view(&self) -> ActionView {
        match self {
            InlineAction::Nothing => ActionView::Nothing,
            InlineAction::ReplySupport => ActionView::ReplySupport,
            InlineAction::LoadEmbedded { object_id, path, normalize } => ActionView::LoadEmbedded(
                *object_id,
                path@,
                *normalize,
            ),
            InlineAction::LoadBytes { object_id, format, name, data, normalize } =>
                ActionView::LoadBytes(
                *object_id,
                PayloadView {
                    format: format@,
                    name: crate::query::token_view(*name),
                    data: data@,
                    normalize: *normalize,
                },
            ),
        }
    }
}

/// The outcome of an agent's update.
#[derive(Clone, Copy, Debug, PartialEq, Eq, Structural)]
pub enum AiUpdateOutcome {
    /// The update was applied.
    Applied,
    /// No object is registered under the id.
    UnknownId,
    /// The object's anchor scrolled away.
    NoAnchor,
}

/// A centered coordinate as the first cell of an extent: the center less half
/// the extent, which wraps at sixteen bits, and never below zero.
pub open spec fn centered(center: u16, extent: u32) -> u16 {
    let half = (extent / 2) % 0x1_0000;
    (if center >= half {
        center - half
    } else {
        0
    }) as u16
}

/// A centered coordinate as the first cell of an extent.
pub fn ai_anchor_component(center: u16, extent: u32) -> (first: u16)
    ensures
        first == centered(center, extent),
{
    let half: u16 = ((extent / 2) % 0x1_0000) as u16;
    if center >= half {
        center - half
    } else {
        0
    }
}

/// What a terminal's inline objects are.
pub struct InlineState {
    /// The registered objects.
    pub objects: Map<u32, InlineObject>,
    /// Where objects stand.
    pub anchors: Map<u32, InlineAnchor>,
    /// When each record changed last.
    pub revisions: Map<u32, u64>,
    /// How many changes there were.
    pub mutation_seq: nat,
    /// The chunked payloads in flight.
    pub payloads: Seq<(u32, PayloadView)>,
    /// The stage changes that wait.
    pub stage: Seq<RgpStageUpdate>,
    /// Whether the whole scene must be rebuilt.
    pub dirty: bool,
    /// The objects that must be rebuilt.
    pub rebuild: Set<u32>,
    /// The objects whose materials must be rewritten.
    pub restyle: Set<u32>,
    /// The viewport at the last synchronization.
    pub last_size: (Single, Single),
    /// The columns at the last synchronization.
    pub last_cols: u16,
    /// The rows at the last synchronization.
    pub last_rows: u16,
    /// The byte stream.
    pub stream: StreamState,
}

impl InlineState {
    /// No objects, nothing to do, and nothing on the stream.
    pub open spec fn fresh() -> InlineState {
        InlineState {
            objects: Map::empty(),
            anchors: Map::empty(),
            revisions: Map::empty(),
            mutation_seq: 0,
            payloads: Seq::empty(),
            stage: Seq::empty(),
            dirty: false,
            rebuild: Set::empty(),
            restyle: Set::empty(),
            last_size: (Single { bits: 0 }, Single { bits: 0 }),
            last_cols: 0,
            last_rows: 0,
            stream: StreamState {
                pending: Seq::empty(),
                discarding: false,
                guard: crate::pty::OscGuard { state: crate::pty::OscGuardState::Ground, osc_len: 0 },
            },
        }
    }
}

/// Whether an id is an agent's.
pub open spec fn agents(id: u32) -> bool {
    object_namespace(id) is Some
}

/// The ids of an agent.
pub open spec fn own_ids(ids: Set<u32>, namespace: u8) -> Set<u32> {
    ids.filter(|id: u32| object_namespace(id) == Some(namespace))
}

/// The ids of all agents.
pub open spec fn agent_ids(ids: Set<u32>) -> Set<u32> {
    ids.filter(|id: u32| agents(id))
}

/// The index of an object's payload in flight.
pub open spec fn payload_index(payloads: Seq<(u32, PayloadView)>, id: u32) -> Option<int>
    decreases payloads.len(),
{
    if payloads.len() == 0 {
        None
    } else {
        match payload_index(payloads.drop_last(), id) {
            Some(i) => Some(i),
            None => if payloads.last().0 == id {
                Some(payloads.len() - 1)
            } else {
                None
            },
        }
    }
}

/// The payloads without an object's.
pub open spec fn without_payload(payloads: Seq<(u32, PayloadView)>, id: u32) -> Seq<
    (u32, PayloadView),
> {
    match payload_index(payloads, id) {
        Some(i) => payloads.remove(i),
        None => payloads,
    }
}

/// The bytes in flight.
pub open spec fn in_flight(payloads: Seq<(u32, PayloadView)>) -> nat
    decreases payloads.len(),
{
    if payloads.len() == 0 {
        0
    } else {
        in_flight(payloads.drop_last()) + payloads.last().1.data.len()
    }
}

/// Extents beyond half the range of the counter are negative.
pub open spec fn signed(extent: u32) -> int {
    if extent < 0x8000_0000 {
        extent as int
    } else {
        extent - 0x1_0000_0000
    }
}

/// Whether two anchors share a cell.
pub open spec fn overlaps(a: InlineAnchor, b: InlineAnchor) -> bool {
    &&& a.row < b.row + signed(b.rows)
    &&& a.row + signed(a.rows) > b.row
    &&& a.col < b.col + signed(b.columns)
    &&& a.col + signed(a.columns) > b.col
}

impl InlineState {
    /// Few payloads are in flight, few bytes in them, one per object and none
    /// of an agent's; no revision is ahead of the counter.
    pub open spec fn wf(self) -> bool {
        &&& self.payloads.len() <= MAX_PENDING_RGP_PAYLOADS
        &&& in_flight(self.payloads) <= MAX_PENDING_RGP_PAYLOAD_BYTES
        &&& forall|i: int, j: int|
            0 <= i < j < self.payloads.len() ==> (#[trigger] self.payloads[i]).0 != (
            #[trigger] self.payloads[j]).0
        &&& forall|i: int| 0 <= i < self.payloads.len() ==> !agents((#[trigger] self.payloads[i]).0)
        &&& self.mutation_seq <= u64::MAX
        &&& forall|id: u32| #[trigger]
            self.revisions.contains_key(id) ==> self.revisions[id] <= self.mutation_seq
        &&& self.stream.wf()
    }

    /// An object's record has a fresh revision.
    pub open spec fn bumped(self, id: u32) -> InlineState {
        InlineState {
            mutation_seq: self.mutation_seq + 1,
            revisions: self.revisions.insert(id, (self.mutation_seq + 1) as u64),
            ..self
        }
    }

    /// An object stands somewhere else, and the scene must be rebuilt.
    pub open spec fn anchored(self, id: u32, anchor: InlineAnchor) -> InlineState {
        InlineState { anchors: self.anchors.insert(id, anchor), dirty: true, ..self }.bumped(id)
    }

    /// An object is registered, and the scene must be rebuilt.
    pub open spec fn registered(self, id: u32, object: InlineObject) -> InlineState {
        InlineState { objects: self.objects.insert(id, object), dirty: true, ..self }.bumped(id)
    }

    /// A model was loaded for a program; an agent's id is never registered.
    pub open spec fn loaded(self, id: u32, object: InlineObject) -> InlineState {
        if agents(id) {
            self
        } else {
            self.registered(id, object)
        }
    }

    /// Where an object stands.
    pub open spec fn place(self, id: u32) -> Option<InlineAnchor> {
        if self.anchors.contains_key(id) {
            Some(self.anchors[id])
        } else {
            None
        }
    }

    /// An object's revision; one without a record has none.
    pub open spec fn revision_of(self, id: u32) -> u64 {
        if self.revisions.contains_key(id) {
            self.revisions[id]
        } else {
            0
        }
    }

    /// Objects and everything recorded of them are gone.
    pub open spec fn evicted(self, ids: Set<u32>) -> InlineState {
        InlineState {
            objects: self.objects.remove_keys(ids),
            anchors: self.anchors.remove_keys(ids),
            revisions: self.revisions.remove_keys(ids),
            ..self
        }
    }

    /// What a protocol's deletion of one object does; an agent's stays.
    pub open spec fn removed(self, id: u32) -> InlineState {
        if agents(id) {
            self
        } else {
            InlineState {
                objects: self.objects.remove(id),
                anchors: self.anchors.remove(id),
                payloads: without_payload(self.payloads, id),
                revisions: self.revisions.remove(id),
                dirty: true,
                ..self
            }
        }
    }

    /// What a protocol's deletion of all objects does; the agents' stay.
    pub open spec fn cleared(self) -> InlineState {
        InlineState {
            objects: self.objects.restrict(agent_ids(self.objects.dom())),
            anchors: self.anchors.restrict(agent_ids(self.anchors.dom())),
            payloads: Seq::empty(),
            revisions: self.revisions.restrict(agent_ids(self.revisions.dom())),
            dirty: true,
            ..self
        }
    }

    /// The objects that an image placement pushes out: whatever it covers, but
    /// for the agents'.
    pub open spec fn covered(self, anchor: InlineAnchor) -> Set<u32> {
        self.anchors.dom().filter(|id: u32| !agents(id) && overlaps(self.anchors[id], anchor))
    }

    /// An object must be rebuilt; that covers a restyling.
    pub open spec fn rebuilding(self, id: u32) -> InlineState {
        InlineState {
            rebuild: self.rebuild.insert(id),
            restyle: self.restyle.remove(id),
            ..self
        }
    }

    /// Whether the scene must be rebuilt for a viewport.
    pub open spec fn stale(self, viewport: (Single, Single), cols: u16, rows: u16) -> bool {
        self.dirty || !same_number(self.last_size.0, viewport.0) || !same_number(
            self.last_size.1,
            viewport.1,
        ) || self.last_cols != cols || self.last_rows != rows
    }

    /// The scene was rebuilt for a viewport.
    pub open spec fn synced(self, viewport: (Single, Single), cols: u16, rows: u16) -> InlineState {
        InlineState {
            dirty: false,
            rebuild: Set::empty(),
            restyle: Set::empty(),
            last_size: viewport,
            last_cols: cols,
            last_rows: rows,
            ..self
        }
    }

    /// Whether an object's materials can be rewritten in place.
    pub open spec fn restyles(self, id: u32) -> bool {
        self.objects.contains_key(id) && self.objects[id].restyles()
    }
}

/// Collects a map's keys.
fn keys_of<T>(map: &HashMap<u32, T>) -> (keys: Vec<u32>)
    ensures
        keys@.no_duplicates(),
        keys@.to_set() == map@.dom(),
{
    let mut keys: Vec<u32> = Vec::new();
    for key in it: map.keys()
        invariant
            keys@ == it.seq().unref().take(it.index()),
            it.seq().unref().to_set() == map@.dom(),
            it.seq().unref().no_duplicates(),
            it.index() == it.seq().len() ==> keys@ == it.seq().unref(),
    {
        keys.push(*key);
        assert(it.index() + 1 == it.seq().len() ==> keys@ =~= it.seq().unref());
    }
    keys
}

/// Whether a format is one that models come in.
pub open spec fn known_format(format: Seq<char>) -> bool {
    format == "obj"@ || format == "glb"@ || format == "stl"@
}

impl InlineState {
    /// What a chunk of an object's payload does: it is refused when too many
    /// payloads are in flight, ends the payload when too many bytes are, is
    /// refused when its format differs from the first chunk's, and else is put
    /// behind the others; the last one completes the payload.
    pub open spec fn chunked(
        self,
        id: u32,
        format: Seq<char>,
        name: Option<Seq<char>>,
        more: bool,
        data: Seq<u8>,
        normalize: bool,
    ) -> (InlineState, ActionView) {
        let found = payload_index(self.payloads, id);
        let kept = match found {
            Some(i) => self.payloads[i].1,
            None => PayloadView { format, name, data: Seq::empty(), normalize },
        };
        let grown = PayloadView {
            format: kept.format,
            name: over_rate(kept.name, name),
            data: kept.data + data,
            normalize: kept.normalize,
        };
        if found is None && self.payloads.len() >= MAX_PENDING_RGP_PAYLOADS {
            (self, ActionView::Nothing)
        } else if in_flight(self.payloads) + data.len() > MAX_PENDING_RGP_PAYLOAD_BYTES {
            (
                InlineState { payloads: without_payload(self.payloads, id), ..self },
                ActionView::Nothing,
            )
        } else if kept.format != format {
            (self, ActionView::Nothing)
        } else if more {
            (
                InlineState {
                    payloads: match found {
                        Some(i) => self.payloads.update(i, (id, grown)),
                        None => self.payloads.push((id, grown)),
                    },
                    ..self
                },
                ActionView::Nothing,
            )
        } else {
            (
                InlineState { payloads: without_payload(self.payloads, id), ..self },
                ActionView::LoadBytes(id, grown),
            )
        }
    }

    /// What a graphics operation does, and what is left to do. An agent's id
    /// is never registered, placed, changed or removed.
    pub open spec fn rgp(self, operation: RgpOperation) -> (InlineState, ActionView) {
        match operation {
            RgpOperation::SupportQuery => (self, ActionView::ReplySupport),
            RgpOperation::Register { object_id, format, normalize, source } => if agents(object_id)
                || !known_format(format@) {
                (self, ActionView::Nothing)
            } else {
                match source {
                    RgpRegisterSource::Path { path } => (
                        InlineState { payloads: without_payload(self.payloads, object_id), ..self },
                        ActionView::LoadEmbedded(object_id, path@, normalize),
                    ),
                    RgpRegisterSource::Payload { name, more, data } => self.chunked(
                        object_id,
                        format@,
                        crate::query::token_view(name),
                        more,
                        data@,
                        normalize,
                    ),
                }
            },
            RgpOperation::Place { object_id, anchor } => (
                if agents(object_id) || !self.objects.contains_key(object_id) {
                    self
                } else {
                    self.anchored(
                        object_id,
                        InlineAnchor {
                            row: centered(anchor.row, anchor.rows),
                            col: centered(anchor.col, anchor.columns),
                            columns: anchor.columns,
                            rows: anchor.rows,
                            style: placed_style(anchor.style),
                        },
                    )
                },
                ActionView::Nothing,
            ),
            RgpOperation::Update { object_id, update } => (
                if agents(object_id) || !self.anchors.contains_key(object_id) {
                    self
                } else {
                    self.restyled(object_id, update)
                },
                ActionView::Nothing,
            ),
            RgpOperation::Delete { object_id } => (
                match object_id {
                    Some(id) => self.removed(id),
                    None => self.cleared(),
                },
                ActionView::Nothing,
            ),
            RgpOperation::Stage { update } => (
                InlineState { stage: self.stage.push(update), ..self },
                ActionView::Nothing,
            ),
            RgpOperation::Ignored => (self, ActionView::Nothing),
        }
    }

    /// A placed object's style changes. Depth is baked into a mesh, so it
    /// rebuilds the object; color and brightness rewrite the materials where
    /// that is possible, and rebuild the object where not; without an object
    /// of its own the whole scene is rebuilt. The rest is live.
    pub open spec fn restyled(self, id: u32, update: RgpPlacementUpdate) -> InlineState {
        let anchor = self.anchors[id];
        let styled = InlineState {
            anchors: self.anchors.insert(
                id,
                InlineAnchor { style: updated_style(anchor.style, update), ..anchor },
            ),
            ..self
        };
        let rebuilds = update.depth is Some;
        let restyles = update.color is Some || update.brightness is Some;
        let queued = if !rebuilds && !restyles {
            styled
        } else if !(self.objects.contains_key(id) && self.objects[id] is RgpObject) {
            InlineState { dirty: true, ..styled }
        } else if !rebuilds && self.restyles(id) {
            InlineState { restyle: styled.restyle.insert(id), ..styled }
        } else {
            styled.rebuilding(id)
        };
        queued.bumped(id)
    }

    /// What an image operation does. An agent's id is never stored, placed or
    /// removed, and an agent's object is never pushed out.
    pub open spec fn kitty(self, operation: KittyOperation) -> InlineState {
        match operation {
            KittyOperation::Pending => self,
            KittyOperation::Ignored => self,
            KittyOperation::TransmitOnly { object_id, image } => if agents(object_id) {
                self
            } else {
                self.registered(object_id, InlineObject::KittyImage(image))
            },
            KittyOperation::TransmitAndPlace { object_id, image, anchor } => if agents(object_id) {
                self
            } else {
                let place = image_anchor(anchor);
                let freed = self.evicted(self.covered(place));
                InlineState {
                    objects: freed.objects.insert(object_id, InlineObject::KittyImage(image)),
                    ..freed
                }.anchored(object_id, place)
            },
            KittyOperation::PlaceExisting { object_id, anchor } => if agents(object_id)
                || !self.objects.contains_key(object_id) {
                self
            } else {
                self.anchored(object_id, image_anchor(anchor))
            },
            KittyOperation::Delete { object_id } => match object_id {
                Some(id) => self.removed(id),
                None => self.cleared(),
            },
        }
    }

    /// What a decoded sequence does, and what is left to do.
    pub open spec fn apc(self, operation: ApcOperation) -> (InlineState, ActionView) {
        match operation {
            ApcOperation::Rgp(operation) => self.rgp(operation),
            ApcOperation::Kitty(operation) => (self.kitty(operation), ActionView::Nothing),
            ApcOperation::Unclaimed => (self, ActionView::Nothing),
        }
    }
}

/// Where an agent's object stands that is centered on a cell.
pub open spec fn agent_anchor(x: u16, y: u16, style: InlineStyle) -> InlineAnchor {
    InlineAnchor {
        row: centered(y, AI_OBJECT_ROWS),
        col: centered(x, AI_OBJECT_COLUMNS),
        columns: AI_OBJECT_COLUMNS,
        rows: AI_OBJECT_ROWS,
        style,
    }
}

/// A style with an agent's changes; a spin also turns the animation on or off,
/// but a bobbing object stays animated.
pub open spec fn agent_style(
    kept: InlineStyle,
    scale: Option<Single>,
    spin: Option<Single>,
    brightness: Option<Single>,
) -> InlineStyle {
    InlineStyle {
        scale: over(scale, kept.scale),
        spin: over_rate(spin, kept.spin),
        animate: match spin {
            Some(spin) => spin.nonzero() || kept.bob is Some,
            None => kept.animate,
        },
        brightness: over(brightness, kept.brightness),
        ..kept
    }
}

/// An anchor that text of some rows has scrolled; none where it left the
/// screen.
pub open spec fn scrolled_anchor(anchor: InlineAnchor, rows: u16) -> Option<InlineAnchor> {
    let row = anchor.row - rows;
    if row + signed(anchor.rows) <= 0 {
        None
    } else {
        Some(
            InlineAnchor {
                row: (if row < 0 {
                    0
                } else {
                    row
                }) as u16,
                ..anchor
            },
        )
    }
}

impl InlineState {
    /// An agent's object is put somewhere, in place of what has its id.
    pub open spec fn agent_inserted(
        self,
        id: u32,
        object: InlineObject,
        x: u16,
        y: u16,
        style: InlineStyle,
    ) -> InlineState {
        InlineState {
            objects: self.objects.insert(id, object),
            anchors: self.anchors.insert(id, agent_anchor(x, y, style)),
            ..self
        }.rebuilding(id).bumped(id)
    }

    /// An agent changes an object: a coordinate moves it, which rebuilds it;
    /// brightness rewrites its materials or rebuilds it; the rest is live. An
    /// object whose anchor scrolled away comes back only with both
    /// coordinates, and with a fresh style.
    pub open spec fn agent_updated(
        self,
        id: u32,
        x: Option<u16>,
        y: Option<u16>,
        scale: Option<Single>,
        spin: Option<Single>,
        brightness: Option<Single>,
    ) -> (InlineState, AiUpdateOutcome) {
        if !self.objects.contains_key(id) {
            (self, AiUpdateOutcome::UnknownId)
        } else if !self.anchors.contains_key(id) {
            match (x, y) {
                (Some(x), Some(y)) => (
                    InlineState {
                        anchors: self.anchors.insert(
                            id,
                            agent_anchor(x, y, agent_style(plain_style(), scale, spin, brightness)),
                        ),
                        ..self
                    }.rebuilding(id).bumped(id),
                    AiUpdateOutcome::Applied,
                ),
                _ => (self, AiUpdateOutcome::NoAnchor),
            }
        } else {
            let anchor = self.anchors[id];
            let changed = InlineState {
                anchors: self.anchors.insert(
                    id,
                    InlineAnchor {
                        col: match x {
                            Some(x) => centered(x, anchor.columns),
                            None => anchor.col,
                        },
                        row: match y {
                            Some(y) => centered(y, anchor.rows),
                            None => anchor.row,
                        },
                        style: agent_style(anchor.style, scale, spin, brightness),
                        ..anchor
                    },
                ),
                ..self
            };
            let queued = if x is Some || y is Some {
                changed.rebuilding(id)
            } else if brightness is None {
                changed
            } else if self.restyles(id) {
                InlineState { restyle: changed.restyle.insert(id), ..changed }
            } else {
                changed.rebuilding(id)
            };
            (queued.bumped(id), AiUpdateOutcome::Applied)
        }
    }

    /// An agent removes an object, and everything recorded of it.
    pub open spec fn agent_removed(self, id: u32) -> (InlineState, bool) {
        let gone = InlineState {
            payloads: without_payload(self.payloads, id),
            ..self.evicted(set![id])
        };
        if self.objects.contains_key(id) {
            (gone.rebuilding(id), true)
        } else {
            (gone, false)
        }
    }

    /// Registered objects of agents are removed.
    pub open spec fn agents_cleared(self, ids: Set<u32>) -> InlineState {
        InlineState {
            rebuild: self.rebuild.union(ids),
            restyle: self.restyle.difference(ids),
            ..self.evicted(ids)
        }
    }

    /// Whether an anchor moves with the text; one without an object does.
    pub open spec fn scrolls(self, id: u32) -> bool {
        self.objects.contains_key(id) ==> self.objects[id].scrolls()
    }

    /// The text scrolled up.
    pub open spec fn scrolled(self, rows: u16) -> InlineState {
        if rows == 0 || self.anchors.dom().is_empty() {
            self
        } else {
            InlineState {
                anchors: Map::new(
                    |id: u32|
                        self.anchors.contains_key(id) && (self.scrolls(id) ==> scrolled_anchor(
                            self.anchors[id],
                            rows,
                        ) is Some),
                    |id: u32|
                        if self.scrolls(id) {
                            scrolled_anchor(self.anchors[id], rows)->0
                        } else {
                            self.anchors[id]
                        },
                ),
                dirty: true,
                ..self
            }
        }
    }

    /// Placeholder images were found at other cells.
    pub open spec fn refreshed(self, moved: Seq<(u32, InlineAnchor)>) -> InlineState
        decreases moved.len(),
    {
        if moved.len() == 0 {
            self
        } else {
            let before = self.refreshed(moved.drop_last());
            InlineState {
                anchors: before.anchors.insert(moved.last().0, moved.last().1),
                dirty: true,
                ..before
            }
        }
    }

    /// The stream runs up to the next control sequence.
    pub open spec fn advanced(self) -> (InlineState, Seq<u8>, Option<Seq<u8>>) {
        let (stream, text, sequence) = self.stream.advanced();
        (InlineState { stream, ..self }, text, sequence)
    }

    /// A decoded sequence is carried out; one that nobody knows goes on to the
    /// screen.
    pub open spec fn settled(self, sequence: Seq<u8>, operation: ApcOperation) -> (
        InlineState,
        ActionView,
        Seq<u8>,
    ) {
        if operation is Unclaimed {
            let (guard, text) = self.stream.guard.run(sequence);
            (
                InlineState { stream: StreamState { guard, ..self.stream }, ..self },
                ActionView::Nothing,
                text,
            )
        } else {
            let (next, action) = self.apc(operation);
            (next, action, Seq::empty())
        }
    }
}

/// The anchor of an image.
pub open spec fn image_anchor(anchor: KittyAnchor) -> InlineAnchor {
    InlineAnchor {
        row: anchor.row,
        col: anchor.col,
        columns: anchor.columns,
        rows: anchor.rows,
        style: plain_style(),
    }
}

/// Everything that is an agent's, as a state holds it.
pub open spec fn same_for_agents(before: InlineState, after: InlineState) -> bool {
    forall|id: u32|
        #![trigger after.objects.contains_key(id)]
        #![trigger after.anchors.contains_key(id)]
        agents(id) ==> {
            &&& after.objects.contains_key(id) == before.objects.contains_key(id)
            &&& before.objects.contains_key(id) ==> after.objects[id] == before.objects[id]
            &&& after.anchors.contains_key(id) == before.anchors.contains_key(id)
            &&& before.anchors.contains_key(id) ==> after.anchors[id] == before.anchors[id]
            &&& after.revisions.contains_key(id) == before.revisions.contains_key(id)
            &&& before.revisions.contains_key(id) ==> after.revisions[id] == before.revisions[id]
        }
}

/// No sequence that a program prints creates, changes or removes an agent's
/// object.
pub proof fn law_programs_never_touch_agents_objects(
    state: InlineState,
    operation: ApcOperation,
)
    ensures
        same_for_agents(state, state.apc(operation).0),
{
}

/// Whether every record that changed has a revision beyond all earlier ones.
pub open spec fn changes_are_stamped(before: InlineState, after: InlineState) -> bool {
    forall|id: u32|
        #![trigger after.objects.contains_key(id)]
        #![trigger after.anchors.contains_key(id)]
        (after.objects.contains_key(id) && !(before.objects.contains_key(id)
            && before.objects[id] == after.objects[id])) || (after.anchors.contains_key(id) && !(
        before.anchors.contains_key(id) && before.anchors[id] == after.anchors[id])) ==> {
            &&& after.revisions.contains_key(id)
            &&& after.revisions[id] > before.mutation_seq
        }
}

/// Revisions order changes: an object that a program's sequence registers,
/// places or restyles gets a revision beyond every one given before, and no
/// revision ever goes back.
pub proof fn law_programs_changes_are_stamped(state: InlineState, operation: ApcOperation)
    requires
        state.wf(),
        state.mutation_seq < u64::MAX,
    ensures
        changes_are_stamped(state, state.apc(operation).0),
        forall|id: u32|
            state.revisions.contains_key(id) && #[trigger] state.apc(
                operation,
            ).0.revisions.contains_key(id) ==> state.revisions[id] <= state.apc(
                operation,
            ).0.revisions[id],
{
}

/// Revisions order changes: an object that an agent inserts or updates gets a
/// revision beyond every one given before.
pub proof fn law_agents_changes_are_stamped(
    state: InlineState,
    id: u32,
    object: InlineObject,
    cell: (u16, u16),
    style: InlineStyle,
    x: Option<u16>,
    y: Option<u16>,
    scale: Option<Single>,
    spin: Option<Single>,
    brightness: Option<Single>,
)
    requires
        state.wf(),
        state.mutation_seq < u64::MAX,
    ensures
        changes_are_stamped(state, state.agent_inserted(id, object, cell.0, cell.1, style)),
        changes_are_stamped(state, state.agent_updated(id, x, y, scale, spin, brightness).0),
{
}

/// Scrolling changes no record: every object and every revision stays, also
/// where an anchor leaves the screen, and what does not move with the text
/// stays where it is.
pub proof fn law_scrolling_changes_no_record(state: InlineState, rows: u16, id: u32)
    ensures
        state.scrolled(rows).objects == state.objects,
        state.scrolled(rows).revisions == state.revisions,
        state.scrolled(rows).mutation_seq == state.mutation_seq,
        state.scrolled(rows).anchors.contains_key(id) ==> state.anchors.contains_key(id)
            && state.scrolled(rows).anchors[id].row <= state.anchors[id].row,
        state.anchors.contains_key(id) && !state.scrolls(id) ==> state.scrolled(
            rows,
        ).anchors.contains_key(id) && state.scrolled(rows).anchors[id] == state.anchors[id],
{
}

/// Clearing an agent's objects touches no other record: neither another
/// agent's nor a program's, and never the whole scene.
pub proof fn law_clearing_is_scoped(state: InlineState, namespace: u8, id: u32)
    requires
        object_namespace(id) != Some(namespace),
    ensures
        ({
            let after = state.agents_cleared(own_ids(state.objects.dom(), namespace));
            &&& after.dirty == state.dirty
            &&& after.objects.contains_key(id) == state.objects.contains_key(id)
            &&& state.objects.contains_key(id) ==> after.objects[id] == state.objects[id]
            &&& after.anchors.contains_key(id) == state.anchors.contains_key(id)
            &&& state.anchors.contains_key(id) ==> after.anchors[id] == state.anchors[id]
            &&& after.rebuild.contains(id) == state.rebuild.contains(id)
            &&& after.restyle.contains(id) == state.restyle.contains(id)
        }),
{
}

/// Clearing twice clears no more than clearing once.
pub proof fn law_clearing_is_idempotent(state: InlineState, namespace: u8)
    ensures
        own_ids(
            state.agents_cleared(own_ids(state.objects.dom(), namespace)).objects.dom(),
            namespace,
        ) =~= Set::<u32>::empty(),
{
}

proof fn lemma_payload_index(payloads: Seq<(u32, PayloadView)>, id: u32)
    ensures
        match payload_index(payloads, id) {
            Some(i) => 0 <= i < payloads.len() && payloads[i].0 == id && forall|j: int|
                0 <= j < i ==> (#[trigger] payloads[j]).0 != id,
            None => forall|j: int| 0 <= j < payloads.len() ==> (#[trigger] payloads[j]).0 != id,
        },
    decreases payloads.len(),
{
    if payloads.len() > 0 {
        lemma_payload_index(payloads.drop_last(), id);
        assert forall|j: int| 0 <= j < payloads.len() - 1 implies #[trigger] payloads[j]
            == payloads.drop_last()[j] by {}
    }
}

proof fn lemma_in_flight_remove(payloads: Seq<(u32, PayloadView)>, at: int)
    requires
        0 <= at < payloads.len(),
    ensures
        in_flight(payloads.remove(at)) + payloads[at].1.data.len() == in_flight(payloads),
    decreases payloads.len(),
{
    if at == payloads.len() - 1 {
        assert(payloads.remove(at) =~= payloads.drop_last());
    } else {
        lemma_in_flight_remove(payloads.drop_last(), at);
        assert(payloads.remove(at).drop_last() =~= payloads.drop_last().remove(at));
        assert(payloads.remove(at).last() == payloads.last());
    }
}

proof fn lemma_in_flight_update(payloads: Seq<(u32, PayloadView)>, at: int, entry: (u32, PayloadView))
    requires
        0 <= at < payloads.len(),
    ensures
        in_flight(payloads.update(at, entry)) + payloads[at].1.data.len() == in_flight(payloads)
            + entry.1.data.len(),
    decreases payloads.len(),
{
    let next = payloads.update(at, entry);
    if at == payloads.len() - 1 {
        assert(next.drop_last() =~= payloads.drop_last());
    } else {
        lemma_in_flight_update(payloads.drop_last(), at, entry);
        assert(next.drop_last() =~= payloads.drop_last().update(at, entry));
    }
}

proof fn lemma_in_flight_push(payloads: Seq<(u32, PayloadView)>, entry: (u32, PayloadView))
    ensures
        in_flight(payloads.push(entry)) == in_flight(payloads) + entry.1.data.len(),
{
    assert(payloads.push(entry).drop_last() =~= payloads);
}

/// Taking a payload out of flight keeps the bounds.
proof fn lemma_without_payload(state: InlineState, id: u32)
    requires
        state.wf(),
    ensures
        (InlineState { payloads: without_payload(state.payloads, id), ..state }).wf(),
{
    lemma_payload_index(state.payloads, id);
    if let Some(i) = payload_index(state.payloads, id) {
        lemma_in_flight_remove(state.payloads, i);
    }
}

/// Every sequence keeps the bounds: whatever is printed, few payloads are in
/// flight and few bytes in them.
pub proof fn law_payloads_are_bounded(state: InlineState, operation: ApcOperation)
    requires
        state.wf(),
        state.mutation_seq < u64::MAX,
    ensures
        state.apc(operation).0.wf(),
{
    match operation {
        ApcOperation::Rgp(RgpOperation::Register { object_id, format, normalize, source }) => {
            lemma_without_payload(state, object_id);
            lemma_payload_index(state.payloads, object_id);
            match source {
                RgpRegisterSource::Payload { name, more, data } => {
                    let found = payload_index(state.payloads, object_id);
                    let next = state.chunked(
                        object_id,
                        format@,
                        crate::query::token_view(name),
                        more,
                        data@,
                        normalize,
                    ).0;
                    match found {
                        Some(i) => {
                            let kept = state.payloads[i].1;
                            let grown = PayloadView {
                                format: kept.format,
                                name: over_rate(kept.name, crate::query::token_view(name)),
                                data: kept.data + data@,
                                normalize: kept.normalize,
                            };
                            lemma_in_flight_update(state.payloads, i, (object_id, grown));
                        },
                        None => {
                            let grown = PayloadView {
                                format: format@,
                                name: over_rate(
                                    crate::query::token_view(name),
                                    crate::query::token_view(name),
                                ),
                                data: Seq::<u8>::empty() + data@,
                                normalize,
                            };
                            lemma_in_flight_push(state.payloads, (object_id, grown));
                        },
                    }
                },
                _ => {},
            }
        },
        ApcOperation::Rgp(RgpOperation::Delete { object_id: Some(id) }) => {
            lemma_without_payload(state, id);
        },
        ApcOperation::Kitty(KittyOperation::Delete { object_id: Some(id) }) => {
            lemma_without_payload(state, id);
        },
        _ => {},
    }
}

#[derive(Debug)]
struct PendingRgpPayload {
    object_id: u32,
    format: String,
    name: Option<String>,
    data: Vec<u8>,
    normalize: bool,
}

impl View for PendingRgpPayload {
    type V = (u32, PayloadView);

    closed spec fn view(&self) -> (u32, PayloadView) {
        (
            self.object_id,
            PayloadView {
                format: self.format@,
                name: crate::query::token_view(self.name),
                data: self.data@,
                normalize: self.normalize,
            },
        )
    }
}

/// A terminal's inline objects.
#[derive(Debug)]
pub struct TerminalInlineObjects {
    objects: HashMap<u32, InlineObject>,
    anchors: HashMap<u32, InlineAnchor>,
    revisions: HashMap<u32, u64>,
    mutation_seq: u64,
    payloads: Vec<PendingRgpPayload>,
    stage: Vec<RgpStageUpdate>,
    dirty: bool,
    rebuild: HashSet<u32>,
    restyle: HashSet<u32>,
    last_size: (Single, Single),
    last_cols: u16,
    last_rows: u16,
    stream: PtyStream,
}

impl View for TerminalInlineObjects {
    type V = InlineState;

    closed spec fn view(&self) -> InlineState {
        InlineState {
            objects: self.objects@,
            anchors: self.anchors@,
            revisions: self.revisions@,
            mutation_seq: self.mutation_seq as nat,
            payloads: self.payloads@.map_values(|payload: PendingRgpPayload| payload@),
            stage: self.stage@,
            dirty: self.dirty,
            rebuild: self.rebuild@,
            restyle: self.restyle@,
            last_size: self.last_size,
            last_cols: self.last_cols,
            last_rows: self.last_rows,
            stream: self.stream@,
        }
    }
}

proof fn lemma_take_set(ids: Seq<u32>, k: int)
    requires
        0 <= k < ids.len(),
    ensures
        ids.take(k + 1).to_set() == ids.take(k).to_set().insert(ids[k]),
{
    let next = ids.take(k + 1);
    assert(next =~= ids.take(k).push(ids[k]));
    assert forall|id: u32| next.to_set().contains(id) == ids.take(k).to_set().insert(
        ids[k],
    ).contains(id) by {
        if ids.take(k).contains(id) {
            let j = choose|j: int| 0 <= j < k && ids.take(k)[j] == id;
            assert(next[j] == id);
        }
        if id == ids[k] {
            assert(next[k] == id);
        }
        if next.contains(id) {
            let j = choose|j: int| 0 <= j < next.len() && next[j] == id;
            if j < k {
                assert(ids.take(k)[j] == id);
            }
        }
    }
    assert(next.to_set() =~= ids.take(k).to_set().insert(ids[k]));
}

/// Whether two numbers are equal.
pub open spec fn same_number(a: Single, b: Single) -> bool {
    !a.nan() && !b.nan() && a.rank() == b.rank()
}

/// Whether two numbers are equal.
pub fn numbers_equal(a: Single, b: Single) -> (same: bool)
    ensures
        same == same_number(a, b),
{
    !a.is_nan() && !b.is_nan() && !a.is_below(b) && !b.is_below(a)
}

fn signed_extent(extent: u32) -> (n: i64)
    ensures
        n == signed(extent),
{
    if extent < 0x8000_0000 {
        extent as i64
    } else {
        extent as i64 - 0x1_0000_0000
    }
}

fn anchors_overlap(a: InlineAnchor, b: InlineAnchor) -> (shared: bool)
    ensures
        shared == overlaps(a, b),
{
    (a.row as i64) < b.row as i64 + signed_extent(b.rows) && a.row as i64 + signed_extent(a.rows)
        > b.row as i64 && (a.col as i64) < b.col as i64 + signed_extent(b.columns) && a.col as i64
        + signed_extent(a.columns) > b.col as i64
}

impl TerminalInlineObjects {
    /// The bounds hold.
    pub open spec fn wf(&self) -> bool {
        self@.wf()
    }

    /// No objects, and nothing on the stream.
    pub fn new() -> (inline: TerminalInlineObjects)
        ensures
            inline.wf(),
            inline@ == InlineState::fresh(),
    {
        let inline = TerminalInlineObjects {
            objects: HashMap::new(),
            anchors: HashMap::new(),
            revisions: HashMap::new(),
            mutation_seq: 0,
            payloads: Vec::new(),
            stage: Vec::new(),
            dirty: false,
            rebuild: HashSet::new(),
            restyle: HashSet::new(),
            last_size: (Single { bits: 0 }, Single { bits: 0 }),
            last_cols: 0,
            last_rows: 0,
            stream: PtyStream::new(),
        };
        assert(inline@.payloads =~= Seq::empty());
        inline
    }

    /// Whether the scene must be rebuilt: something changed, or the viewport
    /// did.
    pub fn needs_sync(&self, viewport: (Single, Single), cols: u16, rows: u16) -> (needed: bool)
        ensures
            needed == self@.stale(viewport, cols, rows),
            needed == (self@.dirty || !same_number(self@.last_size.0, viewport.0) || !same_number(
                self@.last_size.1,
                viewport.1,
            ) || self@.last_cols != cols || self@.last_rows != rows),
    {
        self.dirty || !numbers_equal(self.last_size.0, viewport.0) || !numbers_equal(
            self.last_size.1,
            viewport.1,
        ) || self.last_cols != cols || self.last_rows != rows
    }

    /// Marks synchronization as complete; a full rebuild covers whatever was
    /// queued for single objects.
    pub fn finish_sync(&mut self, viewport: (Single, Single), cols: u16, rows: u16)
        requires
            old(self).wf(),
        ensures
            final(self).wf(),
            final(self)@ == old(self)@.synced(viewport, cols, rows),
            final(self)@ == (InlineState {
                dirty: false,
                rebuild: Set::empty(),
                restyle: Set::empty(),
                last_size: viewport,
                last_cols: cols,
                last_rows: rows,
                ..old(self)@
            }),
    {
        self.dirty = false;
        self.rebuild = HashSet::new();
        self.restyle = HashSet::new();
        self.last_size = viewport;
        self.last_cols = cols;
        self.last_rows = rows;
    }

    /// Whether the whole scene must be rebuilt.
    pub fn is_dirty(&self) -> (dirty: bool)
        ensures
            dirty == self@.dirty,
    {
        self.dirty
    }

    /// Takes the objects that must be rebuilt.
    pub fn take_rebuild_objects(&mut self) -> (ids: HashSet<u32>)
        requires
            old(self).wf(),
        ensures
            final(self).wf(),
            ids@ == old(self)@.rebuild,
            final(self)@ == (InlineState { rebuild: Set::empty(), ..old(self)@ }),
    {
        let mut ids: HashSet<u32> = HashSet::new();
        std::mem::swap(&mut ids, &mut self.rebuild);
        ids
    }

    /// Takes the objects whose materials must be rewritten.
    pub fn take_restyle_objects(&mut self) -> (ids: HashSet<u32>)
        requires
            old(self).wf(),
        ensures
            final(self).wf(),
            ids@ == old(self)@.restyle,
            final(self)@ == (InlineState { restyle: Set::empty(), ..old(self)@ }),
    {
        let mut ids: HashSet<u32> = HashSet::new();
        std::mem::swap(&mut ids, &mut self.restyle);
        ids
    }

    /// Whether any object's materials must be rewritten.
    pub fn has_restyle_objects(&self) -> (any: bool)
        ensures
            any == (self@.restyle.len() != 0),
    {
        self.restyle.len() != 0
    }

    fn supports_restyle(&self, object_id: u32) -> (supported: bool)
        ensures
            supported == self@.restyles(object_id),
    {
        match self.objects.get(&object_id) {
            Some(InlineObject::RgpObject(RgpInlineObject::Stl { .. })) => true,
            Some(InlineObject::RgpObject(RgpInlineObject::Obj { .. })) => true,
            _ => false,
        }
    }

    /// Where an object stands.
    pub fn anchor(&self, object_id: u32) -> (anchor: Option<InlineAnchor>)
        ensures
            anchor == self@.place(object_id),
            anchor == if self@.anchors.contains_key(object_id) {
                Some(self@.anchors[object_id])
            } else {
                None
            },
    {
        match self.anchors.get(&object_id) {
            Some(anchor) => Some(*anchor),
            None => None,
        }
    }

    fn bump_revision(&mut self, object_id: u32)
        requires
            old(self)@.mutation_seq < u64::MAX,
        ensures
            final(self)@ == old(self)@.bumped(object_id),
    {
        self.mutation_seq = self.mutation_seq + 1;
        self.revisions.insert(object_id, self.mutation_seq);
    }

    fn set_anchor(&mut self, object_id: u32, anchor: InlineAnchor)
        requires
            old(self)@.mutation_seq < u64::MAX,
        ensures
            final(self)@ == old(self)@.anchored(object_id, anchor),
    {
        self.anchors.insert(object_id, anchor);
        self.dirty = true;
        self.bump_revision(object_id);
    }

    fn register(&mut self, object_id: u32, object: InlineObject)
        requires
            old(self)@.mutation_seq < u64::MAX,
        ensures
            final(self)@ == old(self)@.registered(object_id, object),
    {
        self.objects.insert(object_id, object);
        self.dirty = true;
        self.bump_revision(object_id);
    }

    /// The object's current revision, or 0 when the id has no live record.
    pub fn revision(&self, object_id: u32) -> (revision: u64)
        ensures
            revision == self@.revision_of(object_id),
            revision == if self@.revisions.contains_key(object_id) {
                self@.revisions[object_id]
            } else {
                0
            },
    {
        match self.revisions.get(&object_id) {
            Some(revision) => *revision,
            None => 0,
        }
    }

    fn find_payload(&self, object_id: u32) -> (found: Option<usize>)
        ensures
            match found {
                Some(i) => payload_index(self@.payloads, object_id) == Some(i as int) && i
                    < self@.payloads.len(),
                None => payload_index(self@.payloads, object_id) is None,
            },
    {
        proof {
            lemma_payload_index(self@.payloads, object_id);
        }
        let mut i: usize = 0;
        while i < self.payloads.len()
            invariant
                i <= self.payloads.len(),
                self.payloads.len() == self@.payloads.len(),
                forall|j: int| 0 <= j < i ==> (#[trigger] self@.payloads[j]).0 != object_id,
                match payload_index(self@.payloads, object_id) {
                    Some(k) => 0 <= k < self@.payloads.len() && self@.payloads[k].0 == object_id
                        && forall|j: int|
                        0 <= j < k ==> (#[trigger] self@.payloads[j]).0 != object_id,
                    None => forall|j: int|
                        0 <= j < self@.payloads.len() ==> (#[trigger] self@.payloads[j]).0
                            != object_id,
                },
            decreases self.payloads.len() - i,
        {
            assert(self@.payloads[i as int].0 == self.payloads@[i as int].object_id);
            if self.payloads[i].object_id == object_id {
                return Some(i);
            }
            i += 1;
        }
        None
    }

    fn drop_payload(&mut self, object_id: u32)
        requires
            old(self).wf(),
        ensures
            final(self).wf(),
            final(self)@ == (InlineState {
                payloads: without_payload(old(self)@.payloads, object_id),
                ..old(self)@
            }),
    {
        proof {
            lemma_without_payload(self@, object_id);
        }
        if let Some(i) = self.find_payload(object_id) {
            self.payloads.remove(i);
            assert(self@.payloads =~= old(self)@.payloads.remove(i as int));
        }
    }

    fn remove_object(&mut self, object_id: u32)
        requires
            old(self).wf(),
        ensures
            final(self).wf(),
            final(self)@ == old(self)@.removed(object_id),
    {
        if ai_object_namespace(object_id).is_some() {
            return ;
        }
        self.drop_payload(object_id);
        self.objects.remove(&object_id);
        self.anchors.remove(&object_id);
        self.revisions.remove(&object_id);
        self.dirty = true;
    }

    fn clear_objects(&mut self)
        requires
            old(self).wf(),
        ensures
            final(self).wf(),
            final(self)@ == old(self)@.cleared(),
    {
        retain_agents(&mut self.objects);
        retain_agents(&mut self.anchors);
        retain_agents(&mut self.revisions);
        self.payloads.clear();
        self.dirty = true;
        assert(self@.payloads =~= Seq::empty());
    }

    /// Whether stage changes wait.
    pub fn has_pending_stage(&self) -> (any: bool)
        ensures
            any == (self@.stage.len() > 0),
    {
        self.stage.len() > 0
    }

    /// Takes the waiting stage changes in arrival order.
    pub fn take_stage_updates(&mut self) -> (updates: Vec<RgpStageUpdate>)
        requires
            old(self).wf(),
        ensures
            final(self).wf(),
            updates@ == old(self)@.stage,
            final(self)@ == (InlineState { stage: Seq::empty(), ..old(self)@ }),
    {
        let mut updates: Vec<RgpStageUpdate> = Vec::new();
        std::mem::swap(&mut updates, &mut self.stage);
        assert(self@.stage =~= Seq::empty());
        updates
    }

    /// Whether an object is registered.
    pub fn contains_object(&self, object_id: u32) -> (found: bool)
        ensures
            found == self@.objects.contains_key(object_id),
    {
        self.objects.contains_key(&object_id)
    }

    /// How many payloads are in flight, and how many bytes are in them.
    pub fn pending_rgp_payload_state(&self) -> (state: (usize, usize))
        requires
            self.wf(),
        ensures
            state.0 == self@.payloads.len(),
            state.1 == in_flight(self@.payloads),
    {
        (self.payloads.len(), self.bytes_in_flight())
    }

    fn bytes_in_flight(&self) -> (total: usize)
        requires
            self.wf(),
        ensures
            total == in_flight(self@.payloads),
    {
        let mut total: usize = 0;
        let mut i: usize = 0;
        assert(self@.payloads.take(0) =~= Seq::empty());
        while i < self.payloads.len()
            invariant
                i <= self.payloads.len(),
                self.payloads.len() == self@.payloads.len(),
                total == in_flight(self@.payloads.take(i as int)),
                in_flight(self@.payloads) <= MAX_PENDING_RGP_PAYLOAD_BYTES,
            decreases self.payloads.len() - i,
        {
            proof {
                let next = self@.payloads.take(i + 1);
                assert(next.drop_last() =~= self@.payloads.take(i as int));
                assert(next.last() == self@.payloads[i as int]);
                assert(self@.payloads[i as int] == self.payloads@[i as int]@);
                lemma_in_flight_prefix(self@.payloads, i + 1);
            }
            total += self.payloads[i].data.len();
            i += 1;
        }
        assert(self@.payloads.take(i as int) =~= self@.payloads);
        total
    }

    fn handle_rgp_payload_chunk(
        &mut self,
        object_id: u32,
        format: String,
        name: Option<String>,
        more: bool,
        data: Vec<u8>,
        normalize: bool,
    ) -> (action: InlineAction)
        requires
            old(self).wf(),
            !agents(object_id),
        ensures
            (final(self)@, action@) == old(self)@.chunked(
                object_id,
                format@,
                crate::query::token_view(name),
                more,
                data@,
                normalize,
            ),
    {
        let ghost state = self@;
        let found = self.find_payload(object_id);
        if found.is_none() && self.payloads.len() >= MAX_PENDING_RGP_PAYLOADS {
            return InlineAction::Nothing;
        }
        if data.len() > MAX_PENDING_RGP_PAYLOAD_BYTES - self.bytes_in_flight() {
            self.drop_payload(object_id);
            return InlineAction::Nothing;
        }
        match found {
            Some(i) => {
                proof {
                    lemma_payload_index(state.payloads, object_id);
                    assert(state.payloads[i as int] == self.payloads@[i as int]@);
                }
                let ghost kept = self.payloads@[i as int];
                if !same_text(&self.payloads[i].format, &format) {
                    return InlineAction::Nothing;
                }
                let mut pending = self.payloads.remove(i);
                if pending.name.is_none() {
                    pending.name = name;
                }
                let mut chunk = data;
                pending.data.append(&mut chunk);
                assert(pending@.1.data =~= kept@.1.data + data@);
                if more {
                    self.payloads.insert(i, pending);
                    assert(self@.payloads =~= state.payloads.update(i as int, pending@));
                    InlineAction::Nothing
                } else {
                    assert(self@.payloads =~= state.payloads.remove(i as int));
                    InlineAction::LoadBytes {
                        object_id,
                        format: pending.format,
                        name: pending.name,
                        data: pending.data,
                        normalize: pending.normalize,
                    }
                }
            },
            None => {
                proof {
                    assert(Seq::<u8>::empty() + data@ =~= data@);
                }
                if more {
                    let pending = PendingRgpPayload { object_id, format, name, data, normalize };
                    self.payloads.push(pending);
                    assert(self@.payloads =~= state.payloads.push(pending@));
                    InlineAction::Nothing
                } else {
                    InlineAction::LoadBytes { object_id, format, name, data, normalize }
                }
            },
        }
    }

    /// The OSC guard: whether it drops payload, and its count.
    pub fn osc_guard_state(&self) -> (state: (bool, usize))
        ensures
            state == (
                self@.stream.guard.state == crate::pty::OscGuardState::OscDropping,
                self@.stream.guard.osc_len,
            ),
    {
        self.stream.guard_state()
    }

    /// How many bytes wait, and whether an over-long sequence is being
    /// discarded.
    pub fn apc_buffer_state(&self) -> (state: (usize, bool))
        ensures
            state.0 == self@.stream.pending.len(),
            state.1 == self@.stream.discarding,
    {
        self.stream.buffer_state()
    }

    /// Moves anchored objects with text that scrolled up.
    pub fn apply_scroll(&mut self, rows_scrolled: u16)
        requires
            old(self).wf(),
        ensures
            final(self).wf(),
            final(self)@ == old(self)@.scrolled(rows_scrolled),
    {
        let ghost state = self@;
        if rows_scrolled == 0 || self.anchors.len() == 0 {
            assert(self.anchors@.dom().len() == 0 ==> self.anchors@.dom().is_empty());
            return ;
        }
        let keys = keys_of(&self.anchors);
        let ghost all = keys@;
        let mut i: usize = 0;
        while i < keys.len()
            invariant
                i <= keys@.len(),
                keys@ == all,
                all.no_duplicates(),
                all.to_set() == state.anchors.dom(),
                rows_scrolled > 0,
                self@ == (InlineState { anchors: self@.anchors, ..state }),
                forall|id: u32|
                    all.take(i as int).contains(id) ==> (#[trigger] self@.anchors.contains_key(id)
                        <==> state.scrolled(rows_scrolled).anchors.contains_key(id)),
                forall|id: u32|
                    all.take(i as int).contains(id) && #[trigger] self@.anchors.contains_key(id)
                        ==> self@.anchors[id] == state.scrolled(rows_scrolled).anchors[id],
                forall|id: u32|
                    !all.take(i as int).contains(id) ==> (#[trigger] self@.anchors.contains_key(id)
                        <==> state.anchors.contains_key(id)),
                forall|id: u32|
                    !all.take(i as int).contains(id) && #[trigger] self@.anchors.contains_key(id)
                        ==> self@.anchors[id] == state.anchors[id],
            decreases keys.len() - i,
        {
            let key: u32 = keys[i];
            proof {
                lemma_take_set(all, i as int);
                assert(all.to_set().contains(key)) by {
                    assert(all.contains(key));
                }
                assert(!all.take(i as int).contains(key)) by {
                    if all.take(i as int).contains(key) {
                        let j = choose|j: int| 0 <= j < i && all.take(i as int)[j] == key;
                        assert(all[j] == all[i as int]);
                    }
                }
                assert forall|id: u32| #[trigger]
                    all.take(i + 1).contains(id) <==> all.take(i as int).contains(id) || id
                        == key by {
                    assert(all.take(i + 1).to_set().contains(id) <==> all.take(
                        i as int,
                    ).to_set().insert(key).contains(id));
                }
                assert(state.scrolled(rows_scrolled).anchors.contains_key(key) <==> (state.scrolls(
                    key,
                ) ==> scrolled_anchor(state.anchors[key], rows_scrolled) is Some));
            }
            let stays: bool = match self.objects.get(&key) {
                Some(object) => !object.scrolls_with_text(),
                None => false,
            };
            if !stays {
                if let Some(found) = self.anchors.get(&key) {
                    let mut anchor: InlineAnchor = *found;
                    let row: i64 = anchor.row as i64 - rows_scrolled as i64;
                    if row + signed_extent(anchor.rows) <= 0 {
                        self.anchors.remove(&key);
                    } else {
                        anchor.row = if row < 0 {
                            0
                        } else {
                            row as u16
                        };
                        self.anchors.insert(key, anchor);
                    }
                }
            }
            i += 1;
        }
        self.dirty = true;
        proof {
            assert(all.take(i as int) =~= all);
            assert forall|id: u32| state.anchors.contains_key(id) implies all.contains(id) by {
                assert(all.to_set().contains(id));
            }
            assert forall|id: u32| self@.anchors.contains_key(id) <==> state.scrolled(
                rows_scrolled,
            ).anchors.contains_key(id) by {
                if !all.contains(id) {
                    assert(!state.anchors.contains_key(id));
                }
            }
            assert(self@.anchors =~= state.scrolled(rows_scrolled).anchors);
        }
    }

    /// Whether any anchor moves with the text.
    pub fn has_scroll_tracked_anchors(&self) -> (any: bool)
        ensures
            any == exists|id: u32|
                self@.anchors.contains_key(id) && #[trigger] self@.objects.contains_key(id)
                    && self@.objects[id].scrolls(),
    {
        let keys = keys_of(&self.anchors);
        let mut i: usize = 0;
        while i < keys.len()
            invariant
                i <= keys@.len(),
                keys@.to_set() == self@.anchors.dom(),
                forall|j: int|
                    0 <= j < i ==> !(self@.objects.contains_key(#[trigger] keys@[j])
                        && self@.objects[keys@[j]].scrolls()),
            decreases keys.len() - i,
        {
            if let Some(object) = self.objects.get(&keys[i]) {
                if object.scrolls_with_text() {
                    proof {
                        let key = keys@[i as int];
                        assert(keys@.to_set().contains(key));
                        assert(self@.anchors.contains_key(key) && self@.objects.contains_key(key));
                    }
                    return true;
                }
            }
            i += 1;
        }
        proof {
            assert forall|id: u32|
                self@.anchors.contains_key(id) && #[trigger] self@.objects.contains_key(
                    id,
                ) implies !self@.objects[id].scrolls() by {
                assert(keys@.to_set().contains(id));
                let j = choose|j: int| 0 <= j < keys@.len() && keys@[j] == id;
                assert(keys@[j] == id);
            }
        }
        false
    }

    /// Moves placeholder images to the cells that they were found at.
    pub fn refresh_placeholder_anchors(&mut self, moved: &[(u32, InlineAnchor)])
        requires
            old(self).wf(),
        ensures
            final(self).wf(),
            final(self)@ == old(self)@.refreshed(moved@),
    {
        let ghost state = self@;
        let mut i: usize = 0;
        assert(moved@.take(0) =~= Seq::empty());
        while i < moved.len()
            invariant
                i <= moved@.len(),
                self.wf(),
                self@ == state.refreshed(moved@.take(i as int)),
            decreases moved.len() - i,
        {
            proof {
                assert(moved@.take(i + 1).drop_last() =~= moved@.take(i as int));
            }
            self.anchors.insert(moved[i].0, moved[i].1);
            self.dirty = true;
            i += 1;
        }
        assert(moved@.take(i as int) =~= moved@);
    }

    /// How many objects an agent has.
    pub fn ai_namespace_len(&self, namespace: u8) -> (count: usize)
        ensures
            count == own_ids(self@.objects.dom(), namespace).len(),
    {
        let owned = self.owned_ids(Some(namespace));
        proof {
            owned@.unique_seq_to_set();
        }
        owned.len()
    }

    fn owned_ids(&self, namespace: Option<u8>) -> (owned: Vec<u32>)
        ensures
            owned@.no_duplicates(),
            owned@.to_set() == match namespace {
                Some(namespace) => own_ids(self@.objects.dom(), namespace),
                None => agent_ids(self@.objects.dom()),
            },
    {
        let keys = keys_of(&self.objects);
        let mut owned: Vec<u32> = Vec::new();
        let ghost wanted = |id: u32|
            match namespace {
                Some(namespace) => object_namespace(id) == Some(namespace),
                None => agents(id),
            };
        let mut i: usize = 0;
        while i < keys.len()
            invariant
                i <= keys@.len(),
                keys@.no_duplicates(),
                wanted == (|id: u32|
                    match namespace {
                        Some(namespace) => object_namespace(id) == Some(namespace),
                        None => agents(id),
                    }),
                owned@.no_duplicates(),
                forall|id: u32|
                    #[trigger] owned@.contains(id) <==> wanted(id) && keys@.take(
                        i as int,
                    ).contains(id),
            decreases keys.len() - i,
        {
            let key: u32 = keys[i];
            proof {
                lemma_take_set(keys@, i as int);
                assert forall|id: u32| #[trigger]
                    keys@.take(i + 1).contains(id) <==> keys@.take(i as int).contains(id) || id
                        == key by {
                    assert(keys@.take(i + 1).to_set().contains(id) <==> keys@.take(
                        i as int,
                    ).to_set().insert(key).contains(id));
                }
                assert(!keys@.take(i as int).contains(key)) by {
                    if keys@.take(i as int).contains(key) {
                        let j = choose|j: int| 0 <= j < i && keys@.take(i as int)[j] == key;
                        assert(keys@[j] == keys@[i as int]);
                    }
                }
            }
            let takes: bool = match (namespace, ai_object_namespace(key)) {
                (Some(namespace), Some(owner)) => owner == namespace,
                (None, Some(_)) => true,
                _ => false,
            };
            if takes {
                let ghost before = owned@;
                assert(!before.contains(key));
                owned.push(key);
                proof {
                    assert forall|id: u32| #[trigger]
                        owned@.contains(id) <==> before.contains(id) || id == key by {
                        if before.contains(id) {
                            let j = choose|j: int| 0 <= j < before.len() && before[j] == id;
                            assert(owned@[j] == id);
                        }
                        if id == key {
                            assert(owned@[before.len() as int] == id);
                        }
                    }
                }
            }
            i += 1;
        }
        proof {
            assert(keys@.take(i as int) =~= keys@);
            assert forall|id: u32| owned@.to_set().contains(id) <==> wanted(id)
                && self@.objects.dom().contains(id) by {
                assert(keys@.to_set().contains(id) <==> keys@.contains(id));
            }
        }
        owned
    }

    /// Puts an agent's object on the cells around one, in place of what has its
    /// id.
    pub fn ai_insert_object(
        &mut self,
        object_id: u32,
        object: InlineObject,
        x: u16,
        y: u16,
        style: InlineStyle,
    )
        requires
            old(self).wf(),
            old(self)@.mutation_seq < u64::MAX,
        ensures
            final(self).wf(),
            final(self)@ == old(self)@.agent_inserted(object_id, object, x, y, style),
    {
        let anchor = InlineAnchor {
            row: ai_anchor_component(y, AI_OBJECT_ROWS),
            col: ai_anchor_component(x, AI_OBJECT_COLUMNS),
            columns: AI_OBJECT_COLUMNS,
            rows: AI_OBJECT_ROWS,
            style,
        };
        self.objects.insert(object_id, object);
        self.anchors.insert(object_id, anchor);
        self.queue_rebuild(object_id);
        self.bump_revision(object_id);
    }

    fn queue_rebuild(&mut self, object_id: u32)
        ensures
            final(self)@ == old(self)@.rebuilding(object_id),
    {
        self.restyle.remove(&object_id);
        self.rebuild.insert(object_id);
    }

    /// Applies an agent's update.
    pub fn ai_update_object(
        &mut self,
        object_id: u32,
        x: Option<u16>,
        y: Option<u16>,
        scale: Option<Single>,
        spin: Option<Single>,
        brightness: Option<Single>,
    ) -> (outcome: AiUpdateOutcome)
        requires
            old(self).wf(),
            old(self)@.mutation_seq < u64::MAX,
        ensures
            final(self).wf(),
            (final(self)@, outcome) == old(self)@.agent_updated(
                object_id,
                x,
                y,
                scale,
                spin,
                brightness,
            ),
    {
        if !self.objects.contains_key(&object_id) {
            return AiUpdateOutcome::UnknownId;
        }
        match self.anchor(object_id) {
            None => match (x, y) {
                (Some(col), Some(row)) => {
                    let mut style = InlineStyle::default();
                    restyle_for_agent(&mut style, scale, spin, brightness);
                    let anchor = InlineAnchor {
                        row: ai_anchor_component(row, AI_OBJECT_ROWS),
                        col: ai_anchor_component(col, AI_OBJECT_COLUMNS),
                        columns: AI_OBJECT_COLUMNS,
                        rows: AI_OBJECT_ROWS,
                        style,
                    };
                    self.anchors.insert(object_id, anchor);
                    self.queue_rebuild(object_id);
                    self.bump_revision(object_id);
                    AiUpdateOutcome::Applied
                },
                _ => AiUpdateOutcome::NoAnchor,
            },
            Some(found) => {
                let mut anchor: InlineAnchor = found;
                if let Some(col) = x {
                    anchor.col = ai_anchor_component(col, anchor.columns);
                }
                if let Some(row) = y {
                    anchor.row = ai_anchor_component(row, anchor.rows);
                }
                restyle_for_agent(&mut anchor.style, scale, spin, brightness);
                self.anchors.insert(object_id, anchor);
                if x.is_some() || y.is_some() {
                    self.queue_rebuild(object_id);
                } else if brightness.is_some() {
                    if self.supports_restyle(object_id) {
                        self.restyle.insert(object_id);
                    } else {
                        self.queue_rebuild(object_id);
                    }
                }
                self.bump_revision(object_id);
                AiUpdateOutcome::Applied
            },
        }
    }

    /// Removes an object, and says whether there was one.
    pub fn ai_remove_object(&mut self, object_id: u32) -> (existed: bool)
        requires
            old(self).wf(),
        ensures
            final(self).wf(),
            (final(self)@, existed) == old(self)@.agent_removed(object_id),
    {
        let ghost state = self@;
        let existed = self.objects.contains_key(&object_id);
        self.drop_payload(object_id);
        self.objects.remove(&object_id);
        self.anchors.remove(&object_id);
        self.revisions.remove(&object_id);
        proof {
            assert(self@.objects =~= state.objects.remove_keys(set![object_id]));
            assert(self@.anchors =~= state.anchors.remove_keys(set![object_id]));
            assert(self@.revisions =~= state.revisions.remove_keys(set![object_id]));
        }
        if existed {
            self.queue_rebuild(object_id);
        }
        existed
    }

    fn clear_owned(&mut self, ids: &Vec<u32>)
        requires
            old(self).wf(),
            forall|id: u32|
                #[trigger] ids@.to_set().contains(id) ==> agents(id)
                    && old(self)@.objects.contains_key(id),
            ids@.no_duplicates(),
        ensures
            final(self).wf(),
            final(self)@ == old(self)@.agents_cleared(ids@.to_set()),
    {
        let ghost state = self@;
        let mut i: usize = 0;
        proof {
            let none = ids@.take(0).to_set();
            assert(none =~= Set::empty());
            assert(self@.objects =~= state.objects.remove_keys(none));
            assert(self@.anchors =~= state.anchors.remove_keys(none));
            assert(self@.revisions =~= state.revisions.remove_keys(none));
            assert(self@.rebuild =~= state.rebuild.union(none));
            assert(self@.restyle =~= state.restyle.difference(none));
        }
        while i < ids.len()
            invariant
                i <= ids@.len(),
                ids@.no_duplicates(),
                self.wf(),
                state == old(self)@,
                state.wf(),
                forall|id: u32|
                    #[trigger] ids@.to_set().contains(id) ==> agents(id)
                        && state.objects.contains_key(id),
                self@ == state.agents_cleared(ids@.take(i as int).to_set()),
            decreases ids.len() - i,
        {
            let ghost before = self@;
            let ghost done = ids@.take(i as int).to_set();
            let ghost next = ids@.take(i + 1).to_set();
            let id: u32 = ids[i];
            proof {
                lemma_take_set(ids@, i as int);
                assert(ids@.to_set().contains(id)) by {
                    assert(ids@.contains(id));
                }
                assert(!done.contains(id)) by {
                    if ids@.take(i as int).contains(id) {
                        let j = choose|j: int| 0 <= j < i && ids@.take(i as int)[j] == id;
                        assert(ids@[j] == ids@[i as int]);
                    }
                }
                lemma_payload_index(before.payloads, id);
                assert(payload_index(before.payloads, id) is None);
            }
            self.ai_remove_object(id);
            proof {
                assert(self@.objects =~= state.objects.remove_keys(next));
                assert(self@.anchors =~= state.anchors.remove_keys(next));
                assert(self@.revisions =~= state.revisions.remove_keys(next));
                assert(self@.rebuild =~= state.rebuild.union(next));
                assert(self@.restyle =~= state.restyle.difference(next));
                assert(self@ == state.agents_cleared(next));
            }
            i += 1;
        }
        assert(ids@.take(i as int) =~= ids@);
    }

    /// Removes every object of an agent, and says which.
    pub fn ai_clear_namespace(&mut self, namespace: u8) -> (ids: Vec<u32>)
        requires
            old(self).wf(),
        ensures
            final(self).wf(),
            ids@.no_duplicates(),
            ids@.to_set() == own_ids(old(self)@.objects.dom(), namespace),
            final(self)@ == old(self)@.agents_cleared(own_ids(old(self)@.objects.dom(), namespace)),
    {
        let ids = self.owned_ids(Some(namespace));
        self.clear_owned(&ids);
        ids
    }

    /// Removes every object of every agent, and says which.
    pub fn ai_clear_all(&mut self) -> (ids: Vec<u32>)
        requires
            old(self).wf(),
        ensures
            final(self).wf(),
            ids@.no_duplicates(),
            ids@.to_set() == agent_ids(old(self)@.objects.dom()),
            final(self)@ == old(self)@.agents_cleared(agent_ids(old(self)@.objects.dom())),
    {
        let ids = self.owned_ids(None);
        self.clear_owned(&ids);
        ids
    }

    /// Registers a model that was loaded for a program.
    pub fn register_loaded(&mut self, object_id: u32, object: InlineObject)
        requires
            old(self).wf(),
            old(self)@.mutation_seq < u64::MAX,
        ensures
            final(self).wf(),
            final(self)@ == old(self)@.loaded(object_id, object),
            final(self)@ == if agents(object_id) {
                old(self)@
            } else {
                old(self)@.registered(object_id, object)
            },
    {
        if ai_object_namespace(object_id).is_none() {
            self.register(object_id, object);
        }
    }

    fn remove_objects_at(&mut self, place: InlineAnchor)
        requires
            old(self).wf(),
        ensures
            final(self).wf(),
            final(self)@ == old(self)@.evicted(old(self)@.covered(place)),
    {
        let ghost state = self@;
        let ghost covered = state.covered(place);
        let keys = keys_of(&self.anchors);
        let ghost all = keys@;
        let mut i: usize = 0;
        proof {
            let none = covered.intersect(all.take(0).to_set());
            assert(none =~= Set::empty());
            assert(self@.objects =~= state.objects.remove_keys(none));
            assert(self@.anchors =~= state.anchors.remove_keys(none));
            assert(self@.revisions =~= state.revisions.remove_keys(none));
        }
        while i < keys.len()
            invariant
                i <= keys@.len(),
                keys@ == all,
                all.no_duplicates(),
                all.to_set() == state.anchors.dom(),
                covered == state.covered(place),
                self.wf(),
                self@ == state.evicted(covered.intersect(all.take(i as int).to_set())),
            decreases keys.len() - i,
        {
            let key: u32 = keys[i];
            let ghost next = covered.intersect(all.take(i + 1).to_set());
            proof {
                lemma_take_set(all, i as int);
                assert(all.to_set().contains(key)) by {
                    assert(all.contains(key));
                }
                assert(!all.take(i as int).contains(key)) by {
                    if all.take(i as int).contains(key) {
                        let j = choose|j: int| 0 <= j < i && all.take(i as int)[j] == key;
                        assert(all[j] == all[i as int]);
                    }
                }
            }
            let goes: bool = match self.anchors.get(&key) {
                Some(anchor) => ai_object_namespace(key).is_none() && anchors_overlap(
                    *anchor,
                    place,
                ),
                None => false,
            };
            assert(goes == covered.contains(key));
            let ghost before = self@;
            if goes {
                self.objects.remove(&key);
                self.anchors.remove(&key);
                self.revisions.remove(&key);
            }
            proof {
                assert(self@.objects =~= state.objects.remove_keys(next));
                assert(self@.anchors =~= state.anchors.remove_keys(next));
                assert(self@.revisions =~= state.revisions.remove_keys(next));
                assert forall|id: u32| #[trigger] self@.revisions.contains_key(id) implies
                    self@.revisions[id] <= self@.mutation_seq by {
                    assert(before.revisions.contains_key(id));
                }
            }
            i += 1;
        }
        proof {
            assert(all.take(i as int) =~= all);
            assert(covered.intersect(all.to_set()) =~= covered);
        }
    }

    fn handle_rgp_operation(&mut self, operation: RgpOperation) -> (action: InlineAction)
        requires
            old(self).wf(),
            old(self)@.mutation_seq < u64::MAX,
        ensures
            (final(self)@, action@) == old(self)@.rgp(operation),
    {
        match operation {
            RgpOperation::SupportQuery => InlineAction::ReplySupport,
            RgpOperation::Register { object_id, format, normalize, source } => {
                if ai_object_namespace(object_id).is_some() || !(same_text(&format, "obj")
                    || same_text(&format, "glb") || same_text(&format, "stl")) {
                    return InlineAction::Nothing;
                }
                match source {
                    RgpRegisterSource::Path { path } => {
                        self.drop_payload(object_id);
                        InlineAction::LoadEmbedded { object_id, path, normalize }
                    },
                    RgpRegisterSource::Payload { name, more, data } => self.handle_rgp_payload_chunk(
                        object_id,
                        format,
                        name,
                        more,
                        data,
                        normalize,
                    ),
                }
            },
            RgpOperation::Place { object_id, anchor } => {
                if ai_object_namespace(object_id).is_none() && self.objects.contains_key(
                    &object_id,
                ) {
                    self.set_anchor(
                        object_id,
                        InlineAnchor {
                            row: ai_anchor_component(anchor.row, anchor.rows),
                            col: ai_anchor_component(anchor.col, anchor.columns),
                            columns: anchor.columns,
                            rows: anchor.rows,
                            style: InlineStyle::from_placement(anchor.style),
                        },
                    );
                }
                InlineAction::Nothing
            },
            RgpOperation::Update { object_id, update } => {
                if ai_object_namespace(object_id).is_none() {
                    if let Some(found) = self.anchor(object_id) {
                        self.update_style(object_id, found, update);
                    }
                }
                InlineAction::Nothing
            },
            RgpOperation::Delete { object_id } => {
                match object_id {
                    Some(object_id) => self.remove_object(object_id),
                    None => self.clear_objects(),
                }
                InlineAction::Nothing
            },
            RgpOperation::Stage { update } => {
                self.stage.push(update);
                InlineAction::Nothing
            },
            RgpOperation::Ignored => InlineAction::Nothing,
        }
    }

    fn update_style(&mut self, object_id: u32, anchor: InlineAnchor, update: RgpPlacementUpdate)
        requires
            old(self)@.mutation_seq < u64::MAX,
            old(self)@.anchors.contains_key(object_id),
            old(self)@.anchors[object_id] == anchor,
        ensures
            final(self)@ == old(self)@.restyled(object_id, update),
    {
        let rebuilds: bool = update.depth.is_some();
        let restyles: bool = update.color.is_some() || update.brightness.is_some();
        let mut changed: InlineAnchor = anchor;
        apply_rgp_update(&mut changed.style, update);
        self.anchors.insert(object_id, changed);
        if rebuilds || restyles {
            let own: bool = match self.objects.get(&object_id) {
                Some(InlineObject::RgpObject(_)) => true,
                _ => false,
            };
            if !own {
                self.dirty = true;
            } else if !rebuilds && self.supports_restyle(object_id) {
                self.restyle.insert(object_id);
            } else {
                self.queue_rebuild(object_id);
            }
        }
        self.bump_revision(object_id);
    }

    fn handle_kitty_operation(&mut self, operation: KittyOperation)
        requires
            old(self).wf(),
            old(self)@.mutation_seq < u64::MAX,
        ensures
            final(self)@ == old(self)@.kitty(operation),
    {
        match operation {
            KittyOperation::Pending => (),
            KittyOperation::Ignored => (),
            KittyOperation::TransmitOnly { object_id, image } => {
                if ai_object_namespace(object_id).is_none() {
                    self.register(object_id, InlineObject::KittyImage(image));
                }
            },
            KittyOperation::TransmitAndPlace { object_id, image, anchor } => {
                if ai_object_namespace(object_id).is_none() {
                    let place = InlineAnchor {
                        row: anchor.row,
                        col: anchor.col,
                        columns: anchor.columns,
                        rows: anchor.rows,
                        style: InlineStyle::default(),
                    };
                    self.remove_objects_at(place);
                    self.objects.insert(object_id, InlineObject::KittyImage(image));
                    self.set_anchor(object_id, place);
                }
            },
            KittyOperation::PlaceExisting { object_id, anchor } => {
                if ai_object_namespace(object_id).is_none() && self.objects.contains_key(
                    &object_id,
                ) {
                    self.set_anchor(
                        object_id,
                        InlineAnchor {
                            row: anchor.row,
                            col: anchor.col,
                            columns: anchor.columns,
                            rows: anchor.rows,
                            style: InlineStyle::default(),
                        },
                    );
                }
            },
            KittyOperation::Delete { object_id } => match object_id {
                Some(object_id) => self.remove_object(object_id),
                None => self.clear_objects(),
            },
        }
    }

    /// Takes a chunk of a program's output. What precedes the first complete
    /// control sequence goes to the screen; the sequence is handed out, with
    /// the cursor's cell, to be decoded.
    pub fn consume_pty_output(&mut self, chunk: &[u8], screen: &mut TerminalScreen) -> (request:
        Option<ApcRequest>)
        requires
            old(self).wf(),
            old(screen).wf(),
        ensures
            final(self).wf(),
            final(screen).wf(),
            ({
                let fed = InlineState {
                    stream: old(self)@.stream.fed(chunk@),
                    ..old(self)@
                };
                let (next, text, sequence) = fed.advanced();
                &&& final(self)@ == next
                &&& *final(screen) == shown(*old(screen), text)
                &&& request_of(request, sequence, *final(screen))
            }),
    {
        self.stream.feed(chunk);
        self.resume_pty_output(screen)
    }

    /// Goes on to the next control sequence.
    pub fn resume_pty_output(&mut self, screen: &mut TerminalScreen) -> (request: Option<
        ApcRequest,
    >)
        requires
            old(self).wf(),
            old(screen).wf(),
        ensures
            final(self).wf(),
            final(screen).wf(),
            ({
                let (next, text, sequence) = old(self)@.advanced();
                &&& final(self)@ == next
                &&& *final(screen) == shown(*old(screen), text)
                &&& request_of(request, sequence, *final(screen))
            }),
    {
        let advance = self.stream.advance();
        screen.show(advance.text.as_slice());
        match advance.sequence {
            Some(sequence) => Some(ApcRequest { sequence, cursor: screen.cursor_position() }),
            None => None,
        }
    }

    /// Carries out a decoded control sequence. One that nobody knows goes on to
    /// the screen, past the guard.
    pub fn handle_apc_sequence(
        &mut self,
        sequence: &[u8],
        operation: ApcOperation,
        screen: &mut TerminalScreen,
    ) -> (action: InlineAction)
        requires
            old(self).wf(),
            old(self)@.mutation_seq < u64::MAX,
            old(screen).wf(),
        ensures
            final(self).wf(),
            final(screen).wf(),
            ({
                let (next, left, text) = old(self)@.settled(sequence@, operation);
                &&& final(self)@ == next
                &&& action@ == left
                &&& *final(screen) == shown(*old(screen), text)
            }),
    {
        proof {
            law_payloads_are_bounded(self@, operation);
        }
        match operation {
            ApcOperation::Rgp(operation) => self.handle_rgp_operation(operation),
            ApcOperation::Kitty(operation) => {
                self.handle_kitty_operation(operation);
                InlineAction::Nothing
            },
            ApcOperation::Unclaimed => {
                let text = self.stream.pass(sequence);
                screen.show(text.as_slice());
                InlineAction::Nothing
            },
        }
    }
}

/// A control sequence to be decoded.
#[derive(Debug)]
pub struct ApcRequest {
    /// The sequence, with introducer and terminator.
    pub sequence: Vec<u8>,
    /// The cursor's row and column.
    pub cursor: (u16, u16),
}

/// Whether a request is for a sequence, with the cursor of a screen.
pub open spec fn request_of(
    request: Option<ApcRequest>,
    sequence: Option<Seq<u8>>,
    screen: TerminalScreen,
) -> bool {
    match request {
        Some(request) => sequence == Some(request.sequence@) && request.cursor == screen_cursor(
            screen,
        ),
        None => sequence is None,
    }
}

fn restyle_for_agent(
    style: &mut InlineStyle,
    scale: Option<Single>,
    spin: Option<Single>,
    brightness: Option<Single>,
)
    ensures
        *final(style) == agent_style(*old(style), scale, spin, brightness),
{
    if let Some(scale) = scale {
        style.scale = scale;
    }
    if let Some(spin) = spin {
        style.spin = Some(spin);
        style.animate = spin.is_nonzero() || style.bob.is_some();
    }
    if let Some(brightness) = brightness {
        style.brightness = brightness;
    }
}

proof fn lemma_in_flight_prefix(payloads: Seq<(u32, PayloadView)>, upto: int)
    requires
        0 <= upto <= payloads.len(),
    ensures
        in_flight(payloads.take(upto)) <= in_flight(payloads),
    decreases payloads.len(),
{
    if upto == payloads.len() {
        assert(payloads.take(upto) =~= payloads);
    } else {
        lemma_in_flight_prefix(payloads.drop_last(), upto);
        assert(payloads.drop_last().take(upto) =~= payloads.take(upto));
    }
}

fn retain_agents<T>(map: &mut HashMap<u32, T>)
    ensures
        final(map)@ == old(map)@.restrict(agent_ids(old(map)@.dom())),
{
    let keys = keys_of(map);
    let mut i: usize = 0;
    let ghost all = keys@;
    while i < keys.len()
        invariant
            i <= keys@.len(),
            keys@ == all,
            all.no_duplicates(),
            all.to_set() == old(map)@.dom(),
            forall|id: u32| #[trigger]
                map@.contains_key(id) <==> old(map)@.contains_key(id) && (agents(id)
                    || !all.take(i as int).contains(id)),
            forall|id: u32| #[trigger] map@.contains_key(id) ==> map@[id] == old(map)@[id],
        decreases keys.len() - i,
    {
        let key: u32 = keys[i];
        let ghost before = map@;
        proof {
            let next = all.take(i + 1);
            assert forall|id: u32| next.contains(id) <==> all.take(i as int).contains(id) || id
                == key by {
                if all.take(i as int).contains(id) {
                    let j = choose|j: int| 0 <= j < i && all.take(i as int)[j] == id;
                    assert(next[j] == id);
                }
                if id == key {
                    assert(next[i as int] == id);
                }
                if next.contains(id) {
                    let j = choose|j: int| 0 <= j < next.len() && next[j] == id;
                    if j < i {
                        assert(all.take(i as int)[j] == id);
                    }
                }
            }
        }
        if ai_object_namespace(key).is_none() {
            map.remove(&key);
        }
        i += 1;
    }
    proof {
        assert(all.take(i as int) =~= all);
        assert forall|id: u32| old(map)@.contains_key(id) implies all.contains(id) by {
            assert(all.to_set().contains(id));
        }
        assert(map@ =~= old(map)@.restrict(agent_ids(old(map)@.dom())));
    }
}

impl Default for TerminalInlineObjects {
    fn default() -> (inline: Self)
        ensures
            inline.wf(),
            inline@ == InlineState::fresh(),
    {
        TerminalInlineObjects::new()
    }
}

/// An image stands where it was placed, each side by itself: in the row and
/// column, and over the columns and rows, that the program gave; what is placed
/// is what was transmitted with it, or what is stored under the id.
pub proof fn law_images_stand_where_they_are_placed(
    state: InlineState,
    object_id: u32,
    image: KittyInlineObject,
    anchor: KittyAnchor,
)
    requires
        object_id < 0x8000_0000,
    ensures
        ({
            let sent = state.kitty(KittyOperation::TransmitAndPlace { object_id, image, anchor });
            let stands = sent.anchors[object_id];
            &&& sent.objects.contains_key(object_id)
            &&& sent.objects[object_id] == InlineObject::KittyImage(image)
            &&& sent.anchors.contains_key(object_id)
            &&& stands.row == anchor.row
            &&& stands.col == anchor.col
            &&& stands.columns == anchor.columns
            &&& stands.rows == anchor.rows
            &&& !stands.style.animate && stands.style.spin is None && stands.style.color is None
            &&& sent.dirty
        }),
        state.objects.contains_key(object_id) ==> {
            let placed = state.kitty(KittyOperation::PlaceExisting { object_id, anchor });
            let stands = placed.anchors[object_id];
            &&& placed.objects == state.objects
            &&& placed.anchors.contains_key(object_id)
            &&& stands.row == anchor.row
            &&& stands.col == anchor.col
            &&& stands.columns == anchor.columns
            &&& stands.rows == anchor.rows
            &&& placed.dirty
        },
        !state.objects.contains_key(object_id) ==> state.kitty(
            KittyOperation::PlaceExisting { object_id, anchor },
        ) == state,
        ({
            let stored = state.kitty(KittyOperation::TransmitOnly { object_id, image });
            &&& stored.objects == state.objects.insert(object_id, InlineObject::KittyImage(image))
            &&& stored.anchors == state.anchors
            &&& stored.dirty
        }),
{
}

/// Two images that are placed at different cells stand at different cells.
pub proof fn law_places_are_told_apart(
    state: InlineState,
    object_id: u32,
    a: KittyAnchor,
    b: KittyAnchor,
)
    requires
        object_id < 0x8000_0000,
        state.objects.contains_key(object_id),
        a.row != b.row || a.col != b.col || a.columns != b.columns || a.rows != b.rows,
    ensures
        state.kitty(KittyOperation::PlaceExisting { object_id, anchor: a }).anchors[object_id]
            != state.kitty(
            KittyOperation::PlaceExisting { object_id, anchor: b },
        ).anchors[object_id],
{
    let first = state.kitty(KittyOperation::PlaceExisting { object_id, anchor: a });
    let second = state.kitty(KittyOperation::PlaceExisting { object_id, anchor: b });
    assert(first.anchors[object_id].row == a.row && second.anchors[object_id].row == b.row);
    assert(first.anchors[object_id].col == a.col && second.anchors[object_id].col == b.col);
    assert(first.anchors[object_id].rows == a.rows && second.anchors[object_id].rows == b.rows);
    assert(first.anchors[object_id].columns == a.columns && second.anchors[object_id].columns
        == b.columns);
}

/// Whether a cell is one of an anchor's.
pub open spec fn is_cell_of(anchor: InlineAnchor, row: int, col: int) -> bool {
    &&& anchor.row <= row < anchor.row + anchor.rows
    &&& anchor.col <= col < anchor.col + anchor.columns
}

/// Two anchors overlap exactly if they share a cell.
pub proof fn law_overlapping_is_sharing_a_cell(a: InlineAnchor, b: InlineAnchor)
    requires
        a.rows < 0x8000_0000,
        a.columns < 0x8000_0000,
        b.rows < 0x8000_0000,
        b.columns < 0x8000_0000,
        a.rows > 0 && a.columns > 0 && b.rows > 0 && b.columns > 0,
    ensures
        overlaps(a, b) <==> exists|row: int, col: int| #[trigger]
            is_cell_of(a, row, col) && #[trigger] is_cell_of(b, row, col),
{
    let row = if a.row >= b.row {
        a.row as int
    } else {
        b.row as int
    };
    let col = if a.col >= b.col {
        a.col as int
    } else {
        b.col as int
    };
    if overlaps(a, b) {
        assert(is_cell_of(a, row, col) && is_cell_of(b, row, col));
    }
}

/// What a placed image pushes out: every program's object that it overlaps goes
/// with all that is recorded of it, and everything else stays as it was.
pub proof fn law_images_push_out_what_they_cover(
    state: InlineState,
    object_id: u32,
    image: KittyInlineObject,
    anchor: KittyAnchor,
    other: u32,
    place: InlineAnchor,
)
    requires
        object_id < 0x8000_0000,
        other != object_id,
        place.row == anchor.row && place.col == anchor.col && place.rows == anchor.rows
            && place.columns == anchor.columns,
    ensures
        ({
            let after = state.kitty(KittyOperation::TransmitAndPlace { object_id, image, anchor });
            let covered = other < 0x8000_0000 && state.anchors.contains_key(other) && overlaps(
                state.anchors[other],
                place,
            );
            &&& covered ==> !after.objects.contains_key(other) && !after.anchors.contains_key(other)
                && !after.revisions.contains_key(other)
            &&& !covered ==> {
                &&& after.objects.contains_key(other) == state.objects.contains_key(other)
                &&& state.objects.contains_key(other) ==> after.objects[other]
                    == state.objects[other]
                &&& after.anchors.contains_key(other) == state.anchors.contains_key(other)
                &&& state.anchors.contains_key(other) ==> after.anchors[other]
                    == state.anchors[other]
            }
        }),
{
    let image_place = image_anchor(anchor);
    if state.anchors.contains_key(other) {
        assert(overlaps(state.anchors[other], image_place) == overlaps(
            state.anchors[other],
            place,
        ));
        assert(state.covered(image_place).contains(other) <==> !agents(other) && overlaps(
            state.anchors[other],
            image_place,
        ));
    } else {
        assert(!state.covered(image_place).contains(other));
    }
}

/// Half of an extent lies before its center, as far as the screen goes.
pub proof fn law_centering_puts_half_in_front(center: u16, extent: u32)
    requires
        extent < 131072,
    ensures
        centered(center, extent) > 0 ==> center - centered(center, extent) == extent / 2,
        centered(center, extent) == 0 <==> center <= extent / 2,
{
}

/// A model stands centered on the cell that the program gave, over the columns
/// and rows and in the style that it gave, field by field.
pub proof fn law_models_stand_where_they_are_placed(
    state: InlineState,
    object_id: u32,
    anchor: RgpAnchor,
)
    requires
        object_id < 0x8000_0000,
        state.objects.contains_key(object_id),
    ensures
        ({
            let (after, action) = state.rgp(RgpOperation::Place { object_id, anchor });
            let stands = after.anchors[object_id];
            let style = stands.style;
            &&& action is Nothing
            &&& after.objects == state.objects
            &&& after.anchors.contains_key(object_id)
            &&& after.anchors.remove(object_id) == state.anchors.remove(object_id)
            &&& stands.rows == anchor.rows
            &&& stands.columns == anchor.columns
            &&& anchor.rows < 131072 ==> stands.row == (if anchor.row > anchor.rows / 2 {
                anchor.row - anchor.rows / 2
            } else {
                0
            })
            &&& anchor.columns < 131072 ==> stands.col == (if anchor.col > anchor.columns / 2 {
                anchor.col - anchor.columns / 2
            } else {
                0
            })
            &&& style.animate == anchor.style.animate
            &&& style.scale == anchor.style.scale
            &&& style.depth == anchor.style.depth
            &&& style.color == anchor.style.color
            &&& style.brightness == anchor.style.brightness
            &&& (style.offset.x, style.offset.y, style.offset.z) == anchor.style.offset
            &&& (style.rotation.x, style.rotation.y, style.rotation.z) == anchor.style.rotation
            &&& (style.scale3.x, style.scale3.y, style.scale3.z) == anchor.style.scale3
            &&& style.spin == anchor.style.spin
            &&& style.bob == anchor.style.bob
            &&& style.bob_amplitude == anchor.style.bob_amplitude
            &&& style.phase == anchor.style.phase
            &&& after.dirty
        }),
{
    let after = state.rgp(RgpOperation::Place { object_id, anchor }).0;
    assert(after.anchors.remove(object_id) =~= state.anchors.remove(object_id));
}

/// Whether a part of a style is the new one where one was given, and the one
/// before where not.
pub open spec fn takes<T>(after: T, before: T, given: Option<T>) -> bool {
    &&& given is Some ==> given == Some(after)
    &&& given is None ==> after == before
}

/// Whether a part of a style that may be absent is the new one where one was
/// given, and as before where not.
pub open spec fn takes_rate<T>(after: Option<T>, before: Option<T>, given: Option<T>) -> bool {
    &&& given is Some ==> after == given
    &&& given is None ==> after == before
}

/// Whether each number of three is the new one where one was given.
pub open spec fn takes_triple(after: Triple, before: Triple, given: TripleUpdate) -> bool {
    &&& takes(after.x, before.x, given.x)
    &&& takes(after.y, before.y, given.y)
    &&& takes(after.z, before.z, given.z)
}

/// A program's update changes the parts of the style that it gives, each to
/// what it gives, and nothing else: the object stays where it is. A new depth
/// rebuilds a model; a new color or brightness rewrites its materials where it
/// is not of the kind that must be rebuilt.
pub proof fn law_updates_change_what_they_give(
    state: InlineState,
    object_id: u32,
    update: RgpPlacementUpdate,
)
    requires
        object_id < 0x8000_0000,
        state.anchors.contains_key(object_id),
    ensures
        ({
            let (after, action) = state.rgp(RgpOperation::Update { object_id, update });
            let old_anchor = state.anchors[object_id];
            let new_anchor = after.anchors[object_id];
            let (before, style) = (old_anchor.style, new_anchor.style);
            let model = state.objects.contains_key(object_id)
                && state.objects[object_id] is RgpObject;
            let gltf = model && state.objects[object_id]->RgpObject_0 is Gltf;
            let material = update.color is Some || update.brightness is Some;
            &&& action is Nothing
            &&& after.objects == state.objects
            &&& after.anchors.contains_key(object_id)
            &&& after.anchors.remove(object_id) == state.anchors.remove(object_id)
            &&& new_anchor.row == old_anchor.row && new_anchor.col == old_anchor.col
                && new_anchor.rows == old_anchor.rows && new_anchor.columns == old_anchor.columns
            &&& takes(style.animate, before.animate, update.animate)
            &&& takes(style.scale, before.scale, update.scale)
            &&& takes(style.depth, before.depth, update.depth)
            &&& takes_rate(style.color, before.color, update.color)
            &&& takes(style.brightness, before.brightness, update.brightness)
            &&& takes_triple(style.offset, before.offset, update.offset)
            &&& takes_triple(style.rotation, before.rotation, update.rotation)
            &&& takes_triple(style.scale3, before.scale3, update.scale3)
            &&& takes_rate(style.spin, before.spin, update.spin)
            &&& takes_rate(style.bob, before.bob, update.bob)
            &&& takes_rate(style.bob_amplitude, before.bob_amplitude, update.bob_amplitude)
            &&& takes(style.phase, before.phase, update.phase)
            &&& update.depth is None && !material ==> after.rebuild == state.rebuild
                && after.restyle == state.restyle && after.dirty == state.dirty
            &&& (update.depth is Some || material) && !model ==> after.dirty && after.rebuild
                == state.rebuild && after.restyle == state.restyle
            &&& model && (update.depth is Some || (material && gltf)) ==> after.rebuild.contains(
                object_id,
            ) && !after.restyle.contains(object_id) && after.dirty == state.dirty
            &&& model && !gltf && update.depth is None && material ==> after.restyle.contains(
                object_id,
            ) && after.rebuild == state.rebuild && after.dirty == state.dirty
        }),
{
    let after = state.rgp(RgpOperation::Update { object_id, update }).0;
    assert(after.anchors.remove(object_id) =~= state.anchors.remove(object_id));
}

/// A program's deletion takes its object and all that is recorded of it, and no
/// other; its deletion of everything takes all but the agents' objects.
pub proof fn law_deletions_take_what_they_name(state: InlineState, id: u32, other: u32)
    requires
        other != id,
    ensures
        ({
            let gone = state.rgp(RgpOperation::Delete { object_id: Some(id) }).0;
            let bare = state.rgp(RgpOperation::Delete { object_id: None }).0;
            &&& state.kitty(KittyOperation::Delete { object_id: Some(id) }) == gone
            &&& state.kitty(KittyOperation::Delete { object_id: None }) == bare
            &&& id < 0x8000_0000 ==> !gone.objects.contains_key(id) && !gone.anchors.contains_key(
                id,
            ) && !gone.revisions.contains_key(id) && gone.dirty
            &&& id >= 0x8000_0000 ==> gone == state
            &&& gone.objects.contains_key(other) == state.objects.contains_key(other)
            &&& state.objects.contains_key(other) ==> gone.objects[other] == state.objects[other]
            &&& gone.anchors.contains_key(other) == state.anchors.contains_key(other)
            &&& state.anchors.contains_key(other) ==> gone.anchors[other] == state.anchors[other]
            &&& bare.objects.contains_key(id) <==> state.objects.contains_key(id) && id
                >= 0x8000_0000
            &&& bare.anchors.contains_key(id) <==> state.anchors.contains_key(id) && id
                >= 0x8000_0000
            &&& bare.objects.contains_key(id) ==> bare.objects[id] == state.objects[id]
            &&& bare.anchors.contains_key(id) ==> bare.anchors[id] == state.anchors[id]
            &&& bare.payloads.len() == 0
        }),
{
}

/// A payload in chunks is loaded as a whole: the chunks one behind the other,
/// in the format and under the name of the first, once the last has come, and
/// nothing of it is left in flight.
pub proof fn law_chunks_make_one_payload(
    state: InlineState,
    object_id: u32,
    format: String,
    normalize: bool,
    name: Option<String>,
    first: Vec<u8>,
    second: Vec<u8>,
    more: bool,
)
    requires
        object_id < 0x8000_0000,
        format@ == "obj"@ || format@ == "glb"@ || format@ == "stl"@,
        payload_index(state.payloads, object_id) is None,
        state.payloads.len() < 256,
        in_flight(state.payloads) + first@.len() + second@.len() <= 64 * 1024 * 1024,
    ensures
        ({
            let (started, waits) = state.rgp(
                RgpOperation::Register {
                    object_id,
                    format,
                    normalize,
                    source: RgpRegisterSource::Payload { name, more: true, data: first },
                },
            );
            let (done, loads) = started.rgp(
                RgpOperation::Register {
                    object_id,
                    format,
                    normalize: more,
                    source: RgpRegisterSource::Payload { name: None, more: false, data: second },
                },
            );
            let whole = loads->LoadBytes_1;
            &&& waits is Nothing
            &&& started.objects == state.objects
            &&& loads is LoadBytes
            &&& loads->LoadBytes_0 == object_id
            &&& whole.format == format@
            &&& whole.name == (match name {
                Some(name) => Some(name@),
                None => None,
            })
            &&& whole.data == first@ + second@
            &&& whole.normalize == normalize
            &&& done.payloads == state.payloads
            &&& done.objects == state.objects
            &&& done.anchors == state.anchors
        }),
{
    let data = Seq::<u8>::empty() + first@;
    assert(data =~= first@);
    let view = PayloadView {
        format: format@,
        name: crate::query::token_view(name),
        data: first@,
        normalize,
    };
    let started = state.rgp(
        RgpOperation::Register {
            object_id,
            format,
            normalize,
            source: RgpRegisterSource::Payload { name, more: true, data: first },
        },
    ).0;
    let payloads = state.payloads.push((object_id, view));
    assert(started.payloads =~= payloads);
    assert(payloads.drop_last() =~= state.payloads);
    assert(payload_index(payloads, object_id) == Some(payloads.len() - 1));
    assert(payloads.remove(payloads.len() - 1) =~= state.payloads);
}

/// Too many payloads, or too many bytes, are not taken: the one too many is
/// refused, and the one that grows too large is dropped. A chunk of another
/// format is refused, and so is a format that models do not come in.
pub proof fn law_payload_limits(
    state: InlineState,
    object_id: u32,
    format: String,
    normalize: bool,
    name: Option<String>,
    data: Vec<u8>,
    more: bool,
)
    requires
        state.wf(),
    ensures
        ({
            let (after, action) = state.rgp(
                RgpOperation::Register {
                    object_id,
                    format,
                    normalize,
                    source: RgpRegisterSource::Payload { name, more, data },
                },
            );
            let fresh = payload_index(state.payloads, object_id) is None;
            let known = format@ == "obj"@ || format@ == "glb"@ || format@ == "stl"@;
            &&& object_id >= 0x8000_0000 || !known ==> after == state && action is Nothing
            &&& object_id < 0x8000_0000 && known && fresh && state.payloads.len() >= 256 ==> after
                == state && action is Nothing
            &&& object_id < 0x8000_0000 && known && (!fresh || state.payloads.len() < 256)
                && in_flight(state.payloads) + data@.len() > 67108864 ==> action is Nothing
                && payload_index(after.payloads, object_id) is None
            &&& object_id < 0x8000_0000 && known && fresh && state.payloads.len() < 256 && in_flight(
                state.payloads,
            ) + data@.len() <= 67108864 && !more ==> action is LoadBytes && after == state
            &&& action is LoadBytes ==> !more
        }),
{
    lemma_payload_gone(state.payloads, object_id);
}

proof fn lemma_payload_gone(payloads: Seq<(u32, PayloadView)>, id: u32)
    requires
        forall|i: int, j: int|
            0 <= i < j < payloads.len() ==> (#[trigger] payloads[i]).0 != (#[trigger] payloads[j]).0,
    ensures
        payload_index(without_payload(payloads, id), id) is None,
{
    lemma_payload_at(payloads, id);
    let after = without_payload(payloads, id);
    lemma_payload_at(after, id);
    if let Some(k) = payload_index(payloads, id) {
        if let Some(i) = payload_index(after, id) {
            if i < k {
                assert(after[i] == payloads[i]);
            } else {
                assert(after[i] == payloads[i + 1]);
            }
        }
    }
}

proof fn lemma_payload_at(payloads: Seq<(u32, PayloadView)>, id: u32)
    ensures
        match payload_index(payloads, id) {
            Some(i) => 0 <= i < payloads.len() && payloads[i].0 == id,
            None => forall|i: int| 0 <= i < payloads.len() ==> (#[trigger] payloads[i]).0 != id,
        },
    decreases payloads.len(),
{
    if payloads.len() > 0 {
        let front = payloads.drop_last();
        lemma_payload_at(front, id);
        assert forall|i: int| 0 <= i < front.len() implies #[trigger] payloads[i] == front[i] by {}
    }
}

/// A model that is registered by a path is loaded from it, as it was asked for;
/// a query for support is answered; a stage update waits its turn behind the
/// others.
pub proof fn law_requests_of_programs_are_passed_on(
    state: InlineState,
    object_id: u32,
    format: String,
    normalize: bool,
    path: String,
    update: RgpStageUpdate,
)
    requires
        object_id < 0x8000_0000,
        format@ == "obj"@ || format@ == "glb"@ || format@ == "stl"@,
    ensures
        state.rgp(
            RgpOperation::Register {
                object_id,
                format,
                normalize,
                source: RgpRegisterSource::Path { path },
            },
        ).1 == ActionView::LoadEmbedded(object_id, path@, normalize),
        state.rgp(RgpOperation::SupportQuery) == (state, ActionView::ReplySupport),
        state.rgp(RgpOperation::Stage { update }).0.stage == state.stage.push(update),
        state.rgp(RgpOperation::Stage { update }).0.anchors == state.anchors,
        state.rgp(RgpOperation::Ignored) == (state, ActionView::Nothing),
        state.kitty(KittyOperation::Pending) == state,
        state.kitty(KittyOperation::Ignored) == state,
{
}

/// An agent's object is centered on the cell that the agent gave: over twelve
/// columns and six rows, so that it starts six columns and three rows before.
/// It has the object and the style that were given, and is built.
pub proof fn law_agents_objects_stand_where_they_are_put(
    state: InlineState,
    id: u32,
    object: InlineObject,
    x: u16,
    y: u16,
    style: InlineStyle,
)
    ensures
        ({
            let after = state.agent_inserted(id, object, x, y, style);
            let stands = after.anchors[id];
            &&& after.objects == state.objects.insert(id, object)
            &&& after.anchors.contains_key(id)
            &&& after.anchors.remove(id) == state.anchors.remove(id)
            &&& stands.columns == 12
            &&& stands.rows == 6
            &&& stands.col == (if x >= 6 {
                x - 6
            } else {
                0
            })
            &&& stands.row == (if y >= 3 {
                y - 3
            } else {
                0
            })
            &&& stands.style == style
            &&& after.rebuild == state.rebuild.insert(id)
            &&& after.restyle == state.restyle.remove(id)
        }),
{
    let after = state.agent_inserted(id, object, x, y, style);
    assert(after.anchors.remove(id) =~= state.anchors.remove(id));
}

/// An agent's change moves the object along the axes that it gives, and changes
/// the parts of the style that it gives, each to what it gives. A move rebuilds
/// the object.
pub proof fn law_agents_change_what_they_give(
    state: InlineState,
    id: u32,
    x: Option<u16>,
    y: Option<u16>,
    scale: Option<Single>,
    spin: Option<Single>,
    brightness: Option<Single>,
)
    requires
        state.objects.contains_key(id),
        state.anchors.contains_key(id),
        state.anchors[id].columns == 12,
        state.anchors[id].rows == 6,
    ensures
        ({
            let (after, outcome) = state.agent_updated(id, x, y, scale, spin, brightness);
            let old_anchor = state.anchors[id];
            let new_anchor = after.anchors[id];
            let (before, style) = (old_anchor.style, new_anchor.style);
            &&& outcome == AiUpdateOutcome::Applied
            &&& after.objects == state.objects
            &&& after.anchors.contains_key(id)
            &&& after.anchors.remove(id) == state.anchors.remove(id)
            &&& x is None ==> new_anchor.col == old_anchor.col
            &&& x matches Some(x) ==> new_anchor.col == (if x >= 6 {
                x - 6
            } else {
                0
            })
            &&& y is None ==> new_anchor.row == old_anchor.row
            &&& y matches Some(y) ==> new_anchor.row == (if y >= 3 {
                y - 3
            } else {
                0
            })
            &&& new_anchor.columns == 12 && new_anchor.rows == 6
            &&& takes(style.scale, before.scale, scale)
            &&& takes(style.brightness, before.brightness, brightness)
            &&& takes_rate(style.spin, before.spin, spin)
            &&& spin is None ==> style.animate == before.animate
            &&& spin matches Some(spin) ==> (style.animate <==> !(spin.bits == 0 || spin.bits
                == 0x8000_0000) || before.bob is Some)
            &&& style.depth == before.depth && style.color == before.color && style.offset
                == before.offset && style.rotation == before.rotation && style.scale3
                == before.scale3 && style.bob == before.bob && style.bob_amplitude
                == before.bob_amplitude && style.phase == before.phase
            &&& x is Some || y is Some ==> after.rebuild.contains(id)
            &&& x is None && y is None && brightness is None ==> after.rebuild == state.rebuild
                && after.restyle == state.restyle
            &&& x is None && y is None && brightness is Some ==> after.rebuild.contains(id)
                || after.restyle.contains(id)
        }),
{
    let after = state.agent_updated(id, x, y, scale, spin, brightness).0;
    assert(after.anchors.remove(id) =~= state.anchors.remove(id));
}

/// An object that scrolled away comes back only with both coordinates, and with
/// a fresh style; one that is not there cannot be changed.
pub proof fn law_lost_objects_come_back(
    state: InlineState,
    id: u32,
    x: Option<u16>,
    y: Option<u16>,
    scale: Option<Single>,
    spin: Option<Single>,
    brightness: Option<Single>,
)
    requires
        !state.anchors.contains_key(id) || !state.objects.contains_key(id),
    ensures
        ({
            let (after, outcome) = state.agent_updated(id, x, y, scale, spin, brightness);
            let there = state.objects.contains_key(id);
            let zero = Single { bits: 0 };
            &&& !there ==> outcome == AiUpdateOutcome::UnknownId && after == state
            &&& there && (x is None || y is None) ==> outcome == AiUpdateOutcome::NoAnchor && after
                == state
            &&& there && x is Some && y is Some ==> {
                let stands = after.anchors[id];
                &&& outcome == AiUpdateOutcome::Applied
                &&& after.anchors.contains_key(id)
                &&& stands.columns == 12 && stands.rows == 6
                &&& stands.col == (if x->0 >= 6 {
                    x->0 - 6
                } else {
                    0
                })
                &&& stands.row == (if y->0 >= 3 {
                    y->0 - 3
                } else {
                    0
                })
                &&& takes(stands.style.scale, zero, scale)
                &&& takes(stands.style.brightness, zero, brightness)
                &&& stands.style.spin == spin
                &&& stands.style.color is None && stands.style.bob is None
                &&& after.rebuild.contains(id)
            }
        }),
{
}

/// A removal takes the agent's object with all that is recorded of it, says
/// whether it was there, and leaves every other one.
pub proof fn law_agents_removals(state: InlineState, id: u32, other: u32, ids: Set<u32>)
    requires
        other != id,
    ensures
        ({
            let (after, existed) = state.agent_removed(id);
            let bare = state.agents_cleared(ids);
            &&& existed <==> state.objects.contains_key(id)
            &&& !after.objects.contains_key(id) && !after.anchors.contains_key(id)
                && !after.revisions.contains_key(id)
            &&& existed ==> after.rebuild.contains(id) && !after.restyle.contains(id)
            &&& after.objects.contains_key(other) == state.objects.contains_key(other)
            &&& state.objects.contains_key(other) ==> after.objects[other] == state.objects[other]
            &&& after.anchors.contains_key(other) == state.anchors.contains_key(other)
            &&& state.anchors.contains_key(other) ==> after.anchors[other] == state.anchors[other]
            &&& bare.objects.contains_key(id) <==> state.objects.contains_key(id) && !ids.contains(
                id,
            )
            &&& bare.anchors.contains_key(id) <==> state.anchors.contains_key(id) && !ids.contains(
                id,
            )
            &&& bare.rebuild.contains(id) <==> state.rebuild.contains(id) || ids.contains(id)
            &&& bare.restyle.contains(id) <==> state.restyle.contains(id) && !ids.contains(id)
        }),
{
}

/// What text that scrolls up does to an object: it goes up as many rows, stops
/// at the top as long as a row of it is left, and is lost with its last row. An
/// image that placeholders hold stays, and no object is forgotten.
pub proof fn law_objects_scroll_with_the_text(state: InlineState, rows: u16, id: u32)
    requires
        rows > 0,
        state.anchors.contains_key(id),
        state.anchors[id].rows < 0x8000_0000,
    ensures
        ({
            let after = state.scrolled(rows);
            let anchor = state.anchors[id];
            let held = state.objects.contains_key(id) && (
            state.objects[id] matches InlineObject::KittyImage(image) && image.uses_placeholders);
            &&& after.objects == state.objects
            &&& held ==> after.anchors.contains_key(id) && after.anchors[id] == anchor
            &&& !held && anchor.row + anchor.rows <= rows ==> !after.anchors.contains_key(id)
            &&& !held && anchor.row + anchor.rows > rows ==> {
                let moved = after.anchors[id];
                &&& after.anchors.contains_key(id)
                &&& moved.row == (if anchor.row >= rows {
                    anchor.row - rows
                } else {
                    0
                })
                &&& moved.col == anchor.col && moved.rows == anchor.rows && moved.columns
                    == anchor.columns && moved.style == anchor.style
            }
            &&& after.dirty
        }),
{
    assert(state.anchors.dom().contains(id));
}

/// Placeholder images stand where they were last found, and nothing else moves.
pub proof fn law_found_images_stand_where_they_are(
    state: InlineState,
    moved: Seq<(u32, InlineAnchor)>,
    at: int,
    other: u32,
)
    ensures
        0 <= at < moved.len() && (forall|j: int| at < j < moved.len() ==> (#[trigger] moved[j]).0
            != moved[at].0) ==> state.refreshed(moved).anchors.contains_key(moved[at].0)
            && state.refreshed(moved).anchors[moved[at].0] == moved[at].1,
        (forall|j: int| 0 <= j < moved.len() ==> (#[trigger] moved[j]).0 != other) ==> (
        state.refreshed(moved).anchors.contains_key(other) == state.anchors.contains_key(other) && (
        state.anchors.contains_key(other) ==> state.refreshed(moved).anchors[other]
            == state.anchors[other])),
        state.refreshed(moved).objects == state.objects,
    decreases moved.len(),
{
    if moved.len() > 0 {
        let front = moved.drop_last();
        law_found_images_stand_where_they_are(state, front, at, other);
        assert forall|j: int| 0 <= j < front.len() implies #[trigger] front[j] == moved[j] by {}
        if 0 <= at < front.len() && (forall|j: int|
            at < j < moved.len() ==> (#[trigger] moved[j]).0 != moved[at].0) {
            assert(moved[moved.len() - 1].0 != moved[at].0);
        }
        if forall|j: int| 0 <= j < moved.len() ==> (#[trigger] moved[j]).0 != other {
            assert(moved[moved.len() - 1].0 != other);
        }
    }
}

/// A sequence that nobody claims goes on to the screen, past the guard; one
/// that is claimed is carried out and shows nothing.
pub proof fn law_unclaimed_sequences_are_shown(
    state: InlineState,
    sequence: Seq<u8>,
    operation: ApcOperation,
)
    ensures
        ({
            let (after, action, text) = state.settled(sequence, operation);
            &&& operation is Unclaimed ==> text == state.stream.guard.run(sequence).1 && after.objects
                == state.objects && after.anchors == state.anchors && action is Nothing
                && after.stream.guard == state.stream.guard.run(sequence).0 && after.stream.pending
                == state.stream.pending
            &&& !(operation is Unclaimed) ==> text.len() == 0
            &&& operation matches ApcOperation::Rgp(operation) ==> (after, action) == state.rgp(
                operation,
            )
            &&& operation matches ApcOperation::Kitty(operation) ==> after == state.kitty(operation)
                && action is Nothing
        }),
{
}

/// Two numbers are equal if they have the same bits and are defined, or are the
/// two zeros.
pub proof fn law_equal_numbers(a: Single, b: Single)
    ensures
        same_number(a, b) <==> !a.nan() && !b.nan() && (a.bits == b.bits || (a.bits % 0x8000_0000
            == 0 && b.bits % 0x8000_0000 == 0)),
{
}

/// The scene is rebuilt once for every change and every new viewport: right
/// after, it is up to date for the same numbers, and for no others; nothing is
/// left to rebuild or to restyle, and no object changes.
pub proof fn law_a_rebuilt_scene_is_up_to_date(
    state: InlineState,
    viewport: (Single, Single),
    cols: u16,
    rows: u16,
    other: (Single, Single),
    other_cols: u16,
    other_rows: u16,
)
    requires
        !viewport.0.nan(),
        !viewport.1.nan(),
    ensures
        ({
            let after = state.synced(viewport, cols, rows);
            &&& !after.stale(viewport, cols, rows)
            &&& other_cols != cols || other_rows != rows ==> after.stale(
                other,
                other_cols,
                other_rows,
            )
            &&& viewport.0.below(other.0) || other.0.below(viewport.0) || viewport.1.below(other.1)
                || other.1.below(viewport.1) ==> after.stale(other, other_cols, other_rows)
            &&& state.dirty ==> state.stale(other, other_cols, other_rows)
            &&& after.rebuild =~= Set::empty() && after.restyle =~= Set::empty()
            &&& after.objects == state.objects && after.anchors == state.anchors
        }),
{
}

/// A request for decoding carries the sequence that was found, and where the
/// cursor of the screen is; without a sequence there is none.
pub proof fn law_requests_carry_sequence_and_cursor(
    request: Option<ApcRequest>,
    sequence: Option<Seq<u8>>,
    screen: TerminalScreen,
)
    requires
        request_of(request, sequence, screen),
    ensures
        request is Some <==> sequence is Some,
        request matches Some(found) ==> sequence == Some(found.sequence@) && found.cursor
            == screen_cursor(screen),
{
}

/// A model that was loaded for a program is there under its id, unless the id is
/// an agent's; nothing else changes, and its revision is new.
pub proof fn law_loaded_models_are_there(
    state: InlineState,
    id: u32,
    object: InlineObject,
    other: u32,
)
    requires
        state.wf(),
        state.mutation_seq < u64::MAX,
        other != id,
    ensures
        ({
            let after = state.loaded(id, object);
            &&& id >= 0x8000_0000 ==> after == state
            &&& id < 0x8000_0000 ==> after.objects == state.objects.insert(id, object)
                && after.anchors == state.anchors && after.dirty && after.revision_of(id)
                > state.revision_of(id) && after.revision_of(id) > state.revision_of(other)
            &&& after.revision_of(other) == state.revision_of(other)
            &&& after.place(id) == state.place(id) && after.place(other) == state.place(other)
        }),
{
}

/// An object stands where it was placed, and one that was never placed stands
/// nowhere.
pub proof fn law_places_are_looked_up(state: InlineState, id: u32)
    ensures
        state.place(id) is Some <==> state.anchors.contains_key(id),
        state.place(id) matches Some(anchor) ==> anchor == state.anchors[id],
        state.revisions.contains_key(id) ==> state.revision_of(id) == state.revisions[id],
        !state.revisions.contains_key(id) ==> state.revision_of(id) == 0,
{
}

} // verus!
