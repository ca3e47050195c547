//! Agents' objects and the cursor, as commands change them.
//!
//! An agent may only touch ids inside its own namespace, and only on the
//! terminal that the command came through. An id that was spawned once is
//! never spawned anew, though its object be gone. A reset clears every agent's
//! objects on every terminal; the ids stay used.

use std::collections::HashSet;
use vstd::prelude::*;
use crate::ai::AiCommand;
use crate::identity::{IngressSource, TerminalId, TerminalIdentity};
use crate::inline::{
    agent_ids, numbers_equal, own_ids, same_number, AiUpdateOutcome, InlineObject, InlineState,
    InlineStyle, TerminalInlineObjects, Triple,
};
use crate::number::{Single, ONE_BITS};
use crate::osc::{ai_object_namespace, object_namespace, RattyAiCommand};
use crate::query::{reply_view, token_view, Code, LogState, Reject, Reply, ReplyLog, ReplyView};
use crate::text::{decimal, decimal_text, hex_word, hexadecimal, same_text};

verus! {

broadcast use vstd::std_specs::hash::group_hash_axioms;

/// Upper bound on live objects per agent.
pub const MAX_AI_OBJECTS_PER_NAMESPACE: usize = 64;

/// Upper bound on distinct object ids that a session may ever spawn.
pub const MAX_AI_OBJECT_IDS_PER_SESSION: usize = 4096;

/// The ids that were ever spawned.
#[derive(Debug)]
pub struct AiObjectRegistry {
    used: HashSet<u32>,
}

impl View for AiObjectRegistry {
    type V = Set<u32>;

    closed spec fn view(&self) -> Set<u32> {
        self.used@
    }
}

/// The used ids without an agent's.
pub open spec fn swept(used: Set<u32>, namespace: u8) -> Set<u32> {
    used.filter(|id: u32| object_namespace(id) != Some(namespace))
}

fn ids_of(set: &HashSet<u32>) -> (ids: Vec<u32>)
    ensures
        ids@.to_set() == set@,
{
    let mut ids: Vec<u32> = Vec::new();
    for id in it: set.iter()
        invariant
            ids@ == it.seq().unref().take(it.index()),
            it.seq().unref().to_set() == set@,
            it.index() == it.seq().len() ==> ids@ == it.seq().unref(),
    {
        ids.push(*id);
        assert(it.index() + 1 == it.seq().len() ==> ids@ =~= it.seq().unref());
    }
    ids
}

impl AiObjectRegistry {
    /// A registry in which no id is used.
    pub fn new() -> (registry: AiObjectRegistry)
        ensures
            registry@ == Set::<u32>::empty(),
    {
        AiObjectRegistry { used: HashSet::new() }
    }

    /// Frees a dead terminal's ids, so that the next terminal in its namespace
    /// starts with all of them.
    pub fn sweep_namespace(&mut self, namespace: u8)
        ensures
            final(self)@ == swept(old(self)@, namespace),
    {
        let ids = ids_of(&self.used);
        let mut kept: HashSet<u32> = HashSet::new();
        let mut i: usize = 0;
        while i < ids.len()
            invariant
                i <= ids@.len(),
                forall|id: u32|
                    #[trigger] kept@.contains(id) <==> object_namespace(id) != Some(namespace)
                        && ids@.take(i as int).contains(id),
            decreases ids.len() - i,
        {
            let id: u32 = ids[i];
            proof {
                let before = ids@.take(i as int);
                let next = ids@.take(i + 1);
                assert(next =~= before.push(id));
                assert forall|other: u32| #[trigger]
                    next.contains(other) <==> before.contains(other) || other == id by {
                    if before.contains(other) {
                        let j = choose|j: int| 0 <= j < i && before[j] == other;
                        assert(next[j] == other);
                    }
                    if other == id {
                        assert(next[i as int] == other);
                    }
                }
            }
            let keeps: bool = match ai_object_namespace(id) {
                Some(owner) => owner != namespace,
                None => true,
            };
            if keeps {
                kept.insert(id);
            }
            i += 1;
        }
        proof {
            assert(ids@.take(i as int) =~= ids@);
            assert forall|id: u32| kept@.contains(id) <==> swept(self@, namespace).contains(
                id,
            ) by {
                assert(ids@.to_set().contains(id) <==> ids@.contains(id));
            }
        }
        self.used = kept;
    }

    /// Marks an id as used.
    pub fn reserve(&mut self, id: u32)
        ensures
            final(self)@ == old(self)@.insert(id),
    {
        self.used.insert(id);
    }

    /// Whether an id was ever spawned.
    pub fn is_used(&self, id: u32) -> (used: bool)
        ensures
            used == self@.contains(id),
    {
        self.used.contains(&id)
    }

    /// How many ids were ever spawned.
    pub fn len(&self) -> (count: usize)
        ensures
            count == self@.len(),
    {
        self.used.len()
    }
}

/// Which model the cursor has.
#[derive(Debug)]
pub enum CursorModelChoice {
    /// The configured one.
    Config,
    /// An embedded asset.
    Embedded(String),
}

/// The configured cursor.
#[derive(Clone, Copy, Debug, PartialEq, Eq, Structural)]
pub struct CursorDefaults {
    /// Spin speed.
    pub spin_speed: Single,
    /// Bob speed.
    pub bob_speed: Single,
    /// Bob amplitude.
    pub bob_amplitude: Single,
    /// Brightness.
    pub brightness: Single,
    /// Whether the cursor shows.
    pub visible: bool,
}

/// The cursor as it stands.
#[derive(Debug)]
pub struct CursorSettings {
    /// Which model it has.
    pub model: CursorModelChoice,
    /// How it looks and moves.
    pub look: CursorDefaults,
    /// Whether its model must be built again.
    pub needs_respawn: bool,
}

/// A cursor's contents.
pub struct CursorView {
    /// The embedded asset; absent, the configured model.
    pub model: Option<Seq<char>>,
    /// How it looks and moves.
    pub look: CursorDefaults,
    /// Whether its model must be built again.
    pub needs_respawn: bool,
}

impl View for CursorSettings {
    type V = CursorView;

    open spec fn view(&self) -> CursorView {
        CursorView {
            model: match self.model {
                CursorModelChoice::Config => None,
                CursorModelChoice::Embedded(name) => Some(name@),
            },
            look: self.look,
            needs_respawn: self.needs_respawn,
        }
    }
}

/// A field's new value where one is given.
pub open spec fn given<T>(new: Option<T>, kept: T) -> T {
    match new {
        Some(value) => value,
        None => kept,
    }
}

impl CursorView {
    /// A cursor with changes. A new model or another brightness, which is
    /// baked into the materials, builds the model again.
    pub open spec fn updated(
        self,
        model: Option<Seq<char>>,
        spin: Option<Single>,
        bob_speed: Option<Single>,
        bob_amp: Option<Single>,
        brightness: Option<Single>,
        visible: Option<bool>,
    ) -> CursorView {
        let swaps = model is Some && self.model != model;
        let relights = brightness matches Some(brightness) && !same_number(
            self.look.brightness,
            brightness,
        );
        CursorView {
            model: if swaps {
                model
            } else {
                self.model
            },
            look: CursorDefaults {
                spin_speed: given(spin, self.look.spin_speed),
                bob_speed: given(bob_speed, self.look.bob_speed),
                bob_amplitude: given(bob_amp, self.look.bob_amplitude),
                brightness: if relights {
                    given(brightness, self.look.brightness)
                } else {
                    self.look.brightness
                },
                visible: given(visible, self.look.visible),
            },
            needs_respawn: self.needs_respawn || swaps || relights,
        }
    }

    /// The configured cursor again.
    pub open spec fn restored(self, defaults: CursorDefaults) -> CursorView {
        CursorView {
            model: None,
            look: defaults,
            needs_respawn: self.needs_respawn || self.model is Some || !same_number(
                self.look.brightness,
                defaults.brightness,
            ),
        }
    }
}

impl CursorSettings {
    /// The configured cursor.
    pub fn new(defaults: CursorDefaults) -> (cursor: CursorSettings)
        ensures
            cursor@ == (CursorView { model: None, look: defaults, needs_respawn: false }),
    {
        CursorSettings { model: CursorModelChoice::Config, look: defaults, needs_respawn: false }
    }

    fn update(
        &mut self,
        model: &Option<String>,
        spin: Option<Single>,
        bob_speed: Option<Single>,
        bob_amp: Option<Single>,
        brightness: Option<Single>,
        visible: Option<bool>,
    )
        ensures
            final(self)@ == old(self)@.updated(
                token_view(*model),
                spin,
                bob_speed,
                bob_amp,
                brightness,
                visible,
            ),
    {
        if let Some(name) = model {
            let same: bool = match &self.model {
                CursorModelChoice::Config => false,
                CursorModelChoice::Embedded(current) => same_text(current, name),
            };
            if !same {
                self.model = CursorModelChoice::Embedded(name.clone());
                self.needs_respawn = true;
            }
        }
        if let Some(spin) = spin {
            self.look.spin_speed = spin;
        }
        if let Some(bob_speed) = bob_speed {
            self.look.bob_speed = bob_speed;
        }
        if let Some(bob_amp) = bob_amp {
            self.look.bob_amplitude = bob_amp;
        }
        if let Some(brightness) = brightness {
            if !numbers_equal(self.look.brightness, brightness) {
                self.look.brightness = brightness;
                self.needs_respawn = true;
            }
        }
        if let Some(visible) = visible {
            self.look.visible = visible;
        }
    }

    /// Restores the configured cursor.
    pub fn reset_to_config(&mut self, defaults: CursorDefaults)
        ensures
            final(self)@ == old(self)@.restored(defaults),
    {
        let swapped: bool = match self.model {
            CursorModelChoice::Config => false,
            CursorModelChoice::Embedded(_) => true,
        };
        let relights: bool = !numbers_equal(self.look.brightness, defaults.brightness);
        self.needs_respawn = self.needs_respawn || swapped || relights;
        self.model = CursorModelChoice::Config;
        self.look = defaults;
    }
}

/// What became of the embedded asset that a command names.
#[derive(Debug)]
pub enum AssetLoad {
    /// The command names none, or it is there to be loaded later.
    Unneeded,
    /// It was loaded.
    Loaded(InlineObject),
    /// It cannot be loaded, for this reason.
    Failed(String),
}

/// A terminal that objects stand on.
#[derive(Debug)]
pub struct ObjectSeat {
    /// Who sits there.
    pub identity: TerminalIdentity,
    /// Its objects.
    pub objects: TerminalInlineObjects,
    /// Whether it must be painted again.
    pub redraw: bool,
}

/// A seat's contents.
pub struct ObjectSeatView {
    /// Who sits there.
    pub identity: TerminalIdentity,
    /// Its objects.
    pub objects: InlineState,
    /// Whether it must be painted again.
    pub redraw: bool,
}

impl View for ObjectSeat {
    type V = ObjectSeatView;

    open spec fn view(&self) -> ObjectSeatView {
        ObjectSeatView {
            identity: self.identity,
            objects: self.objects@,
            redraw: self.redraw,
        }
    }
}

/// The contents of seats.
pub open spec fn object_seats(seats: Seq<ObjectSeat>) -> Seq<ObjectSeatView> {
    seats.map_values(|seat: ObjectSeat| seat@)
}

/// The index of a terminal's seat.
pub open spec fn object_seat(seats: Seq<ObjectSeatView>, id: TerminalId) -> Option<int>
    decreases seats.len(),
{
    if seats.len() == 0 {
        None
    } else {
        match object_seat(seats.drop_last(), id) {
            Some(i) => Some(i),
            None => if seats.last().identity.terminal_id() == id {
                Some(seats.len() - 1)
            } else {
                None
            },
        }
    }
}

proof fn lemma_object_seat(seats: Seq<ObjectSeatView>, id: TerminalId)
    ensures
        match object_seat(seats, id) {
            Some(i) => 0 <= i < seats.len() && seats[i].identity.terminal_id() == id && forall|j: int|
                0 <= j < i ==> (#[trigger] seats[j]).identity.terminal_id() != id,
            None => forall|j: int|
                0 <= j < seats.len() ==> (#[trigger] seats[j]).identity.terminal_id() != id,
        },
    decreases seats.len(),
{
    if seats.len() > 0 {
        lemma_object_seat(seats.drop_last(), id);
        assert forall|j: int| 0 <= j < seats.len() - 1 implies #[trigger] seats[j]
            == seats.drop_last()[j] by {}
    }
}

/// An id as messages write it.
pub open spec fn id_text(id: u32) -> Seq<char> {
    "0x"@ + hexadecimal(id as nat, 8)
}

/// The sentence for an id that is not the caller's.
pub open spec fn foreign_id(id: u32, namespace: u8) -> Seq<char> {
    "id "@ + id_text(id) + " is outside the caller's AI range/namespace ("@ + decimal(
        namespace as nat,
    ) + ")"@
}

/// The sentence for an id that is live.
pub open spec fn live_id(id: u32) -> Seq<char> {
    "id "@ + id_text(id) + " already exists (pass replace=true to replace it)"@
}

/// The sentence for an id that was used before.
pub open spec fn spent_id(id: u32) -> Seq<char> {
    "id "@ + id_text(id) + " was already used this session; ids are never reused"@
}

/// The sentence for an agent at its cap.
pub open spec fn object_cap(namespace: u8) -> Seq<char> {
    "namespace "@ + decimal(namespace as nat) + " is at its 64-object limit"@
}

/// The sentence for an id without an object.
pub open spec fn no_object(id: u32) -> Seq<char> {
    "no object with id "@ + id_text(id)
}

/// The sentence for an object without a place.
pub open spec fn scrolled_away(id: u32) -> Seq<char> {
    "object "@ + id_text(id) + " scrolled away; object.add with replace=true re-anchors it"@
}

/// The sentence for a cursor model that cannot be loaded.
pub open spec fn no_model(name: Seq<char>) -> Seq<char> {
    "model '"@ + name
        + "' is not a loadable embedded asset (wire model swaps resolve embedded names only)"@
}

/// The style of a spawned object; one that spins is animated.
pub open spec fn spawned_style(scale: Single, spin: Single, brightness: Single) -> InlineStyle {
    InlineStyle {
        animate: spin.nonzero(),
        scale,
        depth: Single { bits: 0 },
        color: None,
        brightness,
        offset: Triple { x: Single { bits: 0 }, y: Single { bits: 0 }, z: Single { bits: 0 } },
        rotation: Triple { x: Single { bits: 0 }, y: Single { bits: 0 }, z: Single { bits: 0 } },
        scale3: Triple {
            x: Single { bits: ONE_BITS },
            y: Single { bits: ONE_BITS },
            z: Single { bits: ONE_BITS },
        },
        spin: if spin.nonzero() {
            Some(spin)
        } else {
            None
        },
        bob: None,
        bob_amplitude: None,
        phase: Single { bits: 0 },
    }
}

fn object_style(scale: Single, spin: Single, brightness: Single) -> (style: InlineStyle)
    ensures
        style == spawned_style(scale, spin, brightness),
{
    let spins: bool = spin.is_nonzero();
    let zero = Single { bits: 0 };
    let one = Single { bits: ONE_BITS };
    InlineStyle {
        animate: spins,
        scale,
        depth: zero,
        color: None,
        brightness,
        offset: Triple { x: zero, y: zero, z: zero },
        rotation: Triple { x: zero, y: zero, z: zero },
        scale3: Triple { x: one, y: one, z: one },
        spin: if spins {
            Some(spin)
        } else {
            None
        },
        bob: None,
        bob_amplitude: None,
        phase: zero,
    }
}

/// What the object organ holds.
pub struct ObjectWorld {
    /// The terminals.
    pub seats: Seq<ObjectSeatView>,
    /// The ids that were ever spawned.
    pub used: Set<u32>,
    /// The cursor.
    pub cursor: CursorView,
}

/// The seats, each to be painted again.
pub open spec fn all_redrawn(seats: Seq<ObjectSeatView>) -> Seq<ObjectSeatView> {
    seats.map_values(|seat: ObjectSeatView| ObjectSeatView { redraw: true, ..seat })
}

/// A seat without any agent's object, to be painted again.
pub open spec fn seat_cleared(seat: ObjectSeatView) -> ObjectSeatView {
    ObjectSeatView {
        objects: seat.objects.agents_cleared(agent_ids(seat.objects.objects.dom())),
        redraw: true,
        ..seat
    }
}

/// On how many seats an id is an agent's object.
pub open spec fn seats_with(seats: Seq<ObjectSeatView>, id: u32) -> nat
    decreases seats.len(),
{
    if seats.len() == 0 {
        0
    } else {
        seats_with(seats.drop_last(), id) + if agent_ids(
            seats.last().objects.objects.dom(),
        ).contains(id) {
            1nat
        } else {
            0
        }
    }
}

/// Why an object may not be spawned, if so: the id must be the caller's; a live
/// one must be replaced by name; one that is not live must be fresh, and the
/// session and the agent must have room for it.
pub open spec fn spawn_refusal(
    objects: Map<u32, InlineObject>,
    used: Set<u32>,
    namespace: u8,
    id: u32,
    replace: bool,
) -> Option<(Code, Seq<char>)> {
    let live = objects.contains_key(id);
    if object_namespace(id) != Some(namespace) {
        Some((Code::NotOwner, foreign_id(id, namespace)))
    } else if live && !replace {
        Some((Code::AlreadyExists, live_id(id)))
    } else if live {
        None
    } else if used.contains(id) {
        Some((Code::IdReused, spent_id(id)))
    } else if used.len() >= MAX_AI_OBJECT_IDS_PER_SESSION {
        Some((Code::SessionBudget, "the session id budget (4096) is exhausted"@))
    } else if own_ids(objects.dom(), namespace).len() >= MAX_AI_OBJECTS_PER_NAMESPACE {
        Some((Code::NamespaceCap, object_cap(namespace)))
    } else {
        None
    }
}

impl ObjectSeatView {
    /// The seat with another state of its objects, to be painted again.
    pub open spec fn with_objects(self, objects: InlineState) -> ObjectSeatView {
        ObjectSeatView { objects, redraw: true, ..self }
    }

    /// What an object command does to the seat that it came through and to the
    /// used ids, and what is answered.
    pub open spec fn step(
        self,
        used: Set<u32>,
        namespace: u8,
        command: RattyAiCommand,
        asset: AssetLoad,
    ) -> (ObjectSeatView, Set<u32>, Option<ReplyView>) {
        match command {
            RattyAiCommand::SpawnObject { id, path, x, y, scale, spin, brightness, replace } =>
                match spawn_refusal(self.objects.objects, used, namespace, id, replace) {
                Some((code, message)) => (
                    self,
                    used,
                    Some(ReplyView::Refused("object.add"@, code, message)),
                ),
                None => match asset {
                    AssetLoad::Loaded(object) => (
                        self.with_objects(
                            self.objects.agent_inserted(
                                id,
                                object,
                                x,
                                y,
                                spawned_style(scale, spin, brightness),
                            ),
                        ),
                        used.insert(id),
                        Some(ReplyView::Commit),
                    ),
                    AssetLoad::Failed(reason) => (
                        self,
                        used,
                        Some(ReplyView::Refused("object.add"@, Code::BadAsset, reason@)),
                    ),
                    AssetLoad::Unneeded => (self, used, None),
                },
            },
            RattyAiCommand::UpdateObject { id, x, y, scale, spin, brightness } =>
                if object_namespace(id) != Some(namespace) {
                (
                    self,
                    used,
                    Some(
                        ReplyView::Refused(
                            "object.update"@,
                            Code::NotOwner,
                            foreign_id(id, namespace),
                        ),
                    ),
                )
            } else {
                let (objects, outcome) = self.objects.agent_updated(
                    id,
                    x,
                    y,
                    scale,
                    spin,
                    brightness,
                );
                match outcome {
                    AiUpdateOutcome::Applied => (
                        self.with_objects(objects),
                        used,
                        Some(ReplyView::Commit),
                    ),
                    AiUpdateOutcome::UnknownId => (
                        self,
                        used,
                        Some(ReplyView::Refused("object.update"@, Code::UnknownId, no_object(id))),
                    ),
                    AiUpdateOutcome::NoAnchor => (
                        self,
                        used,
                        Some(
                            ReplyView::Refused("object.update"@, Code::NoAnchor, scrolled_away(id)),
                        ),
                    ),
                }
            },
            RattyAiCommand::RemoveObject { id } => if object_namespace(id) != Some(namespace) {
                (
                    self,
                    used,
                    Some(
                        ReplyView::Refused(
                            "object.remove"@,
                            Code::NotOwner,
                            foreign_id(id, namespace),
                        ),
                    ),
                )
            } else {
                let (objects, existed) = self.objects.agent_removed(id);
                if existed {
                    (self.with_objects(objects), used, Some(ReplyView::Commit))
                } else {
                    (
                        ObjectSeatView { objects, ..self },
                        used,
                        Some(ReplyView::Refused("object.remove"@, Code::UnknownId, no_object(id))),
                    )
                }
            },
            RattyAiCommand::ClearObjects => {
                let ids = own_ids(self.objects.objects.dom(), namespace);
                (
                    if ids.len() == 0 {
                        self
                    } else {
                        self.with_objects(self.objects.agents_cleared(ids))
                    },
                    used,
                    Some(ReplyView::Commit),
                )
            },
            _ => (self, used, None),
        }
    }

    /// Whether an object command that came through the seat removes an id.
    pub open spec fn removes(self, namespace: u8, command: RattyAiCommand, id: u32) -> bool {
        match command {
            RattyAiCommand::RemoveObject { id: gone } => gone == id && object_namespace(id) == Some(
                namespace,
            ) && self.objects.objects.contains_key(id),
            RattyAiCommand::ClearObjects => own_ids(
                self.objects.objects.dom(),
                namespace,
            ).contains(id),
            _ => false,
        }
    }
}

impl ObjectWorld {
    /// What a command does to objects and cursor, and what is answered. A
    /// command from a terminal that is gone does nothing at all; a reset is
    /// answered elsewhere. The cursor is the scene's, and changes as a whole
    /// or not at all.
    pub open spec fn step(
        self,
        source: IngressSource,
        command: RattyAiCommand,
        asset: AssetLoad,
        defaults: CursorDefaults,
    ) -> (ObjectWorld, Option<ReplyView>) {
        match (command, object_seat(self.seats, source.terminal_id())) {
            (RattyAiCommand::Reset, _) => (
                ObjectWorld {
                    seats: self.seats.map_values(|seat: ObjectSeatView| seat_cleared(seat)),
                    used: self.used,
                    cursor: self.cursor.restored(defaults),
                },
                None,
            ),
            (_, None) => (self, None),
            (
                RattyAiCommand::UpdateCursor {
                    model,
                    spin,
                    bob_speed,
                    bob_amp,
                    brightness,
                    visible,
                },
                Some(_),
            ) => if model is Some && asset is Failed {
                (
                    self,
                    Some(
                        ReplyView::Refused("cursor"@, Code::BadAsset, no_model(model->0@)),
                    ),
                )
            } else {
                (
                    ObjectWorld {
                        seats: all_redrawn(self.seats),
                        used: self.used,
                        cursor: self.cursor.updated(
                            token_view(model),
                            spin,
                            bob_speed,
                            bob_amp,
                            brightness,
                            visible,
                        ),
                    },
                    Some(ReplyView::Commit),
                )
            },
            (_, Some(at)) => {
                let (seat, used, reply) = self.seats[at].step(
                    self.used,
                    source.slot(),
                    command,
                    asset,
                );
                (
                    ObjectWorld {
                        seats: self.seats.update(at, seat),
                        used,
                        cursor: self.cursor,
                    },
                    reply,
                )
            },
        }
    }

    /// How often a command removes an id.
    pub open spec fn removes(self, source: IngressSource, command: RattyAiCommand, id: u32) -> nat {
        match (command, object_seat(self.seats, source.terminal_id())) {
            (RattyAiCommand::Reset, _) => seats_with(self.seats, id),
            (_, Some(at)) => if self.seats[at].removes(source.slot(), command, id) {
                1
            } else {
                0
            },
            _ => 0,
        }
    }
}

/// An agent's object was removed.
#[derive(Clone, Copy, Debug, PartialEq, Eq, Structural)]
pub struct AiObjectRemoved {
    /// The removed object's id.
    pub id: u32,
}

/// How often a list of removals holds an id.
pub open spec fn removed_times(removals: Seq<AiObjectRemoved>, id: u32) -> nat
    decreases removals.len(),
{
    if removals.len() == 0 {
        0
    } else {
        removed_times(removals.drop_last(), id) + if removals.last().id == id {
            1nat
        } else {
            0
        }
    }
}

/// What the object organ holds.
pub open spec fn object_world(
    seats: Seq<ObjectSeat>,
    registry: AiObjectRegistry,
    cursor: CursorSettings,
) -> ObjectWorld {
    ObjectWorld { seats: object_seats(seats), used: registry@, cursor: cursor@ }
}

/// The objects of every seat are in order, and have room for some changes.
pub open spec fn object_seats_wf(seats: Seq<ObjectSeat>, changes: nat) -> bool {
    forall|i: int|
        0 <= i < seats.len() ==> (#[trigger] seats[i]).objects.wf()
            && seats[i].objects@.mutation_seq + changes <= u64::MAX
}

fn report_removals(removals: &mut Vec<AiObjectRemoved>, ids: &Vec<u32>)
    requires
        ids@.no_duplicates(),
    ensures
        old(removals)@.is_prefix_of(final(removals)@),
        forall|id: u32| #[trigger]
            removed_times(final(removals)@, id) == removed_times(old(removals)@, id) + if ids@.to_set().contains(id) {
                1nat
            } else {
                0
            },
{
    let mut i: usize = 0;
    while i < ids.len()
        invariant
            i <= ids@.len(),
            ids@.no_duplicates(),
            old(removals)@.is_prefix_of(removals@),
            forall|id: u32| #[trigger]
                removed_times(removals@, id) == removed_times(old(removals)@, id)
                    + if ids@.take(i as int).contains(id) {
                    1nat
                } else {
                    0
                },
        decreases ids.len() - i,
    {
        let ghost before = removals@;
        removals.push(AiObjectRemoved { id: ids[i] });
        proof {
            assert(removals@.drop_last() =~= before);
            let shorter = ids@.take(i as int);
            let longer = ids@.take(i + 1);
            assert(longer =~= shorter.push(ids@[i as int]));
            assert forall|id: u32| #[trigger]
                removed_times(removals@, id) == removed_times(old(removals)@, id)
                    + if longer.contains(id) {
                    1nat
                } else {
                    0
                } by {
                if shorter.contains(id) {
                    let j = choose|j: int| 0 <= j < i && shorter[j] == id;
                    assert(longer[j] == id);
                    assert(ids@[j] != ids@[i as int]);
                }
                if id == ids@[i as int] {
                    assert(longer[i as int] == id);
                }
                assert(removed_times(before, id) == removed_times(old(removals)@, id)
                    + if shorter.contains(id) {
                    1nat
                } else {
                    0
                });
            }
        }
        i += 1;
    }
    assert(ids@.take(i as int) =~= ids@);
}

fn find_object_seat(seats: &Vec<ObjectSeat>, id: TerminalId) -> (found: Option<usize>)
    ensures
        match found {
            Some(i) => object_seat(object_seats(seats@), id) == Some(i as int) && i < seats@.len(),
            None => object_seat(object_seats(seats@), id) is None,
        },
{
    proof {
        lemma_object_seat(object_seats(seats@), id);
    }
    let mut i: usize = 0;
    while i < seats.len()
        invariant
            i <= seats@.len(),
            object_seats(seats@).len() == seats@.len(),
            forall|j: int|
                0 <= j < i ==> (#[trigger] object_seats(seats@)[j]).identity.terminal_id() != id,
            match object_seat(object_seats(seats@), id) {
                Some(k) => 0 <= k < seats@.len() && object_seats(
                    seats@,
                )[k].identity.terminal_id() == id && forall|j: int|
                    0 <= j < k ==> (#[trigger] object_seats(seats@)[j]).identity.terminal_id()
                        != id,
                None => forall|j: int|
                    0 <= j < seats@.len() ==> (#[trigger] object_seats(
                        seats@,
                    )[j]).identity.terminal_id() != id,
            },
        decreases seats.len() - i,
    {
        assert(object_seats(seats@)[i as int].identity == seats@[i as int].identity);
        if seats[i].identity.id() == id {
            return Some(i);
        }
        i += 1;
    }
    None
}

fn owns(id: u32, namespace: u8) -> (own: bool)
    ensures
        own == (object_namespace(id) == Some(namespace)),
{
    match ai_object_namespace(id) {
        Some(owner) => owner == namespace,
        None => false,
    }
}

fn refuse(action: &'static str, code: Code, message: String) -> (reply: Option<Reply>)
    ensures
        reply_view(reply) == Some(ReplyView::Refused(action@, code, message@)),
{
    Some(Reply::Refused { action, reject: Reject { code, message } })
}

fn foreign_message(id: u32, namespace: u8) -> (message: String)
    ensures
        message@ == foreign_id(id, namespace),
{
    let mut message = "id ".to_owned();
    message.append(&hex_word(id));
    message.append(" is outside the caller's AI range/namespace (");
    message.append(&decimal_text(namespace as u64));
    message.append(")");
    message
}

fn missing_message(id: u32) -> (message: String)
    ensures
        message@ == no_object(id),
{
    let mut message = "no object with id ".to_owned();
    message.append(&hex_word(id));
    message
}

fn check_spawn(
    seat: &ObjectSeat,
    registry: &AiObjectRegistry,
    namespace: u8,
    id: u32,
    replace: bool,
) -> (refusal: Option<Reject>)
    ensures
        match refusal {
            Some(reject) => Some(reject@),
            None => None,
        } == spawn_refusal(seat.objects@.objects, registry@, namespace, id, replace),
{
    if !owns(id, namespace) {
        return Some(Reject { code: Code::NotOwner, message: foreign_message(id, namespace) });
    }
    if seat.objects.contains_object(id) {
        if replace {
            return None;
        }
        let mut message = "id ".to_owned();
        message.append(&hex_word(id));
        message.append(" already exists (pass replace=true to replace it)");
        return Some(Reject { code: Code::AlreadyExists, message });
    }
    if registry.is_used(id) {
        let mut message = "id ".to_owned();
        message.append(&hex_word(id));
        message.append(" was already used this session; ids are never reused");
        return Some(Reject { code: Code::IdReused, message });
    }
    if registry.len() >= MAX_AI_OBJECT_IDS_PER_SESSION {
        return Some(
            Reject::new(Code::SessionBudget, "the session id budget (4096) is exhausted"),
        );
    }
    if seat.objects.ai_namespace_len(namespace) >= MAX_AI_OBJECTS_PER_NAMESPACE {
        let mut message = "namespace ".to_owned();
        message.append(&decimal_text(namespace as u64));
        message.append(" is at its 64-object limit");
        return Some(Reject { code: Code::NamespaceCap, message });
    }
    None
}

fn redraw_all(seats: &mut Vec<ObjectSeat>, Ghost(changes): Ghost<nat>)
    requires
        object_seats_wf(old(seats)@, changes),
    ensures
        object_seats_wf(final(seats)@, changes),
        object_seats(final(seats)@) == all_redrawn(object_seats(old(seats)@)),
{
    let ghost start = object_seats(seats@);
    let mut i: usize = 0;
    while i < seats.len()
        invariant
            i <= seats@.len(),
            start.len() == seats@.len(),
            object_seats_wf(seats@, changes),
            forall|j: int| 0 <= j < i ==> (#[trigger] seats@[j])@ == all_redrawn(start)[j],
            forall|j: int| i <= j < seats@.len() ==> (#[trigger] seats@[j])@ == start[j],
        decreases seats.len() - i,
    {
        seats[i].redraw = true;
        i += 1;
    }
    assert(object_seats(seats@) =~= all_redrawn(start));
}

fn clear_all_seats(
    seats: &mut Vec<ObjectSeat>,
    removals: &mut Vec<AiObjectRemoved>,
    Ghost(changes): Ghost<nat>,
)
    requires
        object_seats_wf(old(seats)@, changes),
    ensures
        object_seats_wf(final(seats)@, changes),
        object_seats(final(seats)@) == object_seats(old(seats)@).map_values(
            |seat: ObjectSeatView| seat_cleared(seat),
        ),
        old(removals)@.is_prefix_of(final(removals)@),
        forall|id: u32| #[trigger]
            removed_times(final(removals)@, id) == removed_times(old(removals)@, id) + seats_with(
                object_seats(old(seats)@),
                id,
            ),
{
    let ghost start = object_seats(seats@);
    let mut i: usize = 0;
    assert(start.take(0) =~= Seq::empty());
    while i < seats.len()
        invariant
            i <= seats@.len(),
            start.len() == seats@.len(),
            object_seats_wf(seats@, changes),
            forall|j: int| 0 <= j < i ==> (#[trigger] seats@[j])@ == seat_cleared(start[j]),
            forall|j: int| i <= j < seats@.len() ==> (#[trigger] seats@[j])@ == start[j],
            old(removals)@.is_prefix_of(removals@),
            forall|id: u32| #[trigger]
                removed_times(removals@, id) == removed_times(old(removals)@, id) + seats_with(
                    start.take(i as int),
                    id,
                ),
        decreases seats.len() - i,
    {
        let ghost before = removals@;
        let ids = seats[i].objects.ai_clear_all();
        seats[i].redraw = true;
        report_removals(removals, &ids);
        proof {
            let next = start.take(i + 1);
            assert(next.drop_last() =~= start.take(i as int));
            assert(next.last() == start[i as int]);
            assert forall|id: u32| #[trigger]
                removed_times(removals@, id) == removed_times(old(removals)@, id) + seats_with(
                    next,
                    id,
                ) by {
                assert(removed_times(before, id) == removed_times(old(removals)@, id) + seats_with(
                    start.take(i as int),
                    id,
                ));
            }
        }
        i += 1;
    }
    proof {
        assert(start.take(i as int) =~= start);
        assert(object_seats(seats@) =~= start.map_values(
            |seat: ObjectSeatView| seat_cleared(seat),
        ));
    }
}

fn apply_seat_command(
    seat: &mut ObjectSeat,
    registry: &mut AiObjectRegistry,
    namespace: u8,
    command: &RattyAiCommand,
    asset: AssetLoad,
    removals: &mut Vec<AiObjectRemoved>,
) -> (reply: Option<Reply>)
    requires
        old(seat).objects.wf(),
        old(seat).objects@.mutation_seq < u64::MAX,
    ensures
        final(seat).objects.wf(),
        final(seat).objects@.mutation_seq <= old(seat).objects@.mutation_seq + 1,
        (final(seat)@, final(registry)@, reply_view(reply)) == old(seat)@.step(
            old(registry)@,
            namespace,
            *command,
            asset,
        ),
        old(removals)@.is_prefix_of(final(removals)@),
        forall|id: u32| #[trigger]
            removed_times(final(removals)@, id) == removed_times(old(removals)@, id) + if old(
                seat,
            )@.removes(namespace, *command, id) {
                1nat
            } else {
                0
            },
{
    match command {
        RattyAiCommand::SpawnObject { id, path, x, y, scale, spin, brightness, replace } => {
            if let Some(reject) = check_spawn(seat, registry, namespace, *id, *replace) {
                return Some(Reply::Refused { action: "object.add", reject });
            }
            match asset {
                AssetLoad::Loaded(object) => {
                    registry.reserve(*id);
                    seat.objects.ai_insert_object(
                        *id,
                        object,
                        *x,
                        *y,
                        object_style(*scale, *spin, *brightness),
                    );
                    seat.redraw = true;
                    Some(Reply::Commit)
                },
                AssetLoad::Failed(reason) => refuse("object.add", Code::BadAsset, reason),
                AssetLoad::Unneeded => None,
            }
        },
        RattyAiCommand::UpdateObject { id, x, y, scale, spin, brightness } => {
            if !owns(*id, namespace) {
                return refuse("object.update", Code::NotOwner, foreign_message(*id, namespace));
            }
            match seat.objects.ai_update_object(*id, *x, *y, *scale, *spin, *brightness) {
                AiUpdateOutcome::Applied => {
                    seat.redraw = true;
                    Some(Reply::Commit)
                },
                AiUpdateOutcome::UnknownId => refuse(
                    "object.update",
                    Code::UnknownId,
                    missing_message(*id),
                ),
                AiUpdateOutcome::NoAnchor => {
                    let mut message = "object ".to_owned();
                    message.append(&hex_word(*id));
                    message.append(" scrolled away; object.add with replace=true re-anchors it");
                    refuse("object.update", Code::NoAnchor, message)
                },
            }
        },
        RattyAiCommand::RemoveObject { id } => {
            if !owns(*id, namespace) {
                return refuse("object.remove", Code::NotOwner, foreign_message(*id, namespace));
            }
            if seat.objects.ai_remove_object(*id) {
                let ghost before = removals@;
                removals.push(AiObjectRemoved { id: *id });
                assert(removals@.drop_last() =~= before);
                seat.redraw = true;
                Some(Reply::Commit)
            } else {
                refuse("object.remove", Code::UnknownId, missing_message(*id))
            }
        },
        RattyAiCommand::ClearObjects => {
            let ghost before = seat@;
            let removed = seat.objects.ai_clear_namespace(namespace);
            proof {
                let own = own_ids(before.objects.objects.dom(), namespace);
                removed@.unique_seq_to_set();
                if removed@.len() == 0 {
                    assert(own =~= Set::empty());
                    let after = before.objects.agents_cleared(own);
                    assert(after.objects =~= before.objects.objects);
                    assert(after.anchors =~= before.objects.anchors);
                    assert(after.revisions =~= before.objects.revisions);
                    assert(after.rebuild =~= before.objects.rebuild);
                    assert(after.restyle =~= before.objects.restyle);
                }
            }
            report_removals(removals, &removed);
            if removed.len() > 0 {
                seat.redraw = true;
            }
            Some(Reply::Commit)
        },
        _ => None,
    }
}

fn apply_object_command(
    source: IngressSource,
    command: &RattyAiCommand,
    asset: AssetLoad,
    seats: &mut Vec<ObjectSeat>,
    registry: &mut AiObjectRegistry,
    cursor: &mut CursorSettings,
    defaults: CursorDefaults,
    removals: &mut Vec<AiObjectRemoved>,
    Ghost(changes): Ghost<nat>,
) -> (reply: Option<Reply>)
    requires
        object_seats_wf(old(seats)@, changes + 1),
    ensures
        object_seats_wf(final(seats)@, changes),
        (object_world(final(seats)@, *final(registry), *final(cursor)), reply_view(reply))
            == object_world(old(seats)@, *old(registry), *old(cursor)).step(
            source,
            *command,
            asset,
            defaults,
        ),
        old(removals)@.is_prefix_of(final(removals)@),
        forall|id: u32| #[trigger]
            removed_times(final(removals)@, id) == removed_times(old(removals)@, id) + object_world(
                old(seats)@,
                *old(registry),
                *old(cursor),
            ).removes(source, *command, id),
{
    let ghost start = object_world(seats@, *registry, *cursor);
    proof {
        lemma_object_seat(start.seats, source.terminal_id());
    }
    match command {
        RattyAiCommand::Reset => {
            clear_all_seats(seats, removals, Ghost(changes));
            cursor.reset_to_config(defaults);
            None
        },
        RattyAiCommand::UpdateCursor { model, spin, bob_speed, bob_amp, brightness, visible } => {
            if find_object_seat(seats, source.terminal()).is_none() {
                return None;
            }
            if let Some(name) = model {
                if let AssetLoad::Failed(_) = asset {
                    let mut message = "model '".to_owned();
                    message.append(name);
                    message.append(
                        "' is not a loadable embedded asset (wire model swaps resolve embedded names only)",
                    );
                    return refuse("cursor", Code::BadAsset, message);
                }
            }
            cursor.update(model, *spin, *bob_speed, *bob_amp, *brightness, *visible);
            redraw_all(seats, Ghost(changes));
            Some(Reply::Commit)
        },
        _ => match find_object_seat(seats, source.terminal()) {
            Some(at) => {
                let reply = apply_seat_command(
                    &mut seats[at],
                    registry,
                    source.namespace(),
                    command,
                    asset,
                    removals,
                );
                assert(object_seats(seats@) =~= start.seats.update(at as int, seats@[at as int]@));
                reply
            },
            None => None,
        },
    }
}

/// Objects, cursor and answers after a run of commands, each with what became
/// of its asset.
pub open spec fn object_run(
    world: ObjectWorld,
    log: LogState,
    commands: Seq<AiCommand>,
    assets: Seq<AssetLoad>,
    defaults: CursorDefaults,
) -> (ObjectWorld, LogState)
    decreases commands.len(),
{
    if commands.len() == 0 {
        (world, log)
    } else {
        let (world, log) = object_run(
            world,
            log,
            commands.drop_last(),
            assets.drop_last(),
            defaults,
        );
        let last = commands.last();
        let (world, reply) = world.step(last.source, last.command, assets.last(), defaults);
        (world, log.answered(last.source, token_view(last.ack_token), reply))
    }
}

/// How often a run of commands removes an id.
pub open spec fn run_removes(
    world: ObjectWorld,
    commands: Seq<AiCommand>,
    assets: Seq<AssetLoad>,
    defaults: CursorDefaults,
    id: u32,
) -> nat
    decreases commands.len(),
{
    if commands.len() == 0 {
        0
    } else {
        let before = object_run(
            world,
            LogState::empty(),
            commands.drop_last(),
            assets.drop_last(),
            defaults,
        ).0;
        run_removes(world, commands.drop_last(), assets.drop_last(), defaults, id)
            + before.removes(commands.last().source, commands.last().command, id)
    }
}

/// Whether a run's removals stand in the order of its commands: those of an
/// earlier command before those of a later one.
pub open spec fn removed_in_order(
    removals: Seq<AiObjectRemoved>,
    world: ObjectWorld,
    commands: Seq<AiCommand>,
    assets: Seq<AssetLoad>,
    defaults: CursorDefaults,
) -> bool
    decreases commands.len(),
{
    if commands.len() == 0 {
        removals.len() == 0
    } else {
        let before = object_run(
            world,
            LogState::empty(),
            commands.drop_last(),
            assets.drop_last(),
            defaults,
        ).0;
        let last = commands.last();
        exists|cut: int|
            #![trigger removals.take(cut)]
            {
                &&& 0 <= cut <= removals.len()
                &&& removed_in_order(
                    removals.take(cut),
                    world,
                    commands.drop_last(),
                    assets.drop_last(),
                    defaults,
                )
                &&& forall|id: u32| #[trigger]
                    removed_times(removals.skip(cut), id) == before.removes(
                        last.source,
                        last.command,
                        id,
                    )
            }
    }
}

proof fn lemma_removed_times_adds(a: Seq<AiObjectRemoved>, b: Seq<AiObjectRemoved>, id: u32)
    ensures
        removed_times(a + b, id) == removed_times(a, id) + removed_times(b, id),
    decreases b.len(),
{
    if b.len() == 0 {
        assert(a + b =~= a);
    } else {
        assert((a + b).drop_last() =~= a + b.drop_last());
        lemma_removed_times_adds(a, b.drop_last(), id);
    }
}

proof fn lemma_run_ignores_log(
    world: ObjectWorld,
    log: LogState,
    commands: Seq<AiCommand>,
    assets: Seq<AssetLoad>,
    defaults: CursorDefaults,
)
    ensures
        object_run(world, log, commands, assets, defaults).0 == object_run(
            world,
            LogState::empty(),
            commands,
            assets,
            defaults,
        ).0,
    decreases commands.len(),
{
    if commands.len() > 0 {
        lemma_run_ignores_log(world, log, commands.drop_last(), assets.drop_last(), defaults);
    }
}

/// Applies a frame's object and cursor commands. Each comes with what became
/// of the asset that it names.
pub fn apply_ai_object_commands(
    commands: &Vec<AiCommand>,
    assets: Vec<AssetLoad>,
    seats: &mut Vec<ObjectSeat>,
    registry: &mut AiObjectRegistry,
    cursor: &mut CursorSettings,
    defaults: CursorDefaults,
    removals: &mut Vec<AiObjectRemoved>,
    log: &mut ReplyLog,
)
    requires
        assets@.len() == commands@.len(),
        forall|i: int|
            0 <= i < commands@.len() && (#[trigger] commands@[i]).command is SpawnObject ==> !(
            assets@[i] is Unneeded),
        object_seats_wf(old(seats)@, commands@.len()),
    ensures
        object_seats_wf(final(seats)@, 0),
        (object_world(final(seats)@, *final(registry), *final(cursor)), final(log)@) == object_run(
            object_world(old(seats)@, *old(registry), *old(cursor)),
            old(log)@,
            commands@,
            assets@,
            defaults,
        ),
        old(removals)@.is_prefix_of(final(removals)@),
        forall|id: u32| #[trigger]
            removed_times(final(removals)@, id) == removed_times(old(removals)@, id) + run_removes(
                object_world(old(seats)@, *old(registry), *old(cursor)),
                commands@,
                assets@,
                defaults,
                id,
            ),
        removed_in_order(
            final(removals)@.skip(old(removals)@.len() as int),
            object_world(old(seats)@, *old(registry), *old(cursor)),
            commands@,
            assets@,
            defaults,
        ),
{
    let ghost start = object_world(seats@, *registry, *cursor);
    let mut waiting = assets;
    let mut i: usize = 0;
    proof {
        assert(commands@.take(0) =~= Seq::empty());
        assert(assets@.skip(0) =~= assets@);
    }
    while i < commands.len()
        invariant
            i <= commands@.len(),
            assets@.len() == commands@.len(),
            waiting@ == assets@.skip(i as int),
            object_seats_wf(seats@, (commands@.len() - i) as nat),
            (object_world(seats@, *registry, *cursor), log@) == object_run(
                start,
                old(log)@,
                commands@.take(i as int),
                assets@.take(i as int),
                defaults,
            ),
            old(removals)@.is_prefix_of(removals@),
            forall|id: u32| #[trigger]
                removed_times(removals@, id) == removed_times(old(removals)@, id) + run_removes(
                    start,
                    commands@.take(i as int),
                    assets@.take(i as int),
                    defaults,
                    id,
                ),
            removed_in_order(
                removals@.skip(old(removals)@.len() as int),
                start,
                commands@.take(i as int),
                assets@.take(i as int),
                defaults,
            ),
        decreases commands.len() - i,
    {
        let entry = &commands[i];
        let ghost before = removals@;
        let ghost world = object_world(seats@, *registry, *cursor);
        let asset = waiting.remove(0);
        proof {
            let next = commands@.take(i + 1);
            assert(next.drop_last() =~= commands@.take(i as int));
            assert(assets@.take(i + 1).drop_last() =~= assets@.take(i as int));
            assert(waiting@ =~= assets@.skip(i + 1));
            lemma_run_ignores_log(
                start,
                old(log)@,
                commands@.take(i as int),
                assets@.take(i as int),
                defaults,
            );
        }
        let reply = apply_object_command(
            entry.source,
            &entry.command,
            asset,
            seats,
            registry,
            cursor,
            defaults,
            removals,
            Ghost((commands@.len() - i - 1) as nat),
        );
        log.answer(entry.source, &entry.ack_token, reply);
        proof {
            assert forall|id: u32| #[trigger]
                removed_times(removals@, id) == removed_times(old(removals)@, id) + run_removes(
                    start,
                    commands@.take(i + 1),
                    assets@.take(i + 1),
                    defaults,
                    id,
                ) by {
                assert(removed_times(removals@, id) == removed_times(before, id) + world.removes(
                    entry.source,
                    entry.command,
                    id,
                ));
            }
            let from = old(removals)@.len() as int;
            let new = removals@.skip(from);
            let cut = before.len() - from;
            assert(new.take(cut) =~= before.skip(from));
            assert(removals@ =~= before + new.skip(cut));
            assert forall|id: u32| #[trigger]
                removed_times(new.skip(cut), id) == world.removes(
                    entry.source,
                    entry.command,
                    id,
                ) by {
                lemma_removed_times_adds(before, new.skip(cut), id);
                assert(removed_times(removals@, id) == removed_times(before, id) + world.removes(
                    entry.source,
                    entry.command,
                    id,
                ));
            }
        }
        i += 1;
    }
    proof {
        assert(commands@.take(i as int) =~= commands@);
        assert(assets@.take(i as int) =~= assets@);
    }
}

/// Whether two states hold the same record of an id.
pub open spec fn same_record(before: InlineState, after: InlineState, id: u32) -> bool {
    &&& after.objects.contains_key(id) == before.objects.contains_key(id)
    &&& before.objects.contains_key(id) ==> after.objects[id] == before.objects[id]
    &&& after.anchors.contains_key(id) == before.anchors.contains_key(id)
    &&& before.anchors.contains_key(id) ==> after.anchors[id] == before.anchors[id]
    &&& after.revisions.contains_key(id) == before.revisions.contains_key(id)
    &&& before.revisions.contains_key(id) ==> after.revisions[id] == before.revisions[id]
}

/// No command but a reset touches a record outside the caller's namespace, or
/// any record on a terminal other than the caller's.
pub proof fn law_commands_stay_in_their_namespace(
    world: ObjectWorld,
    source: IngressSource,
    command: RattyAiCommand,
    asset: AssetLoad,
    defaults: CursorDefaults,
    seat: int,
    id: u32,
)
    requires
        !(command is Reset),
        0 <= seat < world.seats.len(),
        object_namespace(id) != Some(source.slot()) || world.seats[seat].identity.terminal_id()
            != source.terminal_id(),
    ensures
        same_record(
            world.seats[seat].objects,
            world.step(source, command, asset, defaults).0.seats[seat].objects,
            id,
        ),
{
    lemma_object_seat(world.seats, source.terminal_id());
}

/// A reset spares the programs' objects.
pub proof fn law_reset_spares_programs(
    world: ObjectWorld,
    source: IngressSource,
    asset: AssetLoad,
    defaults: CursorDefaults,
    seat: int,
    id: u32,
)
    requires
        0 <= seat < world.seats.len(),
    ensures
        ({
            let after = world.step(source, RattyAiCommand::Reset, asset, defaults).0;
            &&& object_namespace(id) is None ==> same_record(
                world.seats[seat].objects,
                after.seats[seat].objects,
                id,
            )
            &&& object_namespace(id) is Some ==> !after.seats[seat].objects.objects.contains_key(id)
            &&& after.used == world.used
        }),
{
}

/// Whether every agent's live object has a used id.
pub open spec fn live_ids_are_used(world: ObjectWorld) -> bool {
    forall|seat: int, id: u32|
        0 <= seat < world.seats.len() && object_namespace(id) is Some && (
        #[trigger] world.seats[seat]).objects.objects.contains_key(id) ==> #[trigger] world.used.contains(
            id,
        )
}

/// Used ids stay used, whatever a command does, and live ids are among them.
pub proof fn law_used_ids_stay_used(
    world: ObjectWorld,
    source: IngressSource,
    command: RattyAiCommand,
    asset: AssetLoad,
    defaults: CursorDefaults,
)
    requires
        live_ids_are_used(world),
    ensures
        world.used.subset_of(world.step(source, command, asset, defaults).0.used),
        live_ids_are_used(world.step(source, command, asset, defaults).0),
{
    lemma_object_seat(world.seats, source.terminal_id());
    let after = world.step(source, command, asset, defaults).0;
    assert forall|seat: int, id: u32|
        0 <= seat < after.seats.len() && object_namespace(id) is Some && (
        #[trigger] after.seats[seat]).objects.objects.contains_key(
            id,
        ) implies #[trigger] after.used.contains(id) by {
        assert(world.seats[seat].objects.objects.contains_key(id) ==> world.used.contains(id));
    }
}

/// An id that was used once and is not live is never spawned anew: the command
/// is refused and changes nothing.
pub proof fn law_ids_are_never_reused(
    world: ObjectWorld,
    source: IngressSource,
    command: RattyAiCommand,
    asset: AssetLoad,
    defaults: CursorDefaults,
    seat: int,
)
    requires
        command matches RattyAiCommand::SpawnObject { id, .. } && world.used.contains(id)
            && object_seat(world.seats, source.terminal_id()) == Some(seat)
            && !world.seats[seat].objects.objects.contains_key(id),
    ensures
        world.step(source, command, asset, defaults).0 == world,
        world.step(source, command, asset, defaults).1 matches Some(ReplyView::Refused(..)),
{
    lemma_object_seat(world.seats, source.terminal_id());
    assert(world.seats.update(seat, world.seats[seat]) =~= world.seats);
}

/// Whether agents and session are within their caps.
pub open spec fn within_caps(world: ObjectWorld) -> bool {
    &&& world.used.len() <= MAX_AI_OBJECT_IDS_PER_SESSION
    &&& world.used.finite()
    &&& forall|seat: int, namespace: u8|
        0 <= seat < world.seats.len() ==> #[trigger] own_ids(
            world.seats[seat].objects.objects.dom(),
            namespace,
        ).len() <= MAX_AI_OBJECTS_PER_NAMESPACE
    &&& forall|seat: int|
        0 <= seat < world.seats.len() ==> (#[trigger] world.seats[seat]).objects.objects.dom().finite()
}

/// No command takes an agent or the session beyond its cap.
pub proof fn law_object_caps_hold(
    world: ObjectWorld,
    source: IngressSource,
    command: RattyAiCommand,
    asset: AssetLoad,
    defaults: CursorDefaults,
)
    requires
        within_caps(world),
        live_ids_are_used(world),
    ensures
        within_caps(world.step(source, command, asset, defaults).0),
{
    lemma_object_seat(world.seats, source.terminal_id());
    let after = world.step(source, command, asset, defaults).0;
    if let Some(at) = object_seat(world.seats, source.terminal_id()) {
        if let RattyAiCommand::SpawnObject { id, .. } = command {
            if world.seats[at].objects.objects.contains_key(id) && object_namespace(id) is Some {
                assert(world.used.contains(id));
                assert(world.used.insert(id) =~= world.used);
            }
        }
    }
    assert forall|seat: int, namespace: u8| 0 <= seat < after.seats.len() implies #[trigger] own_ids(
        after.seats[seat].objects.objects.dom(),
        namespace,
    ).len() <= MAX_AI_OBJECTS_PER_NAMESPACE by {
        let old_ids = own_ids(world.seats[seat].objects.objects.dom(), namespace);
        let new_ids = own_ids(after.seats[seat].objects.objects.dom(), namespace);
        assert(old_ids.len() <= MAX_AI_OBJECTS_PER_NAMESPACE);
        assert(world.seats[seat].objects.objects.dom().finite());
        assert(old_ids.finite());
        match command {
            RattyAiCommand::SpawnObject { id, .. } => {
                if new_ids.contains(id) {
                    assert(new_ids =~= old_ids.insert(id));
                } else {
                    assert(new_ids =~= old_ids);
                }
            },
            _ => {
                assert(new_ids.subset_of(old_ids));
                vstd::set_lib::lemma_len_subset(new_ids, old_ids);
            },
        }
    }
    assert forall|seat: int| 0 <= seat < after.seats.len() implies (
    #[trigger] after.seats[seat]).objects.objects.dom().finite() by {
        let old_dom = world.seats[seat].objects.objects.dom();
        let new_dom = after.seats[seat].objects.objects.dom();
        assert(old_dom.finite());
        match command {
            RattyAiCommand::SpawnObject { id, .. } => {
                assert(new_dom.subset_of(old_dom.insert(id)));
                vstd::set_lib::lemma_set_subset_finite(old_dom.insert(id), new_dom);
            },
            _ => {
                assert(new_dom.subset_of(old_dom));
                vstd::set_lib::lemma_set_subset_finite(old_dom, new_dom);
            },
        }
    }
}

/// Whether a seat is the one that a command came through.
pub open spec fn came_through(world: ObjectWorld, source: IngressSource, at: int) -> bool {
    &&& 0 <= at < world.seats.len()
    &&& world.seats[at].identity.terminal_id() == source.terminal_id()
    &&& forall|j: int|
        0 <= j < at ==> (#[trigger] world.seats[j]).identity.terminal_id() != source.terminal_id()
}

proof fn lemma_came_through(world: ObjectWorld, source: IngressSource, at: int)
    requires
        came_through(world, source, at),
    ensures
        object_seat(world.seats, source.terminal_id()) == Some(at),
{
    lemma_object_seat(world.seats, source.terminal_id());
}

/// A committed object is as it was asked for: the loaded model, centered on the
/// cell, in the scale, the brightness and the spin of the command, each its
/// own; it is animated exactly if it spins. Its id is used from then on, the
/// surface is painted again, and nothing else changes.
pub proof fn law_added_objects_are_as_asked(
    world: ObjectWorld,
    source: IngressSource,
    id: u32,
    path: String,
    x: u16,
    y: u16,
    scale: Single,
    spin: Single,
    brightness: Single,
    replace: bool,
    asset: AssetLoad,
    defaults: CursorDefaults,
    at: int,
)
    requires
        came_through(world, source, at),
        world.step(
            source,
            RattyAiCommand::SpawnObject { id, path, x, y, scale, spin, brightness, replace },
            asset,
            defaults,
        ).1 == Some(ReplyView::Commit),
    ensures
        ({
            let command = RattyAiCommand::SpawnObject {
                id,
                path,
                x,
                y,
                scale,
                spin,
                brightness,
                replace,
            };
            let after = world.step(source, command, asset, defaults).0;
            let before = world.seats[at].objects;
            let objects = after.seats[at].objects;
            let stands = objects.anchors[id];
            let style = stands.style;
            let spins = spin.bits != 0 && spin.bits != 0x8000_0000;
            &&& asset is Loaded
            &&& objects.objects == before.objects.insert(id, asset->Loaded_0)
            &&& objects.anchors.contains_key(id)
            &&& objects.anchors.remove(id) == before.anchors.remove(id)
            &&& style.scale == scale
            &&& style.brightness == brightness
            &&& spins ==> style.spin == Some(spin)
            &&& !spins ==> style.spin is None
            &&& style.animate == spins
            &&& style.depth.bits == 0 && style.phase.bits == 0
            &&& style.color is None && style.bob is None && style.bob_amplitude is None
            &&& style.scale3.x.bits == 0x3f80_0000 && style.scale3.y.bits == 0x3f80_0000
                && style.scale3.z.bits == 0x3f80_0000
            &&& style.offset.x.bits == 0 && style.offset.y.bits == 0 && style.offset.z.bits == 0
            &&& style.rotation.x.bits == 0 && style.rotation.y.bits == 0 && style.rotation.z.bits
                == 0
            &&& stands.columns == 12 && stands.rows == 6
            &&& stands.col == (if x >= 6 {
                x - 6
            } else {
                0
            })
            &&& stands.row == (if y >= 3 {
                y - 3
            } else {
                0
            })
            &&& after.used == world.used.insert(id)
            &&& after.seats[at].redraw
            &&& after.seats[at].identity == world.seats[at].identity
            &&& after.seats.len() == world.seats.len()
            &&& forall|j: int|
                0 <= j < world.seats.len() && j != at ==> #[trigger] after.seats[j]
                    == world.seats[j]
            &&& after.cursor == world.cursor
        }),
{
    lemma_came_through(world, source, at);
    crate::inline::law_agents_objects_stand_where_they_are_put(
        world.seats[at].objects,
        id,
        asset->Loaded_0,
        x,
        y,
        spawned_style(scale, spin, brightness),
    );
}

/// When an object is added: its id is of the caller's own sixteen million; a
/// live one is replaced only where that was asked for; a new one was never used
/// before, and finds fewer than 4096 used ids and fewer than 64 objects of the
/// caller; and its model is loaded. The first that fails is the refusal, and
/// then nothing changes.
pub proof fn law_when_an_object_is_added(
    world: ObjectWorld,
    source: IngressSource,
    id: u32,
    path: String,
    x: u16,
    y: u16,
    scale: Single,
    spin: Single,
    brightness: Single,
    replace: bool,
    asset: AssetLoad,
    defaults: CursorDefaults,
    at: int,
)
    requires
        came_through(world, source, at),
        !(asset is Unneeded),
    ensures
        ({
            let command = RattyAiCommand::SpawnObject {
                id,
                path,
                x,
                y,
                scale,
                spin,
                brightness,
                replace,
            };
            let (after, reply) = world.step(source, command, asset, defaults);
            let objects = world.seats[at].objects.objects;
            let own = id >= 0x8000_0000 && (id - 0x8000_0000) / 0x100_0000 == source.slot();
            let live = objects.contains_key(id);
            let spent = world.used.contains(id);
            let full = world.used.len() >= 4096;
            let crowded = own_ids(objects.dom(), source.slot()).len() >= 64;
            &&& reply == Some(ReplyView::Commit) <==> own && asset is Loaded && (if live {
                replace
            } else {
                !spent && !full && !crowded
            })
            &&& reply != Some(ReplyView::Commit) ==> {
                &&& after == world
                &&& reply matches Some(ReplyView::Refused(action, code, message)) && action
                    == "object.add"@ && code == (if !own {
                    Code::NotOwner
                } else if live && !replace {
                    Code::AlreadyExists
                } else if !live && spent {
                    Code::IdReused
                } else if !live && full {
                    Code::SessionBudget
                } else if !live && crowded {
                    Code::NamespaceCap
                } else {
                    Code::BadAsset
                })
            }
        }),
{
    lemma_came_through(world, source, at);
    assert(world.seats.update(at, world.seats[at]) =~= world.seats);
}

/// Which ids are an agent's own: those of its namespace.
pub proof fn law_own_ids(ids: Set<u32>, namespace: u8, id: u32)
    requires
        ids.finite(),
    ensures
        own_ids(ids, namespace).contains(id) <==> ids.contains(id) && id >= 0x8000_0000 && (id
            - 0x8000_0000) / 0x100_0000 == namespace,
        agent_ids(ids).contains(id) <==> ids.contains(id) && id >= 0x8000_0000,
        swept(ids, namespace).contains(id) <==> ids.contains(id) && !(id >= 0x8000_0000 && (id
            - 0x8000_0000) / 0x100_0000 == namespace),
{
}

/// An update reaches the caller's own object with what the command says, in its
/// place; an object that is not there, or has no place, is refused and nothing
/// changes.
pub proof fn law_updates_reach_their_object(
    world: ObjectWorld,
    source: IngressSource,
    id: u32,
    x: Option<u16>,
    y: Option<u16>,
    scale: Option<Single>,
    spin: Option<Single>,
    brightness: Option<Single>,
    asset: AssetLoad,
    defaults: CursorDefaults,
    at: int,
)
    requires
        came_through(world, source, at),
    ensures
        ({
            let command = RattyAiCommand::UpdateObject { id, x, y, scale, spin, brightness };
            let (after, reply) = world.step(source, command, asset, defaults);
            let own = id >= 0x8000_0000 && (id - 0x8000_0000) / 0x100_0000 == source.slot();
            let objects = world.seats[at].objects;
            let live = objects.objects.contains_key(id);
            let placed = objects.anchors.contains_key(id) || (x is Some && y is Some);
            &&& reply == Some(ReplyView::Commit) <==> own && live && placed
            &&& reply == Some(ReplyView::Commit) ==> after.seats[at].objects
                == objects.agent_updated(id, x, y, scale, spin, brightness).0
                && after.seats[at].redraw
            &&& reply != Some(ReplyView::Commit) ==> after == world && (
            reply matches Some(ReplyView::Refused(action, code, _)) && action == "object.update"@
                && code == (if !own {
                Code::NotOwner
            } else if !live {
                Code::UnknownId
            } else {
                Code::NoAnchor
            }))
            &&& after.used == world.used && after.cursor == world.cursor
            &&& forall|j: int|
                0 <= j < world.seats.len() && j != at ==> #[trigger] after.seats[j]
                    == world.seats[j]
        }),
{
    lemma_came_through(world, source, at);
    assert(world.seats.update(at, world.seats[at]) =~= world.seats);
}

/// A removal takes the caller's own object, and reports it; clearing takes all
/// of the caller's own and no other's.
pub proof fn law_removals_take_their_objects(
    world: ObjectWorld,
    source: IngressSource,
    id: u32,
    other: u32,
    asset: AssetLoad,
    defaults: CursorDefaults,
    at: int,
)
    requires
        came_through(world, source, at),
        world.seats[at].objects.objects.dom().finite(),
        other != id,
    ensures
        ({
            let own = id >= 0x8000_0000 && (id - 0x8000_0000) / 0x100_0000 == source.slot();
            let before = world.seats[at].objects;
            let live = before.objects.contains_key(id);
            let (gone, reply) = world.step(
                source,
                RattyAiCommand::RemoveObject { id },
                asset,
                defaults,
            );
            let (bare, cleared) = world.step(source, RattyAiCommand::ClearObjects, asset, defaults);
            let left = gone.seats[at].objects;
            let rest = bare.seats[at].objects;
            &&& reply == Some(ReplyView::Commit) <==> own && live
            &&& own && live ==> !left.objects.contains_key(id) && !left.anchors.contains_key(id)
            &&& !own ==> gone == world && (reply matches Some(ReplyView::Refused(action, code, _))
                && action == "object.remove"@ && code == Code::NotOwner)
            &&& own && !live ==> (reply matches Some(ReplyView::Refused(action, code, _)) && action
                == "object.remove"@ && code == Code::UnknownId)
            &&& left.objects.contains_key(other) == before.objects.contains_key(other)
            &&& left.anchors.contains_key(other) == before.anchors.contains_key(other)
            &&& before.anchors.contains_key(other) ==> left.anchors[other] == before.anchors[other]
            &&& world.removes(source, RattyAiCommand::RemoveObject { id }, id) == (if own && live {
                1nat
            } else {
                0
            })
            &&& world.removes(source, RattyAiCommand::RemoveObject { id }, other) == 0
            &&& cleared == Some(ReplyView::Commit)
            &&& rest.objects.contains_key(id) <==> live && !own
            &&& live && own ==> !rest.anchors.contains_key(id)
            &&& !own && before.anchors.contains_key(id) ==> rest.anchors.contains_key(id)
                && rest.anchors[id] == before.anchors[id]
            &&& world.removes(source, RattyAiCommand::ClearObjects, id) == (if own && live {
                1nat
            } else {
                0
            })
            &&& gone.used == world.used && bare.used == world.used
        }),
{
    lemma_came_through(world, source, at);
    let ids = own_ids(world.seats[at].objects.objects.dom(), source.slot());
    law_own_ids(world.seats[at].objects.objects.dom(), source.slot(), id);
    assert(world.seats.update(at, world.seats[at]) =~= world.seats);
    if ids.len() == 0 {
        assert(ids =~= Set::empty());
        assert(!ids.contains(id));
    }
}

/// Every part of the cursor's look that a command gives becomes what it gives,
/// and every other part stays. It is built anew exactly if it is given another
/// model or another brightness. A model that does not load changes nothing.
pub proof fn law_the_cursor_takes_what_it_is_given(
    world: ObjectWorld,
    source: IngressSource,
    model: Option<String>,
    spin: Option<Single>,
    bob_speed: Option<Single>,
    bob_amp: Option<Single>,
    brightness: Option<Single>,
    visible: Option<bool>,
    asset: AssetLoad,
    defaults: CursorDefaults,
    at: int,
)
    requires
        came_through(world, source, at),
    ensures
        ({
            let command = RattyAiCommand::UpdateCursor {
                model,
                spin,
                bob_speed,
                bob_amp,
                brightness,
                visible,
            };
            let (after, reply) = world.step(source, command, asset, defaults);
            let (before, look) = (world.cursor.look, after.cursor.look);
            let refused = model is Some && asset is Failed;
            let swaps = model is Some && world.cursor.model != Some(model->0@);
            let relights = brightness is Some && !same_number(before.brightness, brightness->0);
            &&& refused ==> after == world && (
            reply matches Some(ReplyView::Refused(action, code, _)) && action == "cursor"@ && code
                == Code::BadAsset)
            &&& !refused ==> {
                &&& reply == Some(ReplyView::Commit)
                &&& model matches Some(name) ==> after.cursor.model == Some(name@)
                &&& model is None ==> after.cursor.model == world.cursor.model
                &&& look.spin_speed == (if spin is Some {
                    spin->0
                } else {
                    before.spin_speed
                })
                &&& look.bob_speed == (if bob_speed is Some {
                    bob_speed->0
                } else {
                    before.bob_speed
                })
                &&& look.bob_amplitude == (if bob_amp is Some {
                    bob_amp->0
                } else {
                    before.bob_amplitude
                })
                &&& look.visible == (if visible is Some {
                    visible->0
                } else {
                    before.visible
                })
                &&& relights ==> look.brightness == brightness->0
                &&& !relights ==> look.brightness == before.brightness
                &&& after.cursor.needs_respawn <==> world.cursor.needs_respawn || swaps || relights
                &&& after.used == world.used
                &&& after.seats.len() == world.seats.len()
                &&& forall|j: int|
                    0 <= j < world.seats.len() ==> (#[trigger] after.seats[j]).objects
                        == world.seats[j].objects && after.seats[j].redraw
            }
        }),
{
    lemma_came_through(world, source, at);
}

/// A reset clears every agent's objects on every terminal and reports each, and
/// gives the cursor its configured look back; the used ids stay used.
pub proof fn law_a_reset_clears_every_agent(
    world: ObjectWorld,
    source: IngressSource,
    asset: AssetLoad,
    defaults: CursorDefaults,
    seat: int,
    id: u32,
)
    requires
        0 <= seat < world.seats.len(),
        world.seats[seat].objects.objects.dom().finite(),
    ensures
        ({
            let (after, reply) = world.step(source, RattyAiCommand::Reset, asset, defaults);
            let (before, left) = (world.seats[seat].objects, after.seats[seat].objects);
            &&& reply is None
            &&& left.objects.contains_key(id) <==> before.objects.contains_key(id) && id
                < 0x8000_0000
            &&& before.objects.contains_key(id) && id >= 0x8000_0000 ==> !left.anchors.contains_key(
                id,
            )
            &&& id < 0x8000_0000 && before.anchors.contains_key(id) ==> left.anchors.contains_key(
                id,
            ) && left.anchors[id] == before.anchors[id]
            &&& after.seats[seat].redraw
            &&& after.used == world.used
            &&& after.cursor.model is None
            &&& after.cursor.look == defaults
            &&& after.cursor.needs_respawn <==> world.cursor.needs_respawn || world.cursor.model is Some
                || !same_number(world.cursor.look.brightness, defaults.brightness)
        }),
{
    let ids = agent_ids(world.seats[seat].objects.objects.dom());
    law_own_ids(world.seats[seat].objects.objects.dom(), 0, id);
}

/// A command from a terminal that is gone does nothing, but for a reset.
pub proof fn law_the_gone_change_nothing(
    world: ObjectWorld,
    source: IngressSource,
    command: RattyAiCommand,
    asset: AssetLoad,
    defaults: CursorDefaults,
    id: u32,
)
    requires
        !(command is Reset),
        forall|j: int|
            0 <= j < world.seats.len() ==> (#[trigger] world.seats[j]).identity.terminal_id()
                != source.terminal_id(),
    ensures
        world.step(source, command, asset, defaults) == (world, None::<ReplyView>),
        world.removes(source, command, id) == 0,
{
    lemma_object_seat(world.seats, source.terminal_id());
}

/// Commands of other organs change no object and are not answered here.
pub proof fn law_other_commands_change_no_object(
    world: ObjectWorld,
    source: IngressSource,
    command: RattyAiCommand,
    asset: AssetLoad,
    defaults: CursorDefaults,
)
    requires
        !(command is SpawnObject || command is UpdateObject || command is RemoveObject
            || command is ClearObjects || command is UpdateCursor || command is Reset),
    ensures
        world.step(source, command, asset, defaults) == (world, None::<ReplyView>),
{
    lemma_object_seat(world.seats, source.terminal_id());
    if let Some(at) = object_seat(world.seats, source.terminal_id()) {
        assert(world.seats.update(at, world.seats[at]) =~= world.seats);
    }
}

/// Commands take effect one by one, in their order, each with its own asset.
pub proof fn law_object_commands_run_in_order(
    world: ObjectWorld,
    log: LogState,
    commands: Seq<AiCommand>,
    assets: Seq<AssetLoad>,
    last: AiCommand,
    asset: AssetLoad,
    defaults: CursorDefaults,
    id: u32,
)
    requires
        assets.len() == commands.len(),
    ensures
        object_run(world, log, Seq::empty(), Seq::empty(), defaults) == (world, log),
        run_removes(world, Seq::empty(), Seq::empty(), defaults, id) == 0,
        ({
            let (before, said) = object_run(world, log, commands, assets, defaults);
            let (after, reply) = before.step(last.source, last.command, asset, defaults);
            &&& object_run(world, log, commands.push(last), assets.push(asset), defaults) == (
                after,
                said.answered(last.source, token_view(last.ack_token), reply),
            )
            &&& run_removes(world, commands.push(last), assets.push(asset), defaults, id)
                == run_removes(world, commands, assets, defaults, id) + before.removes(
                last.source,
                last.command,
                id,
            )
        }),
{
    assert(commands.push(last).drop_last() =~= commands);
    assert(assets.push(asset).drop_last() =~= assets);
    lemma_run_ignores_log(world, log, commands, assets, defaults);
}

/// On a reset an id is reported once for every seat that has it as an agent's
/// object.
pub proof fn law_resets_report_each_object(seats: Seq<ObjectSeatView>, seat: ObjectSeatView, id: u32)
    requires
        seat.objects.objects.dom().finite(),
    ensures
        seats_with(Seq::empty(), id) == 0,
        seats_with(seats.push(seat), id) == seats_with(seats, id) + (if id >= 0x8000_0000
            && seat.objects.objects.contains_key(id) {
            1int
        } else {
            0
        }),
{
    assert(seats.push(seat).drop_last() =~= seats);
    law_own_ids(seat.objects.objects.dom(), 0, id);
}

/// Refusals say why: each names the id in eight hexadecimal digits, and the
/// namespace where that is what is wrong.
pub proof fn law_object_refusals_say_why(
    world: ObjectWorld,
    source: IngressSource,
    command: RattyAiCommand,
    asset: AssetLoad,
    defaults: CursorDefaults,
    id: u32,
    at: int,
)
    requires
        came_through(world, source, at),
        match command {
            RattyAiCommand::SpawnObject { id: named, .. } => named == id,
            RattyAiCommand::UpdateObject { id: named, .. } => named == id,
            RattyAiCommand::RemoveObject { id: named } => named == id,
            _ => false,
        },
    ensures
        world.step(source, command, asset, defaults).1 matches Some(ReplyView::Refused(
            _,
            code,
            message,
        )) ==> {
            let name = "0x"@ + hexadecimal(id as nat, 8);
            let whose = decimal(source.slot() as nat);
            &&& code == Code::NotOwner ==> message == "id "@ + name
                + " is outside the caller's AI range/namespace ("@ + whose + ")"@
            &&& code == Code::AlreadyExists ==> message == "id "@ + name
                + " already exists (pass replace=true to replace it)"@
            &&& code == Code::IdReused ==> message == "id "@ + name
                + " was already used this session; ids are never reused"@
            &&& code == Code::NamespaceCap ==> message == "namespace "@ + whose
                + " is at its 64-object limit"@
            &&& code == Code::SessionBudget ==> message
                == "the session id budget (4096) is exhausted"@
            &&& code == Code::UnknownId ==> message == "no object with id "@ + name
            &&& code == Code::NoAnchor ==> message == "object "@ + name
                + " scrolled away; object.add with replace=true re-anchors it"@
            &&& code == Code::BadAsset ==> asset is Failed && message == asset->Failed_0@
        },
{
    lemma_came_through(world, source, at);
}

/// Only a removal, a clearing and a reset remove objects.
pub proof fn law_only_removals_remove(
    world: ObjectWorld,
    source: IngressSource,
    command: RattyAiCommand,
    id: u32,
)
    requires
        !(command is RemoveObject || command is ClearObjects || command is Reset),
    ensures
        world.removes(source, command, id) == 0,
{
}

/// How often a list of removals holds an id.
pub proof fn law_removals_are_counted(
    removals: Seq<AiObjectRemoved>,
    last: AiObjectRemoved,
    id: u32,
)
    ensures
        removed_times(Seq::empty(), id) == 0,
        last.id == id ==> removed_times(removals.push(last), id) == removed_times(removals, id) + 1,
        last.id != id ==> removed_times(removals.push(last), id) == removed_times(removals, id),
{
    assert(removals.push(last).drop_last() =~= removals);
}

/// The removals of a run fall into two parts: those of the commands before the
/// last, in their order, and then those of the last.
pub proof fn law_removals_stand_in_the_order_of_commands(
    removals: Seq<AiObjectRemoved>,
    world: ObjectWorld,
    commands: Seq<AiCommand>,
    assets: Seq<AssetLoad>,
    last: AiCommand,
    asset: AssetLoad,
    defaults: CursorDefaults,
) -> (cut: int)
    requires
        assets.len() == commands.len(),
        removed_in_order(
            removals,
            world,
            commands.push(last),
            assets.push(asset),
            defaults,
        ),
    ensures
        0 <= cut <= removals.len(),
        removed_in_order(removals.take(cut), world, commands, assets, defaults),
        forall|id: u32| #[trigger]
            removed_times(removals.skip(cut), id) == object_run(
                world,
                LogState::empty(),
                commands,
                assets,
                defaults,
            ).0.removes(last.source, last.command, id),
        commands.len() == 0 ==> cut == 0,
{
    assert(commands.push(last).drop_last() =~= commands);
    assert(assets.push(asset).drop_last() =~= assets);
    let before = object_run(world, LogState::empty(), commands, assets, defaults).0;
    let cut = choose|cut: int|
        #![trigger removals.take(cut)]
        {
            &&& 0 <= cut <= removals.len()
            &&& removed_in_order(removals.take(cut), world, commands, assets, defaults)
            &&& forall|id: u32| #[trigger]
                removed_times(removals.skip(cut), id) == before.removes(
                    last.source,
                    last.command,
                    id,
                )
        };
    if commands.len() == 0 {
        assert(removals.take(cut).len() == 0);
    }
    cut
}

} // verus!
