//! Terminal identity: the monotonic [`TerminalId`], the recyclable wire
//! namespace lease, and the [`TerminalRegistry`] that mints both.
//!
//! Ids are never reused. Namespaces are a separate pool of 128 slots, because
//! the wire carries a namespace in seven bits. Whatever outlives a terminal is
//! keyed by its id, never by its namespace.

use std::collections::HashMap;
use vstd::prelude::*;
use crate::config::TerminalConfig;
use crate::effects::AiEffects;
use crate::macros::{MacrosState, TerminalMacros};
use crate::number::Single;
use crate::text::{decimal, decimal_text};

verus! {

broadcast use {vstd::std_specs::hash::group_hash_axioms, vstd::seq_lib::group_seq_properties};

/// The highest allocatable agent namespace.
pub const MAX_NAMESPACE: u8 = 0x7F;

/// The hard ceiling on live terminals: one per namespace slot.
pub const MAX_LIVE_TERMINALS: usize = 128;

/// The smallest grid axis that the screen parser can drive.
pub const MIN_TERMINAL_AXIS: u16 = 2;

/// The largest grid that a wire caller may ask for on either axis.
pub const MAX_TERMINAL_AXIS: u16 = 512;

/// The largest cell count that a wire caller may ask for.
pub const MAX_TERMINAL_CELLS: usize = 100_000;

/// Sustained wire-driven spawns per second, per arrival terminal.
pub const TERMINAL_SPAWNS_PER_SEC: u32 = 1;

/// Wire-driven spawn burst per arrival terminal.
pub const TERMINAL_SPAWN_BURST: u32 = 4;

/// Sustained wire-driven focus moves per second, per arrival terminal.
pub const TERMINAL_FOCUS_PER_SEC: u32 = 4;

/// Wire-driven focus burst per arrival terminal.
pub const TERMINAL_FOCUS_BURST: u32 = 8;

/// The live-terminal cap for a setting.
pub open spec fn live_cap(max_live: usize) -> usize {
    if max_live < 1 {
        1
    } else if max_live > MAX_LIVE_TERMINALS {
        MAX_LIVE_TERMINALS
    } else {
        max_live
    }
}

/// Whether a grid is admissible.
pub open spec fn admissible_grid(cols: u16, rows: u16) -> bool {
    &&& MIN_TERMINAL_AXIS <= cols <= MAX_TERMINAL_AXIS
    &&& MIN_TERMINAL_AXIS <= rows <= MAX_TERMINAL_AXIS
    &&& cols * rows <= MAX_TERMINAL_CELLS
}

/// The live-terminal cap that a configuration asks for, clamped to what the
/// wire can address.
pub fn max_live_terminals(config: &TerminalConfig) -> (cap: usize)
    ensures
        cap == live_cap(config.max_live),
        config.max_live < 1 ==> cap == 1,
        config.max_live > MAX_LIVE_TERMINALS ==> cap == MAX_LIVE_TERMINALS,
        1 <= config.max_live <= MAX_LIVE_TERMINALS ==> cap == config.max_live,
{
    if config.max_live < 1 {
        1
    } else if config.max_live > MAX_LIVE_TERMINALS {
        MAX_LIVE_TERMINALS
    } else {
        config.max_live
    }
}

/// Whether a wire-requested grid is admissible: both axes and the area are
/// bounded.
pub fn grid_is_admissible(cols: u16, rows: u16) -> (admissible: bool)
    ensures
        admissible == admissible_grid(cols, rows),
        admissible == {
            &&& MIN_TERMINAL_AXIS <= cols <= MAX_TERMINAL_AXIS
            &&& MIN_TERMINAL_AXIS <= rows <= MAX_TERMINAL_AXIS
            &&& cols * rows <= MAX_TERMINAL_CELLS
        },
{
    if cols < MIN_TERMINAL_AXIS || cols > MAX_TERMINAL_AXIS {
        return false;
    }
    if rows < MIN_TERMINAL_AXIS || rows > MAX_TERMINAL_AXIS {
        return false;
    }
    assert(cols * rows <= 512 * 512) by (nonlinear_arith)
        requires
            cols <= 512,
            rows <= 512,
    ;
    cols as usize * rows as usize <= MAX_TERMINAL_CELLS
}

/// Monotonic terminal identity: never reused. Starts at 1, so a zeroed value
/// never names a live terminal.
#[derive(Clone, Copy, Debug, PartialEq, Eq, Hash, PartialOrd, Ord, Structural)]
pub struct TerminalId {
    raw: u64,
}

impl TerminalId {
    /// The number.
    pub closed spec fn number(self) -> u64 {
        self.raw
    }

    /// An id with a given number.
    pub fn from_raw(id: u64) -> (minted: TerminalId)
        ensures
            minted.number() == id,
    {
        TerminalId { raw: id }
    }

    /// The number, for ordering by mint time.
    pub fn raw(self) -> (raw: u64)
        ensures
            raw == self.number(),
    {
        self.raw
    }
}

/// Two ids with one number are one id.
pub broadcast proof fn law_number_is_identity(a: TerminalId, b: TerminalId)
    ensures
        #[trigger] a.number() == #[trigger] b.number() ==> a == b,
{
}

/// The identity pair that a terminal seat carries: the persistent
/// [`TerminalId`] and the leased wire namespace.
#[derive(Clone, Copy, Debug, PartialEq, Eq, Structural)]
pub struct TerminalIdentity {
    id: TerminalId,
    namespace: u8,
}

/// Where a command's bytes came from.
#[derive(Clone, Copy, Debug, PartialEq, Eq, Structural)]
pub enum IngressSource {
    /// A terminal of this process.
    Local(TerminalIdentity),
}

impl TerminalIdentity {
    /// The persistent identity.
    pub closed spec fn terminal_id(self) -> TerminalId {
        self.id
    }

    /// The leased namespace.
    pub closed spec fn slot(self) -> u8 {
        self.namespace
    }

    /// The persistent identity that every stamp is keyed by.
    pub fn id(self) -> (id: TerminalId)
        ensures
            id == self.terminal_id(),
    {
        self.id
    }

    /// The leased wire namespace.
    pub fn namespace(self) -> (namespace: u8)
        ensures
            namespace == self.slot(),
    {
        self.namespace
    }

    /// The context that bytes arriving through this terminal are stamped with.
    pub fn ingress(self) -> (source: IngressSource)
        ensures
            source == IngressSource::Local(self),
    {
        IngressSource::Local(self)
    }

    /// The identity that the first allocation on a fresh registry mints.
    pub fn test_boot() -> (identity: TerminalIdentity)
        ensures
            identity.terminal_id().number() == 1,
            identity.slot() == 0,
    {
        TerminalIdentity { id: TerminalId { raw: 1 }, namespace: 0 }
    }
}

impl IngressSource {
    /// The terminal's identity.
    pub open spec fn identity(self) -> TerminalIdentity {
        self->Local_0
    }

    /// The namespace that the source speaks for.
    pub open spec fn slot(self) -> u8 {
        self.identity().slot()
    }

    /// The terminal that the source is.
    pub open spec fn terminal_id(self) -> TerminalId {
        self.identity().terminal_id()
    }

    /// The namespace that the source speaks for.
    pub fn namespace(self) -> (namespace: u8)
        ensures
            namespace == self.slot(),
    {
        match self {
            IngressSource::Local(identity) => identity.namespace(),
        }
    }

    /// The terminal that the source is.
    pub fn terminal(self) -> (id: TerminalId)
        ensures
            id == self.terminal_id(),
    {
        match self {
            IngressSource::Local(identity) => identity.id(),
        }
    }

    /// The source of the first terminal on a fresh registry.
    pub fn test_boot() -> (source: IngressSource)
        ensures
            source.terminal_id().number() == 1,
            source.slot() == 0,
    {
        TerminalIdentity::test_boot().ingress()
    }
}

/// Allocation failure: the pool is exhausted.
#[derive(Clone, Copy, Debug, PartialEq, Eq, Structural)]
pub enum TerminalAllocError {
    /// All 128 namespace slots are leased.
    NamespacesExhausted,
}

impl TerminalAllocError {
    /// The sentence for people.
    pub fn message(self) -> (text: String)
        ensures
            text@
                == "all 128 agent namespaces are live; the wire masks object ids with & 0x7F, so 0..=127 is a hard ceiling"@,
    {
        "all 128 agent namespaces are live; the wire masks object ids with & 0x7F, so 0..=127 is a hard ceiling".to_owned()
    }
}

/// Release failure.
#[derive(Clone, Copy, Debug, PartialEq, Eq, Structural)]
pub enum TerminalReleaseError {
    /// The id was never allocated, or was already released.
    UnknownTerminal(TerminalId),
    /// The id was live but its namespace slot was already free.
    SlotAlreadyFree {
        /// The terminal whose release found the slot free.
        id: TerminalId,
        /// The namespace slot in question.
        namespace: u8,
    },
}

impl TerminalReleaseError {
    /// The sentence for people.
    pub fn message(self) -> (text: String)
        ensures
            text@ == match self {
                TerminalReleaseError::UnknownTerminal(id) => "TerminalId("@ + decimal(
                    id.number() as nat,
                ) + ") is not a live terminal (double release?)"@,
                TerminalReleaseError::SlotAlreadyFree { id, namespace } => "TerminalId("@
                    + decimal(id.number() as nat) + ") was live but namespace "@ + decimal(
                    namespace as nat,
                ) + " was already free; the registry invariant is broken"@,
            },
    {
        match self {
            TerminalReleaseError::UnknownTerminal(id) => {
                let mut text = "TerminalId(".to_owned();
                text.append(&decimal_text(id.raw()));
                text.append(") is not a live terminal (double release?)");
                text
            },
            TerminalReleaseError::SlotAlreadyFree { id, namespace } => {
                let mut text = "TerminalId(".to_owned();
                text.append(&decimal_text(id.raw()));
                text.append(") was live but namespace ");
                text.append(&decimal_text(namespace as u64));
                text.append(" was already free; the registry invariant is broken");
                text
            },
        }
    }
}

/// What belongs to a terminal's session and dies with the terminal.
#[derive(Debug)]
pub struct TerminalSession {
    /// Its macros.
    pub macros: TerminalMacros,
    /// Its effects.
    pub effects: AiEffects,
}

/// The session that every terminal is born with. The next holder of a
/// namespace inherits nothing from the last.
pub fn terminal_session_state() -> (session: TerminalSession)
    ensures
        session.macros.wf(),
        session.macros@ == MacrosState::fresh(),
        session.effects == AiEffects::idle(Single { bits: 0 }),
{
    TerminalSession { macros: TerminalMacros::new(), effects: AiEffects::new() }
}

/// A live terminal's registry row: the leased namespace, and the seat once it
/// is bound.
#[derive(Clone, Copy, Debug, PartialEq, Eq, Structural)]
pub struct LiveTerminal {
    /// The leased namespace.
    pub namespace: u8,
    /// The seat.
    pub entity: Option<u64>,
}

/// What a registry holds.
pub struct RegistryState {
    /// The number that the next terminal gets.
    pub next_id: nat,
    /// The free namespaces, in ascending order.
    pub free: Seq<u8>,
    /// The live terminals by number.
    pub live: Map<u64, LiveTerminal>,
}

impl RegistryState {
    /// The registry after a terminal was minted: it has the next number and the
    /// first free namespace.
    pub open spec fn minted(self) -> RegistryState {
        RegistryState {
            next_id: self.next_id + 1,
            free: self.free.drop_first(),
            live: self.live.insert(
                self.next_id as u64,
                LiveTerminal { namespace: self.free[0], entity: None },
            ),
        }
    }

    /// The registry after a terminal was bound to its seat.
    pub open spec fn bound(self, id: u64, entity: u64) -> RegistryState {
        RegistryState {
            live: self.live.insert(
                id,
                LiveTerminal { namespace: self.live[id].namespace, entity: Some(entity) },
            ),
            ..self
        }
    }

    /// Whether the registry is the one after a terminal was released.
    pub open spec fn releases(self, id: u64, after: RegistryState) -> bool {
        &&& after.next_id == self.next_id
        &&& after.live == self.live.remove(id)
        &&& after.free.to_set() == self.free.to_set().insert(self.live[id].namespace)
    }

    /// The seat of a terminal.
    pub open spec fn seat(self, id: u64) -> Option<u64> {
        if self.live.contains_key(id) {
            self.live[id].entity
        } else {
            None
        }
    }

    /// The namespace of a terminal.
    pub open spec fn lease(self, id: u64) -> Option<u8> {
        if self.live.contains_key(id) {
            Some(self.live[id].namespace)
        } else {
            None
        }
    }

    /// Every slot is either free or leased to one live terminal, and every id
    /// handed out so far lies below the next one.
    pub open spec fn wf(self) -> bool {
        &&& 1 <= self.next_id <= u64::MAX
        &&& forall|i: int, j: int| 0 <= i < j < self.free.len() ==> self.free[i] < self.free[j]
        &&& forall|i: int| 0 <= i < self.free.len() ==> #[trigger] self.free[i] <= MAX_NAMESPACE
        &&& forall|id: u64| #[trigger]
            self.live.contains_key(id) ==> {
                &&& 1 <= id < self.next_id
                &&& self.live[id].namespace <= MAX_NAMESPACE
                &&& !self.free.contains(self.live[id].namespace)
            }
        &&& forall|a: u64, b: u64| #[trigger]
            self.live.contains_key(a) && #[trigger] self.live.contains_key(b) && a != b
                ==> self.live[a].namespace != self.live[b].namespace
        &&& self.live.dom().finite()
        &&& self.live.len() + self.free.len() == MAX_LIVE_TERMINALS
    }

    /// Whether one step leads from this state to another: a terminal with the
    /// next number comes to life, or nobody does.
    pub open spec fn steps_to(self, after: RegistryState) -> bool {
        ||| after.next_id == self.next_id + 1 && after.live.dom() == self.live.dom().insert(
            self.next_id as u64,
        )
        ||| after.next_id == self.next_id && after.live.dom().subset_of(self.live.dom())
    }
}

/// Allocator and resolver for live terminals.
pub struct TerminalRegistry {
    next_id: u64,
    free: Vec<u8>,
    live: HashMap<u64, LiveTerminal>,
}

impl View for TerminalRegistry {
    type V = RegistryState;

    closed spec fn view(&self) -> RegistryState {
        RegistryState { next_id: self.next_id as nat, free: self.free@, live: self.live@ }
    }
}

impl TerminalRegistry {
    /// The pool and the leases are consistent.
    pub open spec fn wf(&self) -> bool {
        self@.wf()
    }

    /// A registry without live terminals.
    pub fn new() -> (registry: TerminalRegistry)
        ensures
            registry.wf(),
            registry@.next_id == 1,
            registry@.free == Seq::new(128, |i: int| i as u8),
            registry@.live == Map::<u64, LiveTerminal>::empty(),
    {
        let mut free: Vec<u8> = Vec::new();
        let mut slot: u8 = 0;
        while slot < 128
            invariant
                slot <= 128,
                free@ == Seq::new(slot as nat, |i: int| i as u8),
            decreases 128 - slot,
        {
            free.push(slot);
            slot += 1;
        }
        TerminalRegistry { next_id: 1, free, live: HashMap::new() }
    }

    /// Mints a fresh identity: the next number and the lowest free namespace.
    pub fn allocate(&mut self) -> (minted: Result<TerminalIdentity, TerminalAllocError>)
        requires
            old(self).wf(),
            old(self)@.free.len() > 0 ==> old(self)@.next_id < u64::MAX,
        ensures
            final(self).wf(),
            old(self)@.steps_to(final(self)@),
            minted is Ok ==> final(self)@ == old(self)@.minted(),
            match minted {
                Ok(identity) => {
                    let slot = old(self)@.free[0];
                    &&& old(self)@.free.len() > 0
                    &&& identity.terminal_id().number() == old(self)@.next_id
                    &&& identity.slot() == slot
                    &&& final(self)@ == (RegistryState {
                        next_id: old(self)@.next_id + 1,
                        free: old(self)@.free.drop_first(),
                        live: old(self)@.live.insert(
                            old(self)@.next_id as u64,
                            LiveTerminal { namespace: slot, entity: None },
                        ),
                    })
                },
                Err(TerminalAllocError::NamespacesExhausted) => {
                    &&& old(self)@.free.len() == 0
                    &&& final(self)@ == old(self)@
                },
            },
    {
        if self.free.len() == 0 {
            return Err(TerminalAllocError::NamespacesExhausted);
        }
        let namespace: u8 = self.free.remove(0);
        let raw: u64 = self.next_id;
        self.next_id = raw + 1;
        self.live.insert(raw, LiveTerminal { namespace, entity: None });
        proof {
            assert(self@.free =~= old(self)@.free.drop_first());
            assert(!self@.free.contains(namespace)) by {
                if self@.free.contains(namespace) {
                    let k = choose|k: int| 0 <= k < self@.free.len() && self@.free[k] == namespace;
                    assert(old(self)@.free[k + 1] == namespace);
                    assert(old(self)@.free[0] < old(self)@.free[k + 1]);
                }
            }
            assert forall|id: u64| #[trigger] self@.live.contains_key(id) && id != raw implies
                self@.live[id].namespace != namespace && !self@.free.contains(
                self@.live[id].namespace,
            ) by {
                assert(old(self)@.live.contains_key(id));
                assert(old(self)@.free[0] == namespace);
                assert(old(self)@.free.contains(namespace));
                if self@.free.contains(self@.live[id].namespace) {
                    let k = choose|k: int|
                        0 <= k < self@.free.len() && self@.free[k] == self@.live[id].namespace;
                    assert(old(self)@.free[k + 1] == self@.live[id].namespace);
                    assert(old(self)@.free.contains(self@.live[id].namespace));
                }
            }
        }
        Ok(TerminalIdentity { id: TerminalId { raw }, namespace })
    }

    /// Where a slot belongs in the free list.
    fn free_place(&self, slot: u8) -> (place: usize)
        requires
            self.wf(),
            !self@.free.contains(slot),
        ensures
            place <= self@.free.len(),
            forall|i: int| 0 <= i < place ==> #[trigger] self@.free[i] < slot,
            forall|i: int| place <= i < self@.free.len() ==> #[trigger] self@.free[i] > slot,
    {
        let mut place: usize = 0;
        while place < self.free.len() && self.free[place] < slot
            invariant
                place <= self@.free.len(),
                self@.free == self.free@,
                forall|i: int| 0 <= i < place ==> #[trigger] self@.free[i] < slot,
            decreases self@.free.len() - place,
        {
            place += 1;
        }
        proof {
            if place < self@.free.len() {
                assert(self@.free.contains(self@.free[place as int]));
            }
        }
        place
    }

    /// Returns a dead terminal's namespace to the pool. Releasing an id twice
    /// is an error, and no live id finds its slot free.
    pub fn release(&mut self, id: TerminalId) -> (released: Result<u8, TerminalReleaseError>)
        requires
            old(self).wf(),
        ensures
            final(self).wf(),
            old(self)@.steps_to(final(self)@),
            released is Ok ==> old(self)@.releases(id.number(), final(self)@),
            match released {
                Ok(slot) => {
                    &&& old(self)@.live.contains_key(id.number())
                    &&& slot == old(self)@.live[id.number()].namespace
                    &&& final(self)@.next_id == old(self)@.next_id
                    &&& final(self)@.live == old(self)@.live.remove(id.number())
                    &&& final(self)@.free.to_set() == old(self)@.free.to_set().insert(slot)
                },
                Err(error) => {
                    &&& error == TerminalReleaseError::UnknownTerminal(id)
                    &&& !old(self)@.live.contains_key(id.number())
                    &&& final(self)@ == old(self)@
                },
            },
    {
        let row: LiveTerminal = match self.live.get(&id.raw) {
            Some(row) => *row,
            None => {
                return Err(TerminalReleaseError::UnknownTerminal(id));
            },
        };
        let namespace: u8 = row.namespace;
        let place: usize = self.free_place(namespace);
        self.live.remove(&id.raw);
        self.free.insert(place, namespace);
        proof {
            let before = old(self)@;
            let after = self@;
            assert(after.free =~= before.free.insert(place as int, namespace));
            assert(after.live =~= before.live.remove(id.number()));
            assert(after.free.to_set() =~= before.free.to_set().insert(namespace)) by {
                assert forall|n: u8| before.free.contains(n) || n == namespace implies
                    after.free.contains(n) by {
                    if n == namespace {
                        assert(after.free[place as int] == n);
                    } else {
                        let k = choose|k: int| 0 <= k < before.free.len() && before.free[k] == n;
                        assert(after.free[if k < place {
                            k
                        } else {
                            k + 1
                        }] == n);
                    }
                }
                assert forall|n: u8| after.free.contains(n) && n != namespace implies
                    before.free.contains(n) by {
                    let k = choose|k: int| 0 <= k < after.free.len() && after.free[k] == n;
                    assert(before.free[if k < place {
                        k
                    } else {
                        k - 1
                    }] == n);
                }
            }
            assert forall|a: u64| #[trigger] after.live.contains_key(a) implies !after.free.contains(
                after.live[a].namespace,
            ) by {
                assert(before.live.contains_key(a));
                assert(before.live.contains_key(id.raw));
                if after.free.contains(after.live[a].namespace) {
                    let k = choose|k: int|
                        0 <= k < after.free.len() && after.free[k] == after.live[a].namespace;
                    if k < place {
                        assert(before.free[k] == after.free[k]);
                    } else if k > place {
                        assert(before.free[k - 1] == after.free[k]);
                    }
                    assert(before.free.contains(before.live[a].namespace) || k == place);
                }
            }
        }
        Ok(namespace)
    }

    /// Binds an allocated id to its seat.
    pub fn bind(&mut self, id: TerminalId, entity: u64) -> (bound: Result<
        (),
        TerminalReleaseError,
    >)
        requires
            old(self).wf(),
        ensures
            final(self).wf(),
            old(self)@.steps_to(final(self)@),
            bound is Ok ==> final(self)@ == old(self)@.bound(id.number(), entity),
            match bound {
                Ok(_) => {
                    &&& old(self)@.live.contains_key(id.number())
                    &&& final(self)@ == (RegistryState {
                        next_id: old(self)@.next_id,
                        free: old(self)@.free,
                        live: old(self)@.live.insert(
                            id.number(),
                            LiveTerminal {
                                namespace: old(self)@.live[id.number()].namespace,
                                entity: Some(entity),
                            },
                        ),
                    })
                },
                Err(error) => {
                    &&& error == TerminalReleaseError::UnknownTerminal(id)
                    &&& !old(self)@.live.contains_key(id.number())
                    &&& final(self)@ == old(self)@
                },
            },
    {
        let row: LiveTerminal = match self.live.get(&id.raw) {
            Some(row) => *row,
            None => {
                return Err(TerminalReleaseError::UnknownTerminal(id));
            },
        };
        self.live.insert(id.raw, LiveTerminal { namespace: row.namespace, entity: Some(entity) });
        proof {
            assert forall|a: u64| #[trigger] self@.live.contains_key(a) implies old(
                self,
            )@.live.contains_key(a) && self@.live[a].namespace == old(self)@.live[a].namespace by {}
        }
        Ok(())
    }

    /// The seat of a live, bound terminal; a dead id resolves to nothing.
    pub fn entity_of(&self, id: TerminalId) -> (entity: Option<u64>)
        ensures
            entity == self@.seat(id.number()),
            entity == if self@.live.contains_key(id.number()) {
                self@.live[id.number()].entity
            } else {
                None
            },
    {
        match self.live.get(&id.raw) {
            Some(row) => row.entity,
            None => None,
        }
    }

    /// The namespace leased to `id`, or `None` once it dies.
    pub fn namespace_of(&self, id: TerminalId) -> (namespace: Option<u8>)
        ensures
            namespace == self@.lease(id.number()),
            namespace == if self@.live.contains_key(id.number()) {
                Some(self@.live[id.number()].namespace)
            } else {
                None
            },
    {
        match self.live.get(&id.raw) {
            Some(row) => Some(row.namespace),
            None => None,
        }
    }

    /// How many terminals hold a lease.
    pub fn live_count(&self) -> (count: usize)
        requires
            self.wf(),
        ensures
            count == self@.live.len(),
    {
        self.live.len()
    }
}

impl Default for TerminalRegistry {
    fn default() -> (registry: Self)
        ensures
            registry.wf(),
            registry@.next_id == 1,
            registry@.free == Seq::new(128, |i: int| i as u8),
            registry@.live == Map::<u64, LiveTerminal>::empty(),
    {
        TerminalRegistry::new()
    }
}

/// No two live terminals share a namespace, and none holds one that the wire
/// cannot carry.
pub proof fn law_namespaces_never_alias(registry: RegistryState, a: u64, b: u64)
    requires
        registry.wf(),
        registry.live.contains_key(a),
        registry.live.contains_key(b),
        a != b,
    ensures
        registry.live[a].namespace != registry.live[b].namespace,
        registry.live[a].namespace < 128,
        registry.live[b].namespace < 128,
{
}

/// The pool is exhausted exactly when 128 terminals are live.
pub proof fn law_exhaustion_is_the_ceiling(registry: RegistryState)
    requires
        registry.wf(),
    ensures
        registry.free.len() == 0 <==> registry.live.len() == MAX_LIVE_TERMINALS,
        registry.live.len() <= MAX_LIVE_TERMINALS,
{
}

/// Whether states follow each other step by step.
pub open spec fn is_history(states: Seq<RegistryState>) -> bool {
    &&& forall|i: int| 0 <= i < states.len() ==> (#[trigger] states[i]).wf()
    &&& forall|i: int, j: int|
        0 <= i && j == i + 1 && j < states.len() ==> (#[trigger] states[i]).steps_to(
            #[trigger] states[j],
        )
}

/// Numbers are never used again: a terminal that has died stays dead, however
/// the registry goes on.
pub proof fn law_ids_never_recycle(states: Seq<RegistryState>, lived: int, dead: int, later: int, id: u64)
    requires
        is_history(states),
        0 <= lived < dead <= later < states.len(),
        states[lived].live.contains_key(id),
        !states[dead].live.contains_key(id),
    ensures
        !states[later].live.contains_key(id),
    decreases later - dead,
{
    lemma_numbers_grow(states, lived, later);
    if dead < later {
        law_ids_never_recycle(states, lived, dead, later - 1, id);
        lemma_numbers_grow(states, lived, later - 1);
        assert(states[later - 1].steps_to(states[later]));
        assert(states[lived].wf());
        if states[later].live.contains_key(id) {
            assert(states[later].live.dom().contains(id));
        }
    }
}

proof fn lemma_numbers_grow(states: Seq<RegistryState>, from: int, to: int)
    requires
        is_history(states),
        0 <= from <= to < states.len(),
    ensures
        states[from].next_id <= states[to].next_id,
    decreases to - from,
{
    if from < to {
        lemma_numbers_grow(states, from, to - 1);
        assert(states[to - 1].steps_to(states[to]));
    }
}

/// A new terminal has a number that none had before, and the lowest namespace
/// that is free; it has no seat yet, and no other terminal changes.
pub proof fn law_new_terminals_take_the_lowest_namespace(
    registry: RegistryState,
    slot: u8,
    other: u64,
)
    requires
        registry.wf(),
        registry.free.len() > 0,
        registry.next_id < u64::MAX,
    ensures
        ({
            let after = registry.minted();
            let id = registry.next_id as u64;
            let own = after.lease(id);
            &&& !registry.live.contains_key(id)
            &&& own is Some
            &&& after.seat(id) is None
            &&& registry.free.contains(own->0)
            &&& registry.free.contains(slot) ==> own->0 <= slot
            &&& after.free.contains(slot) <==> registry.free.contains(slot) && slot != own->0
            &&& other != id ==> after.lease(other) == registry.lease(other) && after.seat(other)
                == registry.seat(other)
            &&& after.next_id == registry.next_id + 1
        }),
{
    let after = registry.minted();
    let first = registry.free[0];
    assert(registry.free.contains(first));
    if registry.free.contains(slot) {
        let k = choose|k: int| 0 <= k < registry.free.len() && registry.free[k] == slot;
        if k > 0 {
            assert(registry.free[0] < registry.free[k]);
            assert(after.free[k - 1] == slot);
        }
    }
    if after.free.contains(slot) {
        let k = choose|k: int| 0 <= k < after.free.len() && after.free[k] == slot;
        assert(registry.free[k + 1] == slot);
        assert(registry.free[0] < registry.free[k + 1]);
    }
}

/// A terminal that is released is gone, and its namespace is free again; no
/// other terminal changes, and no number comes back.
pub proof fn law_released_namespaces_are_free_again(
    registry: RegistryState,
    after: RegistryState,
    id: u64,
    other: u64,
    slot: u8,
)
    requires
        registry.releases(id, after),
        registry.live.contains_key(id),
        other != id,
    ensures
        after.lease(id) is None,
        after.seat(id) is None,
        after.free.contains(slot) <==> registry.free.contains(slot) || registry.lease(id) == Some(
            slot,
        ),
        after.lease(other) == registry.lease(other),
        after.seat(other) == registry.seat(other),
        after.next_id == registry.next_id,
{
    assert(after.free.to_set().contains(slot) <==> registry.free.to_set().insert(
        registry.live[id].namespace,
    ).contains(slot));
}

/// Binding gives a terminal its seat and changes nothing else.
pub proof fn law_binding_gives_a_seat(
    registry: RegistryState,
    id: u64,
    entity: u64,
    other: u64,
)
    requires
        registry.live.contains_key(id),
        other != id,
    ensures
        registry.bound(id, entity).seat(id) == Some(entity),
        registry.bound(id, entity).lease(id) == registry.lease(id),
        registry.bound(id, entity).seat(other) == registry.seat(other),
        registry.bound(id, entity).lease(other) == registry.lease(other),
        registry.bound(id, entity).free == registry.free,
        registry.bound(id, entity).next_id == registry.next_id,
{
}

/// A grid may be asked for with 2 to 512 columns and rows each and at most
/// 100000 cells; and at least one terminal and at most 128 may live.
pub proof fn law_limits_of_terminals(cols: u16, rows: u16, max_live: usize)
    ensures
        admissible_grid(cols, rows) <==> 2 <= cols <= 512 && 2 <= rows <= 512 && cols * rows
            <= 100_000,
        1 <= live_cap(max_live) <= 128,
        1 <= max_live <= 128 ==> live_cap(max_live) == max_live,
        max_live > 128 ==> live_cap(max_live) == 128,
{
}

} // verus!
