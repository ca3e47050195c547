//! Focus: which terminal the user's keystrokes reach.
//!
//! At most one terminal is focused, and none is legal. Every origin asks with
//! a request; one function grants. Within a frame the user beats the wire, and
//! within a class the last request wins. A request for a dead terminal is
//! dropped. When the focused terminal dies, the most recently focused survivor
//! takes over. Nothing else ever focuses anything.

use vstd::prelude::*;
use crate::identity::TerminalId;

verus! {

/// Where a request came from.
#[derive(Clone, Copy, Debug, PartialEq, Eq, Structural)]
pub enum FocusOrigin {
    /// A pointer press on a terminal. The user's.
    PointerPress,
    /// A granted wire verb. The wire's.
    WireVerb,
    /// A page-level control. The user's.
    JsControl,
    /// The boot terminal, or a terminal that the user spawned. The user's.
    SpawnPolicy,
    /// The focus-cycle chord. The user's.
    Keybinding,
    /// Succession after the focused terminal died.
    Fallback,
}

impl FocusOrigin {
    /// Whether the origin carries the user's intent.
    pub open spec fn users(self) -> bool {
        match self {
            FocusOrigin::PointerPress => true,
            FocusOrigin::JsControl => true,
            FocusOrigin::SpawnPolicy => true,
            FocusOrigin::Keybinding => true,
            FocusOrigin::WireVerb => false,
            FocusOrigin::Fallback => false,
        }
    }

    /// Whether the origin carries the user's intent.
    pub fn is_user_class(self) -> (users: bool)
        ensures
            users == self.users(),
    {
        match self {
            FocusOrigin::PointerPress => true,
            FocusOrigin::JsControl => true,
            FocusOrigin::SpawnPolicy => true,
            FocusOrigin::Keybinding => true,
            FocusOrigin::WireVerb => false,
            FocusOrigin::Fallback => false,
        }
    }
}

/// A request to move focus.
#[derive(Clone, Copy, Debug, PartialEq, Eq, Structural)]
pub struct FocusRequest {
    /// The seat to focus, or none to focus nothing.
    pub target: Option<u64>,
    /// Where it came from.
    pub origin: FocusOrigin,
}

/// A seat became focused.
#[derive(Clone, Copy, Debug, PartialEq, Eq, Structural)]
pub struct FocusGained(pub u64);

/// A live seat lost focus.
#[derive(Clone, Copy, Debug, PartialEq, Eq, Structural)]
pub struct FocusLost(pub u64);

/// What a transition announces. Each seat that it names is painted again.
#[derive(Clone, Copy, Debug, PartialEq, Eq, Structural)]
pub struct FocusTransition {
    /// The loser, where it is alive.
    pub lost: Option<FocusLost>,
    /// The winner.
    pub gained: Option<FocusGained>,
}

/// A live seat: its handle and the terminal that sits there.
#[derive(Clone, Copy, Debug)]
pub struct LiveSeat {
    /// The seat's handle.
    pub entity: u64,
    /// The terminal.
    pub id: TerminalId,
}

/// What the focus authority holds.
pub struct FocusState {
    /// The focused seat.
    pub current: Option<u64>,
    /// The focused seats of the past, the latest first.
    pub mru: Seq<u64>,
}

/// The focus authority.
#[derive(Debug)]
pub struct FocusedTerminal {
    current: Option<u64>,
    mru: Vec<u64>,
}

impl View for FocusedTerminal {
    type V = FocusState;

    closed spec fn view(&self) -> FocusState {
        FocusState { current: self.current, mru: self.mru@ }
    }
}

/// Whether a seat is alive.
pub open spec fn alive(live: Seq<LiveSeat>, entity: u64) -> bool {
    exists|i: int| 0 <= i < live.len() && (#[trigger] live[i]).entity == entity
}

/// Whether a request may be granted: it asks for nothing, or for a live seat.
pub open spec fn grantable(live: Seq<LiveSeat>, request: FocusRequest) -> bool {
    request.target matches Some(target) ==> alive(live, target)
}

/// The request that wins a frame: of those that may be granted the last, but
/// none of the wire's once the user has asked.
pub open spec fn arbitrated(live: Seq<LiveSeat>, requests: Seq<FocusRequest>) -> Option<
    FocusRequest,
>
    decreases requests.len(),
{
    if requests.len() == 0 {
        None
    } else {
        let earlier = arbitrated(live, requests.drop_last());
        let last = requests.last();
        if !grantable(live, last) {
            earlier
        } else {
            match earlier {
                Some(winner) => if winner.origin.users() && !last.origin.users() {
                    earlier
                } else {
                    Some(last)
                },
                None => Some(last),
            }
        }
    }
}

/// The latest live seat in a history, from a position on.
pub open spec fn latest_alive(live: Seq<LiveSeat>, mru: Seq<u64>, from: int) -> Option<u64>
    decreases mru.len() - from,
{
    if from >= mru.len() {
        None
    } else if alive(live, mru[from]) {
        Some(mru[from])
    } else {
        latest_alive(live, mru, from + 1)
    }
}

/// The index of the seat whose terminal was minted first.
pub open spec fn oldest(live: Seq<LiveSeat>) -> Option<int>
    decreases live.len(),
{
    if live.len() == 0 {
        None
    } else {
        match oldest(live.drop_last()) {
            Some(i) => if live.last().id.number() < live[i].id.number() {
                Some(live.len() - 1)
            } else {
                Some(i)
            },
            None => Some(live.len() - 1),
        }
    }
}

/// Who takes over when the focused seat is dead: the most recently focused
/// survivor, or else the seat whose terminal was minted first.
pub open spec fn successor(live: Seq<LiveSeat>, mru: Seq<u64>) -> Option<u64> {
    match latest_alive(live, mru, 0) {
        Some(survivor) => Some(survivor),
        None => match oldest(live) {
            Some(i) => Some(live[i].entity),
            None => None,
        },
    }
}

/// A history without a seat.
pub open spec fn without(mru: Seq<u64>, entity: u64) -> Seq<u64>
    decreases mru.len(),
{
    if mru.len() == 0 {
        mru
    } else if mru.last() == entity {
        without(mru.drop_last(), entity)
    } else {
        without(mru.drop_last(), entity).push(mru.last())
    }
}

/// A history without the dead.
pub open spec fn survivors(live: Seq<LiveSeat>, mru: Seq<u64>) -> Seq<u64>
    decreases mru.len(),
{
    if mru.len() == 0 {
        mru
    } else if !alive(live, mru.last()) {
        survivors(live, mru.drop_last())
    } else {
        survivors(live, mru.drop_last()).push(mru.last())
    }
}

impl FocusState {
    /// Nobody stands in the history twice, and the focused seat stands first.
    pub open spec fn wf(self) -> bool {
        &&& self.mru.no_duplicates()
        &&& self.current matches Some(current) ==> self.mru.len() > 0 && self.mru[0] == current
    }

    /// The request that a frame grants: the winner of its requests, or
    /// succession if the focused seat is dead.
    pub open spec fn granted(self, live: Seq<LiveSeat>, requests: Seq<FocusRequest>) -> Option<
        FocusRequest,
    > {
        match arbitrated(live, requests) {
            Some(winner) => Some(winner),
            None => if self.current matches Some(current) && !alive(live, current) {
                Some(
                    FocusRequest {
                        target: successor(live, self.mru),
                        origin: FocusOrigin::Fallback,
                    },
                )
            } else {
                None
            },
        }
    }

    /// Focus on a seat, or on nothing; the history keeps only the living.
    pub open spec fn moved(self, live: Seq<LiveSeat>, target: Option<u64>) -> FocusState {
        FocusState {
            current: target,
            mru: survivors(
                live,
                match target {
                    Some(target) => seq![target] + without(self.mru, target),
                    None => self.mru,
                },
            ),
        }
    }

    /// What a frame's requests do, and what is announced. Focus that does not
    /// move changes nothing and announces nothing.
    pub open spec fn drained(self, live: Seq<LiveSeat>, requests: Seq<FocusRequest>) -> (
        FocusState,
        FocusTransition,
    ) {
        match self.granted(live, requests) {
            Some(request) => if request.target == self.current {
                (self, FocusTransition { lost: None, gained: None })
            } else {
                (
                    self.moved(live, request.target),
                    FocusTransition {
                        lost: match self.current {
                            Some(previous) => if alive(live, previous) {
                                Some(FocusLost(previous))
                            } else {
                                None
                            },
                            None => None,
                        },
                        gained: match request.target {
                            Some(target) => Some(FocusGained(target)),
                            None => None,
                        },
                    },
                )
            },
            None => (self, FocusTransition { lost: None, gained: None }),
        }
    }

    /// Whether cycling reaches a seat before another: it was focused longer
    /// ago, or never; and of two that never were, the one whose terminal was
    /// minted first.
    pub open spec fn before(self, a: LiveSeat, b: LiveSeat) -> bool {
        match (place(self.mru, a.entity), place(self.mru, b.entity)) {
            (Some(i), Some(j)) => i > j || (i == j && a.id.number() < b.id.number()),
            (Some(_), None) => false,
            (None, Some(_)) => true,
            (None, None) => a.id.number() < b.id.number(),
        }
    }

    /// The index of the seat that cycling reaches next: the first in that
    /// order that is not focused.
    pub open spec fn cycle_index(self, live: Seq<LiveSeat>) -> Option<int>
        decreases live.len(),
    {
        if live.len() == 0 {
            None
        } else {
            let earlier = self.cycle_index(live.drop_last());
            if self.current == Some(live.last().entity) {
                earlier
            } else {
                match earlier {
                    Some(i) => if self.before(live[i], live.last()) {
                        earlier
                    } else {
                        Some(live.len() - 1)
                    },
                    None => Some(live.len() - 1),
                }
            }
        }
    }
}

/// A seat's first place in a history.
pub open spec fn place(mru: Seq<u64>, entity: u64) -> Option<int>
    decreases mru.len(),
{
    if mru.len() == 0 {
        None
    } else {
        match place(mru.drop_last(), entity) {
            Some(i) => Some(i),
            None => if mru.last() == entity {
                Some(mru.len() - 1)
            } else {
                None
            },
        }
    }
}

proof fn lemma_place(mru: Seq<u64>, entity: u64)
    ensures
        match place(mru, entity) {
            Some(i) => 0 <= i < mru.len() && mru[i] == entity && forall|j: int|
                0 <= j < i ==> #[trigger] mru[j] != entity,
            None => forall|j: int| 0 <= j < mru.len() ==> #[trigger] mru[j] != entity,
        },
    decreases mru.len(),
{
    if mru.len() > 0 {
        lemma_place(mru.drop_last(), entity);
        assert forall|j: int| 0 <= j < mru.len() - 1 implies #[trigger] mru[j]
            == mru.drop_last()[j] by {}
    }
}

proof fn lemma_oldest_range(live: Seq<LiveSeat>)
    ensures
        oldest(live) matches Some(i) ==> 0 <= i < live.len(),
        oldest(live) is None <==> live.len() == 0,
    decreases live.len(),
{
    if live.len() > 0 {
        lemma_oldest_range(live.drop_last());
    }
}

fn is_alive(live: &Vec<LiveSeat>, entity: u64) -> (found: bool)
    ensures
        found == alive(live@, entity),
{
    let mut i: usize = 0;
    while i < live.len()
        invariant
            i <= live@.len(),
            forall|j: int| 0 <= j < i ==> (#[trigger] live@[j]).entity != entity,
        decreases live.len() - i,
    {
        if live[i].entity == entity {
            assert(live@[i as int].entity == entity);
            return true;
        }
        i += 1;
    }
    false
}

fn position(mru: &Vec<u64>, entity: u64) -> (found: Option<usize>)
    ensures
        match found {
            Some(i) => place(mru@, entity) == Some(i as int),
            None => place(mru@, entity) is None,
        },
{
    let mut i: usize = 0;
    assert(mru@.take(0) =~= Seq::empty());
    while i < mru.len()
        invariant
            i <= mru@.len(),
            place(mru@.take(i as int), entity) is None,
        decreases mru.len() - i,
    {
        let ghost next = mru@.take(i + 1);
        assert(next.drop_last() =~= mru@.take(i as int));
        if mru[i] == entity {
            proof {
                lemma_place(mru@, entity);
                lemma_place(mru@.take(i as int), entity);
                assert(mru@[i as int] == entity);
                assert forall|j: int| 0 <= j < i implies mru@[j] != entity by {
                    assert(mru@.take(i as int)[j] != entity);
                }
            }
            return Some(i);
        }
        i += 1;
    }
    assert(mru@.take(i as int) =~= mru@);
    None
}

impl FocusedTerminal {
    /// The history is in order.
    pub open spec fn wf(&self) -> bool {
        self@.wf()
    }

    /// Nothing is focused, and nothing ever was.
    pub fn new() -> (focus: FocusedTerminal)
        ensures
            focus.wf(),
            focus@ == (FocusState { current: None, mru: Seq::empty() }),
    {
        let focus = FocusedTerminal { current: None, mru: Vec::new() };
        assert(focus@.mru =~= Seq::empty());
        focus
    }

    /// The focused seat.
    pub fn get(&self) -> (current: Option<u64>)
        ensures
            current == self@.current,
    {
        self.current
    }

    /// Whether a seat is the focused one.
    pub fn is_focused(&self, entity: u64) -> (focused: bool)
        ensures
            focused == (self@.current == Some(entity)),
    {
        match self.current {
            Some(current) => current == entity,
            None => false,
        }
    }

    /// The focused seats of the past, the latest first.
    pub fn history(&self) -> (mru: &Vec<u64>)
        ensures
            mru@ == self@.mru,
    {
        &self.mru
    }

    fn comes_before(&self, a: LiveSeat, b: LiveSeat) -> (first: bool)
        ensures
            first == self@.before(a, b),
    {
        match (position(&self.mru, a.entity), position(&self.mru, b.entity)) {
            (Some(i), Some(j)) => i > j || (i == j && a.id.raw() < b.id.raw()),
            (Some(_), None) => false,
            (None, Some(_)) => true,
            (None, None) => a.id.raw() < b.id.raw(),
        }
    }

    /// The seat that the focus-cycle chord goes to: the live seat that was
    /// focused longest ago, and of those that never were the one whose
    /// terminal was minted first; never the focused one.
    pub fn cycle_target(&self, live: &Vec<LiveSeat>) -> (target: Option<u64>)
        ensures
            target == match self@.cycle_index(live@) {
                Some(i) => Some(live@[i].entity),
                None => None,
            },
    {
        let mut best: Option<usize> = None;
        let mut i: usize = 0;
        assert(live@.take(0) =~= Seq::empty());
        while i < live.len()
            invariant
                i <= live@.len(),
                match best {
                    Some(b) => b < i && self@.cycle_index(live@.take(i as int)) == Some(b as int),
                    None => self@.cycle_index(live@.take(i as int)) is None,
                },
            decreases live.len() - i,
        {
            let ghost next = live@.take(i + 1);
            assert(next.drop_last() =~= live@.take(i as int));
            let seat: LiveSeat = live[i];
            if !self.is_focused(seat.entity) {
                let keeps: bool = match best {
                    Some(b) => self.comes_before(live[b], seat),
                    None => false,
                };
                if !keeps {
                    best = Some(i);
                }
            }
            i += 1;
        }
        assert(live@.take(i as int) =~= live@);
        match best {
            Some(b) => Some(live[b].entity),
            None => None,
        }
    }

    fn succession(&self, live: &Vec<LiveSeat>) -> (target: Option<u64>)
        ensures
            target == successor(live@, self@.mru),
    {
        let mut i: usize = 0;
        while i < self.mru.len()
            invariant
                i <= self.mru@.len(),
                latest_alive(live@, self@.mru, i as int) == latest_alive(live@, self@.mru, 0),
            decreases self.mru.len() - i,
        {
            if is_alive(live, self.mru[i]) {
                return Some(self.mru[i]);
            }
            i += 1;
        }
        let mut first: Option<usize> = None;
        let mut j: usize = 0;
        assert(live@.take(0) =~= Seq::empty());
        while j < live.len()
            invariant
                j <= live@.len(),
                match first {
                    Some(f) => f < j && oldest(live@.take(j as int)) == Some(f as int),
                    None => oldest(live@.take(j as int)) is None,
                },
            decreases live.len() - j,
        {
            assert(live@.take(j + 1).drop_last() =~= live@.take(j as int));
            let replaces: bool = match first {
                Some(f) => live[j].id.raw() < live[f].id.raw(),
                None => true,
            };
            if replaces {
                first = Some(j);
            }
            j += 1;
        }
        assert(live@.take(j as int) =~= live@);
        match first {
            Some(f) => Some(live[f].entity),
            None => None,
        }
    }

    fn move_to(&mut self, live: &Vec<LiveSeat>, target: Option<u64>)
        ensures
            final(self)@ == old(self)@.moved(live@, target),
    {
        let mut longer: Vec<u64> = Vec::new();
        let ghost wanted = match target {
            Some(target) => seq![target] + without(self@.mru, target),
            None => self@.mru,
        };
        if let Some(target) = target {
            longer.push(target);
        }
        let mut i: usize = 0;
        proof {
            assert(self.mru@.take(0) =~= Seq::empty());
            if let Some(target) = target {
                assert(longer@ =~= seq![target] + without(self.mru@.take(0), target));
            } else {
                assert(longer@ =~= self.mru@.take(0));
            }
        }
        while i < self.mru.len()
            invariant
                i <= self.mru@.len(),
                self@ == old(self)@,
                longer@ == match target {
                    Some(target) => seq![target] + without(self.mru@.take(i as int), target),
                    None => self.mru@.take(i as int),
                },
            decreases self.mru.len() - i,
        {
            let ghost next = self.mru@.take(i + 1);
            assert(next.drop_last() =~= self.mru@.take(i as int));
            let entity: u64 = self.mru[i];
            let keeps: bool = match target {
                Some(target) => entity != target,
                None => true,
            };
            if keeps {
                longer.push(entity);
            }
            proof {
                if let Some(target) = target {
                    assert(longer@ =~= seq![target] + without(next, target));
                } else {
                    assert(longer@ =~= next);
                }
            }
            i += 1;
        }
        assert(self.mru@.take(i as int) =~= self.mru@);
        assert(longer@ == wanted);
        let mut kept: Vec<u64> = Vec::new();
        let mut j: usize = 0;
        assert(longer@.take(0) =~= Seq::empty());
        assert(kept@ =~= survivors(live@, longer@.take(0)));
        while j < longer.len()
            invariant
                j <= longer@.len(),
                kept@ == survivors(live@, longer@.take(j as int)),
            decreases longer.len() - j,
        {
            assert(longer@.take(j + 1).drop_last() =~= longer@.take(j as int));
            if is_alive(live, longer[j]) {
                kept.push(longer[j]);
            }
            j += 1;
        }
        assert(longer@.take(j as int) =~= longer@);
        self.current = target;
        self.mru = kept;
    }
}

fn arbitrate(live: &Vec<LiveSeat>, requests: &Vec<FocusRequest>) -> (winner: Option<FocusRequest>)
    ensures
        winner == arbitrated(live@, requests@),
{
    let mut winner: Option<FocusRequest> = None;
    let mut i: usize = 0;
    assert(requests@.take(0) =~= Seq::empty());
    while i < requests.len()
        invariant
            i <= requests@.len(),
            winner == arbitrated(live@, requests@.take(i as int)),
        decreases requests.len() - i,
    {
        assert(requests@.take(i + 1).drop_last() =~= requests@.take(i as int));
        let request: FocusRequest = requests[i];
        let granted: bool = match request.target {
            Some(target) => is_alive(live, target),
            None => true,
        };
        if granted {
            let beaten: bool = match winner {
                Some(current) => current.origin.is_user_class() && !request.origin.is_user_class(),
                None => false,
            };
            if !beaten {
                winner = Some(request);
            }
        }
        i += 1;
    }
    assert(requests@.take(i as int) =~= requests@);
    winner
}

/// Grants a frame's requests, and says what is to be announced. This is the
/// one place where focus moves.
pub fn drain_focus_requests(
    requests: &Vec<FocusRequest>,
    focus: &mut FocusedTerminal,
    live: &Vec<LiveSeat>,
) -> (transition: FocusTransition)
    requires
        old(focus).wf(),
    ensures
        final(focus).wf(),
        (final(focus)@, transition) == old(focus)@.drained(live@, requests@),
{
    proof {
        law_focus_stays_in_order(focus@, live@, requests@);
    }
    let mut winner = arbitrate(live, requests);
    if winner.is_none() {
        if let Some(current) = focus.current {
            if !is_alive(live, current) {
                winner =
                Some(
                    FocusRequest {
                        target: focus.succession(live),
                        origin: FocusOrigin::Fallback,
                    },
                );
            }
        }
    }
    let request: FocusRequest = match winner {
        Some(request) => request,
        None => {
            return FocusTransition { lost: None, gained: None };
        },
    };
    let previous = focus.current;
    if request.target == previous {
        return FocusTransition { lost: None, gained: None };
    }
    focus.move_to(live, request.target);
    let lost: Option<FocusLost> = match previous {
        Some(previous) => if is_alive(live, previous) {
            Some(FocusLost(previous))
        } else {
            None
        },
        None => None,
    };
    let gained: Option<FocusGained> = match request.target {
        Some(target) => Some(FocusGained(target)),
        None => None,
    };
    FocusTransition { lost, gained }
}

/// The request that focuses the boot terminal.
pub fn focus_boot_terminal(seat: u64) -> (request: FocusRequest)
    ensures
        request == (FocusRequest { target: Some(seat), origin: FocusOrigin::SpawnPolicy }),
{
    FocusRequest { target: Some(seat), origin: FocusOrigin::SpawnPolicy }
}

proof fn lemma_without(mru: Seq<u64>, entity: u64)
    requires
        mru.no_duplicates(),
    ensures
        without(mru, entity).no_duplicates(),
        forall|other: u64| #[trigger]
            without(mru, entity).contains(other) <==> mru.contains(other) && other != entity,
    decreases mru.len(),
{
    if mru.len() > 0 {
        let rest = mru.drop_last();
        let kept = without(rest, entity);
        lemma_without(rest, entity);
        assert forall|other: u64| #[trigger] mru.contains(other) <==> rest.contains(other) || other
            == mru.last() by {
            if rest.contains(other) {
                let j = choose|j: int| 0 <= j < rest.len() && rest[j] == other;
                assert(mru[j] == other);
            }
            if other == mru.last() {
                assert(mru[mru.len() - 1] == other);
            }
            if mru.contains(other) && other != mru.last() {
                let j = choose|j: int| 0 <= j < mru.len() && mru[j] == other;
                assert(rest[j] == other);
            }
        }
        assert(!rest.contains(mru.last())) by {
            if rest.contains(mru.last()) {
                let j = choose|j: int| 0 <= j < rest.len() && rest[j] == mru.last();
                assert(mru[j] == mru[mru.len() - 1]);
            }
        }
        if mru.last() != entity {
            let grown = kept.push(mru.last());
            assert(!kept.contains(mru.last()));
            assert forall|other: u64| #[trigger] grown.contains(other) <==> kept.contains(other)
                || other == mru.last() by {
                if kept.contains(other) {
                    let j = choose|j: int| 0 <= j < kept.len() && kept[j] == other;
                    assert(grown[j] == other);
                }
                if other == mru.last() {
                    assert(grown[kept.len() as int] == other);
                }
            }
        }
    }
}

proof fn lemma_survivors(live: Seq<LiveSeat>, mru: Seq<u64>)
    requires
        mru.no_duplicates(),
    ensures
        survivors(live, mru).no_duplicates(),
        forall|entity: u64| #[trigger]
            survivors(live, mru).contains(entity) <==> mru.contains(entity) && alive(live, entity),
        mru.len() > 0 && alive(live, mru[0]) ==> survivors(live, mru).len() > 0 && survivors(
            live,
            mru,
        )[0] == mru[0],
    decreases mru.len(),
{
    if mru.len() > 0 {
        let rest = mru.drop_last();
        let kept = survivors(live, rest);
        lemma_survivors(live, rest);
        assert forall|other: u64| #[trigger] mru.contains(other) <==> rest.contains(other) || other
            == mru.last() by {
            if rest.contains(other) {
                let j = choose|j: int| 0 <= j < rest.len() && rest[j] == other;
                assert(mru[j] == other);
            }
            if other == mru.last() {
                assert(mru[mru.len() - 1] == other);
            }
            if mru.contains(other) && other != mru.last() {
                let j = choose|j: int| 0 <= j < mru.len() && mru[j] == other;
                assert(rest[j] == other);
            }
        }
        assert(!rest.contains(mru.last())) by {
            if rest.contains(mru.last()) {
                let j = choose|j: int| 0 <= j < rest.len() && rest[j] == mru.last();
                assert(mru[j] == mru[mru.len() - 1]);
            }
        }
        if alive(live, mru.last()) {
            let grown = kept.push(mru.last());
            assert(!kept.contains(mru.last()));
            assert forall|other: u64| #[trigger] grown.contains(other) <==> kept.contains(other)
                || other == mru.last() by {
                if kept.contains(other) {
                    let j = choose|j: int| 0 <= j < kept.len() && kept[j] == other;
                    assert(grown[j] == other);
                }
                if other == mru.last() {
                    assert(grown[kept.len() as int] == other);
                }
            }
        }
        if rest.len() > 0 {
            assert(rest[0] == mru[0]);
        }
    }
}

proof fn lemma_arbitrated(live: Seq<LiveSeat>, requests: Seq<FocusRequest>)
    ensures
        arbitrated(live, requests) matches Some(winner) ==> grantable(live, winner)
            && requests.contains(winner),
        (exists|i: int|
            0 <= i < requests.len() && grantable(live, #[trigger] requests[i])
                && requests[i].origin.users()) ==> (arbitrated(live, requests) matches Some(winner)
            && winner.origin.users()),
        arbitrated(live, requests) is None ==> forall|i: int|
            0 <= i < requests.len() ==> !grantable(live, #[trigger] requests[i]),
    decreases requests.len(),
{
    if requests.len() > 0 {
        let rest = requests.drop_last();
        lemma_arbitrated(live, rest);
        if let Some(winner) = arbitrated(live, rest) {
            let j = choose|j: int| 0 <= j < rest.len() && rest[j] == winner;
            assert(requests[j] == winner);
        }
        assert(requests[requests.len() - 1] == requests.last());
        assert forall|i: int| 0 <= i < requests.len() - 1 implies #[trigger] requests[i]
            == rest[i] by {}
    }
}

proof fn lemma_latest_alive(live: Seq<LiveSeat>, mru: Seq<u64>, from: int)
    requires
        0 <= from <= mru.len(),
    ensures
        latest_alive(live, mru, from) matches Some(entity) ==> alive(live, entity),
    decreases mru.len() - from,
{
    if from < mru.len() {
        lemma_latest_alive(live, mru, from + 1);
    }
}

/// The history stays in order: nobody stands in it twice, the focused seat
/// stands first, and once focus moves it holds only live seats.
pub proof fn law_focus_stays_in_order(
    state: FocusState,
    live: Seq<LiveSeat>,
    requests: Seq<FocusRequest>,
)
    requires
        state.wf(),
    ensures
        state.drained(live, requests).0.wf(),
        state.drained(live, requests).0.current != state.current ==> forall|entity: u64|
            #[trigger] state.drained(live, requests).0.mru.contains(entity) ==> alive(live, entity),
{
    lemma_arbitrated(live, requests);
    lemma_latest_alive(live, state.mru, 0);
    lemma_oldest_range(live);
    if let Some(request) = state.granted(live, requests) {
        if request.target != state.current {
            match request.target {
                Some(target) => {
                    lemma_without(state.mru, target);
                    let rest = without(state.mru, target);
                    let longer = seq![target] + rest;
                    assert forall|i: int, j: int|
                        0 <= i < longer.len() && 0 <= j < longer.len() && i
                            != j implies longer[i] != longer[j] by {
                        if i == 0 {
                            assert(rest.contains(rest[j - 1]));
                        } else if j == 0 {
                            assert(rest.contains(rest[i - 1]));
                        }
                    }
                    lemma_survivors(live, longer);
                    assert(alive(live, target)) by {
                        if arbitrated(live, requests) is None {
                            match latest_alive(live, state.mru, 0) {
                                Some(_) => {},
                                None => {
                                    assert(live[oldest(live)->0].entity == target);
                                },
                            }
                        }
                    }
                },
                None => {
                    lemma_survivors(live, state.mru);
                },
            }
        }
    }
}

/// Focus never goes to a dead seat, and never moves without a request, but
/// that it leaves a dead one.
pub proof fn law_focus_only_on_request(
    state: FocusState,
    live: Seq<LiveSeat>,
    requests: Seq<FocusRequest>,
)
    requires
        state.wf(),
    ensures
        ({
            let after = state.drained(live, requests).0;
            &&& after.current != state.current && after.current is Some ==> alive(
                live,
                after.current->0,
            )
            &&& requests.len() == 0 && (state.current matches Some(current) ==> alive(live, current))
                ==> after == state
        }),
{
    lemma_arbitrated(live, requests);
    lemma_latest_alive(live, state.mru, 0);
    lemma_oldest_range(live);
    if let Some(i) = oldest(live) {
        assert(alive(live, live[i].entity));
    }
}

/// The user beats the wire: where the user asked for a live seat, or for none,
/// in a frame, some request of the user's is what the frame grants.
pub proof fn law_the_user_beats_the_wire(
    state: FocusState,
    live: Seq<LiveSeat>,
    requests: Seq<FocusRequest>,
    i: int,
)
    requires
        0 <= i < requests.len(),
        requests[i].origin.users(),
        grantable(live, requests[i]),
    ensures
        exists|j: int|
            0 <= j < requests.len() && requests[j].origin.users() && grantable(live, requests[j])
                && state.drained(live, requests).0.current == (#[trigger] requests[j]).target,
{
    lemma_arbitrated(live, requests);
    let winner = arbitrated(live, requests)->0;
    let j = choose|j: int| 0 <= j < requests.len() && requests[j] == winner;
    assert(requests[j] == winner);
}

/// Nobody is left deaf: when the focused seat is dead and nobody asks, a live
/// seat is focused as long as there is one.
pub proof fn law_succession_finds_a_survivor(state: FocusState, live: Seq<LiveSeat>)
    requires
        state.current matches Some(current) && !alive(live, current),
        live.len() > 0,
    ensures
        state.drained(live, Seq::empty()).0.current matches Some(entity) && alive(live, entity),
{
    lemma_latest_alive(live, state.mru, 0);
    lemma_oldest_range(live);
    if latest_alive(live, state.mru, 0) is None {
        assert(alive(live, live[oldest(live)->0].entity));
    }
}

/// Whether no seat and no terminal is listed twice.
pub open spec fn seats_differ(live: Seq<LiveSeat>) -> bool {
    forall|i: int, j: int|
        0 <= i < j < live.len() ==> (#[trigger] live[i]).entity != (#[trigger] live[j]).entity
            && live[i].id.number() != live[j].id.number()
}

/// The live seats that cycling reaches before another, by index.
pub open spec fn ahead(state: FocusState, live: Seq<LiveSeat>, a: int) -> Set<int> {
    vstd::set_lib::set_int_range(0, live.len() as int).filter(
        |b: int| state.current != Some(live[b].entity) && state.before(live[b], live[a]),
    )
}

/// Focus after the focus-cycle chord.
pub open spec fn cycled(state: FocusState, live: Seq<LiveSeat>) -> FocusState {
    match state.cycle_index(live) {
        Some(t) => state.moved(live, Some(live[t].entity)),
        None => state,
    }
}

/// Focus after the focus-cycle chord was pressed some times.
pub open spec fn cycled_times(state: FocusState, live: Seq<LiveSeat>, times: nat) -> FocusState
    decreases times,
{
    if times == 0 {
        state
    } else {
        cycled_times(cycled(state, live), live, (times - 1) as nat)
    }
}

proof fn lemma_cycle_first(state: FocusState, live: Seq<LiveSeat>)
    requires
        seats_differ(live),
    ensures
        match state.cycle_index(live) {
            Some(t) => 0 <= t < live.len() && state.current != Some(live[t].entity) && forall|b: int|
                0 <= b < live.len() && b != t && state.current != Some(
                    (#[trigger] live[b]).entity,
                ) ==> state.before(live[t], live[b]),
            None => forall|b: int|
                0 <= b < live.len() ==> state.current == Some((#[trigger] live[b]).entity),
        },
    decreases live.len(),
{
    if live.len() > 0 {
        let rest = live.drop_last();
        assert(seats_differ(rest)) by {
            assert forall|i: int, j: int| 0 <= i < j < rest.len() implies (
            #[trigger] rest[i]).entity != (#[trigger] rest[j]).entity && rest[i].id.number()
                != rest[j].id.number() by {
                assert(rest[i] == live[i] && rest[j] == live[j]);
            }
        }
        lemma_cycle_first(state, rest);
        assert forall|b: int| 0 <= b < rest.len() implies #[trigger] live[b] == rest[b] by {}
        let last = live.last();
        assert forall|b: int| 0 <= b < live.len() implies {
            &&& place(state.mru, (#[trigger] live[b]).entity) matches Some(i) ==> 0 <= i
                < state.mru.len() && state.mru[i] == live[b].entity
        } by {
            lemma_place(state.mru, live[b].entity);
        }
        assert(live[live.len() - 1] == last);
        if let Some(t) = state.cycle_index(rest) {
            assert(live[t] == rest[t]);
        }
    }
}

proof fn lemma_without_order(mru: Seq<u64>, gone: u64, a: u64, b: u64)
    requires
        mru.no_duplicates(),
        a != gone,
        b != gone,
    ensures
        place(without(mru, gone), a) is Some <==> place(mru, a) is Some,
        place(without(mru, gone), b) is Some <==> place(mru, b) is Some,
        place(mru, a) is Some && place(mru, b) is Some ==> ((place(without(mru, gone), a)->0
            < place(without(mru, gone), b)->0) <==> (place(mru, a)->0 < place(mru, b)->0)),
    decreases mru.len(),
{
    if mru.len() > 0 {
        let rest = mru.drop_last();
        lemma_without_order(rest, gone, a, b);
        let kept = without(rest, gone);
        lemma_place(rest, a);
        lemma_place(rest, b);
        lemma_place(kept, a);
        lemma_place(kept, b);
        if mru.last() != gone {
            let grown = kept.push(mru.last());
            assert(grown.drop_last() =~= kept);
        }
    }
}

proof fn lemma_survivors_order(live: Seq<LiveSeat>, mru: Seq<u64>, a: u64, b: u64)
    requires
        mru.no_duplicates(),
        alive(live, a),
        alive(live, b),
    ensures
        place(survivors(live, mru), a) is Some <==> place(mru, a) is Some,
        place(survivors(live, mru), b) is Some <==> place(mru, b) is Some,
        place(mru, a) is Some && place(mru, b) is Some ==> ((place(survivors(live, mru), a)->0
            < place(survivors(live, mru), b)->0) <==> (place(mru, a)->0 < place(mru, b)->0)),
    decreases mru.len(),
{
    if mru.len() > 0 {
        let rest = mru.drop_last();
        lemma_survivors_order(live, rest, a, b);
        let kept = survivors(live, rest);
        lemma_place(rest, a);
        lemma_place(rest, b);
        lemma_place(kept, a);
        lemma_place(kept, b);
        if alive(live, mru.last()) {
            let grown = kept.push(mru.last());
            assert(grown.drop_last() =~= kept);
        }
    }
}

proof fn lemma_front_order(front: u64, rest: Seq<u64>, a: u64)
    requires
        !rest.contains(front),
        a != front,
    ensures
        place(seq![front] + rest, a) == match place(rest, a) {
            Some(i) => Some(i + 1),
            None => None::<int>,
        },
        place(seq![front] + rest, front) == Some(0int),
    decreases rest.len(),
{
    let all = seq![front] + rest;
    if rest.len() == 0 {
        assert(all =~= seq![front]);
        assert(all.drop_last() =~= Seq::<u64>::empty());
        reveal_with_fuel(place, 2);
    } else {
        assert(all.drop_last() =~= seq![front] + rest.drop_last());
        assert(all.last() == rest.last());
        assert(!rest.drop_last().contains(front)) by {
            if rest.drop_last().contains(front) {
                let j = choose|j: int| 0 <= j < rest.len() - 1 && rest.drop_last()[j] == front;
                assert(rest[j] == front);
            }
        }
        lemma_front_order(front, rest.drop_last(), a);
    }
}

proof fn lemma_moved_order(state: FocusState, live: Seq<LiveSeat>, target: u64, a: u64, b: u64)
    requires
        state.wf(),
        alive(live, target),
        alive(live, a),
        alive(live, b),
        a != target,
        b != target,
    ensures
        ({
            let after = state.moved(live, Some(target)).mru;
            &&& place(after, a) is Some <==> place(state.mru, a) is Some
            &&& place(after, b) is Some <==> place(state.mru, b) is Some
            &&& place(state.mru, a) is Some && place(state.mru, b) is Some ==> ((place(after, a)->0
                < place(after, b)->0) <==> (place(state.mru, a)->0 < place(state.mru, b)->0))
        }),
{
    let rest = without(state.mru, target);
    let longer = seq![target] + rest;
    lemma_without(state.mru, target);
    lemma_without_order(state.mru, target, a, b);
    assert(!rest.contains(target));
    lemma_front_order(target, rest, a);
    lemma_front_order(target, rest, b);
    assert forall|i: int, j: int| 0 <= i < longer.len() && 0 <= j < longer.len() && i
        != j implies longer[i] != longer[j] by {
        if i == 0 {
            assert(rest.contains(rest[j - 1]));
        } else if j == 0 {
            assert(rest.contains(rest[i - 1]));
        }
    }
    lemma_survivors_order(live, longer, a, b);
}

/// Cycling is fair: a press that does not reach a seat takes exactly one seat
/// out of those ahead of it, and puts none there.
pub proof fn law_cycling_is_fair(state: FocusState, live: Seq<LiveSeat>, a: int)
    requires
        state.wf(),
        seats_differ(live),
        0 <= a < live.len(),
        state.current != Some(live[a].entity),
        state.cycle_index(live) != Some(a),
    ensures
        state.cycle_index(live) matches Some(t) && ahead(state, live, a).contains(t) && ahead(
            cycled(state, live),
            live,
            a,
        ) == ahead(state, live, a).remove(t),
        cycled(state, live).wf(),
        cycled(state, live).current != Some(live[a].entity),
{
    lemma_cycle_first(state, live);
    let t = state.cycle_index(live)->0;
    let target = live[t].entity;
    let after = cycled(state, live);
    assert(alive(live, target));
    assert(alive(live, live[a].entity));
    if a < t {
        assert(live[a].entity != live[t].entity);
    } else {
        assert(live[t].entity != live[a].entity);
    }
    law_focus_stays_in_order(
        state,
        live,
        seq![FocusRequest { target: Some(target), origin: FocusOrigin::Keybinding }],
    );
    let requests = seq![FocusRequest { target: Some(target), origin: FocusOrigin::Keybinding }];
    assert(requests.drop_last() =~= Seq::empty());
    assert(arbitrated(live, requests.drop_last()) is None);
    assert(arbitrated(live, requests) == Some(requests[0]));
    assert(after == state.drained(live, requests).0);
    assert forall|b: int| ahead(after, live, a).contains(b) <==> ahead(state, live, a).remove(
        t,
    ).contains(b) by {
        if 0 <= b < live.len() && b != t {
            assert(alive(live, live[b].entity));
            if b < t {
                assert(live[b].entity != live[t].entity);
            } else {
                assert(live[t].entity != live[b].entity);
            }
            lemma_moved_order(state, live, target, live[a].entity, live[b].entity);
            lemma_moved_order(state, live, target, live[b].entity, live[a].entity);
            lemma_place(state.mru, live[a].entity);
            lemma_place(state.mru, live[b].entity);
            lemma_place(after.mru, live[a].entity);
            lemma_place(after.mru, live[b].entity);
            if a < b {
                assert(live[a].entity != live[b].entity);
            } else if b < a {
                assert(live[b].entity != live[a].entity);
            }
            if state.current == Some(live[b].entity) {
                assert(state.mru[0] == live[b].entity);
                assert(place(state.mru, live[b].entity) == Some(0int));
            }
        }
    }
    assert(ahead(after, live, a) =~= ahead(state, live, a).remove(t));
}

/// Every live seat is reached: pressing the chord often enough, and at most
/// once for each live seat, focuses it.
pub proof fn law_cycling_reaches_every_seat(state: FocusState, live: Seq<LiveSeat>, a: int) -> (times:
    nat)
    requires
        state.wf(),
        seats_differ(live),
        0 <= a < live.len(),
        state.current != Some(live[a].entity),
    ensures
        1 <= times <= ahead(state, live, a).len() + 1 <= live.len(),
        cycled_times(state, live, times).current == Some(live[a].entity),
    decreases ahead(state, live, a).len(),
{
    vstd::set_lib::lemma_int_range(0, live.len() as int);
    let others = vstd::set_lib::set_int_range(0, live.len() as int).remove(a);
    assert(ahead(state, live, a).subset_of(others));
    vstd::set_lib::lemma_len_subset(ahead(state, live, a), others);
    if state.cycle_index(live) == Some(a) {
        reveal_with_fuel(cycled_times, 2);
        1
    } else {
        law_cycling_is_fair(state, live, a);
        let t = state.cycle_index(live)->0;
        assert(ahead(cycled(state, live), live, a).len() + 1 == ahead(state, live, a).len());
        let rest = law_cycling_reaches_every_seat(cycled(state, live), live, a);
        rest + 1
    }
}

/// Whose intent a request carries: pressing a terminal, a page's control, a
/// terminal that the user opened and the chord are the user's; a verb on the
/// wire and succession are not.
pub proof fn law_whose_intent(origin: FocusOrigin)
    ensures
        origin.users() <==> !(origin is WireVerb || origin is Fallback),
{
}

/// A single request moves focus to where it asks, if that seat lives, and says
/// so: the seat before lost it, as far as it lives, and the new one gained it.
/// The new one stands first in the history, and the dead leave it.
pub proof fn law_a_request_moves_focus(
    state: FocusState,
    live: Seq<LiveSeat>,
    request: FocusRequest,
)
    requires
        state.wf(),
    ensures
        ({
            let (after, said) = state.drained(live, seq![request]);
            let granted = request.target is None || alive(live, request.target->0);
            &&& granted && request.target != state.current ==> {
                &&& after.current == request.target
                &&& request.target matches Some(target) ==> after.mru.len() > 0 && after.mru[0]
                    == target && said.gained == Some(FocusGained(target))
                &&& request.target is None ==> said.gained is None
                &&& state.current matches Some(before) ==> (alive(live, before) ==> said.lost
                    == Some(FocusLost(before))) && (!alive(live, before) ==> said.lost is None)
                &&& state.current is None ==> said.lost is None
            }
            &&& granted && request.target == state.current ==> after == state && said.lost is None
                && said.gained is None
            &&& !granted && (state.current is None || alive(live, state.current->0)) ==> after
                == state && said.lost is None && said.gained is None
        }),
{
    let requests = seq![request];
    assert(requests.drop_last() =~= Seq::empty());
    assert(arbitrated(live, Seq::<FocusRequest>::empty()) is None);
    assert(arbitrated(live, requests) == if grantable(live, request) {
        Some(request)
    } else {
        None
    });
    law_focus_stays_in_order(state, live, requests);
}

/// Of several requests of one class that can be granted, the last wins; and a
/// request that cannot be granted counts for nothing.
pub proof fn law_the_last_request_wins(
    state: FocusState,
    live: Seq<LiveSeat>,
    requests: Seq<FocusRequest>,
    last: FocusRequest,
)
    ensures
        ({
            let granted = last.target is None || alive(live, last.target->0);
            let after = state.drained(live, requests.push(last)).0;
            &&& granted && !(last.origin is WireVerb || last.origin is Fallback) ==> after.current
                == last.target
            &&& granted && (forall|i: int|
                0 <= i < requests.len() ==> (#[trigger] requests[i]).origin is WireVerb
                    || requests[i].origin is Fallback) ==> after.current == last.target
            &&& !granted ==> state.drained(live, requests.push(last)) == state.drained(
                live,
                requests,
            )
        }),
{
    assert(requests.push(last).drop_last() =~= requests);
    lemma_arbitrated(live, requests);
    if let Some(winner) = arbitrated(live, requests) {
        let j = choose|j: int| 0 <= j < requests.len() && requests[j] == winner;
        assert(requests[j] == winner);
    }
}

/// When the focused seat is dead and nobody asks, the one that was focused
/// latest among the living takes over; where none of them ever was, the one
/// whose terminal was minted first.
pub proof fn law_who_takes_over(state: FocusState, live: Seq<LiveSeat>, at: int)
    requires
        state.current matches Some(current) && !alive(live, current),
    ensures
        ({
            let after = state.drained(live, Seq::empty()).0;
            &&& 0 <= at < state.mru.len() && alive(live, state.mru[at]) && (forall|j: int|
                0 <= j < at ==> !alive(live, #[trigger] state.mru[j])) ==> after.current == Some(
                state.mru[at],
            )
            &&& (forall|j: int|
                0 <= j < state.mru.len() ==> !alive(live, #[trigger] state.mru[j])) && 0 <= at
                < live.len() && (forall|j: int|
                0 <= j < live.len() && j != at ==> (#[trigger] live[j]).id.number()
                    > live[at].id.number()) ==> after.current == Some(live[at].entity)
            &&& live.len() == 0 ==> after.current is None
        }),
{
    lemma_latest_alive(live, state.mru, 0);
    lemma_oldest_range(live);
    if 0 <= at < state.mru.len() && alive(live, state.mru[at]) && (forall|j: int|
        0 <= j < at ==> !alive(live, #[trigger] state.mru[j])) {
        lemma_latest_from(live, state.mru, 0, at);
    }
    if (forall|j: int| 0 <= j < state.mru.len() ==> !alive(live, #[trigger] state.mru[j])) {
        lemma_none_latest(live, state.mru, 0);
    }
    if 0 <= at < live.len() && (forall|j: int|
        0 <= j < live.len() && j != at ==> (#[trigger] live[j]).id.number()
            > live[at].id.number()) {
        lemma_oldest_at(live, at);
    }
    if live.len() == 0 {
        lemma_none_latest(live, state.mru, 0);
    }
}

proof fn lemma_latest_from(live: Seq<LiveSeat>, mru: Seq<u64>, from: int, at: int)
    requires
        0 <= from <= at < mru.len(),
        alive(live, mru[at]),
        forall|j: int| from <= j < at ==> !alive(live, #[trigger] mru[j]),
    ensures
        latest_alive(live, mru, from) == Some(mru[at]),
    decreases mru.len() - from,
{
    if from < at {
        assert(!alive(live, mru[from]));
        lemma_latest_from(live, mru, from + 1, at);
    }
}

proof fn lemma_none_latest(live: Seq<LiveSeat>, mru: Seq<u64>, from: int)
    requires
        0 <= from <= mru.len(),
        forall|j: int| from <= j < mru.len() ==> !alive(live, #[trigger] mru[j]),
    ensures
        latest_alive(live, mru, from) is None,
    decreases mru.len() - from,
{
    if from < mru.len() {
        assert(!alive(live, mru[from]));
        lemma_none_latest(live, mru, from + 1);
    }
}

proof fn lemma_oldest_at(live: Seq<LiveSeat>, at: int)
    requires
        0 <= at < live.len(),
        forall|j: int|
            0 <= j < live.len() && j != at ==> (#[trigger] live[j]).id.number()
                > live[at].id.number(),
    ensures
        oldest(live) == Some(at),
    decreases live.len(),
{
    let front = live.drop_last();
    lemma_oldest_range(front);
    if at < front.len() {
        assert forall|j: int| 0 <= j < front.len() && j != at implies (
        #[trigger] front[j]).id.number() > front[at].id.number() by {
            assert(front[j] == live[j]);
        }
        lemma_oldest_at(front, at);
        assert(live[live.len() - 1].id.number() > live[at].id.number());
    } else if let Some(i) = oldest(front) {
        assert(live[i].id.number() > live[at].id.number());
    }
}

/// Cycling goes to the seat that was focused longest ago; one that never was
/// comes before all that were, and of those that never were the one whose
/// terminal was minted first. It never stays.
pub proof fn law_cycling_goes_to_the_longest_ago(
    state: FocusState,
    live: Seq<LiveSeat>,
    at: int,
    other: int,
)
    requires
        state.wf(),
        seats_differ(live),
        state.cycle_index(live) == Some(at),
        0 <= other < live.len(),
        other != at,
        state.current != Some(live[other].entity),
    ensures
        0 <= at < live.len(),
        state.current != Some(live[at].entity),
        forall|i: int, j: int|
            0 <= i < state.mru.len() && 0 <= j < state.mru.len() && #[trigger] state.mru[i]
                == live[at].entity && #[trigger] state.mru[j] == live[other].entity ==> i > j,
        state.mru.contains(live[at].entity) ==> state.mru.contains(live[other].entity),
        !state.mru.contains(live[at].entity) && !state.mru.contains(live[other].entity)
            ==> live[at].id.number() < live[other].id.number(),
{
    lemma_cycle_first(state, live);
    let (a, b) = (live[at], live[other]);
    lemma_place_is(state.mru, a.entity);
    lemma_place_is(state.mru, b.entity);
    assert(state.before(a, b));
    assert forall|i: int, j: int|
        0 <= i < state.mru.len() && 0 <= j < state.mru.len() && #[trigger] state.mru[i]
            == a.entity && #[trigger] state.mru[j] == b.entity implies i > j by {
        if at < other {
            assert(live[at].entity != live[other].entity);
        } else {
            assert(live[other].entity != live[at].entity);
        }
        assert(place(state.mru, a.entity) == Some(i));
        assert(place(state.mru, b.entity) == Some(j));
    }
}

proof fn lemma_place_is(mru: Seq<u64>, entity: u64)
    ensures
        match place(mru, entity) {
            Some(i) => 0 <= i < mru.len() && mru[i] == entity,
            None => !mru.contains(entity),
        },
    decreases mru.len(),
{
    if mru.len() > 0 {
        let front = mru.drop_last();
        lemma_place_is(front, entity);
        if place(mru, entity) is None {
            assert forall|i: int| 0 <= i < mru.len() implies mru[i] != entity by {
                if i < front.len() {
                    assert(front[i] == mru[i]);
                    assert(front.contains(front[i]));
                }
            }
        }
    }
}

} // verus!
