//! The avatar's fair bounded speech queue.
//!
//! One utterance holds the voice; at most
//! [`MAX_PENDING_UTTERANCES_GLOBAL`] wait, at most
//! [`MAX_PENDING_UTTERANCES_PER_AGENT`] of them from one agent. Rotation is by
//! seniority: a pass serves every agent with pending speech, oldest admission
//! first, and an utterance admitted during a pass waits for the next one. An
//! agent never has two utterances waiting, so serving pass after pass is
//! serving in admission order, and the queue is kept in that order.
//!
//! Times are nanoseconds on the frame clock.

use vstd::prelude::*;
use crate::query::{token_view, Code, Reject};
use crate::text::same_text;

verus! {

/// Utterance duration clamp floor.
pub const MIN_UTTERANCE_MS: u64 = 750;

/// Utterance duration clamp ceiling.
pub const MAX_UTTERANCE_MS: u64 = 15_000;

/// Pending utterances over all agents; the active one is not counted.
pub const MAX_PENDING_UTTERANCES_GLOBAL: usize = 4;

/// Pending utterances of one agent.
pub const MAX_PENDING_UTTERANCES_PER_AGENT: usize = 1;

/// Nanoseconds in a millisecond.
pub const NANOS_PER_MS: u64 = 1_000_000;

/// One admitted utterance; everything here is pinned at admission.
#[derive(Debug)]
pub struct Utterance {
    /// Execution handle.
    pub id: String,
    /// Owning agent namespace, the attribution authority.
    pub namespace: u8,
    /// The text, shown only to its owner.
    pub text: String,
    /// Optional presentation label, decoration only.
    pub from: Option<String>,
    /// Pinned display duration in nanoseconds.
    pub duration: u64,
}

/// The utterance holding the voice.
#[derive(Debug)]
pub struct ActiveUtterance {
    /// The utterance.
    pub utterance: Utterance,
    /// When it took the voice.
    pub started: u64,
}

/// An utterance's contents.
pub struct UtteranceView {
    /// Execution handle.
    pub id: Seq<char>,
    /// Owning agent namespace.
    pub namespace: u8,
    /// The text.
    pub text: Seq<char>,
    /// The presentation label.
    pub from: Option<Seq<char>>,
    /// Display duration in nanoseconds.
    pub duration: u64,
}

/// The contents of the utterance holding the voice.
pub struct ActiveView {
    /// The utterance.
    pub utterance: UtteranceView,
    /// When it took the voice.
    pub started: u64,
}

impl View for Utterance {
    type V = UtteranceView;

    open spec fn view(&self) -> UtteranceView {
        UtteranceView {
            id: self.id@,
            namespace: self.namespace,
            text: self.text@,
            from: token_view(self.from),
            duration: self.duration,
        }
    }
}

impl View for ActiveUtterance {
    type V = ActiveView;

    open spec fn view(&self) -> ActiveView {
        ActiveView { utterance: self.utterance@, started: self.started }
    }
}

/// How an admitted utterance entered the queue.
#[derive(Clone, Copy, Debug, PartialEq, Eq, Structural)]
pub enum SpeakAdmission {
    /// Took the voice immediately.
    Started,
    /// Waits for its turn.
    Queued {
        /// Utterances, active and pending, served before this one.
        position: usize,
        /// Estimated wait in nanoseconds.
        eta: u128,
    },
}

/// Where one of an agent's own utterances stands.
#[derive(Clone, Copy, Debug, PartialEq, Eq, Structural)]
pub enum SpeechStatus {
    /// It holds the voice.
    Active {
        /// Milliseconds until it expires.
        remaining_ms: u64,
    },
    /// It waits.
    Queued {
        /// Utterances served before it.
        position: usize,
        /// Estimated wait in milliseconds.
        eta_ms: u64,
    },
}

/// One row of an agent's own executions.
#[derive(Debug)]
pub struct SpeechItem {
    /// Execution handle.
    pub id: String,
    /// The text.
    pub text: String,
    /// The presentation label, when one was given.
    pub from: Option<String>,
    /// Display duration in milliseconds.
    pub duration_ms: u64,
    /// Where the utterance stands.
    pub status: SpeechStatus,
}

/// What a speech queue holds: the voice, and the waiting utterances in
/// admission order.
pub struct SpeechState {
    /// The utterance holding the voice.
    pub active: Option<ActiveView>,
    /// The waiting utterances, most senior first.
    pub waiting: Seq<UtteranceView>,
}

/// The fair bounded speech queue.
#[derive(Debug)]
pub struct SpeechQueue {
    active: Option<ActiveUtterance>,
    waiting: Vec<Utterance>,
}

impl View for SpeechQueue {
    type V = SpeechState;

    closed spec fn view(&self) -> SpeechState {
        SpeechState {
            active: match self.active {
                Some(active) => Some(active@),
                None => None,
            },
            waiting: self.waiting@.map_values(|utterance: Utterance| utterance@),
        }
    }
}

/// The nanoseconds that `active` still holds the voice at `now`.
pub open spec fn remaining(active: ActiveView, now: u64) -> nat {
    let end = active.started + active.utterance.duration;
    if end > now {
        (end - now) as nat
    } else {
        0
    }
}

/// The summed durations of a run of utterances.
pub open spec fn total_duration(run: Seq<UtteranceView>) -> nat
    decreases run.len(),
{
    if run.len() == 0 {
        0
    } else {
        total_duration(run.drop_last()) + run.last().duration as nat
    }
}

/// The index of the agent's waiting utterance, if it has one.
pub open spec fn waiting_index(waiting: Seq<UtteranceView>, namespace: u8) -> Option<int>
    decreases waiting.len(),
{
    if waiting.len() == 0 {
        None
    } else {
        match waiting_index(waiting.drop_last(), namespace) {
            Some(i) => Some(i),
            None => if waiting.last().namespace == namespace {
                Some(waiting.len() - 1)
            } else {
                None
            },
        }
    }
}

/// The index of the first waiting utterance with a handle.
pub open spec fn handle_index(waiting: Seq<UtteranceView>, id: Seq<char>) -> Option<int>
    decreases waiting.len(),
{
    if waiting.len() == 0 {
        None
    } else {
        match handle_index(waiting.drop_last(), id) {
            Some(i) => Some(i),
            None => if waiting.last().id == id {
                Some(waiting.len() - 1)
            } else {
                None
            },
        }
    }
}

impl SpeechState {
    /// Both caps hold: few utterances wait, and no agent has two of them.
    pub open spec fn wf(self) -> bool {
        &&& self.waiting.len() <= MAX_PENDING_UTTERANCES_GLOBAL
        &&& forall|i: int, j: int|
            0 <= i < j < self.waiting.len() ==> #[trigger] self.waiting[i].namespace
                != #[trigger] self.waiting[j].namespace
    }

    /// Nobody speaks and nobody waits.
    pub open spec fn silent() -> SpeechState {
        SpeechState { active: None, waiting: Seq::empty() }
    }

    /// How many utterances are served before the one waiting at `index`.
    pub open spec fn position(self, index: int) -> int {
        index + if self.active is Some {
            1int
        } else {
            0int
        }
    }

    /// How long the utterance waiting at `index` waits when nobody cancels.
    pub open spec fn eta(self, index: int, now: u64) -> nat {
        total_duration(self.waiting.take(index)) + match self.active {
            Some(active) => remaining(active, now),
            None => 0,
        }
    }

    /// The waiting utterance at `index` is gone.
    pub open spec fn without(self, index: int) -> SpeechState {
        SpeechState { active: self.active, waiting: self.waiting.remove(index) }
    }

    /// The voice is free.
    pub open spec fn hushed(self) -> SpeechState {
        SpeechState { active: None, waiting: self.waiting }
    }

    /// The most senior waiting utterance, if any, has taken the voice.
    pub open spec fn promoted(self, now: u64) -> SpeechState {
        if self.waiting.len() == 0 {
            self.hushed()
        } else {
            SpeechState {
                active: Some(ActiveView { utterance: self.waiting[0], started: now }),
                waiting: self.waiting.drop_first(),
            }
        }
    }

    /// What admitting an utterance does: the agent cap is checked first, then
    /// the voice is taken if nobody speaks and nobody waits, then the global
    /// cap is checked.
    pub open spec fn admission(self, utterance: UtteranceView, now: u64) -> Result<
        (SpeechState, SpeakAdmission),
        (Code, Seq<char>),
    > {
        if waiting_index(self.waiting, utterance.namespace) is Some {
            Err(
                (
                    Code::AgentQueueFull,
                    "this agent already has its maximum pending utterances queued"@,
                ),
            )
        } else if self.active is None && self.waiting.len() == 0 {
            Ok(
                (
                    SpeechState {
                        active: Some(ActiveView { utterance, started: now }),
                        waiting: self.waiting,
                    },
                    SpeakAdmission::Started,
                ),
            )
        } else if self.waiting.len() >= MAX_PENDING_UTTERANCES_GLOBAL {
            Err((Code::Busy, "the avatar speech queue is at its global pending cap"@))
        } else {
            let index = self.waiting.len() as int;
            Ok(
                (
                    SpeechState { active: self.active, waiting: self.waiting.push(utterance) },
                    SpeakAdmission::Queued {
                        position: self.position(index) as usize,
                        eta: self.eta(index, now) as u128,
                    },
                ),
            )
        }
    }

    /// What a frame does: an expired or cancelled voice goes to the most
    /// senior waiting utterance.
    pub open spec fn tick(self, now: u64) -> SpeechState {
        match self.active {
            Some(active) => if now >= active.started + active.utterance.duration {
                self.promoted(now)
            } else {
                self
            },
            None => self.promoted(now),
        }
    }

    /// What an agent's stop does: its own voice first, else its own waiting
    /// utterance.
    pub open spec fn stop_speaking(self, namespace: u8) -> Result<SpeechState, (Code, Seq<char>)> {
        if self.active is Some && self.active->0.utterance.namespace == namespace {
            Ok(self.hushed())
        } else {
            match waiting_index(self.waiting, namespace) {
                Some(i) => Ok(self.without(i)),
                None => Err(
                    (Code::NothingActive, "nothing of this agent's is speaking or queued"@),
                ),
            }
        }
    }

    /// What cancelling by handle does; only the owner's handles cancel.
    pub open spec fn cancel(self, namespace: u8, id: Seq<char>) -> Result<
        SpeechState,
        (Code, Seq<char>),
    > {
        if self.active is Some && self.active->0.utterance.id == id {
            if self.active->0.utterance.namespace != namespace {
                Err((Code::NotOwner, "that execution belongs to another agent"@))
            } else {
                Ok(self.hushed())
            }
        } else {
            match handle_index(self.waiting, id) {
                Some(i) => if self.waiting[i].namespace != namespace {
                    Err((Code::NotOwner, "that execution belongs to another agent"@))
                } else {
                    Ok(self.without(i))
                },
                None => Err(
                    (
                        Code::UnknownId,
                        "no live execution carries that handle (finished, cancelled, or never started)"@,
                    ),
                ),
            }
        }
    }

    /// An agent's waiting utterance is dropped; its voice, if it has it, stays.
    pub open spec fn clear_namespace(self, namespace: u8) -> SpeechState {
        match waiting_index(self.waiting, namespace) {
            Some(i) => self.without(i),
            None => self,
        }
    }
}

/// The row that shows a speaking utterance to its owner.
pub open spec fn active_row(item: SpeechItem, active: ActiveView, now: u64) -> bool {
    &&& item.id@ == active.utterance.id
    &&& item.text@ == active.utterance.text
    &&& token_view(item.from) == active.utterance.from
    &&& item.duration_ms == active.utterance.duration / NANOS_PER_MS
    &&& item.status == SpeechStatus::Active {
        remaining_ms: (remaining(active, now) / NANOS_PER_MS as nat) as u64,
    }
}

/// The row that shows the utterance waiting at `index` to its owner.
pub open spec fn waiting_row(item: SpeechItem, state: SpeechState, index: int, now: u64) -> bool {
    let utterance = state.waiting[index];
    &&& item.id@ == utterance.id
    &&& item.text@ == utterance.text
    &&& token_view(item.from) == utterance.from
    &&& item.duration_ms == utterance.duration / NANOS_PER_MS
    &&& item.status == SpeechStatus::Queued {
        position: state.position(index) as usize,
        eta_ms: (state.eta(index, now) / NANOS_PER_MS as nat) as u64,
    }
}

/// The rows that an agent sees of its own speech: the voice if it has it,
/// then its waiting utterance.
pub open spec fn shows_own_speech(
    items: Seq<SpeechItem>,
    state: SpeechState,
    namespace: u8,
    now: u64,
) -> bool {
    let speaks = state.active is Some && state.active->0.utterance.namespace == namespace;
    let waits = waiting_index(state.waiting, namespace);
    let first = if speaks {
        1int
    } else {
        0int
    };
    &&& items.len() == first + if waits is Some {
        1int
    } else {
        0int
    }
    &&& speaks ==> active_row(items[0], state.active->0, now)
    &&& waits is Some ==> waiting_row(items[first], state, waits->0, now)
}

/// An agent's waiting index is that of its first utterance, and is missing
/// only where it has none.
pub proof fn lemma_waiting_index(waiting: Seq<UtteranceView>, namespace: u8)
    ensures
        match waiting_index(waiting, namespace) {
            Some(i) => 0 <= i < waiting.len() && waiting[i].namespace == namespace && forall|j: int|
                0 <= j < i ==> #[trigger] waiting[j].namespace != namespace,
            None => forall|j: int|
                0 <= j < waiting.len() ==> #[trigger] waiting[j].namespace != namespace,
        },
    decreases waiting.len(),
{
    if waiting.len() > 0 {
        lemma_waiting_index(waiting.drop_last(), namespace);
        assert forall|j: int| 0 <= j < waiting.len() - 1 implies #[trigger] waiting[j]
            == waiting.drop_last()[j] by {}
    }
}

/// A handle's index is the first that has it, and is missing only where none
/// does.
pub proof fn lemma_handle_index(waiting: Seq<UtteranceView>, id: Seq<char>)
    ensures
        match handle_index(waiting, id) {
            Some(i) => 0 <= i < waiting.len() && waiting[i].id == id && forall|j: int|
                0 <= j < i ==> #[trigger] waiting[j].id != id,
            None => forall|j: int| 0 <= j < waiting.len() ==> #[trigger] waiting[j].id != id,
        },
    decreases waiting.len(),
{
    if waiting.len() > 0 {
        lemma_handle_index(waiting.drop_last(), id);
        assert forall|j: int| 0 <= j < waiting.len() - 1 implies #[trigger] waiting[j]
            == waiting.drop_last()[j] by {}
    }
}

proof fn lemma_total_duration_bound(run: Seq<UtteranceView>)
    ensures
        total_duration(run) <= run.len() * u64::MAX,
    decreases run.len(),
{
    if run.len() > 0 {
        lemma_total_duration_bound(run.drop_last());
        assert(run.len() * u64::MAX == (run.len() - 1) * u64::MAX + u64::MAX) by (nonlinear_arith);
    }
}

/// Something that happens to a speech queue.
pub enum SpeechEvent {
    /// An agent speaks.
    Speak(UtteranceView, u64),
    /// A frame passes.
    Tick(u64),
    /// An agent stops its own speech.
    Stop(u8),
    /// An agent cancels by handle.
    Cancel(u8, Seq<char>),
    /// An agent's waiting speech is cleared.
    ClearNamespace(u8),
    /// All speech is cleared.
    ClearAll,
}

impl SpeechState {
    /// The queue after an event.
    pub open spec fn after(self, event: SpeechEvent) -> SpeechState {
        match event {
            SpeechEvent::Speak(utterance, now) => match self.admission(utterance, now) {
                Ok((next, _)) => next,
                Err(_) => self,
            },
            SpeechEvent::Tick(now) => self.tick(now),
            SpeechEvent::Stop(namespace) => match self.stop_speaking(namespace) {
                Ok(next) => next,
                Err(_) => self,
            },
            SpeechEvent::Cancel(namespace, id) => match self.cancel(namespace, id) {
                Ok(next) => next,
                Err(_) => self,
            },
            SpeechEvent::ClearNamespace(namespace) => self.clear_namespace(namespace),
            SpeechEvent::ClearAll => SpeechState::silent(),
        }
    }

    /// The index of the waiting utterance that an event takes out of the
    /// queue, if it takes one out and leaves the others.
    pub open spec fn removed_by(self, event: SpeechEvent) -> Option<int> {
        match event {
            SpeechEvent::Speak(_, _) => None,
            SpeechEvent::Tick(now) => if self.tick(now) != self && self.waiting.len() > 0 {
                Some(0int)
            } else {
                None
            },
            SpeechEvent::Stop(namespace) => if self.active is Some
                && self.active->0.utterance.namespace == namespace {
                None
            } else {
                waiting_index(self.waiting, namespace)
            },
            SpeechEvent::Cancel(namespace, id) => if self.active is Some
                && self.active->0.utterance.id == id {
                None
            } else {
                match handle_index(self.waiting, id) {
                    Some(i) if self.waiting[i].namespace == namespace => Some(i),
                    _ => None,
                }
            },
            SpeechEvent::ClearNamespace(namespace) => waiting_index(self.waiting, namespace),
            SpeechEvent::ClearAll => None,
        }
    }

    /// Where the utterance waiting at `index` waits after an event, or `None`
    /// when it waits no longer.
    pub open spec fn moved(self, event: SpeechEvent, index: int) -> Option<int> {
        if event is ClearAll {
            None
        } else {
            match self.removed_by(event) {
                Some(gone) => if gone == index {
                    None
                } else if gone < index {
                    Some(index - 1)
                } else {
                    Some(index)
                },
                None => Some(index),
            }
        }
    }

    /// Whether an event gives the voice to a waiting utterance.
    pub open spec fn promotes(self, event: SpeechEvent) -> bool {
        event is Tick && self.removed_by(event) is Some
    }

    /// The queue after a run of events.
    pub open spec fn run(self, events: Seq<SpeechEvent>) -> SpeechState
        decreases events.len(),
    {
        if events.len() == 0 {
            self
        } else {
            self.run(events.drop_last()).after(events.last())
        }
    }

    /// How many waiting utterances take the voice in a run of events.
    pub open spec fn promotions(self, events: Seq<SpeechEvent>) -> nat
        decreases events.len(),
    {
        if events.len() == 0 {
            0
        } else {
            self.promotions(events.drop_last()) + if self.run(events.drop_last()).promotes(
                events.last(),
            ) {
                1nat
            } else {
                0nat
            }
        }
    }

    /// Where the utterance waiting at `index` waits after a run of events, or
    /// `None` when it took the voice or left on the way.
    pub open spec fn carried(self, events: Seq<SpeechEvent>, index: int) -> Option<int>
        decreases events.len(),
    {
        if events.len() == 0 {
            Some(index)
        } else {
            match self.carried(events.drop_last(), index) {
                Some(i) => self.run(events.drop_last()).moved(events.last(), i),
                None => None,
            }
        }
    }
}

/// Every event keeps the caps.
pub proof fn law_caps_hold(state: SpeechState, event: SpeechEvent)
    requires
        state.wf(),
    ensures
        state.after(event).wf(),
{
    match event {
        SpeechEvent::Speak(utterance, now) => {
            lemma_waiting_index(state.waiting, utterance.namespace);
        },
        SpeechEvent::Stop(namespace) => {
            lemma_waiting_index(state.waiting, namespace);
        },
        SpeechEvent::Cancel(namespace, id) => {
            lemma_handle_index(state.waiting, id);
        },
        SpeechEvent::ClearNamespace(namespace) => {
            lemma_waiting_index(state.waiting, namespace);
        },
        _ => {},
    }
}

/// Whether an event is an agent's act on its own speech.
pub open spec fn own_act(event: SpeechEvent, namespace: u8) -> bool {
    match event {
        SpeechEvent::Stop(n) => n == namespace,
        SpeechEvent::Cancel(n, _) => n == namespace,
        SpeechEvent::ClearNamespace(n) => n == namespace,
        _ => false,
    }
}

/// An event never moves a waiting utterance back, moves it one place forward
/// when it gives the voice to another, and leaves the utterance as it is. An
/// utterance stops waiting only by taking the voice, by an act on its own
/// agent's speech, or when all speech is cleared.
pub proof fn law_seniority_is_kept(state: SpeechState, event: SpeechEvent, index: int)
    requires
        state.wf(),
        0 <= index < state.waiting.len(),
    ensures
        match state.moved(event, index) {
            Some(place) => {
                &&& 0 <= place <= index
                &&& place < state.after(event).waiting.len()
                &&& state.after(event).waiting[place] == state.waiting[index]
                &&& state.promotes(event) ==> place == index - 1
            },
            None => {
                ||| {
                    &&& state.promotes(event)
                    &&& index == 0
                    &&& state.after(event).active is Some
                    &&& state.after(event).active->0.utterance == state.waiting[index]
                }
                ||| own_act(event, state.waiting[index].namespace)
                ||| event is ClearAll
            },
        },
{
    match event {
        SpeechEvent::Stop(namespace) => {
            lemma_waiting_index(state.waiting, namespace);
        },
        SpeechEvent::Cancel(namespace, id) => {
            lemma_handle_index(state.waiting, id);
        },
        SpeechEvent::ClearNamespace(namespace) => {
            lemma_waiting_index(state.waiting, namespace);
        },
        _ => {},
    }
}

proof fn lemma_carried(state: SpeechState, events: Seq<SpeechEvent>, index: int)
    requires
        state.wf(),
        0 <= index < state.waiting.len(),
    ensures
        state.run(events).wf(),
        match state.carried(events, index) {
            Some(place) => {
                &&& 0 <= place < state.run(events).waiting.len()
                &&& state.run(events).waiting[place] == state.waiting[index]
                &&& place + state.promotions(events) <= index
            },
            None => true,
        },
    decreases events.len(),
{
    if events.len() > 0 {
        let before = events.drop_last();
        lemma_carried(state, before, index);
        law_caps_hold(state.run(before), events.last());
        if let Some(place) = state.carried(before, index) {
            law_seniority_is_kept(state.run(before), events.last(), place);
        }
    }
}

/// The start bound: whatever the agents do, as long as an utterance waits, no
/// more utterances take the voice before it than were waiting ahead of it, and
/// under the caps those are at most three.
pub proof fn law_start_bound(state: SpeechState, events: Seq<SpeechEvent>, index: int)
    requires
        state.wf(),
        0 <= index < state.waiting.len(),
        state.carried(events, index) is Some,
    ensures
        state.promotions(events) <= index <= 3,
{
    lemma_carried(state, events, index);
}

proof fn lemma_total_duration_capped(run: Seq<UtteranceView>, cap: nat)
    requires
        forall|i: int| 0 <= i < run.len() ==> #[trigger] run[i].duration <= cap,
    ensures
        total_duration(run) <= run.len() * cap,
    decreases run.len(),
{
    if run.len() > 0 {
        lemma_total_duration_capped(run.drop_last(), cap);
        assert(run.len() * cap == (run.len() - 1) * cap + cap) by (nonlinear_arith)
            requires
                run.len() > 0,
        ;
    }
}

/// The wait bound: with every duration within the ceiling, a waiting utterance
/// is forecast to wait no longer than the voice has left plus three utterances
/// of the ceiling's length.
pub proof fn law_wait_bound(state: SpeechState, index: int, now: u64)
    requires
        state.wf(),
        0 <= index < state.waiting.len(),
        forall|i: int|
            0 <= i < state.waiting.len() ==> #[trigger] state.waiting[i].duration
                <= MAX_UTTERANCE_MS * NANOS_PER_MS,
    ensures
        state.eta(index, now) <= 3 * MAX_UTTERANCE_MS * NANOS_PER_MS + match state.active {
            Some(active) => remaining(active, now),
            None => 0,
        },
{
    let ahead = state.waiting.take(index);
    let cap = (MAX_UTTERANCE_MS * NANOS_PER_MS) as nat;
    assert forall|i: int| 0 <= i < ahead.len() implies #[trigger] ahead[i].duration <= cap by {
        assert(ahead[i] == state.waiting[i]);
    }
    lemma_total_duration_capped(ahead, cap);
    assert(index * cap <= 3 * cap) by (nonlinear_arith)
        requires
            0 <= index <= 3,
    ;
}

impl SpeechQueue {
    /// The caps hold.
    pub open spec fn wf(&self) -> bool {
        self@.wf()
    }

    /// A queue in which nobody speaks or waits.
    pub fn new() -> (queue: SpeechQueue)
        ensures
            queue.wf(),
            queue@ == SpeechState::silent(),
    {
        let queue = SpeechQueue { active: None, waiting: Vec::new() };
        assert(queue@.waiting =~= Seq::empty());
        queue
    }

    fn find_namespace(&self, namespace: u8) -> (found: Option<usize>)
        requires
            self.wf(),
        ensures
            match found {
                Some(i) => waiting_index(self@.waiting, namespace) == Some(i as int),
                None => waiting_index(self@.waiting, namespace) is None,
            },
    {
        proof {
            lemma_waiting_index(self@.waiting, namespace);
        }
        let mut i: usize = 0;
        while i < self.waiting.len()
            invariant
                i <= self.waiting.len(),
                self.waiting.len() == self@.waiting.len(),
                forall|j: int|
                    0 <= j < i ==> #[trigger] self@.waiting[j].namespace != namespace,
                match waiting_index(self@.waiting, namespace) {
                    Some(k) => 0 <= k < self@.waiting.len() && self@.waiting[k].namespace
                        == namespace && forall|j: int|
                        0 <= j < k ==> #[trigger] self@.waiting[j].namespace != namespace,
                    None => forall|j: int|
                        0 <= j < self@.waiting.len() ==> #[trigger] self@.waiting[j].namespace
                            != namespace,
                },
            decreases self.waiting.len() - i,
        {
            assert(self@.waiting[i as int] == self.waiting@[i as int]@);
            if self.waiting[i].namespace == namespace {
                assert(self@.waiting[i as int].namespace == namespace);
                return Some(i);
            }
            i += 1;
        }
        None
    }

    fn find_handle(&self, id: &str) -> (found: Option<usize>)
        requires
            self.wf(),
        ensures
            match found {
                Some(i) => handle_index(self@.waiting, id@) == Some(i as int),
                None => handle_index(self@.waiting, id@) is None,
            },
    {
        proof {
            lemma_handle_index(self@.waiting, id@);
        }
        let mut i: usize = 0;
        while i < self.waiting.len()
            invariant
                i <= self.waiting.len(),
                self.waiting.len() == self@.waiting.len(),
                forall|j: int| 0 <= j < i ==> #[trigger] self@.waiting[j].id != id@,
                match handle_index(self@.waiting, id@) {
                    Some(k) => 0 <= k < self@.waiting.len() && self@.waiting[k].id == id@
                        && forall|j: int|
                        0 <= j < k ==> #[trigger] self@.waiting[j].id != id@,
                    None => forall|j: int|
                        0 <= j < self@.waiting.len() ==> #[trigger] self@.waiting[j].id != id@,
                },
            decreases self.waiting.len() - i,
        {
            assert(self@.waiting[i as int] == self.waiting@[i as int]@);
            if same_text(&self.waiting[i].id, id) {
                assert(self@.waiting[i as int].id == id@);
                return Some(i);
            }
            i += 1;
        }
        None
    }

    /// The position and the wait of the utterance waiting at `index`.
    fn forecast(&self, index: usize, now: u64) -> (ahead: (usize, u128))
        requires
            self.wf(),
            index <= self@.waiting.len(),
        ensures
            ahead.0 == self@.position(index as int),
            ahead.1 == self@.eta(index as int, now),
            ahead.1 <= 6 * u64::MAX,
    {
        let mut position: usize = index;
        let mut eta: u128 = 0;
        if let Some(active) = &self.active {
            position += 1;
            let end: u128 = active.started as u128 + active.utterance.duration as u128;
            if end > now as u128 {
                eta = end - now as u128;
            }
        }
        let ghost voice: nat = eta as nat;
        let mut i: usize = 0;
        while i < index
            invariant
                i <= index <= self@.waiting.len() <= 4,
                voice <= 2 * u64::MAX,
                eta == voice + total_duration(self@.waiting.take(i as int)),
            decreases index - i,
        {
            proof {
                let next = self@.waiting.take(i + 1);
                assert(next.drop_last() =~= self@.waiting.take(i as int));
                lemma_total_duration_bound(next);
                assert(next.len() * u64::MAX <= 4 * u64::MAX) by (nonlinear_arith)
                    requires
                        next.len() <= 4,
                ;
            }
            eta += self.waiting[i].duration as u128;
            i += 1;
        }
        proof {
            lemma_total_duration_bound(self@.waiting.take(index as int));
            assert(index * u64::MAX <= 4 * u64::MAX) by (nonlinear_arith)
                requires
                    index <= 4,
            ;
        }
        (position, eta)
    }

    /// Admits one utterance. It takes the voice at once only when nobody
    /// speaks and nobody waits, so a cancel never lets a newcomer jump the
    /// queue.
    pub fn admit_utterance(&mut self, utterance: Utterance, now: u64) -> (admission: Result<
        SpeakAdmission,
        Reject,
    >)
        requires
            old(self).wf(),
        ensures
            final(self).wf(),
            match admission {
                Ok(how) => old(self)@.admission(utterance@, now) == Ok::<
                    (SpeechState, SpeakAdmission),
                    (Code, Seq<char>),
                >((final(self)@, how)),
                Err(reject) => final(self)@ == old(self)@ && old(self)@.admission(utterance@, now)
                    == Err::<(SpeechState, SpeakAdmission), (Code, Seq<char>)>(reject@),
            },
    {
        proof {
            lemma_waiting_index(self@.waiting, utterance.namespace);
        }
        if self.find_namespace(utterance.namespace).is_some() {
            return Err(
                Reject::new(
                    Code::AgentQueueFull,
                    "this agent already has its maximum pending utterances queued",
                ),
            );
        }
        if self.active.is_none() && self.waiting.len() == 0 {
            self.active = Some(ActiveUtterance { utterance, started: now });
            return Ok(SpeakAdmission::Started);
        }
        if self.waiting.len() >= MAX_PENDING_UTTERANCES_GLOBAL {
            return Err(
                Reject::new(Code::Busy, "the avatar speech queue is at its global pending cap"),
            );
        }
        let index: usize = self.waiting.len();
        let (position, eta) = self.forecast(index, now);
        let ghost before = self@.waiting;
        self.waiting.push(utterance);
        assert(self@.waiting =~= before.push(utterance@));
        Ok(SpeakAdmission::Queued { position, eta })
    }

    fn promote(&mut self, now: u64)
        requires
            old(self).wf(),
        ensures
            final(self).wf(),
            final(self)@ == old(self)@.promoted(now),
    {
        self.active = None;
        if self.waiting.len() > 0 {
            let utterance = self.waiting.remove(0);
            assert(self@.waiting =~= old(self)@.waiting.drop_first());
            self.active = Some(ActiveUtterance { utterance, started: now });
        }
    }

    /// Frame tick: expires the active utterance at its pinned duration, then
    /// promotes; also promotes when a cancel left the voice free.
    pub fn tick(&mut self, now: u64)
        requires
            old(self).wf(),
        ensures
            final(self).wf(),
            final(self)@ == old(self)@.tick(now),
    {
        let due: bool = match &self.active {
            Some(active) => now as u128 >= active.started as u128
                + active.utterance.duration as u128,
            None => true,
        };
        if due {
            self.promote(now);
        }
    }

    fn drop_waiting(&mut self, index: usize)
        requires
            old(self).wf(),
            index < old(self)@.waiting.len(),
        ensures
            final(self).wf(),
            final(self)@ == old(self)@.without(index as int),
    {
        self.waiting.remove(index);
        assert(self@.waiting =~= old(self)@.waiting.remove(index as int));
    }

    /// Cancels the caller's active utterance if the caller holds the voice,
    /// else the caller's waiting one. The next speaker is promoted by the
    /// next tick, never here.
    pub fn stop_speaking(&mut self, namespace: u8) -> (stopped: Result<(), Reject>)
        requires
            old(self).wf(),
        ensures
            final(self).wf(),
            match stopped {
                Ok(_) => old(self)@.stop_speaking(namespace) == Ok::<
                    SpeechState,
                    (Code, Seq<char>),
                >(final(self)@),
                Err(reject) => final(self)@ == old(self)@ && old(self)@.stop_speaking(namespace)
                    == Err::<SpeechState, (Code, Seq<char>)>(reject@),
            },
    {
        if let Some(active) = &self.active {
            if active.utterance.namespace == namespace {
                self.active = None;
                return Ok(());
            }
        }
        proof {
            lemma_waiting_index(self@.waiting, namespace);
        }
        match self.find_namespace(namespace) {
            Some(i) => {
                self.drop_waiting(i);
                Ok(())
            },
            None => Err(
                Reject::new(Code::NothingActive, "nothing of this agent's is speaking or queued"),
            ),
        }
    }

    /// Cancels one utterance by execution handle; only the owner's handles
    /// are cancellable.
    pub fn cancel(&mut self, namespace: u8, execution_id: &str) -> (cancelled: Result<(), Reject>)
        requires
            old(self).wf(),
        ensures
            final(self).wf(),
            match cancelled {
                Ok(_) => old(self)@.cancel(namespace, execution_id@) == Ok::<
                    SpeechState,
                    (Code, Seq<char>),
                >(final(self)@),
                Err(reject) => final(self)@ == old(self)@ && old(self)@.cancel(
                    namespace,
                    execution_id@,
                ) == Err::<SpeechState, (Code, Seq<char>)>(reject@),
            },
    {
        if let Some(active) = &self.active {
            if same_text(&active.utterance.id, execution_id) {
                if active.utterance.namespace != namespace {
                    return Err(
                        Reject::new(Code::NotOwner, "that execution belongs to another agent"),
                    );
                }
                self.active = None;
                return Ok(());
            }
        }
        proof {
            lemma_handle_index(self@.waiting, execution_id@);
        }
        match self.find_handle(execution_id) {
            Some(i) => {
                if self.waiting[i].namespace != namespace {
                    return Err(
                        Reject::new(Code::NotOwner, "that execution belongs to another agent"),
                    );
                }
                self.drop_waiting(i);
                Ok(())
            },
            None => Err(
                Reject::new(
                    Code::UnknownId,
                    "no live execution carries that handle (finished, cancelled, or never started)",
                ),
            ),
        }
    }

    /// Drops one namespace's pending utterances; its active utterance, if
    /// any, keeps the voice.
    pub fn clear_namespace(&mut self, namespace: u8)
        requires
            old(self).wf(),
        ensures
            final(self).wf(),
            final(self)@ == old(self)@.clear_namespace(namespace),
    {
        proof {
            lemma_waiting_index(self@.waiting, namespace);
        }
        if let Some(i) = self.find_namespace(namespace) {
            self.drop_waiting(i);
        }
    }

    /// Cancels the current utterance and clears the whole queue.
    pub fn clear_all(&mut self)
        ensures
            final(self).wf(),
            final(self)@ == SpeechState::silent(),
    {
        self.active = None;
        self.waiting.clear();
        assert(self@.waiting =~= Seq::empty());
    }

    /// Whether an utterance is live or pending.
    pub fn has_speech(&self) -> (speaks: bool)
        ensures
            speaks == (self@.active is Some || self@.waiting.len() > 0),
    {
        self.active.is_some() || self.waiting.len() > 0
    }

    /// The active utterance, if any.
    pub fn active(&self) -> (active: Option<&ActiveUtterance>)
        ensures
            match active {
                Some(voice) => self@.active == Some(voice@),
                None => self@.active is None,
            },
    {
        self.active.as_ref()
    }

    /// Pending utterances across all agents; the active one is not counted.
    pub fn queue_depth(&self) -> (depth: usize)
        ensures
            depth == self@.waiting.len(),
    {
        self.waiting.len()
    }

    /// The caller's own executions: its active and its waiting utterance,
    /// text included. Other agents' speech is never shown.
    pub fn execution_items(&self, namespace: u8, now: u64) -> (items: Vec<SpeechItem>)
        requires
            self.wf(),
        ensures
            shows_own_speech(items@, self@, namespace, now),
    {
        let mut items: Vec<SpeechItem> = Vec::new();
        if let Some(active) = &self.active {
            if active.utterance.namespace == namespace {
                let end: u128 = active.started as u128 + active.utterance.duration as u128;
                let left: u128 = if end > now as u128 {
                    end - now as u128
                } else {
                    0
                };
                let remaining_ms: u64 = (left / (NANOS_PER_MS as u128)) as u64;
                items.push(
                    SpeechItem {
                        id: active.utterance.id.clone(),
                        text: active.utterance.text.clone(),
                        from: active.utterance.from.clone(),
                        duration_ms: active.utterance.duration / NANOS_PER_MS,
                        status: SpeechStatus::Active { remaining_ms },
                    },
                );
            }
        }
        proof {
            lemma_waiting_index(self@.waiting, namespace);
        }
        if let Some(i) = self.find_namespace(namespace) {
            let (position, eta) = self.forecast(i, now);
            let utterance = &self.waiting[i];
            let eta_ms: u64 = (eta / (NANOS_PER_MS as u128)) as u64;
            items.push(
                SpeechItem {
                    id: utterance.id.clone(),
                    text: utterance.text.clone(),
                    from: utterance.from.clone(),
                    duration_ms: utterance.duration / NANOS_PER_MS,
                    status: SpeechStatus::Queued { position, eta_ms },
                },
            );
        }
        items
    }
}

impl Default for SpeechQueue {
    fn default() -> (queue: Self)
        ensures
            queue.wf(),
            queue@ == SpeechState::silent(),
    {
        SpeechQueue::new()
    }
}

/// What speaking does. An agent that waits already is refused; on a silent
/// stage the utterance has the voice at once, from now on; else it waits behind
/// the others, of whom there are at most three, and is told how many are before
/// it and how long they take.
pub proof fn law_speaking_takes_its_turn(
    state: SpeechState,
    utterance: UtteranceView,
    now: u64,
    waits: bool,
)
    requires
        state.wf(),
        waits <==> exists|i: int| 0 <= i < state.waiting.len() && (
        #[trigger] state.waiting[i]).namespace == utterance.namespace,
    ensures
        ({
            let outcome = state.admission(utterance, now);
            let quiet = state.active is None && state.waiting.len() == 0;
            &&& outcome is Ok <==> !waits && (quiet || state.waiting.len() < 4)
            &&& outcome matches Err(refusal) ==> refusal.0 == (if waits {
                Code::AgentQueueFull
            } else {
                Code::Busy
            })
            &&& outcome matches Ok((after, told)) ==> {
                &&& quiet ==> {
                    &&& told is Started
                    &&& after.active is Some && after.active->0.utterance == utterance
                        && after.active->0.started == now
                    &&& after.waiting.len() == 0
                }
                &&& !quiet ==> {
                    &&& after.active == state.active
                    &&& after.waiting == state.waiting.push(utterance)
                    &&& told is Queued
                    &&& told->position == state.waiting.len() + (if state.active is Some {
                        1int
                    } else {
                        0
                    })
                }
            }
        }),
{
    lemma_waiting_index(state.waiting, utterance.namespace);
    if let Some(i) = waiting_index(state.waiting, utterance.namespace) {
        assert(state.waiting[i].namespace == utterance.namespace);
    }
}

/// How long an utterance waits: for what is left of the one that has the voice,
/// and for each that waits before it as long as that one lasts.
pub proof fn law_waits_add_up(state: SpeechState, index: int, now: u64)
    requires
        0 <= index < state.waiting.len(),
    ensures
        state.active is None ==> state.eta(0, now) == 0,
        state.active matches Some(active) ==> (active.started + active.utterance.duration >= now
            ==> state.eta(0, now) == active.started + active.utterance.duration - now) && (
        active.started + active.utterance.duration < now ==> state.eta(0, now) == 0),
        state.eta(index + 1, now) == state.eta(index, now) + state.waiting[index].duration,
{
    assert(state.waiting.take(0) =~= Seq::empty());
    assert(state.waiting.take(index + 1).drop_last() =~= state.waiting.take(index));
}

/// The estimate that a waiting utterance is told is how long it waits.
pub proof fn law_the_estimate_is_the_wait(state: SpeechState, utterance: UtteranceView, now: u64)
    requires
        state.wf(),
    ensures
        state.admission(utterance, now) matches Ok((after, SpeakAdmission::Queued {
            position,
            eta,
        })) ==> eta == after.eta(after.waiting.len() - 1, now) && position == after.position(
            after.waiting.len() - 1,
        ),
{
    if let Ok((after, SpeakAdmission::Queued { position, eta })) = state.admission(utterance, now) {
        let index = state.waiting.len() as int;
        assert(after.waiting.take(index) =~= state.waiting.take(index));
        lemma_total_duration_bound(state.waiting.take(index));
        assert(state.waiting.take(index).len() * u64::MAX <= 4 * u64::MAX) by (nonlinear_arith)
            requires
                state.waiting.take(index).len() <= 4,
        ;
        assert(state.eta(index, now) <= u128::MAX);
    }
}

/// What a frame does: an utterance keeps the voice as long as it lasts and not
/// longer; then the first that waits has it, from now on, and the others move
/// up.
pub proof fn law_turns_end_in_time(state: SpeechState, now: u64)
    ensures
        ({
            let after = state.tick(now);
            let lasts = state.active is Some && now < state.active->0.started
                + state.active->0.utterance.duration;
            &&& lasts ==> after == state
            &&& !lasts && state.waiting.len() == 0 ==> after.active is None && after.waiting.len()
                == 0
            &&& !lasts && state.waiting.len() > 0 ==> {
                &&& after.active is Some
                &&& after.active->0.utterance == state.waiting[0]
                &&& after.active->0.started == now
                &&& after.waiting == state.waiting.subrange(1, state.waiting.len() as int)
            }
        }),
{
    if state.waiting.len() > 0 {
        assert(state.waiting.drop_first() =~= state.waiting.subrange(
            1,
            state.waiting.len() as int,
        ));
    }
}

/// What stopping, cancelling and clearing take: stopping takes the caller's own
/// voice, or else what it has waiting; cancelling takes the utterance with the
/// handle, if it is the caller's own; clearing takes what an agent has waiting.
/// Nobody else moves but up.
pub proof fn law_what_an_agent_takes_back(
    state: SpeechState,
    namespace: u8,
    id: Seq<char>,
    at: int,
)
    requires
        state.wf(),
        0 <= at < state.waiting.len(),
    ensures
        ({
            let speaks = state.active is Some && state.active->0.utterance.namespace == namespace;
            let heard = state.active is Some && state.active->0.utterance.id == id;
            let own = state.waiting[at].namespace == namespace;
            let first = state.waiting[at].id == id && forall|j: int|
                0 <= j < at ==> (#[trigger] state.waiting[j]).id != id;
            &&& speaks ==> (state.stop_speaking(namespace) matches Ok(after) && after.active is None
                && after.waiting == state.waiting)
            &&& !speaks && own ==> (state.stop_speaking(namespace) matches Ok(after) && after.active
                == state.active && after.waiting == state.waiting.remove(at))
            &&& heard && speaks ==> (state.cancel(namespace, id) matches Ok(after)
                && after.active is None && after.waiting == state.waiting)
            &&& heard && !speaks ==> (state.cancel(namespace, id) matches Err(refusal) && refusal.0
                == Code::NotOwner)
            &&& !heard && first && own ==> (state.cancel(namespace, id) matches Ok(after)
                && after.active == state.active && after.waiting == state.waiting.remove(at))
            &&& !heard && first && !own ==> (state.cancel(namespace, id) matches Err(refusal)
                && refusal.0 == Code::NotOwner)
            &&& own ==> state.clear_namespace(namespace).waiting == state.waiting.remove(at)
            &&& state.clear_namespace(namespace).active == state.active
        }),
{
    lemma_waiting_index(state.waiting, namespace);
    lemma_handle_index(state.waiting, id);
    if state.waiting[at].namespace == namespace {
        let i = waiting_index(state.waiting, namespace)->0;
        assert(i == at) by {
            if i < at {
                assert(state.waiting[i].namespace != state.waiting[at].namespace);
            }
        }
    }
}

/// An agent that has nothing in line cannot stop or cancel anything.
pub proof fn law_nothing_to_take_back(state: SpeechState, namespace: u8, id: Seq<char>)
    ensures
        !(state.active is Some && state.active->0.utterance.namespace == namespace) && (forall|
            i: int,
        |
            0 <= i < state.waiting.len() ==> (#[trigger] state.waiting[i]).namespace != namespace)
            ==> (state.stop_speaking(namespace) matches Err(refusal) && refusal.0
            == Code::NothingActive) && state.clear_namespace(namespace) == state,
        !(state.active is Some && state.active->0.utterance.id == id) && (forall|i: int|
            0 <= i < state.waiting.len() ==> (#[trigger] state.waiting[i]).id != id) ==> (
        state.cancel(namespace, id) matches Err(refusal) && refusal.0 == Code::UnknownId),
{
    lemma_waiting_index(state.waiting, namespace);
    lemma_handle_index(state.waiting, id);
}

/// What the rows of an agent's own speech show: what it says and under which
/// handle, how long it takes in milliseconds, and what is left of it, or how
/// many are before it and how long they take.
pub proof fn law_rows_show_ones_own_speech(
    items: Seq<SpeechItem>,
    state: SpeechState,
    namespace: u8,
    now: u64,
    at: int,
)
    requires
        state.wf(),
        shows_own_speech(items, state, namespace, now),
    ensures
        ({
            let speaks = state.active is Some && state.active->0.utterance.namespace == namespace;
            let waits = 0 <= at < state.waiting.len() && state.waiting[at].namespace == namespace;
            &&& speaks ==> {
                let (row, said) = (items[0], state.active->0.utterance);
                &&& items.len() >= 1
                &&& row.id@ == said.id && row.text@ == said.text && row.duration_ms
                    == said.duration / 1_000_000
                &&& row.status matches SpeechStatus::Active { remaining_ms } && remaining_ms == (
                remaining(state.active->0, now) / 1_000_000) as u64
            }
            &&& waits ==> {
                let (row, said) = (items.last(), state.waiting[at]);
                &&& items.len() >= 1
                &&& row.id@ == said.id && row.text@ == said.text && row.duration_ms
                    == said.duration / 1_000_000
                &&& row.status matches SpeechStatus::Queued { position, eta_ms } && position == (at
                    + (if state.active is Some {
                    1int
                } else {
                    0
                })) as usize && eta_ms == (state.eta(at, now) / 1_000_000) as u64
            }
            &&& !speaks && (forall|i: int|
                0 <= i < state.waiting.len() ==> (#[trigger] state.waiting[i]).namespace
                    != namespace) ==> items.len() == 0
        }),
{
    lemma_waiting_index(state.waiting, namespace);
    if 0 <= at < state.waiting.len() && state.waiting[at].namespace == namespace {
        let i = waiting_index(state.waiting, namespace)->0;
        assert(i == at) by {
            if i < at {
                assert(state.waiting[i].namespace != state.waiting[at].namespace);
            }
        }
    }
}

} // verus!
