//! The avatar's overlay: what is decided before anything is painted.
//!
//! The bubble types its text out. How much is revealed is a byte offset into
//! the text, and a cluster of glyphs shows only once its last byte is revealed,
//! so that nothing is ever half drawn.

use std::collections::hash_map::DefaultHasher;
use std::collections::HashMap;
use std::hash::Hasher;
use vstd::prelude::*;
use vstd::std_specs::hash::DefaultHasherAdditionalSpecFns;
use vstd::utf8::encode_utf8;
use crate::avatar::{ActiveGesture, AvatarAnchor, AvatarScene, AvatarState};
use crate::number::Single;
use crate::query::token_view;
use crate::text::{byte_len, chars_of, decimal, decimal_text, string_from, text_byte_len};

verus! {

broadcast use vstd::std_specs::hash::group_hash_axioms;

/// Nanoseconds in a tenth of a second.
pub const TENTH_NANOS: u64 = 100_000_000;

/// What identifies a shaped bubble.
#[derive(Clone, Copy, Debug, PartialEq, Eq, Structural)]
pub struct BubbleKey {
    /// The hash of text and speaker.
    pub text_hash: u64,
    /// The wrap width, by its bits.
    pub wrap_bits: u32,
    /// The font size, by its bits.
    pub font_bits: u32,
}

/// The hash of text and speaker: of the bytes of each, with a mark behind.
pub open spec fn spoken_hash(text: Seq<char>, speaker: Seq<char>) -> u64 {
    DefaultHasher::spec_finish(
        seq![encode_utf8(text), seq![0xffu8], encode_utf8(speaker), seq![0xffu8]],
    )
}

/// What identifies the bubble of a text, a speaker, a wrap width and a font
/// size.
pub fn bubble_key(text: &str, speaker: &str, wrap: Single, font: Single) -> (key: BubbleKey)
    ensures
        key == (BubbleKey {
            text_hash: spoken_hash(text@, speaker@),
            wrap_bits: wrap.bits,
            font_bits: font.bits,
        }),
{
    let mark: Vec<u8> = vec![0xff];
    let mut hasher = DefaultHasher::new();
    hasher.write(text.as_bytes());
    hasher.write(mark.as_slice());
    hasher.write(speaker.as_bytes());
    hasher.write(mark.as_slice());
    proof {
        assert(mark@ =~= seq![0xffu8]);
        assert(hasher@ =~= seq![
            encode_utf8(text@),
            seq![0xffu8],
            encode_utf8(speaker@),
            seq![0xffu8],
        ]);
    }
    BubbleKey { text_hash: hasher.finish(), wrap_bits: wrap.bits, font_bits: font.bits }
}

/// The one shaped bubble that is kept.
#[derive(Debug)]
pub struct BubbleCache<L> {
    slot: Option<(BubbleKey, L)>,
}

impl<L> View for BubbleCache<L> {
    type V = Option<(BubbleKey, L)>;

    closed spec fn view(&self) -> Option<(BubbleKey, L)> {
        self.slot
    }
}

impl<L> BubbleCache<L> {
    /// Nothing is kept.
    pub fn new() -> (cache: BubbleCache<L>)
        ensures
            cache@ is None,
    {
        BubbleCache { slot: None }
    }

    /// The kept bubble, if it is the one.
    pub fn get(&self, key: BubbleKey) -> (bubble: Option<&L>)
        ensures
            match bubble {
                Some(bubble) => self@ == Some((key, *bubble)),
                None => self@ matches Some((kept, _)) ==> kept != key,
            },
    {
        match &self.slot {
            Some((kept, bubble)) => if *kept == key {
                Some(bubble)
            } else {
                None
            },
            None => None,
        }
    }

    /// Keeps a bubble in place of the one before.
    pub fn keep(&mut self, key: BubbleKey, bubble: L)
        ensures
            final(self)@ == Some((key, bubble)),
    {
        self.slot = Some((key, bubble));
    }
}

/// How many bytes the first characters of a text take; all of them where there
/// are no more.
pub open spec fn revealed(text: Seq<char>, count: nat) -> nat {
    byte_len(
        if count < text.len() {
            text.take(count as int)
        } else {
            text
        },
    )
}

/// How many bytes of a text are revealed with its first characters.
pub fn revealed_bytes(text: &str, count: usize) -> (bytes: usize)
    ensures
        bytes == revealed(text@, count as nat),
{
    let chars = chars_of(text);
    if count >= chars.len() {
        return text_byte_len(text);
    }
    let mut shown: Vec<char> = Vec::new();
    let mut i: usize = 0;
    while i < count
        invariant
            i <= count < chars@.len(),
            shown@ == chars@.take(i as int),
        decreases count - i,
    {
        shown.push(chars[i]);
        assert(shown@ =~= chars@.take(i + 1));
        i += 1;
    }
    text_byte_len(&string_from(shown.as_slice()))
}

/// Whether a cluster shows: its last byte is revealed.
pub open spec fn shows(end: usize, revealed: usize) -> bool {
    end <= revealed
}

/// Whether each cluster shows, by where it ends.
pub fn shown_clusters(ends: &Vec<usize>, revealed: usize) -> (shown: Vec<bool>)
    ensures
        shown@ == ends@.map_values(|end: usize| shows(end, revealed)),
{
    let mut shown: Vec<bool> = Vec::new();
    let mut i: usize = 0;
    while i < ends.len()
        invariant
            i <= ends@.len(),
            shown@.len() == i,
            forall|j: int| 0 <= j < i ==> #[trigger] shown@[j] == shows(ends@[j], revealed),
        decreases ends.len() - i,
    {
        shown.push(ends[i] <= revealed);
        i += 1;
    }
    assert(shown@ =~= ends@.map_values(|end: usize| shows(end, revealed)));
    shown
}

/// What is shown stays shown as more is revealed.
pub proof fn law_reveal_is_monotonic(ends: Seq<usize>, less: usize, more: usize, cluster: int)
    requires
        less <= more,
        0 <= cluster < ends.len(),
    ensures
        ends.map_values(|end: usize| shows(end, less))[cluster] ==> ends.map_values(
            |end: usize| shows(end, more),
        )[cluster],
{
}

/// Nothing is half drawn: revealing part of a cluster shows exactly what
/// revealing none of it shows, as clusters do not overlap.
pub proof fn law_reveal_is_cluster_atomic(
    starts: Seq<usize>,
    ends: Seq<usize>,
    cluster: int,
    inside: usize,
)
    requires
        starts.len() == ends.len(),
        0 <= cluster < ends.len(),
        forall|i: int| 0 <= i < ends.len() ==> #[trigger] starts[i] <= ends[i],
        forall|i: int|
            0 <= i < ends.len() && i != cluster ==> #[trigger] ends[i] <= starts[cluster]
                || ends[cluster] <= starts[i],
        starts[cluster] <= inside < ends[cluster],
    ensures
        ends.map_values(|end: usize| shows(end, inside)) == ends.map_values(
            |end: usize| shows(end, starts[cluster]),
        ),
{
    assert forall|i: int| 0 <= i < ends.len() implies shows(ends[i], inside) == shows(
        ends[i],
        starts[cluster],
    ) by {
        if i != cluster {
            assert(ends[i] <= starts[cluster] || ends[cluster] <= starts[i]);
            assert(starts[i] <= ends[i]);
        }
    }
    assert(ends.map_values(|end: usize| shows(end, inside)) =~= ends.map_values(
        |end: usize| shows(end, starts[cluster]),
    ));
}

/// Who a bubble says is speaking: the name that the agent gave, or its number.
pub open spec fn speaker(from: Option<Seq<char>>, namespace: u8) -> Seq<char> {
    match from {
        Some(name) => name,
        None => "agent "@ + decimal(namespace as nat),
    }
}

/// Who a bubble says is speaking.
pub fn speaker_label(from: &Option<String>, namespace: u8) -> (label: String)
    ensures
        label@ == speaker(token_view(*from), namespace),
{
    match from {
        Some(name) => name.clone(),
        None => {
            let mut label = "agent ".to_owned();
            label.append(&decimal_text(namespace as u64));
            label
        },
    }
}

/// What the overlay does in a frame.
#[derive(Clone, Copy, Debug, PartialEq, Eq, Structural)]
pub enum OverlayStep {
    /// Nothing.
    Rest,
    /// Hide, and shrink the textures to these sides.
    Hide {
        /// The width in pixels.
        width: u32,
        /// The height in pixels.
        height: u32,
    },
    /// Show the speech, in a frame of these sides.
    Show {
        /// The width in pixels.
        width: u32,
        /// The height in pixels.
        height: u32,
    },
}

/// A side of a texture: no texture is without pixels.
pub open spec fn texture_side(physical: u32) -> u32 {
    if physical >= 1 {
        physical
    } else {
        1
    }
}

/// What the overlay does in a frame: it shows what a shown avatar says, over
/// the whole of a window of so many pixels, and hides once after it has.
pub open spec fn overlay_step(
    scene: AvatarScene,
    was_live: bool,
    physical: (u32, u32),
) -> OverlayStep {
    if scene.shown && scene.speech.active is Some {
        OverlayStep::Show { width: texture_side(physical.0), height: texture_side(physical.1) }
    } else if was_live {
        OverlayStep::Hide { width: 1, height: 1 }
    } else {
        OverlayStep::Rest
    }
}

/// Says what the overlay does in a frame, over a window of so many pixels, and
/// whether it is live afterwards.
pub fn sync_avatar_overlay(
    state: &AvatarState,
    was_live: &mut bool,
    physical: (u32, u32),
) -> (step: OverlayStep)
    ensures
        step == overlay_step(state@, *old(was_live), physical),
        *final(was_live) == (step is Show),
{
    if state.shown && state.speech.active().is_some() {
        *was_live = true;
        let width: u32 = if physical.0 >= 1 {
            physical.0
        } else {
            1
        };
        let height: u32 = if physical.1 >= 1 {
            physical.1
        } else {
            1
        };
        OverlayStep::Show { width, height }
    } else if *was_live {
        *was_live = false;
        OverlayStep::Hide { width: 1, height: 1 }
    } else {
        OverlayStep::Rest
    }
}

/// What happens to the mascot in a frame.
#[derive(Clone, Copy, Debug, PartialEq, Eq, Structural)]
pub enum MascotStep {
    /// Nothing.
    Keep,
    /// Any mascot goes, and a new one comes.
    Respawn,
    /// The mascot goes.
    Despawn,
}

/// What happens to the mascot: a shown avatar has one, built anew where it
/// must be; a hidden one has none.
pub open spec fn mascot_step(scene: AvatarScene, present: bool) -> MascotStep {
    if scene.shown && (!present || scene.needs_respawn) {
        MascotStep::Respawn
    } else if !scene.shown && present {
        MascotStep::Despawn
    } else {
        MascotStep::Keep
    }
}

/// The avatar after something happened to its mascot.
pub open spec fn mascot_settled(scene: AvatarScene, step: MascotStep) -> AvatarScene {
    AvatarScene { needs_respawn: scene.needs_respawn && step == MascotStep::Keep, ..scene }
}

/// The gesture that is still in progress at a time.
pub open spec fn gesture_left(gesture: Option<ActiveGesture>, now: u64) -> Option<ActiveGesture> {
    match gesture {
        Some(gesture) => if gesture_over(gesture, now) {
            None
        } else {
            Some(gesture)
        },
        None => None,
    }
}

/// Says what happens to the mascot; what happens settles the need.
pub fn sync_avatar_mascot(state: &mut AvatarState, present: bool) -> (step: MascotStep)
    requires
        old(state).wf(),
    ensures
        final(state).wf(),
        step == mascot_step(old(state)@, present),
        final(state)@ == mascot_settled(old(state)@, step),
        final(state)@ == (AvatarScene {
            needs_respawn: old(state)@.needs_respawn && step == MascotStep::Keep,
            ..old(state)@
        }),
{
    if state.shown && (!present || state.needs_respawn) {
        state.needs_respawn = false;
        MascotStep::Respawn
    } else if !state.shown && present {
        state.needs_respawn = false;
        MascotStep::Despawn
    } else {
        MascotStep::Keep
    }
}

/// Whether a gesture is over at a time.
pub open spec fn gesture_over(gesture: ActiveGesture, now: u64) -> bool {
    now - gesture.started >= gesture.which.tenths() * TENTH_NANOS
}

/// Ends a gesture whose time is up, and says which one is in progress.
pub fn settle_gesture(state: &mut AvatarState, now: u64) -> (gesture: Option<ActiveGesture>)
    requires
        old(state).wf(),
        old(state)@.gesture matches Some(gesture) ==> gesture.started <= now,
    ensures
        final(state).wf(),
        gesture == gesture_left(old(state)@.gesture, now),
        gesture == match old(state)@.gesture {
            Some(gesture) => if gesture_over(gesture, now) {
                None
            } else {
                Some(gesture)
            },
            None => None,
        },
        final(state)@ == (AvatarScene { gesture, ..old(state)@ }),
{
    if let Some(gesture) = state.gesture {
        if now - gesture.started >= gesture.which.duration_tenths() as u64 * TENTH_NANOS {
            state.gesture = None;
        }
    }
    state.gesture
}

/// Where the bubble lies along an axis, as seen from the mascot.
#[derive(Clone, Copy, Debug, PartialEq, Eq, Structural)]
pub enum Placement {
    /// On the side of smaller coordinates.
    Before,
    /// On the side of larger coordinates.
    After,
    /// Across the mascot.
    Centered,
}

/// Where the bubble lies: toward the middle of the window, and above an avatar
/// that is halfway up or lower.
pub open spec fn bubble_placement(halves: (u8, u8)) -> (Placement, Placement) {
    (
        if halves.0 > 1 {
            Placement::Before
        } else if halves.0 < 1 {
            Placement::After
        } else {
            Placement::Centered
        },
        if halves.1 >= 1 {
            Placement::Before
        } else {
            Placement::After
        },
    )
}

/// Where the bubble lies.
pub fn place_bubble(anchor: AvatarAnchor) -> (placement: (Placement, Placement))
    ensures
        placement == bubble_placement(anchor.halves()),
{
    let (x, y) = anchor.normalized();
    (
        if x > 1 {
            Placement::Before
        } else if x < 1 {
            Placement::After
        } else {
            Placement::Centered
        },
        if y >= 1 {
            Placement::Before
        } else {
            Placement::After
        },
    )
}

/// Whether going from parent to parent reaches a root within some steps.
pub open spec fn climbs(parents: Map<u64, u64>, roots: Seq<u64>, from: u64, steps: nat) -> bool
    decreases steps,
{
    roots.contains(from) || (steps > 0 && parents.contains_key(from) && climbs(
        parents,
        roots,
        parents[from],
        (steps - 1) as nat,
    ))
}

fn holds(roots: &Vec<u64>, entity: u64) -> (found: bool)
    ensures
        found == roots@.contains(entity),
{
    let mut i: usize = 0;
    while i < roots.len()
        invariant
            i <= roots@.len(),
            forall|j: int| 0 <= j < i ==> roots@[j] != entity,
        decreases roots.len() - i,
    {
        if roots[i] == entity {
            return true;
        }
        i += 1;
    }
    false
}

/// Whether a part with a parent belongs to one of the roots. No climb takes
/// more steps than there are links.
pub fn belongs_to_mascot(parent: u64, parents: &HashMap<u64, u64>, roots: &Vec<u64>) -> (belongs:
    bool)
    ensures
        belongs == climbs(parents@, roots@, parent, parents@.dom().len()),
{
    let mut current: u64 = parent;
    let mut steps: usize = parents.len();
    while steps > 0
        invariant
            steps <= parents@.dom().len(),
            climbs(parents@, roots@, current, steps as nat) == climbs(
                parents@,
                roots@,
                parent,
                parents@.dom().len(),
            ),
        decreases steps,
    {
        if holds(roots, current) {
            return true;
        }
        match parents.get(&current) {
            Some(next) => {
                current = *next;
            },
            None => {
                return false;
            },
        }
        steps -= 1;
    }
    holds(roots, current)
}

proof fn lemma_climb_avoids(
    parents: Map<u64, u64>,
    roots: Seq<u64>,
    from: u64,
    steps: nat,
    avoided: u64,
)
    requires
        climbs(parents, roots, from, steps),
        forall|k: nat| k <= steps ==> !#[trigger] climbs(parents, roots, avoided, k),
    ensures
        climbs(parents.remove(avoided), roots, from, steps),
    decreases steps,
{
    assert(!climbs(parents, roots, avoided, steps));
    if !roots.contains(from) {
        lemma_climb_avoids(parents, roots, parents[from], (steps - 1) as nat, avoided);
    }
}

proof fn lemma_climb_more_links(
    parents: Map<u64, u64>,
    roots: Seq<u64>,
    from: u64,
    steps: nat,
    more: nat,
    removed: u64,
)
    requires
        climbs(parents.remove(removed), roots, from, steps),
        steps <= more,
    ensures
        climbs(parents, roots, from, more),
    decreases steps,
{
    if !roots.contains(from) {
        lemma_climb_more_links(
            parents,
            roots,
            parents[from],
            (steps - 1) as nat,
            (more - 1) as nat,
            removed,
        );
    }
}

proof fn lemma_first_climb(parents: Map<u64, u64>, roots: Seq<u64>, from: u64, steps: nat) -> (first:
    nat)
    requires
        climbs(parents, roots, from, steps),
    ensures
        climbs(parents, roots, from, first),
        forall|k: nat| k < first ==> !#[trigger] climbs(parents, roots, from, k),
    decreases steps,
{
    if exists|k: nat| k < steps && #[trigger] climbs(parents, roots, from, k) {
        let k = choose|k: nat| k < steps && #[trigger] climbs(parents, roots, from, k);
        lemma_first_climb(parents, roots, from, k)
    } else {
        steps
    }
}

/// A root that is reached at all is reached in no more steps than there are
/// links.
pub proof fn law_climbs_are_short(parents: Map<u64, u64>, roots: Seq<u64>, from: u64, steps: nat)
    requires
        parents.dom().finite(),
        climbs(parents, roots, from, steps),
    ensures
        climbs(parents, roots, from, parents.dom().len()),
    decreases parents.dom().len(),
{
    if !roots.contains(from) {
        let first = lemma_first_climb(parents, roots, from, steps);
        let next = parents[from];
        let rest = (first - 1) as nat;
        assert forall|k: nat| k <= rest implies !#[trigger] climbs(parents, roots, from, k) by {}
        lemma_climb_avoids(parents, roots, next, rest, from);
        let fewer = parents.remove(from);
        assert(fewer.dom() =~= parents.dom().remove(from));
        law_climbs_are_short(fewer, roots, next, rest);
        lemma_climb_more_links(
            parents,
            roots,
            next,
            fewer.dom().len(),
            fewer.dom().len(),
            from,
        );
    }
}

/// How much of a text is revealed: nothing at first, one character more at a
/// time, all of its bytes of each, and the whole in the end.
pub proof fn law_text_is_revealed_character_by_character(text: Seq<char>, count: nat)
    ensures
        revealed(text, 0) == 0,
        count >= text.len() ==> revealed(text, count) == encode_utf8(text).len(),
        count < text.len() ==> revealed(text, count + 1) == revealed(text, count) + encode_utf8(
            seq![text[count as int]],
        ).len(),
{
    assert(text.take(0) =~= Seq::empty());
    if text.len() == 0 {
        assert(text =~= Seq::empty());
    }
    if count < text.len() {
        let (front, last) = (text.take(count as int), seq![text[count as int]]);
        assert(text.take(count as int + 1) =~= front + last);
        lemma_encoded_parts(front, last);
        if count + 1 == text.len() {
            assert(text.take(count as int + 1) =~= text);
        }
    }
}

proof fn lemma_encoded_parts(a: Seq<char>, b: Seq<char>)
    ensures
        encode_utf8(a + b) == encode_utf8(a) + encode_utf8(b),
    decreases a.len(),
{
    if a.len() == 0 {
        assert(a + b =~= b);
        assert(encode_utf8(a) + encode_utf8(b) =~= encode_utf8(b));
    } else {
        lemma_encoded_parts(a.drop_first(), b);
        assert((a + b).drop_first() =~= a.drop_first() + b);
        assert(encode_utf8(a + b) =~= encode_utf8(a) + encode_utf8(b));
    }
}

/// A cluster shows once its last byte is revealed, and not before.
pub proof fn law_clusters_show_once_whole(end: usize, revealed: usize)
    ensures
        shows(end, revealed) <==> end <= revealed,
{
}

/// A bubble says who speaks: by name where there is one, else by number.
pub proof fn law_bubbles_say_who_speaks(name: Seq<char>, namespace: u8)
    ensures
        speaker(Some(name), namespace) == name,
        speaker(None, namespace) == seq!['a', 'g', 'e', 'n', 't', ' '] + decimal(
            namespace as nat,
        ),
{
    reveal_strlit("agent ");
    assert("agent "@ =~= seq!['a', 'g', 'e', 'n', 't', ' ']);
}

/// The overlay shows exactly while a shown avatar speaks, over the whole window
/// and at least one pixel; it hides once when that is over, down to one pixel.
pub proof fn law_the_overlay_shows_while_the_avatar_speaks(
    scene: AvatarScene,
    was_live: bool,
    physical: (u32, u32),
)
    ensures
        ({
            let step = overlay_step(scene, was_live, physical);
            let speaks = scene.shown && scene.speech.active is Some;
            &&& speaks ==> (step matches OverlayStep::Show { width, height } && width >= 1 && height
                >= 1 && (physical.0 >= 1 ==> width == physical.0) && (physical.1 >= 1 ==> height
                == physical.1) && width <= physical.0 + 1 && height <= physical.1 + 1 && (physical.0
                == 0 ==> width == 1) && (physical.1 == 0 ==> height == 1))
            &&& !speaks && was_live ==> (step matches OverlayStep::Hide { width, height } && width
                == 1 && height == 1)
            &&& !speaks && !was_live ==> step is Rest
        }),
{
}

/// A shown avatar has its mascot, built anew where it must be; a hidden one has
/// none.
pub proof fn law_the_mascot_comes_and_goes(scene: AvatarScene, present: bool)
    ensures
        mascot_step(scene, present) is Respawn <==> scene.shown && (!present
            || scene.needs_respawn),
        mascot_step(scene, present) is Despawn <==> !scene.shown && present,
{
}

/// A gesture is over once its tenths of a second have passed, and not before.
pub proof fn law_gestures_end_in_time(gesture: ActiveGesture, now: u64)
    requires
        gesture.started <= now,
    ensures
        gesture_over(gesture, now) <==> now >= gesture.started + gesture.which.tenths()
            * 100_000_000,
{
}

/// The bubble lies toward the middle: beside an avatar at a side, across one in
/// the middle, below one at the top and above every other.
pub proof fn law_bubbles_lie_toward_the_middle(anchor: AvatarAnchor)
    ensures
        ({
            let (x, y) = bubble_placement(anchor.halves());
            &&& x is After <==> anchor is TopLeft || anchor is Left || anchor is BottomLeft
            &&& x is Before <==> anchor is TopRight || anchor is Right || anchor is BottomRight
            &&& y is After <==> anchor is TopLeft || anchor is Top || anchor is TopRight
            &&& !(y is Centered)
        }),
{
}

/// A part belongs to the mascot exactly if some of its ancestors is a root: a
/// root does, and so does what belongs through its parent.
pub proof fn law_parts_belong_through_their_parents(
    parents: Map<u64, u64>,
    roots: Seq<u64>,
    part: u64,
    steps: nat,
)
    ensures
        roots.contains(part) ==> climbs(parents, roots, part, steps),
        !roots.contains(part) && !parents.contains_key(part) ==> !climbs(
            parents,
            roots,
            part,
            steps,
        ),
        !roots.contains(part) && parents.contains_key(part) ==> climbs(
            parents,
            roots,
            part,
            steps + 1,
        ) == climbs(parents, roots, parents[part], steps),
{
}

/// What happens to the mascot settles the need for a new one, and changes
/// nothing else of the avatar.
pub proof fn law_a_new_mascot_settles_the_need(scene: AvatarScene, step: MascotStep)
    ensures
        step is Respawn || step is Despawn ==> !mascot_settled(scene, step).needs_respawn,
        step is Keep ==> mascot_settled(scene, step) == scene,
        mascot_settled(scene, step).shown == scene.shown,
        mascot_settled(scene, step).speech == scene.speech,
        mascot_settled(scene, step).anchor == scene.anchor,
        mascot_settled(scene, step).gesture == scene.gesture,
{
}

/// A gesture goes on as it began until its time is up.
pub proof fn law_gestures_go_on_until_their_time(gesture: ActiveGesture, now: u64)
    requires
        gesture.started <= now,
    ensures
        gesture_left(None, now) is None,
        now < gesture.started + gesture.which.tenths() * 100_000_000 ==> gesture_left(
            Some(gesture),
            now,
        ) == Some(gesture),
        now >= gesture.started + gesture.which.tenths() * 100_000_000 ==> gesture_left(
            Some(gesture),
            now,
        ) is None,
{
}

} // verus!
