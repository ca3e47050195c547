//! The byte stream between a program and its screen.
//!
//! Application program commands (APC, `ESC _ ... ESC \`) are cut out of the
//! stream; everything else goes to the screen parser. Two bounds hold whatever
//! a program prints: an APC that does not end is discarded past a cap, and the
//! payload of one operating system command (OSC, `ESC ] ...`) is forwarded up
//! to a cap, because the screen parser buffers it until the command ends.

use vstd::prelude::*;

verus! {

/// Upper bound on the payload of a single OSC sequence that reaches the screen
/// parser.
pub const MAX_OSC_SEQUENCE_BYTES: usize = 65_536;

/// Upper bound on an APC sequence that waits for its terminator.
pub const MAX_APC_SEQUENCE_BYTES: usize = 8_388_608;

/// Escape.
pub const ESC: u8 = 0x1b;

/// Bell.
pub const BEL: u8 = 0x07;

/// Cancel.
pub const CAN: u8 = 0x18;

/// Substitute.
pub const SUB: u8 = 0x1a;

/// `]`, which opens an OSC after an escape.
pub const OSC_INTRODUCER: u8 = 0x5d;

/// `_`, which opens an APC after an escape.
pub const APC_INTRODUCER: u8 = 0x5f;

/// `\`, which ends an APC after an escape.
pub const BACKSLASH: u8 = 0x5c;

/// The one-byte string terminator.
pub const C1_ST: u8 = 0x9c;

/// Where the guard stands in the stream.
#[derive(Clone, Copy, Debug, PartialEq, Eq, Structural)]
pub enum OscGuardState {
    /// Outside any escape sequence.
    Ground,
    /// The next byte decides whether an OSC begins.
    Escape,
    /// Inside an OSC, forwarding its payload.
    Osc,
    /// Inside an oversized OSC, dropping payload until it ends.
    OscDropping,
}

/// Bounds how many bytes of a single OSC reach the screen parser.
#[derive(Clone, Copy, Debug, PartialEq, Eq, Structural)]
pub struct OscGuard {
    /// Where the guard stands.
    pub state: OscGuardState,
    /// Payload bytes counted since the OSC's introducer, up to one past the
    /// cap.
    pub osc_len: usize,
}

/// Whether the screen parser stays in its escape state on a byte: the control
/// bytes other than cancel and substitute, and everything from delete up.
pub open spec fn stays_in_escape(byte: u8) -> bool {
    byte <= 0x17 || byte == 0x19 || 0x1b <= byte <= 0x1f || byte >= 0x7f
}

/// Whether a byte ends an OSC outright.
pub open spec fn ends_osc(byte: u8) -> bool {
    byte == BEL || byte == CAN || byte == SUB
}

impl OscGuard {
    /// The count is within the cap while payload is forwarded.
    pub open spec fn wf(self) -> bool {
        &&& self.osc_len <= MAX_OSC_SEQUENCE_BYTES + 1
        &&& self.state == OscGuardState::Osc ==> self.osc_len <= MAX_OSC_SEQUENCE_BYTES
    }

    /// The guard after a byte, and whether the byte is forwarded.
    pub open spec fn after(self, byte: u8) -> (OscGuard, bool) {
        match self.state {
            OscGuardState::Ground => (
                OscGuard {
                    state: if byte == ESC {
                        OscGuardState::Escape
                    } else {
                        OscGuardState::Ground
                    },
                    osc_len: self.osc_len,
                },
                true,
            ),
            OscGuardState::Escape => if byte == OSC_INTRODUCER {
                (OscGuard { state: OscGuardState::Osc, osc_len: 0 }, true)
            } else if stays_in_escape(byte) {
                (self, true)
            } else {
                (OscGuard { state: OscGuardState::Ground, osc_len: self.osc_len }, true)
            },
            OscGuardState::Osc => if ends_osc(byte) {
                (OscGuard { state: OscGuardState::Ground, osc_len: self.osc_len }, true)
            } else if byte == ESC {
                (OscGuard { state: OscGuardState::Escape, osc_len: self.osc_len }, true)
            } else if self.osc_len + 1 > MAX_OSC_SEQUENCE_BYTES {
                (
                    OscGuard {
                        state: OscGuardState::OscDropping,
                        osc_len: (self.osc_len + 1) as usize,
                    },
                    false,
                )
            } else {
                (
                    OscGuard {
                        state: OscGuardState::Osc,
                        osc_len: (self.osc_len + 1) as usize,
                    },
                    true,
                )
            },
            OscGuardState::OscDropping => if ends_osc(byte) {
                (OscGuard { state: OscGuardState::Ground, osc_len: self.osc_len }, true)
            } else if byte == ESC {
                (OscGuard { state: OscGuardState::Escape, osc_len: self.osc_len }, true)
            } else {
                (self, false)
            },
        }
    }

    /// The guard after a run of bytes, and the bytes that are forwarded.
    pub open spec fn run(self, bytes: Seq<u8>) -> (OscGuard, Seq<u8>)
        decreases bytes.len(),
    {
        if bytes.len() == 0 {
            (self, Seq::empty())
        } else {
            let (guard, out) = self.run(bytes.drop_last());
            let (next, forwarded) = guard.after(bytes.last());
            (
                next,
                if forwarded {
                    out.push(bytes.last())
                } else {
                    out
                },
            )
        }
    }

    /// A guard outside any sequence.
    pub fn new() -> (guard: OscGuard)
        ensures
            guard == (OscGuard { state: OscGuardState::Ground, osc_len: 0 }),
            guard.wf(),
    {
        OscGuard { state: OscGuardState::Ground, osc_len: 0 }
    }

    /// Advances by one byte; says whether it is forwarded.
    pub fn step(&mut self, byte: u8) -> (forwarded: bool)
        requires
            old(self).wf(),
        ensures
            (*final(self), forwarded) == old(self).after(byte),
            final(self).wf(),
    {
        match self.state {
            OscGuardState::Ground => {
                if byte == ESC {
                    self.state = OscGuardState::Escape;
                }
                true
            },
            OscGuardState::Escape => {
                if byte == OSC_INTRODUCER {
                    self.osc_len = 0;
                    self.state = OscGuardState::Osc;
                } else if !(byte <= 0x17 || byte == 0x19 || (byte >= 0x1b && byte <= 0x1f) || byte
                    >= 0x7f) {
                    self.state = OscGuardState::Ground;
                }
                true
            },
            OscGuardState::Osc => {
                if byte == BEL || byte == CAN || byte == SUB {
                    self.state = OscGuardState::Ground;
                    true
                } else if byte == ESC {
                    self.state = OscGuardState::Escape;
                    true
                } else {
                    self.osc_len = self.osc_len + 1;
                    if self.osc_len > MAX_OSC_SEQUENCE_BYTES {
                        self.state = OscGuardState::OscDropping;
                        false
                    } else {
                        true
                    }
                }
            },
            OscGuardState::OscDropping => {
                if byte == BEL || byte == CAN || byte == SUB {
                    self.state = OscGuardState::Ground;
                    true
                } else if byte == ESC {
                    self.state = OscGuardState::Escape;
                    true
                } else {
                    false
                }
            },
        }
    }

    /// The bytes of a run that are forwarded.
    pub fn forward(&mut self, bytes: &[u8]) -> (out: Vec<u8>)
        requires
            old(self).wf(),
        ensures
            (*final(self), out@) == old(self).run(bytes@),
            final(self).wf(),
    {
        let mut out: Vec<u8> = Vec::new();
        let mut i: usize = 0;
        assert(bytes@.take(0) =~= Seq::empty());
        while i < bytes.len()
            invariant
                i <= bytes@.len(),
                self.wf(),
                (*self, out@) == old(self).run(bytes@.take(i as int)),
            decreases bytes.len() - i,
        {
            let byte: u8 = bytes[i];
            proof {
                let next = bytes@.take(i + 1);
                assert(next.drop_last() =~= bytes@.take(i as int));
                assert(next.last() == byte);
            }
            if self.step(byte) {
                out.push(byte);
            }
            i += 1;
        }
        assert(bytes@.take(i as int) =~= bytes@);
        out
    }
}

/// What the screen parser makes of the stream, as far as it buffers: outside,
/// after an escape, or inside an OSC with so many payload bytes buffered.
pub enum ScreenOsc {
    /// Outside any escape sequence.
    Ground,
    /// After an escape.
    Escape,
    /// Inside an OSC.
    Osc(nat),
}

/// The screen parser after a byte.
pub open spec fn screen_after(screen: ScreenOsc, byte: u8) -> ScreenOsc {
    match screen {
        ScreenOsc::Ground => if byte == ESC {
            ScreenOsc::Escape
        } else {
            ScreenOsc::Ground
        },
        ScreenOsc::Escape => if byte == OSC_INTRODUCER {
            ScreenOsc::Osc(0)
        } else if stays_in_escape(byte) {
            ScreenOsc::Escape
        } else {
            ScreenOsc::Ground
        },
        ScreenOsc::Osc(buffered) => if ends_osc(byte) {
            ScreenOsc::Ground
        } else if byte == ESC {
            ScreenOsc::Escape
        } else {
            ScreenOsc::Osc(buffered + 1)
        },
    }
}

/// The screen parser after a run of bytes.
pub open spec fn screen_run(screen: ScreenOsc, bytes: Seq<u8>) -> ScreenOsc
    decreases bytes.len(),
{
    if bytes.len() == 0 {
        screen
    } else {
        screen_after(screen_run(screen, bytes.drop_last()), bytes.last())
    }
}

/// Whether the guard and the screen parser agree on where the stream stands.
pub open spec fn in_sync(guard: OscGuard, screen: ScreenOsc) -> bool {
    match screen {
        ScreenOsc::Ground => guard.state == OscGuardState::Ground,
        ScreenOsc::Escape => guard.state == OscGuardState::Escape,
        ScreenOsc::Osc(buffered) => {
            ||| guard.state == OscGuardState::Osc && buffered == guard.osc_len
            ||| guard.state == OscGuardState::OscDropping && buffered == MAX_OSC_SEQUENCE_BYTES
        },
    }
}

/// The OSC bound: whatever a program prints, the screen parser, fed what the
/// guard forwards, stays in step with the stream and never buffers more of an
/// OSC than the cap.
pub proof fn law_osc_is_bounded(guard: OscGuard, screen: ScreenOsc, bytes: Seq<u8>)
    requires
        guard.wf(),
        in_sync(guard, screen),
    ensures
        guard.run(bytes).0.wf(),
        in_sync(guard.run(bytes).0, screen_run(screen, guard.run(bytes).1)),
        screen_run(screen, guard.run(bytes).1) matches ScreenOsc::Osc(buffered) ==> buffered
            <= MAX_OSC_SEQUENCE_BYTES,
    decreases bytes.len(),
{
    if bytes.len() > 0 {
        law_osc_is_bounded(guard, screen, bytes.drop_last());
        let (before, out) = guard.run(bytes.drop_last());
        let (after, forwarded) = before.after(bytes.last());
        if forwarded {
            assert(out.push(bytes.last()).drop_last() =~= out);
        }
    }
}

/// Only the payload of an oversized OSC is dropped: what ends an OSC, an
/// escape, and every byte outside one is forwarded.
pub proof fn law_only_oversized_payload_is_dropped(guard: OscGuard, byte: u8)
    requires
        !guard.after(byte).1,
    ensures
        guard.state == OscGuardState::Osc || guard.state == OscGuardState::OscDropping,
        guard.after(byte).0.state == OscGuardState::OscDropping,
        !ends_osc(byte) && byte != ESC,
{
}

/// How the stream is cut into chunks does not matter to the guard.
pub proof fn law_chunking_does_not_matter(guard: OscGuard, a: Seq<u8>, b: Seq<u8>)
    ensures
        guard.run(a + b).0 == guard.run(a).0.run(b).0,
        guard.run(a + b).1 == guard.run(a).1 + guard.run(a).0.run(b).1,
    decreases b.len(),
{
    if b.len() == 0 {
        assert(a + b =~= a);
        assert(guard.run(a).1 + Seq::<u8>::empty() =~= guard.run(a).1);
    } else {
        law_chunking_does_not_matter(guard, a, b.drop_last());
        assert((a + b).drop_last() =~= a + b.drop_last());
        assert((a + b).last() == b.last());
        let (middle, rest) = guard.run(a).0.run(b.drop_last());
        assert(guard.run(a).1 + rest.push(b.last()) =~= (guard.run(a).1 + rest).push(b.last()));
    }
}

/// A stream without an oversized OSC passes untouched.
pub proof fn law_small_sequences_pass_untouched(guard: OscGuard, bytes: Seq<u8>)
    requires
        guard.wf(),
        guard.state != OscGuardState::OscDropping,
        (if guard.state == OscGuardState::Osc {
            guard.osc_len as int
        } else {
            0
        }) + bytes.len() <= MAX_OSC_SEQUENCE_BYTES,
    ensures
        guard.run(bytes).1 == bytes,
        guard.run(bytes).0.state != OscGuardState::OscDropping,
        guard.run(bytes).0.state == OscGuardState::Osc ==> guard.run(bytes).0.osc_len
            <= (if guard.state == OscGuardState::Osc {
            guard.osc_len as int
        } else {
            0
        }) + bytes.len(),
    decreases bytes.len(),
{
    if bytes.len() > 0 {
        law_small_sequences_pass_untouched(guard, bytes.drop_last());
        assert(bytes.drop_last().push(bytes.last()) =~= bytes);
    }
}

/// The end of the run of digits and semicolons that begins at `from`.
pub open spec fn parameters_end(bytes: Seq<u8>, from: int) -> int
    decreases bytes.len() - from,
{
    if 0 <= from < bytes.len() && (0x30 <= bytes[from] <= 0x39 || bytes[from] == 0x3b) {
        parameters_end(bytes, from + 1)
    } else {
        from
    }
}

/// Whether a cursor-positioning `ESC [ parameters f` begins at `from`.
pub open spec fn positions_at(bytes: Seq<u8>, from: int) -> bool {
    &&& 0 <= from
    &&& from + 2 < bytes.len()
    &&& bytes[from] == ESC
    &&& bytes[from + 1] == 0x5b
    &&& parameters_end(bytes, from + 2) > from + 2
    &&& parameters_end(bytes, from + 2) < bytes.len()
    &&& bytes[parameters_end(bytes, from + 2)] == 0x66
}

/// The bytes from `from` on, with every `ESC [ parameters f` written as
/// `ESC [ parameters H`, which the screen parser knows.
pub open spec fn positioned(bytes: Seq<u8>, from: int) -> Seq<u8>
    decreases bytes.len() - from,
{
    if from < 0 || from >= bytes.len() {
        Seq::empty()
    } else if positions_at(bytes, from) {
        let end = parameters_end(bytes, from + 2);
        bytes.subrange(from, end) + seq![0x48u8] + positioned(bytes, end + 1)
    } else {
        seq![bytes[from]] + positioned(bytes, from + 1)
    }
}

proof fn lemma_parameters_end(bytes: Seq<u8>, from: int)
    requires
        0 <= from <= bytes.len(),
    ensures
        from <= parameters_end(bytes, from) <= bytes.len(),
    decreases bytes.len() - from,
{
    if from < bytes.len() && (0x30 <= bytes[from] <= 0x39 || bytes[from] == 0x3b) {
        lemma_parameters_end(bytes, from + 1);
    }
}

/// Rewrites cursor positioning for the screen parser.
pub fn normalize_hvp_sequences(bytes: &[u8]) -> (out: Vec<u8>)
    ensures
        out@ == positioned(bytes@, 0),
{
    let mut out: Vec<u8> = Vec::new();
    let mut i: usize = 0;
    while i < bytes.len()
        invariant
            i <= bytes@.len(),
            out@ + positioned(bytes@, i as int) == positioned(bytes@, 0),
        decreases bytes.len() - i,
    {
        let ghost before = out@;
        if bytes[i] == ESC && bytes.len() - i > 2 && bytes[i + 1] == 0x5b {
            proof {
                lemma_parameters_end(bytes@, i + 2);
            }
            let mut j: usize = i + 2;
            while j < bytes.len() && ((bytes[j] >= 0x30 && bytes[j] <= 0x39) || bytes[j] == 0x3b)
                invariant
                    i + 2 <= j <= bytes@.len(),
                    parameters_end(bytes@, i + 2) == parameters_end(bytes@, j as int),
                decreases bytes.len() - j,
            {
                j += 1;
            }
            if j < bytes.len() && bytes[j] == 0x66 && j > i + 2 {
                let mut k: usize = i;
                while k < j
                    invariant
                        i <= k <= j < bytes@.len(),
                        out@ == before + bytes@.subrange(i as int, k as int),
                    decreases j - k,
                {
                    out.push(bytes[k]);
                    assert(bytes@.subrange(i as int, k + 1) =~= bytes@.subrange(
                        i as int,
                        k as int,
                    ).push(bytes@[k as int]));
                    k += 1;
                }
                out.push(0x48);
                proof {
                    let rest = positioned(bytes@, j + 1);
                    let part = bytes@.subrange(i as int, j as int);
                    assert(positioned(bytes@, i as int) == part + seq![0x48u8] + rest);
                    assert(before + (part + seq![0x48u8] + rest) =~= (before + part).push(0x48u8)
                        + rest);
                }
                i = j + 1;
                continue ;
            }
        }
        proof {
            let rest = positioned(bytes@, i + 1);
            assert(positioned(bytes@, i as int) == seq![bytes@[i as int]] + rest);
            assert(before + (seq![bytes@[i as int]] + rest) =~= before.push(bytes@[i as int])
                + rest);
        }
        out.push(bytes[i]);
        i += 1;
    }
    assert(out@ + Seq::<u8>::empty() =~= out@);
    out
}

/// The first `ESC _` at or after `from`, or `None`.
pub open spec fn apc_start(bytes: Seq<u8>, from: int) -> Option<int>
    decreases bytes.len() - from,
{
    if from < 0 || from + 1 >= bytes.len() {
        None
    } else if bytes[from] == ESC && bytes[from + 1] == APC_INTRODUCER {
        Some(from)
    } else {
        apc_start(bytes, from + 1)
    }
}

/// The index behind the first string terminator at or after `from`, or `None`.
pub open spec fn apc_end(bytes: Seq<u8>, from: int) -> Option<int>
    decreases bytes.len() - from,
{
    if from < 0 || from >= bytes.len() {
        None
    } else if bytes[from] == C1_ST {
        Some(from + 1)
    } else if from + 1 < bytes.len() && bytes[from] == ESC && bytes[from + 1] == BACKSLASH {
        Some(from + 2)
    } else {
        apc_end(bytes, from + 1)
    }
}

/// The bytes that may begin a sequence that the next chunk completes: a
/// trailing escape.
pub open spec fn trailing_escape(bytes: Seq<u8>) -> Seq<u8> {
    if bytes.len() > 0 && bytes.last() == ESC {
        seq![ESC]
    } else {
        Seq::empty()
    }
}

/// The byte stream as it is held between chunks.
pub struct StreamState {
    /// Bytes that wait for the rest of a sequence.
    pub pending: Seq<u8>,
    /// Whether an over-long APC is being discarded.
    pub discarding: bool,
    /// The OSC guard.
    pub guard: OscGuard,
}

impl StreamState {
    /// The guard is in order.
    pub open spec fn wf(self) -> bool {
        self.guard.wf()
    }

    /// Discards up to the terminator of an over-long APC; without one, all but
    /// a trailing escape.
    pub open spec fn resynced(self) -> StreamState {
        match apc_end(self.pending, 0) {
            Some(end) => StreamState {
                pending: self.pending.skip(end),
                discarding: false,
                guard: self.guard,
            },
            None => StreamState { pending: trailing_escape(self.pending), ..self },
        }
    }

    /// The stream with a chunk behind what waits.
    pub open spec fn fed(self, chunk: Seq<u8>) -> StreamState {
        let longer = StreamState { pending: self.pending + chunk, ..self };
        if self.discarding {
            longer.resynced()
        } else {
            longer
        }
    }

    /// The stream with a run of text sent to the screen parser.
    pub open spec fn forwarded(self, text: Seq<u8>) -> (StreamState, Seq<u8>) {
        let (guard, out) = self.guard.run(positioned(text, 0));
        (StreamState { guard, ..self }, out)
    }

    /// Runs up to the next complete APC: the stream behind it, what goes to
    /// the screen parser before it, and the sequence. Without a complete APC
    /// the rest waits, within the cap.
    pub open spec fn advanced(self) -> (StreamState, Seq<u8>, Option<Seq<u8>>) {
        if self.discarding {
            (self, Seq::empty(), None)
        } else {
            match apc_start(self.pending, 0) {
                None => {
                    let kept = trailing_escape(self.pending);
                    let text = self.pending.take(self.pending.len() - kept.len());
                    let (next, out) = self.forwarded(text);
                    (StreamState { pending: kept, ..next }, out, None)
                },
                Some(start) => {
                    let (next, out) = self.forwarded(self.pending.take(start));
                    match apc_end(self.pending, start + 2) {
                        Some(end) => (
                            StreamState { pending: self.pending.skip(end), ..next },
                            out,
                            Some(self.pending.subrange(start, end)),
                        ),
                        None => {
                            let waiting = self.pending.skip(start);
                            if waiting.len() > MAX_APC_SEQUENCE_BYTES {
                                (
                                    StreamState {
                                        pending: trailing_escape(waiting),
                                        discarding: true,
                                        ..next
                                    },
                                    out,
                                    None,
                                )
                            } else {
                                (StreamState { pending: waiting, ..next }, out, None)
                            }
                        },
                    }
                },
            }
        }
    }
}

proof fn lemma_apc_start(bytes: Seq<u8>, from: int)
    requires
        0 <= from <= bytes.len(),
    ensures
        match apc_start(bytes, from) {
            Some(start) => from <= start && start + 1 < bytes.len() && bytes[start] == ESC
                && bytes[start + 1] == APC_INTRODUCER,
            None => true,
        },
    decreases bytes.len() - from,
{
    if from + 1 < bytes.len() && !(bytes[from] == ESC && bytes[from + 1] == APC_INTRODUCER) {
        lemma_apc_start(bytes, from + 1);
    }
}

proof fn lemma_apc_end(bytes: Seq<u8>, from: int)
    requires
        0 <= from <= bytes.len(),
    ensures
        match apc_end(bytes, from) {
            Some(end) => from < end <= bytes.len(),
            None => true,
        },
    decreases bytes.len() - from,
{
    if from < bytes.len() && bytes[from] != C1_ST && !(from + 1 < bytes.len() && bytes[from] == ESC
        && bytes[from + 1] == BACKSLASH) {
        lemma_apc_end(bytes, from + 1);
    }
}

proof fn lemma_apc_end_skip(bytes: Seq<u8>, start: int, from: int)
    requires
        0 <= start <= from <= bytes.len(),
    ensures
        apc_end(bytes.skip(start), from - start) == match apc_end(bytes, from) {
            Some(end) => Some(end - start),
            None => None,
        },
    decreases bytes.len() - from,
{
    if from < bytes.len() {
        assert(bytes.skip(start)[from - start] == bytes[from]);
        if from + 1 < bytes.len() {
            assert(bytes.skip(start)[from + 1 - start] == bytes[from + 1]);
        }
        lemma_apc_end_skip(bytes, start, from + 1);
    }
}

/// Whether a cut falls inside a cursor-positioning sequence.
pub open spec fn cuts_positioning(bytes: Seq<u8>, at: int) -> bool {
    exists|i: int|
        0 <= i < at && #[trigger] positions_at(bytes, i) && at <= parameters_end(bytes, i + 2)
}

proof fn lemma_parameters(bytes: Seq<u8>, from: int, at: int)
    requires
        0 <= from <= at < parameters_end(bytes, from),
    ensures
        at < bytes.len(),
        0x30 <= bytes[at] <= 0x39 || bytes[at] == 0x3b,
    decreases bytes.len() - from,
{
    if from < bytes.len() && (0x30 <= bytes[from] <= 0x39 || bytes[from] == 0x3b) {
        if from < at {
            lemma_parameters(bytes, from + 1, at);
        }
    }
}

proof fn lemma_parameters_in_front(a: Seq<u8>, b: Seq<u8>, from: int)
    requires
        0 <= from <= a.len(),
    ensures
        parameters_end(a, from) < a.len() ==> parameters_end(a + b, from) == parameters_end(
            a,
            from,
        ),
        parameters_end(a + b, from) < a.len() ==> parameters_end(a, from) == parameters_end(
            a + b,
            from,
        ),
    decreases a.len() - from,
{
    if from < a.len() {
        assert((a + b)[from] == a[from]);
        if 0x30 <= a[from] <= 0x39 || a[from] == 0x3b {
            lemma_parameters_in_front(a, b, from + 1);
        }
    } else {
        lemma_parameters_end(a + b, from);
        lemma_parameters_end(a, from);
    }
}

proof fn lemma_parameters_behind(a: Seq<u8>, b: Seq<u8>, from: int)
    requires
        0 <= from <= b.len(),
    ensures
        parameters_end(a + b, a.len() + from) == a.len() + parameters_end(b, from),
    decreases b.len() - from,
{
    if from < b.len() {
        assert((a + b)[a.len() + from] == b[from]);
        if 0x30 <= b[from] <= 0x39 || b[from] == 0x3b {
            lemma_parameters_behind(a, b, from + 1);
        }
    }
}

proof fn lemma_positioned_behind(a: Seq<u8>, b: Seq<u8>, from: int)
    requires
        0 <= from <= b.len(),
    ensures
        positioned(a + b, a.len() + from) == positioned(b, from),
    decreases b.len() - from,
{
    if from < b.len() {
        let at = a.len() + from;
        assert((a + b)[at] == b[from]);
        if from + 1 < b.len() {
            assert((a + b)[at + 1] == b[from + 1]);
        }
        if from + 2 <= b.len() {
            lemma_parameters_behind(a, b, from + 2);
            lemma_parameters_end(b, from + 2);
            let end = parameters_end(b, from + 2);
            if end < b.len() {
                assert((a + b)[a.len() + end] == b[end]);
            }
        }
        assert(positions_at(a + b, at) == positions_at(b, from));
        if positions_at(b, from) {
            let end = parameters_end(b, from + 2);
            lemma_positioned_behind(a, b, end + 1);
            assert((a + b).subrange(at, a.len() + end) =~= b.subrange(from, end));
        } else {
            lemma_positioned_behind(a, b, from + 1);
        }
    }
}

proof fn lemma_positioned_splits(a: Seq<u8>, b: Seq<u8>, from: int)
    requires
        0 <= from <= a.len(),
        !cuts_positioning(a + b, a.len() as int),
    ensures
        positioned(a + b, from) == positioned(a, from) + positioned(b, 0),
    decreases a.len() - from,
{
    let all = a + b;
    if from == a.len() {
        lemma_positioned_behind(a, b, 0);
        assert(positioned(a, from) + positioned(b, 0) =~= positioned(b, 0));
    } else {
        assert(all[from] == a[from]);
        if from + 1 < a.len() {
            assert(all[from + 1] == a[from + 1]);
        }
        if from + 2 <= a.len() {
            lemma_parameters_in_front(a, b, from + 2);
            lemma_parameters_end(a, from + 2);
            lemma_parameters_end(all, from + 2);
        }
        if positions_at(all, from) {
            let end = parameters_end(all, from + 2);
            assert(end < a.len());
            assert(parameters_end(a, from + 2) == end);
            assert(all[end] == a[end]);
            assert(positions_at(a, from));
            lemma_positioned_splits(a, b, end + 1);
            assert(all.subrange(from, end) =~= a.subrange(from, end));
            assert(positioned(all, from) =~= positioned(a, from) + positioned(b, 0));
        } else {
            assert(!positions_at(a, from)) by {
                if positions_at(a, from) {
                    let end = parameters_end(a, from + 2);
                    assert(all[end] == a[end]);
                    assert(positions_at(all, from));
                }
            }
            lemma_positioned_splits(a, b, from + 1);
            assert(positioned(all, from) =~= positioned(a, from) + positioned(b, 0));
        }
    }
}

proof fn lemma_start_in_front(a: Seq<u8>, b: Seq<u8>, from: int)
    requires
        0 <= from <= a.len(),
    ensures
        apc_start(a, from) matches Some(start) ==> apc_start(a + b, from) == Some(start),
        apc_start(a, from) is None ==> (apc_start(a + b, from) matches Some(start)
            ==> start >= a.len() - trailing_escape(a).len()),
    decreases a.len() - from,
{
    let all = a + b;
    if from + 1 < a.len() {
        assert(all[from] == a[from] && all[from + 1] == a[from + 1]);
        if !(a[from] == ESC && a[from + 1] == APC_INTRODUCER) {
            lemma_start_in_front(a, b, from + 1);
        }
    } else {
        lemma_apc_start(all, from);
        if let Some(start) = apc_start(all, from) {
            if start < a.len() {
                assert(start == a.len() - 1);
                assert(all[start] == a.last());
            }
        }
    }
}

proof fn lemma_start_behind(a: Seq<u8>, b: Seq<u8>, from: int)
    requires
        0 <= from <= b.len(),
    ensures
        apc_start(a + b, a.len() + from) == match apc_start(b, from) {
            Some(start) => Some(a.len() + start),
            None => None,
        },
    decreases b.len() - from,
{
    if from + 1 < b.len() {
        assert((a + b)[a.len() + from] == b[from]);
        assert((a + b)[a.len() + from + 1] == b[from + 1]);
        lemma_start_behind(a, b, from + 1);
    }
}

proof fn lemma_start_passes(bytes: Seq<u8>, from: int, to: int)
    requires
        0 <= from <= to <= bytes.len(),
        match apc_start(bytes, from) {
            Some(start) => start >= to,
            None => true,
        },
    ensures
        apc_start(bytes, from) == apc_start(bytes, to),
    decreases to - from,
{
    if from < to {
        if from + 1 < bytes.len() {
            lemma_start_passes(bytes, from + 1, to);
        } else {
            assert(apc_start(bytes, to) is None);
        }
    }
}

proof fn lemma_end_in_front(a: Seq<u8>, b: Seq<u8>, from: int)
    requires
        0 <= from <= a.len(),
    ensures
        apc_end(a, from) matches Some(end) ==> apc_end(a + b, from) == Some(end),
    decreases a.len() - from,
{
    if from < a.len() {
        assert((a + b)[from] == a[from]);
        if from + 1 < a.len() {
            assert((a + b)[from + 1] == a[from + 1]);
        }
        if apc_end(a, from) is Some && a[from] != C1_ST && !(from + 1 < a.len() && a[from] == ESC
            && a[from + 1] == BACKSLASH) {
            lemma_end_in_front(a, b, from + 1);
            if from + 1 == a.len() {
                assert(apc_end(a, from + 1) is None);
            }
        }
    }
}

proof fn lemma_uncut_prefix(bytes: Seq<u8>, to: int, at: int)
    requires
        0 <= at <= to <= bytes.len(),
        !cuts_positioning(bytes, at),
    ensures
        !cuts_positioning(bytes.take(to), at),
{
    let front = bytes.take(to);
    if cuts_positioning(front, at) {
        let i = choose|i: int|
            0 <= i < at && #[trigger] positions_at(front, i) && at <= parameters_end(front, i + 2);
        assert(front + bytes.skip(to) =~= bytes);
        lemma_parameters_in_front(front, bytes.skip(to), i + 2);
        assert(bytes[i] == front[i] && bytes[i + 1] == front[i + 1]);
        assert(positions_at(bytes, i));
    }
}

proof fn lemma_escape_is_no_parameter(bytes: Seq<u8>, at: int)
    requires
        0 <= at < bytes.len(),
        bytes[at] == ESC,
    ensures
        !cuts_positioning(bytes, at),
{
    if cuts_positioning(bytes, at) {
        let i = choose|i: int|
            0 <= i < at && #[trigger] positions_at(bytes, i) && at <= parameters_end(bytes, i + 2);
        let end = parameters_end(bytes, i + 2);
        if i + 2 <= at < end {
            lemma_parameters(bytes, i + 2, at);
        }
    }
}

proof fn lemma_torn_text(stream: StreamState, a: Seq<u8>, b: Seq<u8>)
    requires
        !cuts_positioning(a + b, a.len() as int),
    ensures
        stream.forwarded(a + b).0 == stream.forwarded(a).0.forwarded(b).0,
        stream.forwarded(a + b).1 == stream.forwarded(a).1 + stream.forwarded(a).0.forwarded(b).1,
{
    lemma_positioned_splits(a, b, 0);
    law_chunking_does_not_matter(stream.guard, positioned(a, 0), positioned(b, 0));
}

/// Whether a stream that is read before a chunk comes to the same as one that
/// is read behind it: the same bytes reach the screen parser, the same
/// sequence is found, and the same bytes wait.
spec fn tears_cleanly(stream: StreamState, chunk: Seq<u8>) -> bool {
    let (torn, out, found) = stream.advanced();
    let whole = stream.fed(chunk).advanced();
    match found {
        Some(sequence) => whole == (torn.fed(chunk), out, Some(sequence)),
        None => {
            let (last, more, next) = torn.fed(chunk).advanced();
            whole == (last, out + more, next)
        },
    }
}

proof fn lemma_torn_behind_sequence(stream: StreamState, chunk: Seq<u8>)
    requires
        !stream.discarding,
        apc_start(stream.pending, 0) matches Some(start) && apc_end(
            stream.pending,
            start + 2,
        ) is Some,
    ensures
        tears_cleanly(stream, chunk),
{
    let front = stream.pending;
    let all = front + chunk;
    lemma_start_in_front(front, chunk, 0);
    lemma_apc_start(front, 0);
    let start = apc_start(front, 0)->0;
    assert(all.take(start) =~= front.take(start));
    lemma_apc_end(front, start + 2);
    lemma_end_in_front(front, chunk, start + 2);
    let end = apc_end(front, start + 2)->0;
    assert(all.subrange(start, end) =~= front.subrange(start, end));
    assert(all.skip(end) =~= front.skip(end) + chunk);
}

proof fn lemma_torn_in_sequence(stream: StreamState, chunk: Seq<u8>)
    requires
        !stream.discarding,
        !stream.advanced().0.discarding,
        apc_start(stream.pending, 0) matches Some(start) && apc_end(
            stream.pending,
            start + 2,
        ) is None,
    ensures
        tears_cleanly(stream, chunk),
{
    let front = stream.pending;
    let all = front + chunk;
    lemma_start_in_front(front, chunk, 0);
    lemma_apc_start(front, 0);
    let start = apc_start(front, 0)->0;
    assert(all.take(start) =~= front.take(start));
    let (torn, out, found) = stream.advanced();
    let rest = torn.pending + chunk;
    assert(rest =~= all.skip(start));
    assert(rest[0] == ESC && rest[1] == APC_INTRODUCER);
    assert(apc_start(rest, 0) == Some(0int));
    lemma_apc_end_skip(all, start, start + 2);
    lemma_apc_end(all, start + 2);
    assert(rest.take(0) =~= Seq::empty());
    let nothing = torn.fed(chunk).forwarded(rest.take(0)).1;
    assert(positioned(rest.take(0), 0) =~= Seq::empty());
    assert(nothing =~= Seq::empty());
    assert(out + nothing =~= out);
    assert(rest.skip(0) =~= rest);
    if let Some(end) = apc_end(all, start + 2) {
        assert(rest.subrange(0, end - start) =~= all.subrange(start, end));
        assert(rest.skip(end - start) =~= all.skip(end));
    }
}

proof fn lemma_torn_in_overlong(stream: StreamState, chunk: Seq<u8>)
    requires
        !stream.discarding,
        stream.advanced().0.discarding,
        stream.fed(chunk).advanced().2 is None,
    ensures
        tears_cleanly(stream, chunk),
{
    let front = stream.pending;
    let all = front + chunk;
    lemma_start_in_front(front, chunk, 0);
    lemma_apc_start(front, 0);
    let start = apc_start(front, 0)->0;
    assert(all.take(start) =~= front.take(start));
    let (torn, out, found) = stream.advanced();
    let waiting = front.skip(start);
    assert(waiting + chunk =~= all.skip(start));
    lemma_apc_end_skip(all, start, start + 2);
    assert(apc_end(waiting + chunk, 0) is None) by {
        assert((waiting + chunk)[0] == ESC && (waiting + chunk)[1] == APC_INTRODUCER);
        assert(apc_end(waiting + chunk, 1) == apc_end(waiting + chunk, 2));
    }
    lemma_end_in_front(waiting, chunk, 0);
    lemma_resync_appends(waiting, chunk);
    assert(out + Seq::<u8>::empty() =~= out);
}

proof fn lemma_resync_appends(front: Seq<u8>, chunk: Seq<u8>)
    requires
        apc_end(front, 0) is None,
    ensures
        ({
            let kept = trailing_escape(front);
            &&& apc_end(front + chunk, 0) == match apc_end(kept + chunk, 0) {
                Some(end) => Some(front.len() - kept.len() + end),
                None => None,
            }
            &&& trailing_escape(front + chunk) == trailing_escape(kept + chunk)
        }),
{
    let kept = trailing_escape(front);
    let cut = front.len() - kept.len();
    let all = front + chunk;
    assert(all.skip(cut) =~= kept + chunk);
    lemma_end_passes(front, chunk, 0, cut);
    lemma_apc_end_skip(all, cut, cut);
    if (kept + chunk).len() > 0 {
        assert(all.last() == (kept + chunk).last());
    } else {
        assert(all =~= front);
    }
    assert(trailing_escape(all) =~= trailing_escape(kept + chunk));
}

proof fn lemma_end_passes(front: Seq<u8>, chunk: Seq<u8>, from: int, to: int)
    requires
        0 <= from <= to == front.len() - trailing_escape(front).len(),
        apc_end(front, from) is None,
    ensures
        apc_end(front + chunk, from) == apc_end(front + chunk, to),
    decreases to - from,
{
    if from < to {
        let all = front + chunk;
        assert(all[from] == front[from]);
        if from + 1 < front.len() {
            assert(all[from + 1] == front[from + 1]);
        }
        lemma_end_passes(front, chunk, from + 1, to);
    }
}

proof fn lemma_torn_in_text(stream: StreamState, chunk: Seq<u8>)
    requires
        !stream.discarding,
        !cuts_positioning(stream.pending + chunk, stream.pending.len() as int),
        apc_start(stream.pending, 0) is None,
    ensures
        tears_cleanly(stream, chunk),
{
    let front = stream.pending;
    let all = front + chunk;
    let kept = trailing_escape(front);
    let cut = front.len() - kept.len();
    let text = front.take(cut);
    let rest = kept + chunk;
    assert(front =~= text + kept);
    assert(all =~= text + rest);
    assert(!cuts_positioning(all, cut)) by {
        if kept.len() > 0 {
            assert(all[cut] == ESC);
            lemma_escape_is_no_parameter(all, cut);
        }
    }
    lemma_start_in_front(front, chunk, 0);
    lemma_start_passes(all, 0, cut);
    assert(apc_start(all, 0) == match apc_start(rest, 0) {
        Some(start) => Some(cut + start),
        None => None,
    }) by {
        lemma_start_behind(text, rest, 0);
    }
    let torn = stream.advanced().0;
    assert(torn == (StreamState { pending: kept, ..stream.forwarded(text).0 }));
    match apc_start(rest, 0) {
        Some(start) => lemma_start_behind_text(stream, text, rest, start),
        None => lemma_text_behind_text(stream, text, rest),
    }
    assert(stream.fed(chunk) == (StreamState { pending: text + rest, ..stream }));
    assert(torn.fed(chunk) == (StreamState { pending: rest, ..stream.forwarded(text).0 }));
}

proof fn lemma_start_behind_text(stream: StreamState, text: Seq<u8>, rest: Seq<u8>, start: int)
    requires
        !stream.discarding,
        !cuts_positioning(text + rest, text.len() as int),
        apc_start(rest, 0) == Some(start),
        apc_start(text + rest, 0) == Some(text.len() + start),
    ensures
        ({
            let (next, out) = stream.forwarded(text);
            let (last, more, found) = (StreamState { pending: rest, ..next }).advanced();
            (StreamState { pending: text + rest, ..stream }).advanced() == (last, out + more, found)
        }),
{
    let all = text + rest;
    let cut = text.len() as int;
    lemma_apc_start(rest, 0);
    let before = rest.take(start);
    assert(all.take(cut + start) =~= text + before);
    assert(!cuts_positioning(text + before, cut)) by {
        lemma_uncut_prefix(all, cut + start, cut);
    }
    lemma_torn_text(stream, text, before);
    assert(apc_end(all, cut + start + 2) == match apc_end(rest, start + 2) {
        Some(end) => Some(cut + end),
        None => None,
    }) by {
        assert(all.skip(cut) =~= rest);
        lemma_apc_end_skip(all, cut, cut + start + 2);
    }
    assert(rest.skip(start) =~= all.skip(cut + start));
    if let Some(end) = apc_end(rest, start + 2) {
        lemma_apc_end(rest, start + 2);
        assert(rest.subrange(start, end) =~= all.subrange(cut + start, cut + end));
        assert(rest.skip(end) =~= all.skip(cut + end));
    }
}

proof fn lemma_text_behind_text(stream: StreamState, text: Seq<u8>, rest: Seq<u8>)
    requires
        !stream.discarding,
        !cuts_positioning(text + rest, text.len() as int),
        rest.len() == 0 ==> trailing_escape(text).len() == 0,
        apc_start(rest, 0) is None,
        apc_start(text + rest, 0) is None,
    ensures
        ({
            let (next, out) = stream.forwarded(text);
            let (last, more, found) = (StreamState { pending: rest, ..next }).advanced();
            (StreamState { pending: text + rest, ..stream }).advanced() == (last, out + more, found)
        }),
{
    let all = text + rest;
    let cut = text.len() as int;
    if rest.len() > 0 {
        assert(all.last() == rest.last());
    } else {
        assert(all =~= text);
    }
    assert(trailing_escape(all) =~= trailing_escape(rest));
    let left = trailing_escape(all).len();
    let more = rest.take(rest.len() - left);
    assert(all.take(all.len() - left) =~= text + more);
    assert(!cuts_positioning(text + more, cut)) by {
        lemma_uncut_prefix(all, all.len() - left, cut);
    }
    lemma_torn_text(stream, text, more);
}

/// What waits behind two chunks is what waits behind the two as one.
pub proof fn law_chunks_append(stream: StreamState, first: Seq<u8>, second: Seq<u8>)
    ensures
        stream.fed(first + second) == stream.fed(first).fed(second),
{
    let front = stream.pending + first;
    assert(stream.pending + (first + second) =~= front + second);
    if stream.discarding {
        match apc_end(front, 0) {
            Some(end) => {
                lemma_apc_end(front, 0);
                lemma_end_in_front(front, second, 0);
                assert((front + second).skip(end) =~= front.skip(end) + second);
            },
            None => {
                let kept = trailing_escape(front);
                let cut = front.len() - kept.len();
                lemma_resync_appends(front, second);
                if let Some(end) = apc_end(kept + second, 0) {
                    lemma_apc_end(kept + second, 0);
                    assert((front + second).skip(cut + end) =~= (kept + second).skip(end));
                }
            },
        }
    }
}

/// How the stream is torn into chunks does not matter: wherever the cut falls,
/// be it inside a sequence, its introducer or its terminator, the same bytes
/// reach the screen parser, the same sequence is found, and the same bytes
/// wait. Only a cut of text inside a cursor-positioning sequence can be told,
/// and one behind more of an unfinished sequence than may wait, where the
/// second chunk ends it.
pub proof fn law_tearing_changes_nothing(stream: StreamState, first: Seq<u8>, second: Seq<u8>)
    requires
        ({
            let before = stream.fed(first);
            !before.discarding && apc_start(before.pending, 0) is None ==> !cuts_positioning(
                before.pending + second,
                before.pending.len() as int,
            )
        }),
        !stream.fed(first).discarding && stream.fed(first).advanced().0.discarding ==> stream.fed(
            first + second,
        ).advanced().2 is None,
    ensures
        ({
            let (torn, out, found) = stream.fed(first).advanced();
            let whole = stream.fed(first + second).advanced();
            match found {
                Some(sequence) => whole == (torn.fed(second), out, Some(sequence)),
                None => {
                    let (last, more, next) = torn.fed(second).advanced();
                    whole == (last, out + more, next)
                },
            }
        }),
{
    law_chunks_append(stream, first, second);
    let before = stream.fed(first);
    if before.discarding {
        let more = before.fed(second).advanced().1;
        assert(Seq::<u8>::empty() + more =~= more);
    } else {
        match apc_start(before.pending, 0) {
            Some(start) => if apc_end(before.pending, start + 2) is Some {
                lemma_torn_behind_sequence(before, second);
            } else if before.advanced().0.discarding {
                lemma_torn_in_overlong(before, second);
            } else {
                lemma_torn_in_sequence(before, second);
            },
            None => {
                lemma_torn_in_text(before, second);
            },
        }
        assert(tears_cleanly(before, second));
    }
}

/// Whatever is printed, at most one capped APC waits between chunks.
pub proof fn law_waiting_bytes_are_bounded(stream: StreamState)
    requires
        stream.discarding ==> stream.pending.len() <= 1,
    ensures
        stream.advanced().2 is None ==> stream.advanced().0.pending.len()
            <= MAX_APC_SEQUENCE_BYTES,
        stream.advanced().2 is None && stream.advanced().0.discarding
            ==> stream.advanced().0.pending.len() <= 1,
{
}

/// Finding the next sequence always makes the waiting bytes fewer.
pub proof fn law_every_sequence_consumes_bytes(stream: StreamState)
    ensures
        stream.advanced().2 is Some ==> stream.advanced().0.pending.len() < stream.pending.len(),
{
    lemma_apc_start(stream.pending, 0);
    if let Some(start) = apc_start(stream.pending, 0) {
        lemma_apc_end(stream.pending, start + 2);
    }
}

/// Cuts APC sequences out of the byte stream.
#[derive(Debug)]
pub struct PtyStream {
    pending: Vec<u8>,
    discarding: bool,
    guard: OscGuard,
}

impl View for PtyStream {
    type V = StreamState;

    closed spec fn view(&self) -> StreamState {
        StreamState { pending: self.pending@, discarding: self.discarding, guard: self.guard }
    }
}

/// What a stream yields on its way to the next APC.
#[derive(Debug)]
pub struct Advance {
    /// The bytes for the screen parser.
    pub text: Vec<u8>,
    /// The complete APC behind them.
    pub sequence: Option<Vec<u8>>,
}

/// The bytes of an optional sequence.
pub open spec fn bytes_view(bytes: Option<Vec<u8>>) -> Option<Seq<u8>> {
    match bytes {
        Some(bytes) => Some(bytes@),
        None => None,
    }
}

fn find_apc_start(bytes: &Vec<u8>) -> (found: Option<usize>)
    ensures
        match found {
            Some(start) => apc_start(bytes@, 0) == Some(start as int) && start + 1 < bytes@.len(),
            None => apc_start(bytes@, 0) is None,
        },
{
    let mut i: usize = 0;
    while bytes.len() - i > 1
        invariant
            i <= bytes@.len(),
            apc_start(bytes@, 0) == apc_start(bytes@, i as int),
        decreases bytes.len() - i,
    {
        if bytes[i] == ESC && bytes[i + 1] == APC_INTRODUCER {
            return Some(i);
        }
        i += 1;
    }
    None
}

fn find_apc_end(bytes: &Vec<u8>, from: usize) -> (found: Option<usize>)
    requires
        from <= bytes@.len(),
    ensures
        match found {
            Some(end) => apc_end(bytes@, from as int) == Some(end as int) && from < end
                <= bytes@.len(),
            None => apc_end(bytes@, from as int) is None,
        },
{
    let mut i: usize = from;
    while i < bytes.len()
        invariant
            from <= i <= bytes@.len(),
            apc_end(bytes@, from as int) == apc_end(bytes@, i as int),
        decreases bytes.len() - i,
    {
        if bytes[i] == C1_ST {
            return Some(i + 1);
        }
        if bytes.len() - i > 1 && bytes[i] == ESC && bytes[i + 1] == BACKSLASH {
            return Some(i + 2);
        }
        i += 1;
    }
    None
}

impl PtyStream {
    /// The guard is in order.
    pub open spec fn wf(&self) -> bool {
        self@.wf()
    }

    /// A stream on which nothing has arrived.
    pub fn new() -> (stream: PtyStream)
        ensures
            stream.wf(),
            stream@ == (StreamState {
                pending: Seq::empty(),
                discarding: false,
                guard: OscGuard { state: OscGuardState::Ground, osc_len: 0 },
            }),
    {
        let stream = PtyStream { pending: Vec::new(), discarding: false, guard: OscGuard::new() };
        assert(stream@.pending =~= Seq::empty());
        stream
    }

    /// The OSC guard: whether it drops payload, and its count.
    pub fn guard_state(&self) -> (state: (bool, usize))
        ensures
            state == (
                self@.guard.state == OscGuardState::OscDropping,
                self@.guard.osc_len,
            ),
    {
        (self.guard.state == OscGuardState::OscDropping, self.guard.osc_len)
    }

    /// How many bytes wait, and whether an over-long APC is being discarded.
    pub fn buffer_state(&self) -> (state: (usize, bool))
        ensures
            state.0 == self@.pending.len(),
            state.1 == self@.discarding,
    {
        (self.pending.len(), self.discarding)
    }

    fn keep_trailing_escape(&mut self)
        ensures
            final(self)@ == (StreamState {
                pending: trailing_escape(old(self)@.pending),
                ..old(self)@
            }),
    {
        let count: usize = self.pending.len();
        let kept: bool = count > 0 && self.pending[count - 1] == ESC;
        self.pending.clear();
        if kept {
            self.pending.push(ESC);
        }
        assert(self@.pending =~= trailing_escape(old(self)@.pending));
    }

    /// Puts a chunk behind what waits. While an over-long APC is discarded,
    /// its bytes go, up to and with its terminator.
    pub fn feed(&mut self, chunk: &[u8])
        ensures
            final(self)@ == old(self)@.fed(chunk@),
    {
        let mut i: usize = 0;
        assert(self.pending@ + chunk@.take(0) =~= self.pending@);
        while i < chunk.len()
            invariant
                i <= chunk@.len(),
                self@ == (StreamState {
                    pending: old(self)@.pending + chunk@.take(i as int),
                    ..old(self)@
                }),
            decreases chunk.len() - i,
        {
            self.pending.push(chunk[i]);
            assert(self@.pending =~= old(self)@.pending + chunk@.take(i + 1));
            i += 1;
        }
        assert(chunk@.take(i as int) =~= chunk@);
        if self.discarding {
            match find_apc_end(&self.pending, 0) {
                Some(end) => {
                    let ghost all = self.pending@;
                    let rest = self.pending.split_off(end);
                    self.pending = rest;
                    self.discarding = false;
                    assert(self@.pending =~= all.skip(end as int));
                },
                None => {
                    self.keep_trailing_escape();
                },
            }
        }
    }

    /// Runs up to the next complete APC.
    pub fn advance(&mut self) -> (advance: Advance)
        requires
            old(self).wf(),
        ensures
            final(self).wf(),
            (final(self)@, advance.text@, bytes_view(advance.sequence)) == old(self)@.advanced(),
    {
        if self.discarding {
            let text: Vec<u8> = Vec::new();
            assert(text@ =~= Seq::empty());
            return Advance { text, sequence: None };
        }
        match find_apc_start(&self.pending) {
            None => {
                let count: usize = self.pending.len();
                let ghost all = self.pending@;
                let kept: bool = count > 0 && self.pending[count - 1] == ESC;
                if kept {
                    self.pending.truncate(count - 1);
                }
                assert(self.pending@ =~= all.take(all.len() - trailing_escape(all).len()));
                let positioned_text = normalize_hvp_sequences(self.pending.as_slice());
                let text = self.guard.forward(positioned_text.as_slice());
                self.pending.clear();
                if kept {
                    self.pending.push(ESC);
                }
                assert(self@.pending =~= trailing_escape(all));
                Advance { text, sequence: None }
            },
            Some(start) => {
                let ghost all = self.pending@;
                let mut waiting = self.pending.split_off(start);
                assert(self.pending@ =~= all.take(start as int));
                assert(waiting@ =~= all.skip(start as int));
                let positioned_text = normalize_hvp_sequences(self.pending.as_slice());
                let text = self.guard.forward(positioned_text.as_slice());
                proof {
                    lemma_apc_end_skip(all, start as int, start + 2);
                }
                match find_apc_end(&waiting, 2) {
                    Some(end) => {
                        let rest = waiting.split_off(end);
                        assert(waiting@ =~= all.subrange(start as int, start + end));
                        assert(rest@ =~= all.skip(start + end));
                        self.pending = rest;
                        Advance { text, sequence: Some(waiting) }
                    },
                    None => {
                        let ghost rest = waiting@;
                        self.pending = waiting;
                        if self.pending.len() > MAX_APC_SEQUENCE_BYTES {
                            self.discarding = true;
                            self.keep_trailing_escape();
                        }
                        Advance { text, sequence: None }
                    },
                }
            },
        }
    }

    /// Sends bytes to the screen parser as they are.
    pub fn pass(&mut self, bytes: &[u8]) -> (text: Vec<u8>)
        requires
            old(self).wf(),
        ensures
            final(self).wf(),
            ({
                let (guard, out) = old(self)@.guard.run(bytes@);
                final(self)@ == (StreamState { guard, ..old(self)@ }) && text@ == out
            }),
    {
        self.guard.forward(bytes)
    }
}

/// How the guard goes on from a byte. It enters an OSC by `ESC ]` and leaves it
/// with a bell, a cancel or a substitute, or by an escape; it counts the payload
/// and drops what comes behind 65536 bytes of it. Everything else is forwarded.
pub proof fn law_how_the_guard_goes_on(guard: OscGuard, byte: u8)
    requires
        guard.wf(),
    ensures
        ({
            let (next, forwarded) = guard.after(byte);
            let inside = guard.state is Osc || guard.state is OscDropping;
            let ends = byte == 0x07 || byte == 0x18 || byte == 0x1a;
            &&& guard.state is Ground ==> forwarded && (next.state is Escape <==> byte == 0x1b) && (
            next.state is Ground <==> byte != 0x1b)
            &&& guard.state is Escape ==> forwarded && (next.state is Osc <==> byte == 0x5d)
            &&& guard.state is Escape && byte == 0x5d ==> next.osc_len == 0
            &&& guard.state is Escape && byte != 0x5d ==> (next.state is Ground <==> byte == 0x18
                || byte == 0x1a || 0x20 <= byte <= 0x7e) && (next.state is Escape <==> !(byte
                == 0x18 || byte == 0x1a || 0x20 <= byte <= 0x7e))
            &&& inside && ends ==> forwarded && next.state is Ground
            &&& inside && byte == 0x1b ==> forwarded && next.state is Escape
            &&& guard.state is Osc && !ends && byte != 0x1b ==> next.osc_len == guard.osc_len + 1 && (
            forwarded <==> guard.osc_len < 65536) && (next.state is Osc <==> forwarded) && (
            next.state is OscDropping <==> !forwarded)
            &&& guard.state is OscDropping && !ends && byte != 0x1b ==> !forwarded && next == guard
        }),
{
}

/// An OSC gets through with the first 65536 bytes of its payload, and with its
/// terminator, whatever its length.
pub proof fn law_an_osc_gets_through(payload: Seq<u8>, end: u8)
    requires
        forall|i: int|
            0 <= i < payload.len() ==> (#[trigger] payload[i]) != 0x07 && payload[i] != 0x18
                && payload[i] != 0x1a && payload[i] != 0x1b,
        end == 0x07 || end == 0x18 || end == 0x1a,
    ensures
        ({
            let ground = OscGuard { state: OscGuardState::Ground, osc_len: 0 };
            let (after, out) = ground.run(seq![0x1bu8, 0x5d] + payload + seq![end]);
            &&& after.state is Ground
            &&& payload.len() <= 65536 ==> out == seq![0x1bu8, 0x5d] + payload + seq![end]
            &&& payload.len() > 65536 ==> out == seq![0x1bu8, 0x5d] + payload.take(65536) + seq![
                end,
            ]
        }),
{
    let ground = OscGuard { state: OscGuardState::Ground, osc_len: 0 };
    let head = seq![0x1bu8, 0x5d];
    assert(head.drop_last() =~= seq![0x1bu8]);
    assert(seq![0x1bu8].drop_last() =~= Seq::empty());
    let opened = OscGuard { state: OscGuardState::Osc, osc_len: 0 };
    assert(ground.run(Seq::empty()) == (ground, Seq::<u8>::empty()));
    assert(ground.run(seq![0x1bu8]).0 == (OscGuard {
        state: OscGuardState::Escape,
        osc_len: 0,
    }));
    assert(ground.run(seq![0x1bu8]).1 =~= seq![0x1bu8]);
    assert(ground.run(head).0 == opened);
    assert(ground.run(head).1 =~= head);
    lemma_payload_counted(payload);
    law_chunking_does_not_matter(ground, head, payload);
    let all = head + payload + seq![end];
    assert(all.drop_last() =~= head + payload);
    assert(all.last() == end);
    let (before, out) = ground.run(head + payload);
    assert(ground.run(all).1 =~= out.push(end));
    if payload.len() <= 65536 {
        assert(out.push(end) =~= all);
    } else {
        assert(out.push(end) =~= head + payload.take(65536) + seq![end]);
    }
}

proof fn lemma_payload_counted(payload: Seq<u8>)
    requires
        forall|i: int|
            0 <= i < payload.len() ==> (#[trigger] payload[i]) != 0x07 && payload[i] != 0x18
                && payload[i] != 0x1a && payload[i] != 0x1b,
    ensures
        ({
            let opened = OscGuard { state: OscGuardState::Osc, osc_len: 0 };
            let (after, out) = opened.run(payload);
            &&& payload.len() <= 65536 ==> after == (OscGuard {
                state: OscGuardState::Osc,
                osc_len: payload.len() as usize,
            }) && out == payload
            &&& payload.len() > 65536 ==> after.state is OscDropping && out == payload.take(65536)
        }),
    decreases payload.len(),
{
    if payload.len() > 0 {
        let front = payload.drop_last();
        assert forall|i: int| 0 <= i < front.len() implies (#[trigger] front[i]) != 0x07 && front[i]
            != 0x18 && front[i] != 0x1a && front[i] != 0x1b by {
            assert(front[i] == payload[i]);
        }
        lemma_payload_counted(front);
        let last = payload[payload.len() - 1];
        assert(last == payload.last());
        assert(front.push(last) =~= payload);
        if payload.len() > 65536 {
            if front.len() == 65536 {
                assert(payload.take(65536) =~= front);
            } else {
                assert(payload.take(65536) =~= front.take(65536));
            }
        }
    }
}

/// Cursor positioning is rewritten: only final bytes change, from `f` to `H`,
/// and nothing is added or lost.
pub proof fn law_positioning_changes_final_bytes_only(bytes: Seq<u8>, at: int)
    requires
        0 <= at < bytes.len(),
    ensures
        positioned(bytes, 0).len() == bytes.len(),
        positioned(bytes, 0)[at] == bytes[at] || (bytes[at] == 0x66 && positioned(bytes, 0)[at]
            == 0x48),
{
    lemma_positioned_bytes(bytes, 0, at);
}

proof fn lemma_positioned_bytes(bytes: Seq<u8>, from: int, at: int)
    requires
        0 <= from <= bytes.len(),
    ensures
        positioned(bytes, from).len() == bytes.len() - from,
        from <= at < bytes.len() ==> (positioned(bytes, from)[at - from] == bytes[at] || (bytes[at]
            == 0x66 && positioned(bytes, from)[at - from] == 0x48)),
    decreases bytes.len() - from,
{
    if from < bytes.len() {
        if positions_at(bytes, from) {
            let end = parameters_end(bytes, from + 2);
            lemma_parameters_end(bytes, from + 2);
            lemma_positioned_bytes(bytes, end + 1, at);
        } else {
            lemma_positioned_bytes(bytes, from + 1, at);
        }
    }
}

/// `ESC [ parameters f` is rewritten to `ESC [ parameters H`.
pub proof fn law_positioning_is_rewritten(parameters: Seq<u8>)
    requires
        parameters.len() > 0,
        forall|i: int|
            0 <= i < parameters.len() ==> 0x30 <= (#[trigger] parameters[i]) <= 0x39
                || parameters[i] == 0x3b,
    ensures
        positioned(seq![0x1bu8, 0x5b] + parameters + seq![0x66u8], 0) == seq![0x1bu8, 0x5b]
            + parameters + seq![0x48u8],
{
    let bytes = seq![0x1bu8, 0x5b] + parameters + seq![0x66u8];
    let end = 2 + parameters.len() as int;
    assert forall|i: int| 2 <= i < end implies 0x30 <= (#[trigger] bytes[i]) <= 0x39 || bytes[i]
        == 0x3b by {
        assert(bytes[i] == parameters[i - 2]);
    }
    assert(bytes[end] == 0x66);
    lemma_parameters_run(bytes, 2, end);
    assert(positioned(bytes, end + 1) =~= Seq::empty());
    assert(positioned(bytes, 0) =~= seq![0x1bu8, 0x5b] + parameters + seq![0x48u8]);
}

proof fn lemma_parameters_run(bytes: Seq<u8>, from: int, end: int)
    requires
        0 <= from <= end < bytes.len(),
        forall|i: int|
            from <= i < end ==> 0x30 <= (#[trigger] bytes[i]) <= 0x39 || bytes[i] == 0x3b,
        !(0x30 <= bytes[end] <= 0x39 || bytes[end] == 0x3b),
    ensures
        parameters_end(bytes, from) == end,
    decreases end - from,
{
    if from < end {
        assert(0x30 <= bytes[from] <= 0x39 || bytes[from] == 0x3b);
        lemma_parameters_run(bytes, from + 1, end);
    }
}

/// A sequence runs from the first `ESC _` to the first terminator behind it,
/// `ESC \\` or the one byte 0x9c: the text before it is forwarded, and what is
/// behind it waits.
pub proof fn law_sequences_are_found_whole(
    stream: StreamState,
    start: int,
    end: int,
)
    requires
        !stream.discarding,
        0 <= start,
        start + 2 <= end < stream.pending.len(),
        stream.pending[start] == 0x1b,
        stream.pending[start + 1] == 0x5f,
        forall|i: int|
            0 <= i < start ==> !((#[trigger] stream.pending[i]) == 0x1b && stream.pending[i + 1]
                == 0x5f),
        forall|i: int|
            start + 2 <= i < end ==> (#[trigger] stream.pending[i]) != 0x9c && !(stream.pending[i]
                == 0x1b && stream.pending[i + 1] == 0x5c),
        stream.pending[end] == 0x9c || (end + 1 < stream.pending.len() && stream.pending[end] == 0x1b
            && stream.pending[end + 1] == 0x5c),
    ensures
        ({
            let (after, out, found) = stream.advanced();
            let behind = if stream.pending[end] == 0x9c {
                end + 1
            } else {
                end + 2
            };
            &&& found == Some(stream.pending.subrange(start, behind))
            &&& after.pending == stream.pending.subrange(behind, stream.pending.len() as int)
            &&& !after.discarding
            &&& (after.guard, out) == stream.guard.run(positioned(stream.pending.take(start), 0))
        }),
{
    lemma_start_is(stream.pending, 0, start);
    lemma_end_is(stream.pending, start + 2, end);
    let behind = if stream.pending[end] == 0x9c {
        end + 1
    } else {
        end + 2
    };
    assert(stream.pending.skip(behind) =~= stream.pending.subrange(
        behind,
        stream.pending.len() as int,
    ));
}

proof fn lemma_start_is(bytes: Seq<u8>, from: int, start: int)
    requires
        0 <= from <= start,
        start + 1 < bytes.len(),
        bytes[start] == 0x1b && bytes[start + 1] == 0x5f,
        forall|i: int|
            from <= i < start ==> !((#[trigger] bytes[i]) == 0x1b && bytes[i + 1] == 0x5f),
    ensures
        apc_start(bytes, from) == Some(start),
    decreases start - from,
{
    if from < start {
        assert(!(bytes[from] == 0x1b && bytes[from + 1] == 0x5f));
        lemma_start_is(bytes, from + 1, start);
    }
}

proof fn lemma_no_start(bytes: Seq<u8>, from: int)
    requires
        0 <= from,
        forall|i: int|
            from <= i && i + 1 < bytes.len() ==> !((#[trigger] bytes[i]) == 0x1b && bytes[i + 1]
                == 0x5f),
    ensures
        apc_start(bytes, from) is None,
    decreases bytes.len() - from,
{
    if from + 1 < bytes.len() {
        assert(!(bytes[from] == 0x1b && bytes[from + 1] == 0x5f));
        lemma_no_start(bytes, from + 1);
    }
}

proof fn lemma_end_is(bytes: Seq<u8>, from: int, end: int)
    requires
        0 <= from <= end < bytes.len(),
        forall|i: int|
            from <= i < end ==> (#[trigger] bytes[i]) != 0x9c && !(bytes[i] == 0x1b && bytes[i + 1]
                == 0x5c),
        bytes[end] == 0x9c || (end + 1 < bytes.len() && bytes[end] == 0x1b && bytes[end + 1]
            == 0x5c),
    ensures
        apc_end(bytes, from) == Some(
            if bytes[end] == 0x9c {
                end + 1
            } else {
                end + 2
            },
        ),
    decreases end - from,
{
    if from < end {
        assert(bytes[from] != 0x9c && !(bytes[from] == 0x1b && bytes[from + 1] == 0x5c));
        lemma_end_is(bytes, from + 1, end);
    }
}

proof fn lemma_no_end(bytes: Seq<u8>, from: int)
    requires
        0 <= from,
        forall|i: int|
            from <= i < bytes.len() ==> (#[trigger] bytes[i]) != 0x9c && !(bytes[i] == 0x1b && i + 1
                < bytes.len() && bytes[i + 1] == 0x5c),
    ensures
        apc_end(bytes, from) is None,
    decreases bytes.len() - from,
{
    if from < bytes.len() {
        assert(bytes[from] != 0x9c && !(bytes[from] == 0x1b && from + 1 < bytes.len() && bytes[from
            + 1] == 0x5c));
        lemma_no_end(bytes, from + 1);
    }
}

/// Text without `ESC _` goes on to the screen at once, but for a last escape,
/// which waits.
pub proof fn law_text_goes_on_at_once(stream: StreamState)
    requires
        !stream.discarding,
        forall|i: int|
            0 <= i && i + 1 < stream.pending.len() ==> !((#[trigger] stream.pending[i]) == 0x1b
                && stream.pending[i + 1] == 0x5f),
    ensures
        ({
            let (after, out, found) = stream.advanced();
            let held = stream.pending.len() > 0 && stream.pending.last() == 0x1b;
            &&& found is None
            &&& !after.discarding
            &&& held ==> after.pending == seq![0x1bu8] && (after.guard, out) == stream.guard.run(
                positioned(stream.pending.drop_last(), 0),
            )
            &&& !held ==> after.pending.len() == 0 && (after.guard, out) == stream.guard.run(
                positioned(stream.pending, 0),
            )
        }),
{
    lemma_no_start(stream.pending, 0);
    if stream.pending.len() > 0 && stream.pending.last() == 0x1b {
        assert(stream.pending.take(stream.pending.len() - 1) =~= stream.pending.drop_last());
    } else {
        assert(stream.pending.take(stream.pending.len() as int) =~= stream.pending);
    }
}

/// A sequence without its end waits, up to eight mebibytes; one that is longer
/// is given up, and everything up to its end is thrown away.
pub proof fn law_unfinished_sequences_wait(stream: StreamState, start: int, chunk: Seq<u8>)
    requires
        !stream.discarding,
        0 <= start,
        start + 2 <= stream.pending.len(),
        stream.pending[start] == 0x1b,
        stream.pending[start + 1] == 0x5f,
        forall|i: int|
            0 <= i < start ==> !((#[trigger] stream.pending[i]) == 0x1b && stream.pending[i + 1]
                == 0x5f),
        forall|i: int|
            start + 2 <= i < stream.pending.len() ==> (#[trigger] stream.pending[i]) != 0x9c && !(
            stream.pending[i] == 0x1b && i + 1 < stream.pending.len() && stream.pending[i + 1]
                == 0x5c),
    ensures
        ({
            let (after, out, found) = stream.advanced();
            let waits = stream.pending.subrange(start, stream.pending.len() as int);
            &&& found is None
            &&& (after.guard, out) == stream.guard.run(positioned(stream.pending.take(start), 0))
            &&& waits.len() <= 8 * 1024 * 1024 ==> !after.discarding && after.pending == waits
            &&& waits.len() > 8 * 1024 * 1024 ==> after.discarding && after.pending.len() <= 1
        }),
{
    lemma_start_is(stream.pending, 0, start);
    lemma_no_end(stream.pending, start + 2);
    assert(stream.pending.skip(start) =~= stream.pending.subrange(
        start,
        stream.pending.len() as int,
    ));
}

/// While a sequence is thrown away, a chunk brings it to its end or not: with
/// its terminator, what is behind it counts again.
pub proof fn law_what_is_thrown_away(stream: StreamState, chunk: Seq<u8>, end: int)
    requires
        stream.discarding,
    ensures
        ({
            let all = stream.pending + chunk;
            let after = stream.fed(chunk);
            &&& after.guard == stream.guard
            &&& 0 <= end < all.len() && (all[end] == 0x9c || (end + 1 < all.len() && all[end] == 0x1b
                && all[end + 1] == 0x5c)) && (forall|i: int|
                0 <= i < end ==> (#[trigger] all[i]) != 0x9c && !(all[i] == 0x1b && all[i + 1]
                    == 0x5c)) ==> !after.discarding && after.pending == all.skip(
                if all[end] == 0x9c {
                    end + 1
                } else {
                    end + 2
                },
            )
            &&& (forall|i: int|
                0 <= i < all.len() ==> (#[trigger] all[i]) != 0x9c && !(all[i] == 0x1b && i + 1
                    < all.len() && all[i + 1] == 0x5c)) ==> after.discarding && after.pending.len()
                <= 1
        }),
{
    let all = stream.pending + chunk;
    if 0 <= end < all.len() && (all[end] == 0x9c || (end + 1 < all.len() && all[end] == 0x1b && all[
    end + 1] == 0x5c)) && (forall|i: int|
        0 <= i < end ==> (#[trigger] all[i]) != 0x9c && !(all[i] == 0x1b && all[i + 1] == 0x5c)) {
        lemma_end_is(all, 0, end);
    }
    if forall|i: int|
        0 <= i < all.len() ==> (#[trigger] all[i]) != 0x9c && !(all[i] == 0x1b && i + 1 < all.len()
            && all[i + 1] == 0x5c) {
        lemma_no_end(all, 0);
    }
}

/// A chunk comes behind what waits.
pub proof fn law_chunks_come_behind_what_waits(stream: StreamState, chunk: Seq<u8>)
    requires
        !stream.discarding,
    ensures
        stream.fed(chunk).pending == stream.pending + chunk,
        !stream.fed(chunk).discarding,
        stream.fed(chunk).guard == stream.guard,
{
}

} // verus!
