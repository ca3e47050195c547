//! The byte stream: the OSC guard, APC framing and what reaches the screen.

use std::collections::BTreeSet;

use ratty::inline::{
    ApcOperation, InlineAction, RgpOperation, RgpRegisterSource, TerminalInlineObjects,
    MAX_PENDING_RGP_PAYLOADS, MAX_PENDING_RGP_PAYLOAD_BYTES,
};
use ratty::osc_parser::RattyAiCommand;
use ratty::pty::{
    normalize_hvp_sequences, OscGuard, OscGuardState, PtyStream, BEL, CAN, ESC,
    MAX_APC_SEQUENCE_BYTES, MAX_OSC_SEQUENCE_BYTES, SUB,
};
use ratty::screen::TerminalScreen;

const OSC_INTRODUCER: u8 = b']';

/// Runs bytes through the guard, returning what it forwarded and its final
/// state.
fn guard_forward(bytes: &[u8]) -> (Vec<u8>, OscGuard) {
    let mut guard = OscGuard::new();
    let out = guard.forward(bytes);
    (out, guard)
}

/// Fields of `ratty;g;` content, as far as these streams use them.
fn decode(sequence: &[u8]) -> ApcOperation {
    let text = match std::str::from_utf8(sequence) {
        Ok(text) => text,
        Err(_) => return ApcOperation::Unclaimed,
    };
    let body = match text.strip_prefix("\x1b_ratty;g;").and_then(|rest| rest.strip_suffix("\x1b\\"))
    {
        Some(body) => body,
        None => return ApcOperation::Unclaimed,
    };
    match body {
        "d" => return ApcOperation::Rgp(RgpOperation::Delete { object_id: None }),
        "s" => return ApcOperation::Rgp(RgpOperation::SupportQuery),
        _ => {}
    }
    let fields: Vec<&str> = body.split(';').collect();
    if fields[0] != "r" {
        return ApcOperation::Unclaimed;
    }
    let value = |key: &str| {
        fields.iter().find_map(|field| field.strip_prefix(key)).unwrap_or_default().to_string()
    };
    ApcOperation::Rgp(RgpOperation::Register {
        object_id: value("id=").parse().expect("an id"),
        format: value("fmt="),
        normalize: false,
        source: RgpRegisterSource::Payload {
            name: Some(value("name=")),
            more: value("more=") == "1",
            data: unbase64(fields[fields.len() - 1].as_bytes()),
        },
    })
}

fn unbase64(text: &[u8]) -> Vec<u8> {
    let digit = |byte: u8| match byte {
        b'A'..=b'Z' => byte - b'A',
        b'a'..=b'z' => byte - b'a' + 26,
        b'0'..=b'9' => byte - b'0' + 52,
        b'+' => 62,
        _ => 63,
    };
    let mut out = Vec::with_capacity(text.len() / 4 * 3);
    for group in text.chunks(4) {
        let n = group.iter().fold(0_u32, |n, byte| n * 64 + u32::from(digit(*byte)));
        out.extend_from_slice(&n.to_be_bytes()[1..]);
    }
    out
}

/// A terminal: its inline objects and its screen.
struct Terminal {
    inline: TerminalInlineObjects,
    screen: TerminalScreen,
    replies: usize,
}

impl Terminal {
    fn new(rows: u16, cols: u16) -> Terminal {
        Terminal {
            inline: TerminalInlineObjects::default(),
            screen: TerminalScreen::new(rows, cols, 0).expect("a drawable grid"),
            replies: 0,
        }
    }

    fn feed(&mut self, chunk: &[u8]) {
        let mut request = self.inline.consume_pty_output(chunk, &mut self.screen);
        while let Some(found) = request {
            let operation = decode(&found.sequence);
            let action =
                self.inline.handle_apc_sequence(&found.sequence, operation, &mut self.screen);
            if matches!(action, InlineAction::ReplySupport) {
                self.replies += 1;
            }
            request = self.inline.resume_pty_output(&mut self.screen);
        }
    }
}

fn test_terminal() -> Terminal {
    Terminal::new(4, 40)
}

#[test]
fn osc_guard_passes_bounded_sequences_untouched() {
    // A normal OSC (title) and surrounding text are forwarded verbatim.
    let title = b"before\x1b]0;a window title\x07after";
    let (out, guard) = guard_forward(title);
    assert_eq!(out, title);
    assert_eq!(guard.state, OscGuardState::Ground);

    // Non-OSC escapes must never be mistaken for OSC.
    let mixed = b"\x1b[1;2mhi\x1b\\a ] bracket\x1b]0;t\x07";
    let (out, _) = guard_forward(mixed);
    assert_eq!(out, mixed);
}

#[test]
fn osc_guard_bounds_an_oversized_osc_payload() {
    let mut seq = b"\x1b]52;".to_vec();
    seq.resize(seq.len() + MAX_OSC_SEQUENCE_BYTES * 2, b'x'); // no terminator
    let (out, guard) = guard_forward(&seq);

    // The introducer plus at most the cap of payload gets through.
    assert!(out.starts_with(b"\x1b]52;"));
    assert!(out.len() <= MAX_OSC_SEQUENCE_BYTES + 8);
    assert_eq!(guard.state, OscGuardState::OscDropping);
    assert_eq!(
        guard.osc_len,
        MAX_OSC_SEQUENCE_BYTES + 1,
        "the counter freezes one past the cap"
    );
}

#[test]
fn osc_guard_forwards_the_terminator_and_recovers() {
    let mut guard = OscGuard::new();
    let mut seq = b"\x1b]0;".to_vec();
    seq.resize(seq.len() + MAX_OSC_SEQUENCE_BYTES + 100, b'x');
    seq.push(BEL);
    let out = guard.forward(&seq);

    assert_eq!(guard.state, OscGuardState::Ground, "the terminator ended the OSC");
    assert_eq!(
        out.iter().filter(|&&byte| byte == BEL).count(),
        1,
        "the oversized OSC's own terminator is forwarded, not dropped"
    );
    assert_eq!(*out.last().expect("nonempty"), BEL);
    assert!(out.len() <= MAX_OSC_SEQUENCE_BYTES + 8);

    // The same guard recovers: a following normal OSC passes intact.
    assert_eq!(guard.forward(b"\x1b]0;short\x07"), b"\x1b]0;short\x07");
    assert_eq!(guard.state, OscGuardState::Ground);
}

#[test]
fn osc_guard_tracks_osc_after_an_intervening_escape_byte() {
    for prefix in [0x00u8, 0x05, 0x17, 0x19, 0x1b, 0x1f, 0x7f, 0x80, 0xff] {
        let mut seq = vec![ESC, prefix, OSC_INTRODUCER];
        seq.resize(seq.len() + MAX_OSC_SEQUENCE_BYTES * 2, b'x');
        let (out, guard) = guard_forward(&seq);
        assert_eq!(
            guard.state,
            OscGuardState::OscDropping,
            "ESC {prefix:#04x} ] must still be tracked as an OSC",
        );
        assert!(out.len() <= MAX_OSC_SEQUENCE_BYTES + 8);
    }

    // A byte that leaves the escape state must not be treated as still in it.
    let (_, guard) = guard_forward(b"\x1b[]xxxxx");
    assert_eq!(guard.state, OscGuardState::Ground);
    let (_, guard) = guard_forward(b"\x1b\x18]xxxxx");
    assert_eq!(guard.state, OscGuardState::Ground);
}

#[test]
fn osc_guard_recovers_on_every_terminator_kind_while_dropping() {
    for terminator in [CAN, SUB, ESC] {
        let mut seq = b"\x1b]0;".to_vec();
        seq.resize(seq.len() + MAX_OSC_SEQUENCE_BYTES + 50, b'x');
        seq.push(terminator);
        let (_, guard) = guard_forward(&seq);
        assert_ne!(
            guard.state,
            OscGuardState::OscDropping,
            "terminator {terminator:#04x} must end the dropped OSC",
        );
    }
}

#[test]
fn hvp_becomes_cup() {
    assert_eq!(normalize_hvp_sequences(b"a\x1b[3;4fb"), b"a\x1b[3;4Hb");
    assert_eq!(normalize_hvp_sequences(b"\x1b[7f\x1b[8f"), b"\x1b[7H\x1b[8H");
    // Without parameters it stays.
    assert_eq!(normalize_hvp_sequences(b"\x1b[f"), b"\x1b[f");
    assert_eq!(normalize_hvp_sequences(b"\x1b[3;4mf"), b"\x1b[3;4mf");
    assert_eq!(normalize_hvp_sequences(b"\x1b[3;4"), b"\x1b[3;4");
}

#[test]
fn oversized_osc_stays_bounded_across_chunks_and_keeps_vte_in_sync() {
    let mut terminal = test_terminal();
    // A multi-megabyte unterminated OSC arriving in 16 KiB reads.
    let mut first = b"\x1b]52;".to_vec();
    first.resize(16 * 1024, b'x');
    terminal.feed(&first);
    for _ in 0..256 {
        terminal.feed(&vec![b'x'; 16 * 1024]);
    }

    let (dropping, osc_len) = terminal.inline.osc_guard_state();
    assert!(dropping, "the guard engaged on the oversized OSC");
    assert!(
        osc_len <= MAX_OSC_SEQUENCE_BYTES + 1,
        "the screen received at most the cap, not the multi-megabyte stream"
    );

    // Terminate the OSC and print visible text: it must land on screen.
    terminal.feed(b"\x07hello");
    assert!(terminal.screen.contents().contains("hello"));
}

#[test]
fn unterminated_apc_stays_bounded_across_chunks() {
    let mut terminal = test_terminal();
    let mut first = b"\x1b_ratty;g;r;id=1;fmt=obj;source=payload;more=0;".to_vec();
    first.resize(64 * 1024, b'A');
    terminal.feed(&first);
    for _ in 0..192 {
        terminal.feed(&vec![b'A'; 64 * 1024]);
        let (buffered, _) = terminal.inline.apc_buffer_state();
        assert!(
            buffered <= MAX_APC_SEQUENCE_BYTES + 64 * 1024,
            "the APC accumulator grew to {buffered} bytes, past the cap",
        );
    }

    let (buffered, discarding) = terminal.inline.apc_buffer_state();
    assert!(discarding, "the over-long APC is being discarded");
    assert!(
        buffered <= 1,
        "a discarded APC retains at most a split terminator, held {buffered} bytes",
    );
}

#[test]
fn discarded_apc_resyncs_at_its_terminator() {
    let mut terminal = test_terminal();
    let mut seq = b"\x1b_ratty;g;r;id=1;fmt=obj;source=payload;more=0;".to_vec();
    seq.resize(MAX_APC_SEQUENCE_BYTES + 4096, b'A');
    terminal.feed(&seq);
    assert!(terminal.inline.apc_buffer_state().1, "the guard engaged");

    // The tail of the discarded APC must not reach the screen as text.
    terminal.feed(b"AAAAAAAA");
    assert!(!terminal.screen.contents().contains("AAAA"));

    // Its terminator ends the discard; following output parses normally.
    terminal.feed(b"\x1b\\hello");
    let (buffered, discarding) = terminal.inline.apc_buffer_state();
    assert!(!discarding, "the terminator resynced the parser");
    assert_eq!(buffered, 0, "the buffer drained past the terminator");
    assert!(terminal.screen.contents().contains("hello"));
}

#[test]
fn discarded_apc_resyncs_on_a_split_terminator() {
    let mut terminal = test_terminal();
    let mut seq = b"\x1b_ratty;g;".to_vec();
    seq.resize(MAX_APC_SEQUENCE_BYTES + 16, b'A');
    terminal.feed(&seq);
    assert!(terminal.inline.apc_buffer_state().1);

    // The lone ESC has to survive the buffer purge.
    terminal.feed(b"\x1b");
    assert!(terminal.inline.apc_buffer_state().1, "still awaiting the ST");
    terminal.feed(b"\\hello");
    assert!(!terminal.inline.apc_buffer_state().1, "the split ST resynced");
    assert!(terminal.screen.contents().contains("hello"));
}

#[test]
fn large_terminated_rgp_register_still_parses() {
    let mut terminal = test_terminal();
    let payload = "A".repeat(MAX_APC_SEQUENCE_BYTES / 2);
    let sequence =
        format!("\x1b_ratty;g;r;id=7;fmt=obj;source=payload;more=1;name=big.obj;{payload}\x1b\\");
    let bytes = sequence.into_bytes();
    assert!(bytes.len() > 4 * 1024 * 1024);

    // Delivered in 64 KiB reads, the way a real stream arrives.
    for chunk in bytes.chunks(64 * 1024) {
        terminal.feed(chunk);
    }

    let (buffered, discarding) = terminal.inline.apc_buffer_state();
    assert!(!discarding, "a terminated sequence under the cap is not discarded");
    assert_eq!(buffered, 0, "the whole sequence was consumed");
    let (runs, accumulated) = terminal.inline.pending_rgp_payload_state();
    assert_eq!(runs, 1, "the register opened a chunk run");
    assert!(accumulated >= 3 * 1024 * 1024, "decoded {accumulated} bytes");
    assert!(
        !terminal.screen.contents().contains("AAAA"),
        "a handled APC must never be echoed as text"
    );
}

#[test]
fn one_rgp_payload_run_cannot_grow_without_bound() {
    let mut terminal = test_terminal();
    // Every chunk here is individually terminated: only the accumulator
    // budget stops the run.
    let chunk = "A".repeat(4 * 1024 * 1024); // 3 MiB decoded per chunk
    let sequence =
        format!("\x1b_ratty;g;r;id=1;fmt=obj;source=payload;more=1;name=t.obj;{chunk}\x1b\\")
            .into_bytes();
    for _ in 0..32 {
        terminal.feed(&sequence);
        let (_, accumulated) = terminal.inline.pending_rgp_payload_state();
        assert!(
            accumulated <= MAX_PENDING_RGP_PAYLOAD_BYTES,
            "in-flight payloads reached {accumulated} bytes, past the cap",
        );
    }
}

#[test]
fn concurrent_rgp_payload_runs_stay_bounded() {
    let mut terminal = test_terminal();
    // A fresh id per chunk grows the map, not any single run.
    for id in 0..(MAX_PENDING_RGP_PAYLOADS as u32 * 4) {
        let sequence =
            format!("\x1b_ratty;g;r;id={id};fmt=obj;source=payload;more=1;name=t.obj;QUFB\x1b\\");
        terminal.feed(sequence.as_bytes());
    }

    let (runs, _) = terminal.inline.pending_rgp_payload_state();
    assert!(
        runs <= MAX_PENDING_RGP_PAYLOADS,
        "{runs} concurrent chunk runs are in flight, past the cap",
    );
}

// What frames for another pane do to the pane that carries them. A screen is
// its text, and its text with attributes and cursor.

/// The bytes that a stream hands to the screen.
fn forwarded(chunks: &[&[u8]]) -> Vec<u8> {
    let mut stream = PtyStream::new();
    let mut out = Vec::new();
    for chunk in chunks {
        stream.feed(chunk);
        loop {
            let advance = stream.advance();
            out.extend(advance.text);
            match advance.sequence {
                Some(sequence) => {
                    if matches!(decode(&sequence), ApcOperation::Unclaimed) {
                        out.extend(stream.pass(&sequence));
                    }
                }
                None => break,
            }
        }
    }
    out
}

fn feed_teed(chunks: &[&[u8]]) -> (String, String, Vec<u8>) {
    let bytes = forwarded(chunks);
    let mut parser = vt100::Parser::new(24, 80, 0);
    parser.process(&bytes);
    let formatted = String::from_utf8_lossy(&parser.screen().contents_formatted()).into_owned();

    let mut terminal = Terminal::new(24, 80);
    for chunk in chunks {
        terminal.feed(chunk);
    }
    (terminal.screen.contents(), formatted, bytes)
}

fn feed(chunks: &[&[u8]]) -> (String, String) {
    let (text, formatted, _) = feed_teed(chunks);
    (text, formatted)
}

/// Pane traffic, in the pieces that a sequence-aware muxer would treat as
/// atomic. Every token is unique so loss is detectable by name.
fn baseline_parts() -> Vec<&'static [u8]> {
    vec![
        b"\x1b[2J\x1b[H",
        b"ALPHA0 plain text line\r\n",
        b"\x1b[31mBRAVO1 red\x1b[0m normal\r\n",
        b"\x1b[1;33;44mCHARLIE2 bold on blue\x1b[m\r\n",
        b"\x1b[5C\x1b[7mDELTA3\x1b[27m indented and reversed\r\n",
        b"\x1b_ratty;g;d\x1b\\",
        b"ECHO4 after the rgp delete\r\n",
        b"\x1b_ratty;g;s\x1b\\",
        b"FOXTROT5 after the rgp query\r\n",
        b"\x1b[12;4HGOLF6 cursor-addressed\r\n",
        b"\x1b[1;20r\x1b[15;1HHOTEL7 below a scroll region\r\n\x1b[r",
    ]
}

const BASELINE_TOKENS: &[&str] =
    &["ALPHA0", "BRAVO1", "CHARLIE2", "DELTA3", "ECHO4", "FOXTROT5", "GOLF6", "HOTEL7"];

fn baseline_bytes() -> Vec<u8> {
    baseline_parts().concat()
}

/// Offsets between whole pieces.
fn safe_offsets() -> Vec<usize> {
    let mut offsets = vec![0usize];
    let mut at = 0;
    for part in baseline_parts() {
        at += part.len();
        offsets.push(at);
    }
    offsets
}

/// Offsets strictly inside the pane's own escape sequences.
fn adversarial_offsets() -> Vec<usize> {
    let bytes = baseline_bytes();
    let mut offsets = BTreeSet::new();
    for (i, byte) in bytes.iter().enumerate() {
        if *byte == 0x1b {
            offsets.insert(i + 1);
            offsets.insert(i + 2);
            if i + 4 <= bytes.len() {
                offsets.insert(i + 4);
            }
        }
    }
    offsets.into_iter().filter(|o| *o <= bytes.len()).collect()
}

/// Splices `frame` into the baseline at every offset.
fn muxed(frame: &[u8], offsets: &[usize]) -> Vec<u8> {
    let bytes = baseline_bytes();
    let mut out = Vec::new();
    let mut previous = 0usize;
    for offset in offsets {
        out.extend_from_slice(&bytes[previous..*offset]);
        out.extend_from_slice(frame);
        previous = *offset;
    }
    out.extend_from_slice(&bytes[previous..]);
    out
}

/// `ESC _ ratty;m; <pane> ; <payload>` and a terminator.
fn mux_frame(pane: u32, payload: &[u8], c1_terminator: bool) -> Vec<u8> {
    let mut frame = format!("\x1b_ratty;m;{pane};").into_bytes();
    frame.extend_from_slice(payload);
    if c1_terminator {
        frame.push(0x9c);
    } else {
        frame.extend_from_slice(b"\x1b\\");
    }
    frame
}

fn base64(data: &[u8]) -> String {
    const ALPHABET: &[u8] = b"ABCDEFGHIJKLMNOPQRSTUVWXYZabcdefghijklmnopqrstuvwxyz0123456789+/";
    let mut out = String::new();
    for group in data.chunks(3) {
        let bytes = [group[0], *group.get(1).unwrap_or(&0), *group.get(2).unwrap_or(&0)];
        let n = (u32::from(bytes[0]) << 16) | (u32::from(bytes[1]) << 8) | u32::from(bytes[2]);
        for (i, shift) in [18, 12, 6, 0].into_iter().enumerate() {
            out.push(if i <= group.len() {
                ALPHABET[((n >> shift) & 63) as usize] as char
            } else {
                '='
            });
        }
    }
    out
}

/// How a screen differs from the baseline's: whether a needle shows, whether
/// a token is missing. `None` where it does not.
fn compare(
    base: &(String, String),
    got: &(String, String),
    needles: &[String],
) -> Option<(bool, bool)> {
    if base == got {
        return None;
    }
    let leaked = needles
        .iter()
        .any(|needle| got.0.contains(needle.as_str()) && !base.0.contains(needle.as_str()));
    let lost = BASELINE_TOKENS
        .iter()
        .any(|token| base.0.contains(token) && !got.0.contains(token));
    Some((leaked, lost))
}

fn drip(stream: &[u8]) -> Vec<&[u8]> {
    (0..stream.len()).map(|i| &stream[i..i + 1]).collect()
}

/// Frames of every shape, with what would show if their payload leaked.
fn cases() -> Vec<(String, Vec<u8>, Vec<String>)> {
    let ascii = b"MUXPAYLOAD pane one says hi MUXTAIL".to_vec();
    let smart = "MUXPAYLOAD \u{201C}smart\u{201D} quotes MUXTAIL".as_bytes().to_vec();
    let ansi = b"MUXPAYLOAD \x1b[31mred\x1b[0m \x1b[2J MUXTAIL".to_vec();
    let smart_ansi =
        "MUXPAYLOAD \u{201C}q\u{201D} \u{1b}[31mred\u{1b}[0m MUXTAIL".as_bytes().to_vec();
    let inner_st = b"MUXPAYLOAD\x1b\\MUXTAIL".to_vec();

    let mut cases = Vec::new();
    for (terminator_name, c1) in [("ESC-backslash", false), ("bare-0x9c", true)] {
        for (encoding, payload) in [
            ("base64(ascii)", base64(&ascii).into_bytes()),
            ("base64(ansi)", base64(&ansi).into_bytes()),
            ("raw-ascii", ascii.clone()),
            ("raw-utf8-smartquote", smart.clone()),
            ("raw-smartquote+ansi", smart_ansi.clone()),
            ("raw-ansi", ansi.clone()),
            ("raw-inner-ST", inner_st.clone()),
        ] {
            cases.push((
                format!("{encoding} / {terminator_name}"),
                mux_frame(1, &payload, c1),
                vec![
                    "MUXPAYLOAD".to_string(),
                    "MUXTAIL".to_string(),
                    "ratty;m".to_string(),
                    String::from_utf8_lossy(&payload).into_owned(),
                ],
            ));
        }
    }
    let mut back_to_back = mux_frame(1, base64(&ascii).as_bytes(), false);
    back_to_back.extend_from_slice(&mux_frame(2, base64(&ascii).as_bytes(), false));
    cases.push((
        "base64 x2 back-to-back / ESC-backslash".to_string(),
        back_to_back,
        vec!["MUXPAYLOAD".into(), "ratty;m".into(), base64(&ascii)],
    ));
    cases.push((
        "near-miss prefix rattyX;m / ESC-backslash".to_string(),
        b"\x1b_rattyX;m;1;MUXPAYLOAD near miss MUXTAIL\x1b\\".to_vec(),
        vec!["MUXPAYLOAD".into(), "rattyX".into(), "MUXTAIL".into()],
    ));
    cases
}

#[test]
fn spike55_item3_pane0_corruption_report() {
    let base = feed(&[&baseline_bytes()[..]]);
    assert!(
        BASELINE_TOKENS.iter().all(|t| base.0.contains(t)),
        "the baseline itself must render every token; got {:?}",
        base.0,
    );
    assert!(
        !base.0.contains("ratty"),
        "the baseline's own APCs must be claimed, not echoed; got {:?}",
        base.0,
    );
    for (family, offsets) in [("SAFE", safe_offsets()), ("ADVERSARIAL", adversarial_offsets())] {
        for (name, frame, needles) in cases() {
            let stream = muxed(&frame, &offsets);
            let (mut tearings, mut diverged) = (0usize, 0usize);
            for k in (0..=stream.len()).step_by(17) {
                tearings += 1;
                let got = feed(&[&stream[..k], &stream[k..]]);
                diverged += usize::from(compare(&base, &got, &needles).is_some());
            }
            for i in (0..stream.len()).step_by(293) {
                for j in (i..=stream.len()).step_by(311) {
                    tearings += 1;
                    let got = feed(&[&stream[..i], &stream[i..j], &stream[j..]]);
                    diverged += usize::from(compare(&base, &got, &needles).is_some());
                }
            }
            tearings += 1;
            diverged += usize::from(compare(&base, &feed(&drip(&stream)), &needles).is_some());
            println!("{family} {name}: {tearings} tearings, {diverged} diverged");
        }
    }
}

/// U+201C encodes as E2 80 9C: a frame carrying raw UTF-8 with a smart quote
/// ends there.
#[test]
fn spike55_hypothesis_raw_utf8_0x9c_early_termination() {
    let variants: Vec<(Vec<u8>, bool)> = vec![
        ("hello \u{201C}quoted\u{201D} world".into(), false),
        ("hello \u{201C}quoted\u{201D} world".into(), true),
        ("hello \u{201C}q\u{201D} \u{1b}[31mLEAKED\u{1b}[0m world".into(), false),
    ];
    let mut any_early = false;
    for (payload, c1) in variants {
        assert!(
            payload.windows(3).any(|w| w == [0xe2, 0x80, 0x9c]),
            "the payload must actually carry an embedded 0x9c",
        );
        let frame = mux_frame(1, &payload, c1);
        let mut stream = PtyStream::new();
        stream.feed(&frame);
        let found = stream.advance().sequence.expect("the frame terminates somewhere");
        assert_eq!(found, frame[..found.len()]);
        any_early |= found.len() < frame.len();
    }
    assert!(any_early, "the whole frame was consumed");
}

#[test]
fn spike55_near_miss_corpus() {
    let base_text = "ALPHA0 plain\r\n";
    let corpus: Vec<Vec<u8>> = vec![
        b"\x1b_".to_vec(),
        b"\x1b_ratt".to_vec(),
        b"\x1b_ratty;".to_vec(),
        b"\x1b_ratty;m".to_vec(),
        b"\x1b_ratty;m;1;MUXPAYLOAD".to_vec(),
        b"ratty;m;0;hello MUXPAYLOAD".to_vec(),
    ];
    for tail in corpus {
        let mut stream = base_text.as_bytes().to_vec();
        stream.extend_from_slice(&tail);
        for k in 0..=stream.len() {
            let got = feed(&[&stream[..k], &stream[k..]]);
            assert!(got.0.contains("ALPHA0 plain"), "tear@{k}: {:?}", got.0);
        }
    }

    // The literal-text near miss must reach the screen untouched.
    let literal = b"ALPHA0 plain\r\nratty;m;0;hello MUXPAYLOAD".to_vec();
    for k in 0..=literal.len() {
        let got = feed(&[&literal[..k], &literal[k..]]);
        assert!(
            got.0.contains("ratty;m;0;hello MUXPAYLOAD"),
            "tear@{k}: a literal near miss must reach the screen verbatim; got {:?}",
            got.0,
        );
    }

    // A terminator torn across the chunk boundary.
    let frame = mux_frame(1, base64(b"MUXPAYLOAD").as_bytes(), false);
    let mut stream = base_text.as_bytes().to_vec();
    stream.extend_from_slice(&frame);
    stream.extend_from_slice(b"BRAVO1 after\r\n");
    let split = stream.len() - b"BRAVO1 after\r\n".len() - 1;
    assert_eq!(stream[split - 1], 0x1b, "the split really is mid-terminator");
    let got = feed(&[&stream[..split], &stream[split..]]);
    assert!(
        got.0.contains("ALPHA0") && got.0.contains("BRAVO1") && !got.0.contains("MUX"),
        "a torn terminator must not corrupt the screen; got {:?}",
        got.0,
    );
}

#[test]
fn spike55_base64_esc_st_framing_never_touches_pane0() {
    let base = feed(&[&baseline_bytes()[..]]);
    let payload = base64(b"MUXPAYLOAD pane one says hi MUXTAIL");
    let frame = mux_frame(1, payload.as_bytes(), false);
    let stream = muxed(&frame, &safe_offsets());
    let needles = vec!["MUXPAYLOAD".to_string(), "ratty;m".to_string(), payload];
    for k in 0..=stream.len() {
        let got = feed(&[&stream[..k], &stream[k..]]);
        assert!(compare(&base, &got, &needles).is_none(), "2-way@{k} changed the screen");
    }
    assert!(
        compare(&base, &feed(&drip(&stream)), &needles).is_none(),
        "a drip changed the screen"
    );
}

/// The screen parser does not take a bare 0x9c as a terminator, and swallows
/// what follows until the next escape.
#[test]
fn spike55_bare_c1_st_terminator_swallows_pane0() {
    let base = feed(&[&baseline_bytes()[..]]);
    let frame = mux_frame(1, base64(b"MUXPAYLOAD").as_bytes(), true);
    let stream = muxed(&frame, &safe_offsets());
    let got = feed(&[&stream[..]]);

    assert_ne!(base.0, got.0, "a bare-0x9c frame left the screen untouched");
    assert!(
        BASELINE_TOKENS.iter().any(|token| base.0.contains(token) && !got.0.contains(token)),
        "expected text to be swallowed by the wedged parser",
    );
    assert!(!got.0.contains("MUX"), "the loss is a wedge, not a leak; got {:?}", got.0);
}

/// A raw payload's own escape pulls the screen parser out of the APC string.
#[test]
fn spike55_raw_payload_executes_against_pane0() {
    let base = feed(&[&baseline_bytes()[..]]);
    let frame = mux_frame(1, b"BEFORE \x1b[2J LEAKED", false);
    let stream = muxed(&frame, &safe_offsets());
    let got = feed(&[&stream[..]]);

    assert!(got.0.contains("LEAKED"), "expected the payload's text; got {:?}", got.0);
    assert!(
        BASELINE_TOKENS.iter().all(|token| !got.0.contains(token)),
        "expected the payload's erase to have cleared the screen; got {:?}",
        got.0,
    );
    assert!(base.0 != got.0, "the baseline must not already look like this");
}

/// Removes every leftmost non-overlapping occurrence of `needle`.
fn strip_all(haystack: &[u8], needle: &[u8]) -> Vec<u8> {
    let mut out = Vec::with_capacity(haystack.len());
    let mut i = 0;
    while i < haystack.len() {
        if haystack[i..].starts_with(needle) {
            i += needle.len();
        } else {
            out.push(haystack[i]);
            i += 1;
        }
    }
    out
}

#[test]
fn spike55_item1_byte_level_oracle_report() {
    let base = forwarded(&[&baseline_bytes()[..]]);
    assert!(base.len() < baseline_bytes().len(), "the baseline's own APCs are claimed");
    for (family, offsets) in [("SAFE", safe_offsets()), ("ADVERSARIAL", adversarial_offsets())] {
        for (name, frame, _) in cases() {
            let stream = muxed(&frame, &offsets);
            let (mut tearings, mut strict, mut elided) = (0usize, 0usize, 0usize);
            for k in (0..=stream.len()).step_by(5) {
                let got = forwarded(&[&stream[..k], &stream[k..]]);
                tearings += 1;
                strict += usize::from(got != base);
                elided += usize::from(strip_all(&got, &frame) != base);
            }
            let got = forwarded(&drip(&stream));
            tearings += 1;
            strict += usize::from(got != base);
            elided += usize::from(strip_all(&got, &frame) != base);
            println!("{family} {name}: {tearings} tearings, {strict} strict, {elided} elided");
        }
    }
}

/// An unclaimed frame goes to the screen parser whole, and nothing else does.
#[test]
fn spike55_item1_byte_oracle_fails_the_shape_the_screen_oracle_passed() {
    let (base_text, base_fmt, base_forwarded) = feed_teed(&[&baseline_bytes()[..]]);
    let payload = base64(b"MUXPAYLOAD pane one says hi MUXTAIL");
    let frame = mux_frame(1, payload.as_bytes(), false);
    let stream = muxed(&frame, &safe_offsets());

    let mut screen_diverged = 0usize;
    let mut strict_diverged = 0usize;
    let mut elided_diverged = 0usize;
    let mut tearings = 0usize;
    for k in 0..=stream.len() {
        let got = feed_teed(&[&stream[..k], &stream[k..]]);
        tearings += 1;
        screen_diverged += usize::from(got.0 != base_text || got.1 != base_fmt);
        strict_diverged += usize::from(got.2 != base_forwarded);
        elided_diverged += usize::from(strip_all(&got.2, &frame) != base_forwarded);
    }
    assert_eq!(screen_diverged, 0, "the screens agree");
    assert_eq!(strict_diverged, tearings, "the frame is forwarded verbatim on every tearing");
    assert_eq!(elided_diverged, 0, "nothing other than intact frames is forwarded");
}

/// Torn between the ESC and the `_` of a claimed APC, the two halves stay
/// together.
#[test]
fn spike55_item2_byte_oracle_detects_trailing_esc_retention() {
    let stream = b"ALPHA0\r\n\x1b_ratty;g;d\x1b\\BRAVO1\r\n".to_vec();
    let split = stream.iter().position(|b| *b == 0x1b).expect("the stream contains an ESC") + 1;
    assert_eq!(stream[split - 1], 0x1b, "split really is after the ESC");
    assert_eq!(stream[split], b'_', "split really is before the `_`");

    let whole = feed_teed(&[&stream]);
    let torn = feed_teed(&[&stream[..split], &stream[split..]]);
    assert_eq!(whole.0, torn.0, "the screen is identical either way");
    assert_eq!(whole.2, torn.2, "tearing must not change the bytes that are forwarded");
    assert!(
        !whole.2.contains(&0x1b),
        "the claimed APC must contribute no bytes at all; got {:?}",
        String::from_utf8_lossy(&whole.2),
    );
}

#[test]
fn spike55_k4_lost_terminator_stalls_pane0() {
    let mut truncated = mux_frame(1, base64(b"MUXPAYLOAD").as_bytes(), false);
    truncated.truncate(truncated.len() - 2); // drop the terminator
    assert!(!truncated.ends_with(b"\x1b\\"));

    let (screen, _, forwarded) = feed_teed(&[
        b"ALPHA0 first\r\n",
        &truncated,
        b"BRAVO1 second\r\n",
        b"CHARLIE2 third\r\n",
    ]);
    assert!(screen.contains("ALPHA0"), "output before the frame must survive");
    assert!(
        !screen.contains("BRAVO1") && !screen.contains("CHARLIE2"),
        "output behind the frame reached the screen; got {screen:?}",
    );
    assert!(
        !forwarded.windows(6).any(|w| w == b"BRAVO1"),
        "bytes behind the frame must never be forwarded",
    );

    // The stall ends only when a terminator appears.
    let (recovered, _, _) = feed_teed(&[
        b"ALPHA0 first\r\n",
        &truncated,
        b"BRAVO1 second\r\n",
        b"\x1b\\",
        b"CHARLIE2 third\r\n",
    ]);
    assert!(recovered.contains("CHARLIE2"), "a later terminator ends it; got {recovered:?}");
    assert!(!recovered.contains("BRAVO1"), "what waited is payload; got {recovered:?}");
}

#[test]
fn spike55_k5_mid_utf8_splice_corrupts_pane0() {
    const PREFIX: &[u8] = b"\x1b[2J\x1b[H";
    let text = "ALPHA0 café — naïve “smart” ✓ 日本語 BRAVO1\r\n";
    let mut baseline = PREFIX.to_vec();
    baseline.extend_from_slice(text.as_bytes());

    let frame = mux_frame(1, base64(b"MUXPAYLOAD").as_bytes(), false);
    let base = feed(&[&baseline]);
    let (mut boundary_bad, mut mid_bad) = (0usize, 0usize);
    for offset in 0..=text.len() {
        let mut stream = PREFIX.to_vec();
        stream.extend_from_slice(&text.as_bytes()[..offset]);
        stream.extend_from_slice(&frame);
        stream.extend_from_slice(&text.as_bytes()[offset..]);
        let diverged = feed(&[&stream]) != base;
        if text.is_char_boundary(offset) {
            boundary_bad += usize::from(diverged);
        } else {
            mid_bad += usize::from(diverged);
        }
    }
    assert_eq!(boundary_bad, 0, "splicing between characters must not corrupt the screen");
    assert!(mid_bad > 0, "splicing inside a character corrupts it");
}

#[test]
fn spike55_k6_nested_frames_leak_onto_pane0() {
    let mut nested = b"\x1b_ratty;m;1;QUFB".to_vec(); // outer, unterminated
    nested.extend_from_slice(b"\x1b_ratty;m;2;QkJC\x1b\\"); // inner, terminated
    nested.extend_from_slice(b"NESTEDTAIL"); // outer's tail
    nested.extend_from_slice(b"\x1b\\"); // outer's terminator
    let (screen, _) = feed(&[b"ALPHA0 first\r\n", &nested, b"BRAVO1 second\r\n"]);
    assert!(screen.contains("NESTEDTAIL"), "the outer frame's tail prints; got {screen:?}");
}

/// An `ESC _` inside an OSC payload is taken for an APC.
#[test]
fn spike55_k7_shipped_bug_esc_underscore_inside_osc_payload_stalls_terminal() {
    let stream: Vec<u8> = [
        b"A0 before\r\n".as_slice(),
        b"\x1b]0;ti".as_slice(),
        b"\x1b_".as_slice(),
        b"tle".as_slice(),
        b"\x07".as_slice(),
        b"B1 after\r\n".as_slice(),
        b"C2 later\r\n".as_slice(),
    ]
    .concat();
    let (screen, _) = feed(&[&stream]);
    assert!(screen.contains("A0"), "output before the OSC must survive");
    assert!(
        !screen.contains("B1") && !screen.contains("C2"),
        "output after the OSC still reached the screen; got {screen:?}",
    );

    // A DCS ends with the terminator that an APC ends with.
    let dcs: Vec<u8> = [
        b"A0 before\r\n".as_slice(),
        b"\x1bPtmux;\x1b_x\x1b\\".as_slice(),
        b"B1 after\r\n".as_slice(),
    ]
    .concat();
    let (dcs_screen, _) = feed(&[&dcs]);
    assert!(dcs_screen.contains("B1"), "a DCS does not stall; got {dcs_screen:?}");

    // A later terminator ends the stall, and what waited is its payload.
    let mut esc_st_recovery = stream.clone();
    esc_st_recovery.extend_from_slice(b"\x1b\\D3 recovered\r\n");
    let (esc_st_screen, _) = feed(&[&esc_st_recovery]);
    assert!(esc_st_screen.contains("D3"), "a terminator ends it; got {esc_st_screen:?}");
    assert!(
        !esc_st_screen.contains("B1") && !esc_st_screen.contains("C2"),
        "what waited is payload; got {esc_st_screen:?}",
    );

    // A bare 0x9c, the third byte of a curly quote, does not restore the
    // screen.
    let mut curly_recovery = stream.clone();
    curly_recovery.extend_from_slice("D3 \u{201c}quoted\u{201d}\r\n".as_bytes());
    curly_recovery.extend_from_slice(b"E4 finally\r\n");
    let (curly_screen, _) = feed(&[&curly_recovery]);
    assert!(!curly_screen.contains("E4"), "0x9c wedges the parser; got {curly_screen:?}");

    // The same title without the ESC _ is fine.
    let control: Vec<u8> = [
        b"A0 before\r\n".as_slice(),
        b"\x1b]0;title\x07".as_slice(),
        b"B1 after\r\n".as_slice(),
        b"C2 later\r\n".as_slice(),
    ]
    .concat();
    let (control_screen, _) = feed(&[&control]);
    assert!(
        control_screen.contains("B1") && control_screen.contains("C2"),
        "the control must be clean; got {control_screen:?}",
    );
}

/// Text, colour runs, erasures and carriage-return redraws.
fn bench_pane0_pieces(target: usize) -> Vec<Vec<u8>> {
    let mut pieces = Vec::new();
    let mut bytes = 0usize;
    let mut n = 0u32;
    while bytes < target {
        for piece in [
            format!("line {n:06} plain text output from a build log\r\n"),
            format!("\x1b[32m  ok\x1b[0m line {n:06} \x1b[1;33mwarning\x1b[m tail\r\n"),
            "\x1b[2Kprogress \x1b[7m####\x1b[27m 42%\r".to_string(),
        ] {
            bytes += piece.len();
            pieces.push(piece.into_bytes());
        }
        n += 1;
    }
    pieces
}

/// Splices `frame` after every `every`-th piece (0 = no frames) and cuts the
/// result into 8 KiB reads.
fn bench_chunks(pieces: &[Vec<u8>], frame: &[u8], every: usize) -> Vec<Vec<u8>> {
    let mut stream = Vec::new();
    for (i, piece) in pieces.iter().enumerate() {
        stream.extend_from_slice(piece);
        if every > 0 && i % every == every - 1 {
            stream.extend_from_slice(frame);
        }
    }
    stream.chunks(8192).map(<[u8]>::to_vec).collect()
}

#[test]
fn spike55_item4_crate_side_demux_throughput() {
    let pieces = bench_pane0_pieces(8 * 1024 * 1024);
    let pane0_bytes: usize = pieces.iter().map(Vec::len).sum();
    let frame = mux_frame(
        1,
        base64(b"pane one output line with some colour and text").as_bytes(),
        false,
    );
    let mut screens = Vec::new();
    for every in [0, 3, 12] {
        let mut terminal = Terminal::new(24, 80);
        for chunk in &bench_chunks(&pieces, &frame, every) {
            terminal.feed(chunk);
        }
        screens.push(terminal.screen.contents());
    }
    assert!(pane0_bytes > 0);
    assert_eq!(screens[0], screens[1], "frames leave the screen as it was");
    assert_eq!(screens[0], screens[2], "frames leave the screen as it was");
}

#[test]
fn queries_are_answered_once_each() {
    let mut terminal = test_terminal();
    terminal.feed(b"a\x1b_ratty;g;s\x1b\\b\x1b_ratty;g;s\x1b\\c");
    assert_eq!(terminal.replies, 2);
    assert!(terminal.screen.contents().contains("abc"));
}

#[test]
fn screens_keep_a_bounded_history() {
    assert!(TerminalScreen::new(1, 80, 0).is_none());
    assert!(TerminalScreen::new(24, 2, 0).is_none());
    assert!(TerminalScreen::new(24, 65_528, 0).is_none());
    let mut screen = TerminalScreen::new(4, 20, 10).expect("a drawable grid");
    assert_eq!(screen.size(), (4, 20));
    assert_eq!(screen.cursor_position(), (0, 0));
    assert_eq!(screen.contents(), "");
    for _ in 0..60 {
        screen.show(b"line\r\n");
    }
    assert_eq!(screen.scrollback(), 0);
    screen.set_scrollback(7);
    assert_eq!(screen.scrollback(), 7);
    screen.set_scrollback(100);
    assert_eq!(screen.scrollback(), 10);
    screen.set_scrollback(0);
    assert_eq!(screen.scrollback(), 0);
    assert!(!screen.application_cursor() && !screen.bracketed_paste());
    screen.show(b"\x1b[?1h\x1b[?2004h");
    assert!(screen.application_cursor() && screen.bracketed_paste());
}

#[test]
fn the_smallest_and_the_widest_screen_take_every_character() {
    for (rows, cols) in [(2, 3), (2, 65_527)] {
        let mut screen = TerminalScreen::new(rows, cols, 1).expect("a drawable grid");
        for _ in 0..4 {
            // Three cells wide, two cells wide, and one that joins the last.
            screen.show("\u{17d8}\u{65e5}x\u{301}".as_bytes());
            screen.show(b"\t\x08\x1b[99999C\t\x1b[5@\x1b[5P\x1b[K\x1b[L\x1b[M\x1bM\n");
        }
        // From behind the last column.
        screen.show(format!("\x1b[1;{cols}Hz").as_bytes());
        screen.show(b"\t");
        assert_eq!(screen.size(), (rows, cols));
    }
}

#[test]
fn requests_are_heard_among_the_output() {
    let mut terminal = Terminal::new(24, 80);
    terminal.feed(b"a\x1b]777;ratty:mo");
    terminal.feed(b"de;3d\x07b\x1b]777;ratty:nonsense;\x07\x1b]9;ratty:reset;\x07");
    terminal.feed(b"\x1b]777;ratty:note;text%3Da%3Bb;c\x1b\\c");
    terminal.feed(b"\x1b];777;ratty:reset;\x07");
    let heard = terminal.screen.take_commands();
    assert_eq!(heard.len(), 2, "{heard:?}");
    assert!(matches!(&heard[0], RattyAiCommand::SetMode { mode } if mode == "3d"));
    assert!(matches!(&heard[1], RattyAiCommand::Note { text, .. } if text == "a;b;c"));
    assert!(terminal.screen.take_commands().is_empty(), "they are taken once");
    assert!(terminal.screen.contents().starts_with("abc"));
}

#[test]
fn tearing_a_stream_anywhere_changes_nothing() {
    let bytes = b"ab\x1b[1mc\x1b_ratty;g;s\x1b\\d\x1b]0;t\x07\x1b_x\x9cef".as_slice();
    let mut whole = test_terminal();
    whole.feed(bytes);
    assert_eq!(whole.replies, 1);
    for cut in 0..=bytes.len() {
        let mut torn = test_terminal();
        torn.feed(&bytes[..cut]);
        torn.feed(&bytes[cut..]);
        assert_eq!(torn.replies, whole.replies, "cut at {cut}");
        assert_eq!(torn.screen.contents(), whole.screen.contents(), "cut at {cut}");
        assert_eq!(torn.screen.cursor_position(), whole.screen.cursor_position(), "cut at {cut}");
    }
}
