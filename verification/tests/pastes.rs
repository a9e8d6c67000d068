use goose_input::capture::{capture_paste, Capture, CapturePhase, ConsoleReply, ConsoleRequest};
use goose_input::console::{console_pending_events, ConsoleRecord};
use goose_input::paste::{
    decimal_string, expand_pastes, normalize_paste_text, paste_marker, Paste, PasteState,
    PASTE_CHIP_MIN_CHARS,
};
use goose_input::session::submitted_line;

fn paste(marker: &str, content: &str) -> Paste {
    Paste {
        marker: marker.to_string(),
        content: content.to_string(),
    }
}

#[test]
fn test_paste_marker() {
    assert_eq!(paste_marker("single line", 1), None);
    assert_eq!(
        paste_marker("line one\nline two", 1),
        Some("[Pasted 2 lines #1]".to_string())
    );
    // Trailing newline is not counted as an extra line.
    assert_eq!(
        paste_marker("line one\nline two\n", 2),
        Some("[Pasted 2 lines #2]".to_string())
    );
    let long = "x".repeat(PASTE_CHIP_MIN_CHARS);
    assert_eq!(
        paste_marker(&long, 3),
        Some(format!("[Pasted {PASTE_CHIP_MIN_CHARS} chars #3]"))
    );
}

#[test]
fn test_expand_pastes() {
    assert_eq!(expand_pastes("no chips here", &[]), "no chips here");

    let pastes = vec![Paste {
        marker: "[Pasted 2 lines #1]".to_string(),
        content: "a\nb".to_string(),
    }];
    assert_eq!(
        expand_pastes("summarize [Pasted 2 lines #1] please", &pastes),
        "summarize a\nb please"
    );

    // Deleting the chip drops its content rather than corrupting the message.
    assert_eq!(expand_pastes("summarize please", &pastes), "summarize please");
}

#[test]
fn test_expand_pastes_multiple_in_order() {
    let pastes = vec![
        paste("[Pasted 2 lines #1]", "FIRST"),
        paste("[Pasted 3 lines #2]", "SECOND"),
    ];
    assert_eq!(
        expand_pastes("[Pasted 2 lines #1] and [Pasted 3 lines #2]", &pastes),
        "FIRST and SECOND"
    );
}

#[test]
fn test_expand_pastes_reordered() {
    // The chips are moved so a later paste appears before an earlier one.
    // Matching by position (not capture order) still expands both.
    let pastes = vec![
        paste("[Pasted 2 lines #1]", "FIRST"),
        paste("[Pasted 3 lines #2]", "SECOND"),
    ];
    assert_eq!(
        expand_pastes("[Pasted 3 lines #2] then [Pasted 2 lines #1]", &pastes),
        "SECOND then FIRST"
    );
}

#[test]
fn test_expand_pastes_skips_cleared_paste() {
    // A paste was made, cleared (Ctrl+C), then another paste with the same
    // line count was made. Unique ids keep the stale entry from hijacking the
    // visible chip: only the paste actually shown is expanded.
    let pastes = vec![
        paste("[Pasted 2 lines #1]", "CLEARED"),
        paste("[Pasted 2 lines #2]", "CURRENT"),
    ];
    assert_eq!(expand_pastes("[Pasted 2 lines #2]", &pastes), "CURRENT");
}

#[test]
fn test_capture_paste_ignored_without_burst() {
    // Without a queued burst there is nothing to drain, so ordinary keystrokes
    // are never captured as a paste.
    let mut state = PasteState::default();
    let mut capture = Capture::start();
    capture.reply(ConsoleReply::Pending(console_pending_events(None)));
    assert!(capture_paste(&mut state, 'a', &capture).is_none());
    assert!(state.pastes.is_empty());
}

fn key(unit: u16) -> ConsoleRecord {
    ConsoleRecord { key_event: true, key_down: true, unit }
}

fn key_up(unit: u16) -> ConsoleRecord {
    ConsoleRecord { key_event: true, key_down: false, unit }
}

/// Plays the part of a console that holds `queue`: answers each request until
/// the capture is settled.
fn drive(queue: &[ConsoleRecord]) -> Capture {
    let mut at = 0;
    let mut capture = Capture::start();
    loop {
        let pending = (queue.len() - at) as u32;
        match capture.request() {
            ConsoleRequest::Count => capture.reply(ConsoleReply::Pending(pending)),
            ConsoleRequest::PauseAndCount(_) => capture.reply(ConsoleReply::Pending(pending)),
            ConsoleRequest::Peek(n) => {
                let records = queue[at..at + n as usize].to_vec();
                capture.reply(ConsoleReply::Peeked(Some(records)));
            }
            ConsoleRequest::Read => {
                capture.reply(ConsoleReply::Record(Some(queue[at])));
                at += 1;
            }
            ConsoleRequest::Nothing => return capture,
        }
    }
}

#[test]
fn paste_burst_becomes_a_chip_and_expands_back() {
    let mut state = PasteState::default();
    let queue: Vec<ConsoleRecord> = "ne\r\ntwo\r\n"
        .encode_utf16()
        .flat_map(|u| vec![key(u), key_up(u)])
        .collect();
    let capture = drive(&queue);
    assert_eq!(capture.phase, CapturePhase::Captured);
    let shown = capture_paste(&mut state, 'o', &capture).unwrap();
    assert_eq!(shown, "[Pasted 2 lines #1]");
    assert_eq!(state.next_id, 1);
    assert_eq!(state.pastes.len(), 1);
    assert_eq!(state.pastes[0].content, "one\ntwo\n");
    assert_eq!(
        submitted_line(format!("look: {shown}!"), Some(&state)),
        "look: one\ntwo\n!"
    );
    assert_eq!(submitted_line(shown.clone(), None), shown);

    // A second burst gets the next id; both expand in either order.
    let queue: Vec<ConsoleRecord> = "\nb\nc".encode_utf16().map(key).collect();
    let second = capture_paste(&mut state, 'a', &drive(&queue)).unwrap();
    assert_eq!(second, "[Pasted 3 lines #2]");
    assert_eq!(
        submitted_line(format!("{second} {shown}"), Some(&state)),
        "a\nb\nc one\ntwo\n"
    );
}

#[test]
fn type_ahead_is_not_captured() {
    // One typed line with Enter last.
    let queue: Vec<ConsoleRecord> = "ello\r".encode_utf16().map(key).collect();
    let capture = drive(&queue);
    assert_eq!(capture.phase, CapturePhase::Ignored);
    assert!(capture.records.is_empty());
    let mut state = PasteState::default();
    assert!(capture_paste(&mut state, 'h', &capture).is_none());
    // A single key-up event stays below the threshold.
    assert_eq!(drive(&[key_up(97)]).phase, CapturePhase::Ignored);
}

#[test]
fn large_burst_is_captured_without_a_peek() {
    let queue: Vec<ConsoleRecord> = vec![key(120); 600];
    let capture = drive(&queue);
    assert_eq!(capture.phase, CapturePhase::Captured);
    let mut state = PasteState::default();
    assert_eq!(
        capture_paste(&mut state, 'x', &capture),
        Some("[Pasted 601 chars #1]".to_string())
    );
}

#[test]
fn small_burst_is_inserted_literally() {
    // The newline that begins the burst ends a single line at its front only.
    let mut state = PasteState::default();
    let mut capture = Capture::start();
    capture.reply(ConsoleReply::Pending(3));
    capture.reply(ConsoleReply::Pending(600));
    capture.reply(ConsoleReply::Pending(1));
    capture.reply(ConsoleReply::Record(Some(key(98))));
    capture.reply(ConsoleReply::Pending(1));
    capture.reply(ConsoleReply::Record(None));
    assert_eq!(capture.phase, CapturePhase::Captured);
    assert_eq!(capture_paste(&mut state, 'a', &capture), Some("ab".to_string()));
    assert!(state.pastes.is_empty());
    assert_eq!(state.next_id, 0);
}

#[test]
fn burst_is_polled_before_it_ends() {
    let mut capture = Capture::start();
    capture.reply(ConsoleReply::Pending(2));
    capture.reply(ConsoleReply::Pending(513));
    assert_eq!(capture.phase, CapturePhase::Checking);
    capture.reply(ConsoleReply::Pending(0));
    for left in [4, 3, 2] {
        assert_eq!(capture.phase, CapturePhase::Polling(left));
        assert_eq!(capture.request(), ConsoleRequest::PauseAndCount(2));
        capture.reply(ConsoleReply::Pending(0));
    }
    // More arrives between two chunks.
    capture.reply(ConsoleReply::Pending(1));
    assert_eq!(capture.phase, CapturePhase::Reading);
    capture.reply(ConsoleReply::Record(Some(key(97))));
    for _ in 0..5 {
        assert_ne!(capture.phase, CapturePhase::Captured);
        capture.reply(ConsoleReply::Pending(0));
    }
    assert_eq!(capture.phase, CapturePhase::Captured);
    // Settled: nothing more is taken in.
    capture.reply(ConsoleReply::Record(Some(key(98))));
    assert_eq!(capture.records.len(), 1);
}

#[test]
fn refused_peek_is_no_paste() {
    let mut capture = Capture::start();
    capture.reply(ConsoleReply::Pending(5));
    capture.reply(ConsoleReply::Pending(5));
    assert_eq!(capture.request(), ConsoleRequest::Peek(5));
    capture.reply(ConsoleReply::Peeked(None));
    assert_eq!(capture.phase, CapturePhase::Ignored);
    assert_eq!(capture.request(), ConsoleRequest::Nothing);
}

#[test]
fn marker_edges() {
    assert_eq!(paste_marker("", 1), None);
    assert_eq!(paste_marker("\n\n\n", 1), None);
    assert_eq!(paste_marker("\na", 12), Some("[Pasted 2 lines #12]".to_string()));
    assert_eq!(paste_marker("a\n\nb\n\n", 7), Some("[Pasted 3 lines #7]".to_string()));
    assert_eq!(paste_marker(&"x".repeat(PASTE_CHIP_MIN_CHARS - 1), 3), None);
    // Characters are counted, not bytes.
    assert_eq!(paste_marker(&"é".repeat(PASTE_CHIP_MIN_CHARS - 1), 3), None);
    assert_eq!(
        paste_marker(&"é".repeat(PASTE_CHIP_MIN_CHARS), 10),
        Some("[Pasted 400 chars #10]".to_string())
    );
}

#[test]
fn ids_are_not_confused_by_their_digits() {
    let pastes = vec![
        paste("[Pasted 2 lines #1]", "one"),
        paste("[Pasted 2 lines #11]", "eleven"),
    ];
    assert_eq!(
        expand_pastes("[Pasted 2 lines #11][Pasted 2 lines #1]", &pastes),
        "elevenone"
    );
    assert_eq!(expand_pastes("[Pasted 2 lines #111]", &pastes), "[Pasted 2 lines #111]");
    // Content that looks like a chip is not expanded again.
    let nested = vec![paste("[A]", "[B]"), paste("[B]", "x")];
    assert_eq!(expand_pastes("[A] [B] [[A]", &nested), "[B] x [[B]");
    // Of two pastes under one marker the earlier counts.
    let twins = vec![paste("[A]", "1"), paste("[A]", "2")];
    assert_eq!(expand_pastes("[A]", &twins), "1");
}

#[test]
fn pastes_may_be_kept_in_any_order() {
    let line = "[Pasted 2 lines #2] [Pasted 2 lines #12] [Pasted 400 chars #1]";
    let kept = |order: [usize; 3]| {
        let mut pastes: Vec<Paste> = Vec::new();
        for k in order {
            pastes.push(match k {
                0 => paste("[Pasted 400 chars #1]", "a"),
                1 => paste("[Pasted 2 lines #2]", "b"),
                _ => paste("[Pasted 2 lines #12]", "c"),
            });
        }
        expand_pastes(line, &pastes)
    };
    for order in [[0, 1, 2], [2, 1, 0], [1, 2, 0]] {
        assert_eq!(kept(order), "b c a");
    }
    // Neither chip occurs inside the other.
    let short = paste_marker("a\nb", 1).unwrap();
    let long = paste_marker("a\nb", 11).unwrap();
    assert!(!short.contains(&long) && !long.contains(&short));
}

#[test]
fn line_ends_are_normalized() {
    assert_eq!(normalize_paste_text("a\r\nb\rc\nd"), "a\nb\nc\nd");
    assert_eq!(normalize_paste_text("\r\r\n\n"), "\n\n\n");
    assert_eq!(normalize_paste_text("\r"), "\n");
    for text in ["a\r\nb\rc\nd", "\r\r\n\n\r", "", "é\r\r", "plain"] {
        let expected = text.replace("\r\n", "\n").replace('\r', "\n");
        assert_eq!(normalize_paste_text(text), expected);
        assert_eq!(normalize_paste_text(&expected), expected);
        let within = |s: &str| s.replace(['\r', '\n'], "");
        assert_eq!(within(&expected), within(text));
    }
}

#[test]
fn numbers_are_written_in_decimal() {
    for n in [0, 1, 9, 10, 11, 99, 100, 101, 65536, usize::MAX] {
        assert_eq!(decimal_string(n), n.to_string());
    }
}
