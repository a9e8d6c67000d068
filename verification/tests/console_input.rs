use goose_input::console::{
    console_burst_is_paste, console_pending_events, drain_console_paste, ConsoleRecord,
};

fn key(unit: u16) -> ConsoleRecord {
    ConsoleRecord { key_event: true, key_down: true, unit }
}

#[test]
fn unanswered_count_is_zero() {
    assert_eq!(console_pending_events(None), 0);
    assert_eq!(console_pending_events(Some(0)), 0);
    assert_eq!(console_pending_events(Some(17)), 17);
}

#[test]
fn newline_must_be_followed_by_input() {
    let typed: Vec<ConsoleRecord> = "ls\r".encode_utf16().map(key).collect();
    let pasted: Vec<ConsoleRecord> = "ls\rcd".encode_utf16().map(key).collect();
    assert!(!console_burst_is_paste(3, Some(&typed)));
    assert!(console_burst_is_paste(5, Some(&pasted)));
    assert!(!console_burst_is_paste(0, Some(&pasted)));
    assert!(!console_burst_is_paste(5, None));
    assert!(console_burst_is_paste(513, None));
    assert!(console_burst_is_paste(512, Some(&pasted)));
    assert!(!console_burst_is_paste(512, Some(&typed)));
    assert!(!console_burst_is_paste(4, Some(&Vec::new())));
}

#[test]
fn silent_records_do_not_count_as_input() {
    // Enter, its key-up, a mouse record and a key without a character.
    let records = vec![
        key(0x0D),
        ConsoleRecord { key_event: true, key_down: false, unit: 0x0D },
        ConsoleRecord { key_event: false, key_down: true, unit: 97 },
        key(0),
    ];
    assert!(!console_burst_is_paste(4, Some(&records)));
    assert_eq!(drain_console_paste('a', &records), "a\n");
}

#[test]
fn burst_text_is_utf16_with_normalized_line_ends() {
    let records: Vec<ConsoleRecord> = "b\r\nc\ré𝄞".encode_utf16().map(key).collect();
    assert_eq!(drain_console_paste('a', &records), "ab\nc\né𝄞");
    assert_eq!(drain_console_paste('𝄞', &Vec::new()), "𝄞");
    assert_eq!(drain_console_paste('\r', &vec![key(0x0A), key(120)]), "\nx");
}

#[test]
fn unpaired_surrogates_are_replaced() {
    let cases: Vec<Vec<u16>> = vec![
        vec![0xD834],
        vec![0xDD1E],
        vec![0xD834, 0xD834, 0xDD1E],
        vec![0xD834, 97, 0xDD1E, 98],
        vec![0xDD1E, 0xD834],
        vec![0xDBFF, 0xDFFF, 0xD800, 0xDC00],
        vec![0xFFFD, 0xFFFF, 0xE000, 0xD7FF],
    ];
    for units in cases {
        let records: Vec<ConsoleRecord> = units.iter().map(|u| key(*u)).collect();
        let expected = format!("z{}", String::from_utf16_lossy(&units));
        assert_eq!(drain_console_paste('z', &records), expected);
    }
}

#[test]
fn every_character_survives_utf16() {
    for code in 1..=0x10FFFFu32 {
        if code % 97 != 0 && code != 0x10FFFF && code != 0x10000 && code != 0xFFFF {
            continue;
        }
        if let Some(c) = char::from_u32(code) {
            if c != '\r' {
                assert_eq!(drain_console_paste(c, &Vec::new()), c.to_string());
            }
        }
    }
}
