//! What the console input buffer tells of a paste: which queued records typed a
//! character, whether a burst of them is a paste, and the text they spell.

use crate::paste::{normalize_paste_text, normalized};
use vstd::prelude::*;

verus! {

/// A burst with more queued events than this is a paste without being looked at.
pub const PEEK_CAP: u32 = 512;

/// One record of the console input buffer.
#[derive(Clone, Copy, Debug)]
pub struct ConsoleRecord {
    /// Whether the record reports a key at all, rather than the mouse, the
    /// window or the focus.
    pub key_event: bool,
    /// Whether the key went down.
    pub key_down: bool,
    /// The UTF-16 code unit that the key stands for, zero if none.
    pub unit: u16,
}

impl ConsoleRecord {
    /// The code unit that this record types: one that is not zero, of a key that
    /// went down.
    pub open spec fn typed(self) -> Option<u16> {
        if self.key_event && self.key_down && self.unit != 0 {
            Some(self.unit)
        } else {
            None
        }
    }
}

/// The code units that `records` type, in order. Key-up and non-key records type
/// none.
pub open spec fn typed_units(records: Seq<ConsoleRecord>) -> Seq<u16> {
    records.filter_map(|r: ConsoleRecord| r.typed())
}

/// Collects [`typed_units`] behind what `units` holds already.
fn push_typed_units(units: &mut Vec<u16>, records: &Vec<ConsoleRecord>)
    ensures
        final(units)@ == old(units)@ + typed_units(records@),
{
    let ghost typed = |r: ConsoleRecord| r.typed();
    let mut i: usize = 0;
    assert(records@.take(0).filter_map(typed) == Seq::<u16>::empty()) by {
        reveal(Seq::filter_map);
    }
    while i < records.len()
        invariant
            i <= records@.len(),
            typed == (|r: ConsoleRecord| r.typed()),
            units@ == old(units)@ + records@.take(i as int).filter_map(typed),
        decreases records@.len() - i,
    {
        let record: ConsoleRecord = records[i];
        proof {
            records@.lemma_filter_map_take_succ(typed, i as int);
        }
        if record.key_event && record.key_down && record.unit != 0 {
            units.push(record.unit);
        }
        i += 1;
    }
    assert(records@.take(records@.len() as int) == records@);
}

/// Number of events still queued in the console input buffer, i.e. keystrokes
/// the terminal has delivered but the line editor has not yet read. During a
/// paste the whole payload is queued at once, so a non-empty queue right after a
/// keystroke distinguishes pasted input from real typing. `reported` is what the
/// console answered; without an answer, and without such a console, it is zero.
pub fn console_pending_events(reported: Option<u32>) -> (count: u32)
    ensures
        count == (match reported {
            Some(n) => n,
            None => 0,
        }),
{
    match reported {
        Some(n) => n,
        None => 0,
    }
}

/// Whether `unit` ends a line.
pub open spec fn is_line_end(unit: u16) -> bool {
    unit == 0x0D || unit == 0x0A
}

/// Whether a line end in `units` is followed by more input.
pub open spec fn has_inner_line_end(units: Seq<u16>) -> bool {
    exists|i: int| 0 <= i < units.len() - 1 && is_line_end(#[trigger] units[i])
}

/// Decides [`has_inner_line_end`].
fn any_inner_line_end(units: &Vec<u16>) -> (b: bool)
    ensures
        b == has_inner_line_end(units@),
{
    let mut i: usize = 0;
    while i < units.len()
        invariant
            i <= units@.len(),
            forall|k: int| 0 <= k < i && k < units@.len() - 1 ==> !is_line_end(
                #[trigger] units@[k],
            ),
        decreases units@.len() - i,
    {
        if (units[i] == 0x0D || units[i] == 0x0A) && i < units.len() - 1 {
            assert(is_line_end(units@[i as int]));
            return true;
        }
        i += 1;
    }
    false
}

/// Whether a burst of `pending` queued events, of which `peeked` are the records
/// where the console showed them, is a paste.
pub open spec fn burst_is_paste(pending: u32, peeked: Option<Seq<ConsoleRecord>>) -> bool {
    if pending == 0 {
        false
    } else if pending > PEEK_CAP {
        true
    } else {
        match peeked {
            Some(records) => has_inner_line_end(typed_units(records)),
            None => false,
        }
    }
}

/// Distinguish a genuine multi-line paste from fast type-ahead. The rest of the
/// burst is still queued; it is a paste only when a newline is followed by more
/// input. A single typed line terminated by Enter has its newline last, so it is
/// not a paste and must still submit normally. A burst too large to scan is
/// unambiguously a paste.
pub fn console_burst_is_paste(pending: u32, peeked: Option<&Vec<ConsoleRecord>>) -> (b: bool)
    ensures
        b == burst_is_paste(
            pending,
            match peeked {
                Some(records) => Some(records@),
                None => None,
            },
        ),
{
    if pending == 0 {
        return false;
    }
    if pending > PEEK_CAP {
        return true;
    }
    match peeked {
        None => false,
        Some(records) => {
            let mut units: Vec<u16> = Vec::new();
            push_typed_units(&mut units, records);
            assert(units@ == typed_units(records@));
            any_inner_line_end(&units)
        },
    }
}

/// A single typed line terminated by Enter is not a paste: nothing follows its
/// only line end.
pub proof fn law_typed_line_is_not_a_paste(
    pending: u32,
    records: Seq<ConsoleRecord>,
    line: Seq<u16>,
    enter: u16,
)
    requires
        pending <= PEEK_CAP,
        typed_units(records) == line.push(enter),
        forall|i: int| 0 <= i < line.len() ==> !is_line_end(#[trigger] line[i]),
    ensures
        !burst_is_paste(pending, Some(records)),
{
    assert forall|i: int| 0 <= i < typed_units(records).len() - 1 implies !is_line_end(
        #[trigger] typed_units(records)[i],
    ) by {
        assert(typed_units(records)[i] == line[i]);
    }
}

/// A burst in which more input follows a line end is a paste.
pub proof fn law_input_behind_a_line_end_is_a_paste(
    pending: u32,
    records: Seq<ConsoleRecord>,
    before: Seq<u16>,
    end: u16,
    after: Seq<u16>,
)
    requires
        pending > 0,
        typed_units(records) == before.push(end) + after,
        is_line_end(end),
        after.len() > 0,
    ensures
        burst_is_paste(pending, Some(records)),
{
    assert(typed_units(records)[before.len() as int] == end);
}

/// Records that type nothing (key-up, non-key, no character) change nothing:
/// with them taken out, a burst types the same units.
pub proof fn law_silent_records_are_skipped(
    before: Seq<ConsoleRecord>,
    silent: ConsoleRecord,
    after: Seq<ConsoleRecord>,
)
    requires
        silent.typed() is None,
    ensures
        typed_units(before.push(silent) + after) == typed_units(before + after),
    decreases after.len(),
{
    let typed = |r: ConsoleRecord| r.typed();
    reveal(Seq::filter_map);
    if after.len() == 0 {
        assert(before.push(silent) + after == before.push(silent));
        assert(before + after == before);
        assert(before.push(silent).drop_last() == before);
    } else {
        law_silent_records_are_skipped(before, silent, after.drop_last());
        assert((before.push(silent) + after).drop_last() == before.push(silent)
            + after.drop_last());
        assert((before + after).drop_last() == before + after.drop_last());
        assert((before.push(silent) + after).last() == (before + after).last());
    }
}

/// `char::from_u32`: the character with the code point `i`, `None` exactly where
/// `i` is a surrogate or beyond the last code point.
pub assume_specification[ char::from_u32 ](i: u32) -> (r: Option<char>)
    ensures
        r is Some <==> (i < 0xD800 || 0xE000 <= i <= 0x10FFFF),
        r matches Some(c) ==> c as u32 == i,
;

/// Whether `unit` opens a surrogate pair.
pub open spec fn is_high_surrogate(unit: u16) -> bool {
    0xD800 <= unit < 0xDC00
}

/// Whether `unit` closes a surrogate pair.
pub open spec fn is_low_surrogate(unit: u16) -> bool {
    0xDC00 <= unit < 0xE000
}

/// `c` in UTF-16: one code unit, or a surrogate pair above `U+FFFF`.
pub open spec fn utf16_of(c: char) -> Seq<u16> {
    let u = c as u32;
    if u < 0x10000 {
        seq![u as u16]
    } else {
        seq![
            (0xD800 + (u - 0x10000) / 0x400) as u16,
            (0xDC00 + (u - 0x10000) % 0x400) as u16,
        ]
    }
}

/// The text that `units` spell in UTF-16, with `U+FFFD` for each surrogate that
/// has no partner.
pub open spec fn utf16_text(units: Seq<u16>) -> Seq<char>
    decreases units.len(),
{
    if units.len() == 0 {
        Seq::empty()
    } else if !is_high_surrogate(units[0]) && !is_low_surrogate(units[0]) {
        seq![units[0] as char] + utf16_text(units.skip(1))
    } else if is_high_surrogate(units[0]) && units.len() > 1 && is_low_surrogate(units[1]) {
        seq![(0x10000 + (units[0] - 0xD800) * 0x400 + (units[1] - 0xDC00)) as char] + utf16_text(
            units.skip(2),
        )
    } else {
        seq!['\u{FFFD}'] + utf16_text(units.skip(1))
    }
}

/// Writes `c` in UTF-16 at the end of `units`.
fn push_utf16(units: &mut Vec<u16>, c: char)
    ensures
        final(units)@ == old(units)@ + utf16_of(c),
{
    let u: u32 = c as u32;
    if u < 0x10000 {
        units.push(u as u16);
    } else {
        units.push((0xD800 + (u - 0x10000) / 0x400) as u16);
        units.push((0xDC00 + (u - 0x10000) % 0x400) as u16);
    }
}

/// Reads UTF-16.
fn decode_utf16(units: &Vec<u16>) -> (r: String)
    ensures
        r@ == utf16_text(units@),
{
    let n: usize = units.len();
    let mut r: String = String::new();
    let mut i: usize = 0;
    assert(units@.skip(0) == units@);
    while i < n
        invariant
            i <= n == units@.len(),
            utf16_text(units@) == r@ + utf16_text(units@.skip(i as int)),
        decreases n - i,
    {
        let ghost rest = units@.skip(i as int);
        let ghost before = r@;
        let unit: u16 = units[i];
        let mut code: u32 = 0xFFFD;
        let mut step: usize = 1;
        if unit < 0xD800 || unit >= 0xE000 {
            code = unit as u32;
        } else if unit < 0xDC00 && n - i > 1 {
            let next: u16 = units[i + 1];
            if 0xDC00 <= next && next < 0xE000 {
                code = 0x10000 + (unit as u32 - 0xD800) * 0x400 + (next as u32 - 0xDC00);
                step = 2;
            }
        }
        match char::from_u32(code) {
            Some(c) => {
                r.push(c);
                assert(rest.skip(step as int) == units@.skip(i + step));
                assert(rest[0] == unit);
                assert(n - i > 1 ==> rest[1] == units@[i + 1]);
                assert(c == code as char) by {
                    vstd::utf8::char_u32_cast(c, code);
                }
                assert(utf16_text(rest) == seq![c] + utf16_text(units@.skip(i + step)));
                assert(before.push(c) + utf16_text(units@.skip(i + step)) == before + (seq![c]
                    + utf16_text(units@.skip(i + step))));
            },
            None => {
                assert(false);
            },
        }
        i += step;
    }
    assert(units@.skip(n as int) == Seq::<u16>::empty());
    assert(r@ + Seq::<char>::empty() == r@);
    r
}

/// A character written in UTF-16 reads back as itself.
pub proof fn law_utf16_reads_back(c: char, rest: Seq<u16>)
    ensures
        utf16_text(utf16_of(c) + rest) == seq![c] + utf16_text(rest),
{
    let u = c as u32;
    let units = utf16_of(c) + rest;
    if u < 0x10000 {
        assert(units.skip(1) == rest);
        assert(units[0] == u);
    } else {
        assert(units.skip(2) == rest);
        let v = u - 0x10000;
        assert(0 <= v / 0x400 < 0x400 && 0 <= v % 0x400 < 0x400 && v == (v / 0x400) * 0x400 + v
            % 0x400);
    }
}

/// The text of the burst that begins with `first` and goes on with `records`.
pub open spec fn burst_text(first: char, records: Seq<ConsoleRecord>) -> Seq<char> {
    normalized(utf16_text(utf16_of(first) + typed_units(records)))
}

/// The text of a paste burst, starting from `first` (the character that
/// triggered detection) and going on with the `records` drained from the console
/// input buffer. Key-up and non-key records, which [`console_pending_events`]
/// counts, are skipped.
pub fn drain_console_paste(first: char, records: &Vec<ConsoleRecord>) -> (text: String)
    ensures
        text@ == burst_text(first, records@),
{
    let mut units: Vec<u16> = Vec::new();
    push_utf16(&mut units, first);
    push_typed_units(&mut units, records);
    assert(units@ == utf16_of(first) + typed_units(records@));
    let text: String = decode_utf16(&units);
    normalize_paste_text(text.as_str())
}

/// Record by record: one that reports a key going down, with a code unit that is
/// not zero, adds that unit behind the others; any other record adds nothing.
pub proof fn law_pressed_keys_are_typed(records: Seq<ConsoleRecord>, record: ConsoleRecord)
    ensures
        typed_units(Seq::<ConsoleRecord>::empty()) == Seq::<u16>::empty(),
        record.key_event && record.key_down && record.unit != 0 ==> typed_units(
            records.push(record),
        ) == typed_units(records).push(record.unit),
        !record.key_event || !record.key_down || record.unit == 0 ==> typed_units(
            records.push(record),
        ) == typed_units(records),
{
    reveal(Seq::filter_map);
    assert(records.push(record).drop_last() == records);
    assert(records.push(record).last() == record);
}

/// A burst is a paste exactly when something is queued and either it is too large
/// to be looked at, or the console showed a line end in it with more input behind.
pub proof fn law_paste_is_a_line_end_with_more_behind(
    pending: u32,
    peeked: Option<Seq<ConsoleRecord>>,
)
    ensures
        burst_is_paste(pending, peeked) <==> pending > 512 || (pending > 0 && (peeked matches Some(
            records,
        ) && exists|i: int|
            0 <= i && i + 1 < typed_units(records).len() && ({
                let unit = #[trigger] typed_units(records)[i];
                unit == 0x0A || unit == 0x0D
            }))),
{
    if let Some(records) = peeked {
        let units = typed_units(records);
        assert(forall|i: int| is_line_end(#[trigger] units[i]) <==> units[i] == 0x0A || units[i]
            == 0x0D);
    }
}

/// The units of a character in UTF-16: itself up to `U+FFFF`, and above that a
/// high and a low surrogate that carry ten bits each of what lies above.
pub proof fn law_utf16_units_of_a_character(c: char)
    ensures
        c as u32 <= 0xFFFF ==> utf16_of(c).len() == 1 && utf16_of(c)[0] == c as u32,
        c as u32 > 0xFFFF ==> {
            &&& utf16_of(c).len() == 2
            &&& 0xD800 <= utf16_of(c)[0] <= 0xDBFF
            &&& 0xDC00 <= utf16_of(c)[1] <= 0xDFFF
            &&& (utf16_of(c)[0] - 0xD800) * 1024 + (utf16_of(c)[1] - 0xDC00) + 0x10000 == c as u32
        },
{
}

/// A surrogate without its partner behind it is read as the replacement character,
/// and reading goes on behind it.
pub proof fn law_lone_surrogate_is_replaced(unit: u16, rest: Seq<u16>)
    requires
        0xD800 <= unit <= 0xDFFF,
        unit >= 0xDC00 || rest.len() == 0 || !(0xDC00 <= rest[0] <= 0xDFFF),
    ensures
        utf16_text(seq![unit] + rest) == seq!['\u{FFFD}'] + utf16_text(rest),
        utf16_text(Seq::<u16>::empty()) == Seq::<char>::empty(),
{
    let units = seq![unit] + rest;
    assert(units.skip(1) == rest);
    assert(units.len() > 1 ==> units[1] == rest[0]);
}

/// `text` in UTF-16.
pub open spec fn utf16_of_text(text: Seq<char>) -> Seq<u16> {
    text.map_values(|c: char| utf16_of(c)).flatten()
}

proof fn lemma_utf16_text_reads_back(text: Seq<char>)
    ensures
        utf16_text(utf16_of_text(text)) == text,
    decreases text.len(),
{
    let parts = text.map_values(|c: char| utf16_of(c));
    if text.len() == 0 {
        assert(parts.flatten() == Seq::<u16>::empty());
    } else {
        let rest = text.skip(1);
        let rest_parts = rest.map_values(|c: char| utf16_of(c));
        assert(parts.drop_first() == rest_parts);
        assert(parts.first() == utf16_of(text[0]));
        assert(utf16_of_text(text) == utf16_of(text[0]) + utf16_of_text(rest));
        law_utf16_reads_back(text[0], utf16_of_text(rest));
        lemma_utf16_text_reads_back(rest);
        assert(seq![text[0]] + rest == text);
    }
}

/// The text of a burst is the character that began it and then everything that the
/// records typed, to the end, with its line ends as newlines.
pub proof fn law_burst_text_is_whole(first: char, text: Seq<char>, records: Seq<ConsoleRecord>)
    requires
        typed_units(records) == utf16_of_text(text),
    ensures
        burst_text(first, records) == normalized(seq![first] + text),
{
    law_utf16_reads_back(first, utf16_of_text(text));
    lemma_utf16_text_reads_back(text);
}

/// The text of a burst whatever was typed, half of a surrogate pair or not.
pub proof fn law_burst_text_begins_with_its_key(first: char, records: Seq<ConsoleRecord>)
    ensures
        burst_text(first, records) == normalized(seq![first] + utf16_text(typed_units(records))),
{
    law_utf16_reads_back(first, typed_units(records));
}

} // verus!
