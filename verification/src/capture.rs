//! The capture of a paste burst from the console, one answer of the console at a
//! time: is the keystroke the start of a burst, is the burst a paste, and if so,
//! what does it hold.

use crate::console::{
    burst_is_paste, burst_text, console_burst_is_paste, drain_console_paste, ConsoleRecord,
    PEEK_CAP,
};
use crate::paste::{gives_back, takes_in, PasteState};
use vstd::prelude::*;

verus! {

/// Minimum number of events already queued in the console input buffer for a
/// keystroke to be treated as the start of a paste rather than fast typing /
/// type-ahead. A single keypress leaves at most its own key-up event queued.
pub const PASTE_QUEUE_THRESHOLD: u32 = 2;

/// How often an empty queue is looked at again before the burst is over: the
/// queue can briefly empty between chunks of a large paste.
pub const DRAIN_POLLS: u32 = 4;

/// The pause before each of these looks, in milliseconds.
pub const DRAIN_PAUSE_MILLIS: u64 = 2;

/// How far a capture has come.
#[derive(Clone, Copy, Debug, PartialEq, Eq, Structural)]
pub enum CapturePhase {
    /// The keystroke was read; the queue is to be counted.
    Counting,
    /// Enough is queued for a paste; the queue is to be counted for the scan.
    Confirming,
    /// That many queued events are to be looked at without consuming them.
    Peeking(u32),
    /// The burst is a paste; the queue is to be counted before the next read.
    Checking,
    /// The queue was empty; it is to be counted after a pause, that many times.
    Polling(u32),
    /// A record is to be read from the queue.
    Reading,
    /// The burst has been read to its end.
    Captured,
    /// The keystroke was ordinary.
    Ignored,
}

/// What the console is to be asked next.
#[derive(Clone, Copy, Debug, PartialEq, Eq, Structural)]
pub enum ConsoleRequest {
    /// Count the queued events.
    Count,
    /// Pause for that many milliseconds, then count the queued events.
    PauseAndCount(u64),
    /// Look at that many queued events without consuming them.
    Peek(u32),
    /// Read and consume one record.
    Read,
    /// Nothing: the capture is settled.
    Nothing,
}

/// What the console answered.
#[derive(Debug)]
pub enum ConsoleReply {
    /// So many events are queued.
    Pending(u32),
    /// These records are queued; `None` if the console did not show them.
    Peeked(Option<Vec<ConsoleRecord>>),
    /// This record was read; `None` if reading failed.
    Record(Option<ConsoleRecord>),
}

/// A capture in progress.
#[derive(Debug)]
pub struct Capture {
    pub phase: CapturePhase,
    /// The records read so far.
    pub records: Vec<ConsoleRecord>,
}

/// Where `reply` takes a capture. A reply to something that was not asked takes
/// it nowhere.
pub open spec fn next_phase(phase: CapturePhase, reply: ConsoleReply) -> CapturePhase {
    match (phase, reply) {
        (CapturePhase::Counting, ConsoleReply::Pending(n)) => if n < PASTE_QUEUE_THRESHOLD {
            CapturePhase::Ignored
        } else {
            CapturePhase::Confirming
        },
        (CapturePhase::Confirming, ConsoleReply::Pending(n)) => if 0 < n <= PEEK_CAP {
            CapturePhase::Peeking(n)
        } else if burst_is_paste(n, None) {
            CapturePhase::Checking
        } else {
            CapturePhase::Ignored
        },
        (CapturePhase::Peeking(n), ConsoleReply::Peeked(peeked)) => if burst_is_paste(
            n,
            match peeked {
                Some(records) => Some(records@),
                None => None,
            },
        ) {
            CapturePhase::Checking
        } else {
            CapturePhase::Ignored
        },
        (CapturePhase::Checking, ConsoleReply::Pending(n)) => if n > 0 {
            CapturePhase::Reading
        } else {
            CapturePhase::Polling(DRAIN_POLLS)
        },
        (CapturePhase::Polling(left), ConsoleReply::Pending(n)) => if n > 0 {
            CapturePhase::Reading
        } else if left > 1 {
            CapturePhase::Polling((left - 1) as u32)
        } else {
            CapturePhase::Captured
        },
        (CapturePhase::Reading, ConsoleReply::Record(record)) => match record {
            Some(_) => CapturePhase::Checking,
            None => CapturePhase::Captured,
        },
        _ => phase,
    }
}

/// The records held after `reply`: one more for each record read.
pub open spec fn next_records(
    phase: CapturePhase,
    records: Seq<ConsoleRecord>,
    reply: ConsoleReply,
) -> Seq<ConsoleRecord> {
    match (phase, reply) {
        (CapturePhase::Reading, ConsoleReply::Record(Some(record))) => records.push(record),
        _ => records,
    }
}

impl Capture {
    /// A capture at the keystroke that may begin it.
    pub fn start() -> (r: Capture)
        ensures
            r.phase == CapturePhase::Counting,
            r.records@ == Seq::<ConsoleRecord>::empty(),
    {
        Capture { phase: CapturePhase::Counting, records: Vec::new() }
    }

    /// What the console is to be asked next.
    pub fn request(&self) -> (r: ConsoleRequest)
        ensures
            r == (match self.phase {
                CapturePhase::Counting => ConsoleRequest::Count,
                CapturePhase::Confirming => ConsoleRequest::Count,
                CapturePhase::Peeking(n) => ConsoleRequest::Peek(n),
                CapturePhase::Checking => ConsoleRequest::Count,
                CapturePhase::Polling(_) => ConsoleRequest::PauseAndCount(DRAIN_PAUSE_MILLIS),
                CapturePhase::Reading => ConsoleRequest::Read,
                CapturePhase::Captured => ConsoleRequest::Nothing,
                CapturePhase::Ignored => ConsoleRequest::Nothing,
            }),
    {
        match self.phase {
            CapturePhase::Counting => ConsoleRequest::Count,
            CapturePhase::Confirming => ConsoleRequest::Count,
            CapturePhase::Peeking(n) => ConsoleRequest::Peek(n),
            CapturePhase::Checking => ConsoleRequest::Count,
            CapturePhase::Polling(_) => ConsoleRequest::PauseAndCount(DRAIN_PAUSE_MILLIS),
            CapturePhase::Reading => ConsoleRequest::Read,
            CapturePhase::Captured => ConsoleRequest::Nothing,
            CapturePhase::Ignored => ConsoleRequest::Nothing,
        }
    }

    /// Takes in the console's answer.
    pub fn reply(&mut self, reply: ConsoleReply)
        ensures
            final(self).phase == next_phase(old(self).phase, reply),
            final(self).records@ == next_records(old(self).phase, old(self).records@, reply),
    {
        match (self.phase, reply) {
            (CapturePhase::Counting, ConsoleReply::Pending(n)) => {
                self.phase = if n < PASTE_QUEUE_THRESHOLD {
                    CapturePhase::Ignored
                } else {
                    CapturePhase::Confirming
                };
            },
            (CapturePhase::Confirming, ConsoleReply::Pending(n)) => {
                self.phase = if 0 < n && n <= PEEK_CAP {
                    CapturePhase::Peeking(n)
                } else if console_burst_is_paste(n, None) {
                    CapturePhase::Checking
                } else {
                    CapturePhase::Ignored
                };
            },
            (CapturePhase::Peeking(n), ConsoleReply::Peeked(peeked)) => {
                self.phase = if console_burst_is_paste(n, peeked.as_ref()) {
                    CapturePhase::Checking
                } else {
                    CapturePhase::Ignored
                };
            },
            (CapturePhase::Checking, ConsoleReply::Pending(n)) => {
                self.phase = if n > 0 {
                    CapturePhase::Reading
                } else {
                    CapturePhase::Polling(DRAIN_POLLS)
                };
            },
            (CapturePhase::Polling(left), ConsoleReply::Pending(n)) => {
                self.phase = if n > 0 {
                    CapturePhase::Reading
                } else if left > 1 {
                    CapturePhase::Polling(left - 1)
                } else {
                    CapturePhase::Captured
                };
            },
            (CapturePhase::Reading, ConsoleReply::Record(Some(record))) => {
                self.records.push(record);
                self.phase = CapturePhase::Checking;
            },
            (CapturePhase::Reading, ConsoleReply::Record(None)) => {
                self.phase = CapturePhase::Captured;
            },
            _ => {},
        }
    }
}

/// What the keystroke `first`, at which `capture` was made, does to the pastes: a
/// burst that was captured is taken in whole, and `shown` is the text that renders
/// it; any other keystroke shows and changes nothing.
pub open spec fn captures(
    before: PasteState,
    first: char,
    capture: Capture,
    after: PasteState,
    shown: Option<Seq<char>>,
) -> bool {
    if capture.phase == CapturePhase::Captured {
        shown matches Some(text) && takes_in(
            before,
            burst_text(first, capture.records@),
            after,
            text,
        )
    } else {
        shown is None && after == before
    }
}

/// If the keystroke `first` began a paste burst, take the whole burst in and
/// return the text that renders it: a `[Pasted N lines]` chip, or the literal
/// text when it is too small to collapse. `None` for ordinary keystrokes and
/// type-ahead.
pub fn capture_paste(state: &mut PasteState, first: char, capture: &Capture) -> (shown: Option<
    String,
>)
    requires
        old(state).next_id < usize::MAX,
    ensures
        captures(*old(state), first, *capture, *final(state), shown.deep_view()),
        old(state).well_formed() ==> final(state).well_formed(),
        shown matches Some(text) ==> gives_back(
            *old(state),
            burst_text(first, capture.records@),
            *final(state),
            text@,
        ),
{
    match capture.phase {
        CapturePhase::Captured => {
            let content: String = drain_console_paste(first, &capture.records);
            Some(state.store(content))
        },
        _ => None,
    }
}

/// The phase and the records after `replies`, from the start.
pub open spec fn run(replies: Seq<ConsoleReply>) -> (CapturePhase, Seq<ConsoleRecord>)
    decreases replies.len(),
{
    if replies.len() == 0 {
        (CapturePhase::Counting, Seq::empty())
    } else {
        let (phase, records) = run(replies.drop_last());
        (next_phase(phase, replies.last()), next_records(phase, records, replies.last()))
    }
}

/// Whether a capture in `phase` has taken the burst for a paste.
pub open spec fn is_pasting(phase: CapturePhase) -> bool {
    phase is Checking || phase is Polling || phase is Reading || phase is Captured
}

/// Whether `reply` counts enough queued events for a paste.
pub open spec fn counts_burst(reply: ConsoleReply) -> bool {
    reply matches ConsoleReply::Pending(n) && n >= PASTE_QUEUE_THRESHOLD
}

/// Whether `reply` shows the burst to be a paste.
pub open spec fn shows_paste(reply: ConsoleReply) -> bool {
    match reply {
        ConsoleReply::Pending(n) => n > PEEK_CAP,
        ConsoleReply::Peeked(Some(records)) => burst_is_paste(1, Some(records@)),
        _ => false,
    }
}

/// Whether the console counted a burst and later showed it to be a paste.
pub open spec fn saw_paste(replies: Seq<ConsoleReply>) -> bool {
    exists|i: int, j: int|
        0 <= i < j < replies.len() && counts_burst(#[trigger] replies[i]) && shows_paste(
            #[trigger] replies[j],
        )
}

proof fn lemma_run(replies: Seq<ConsoleReply>)
    ensures
        run(replies).0 is Confirming || run(replies).0 is Peeking ==> exists|i: int|
            0 <= i < replies.len() && counts_burst(#[trigger] replies[i]),
        run(replies).0 matches CapturePhase::Peeking(n) ==> 0 < n <= PEEK_CAP,
        is_pasting(run(replies).0) ==> saw_paste(replies),
    decreases replies.len(),
{
    if replies.len() > 0 {
        let earlier = replies.drop_last();
        lemma_run(earlier);
        let phase = run(earlier).0;
        let last = replies.len() - 1;
        if phase is Counting {
            assert(replies[last] == replies.last());
        } else if phase is Confirming || phase is Peeking {
            let i = choose|i: int| 0 <= i < earlier.len() && counts_burst(#[trigger] earlier[i]);
            assert(replies[i] == earlier[i]);
            if is_pasting(run(replies).0) {
                assert(shows_paste(replies[last]));
            }
        } else if is_pasting(phase) {
            let (i, j) = choose|i: int, j: int|
                0 <= i < j < earlier.len() && counts_burst(#[trigger] earlier[i]) && shows_paste(
                    #[trigger] earlier[j],
                );
            assert(replies[i] == earlier[i] && replies[j] == earlier[j]);
        }
    }
}

/// Nothing is consumed or captured unless the console counted a burst and then
/// showed it to be a paste: ordinary keystrokes and type-ahead are never
/// captured.
pub proof fn law_capture_needs_a_paste(replies: Seq<ConsoleReply>)
    requires
        is_pasting(run(replies).0) || run(replies).1.len() > 0,
    ensures
        saw_paste(replies),
    decreases replies.len(),
{
    lemma_run(replies);
    if !is_pasting(run(replies).0) {
        let earlier = replies.drop_last();
        lemma_run(earlier);
        law_capture_needs_a_paste(earlier);
        let (i, j) = choose|i: int, j: int|
            0 <= i < j < earlier.len() && counts_burst(#[trigger] earlier[i]) && shows_paste(
                #[trigger] earlier[j],
            );
        assert(replies[i] == earlier[i] && replies[j] == earlier[j]);
    }
}

/// A settled capture stays as it is, whatever the console says.
pub proof fn law_settled_capture_stays(
    phase: CapturePhase,
    records: Seq<ConsoleRecord>,
    reply: ConsoleReply,
)
    requires
        phase is Captured || phase is Ignored,
    ensures
        next_phase(phase, reply) == phase,
        next_records(phase, records, reply) == records,
{
}

/// The phase after `times` answers in a row that nothing is queued.
pub open spec fn after_empty_counts(phase: CapturePhase, times: nat) -> CapturePhase
    decreases times,
{
    if times == 0 {
        phase
    } else {
        next_phase(after_empty_counts(phase, (times - 1) as nat), ConsoleReply::Pending(0))
    }
}

/// A burst is over when the queue was found empty and stayed so through all the
/// polls, and not before.
pub proof fn law_burst_ends_after_the_polls(times: nat)
    ensures
        1 <= times <= DRAIN_POLLS ==> after_empty_counts(CapturePhase::Checking, times)
            == CapturePhase::Polling((DRAIN_POLLS - times + 1) as u32),
        times > DRAIN_POLLS ==> after_empty_counts(CapturePhase::Checking, times)
            == CapturePhase::Captured,
    decreases times,
{
    if times > 0 {
        law_burst_ends_after_the_polls((times - 1) as nat);
    }
}

/// Every record that is read is kept, behind those read before it, however many
/// they are; nothing else is kept, and nothing that was kept is lost.
pub proof fn law_every_record_read_is_kept(replies: Seq<ConsoleReply>, reply: ConsoleReply)
    ensures
        run(Seq::<ConsoleReply>::empty()).1.len() == 0,
        run(replies).0 is Reading ==> (reply matches ConsoleReply::Record(Some(record))
            ==> run(replies.push(reply)).1 == run(replies).1.push(record)),
        !(run(replies).0 is Reading && reply is Record && reply->Record_0 is Some) ==> run(
            replies.push(reply),
        ).1 == run(replies).1,
{
    assert(replies.push(reply).drop_last() == replies);
    assert(replies.push(reply).last() == reply);
}

/// The record that was read by the reply at `i`, where a record was asked for.
pub open spec fn read_at(replies: Seq<ConsoleReply>, i: int) -> Option<ConsoleRecord> {
    match replies[i] {
        ConsoleReply::Record(record) if run(replies.take(i)).0 is Reading => record,
        _ => None,
    }
}

/// The records that were read among `replies`.
pub open spec fn records_read(replies: Seq<ConsoleReply>) -> Seq<ConsoleRecord> {
    Seq::new(replies.len(), |i: int| i).filter_map(|i: int| read_at(replies, i))
}

proof fn lemma_records_read(replies: Seq<ConsoleReply>, longer: Seq<ConsoleReply>, n: nat)
    requires
        n <= replies.len() <= longer.len(),
        longer.take(replies.len() as int) == replies,
    ensures
        Seq::new(n, |i: int| i).filter_map(|i: int| read_at(replies, i)) == Seq::new(
            n,
            |i: int| i,
        ).filter_map(|i: int| read_at(longer, i)),
    decreases n,
{
    reveal(Seq::filter_map);
    if n > 0 {
        let last = n - 1;
        lemma_records_read(replies, longer, last as nat);
        assert(Seq::new(n, |i: int| i).drop_last() == Seq::new(last as nat, |i: int| i));
        assert(longer.take(last) == replies.take(last)) by {
            assert(longer.take(replies.len() as int).take(last) == longer.take(last));
        }
        assert(longer[last] == longer.take(replies.len() as int)[last]);
        assert(read_at(longer, last) == read_at(replies, last));
    }
}

/// Of a capture from its start: what is held is what was read, all of it, in
/// order.
pub proof fn law_records_held_are_those_read(replies: Seq<ConsoleReply>)
    ensures
        run(replies).1 == records_read(replies),
    decreases replies.len(),
{
    reveal(Seq::filter_map);
    if replies.len() > 0 {
        let earlier = replies.drop_last();
        let last = replies.len() - 1;
        law_records_held_are_those_read(earlier);
        lemma_records_read(earlier, replies, earlier.len());
        assert(Seq::new(replies.len(), |i: int| i).drop_last() == Seq::new(
            earlier.len(),
            |i: int| i,
        ));
        assert(replies.take(last) == earlier);
        assert(earlier.push(replies.last()) == replies);
        law_every_record_read_is_kept(earlier, replies.last());
    }
}

/// What the console answers while it hands out `record`: some times that nothing
/// is queued, then that something is, then the record.
pub open spec fn hands_out(record: ConsoleRecord, answers: Seq<ConsoleReply>) -> bool {
    let n = answers.len();
    &&& 2 <= n <= 6
    &&& forall|i: int| 0 <= i < n - 2 ==> #[trigger] answers[i] == ConsoleReply::Pending(0)
    &&& answers[n - 2] matches ConsoleReply::Pending(pending)
    &&& pending > 0
    &&& answers[n - 1] == ConsoleReply::Record(Some(record))
}

/// Whether the console has shown a paste by `replies`: it counted two queued
/// events or more, then counted again, and either counted more than it can be
/// asked to show, or showed a paste.
pub open spec fn opens_paste(replies: Seq<ConsoleReply>) -> bool {
    &&& replies.len() >= 2
    &&& replies[0] matches ConsoleReply::Pending(first)
    &&& first >= 2
    &&& replies[1] matches ConsoleReply::Pending(second)
    &&& if second > 512 {
        replies.len() == 2
    } else {
        replies.len() == 3 && second > 0 && (replies[2] matches ConsoleReply::Peeked(Some(records))
            && burst_is_paste(second, Some(records@)))
    }
}

proof fn lemma_run_push(replies: Seq<ConsoleReply>, reply: ConsoleReply)
    ensures
        run(replies.push(reply)) == (
            next_phase(run(replies).0, reply),
            next_records(run(replies).0, run(replies).1, reply),
        ),
{
    assert(replies.push(reply).drop_last() == replies);
}

/// A paste that the console shows is captured: from then on the burst is read.
pub proof fn law_shown_paste_is_read(replies: Seq<ConsoleReply>)
    requires
        opens_paste(replies),
    ensures
        run(replies).0 is Checking,
        run(replies).1.len() == 0,
{
    let none = Seq::<ConsoleReply>::empty();
    let one = none.push(replies[0]);
    let two = one.push(replies[1]);
    lemma_run_push(none, replies[0]);
    lemma_run_push(one, replies[1]);
    if replies.len() == 2 {
        assert(two == replies);
    } else {
        lemma_run_push(two, replies[2]);
        assert(two.push(replies[2]) == replies);
    }
}

/// Whatever the console says later, a keystroke is left alone from the moment that
/// fewer than two events were queued behind it, or that the burst behind it did
/// not show itself to be a paste.
pub proof fn law_typing_is_left_alone(replies: Seq<ConsoleReply>)
    requires
        replies.len() > 0,
        replies[0] matches ConsoleReply::Pending(first) && (first < 2 || (replies.len() > 1 && (
        replies[1] matches ConsoleReply::Pending(second) && (second == 0 || (replies.len() > 2
            && second <= 512 && (replies[2] matches ConsoleReply::Peeked(peeked) && (match peeked {
            Some(records) => !burst_is_paste(second, Some(records@)),
            None => true,
        }))))))),
    ensures
        run(replies).0 is Ignored,
        run(replies).1.len() == 0,
    decreases replies.len(),
{
    let earlier = replies.drop_last();
    let none = Seq::<ConsoleReply>::empty();
    assert(earlier.push(replies.last()) == replies);
    lemma_run_push(earlier, replies.last());
    if replies.len() == 1 {
        assert(earlier == none);
    } else {
        assert(earlier[0] == replies[0]);
        let one = none.push(replies[0]);
        lemma_run_push(none, replies[0]);
        if replies[0]->Pending_0 < 2 {
            law_typing_is_left_alone(earlier);
        } else if replies.len() == 2 {
            assert(earlier == one);
        } else {
            assert(earlier[1] == replies[1]);
            let two = one.push(replies[1]);
            lemma_run_push(one, replies[1]);
            if replies[1]->Pending_0 == 0 {
                law_typing_is_left_alone(earlier);
            } else if replies.len() == 3 {
                assert(earlier == two);
            } else {
                assert(earlier[2] == replies[2]);
                law_typing_is_left_alone(earlier);
            }
        }
    }
}

proof fn lemma_gaps(replies: Seq<ConsoleReply>, gaps: Seq<ConsoleReply>)
    requires
        run(replies).0 is Checking,
        gaps.len() <= 5,
        forall|i: int| 0 <= i < gaps.len() ==> #[trigger] gaps[i] == ConsoleReply::Pending(0),
    ensures
        run(replies + gaps).0 == after_empty_counts(CapturePhase::Checking, gaps.len()),
        run(replies + gaps).1 == run(replies).1,
    decreases gaps.len(),
{
    if gaps.len() == 0 {
        assert(replies + gaps == replies);
    } else {
        let earlier = gaps.drop_last();
        lemma_gaps(replies, earlier);
        law_burst_ends_after_the_polls(earlier.len());
        assert(gaps[gaps.len() - 1] == ConsoleReply::Pending(0));
        assert((replies + earlier).push(gaps.last()) == replies + gaps);
        lemma_run_push(replies + earlier, gaps.last());
    }
}

/// While a burst is read, the queue may be empty for up to four looks in a row
/// before the next record: the record is kept all the same, behind the others, and
/// reading goes on.
pub proof fn law_slow_record_is_kept(
    replies: Seq<ConsoleReply>,
    record: ConsoleRecord,
    answers: Seq<ConsoleReply>,
)
    requires
        run(replies).0 is Checking,
        hands_out(record, answers),
    ensures
        run(replies + answers).0 is Checking,
        run(replies + answers).1 == run(replies).1.push(record),
{
    let n = answers.len();
    let gaps = answers.take(n - 2);
    lemma_gaps(replies, gaps);
    law_burst_ends_after_the_polls(gaps.len());
    let counted = (replies + gaps).push(answers[n - 2]);
    lemma_run_push(replies + gaps, answers[n - 2]);
    lemma_run_push(counted, answers[n - 1]);
    assert(counted.push(answers[n - 1]) == replies + answers);
}

/// A burst that the console has shown to be a paste is captured whole: all the
/// records it hands out, in order and however many, up to where the queue stays
/// empty or a read fails.
pub proof fn law_paste_is_captured_whole(
    opening: Seq<ConsoleReply>,
    records: Seq<ConsoleRecord>,
    answers: Seq<Seq<ConsoleReply>>,
    end: Seq<ConsoleReply>,
)
    requires
        opens_paste(opening),
        answers.len() == records.len(),
        forall|i: int| 0 <= i < records.len() ==> hands_out(records[i], #[trigger] answers[i]),
        ({
            ||| end == Seq::new(5, |i: int| ConsoleReply::Pending(0))
            ||| end.len() == 2 && (end[0] matches ConsoleReply::Pending(pending) && pending > 0)
                && end[1] == ConsoleReply::Record(None)
        }),
    ensures
        run(opening + answers.flatten() + end).0 is Captured,
        run(opening + answers.flatten() + end).1 == records,
{
    lemma_burst_is_read(opening, records, answers);
    let replies = opening + answers.flatten();
    if end.len() == 2 {
        let counted = replies.push(end[0]);
        lemma_run_push(replies, end[0]);
        lemma_run_push(counted, end[1]);
        assert(counted.push(end[1]) == replies + end);
    } else {
        lemma_gaps(replies, end);
        law_burst_ends_after_the_polls(5);
    }
}

proof fn lemma_burst_is_read(
    opening: Seq<ConsoleReply>,
    records: Seq<ConsoleRecord>,
    answers: Seq<Seq<ConsoleReply>>,
)
    requires
        opens_paste(opening),
        answers.len() == records.len(),
        forall|i: int| 0 <= i < records.len() ==> hands_out(records[i], #[trigger] answers[i]),
    ensures
        run(opening + answers.flatten()).0 is Checking,
        run(opening + answers.flatten()).1 == records,
    decreases records.len(),
{
    law_shown_paste_is_read(opening);
    if records.len() == 0 {
        assert(opening + answers.flatten() == opening);
    } else {
        let last = records.len() - 1;
        let earlier = answers.drop_last();
        assert forall|i: int| 0 <= i < last implies hands_out(
            records.drop_last()[i],
            #[trigger] earlier[i],
        ) by {
            assert(earlier[i] == answers[i]);
        }
        lemma_burst_is_read(opening, records.drop_last(), earlier);
        law_slow_record_is_kept(opening + earlier.flatten(), records[last], answers[last]);
        earlier.lemma_flatten_push(answers.last());
        assert(earlier.push(answers.last()) == answers);
        assert(opening + answers.flatten() == opening + earlier.flatten() + answers[last]);
        assert(records.drop_last().push(records[last]) == records);
    }
}

/// A reply to something that was not asked changes nothing: a count where a record
/// or a look is wanted, and so on.
pub proof fn law_unasked_reply_changes_nothing(phase: CapturePhase, reply: ConsoleReply)
    requires
        match reply {
            ConsoleReply::Pending(_) => phase is Peeking || phase is Reading,
            ConsoleReply::Peeked(_) => !(phase is Peeking),
            ConsoleReply::Record(_) => !(phase is Reading),
        },
    ensures
        next_phase(phase, reply) == phase,
{
}

/// What a keystroke shows and changes: a captured burst is taken in with all its
/// text, and any other keystroke leaves the pastes alone.
pub proof fn law_captured_burst_is_taken_in(
    before: PasteState,
    first: char,
    capture: Capture,
    after: PasteState,
    shown: Option<Seq<char>>,
)
    ensures
        captures(before, first, capture, after, shown) && capture.phase is Captured ==> shown is Some
            && takes_in(before, burst_text(first, capture.records@), after, shown->0),
        captures(before, first, capture, after, shown) && !(capture.phase is Captured)
            ==> shown is None && after == before,
{
}

/// The whole queue is looked at, where it is not too large for that.
pub proof fn law_whole_queue_is_looked_at(pending: u32)
    requires
        0 < pending <= 512,
    ensures
        next_phase(CapturePhase::Confirming, ConsoleReply::Pending(pending))
            == CapturePhase::Peeking(pending),
{
}

} // verus!
