//! Pasted blocks: the chip shown in place of a block, and the expansion of
//! chips back to the blocks when the line is submitted.

use crate::text::{chars_of, matches_at, occurs_at, string_of};
use crate::paste_laws::{
    chip_free, law_chip_free_line_is_unchanged, law_chip_gives_back_its_block,
    law_stored_chips_are_told_apart,
};
use vstd::prelude::*;

verus! {

/// Collapse a paste into a chip once it spans at least this many lines.
pub const PASTE_CHIP_MIN_LINES: usize = 2;

/// ...or once a single-line paste is at least this many characters.
pub const PASTE_CHIP_MIN_CHARS: usize = 400;

/// A pasted block and the chip that stands for it in the line.
#[derive(Debug)]
pub struct Paste {
    pub marker: String,
    pub content: String,
}

/// A [`Paste`] as character sequences.
pub struct PasteView {
    pub marker: Seq<char>,
    pub content: Seq<char>,
}

impl DeepView for Paste {
    type V = PasteView;

    open spec fn deep_view(&self) -> PasteView {
        PasteView { marker: self.marker@, content: self.content@ }
    }
}

/// The blocks pasted into the current line so far.
#[derive(Debug)]
pub struct PasteState {
    pub pastes: Vec<Paste>,
    pub next_id: usize,
}

impl Default for PasteState {
    fn default() -> (r: Self)
        ensures
            r.pastes@.len() == 0,
            r.next_id == 0,
            r.well_formed(),
    {
        PasteState { pastes: Vec::new(), next_id: 0 }
    }
}

impl PasteState {
    /// The pastes as character sequences, oldest first.
    pub open spec fn blocks(&self) -> Seq<PasteView> {
        self.pastes.deep_view()
    }

    /// Every stored block is shown by its own chip, and the ids count up from
    /// one without a gap.
    pub open spec fn well_formed(&self) -> bool {
        &&& self.next_id == self.pastes@.len()
        &&& chips_numbered(self.blocks())
    }

    /// Takes in a pasted block and returns the text that stands for it in the
    /// line: a chip, under which the block is kept, or the block itself when it
    /// is too small to collapse.
    pub fn store(&mut self, content: String) -> (shown: String)
        requires
            old(self).next_id < usize::MAX,
        ensures
            takes_in(*old(self), content@, *final(self), shown@),
            old(self).well_formed() ==> final(self).well_formed(),
            gives_back(*old(self), content@, *final(self), shown@),
    {
        let id: usize = self.next_id + 1;
        match paste_marker(content.as_str(), id) {
            Some(marker) => {
                self.next_id = id;
                let shown: String = marker.clone();
                let ghost before = self.pastes.deep_view();
                let paste: Paste = Paste { marker, content };
                let ghost model = paste.deep_view();
                self.pastes.push(paste);
                assert(self.blocks() == before.push(model));
                proof {
                    if old(self).well_formed() {
                        assert(chips_numbered(self.blocks()));
                        law_stored_chips_are_told_apart(self.blocks());
                        law_chip_gives_back_its_block(self.blocks(), before.len() as int);
                    }
                }
                shown
            },
            None => {
                proof {
                    if chip_free(content@, self.blocks()) {
                        law_chip_free_line_is_unchanged(content@, self.blocks());
                    }
                }
                content
            },
        }
    }
}

/// What taking in the block `content` does to the pastes, and what is `shown` for
/// it in the line: a chip under the next id, under which the block is kept behind
/// the others, or the block itself, where it is too small to collapse.
pub open spec fn takes_in(
    before: PasteState,
    content: Seq<char>,
    after: PasteState,
    shown: Seq<char>,
) -> bool {
    match chip(content, (before.next_id + 1) as nat) {
        Some(marker) => {
            &&& shown == marker
            &&& after.blocks() == before.blocks().push(PasteView { marker, content })
            &&& after.next_id == before.next_id + 1
        },
        None => shown == content && after == before,
    }
}

/// Whether what is `shown` for the block `content`, submitted by itself, gives
/// the block back. A block shown as it stands may hold no earlier chip: that
/// would be expanded in it.
pub open spec fn gives_back(
    before: PasteState,
    content: Seq<char>,
    after: PasteState,
    shown: Seq<char>,
) -> bool {
    before.well_formed() && (chip(content, (before.next_id + 1) as nat) is Some || chip_free(
        content,
        before.blocks(),
    )) ==> expanded(shown, after.blocks()) == content
}

/// Whether each block is shown by the chip with its position, counted from one.
pub open spec fn chips_numbered(blocks: Seq<PasteView>) -> bool {
    forall|i: int|
        0 <= i < blocks.len() ==> chip((#[trigger] blocks[i]).content, (i + 1) as nat) == Some(
            blocks[i].marker,
        )
}

/// The decimal digit `d`.
pub open spec fn digit(d: nat) -> char {
    (48 + d) as char
}

/// `n` in decimal notation.
pub open spec fn decimal(n: nat) -> Seq<char>
    decreases n,
{
    if n < 10 {
        seq![digit(n)]
    } else {
        decimal(n / 10).push(digit(n % 10))
    }
}

/// Writes `n` in decimal notation.
pub fn decimal_string(n: usize) -> (s: String)
    ensures
        s@ == decimal(n as nat),
    decreases n,
{
    if n < 10 {
        let mut s: String = String::new();
        s.push((48 + n as u8) as char);
        s
    } else {
        let mut s: String = decimal_string(n / 10);
        s.push((48 + (n % 10) as u8) as char);
        s
    }
}

/// `s` without the newlines at its end.
pub open spec fn without_final_newlines(s: Seq<char>) -> Seq<char>
    decreases s.len(),
{
    if s.len() > 0 && s.last() == '\n' {
        without_final_newlines(s.drop_last())
    } else {
        s
    }
}

/// How many newlines `s` holds.
pub open spec fn newline_count(s: Seq<char>) -> nat
    decreases s.len(),
{
    if s.len() == 0 {
        0
    } else if s.last() == '\n' {
        newline_count(s.drop_last()) + 1
    } else {
        newline_count(s.drop_last())
    }
}

/// How many lines `content` spans; newlines at its end begin no further line.
pub open spec fn line_count(content: Seq<char>) -> nat {
    newline_count(without_final_newlines(content)) + 1
}

/// The text of a chip: a size, the unit it is counted in, and the paste's id.
pub open spec fn chip_text(size: nat, unit: Seq<char>, id: nat) -> Seq<char> {
    "[Pasted "@ + decimal(size) + unit + decimal(id) + "]"@
}

/// The chip for `content`, or `None` when it is small enough to keep inline.
pub open spec fn chip(content: Seq<char>, id: nat) -> Option<Seq<char>> {
    if line_count(content) >= PASTE_CHIP_MIN_LINES {
        Some(chip_text(line_count(content), " lines #"@, id))
    } else if content.len() >= PASTE_CHIP_MIN_CHARS {
        Some(chip_text(content.len(), " chars #"@, id))
    } else {
        None
    }
}

proof fn lemma_newline_count_bound(s: Seq<char>)
    ensures
        newline_count(s) <= s.len(),
        s.len() > 0 && s.last() != '\n' ==> newline_count(s) < s.len(),
    decreases s.len(),
{
    if s.len() > 0 {
        lemma_newline_count_bound(s.drop_last());
    }
}

/// Counts the lines of `content`.
fn count_lines(content: &Vec<char>) -> (lines: usize)
    ensures
        lines == line_count(content@),
{
    let mut end: usize = content.len();
    assert(content@.take(end as int) == content@);
    while end > 0 && content[end - 1] == '\n'
        invariant
            end <= content@.len(),
            without_final_newlines(content@) == without_final_newlines(content@.take(end as int)),
        decreases end,
    {
        assert(content@.take(end as int).drop_last() == content@.take(end - 1));
        end -= 1;
    }
    let ghost body = content@.take(end as int);
    let mut count: usize = 0;
    let mut i: usize = 0;
    while i < end
        invariant
            i <= end <= content@.len(),
            count <= i,
            count == newline_count(content@.take(i as int)),
        decreases end - i,
    {
        assert(content@.take(i + 1).drop_last() == content@.take(i as int));
        if content[i] == '\n' {
            count += 1;
        }
        i += 1;
    }
    proof {
        lemma_newline_count_bound(body);
    }
    count + 1
}

/// Writes the text of a chip.
fn chip_string(size: usize, unit: &str, id: usize) -> (s: String)
    ensures
        s@ == chip_text(size as nat, unit@, id as nat),
{
    let mut s: String = String::new();
    s.append("[Pasted ");
    s.append(decimal_string(size).as_str());
    s.append(unit);
    s.append(decimal_string(id).as_str());
    s.append("]");
    s
}

/// Build the chip shown in place of a pasted block, or `None` when the paste is
/// small enough to keep inline. `id` makes the chip unique to this paste (see
/// [`crate::paste_laws::law_chips_of_different_pastes_differ`]).
pub fn paste_marker(content: &str, id: usize) -> (r: Option<String>)
    ensures
        r.deep_view() == chip(content@, id as nat),
{
    let v: Vec<char> = chars_of(content);
    let lines: usize = count_lines(&v);
    if lines >= PASTE_CHIP_MIN_LINES {
        Some(chip_string(lines, " lines #", id))
    } else if v.len() >= PASTE_CHIP_MIN_CHARS {
        Some(chip_string(v.len(), " chars #", id))
    } else {
        None
    }
}

/// The first of `pastes` whose chip `line` begins with.
pub open spec fn leading_paste(line: Seq<char>, pastes: Seq<PasteView>) -> Option<PasteView>
    decreases pastes.len(),
{
    if pastes.len() == 0 {
        None
    } else if pastes[0].marker.is_prefix_of(line) {
        Some(pastes[0])
    } else {
        leading_paste(line, pastes.skip(1))
    }
}

/// `line` read from left to right, with each chip of `pastes` that stands in it
/// replaced by its content.
pub open spec fn expanded(line: Seq<char>, pastes: Seq<PasteView>) -> Seq<char>
    decreases line.len(),
{
    if line.len() == 0 {
        line
    } else {
        match leading_paste(line, pastes) {
            Some(paste) if 0 < paste.marker.len() <= line.len() => paste.content + expanded(
                line.skip(paste.marker.len() as int),
                pastes,
            ),
            _ => seq![line[0]] + expanded(line.skip(1), pastes),
        }
    }
}

/// The chip of each paste, in order.
fn markers_of(pastes: &[Paste]) -> (r: Vec<Vec<char>>)
    ensures
        r@.len() == pastes@.len(),
        forall|k: int| 0 <= k < r@.len() ==> (#[trigger] r@[k])@ == pastes@[k].marker@,
{
    let mut r: Vec<Vec<char>> = Vec::new();
    let mut k: usize = 0;
    while k < pastes.len()
        invariant
            k <= pastes@.len(),
            r@.len() == k,
            forall|j: int| 0 <= j < k ==> (#[trigger] r@[j])@ == pastes@[j].marker@,
        decreases pastes@.len() - k,
    {
        r.push(chars_of(pastes[k].marker.as_str()));
        k += 1;
    }
    r
}

proof fn lemma_leading_paste(line: Seq<char>, pastes: Seq<PasteView>, k: int)
    requires
        0 <= k <= pastes.len(),
        forall|j: int| 0 <= j < k ==> !(#[trigger] pastes[j]).marker.is_prefix_of(line),
    ensures
        k == pastes.len() ==> leading_paste(line, pastes) is None,
        k < pastes.len() && pastes[k].marker.is_prefix_of(line) ==> leading_paste(line, pastes)
            == Some(pastes[k]),
    decreases k,
{
    if k > 0 {
        assert(!pastes[0].marker.is_prefix_of(line));
        assert forall|j: int| 0 <= j < k - 1 implies !(
        #[trigger] pastes.skip(1)[j]).marker.is_prefix_of(line) by {
            assert(pastes.skip(1)[j] == pastes[j + 1]);
        }
        lemma_leading_paste(line, pastes.skip(1), k - 1);
    }
}

proof fn lemma_prefix_of_rest(line: Seq<char>, at: int, marker: Seq<char>)
    requires
        0 <= at <= line.len(),
    ensures
        matches_at(line, at, marker) == marker.is_prefix_of(line.skip(at)),
{
    if at + marker.len() <= line.len() {
        assert(line.subrange(at, at + marker.len()) == line.skip(at).subrange(
            0,
            marker.len() as int,
        ));
    }
}

/// The index of the first paste whose chip stands in `line` at `at`, or the
/// number of pastes.
fn find_leading_paste(line: &Vec<char>, at: usize, pastes: &[Paste], markers: &Vec<Vec<char>>) -> (k:
    usize)
    requires
        at <= line@.len(),
        markers@.len() == pastes@.len(),
        forall|k: int| 0 <= k < markers@.len() ==> (#[trigger] markers@[k])@ == pastes@[k].marker@,
    ensures
        k <= pastes@.len(),
        leading_paste(line@.skip(at as int), pastes.deep_view()) == (if k < pastes@.len() {
            Some(pastes@[k as int].deep_view())
        } else {
            None
        }),
{
    let ghost rest = line@.skip(at as int);
    let ghost models = pastes.deep_view();
    let mut k: usize = 0;
    while k < pastes.len()
        invariant
            k <= pastes@.len(),
            at <= line@.len(),
            rest == line@.skip(at as int),
            models == pastes.deep_view(),
            markers@.len() == pastes@.len(),
            forall|k: int|
                0 <= k < markers@.len() ==> (#[trigger] markers@[k])@ == pastes@[k].marker@,
            forall|j: int| 0 <= j < k ==> !(#[trigger] models[j]).marker.is_prefix_of(rest),
        decreases pastes@.len() - k,
    {
        proof {
            lemma_prefix_of_rest(line@, at as int, markers@[k as int]@);
            assert(models[k as int].marker == markers@[k as int]@);
        }
        if occurs_at(line, at, &markers[k]) {
            proof {
                lemma_leading_paste(rest, models, k as int);
            }
            return k;
        }
        k += 1;
    }
    proof {
        lemma_leading_paste(rest, models, k as int);
    }
    k
}

/// Expand chips in the submitted line back to their pasted content, in the
/// order the chips appear in the line. Chips are matched by position rather than
/// by capture order, so reordering them in the prompt still expands every block.
pub fn expand_pastes(line: &str, pastes: &[Paste]) -> (r: String)
    requires
        forall|k: int| 0 <= k < pastes@.len() ==> (#[trigger] pastes@[k]).marker@.len() > 0,
    ensures
        r@ == expanded(line@, pastes.deep_view()),
{
    let v: Vec<char> = chars_of(line);
    let n: usize = v.len();
    let markers: Vec<Vec<char>> = markers_of(pastes);
    let mut r: String = String::new();
    let mut at: usize = 0;
    assert(v@.skip(0) == v@);
    while at < n
        invariant
            at <= n == v@.len(),
            markers@.len() == pastes@.len(),
            forall|k: int|
                0 <= k < markers@.len() ==> (#[trigger] markers@[k])@ == pastes@[k].marker@,
            forall|k: int| 0 <= k < pastes@.len() ==> (#[trigger] pastes@[k]).marker@.len() > 0,
            expanded(v@, pastes.deep_view()) == r@ + expanded(
                v@.skip(at as int),
                pastes.deep_view(),
            ),
        decreases n - at,
    {
        let ghost rest = v@.skip(at as int);
        let ghost before = r@;
        let k: usize = find_leading_paste(&v, at, pastes, &markers);
        if k < pastes.len() {
            assert(markers@[k as int]@ == pastes@[k as int].marker@);
            proof {
                lemma_leading_is_prefix(rest, pastes.deep_view());
            }
            r.append(pastes[k].content.as_str());
            let len: usize = markers[k].len();
            assert(rest.skip(len as int) == v@.skip(at + len));
            assert(r@ + expanded(v@.skip(at + len), pastes.deep_view()) == before + (
            pastes@[k as int].content@ + expanded(v@.skip(at + len), pastes.deep_view())));
            at += len;
        } else {
            r.push(v[at]);
            assert(rest.skip(1) == v@.skip(at + 1));
            assert(r@ + expanded(v@.skip(at + 1), pastes.deep_view()) == before + (seq![rest[0]]
                + expanded(v@.skip(at + 1), pastes.deep_view())));
            at += 1;
        }
    }
    assert(v@.skip(n as int) == Seq::<char>::empty());
    assert(r@ + Seq::<char>::empty() == r@);
    r
}

pub(crate) proof fn lemma_leading_is_prefix(line: Seq<char>, pastes: Seq<PasteView>)
    ensures
        leading_paste(line, pastes) matches Some(paste) ==> paste.marker.is_prefix_of(line)
            && pastes.contains(paste),
    decreases pastes.len(),
{
    if pastes.len() > 0 && !pastes[0].marker.is_prefix_of(line) {
        lemma_leading_is_prefix(line, pastes.skip(1));
        if let Some(paste) = leading_paste(line, pastes.skip(1)) {
            let k = choose|k: int| 0 <= k < pastes.skip(1).len() && pastes.skip(1)[k] == paste;
            assert(pastes[k + 1] == paste);
        }
    } else if pastes.len() > 0 {
        assert(pastes[0] == leading_paste(line, pastes)->0);
    }
}

/// `text` with every line end, `\r\n` or `\r` or `\n`, as `\n`.
pub open spec fn normalized(text: Seq<char>) -> Seq<char>
    decreases text.len(),
{
    if text.len() == 0 {
        text
    } else if text[0] != '\r' {
        seq![text[0]] + normalized(text.skip(1))
    } else if text.len() > 1 && text[1] == '\n' {
        seq!['\n'] + normalized(text.skip(2))
    } else {
        seq!['\n'] + normalized(text.skip(1))
    }
}

/// Turns every line end of `text` into `\n`.
pub fn normalize_paste_text(text: &str) -> (r: String)
    ensures
        r@ == normalized(text@),
{
    let v: Vec<char> = chars_of(text);
    let n: usize = v.len();
    let mut r: String = String::new();
    let mut i: usize = 0;
    assert(v@.skip(0) == v@);
    while i < n
        invariant
            i <= n == v@.len(),
            normalized(v@) == r@ + normalized(v@.skip(i as int)),
        decreases n - i,
    {
        let ghost rest = v@.skip(i as int);
        let ghost before = r@;
        let mut c: char = v[i];
        let mut step: usize = 1;
        if c == '\r' {
            c = '\n';
            if n - i > 1 && v[i + 1] == '\n' {
                step = 2;
            }
        }
        r.push(c);
        assert(rest.skip(step as int) == v@.skip(i + step));
        assert(before.push(c) + normalized(v@.skip(i + step)) == before + (seq![c] + normalized(
            v@.skip(i + step),
        )));
        i += step;
    }
    assert(v@.skip(n as int) == Seq::<char>::empty());
    assert(r@ + Seq::<char>::empty() == r@);
    r
}

} // verus!
