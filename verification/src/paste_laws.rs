//! What holds of chips and their expansion as a whole.

use crate::help::joined;
use crate::paste::{
    chip, chip_text, chips_numbered, decimal, digit, expanded, leading_paste,
    lemma_leading_is_prefix, line_count, newline_count, normalized, takes_in,
    without_final_newlines, PasteState, PasteView, PASTE_CHIP_MIN_CHARS, PASTE_CHIP_MIN_LINES,
};
use crate::text::{contains_text, matches_at};
use vstd::prelude::*;

verus! {

/// Whether every character of `s` is a decimal digit.
spec fn all_digits(s: Seq<char>) -> bool {
    forall|i: int| 0 <= i < s.len() ==> '0' <= #[trigger] s[i] <= '9'
}

proof fn lemma_decimal_digits(n: nat)
    ensures
        all_digits(decimal(n)),
        decimal(n).len() > 0,
    decreases n,
{
    if n >= 10 {
        lemma_decimal_digits(n / 10);
    }
}

/// Decimal notation tells numbers apart.
pub proof fn law_decimal_is_injective(a: nat, b: nat)
    requires
        decimal(a) == decimal(b),
    ensures
        a == b,
    decreases a,
{
    lemma_decimal_digits(a / 10);
    lemma_decimal_digits(b / 10);
    if a < 10 && b < 10 {
        assert(decimal(a)[0] == digit(a));
        assert(decimal(b)[0] == digit(b));
    } else if a >= 10 && b >= 10 {
        assert(decimal(a).last() == digit(a % 10));
        assert(decimal(b).last() == digit(b % 10));
        assert(decimal(a).drop_last() == decimal(a / 10));
        assert(decimal(b).drop_last() == decimal(b / 10));
        law_decimal_is_injective(a / 10, b / 10);
    } else {
        let big = if a < 10 {
            b
        } else {
            a
        };
        assert(decimal(big).len() == decimal(big / 10).len() + 1);
        assert(decimal(a).len() != decimal(b).len());
    }
}

/// Whether `[` stands at the front of `s` and nowhere else, and `]` at its end
/// and nowhere else.
pub open spec fn bracketed(s: Seq<char>) -> bool {
    &&& s.len() >= 2
    &&& s[0] == '['
    &&& s.last() == ']'
    &&& forall|i: int| 0 < i < s.len() ==> #[trigger] s[i] != '['
    &&& forall|i: int| 0 <= i < s.len() - 1 ==> #[trigger] s[i] != ']'
}

/// Whether `unit` can stand in a chip: it ends with its only `#` and holds no
/// bracket.
spec fn is_unit(unit: Seq<char>) -> bool {
    &&& unit.len() > 0
    &&& unit.last() == '#'
    &&& forall|i: int|
        0 <= i < unit.len() ==> #[trigger] unit[i] != '[' && unit[i] != ']' && (unit[i] == '#' ==> i
            == unit.len() - 1)
}

proof fn lemma_chip_text(size: nat, unit: Seq<char>, id: nat)
    requires
        is_unit(unit),
    ensures
        bracketed(chip_text(size, unit, id)),
        ({
            let s = chip_text(size, unit, id);
            let at = 8 + decimal(size).len() + unit.len() - 1;
            &&& 0 <= at < s.len()
            &&& s[at] == '#'
            &&& s.skip(at + 1) == decimal(id).push(']')
            &&& forall|i: int| 0 <= i < s.len() && #[trigger] s[i] == '#' ==> i == at
        }),
{
    reveal_strlit("[Pasted ");
    reveal_strlit("]");
    lemma_decimal_digits(size);
    lemma_decimal_digits(id);
    let s = chip_text(size, unit, id);
    let d = decimal(size);
    let e = decimal(id);
    let at = 8 + d.len() + unit.len() - 1;
    assert(s.len() == 8 + d.len() + unit.len() + e.len() + 1);
    assert forall|i: int| 0 <= i < s.len() implies {
        &&& (#[trigger] s[i] == '[' ==> i == 0)
        &&& (s[i] == ']' ==> i == s.len() - 1)
        &&& (s[i] == '#' ==> i == at)
    } by {
        if i < 8 {
            assert(s[i] == "[Pasted "@[i]);
        } else if i < 8 + d.len() {
            assert(s[i] == d[i - 8]);
        } else if i <= at {
            assert(s[i] == unit[i - 8 - d.len()]);
        } else if i < s.len() - 1 {
            assert(s[i] == e[i - at - 1]);
        }
    }
    assert(s[0] == "[Pasted "@[0]);
    assert(s.last() == "]"@[0]);
    assert(s[at] == unit.last());
    assert(s.skip(at + 1) == e.push(']'));
}

proof fn lemma_units()
    ensures
        is_unit(" lines #"@),
        is_unit(" chars #"@),
{
    reveal_strlit(" lines #");
    reveal_strlit(" chars #");
}

/// The unit in which the chip for `content` counts.
spec fn unit_of(content: Seq<char>) -> Seq<char> {
    if line_count(content) >= PASTE_CHIP_MIN_LINES {
        " lines #"@
    } else {
        " chars #"@
    }
}

/// A chip begins with its only `[` and ends with its only `]`.
pub proof fn law_chip_is_bracketed(content: Seq<char>, id: nat)
    ensures
        chip(content, id) matches Some(marker) ==> bracketed(marker),
{
    lemma_units();
    lemma_chip_text(line_count(content), " lines #"@, id);
    lemma_chip_text(content.len(), " chars #"@, id);
}

/// Newlines at the end of a block begin no further line.
pub proof fn law_trailing_newlines_are_not_counted(content: Seq<char>, newlines: Seq<char>)
    requires
        forall|i: int| 0 <= i < newlines.len() ==> #[trigger] newlines[i] == '\n',
    ensures
        line_count(content + newlines) == line_count(content),
    decreases newlines.len(),
{
    if newlines.len() == 0 {
        assert(content + newlines == content);
    } else {
        let whole = content + newlines;
        assert(whole.last() == newlines[newlines.len() - 1]);
        assert(whole.drop_last() == content + newlines.drop_last());
        law_trailing_newlines_are_not_counted(content, newlines.drop_last());
    }
}

/// Chips made under different ids differ, whatever was pasted: a cleared chip
/// can never be mistaken for a later one.
pub proof fn law_chips_of_different_pastes_differ(
    first: Seq<char>,
    first_id: nat,
    second: Seq<char>,
    second_id: nat,
)
    requires
        first_id != second_id,
        chip(first, first_id) is Some,
    ensures
        chip(first, first_id) != chip(second, second_id),
{
    if chip(first, first_id) == chip(second, second_id) {
        let s = chip(first, first_id)->0;
        let size1 = if line_count(first) >= PASTE_CHIP_MIN_LINES {
            line_count(first)
        } else {
            first.len()
        };
        let size2 = if line_count(second) >= PASTE_CHIP_MIN_LINES {
            line_count(second)
        } else {
            second.len()
        };
        lemma_units();
        lemma_chip_text(size1, unit_of(first), first_id);
        lemma_chip_text(size2, unit_of(second), second_id);
        let at1 = 8 + decimal(size1).len() + unit_of(first).len() - 1;
        let at2 = 8 + decimal(size2).len() + unit_of(second).len() - 1;
        assert(s[at1] == '#' && s[at2] == '#');
        assert(at1 == at2);
        assert(decimal(first_id).push(']').drop_last() == decimal(first_id));
        assert(decimal(second_id).push(']').drop_last() == decimal(second_id));
        law_decimal_is_injective(first_id, second_id);
    }
}

proof fn lemma_bracketed_within(outer: Seq<char>, inner: Seq<char>)
    requires
        bracketed(outer),
        bracketed(inner),
        contains_text(outer, inner),
    ensures
        outer == inner,
{
    let at = choose|at: int| matches_at(outer, at, inner);
    let n = inner.len();
    let found = outer.subrange(at, at + n);
    assert(found[0] == outer[at] && found[n - 1] == outer[at + n - 1]);
    assert(inner[0] == '[' && inner[n - 1] == ']');
    assert(at == 0);
    assert(n == outer.len());
    assert(outer.subrange(0, n as int) == outer);
}

/// Of two chips made under different ids neither occurs inside the other.
pub proof fn law_no_chip_occurs_in_another(
    first: Seq<char>,
    first_id: nat,
    second: Seq<char>,
    second_id: nat,
)
    requires
        first_id != second_id,
    ensures
        chip(first, first_id) matches Some(outer) ==> (chip(second, second_id) matches Some(inner)
            ==> !contains_text(outer, inner) && !contains_text(inner, outer)),
{
    if let Some(outer) = chip(first, first_id) {
        if let Some(inner) = chip(second, second_id) {
            law_chips_of_different_pastes_differ(first, first_id, second, second_id);
            law_chip_is_bracketed(first, first_id);
            law_chip_is_bracketed(second, second_id);
            if contains_text(outer, inner) {
                lemma_bracketed_within(outer, inner);
            }
            if contains_text(inner, outer) {
                lemma_bracketed_within(inner, outer);
            }
        }
    }
}

/// Whether no chip of `blocks` can be taken for another one: each is bracketed,
/// and no two are the same.
pub open spec fn told_apart(blocks: Seq<PasteView>) -> bool {
    &&& forall|i: int| 0 <= i < blocks.len() ==> bracketed((#[trigger] blocks[i]).marker)
    &&& forall|i: int, j: int|
        0 <= i < blocks.len() && 0 <= j < blocks.len() && i != j ==> (#[trigger] blocks[i]).marker
            != (#[trigger] blocks[j]).marker
}

/// The chips under which blocks are stored can be told apart.
pub proof fn law_stored_chips_are_told_apart(blocks: Seq<PasteView>)
    requires
        chips_numbered(blocks),
    ensures
        told_apart(blocks),
{
    assert forall|i: int| 0 <= i < blocks.len() implies bracketed(
        (#[trigger] blocks[i]).marker,
    ) by {
        law_chip_is_bracketed(blocks[i].content, (i + 1) as nat);
    }
    assert forall|i: int, j: int|
        0 <= i < blocks.len() && 0 <= j < blocks.len() && i != j implies (
    #[trigger] blocks[i]).marker != (#[trigger] blocks[j]).marker by {
        law_chips_of_different_pastes_differ(
            blocks[i].content,
            (i + 1) as nat,
            blocks[j].content,
            (j + 1) as nat,
        );
    }
}

/// Whether no chip of `blocks` begins with another one.
pub open spec fn none_begins_another(blocks: Seq<PasteView>) -> bool {
    forall|i: int, j: int|
        0 <= i < blocks.len() && 0 <= j < blocks.len() && i != j ==> !(
        #[trigger] blocks[i]).marker.is_prefix_of((#[trigger] blocks[j]).marker)
}

/// Of chips that can be told apart none begins with another one.
pub proof fn law_told_apart_chips_begin_no_other(blocks: Seq<PasteView>)
    requires
        told_apart(blocks),
    ensures
        none_begins_another(blocks),
{
    assert forall|i: int, j: int|
        0 <= i < blocks.len() && 0 <= j < blocks.len() && i != j implies !(
    #[trigger] blocks[i]).marker.is_prefix_of((#[trigger] blocks[j]).marker) by {
        let inner = blocks[i].marker;
        let outer = blocks[j].marker;
        if inner.is_prefix_of(outer) {
            assert(matches_at(outer, 0, inner));
            lemma_bracketed_within(outer, inner);
        }
    }
}

/// Whether `some` and `others` hold the same pastes, in whatever order.
pub open spec fn same_pastes(some: Seq<PasteView>, others: Seq<PasteView>) -> bool {
    forall|paste: PasteView| some.contains(paste) <==> others.contains(paste)
}

proof fn lemma_leading_in_any_order(
    line: Seq<char>,
    some: Seq<PasteView>,
    others: Seq<PasteView>,
)
    requires
        same_pastes(some, others),
        none_begins_another(some),
    ensures
        leading_paste(line, some) == leading_paste(line, others),
{
    lemma_leading_is_prefix(line, some);
    lemma_leading_is_prefix(line, others);
    match (leading_paste(line, some), leading_paste(line, others)) {
        (Some(x), Some(y)) => {
            assert(some.contains(y));
            let i = choose|i: int| 0 <= i < some.len() && some[i] == x;
            let j = choose|j: int| 0 <= j < some.len() && some[j] == y;
            if x.marker.len() <= y.marker.len() {
                assert(x.marker =~= y.marker.subrange(0, x.marker.len() as int)) by {
                    assert forall|k: int| 0 <= k < x.marker.len() implies x.marker[k]
                        == y.marker[k] by {
                        assert(x.marker[k] == line[k] && y.marker[k] == line[k]);
                    }
                }
                assert(some[i].marker.is_prefix_of(some[j].marker));
            } else {
                assert(y.marker =~= x.marker.subrange(0, y.marker.len() as int)) by {
                    assert forall|k: int| 0 <= k < y.marker.len() implies y.marker[k]
                        == x.marker[k] by {
                        assert(x.marker[k] == line[k] && y.marker[k] == line[k]);
                    }
                }
                assert(some[j].marker.is_prefix_of(some[i].marker));
            }
            assert(i == j);
        },
        (Some(x), None) => {
            lemma_leading_stands(line, others, x);
        },
        (None, Some(y)) => {
            lemma_leading_stands(line, some, y);
        },
        (None, None) => {},
    }
}

proof fn lemma_leading_stands(line: Seq<char>, blocks: Seq<PasteView>, paste: PasteView)
    requires
        blocks.contains(paste),
        paste.marker.is_prefix_of(line),
    ensures
        leading_paste(line, blocks) is Some,
    decreases blocks.len(),
{
    if !blocks[0].marker.is_prefix_of(line) {
        let k = choose|k: int| 0 <= k < blocks.len() && blocks[k] == paste;
        assert(blocks.skip(1)[k - 1] == paste);
        lemma_leading_stands(line, blocks.skip(1), paste);
    }
}

/// Where no chip begins with another one, expansion does not depend on the order
/// in which the pastes are kept.
pub proof fn law_order_of_pastes_does_not_matter(
    line: Seq<char>,
    some: Seq<PasteView>,
    others: Seq<PasteView>,
)
    requires
        same_pastes(some, others),
        none_begins_another(some),
    ensures
        expanded(line, some) == expanded(line, others),
    decreases line.len(),
{
    if line.len() > 0 {
        lemma_leading_in_any_order(line, some, others);
        match leading_paste(line, some) {
            Some(paste) if 0 < paste.marker.len() <= line.len() => {
                law_order_of_pastes_does_not_matter(
                    line.skip(paste.marker.len() as int),
                    some,
                    others,
                );
            },
            _ => {
                law_order_of_pastes_does_not_matter(line.skip(1), some, others);
            },
        }
    }
}

/// Whether none of the blocks' chips stands in `text`.
pub open spec fn chip_free(text: Seq<char>, blocks: Seq<PasteView>) -> bool {
    forall|k: int| 0 <= k < blocks.len() ==> !contains_text(text, (#[trigger] blocks[k]).marker)
}

proof fn lemma_chip_free_rest(text: Seq<char>, blocks: Seq<PasteView>)
    requires
        text.len() > 0,
        chip_free(text, blocks),
    ensures
        chip_free(text.skip(1), blocks),
{
    assert forall|k: int| 0 <= k < blocks.len() implies !contains_text(
        text.skip(1),
        (#[trigger] blocks[k]).marker,
    ) by {
        let m = blocks[k].marker;
        if contains_text(text.skip(1), m) {
            let at = choose|at: int| matches_at(text.skip(1), at, m);
            assert(text.subrange(at + 1, at + 1 + m.len()) == text.skip(1).subrange(
                at,
                at + m.len(),
            ));
            assert(matches_at(text, at + 1, m));
        }
    }
}

proof fn lemma_no_leading(line: Seq<char>, blocks: Seq<PasteView>)
    requires
        forall|k: int| 0 <= k < blocks.len() ==> !(#[trigger] blocks[k]).marker.is_prefix_of(line),
    ensures
        leading_paste(line, blocks) is None,
    decreases blocks.len(),
{
    if blocks.len() > 0 {
        assert(!blocks[0].marker.is_prefix_of(line));
        assert forall|k: int| 0 <= k < blocks.skip(1).len() implies !(
        #[trigger] blocks.skip(1)[k]).marker.is_prefix_of(line) by {
            assert(blocks.skip(1)[k] == blocks[k + 1]);
        }
        lemma_no_leading(line, blocks.skip(1));
    }
}

proof fn lemma_only_leading(line: Seq<char>, blocks: Seq<PasteView>, k: int)
    requires
        0 <= k < blocks.len(),
        blocks[k].marker.is_prefix_of(line),
        forall|j: int|
            0 <= j < blocks.len() && j != k ==> !(#[trigger] blocks[j]).marker.is_prefix_of(line),
    ensures
        leading_paste(line, blocks) == Some(blocks[k]),
    decreases k,
{
    if k > 0 {
        assert(!blocks[0].marker.is_prefix_of(line));
        assert(blocks.skip(1)[k - 1] == blocks[k]);
        assert forall|j: int| 0 <= j < blocks.skip(1).len() && j != k - 1 implies !(
        #[trigger] blocks.skip(1)[j]).marker.is_prefix_of(line) by {
            assert(blocks.skip(1)[j] == blocks[j + 1]);
        }
        lemma_only_leading(line, blocks.skip(1), k - 1);
    }
}

/// A line without chips is submitted as it stands: deleting a chip drops its
/// content and changes nothing else.
pub proof fn law_chip_free_line_is_unchanged(text: Seq<char>, blocks: Seq<PasteView>)
    requires
        chip_free(text, blocks),
    ensures
        expanded(text, blocks) == text,
    decreases text.len(),
{
    if text.len() > 0 {
        assert forall|k: int| 0 <= k < blocks.len() implies !(
        #[trigger] blocks[k]).marker.is_prefix_of(text) by {
            let m = blocks[k].marker;
            if m.is_prefix_of(text) {
                assert(matches_at(text, 0, m));
            }
        }
        lemma_no_leading(text, blocks);
        lemma_chip_free_rest(text, blocks);
        law_chip_free_line_is_unchanged(text.skip(1), blocks);
        assert(seq![text[0]] + text.skip(1) == text);
    }
}

proof fn lemma_expand_one(
    text: Seq<char>,
    k: int,
    rest: Seq<char>,
    blocks: Seq<PasteView>,
)
    requires
        told_apart(blocks),
        0 <= k < blocks.len(),
        chip_free(text, blocks),
    ensures
        expanded(text + blocks[k].marker + rest, blocks) == text + blocks[k].content + expanded(
            rest,
            blocks,
        ),
    decreases text.len(),
{
    let m = blocks[k].marker;
    let line = text + m + rest;
    assert(bracketed(m));
    if text.len() == 0 {
        assert(line == m + rest);
        assert forall|j: int| 0 <= j < blocks.len() && j != k implies !(
        #[trigger] blocks[j]).marker.is_prefix_of(line) by {
            let other = blocks[j].marker;
            assert(bracketed(other));
            if other.is_prefix_of(line) {
                assert(other[other.len() - 1] == line[other.len() - 1]);
                assert(m[m.len() - 1] == line[m.len() - 1]);
                if other.len() < m.len() {
                    assert(m[other.len() - 1] == ']');
                } else if m.len() < other.len() {
                    assert(other[m.len() - 1] == ']');
                } else {
                    assert(other == m);
                }
                assert(blocks[j].marker != blocks[k].marker);
            }
        }
        assert(m.is_prefix_of(line));
        lemma_only_leading(line, blocks, k);
        assert(line.skip(m.len() as int) == rest);
        assert(text + blocks[k].content + expanded(rest, blocks) == blocks[k].content + expanded(
            rest,
            blocks,
        ));
    } else {
        assert forall|j: int| 0 <= j < blocks.len() implies !(
        #[trigger] blocks[j]).marker.is_prefix_of(line) by {
            let other = blocks[j].marker;
            assert(bracketed(other));
            if other.is_prefix_of(line) {
                if other.len() <= text.len() {
                    assert(text.subrange(0, other.len() as int) == line.subrange(
                        0,
                        other.len() as int,
                    ));
                    assert(matches_at(text, 0, other));
                } else {
                    assert(other[text.len() as int] == line[text.len() as int]);
                    assert(line[text.len() as int] == m[0]);
                }
            }
        }
        lemma_no_leading(line, blocks);
        lemma_chip_free_rest(text, blocks);
        lemma_expand_one(text.skip(1), k, rest, blocks);
        assert(line.skip(1) == text.skip(1) + m + rest);
        assert(seq![text[0]] + (text.skip(1) + blocks[k].content + expanded(rest, blocks)) == text
            + blocks[k].content + expanded(rest, blocks));
    }
}

/// Text and blocks in turn: `texts[0]`, `parts[0]`, `texts[1]`, and so on.
pub open spec fn interleave(texts: Seq<Seq<char>>, parts: Seq<Seq<char>>) -> Seq<char>
    recommends
        texts.len() == parts.len() + 1,
    decreases parts.len(),
{
    if parts.len() == 0 {
        texts[0]
    } else {
        texts[0] + parts[0] + interleave(texts.skip(1), parts.skip(1))
    }
}

/// Every chip in a line expands to its own block, in the order in which the
/// chips stand in the line, and the text between them stays. The chips may
/// stand in any order, more than once, or not at all.
pub proof fn law_chips_expand_in_place(
    texts: Seq<Seq<char>>,
    chosen: Seq<int>,
    blocks: Seq<PasteView>,
)
    requires
        told_apart(blocks),
        texts.len() == chosen.len() + 1,
        forall|i: int| 0 <= i < chosen.len() ==> 0 <= #[trigger] chosen[i] < blocks.len(),
        forall|i: int| 0 <= i < texts.len() ==> chip_free(#[trigger] texts[i], blocks),
    ensures
        expanded(interleave(texts, chosen.map_values(|k: int| blocks[k].marker)), blocks)
            == interleave(texts, chosen.map_values(|k: int| blocks[k].content)),
    decreases chosen.len(),
{
    let markers = chosen.map_values(|k: int| blocks[k].marker);
    let contents = chosen.map_values(|k: int| blocks[k].content);
    if chosen.len() == 0 {
        law_chip_free_line_is_unchanged(texts[0], blocks);
    } else {
        let rest = chosen.skip(1);
        assert forall|i: int| 0 <= i < rest.len() implies 0 <= #[trigger] rest[i]
            < blocks.len() by {
            assert(rest[i] == chosen[i + 1]);
        }
        assert forall|i: int| 0 <= i < texts.skip(1).len() implies chip_free(
            #[trigger] texts.skip(1)[i],
            blocks,
        ) by {
            assert(texts.skip(1)[i] == texts[i + 1]);
        }
        law_chips_expand_in_place(texts.skip(1), rest, blocks);
        assert(markers.skip(1) == rest.map_values(|k: int| blocks[k].marker));
        assert(contents.skip(1) == rest.map_values(|k: int| blocks[k].content));
        lemma_expand_one(
            texts[0],
            chosen[0],
            interleave(texts.skip(1), markers.skip(1)),
            blocks,
        );
    }
}

/// A chip by itself, submitted, gives back exactly the block that was pasted.
pub proof fn law_chip_gives_back_its_block(blocks: Seq<PasteView>, k: int)
    requires
        told_apart(blocks),
        0 <= k < blocks.len(),
    ensures
        expanded(blocks[k].marker, blocks) == blocks[k].content,
{
    let none = Seq::<char>::empty();
    assert(chip_free(none, blocks)) by {
        assert forall|j: int| 0 <= j < blocks.len() implies !contains_text(
            none,
            (#[trigger] blocks[j]).marker,
        ) by {
            assert(bracketed(blocks[j].marker));
        }
    }
    lemma_expand_one(none, k, none, blocks);
    assert(none + blocks[k].marker + none == blocks[k].marker);
    assert(none + blocks[k].content + expanded(none, blocks) == blocks[k].content);
}

/// Normalized text holds no carriage return.
pub proof fn law_normalized_has_no_carriage_return(text: Seq<char>)
    ensures
        forall|i: int| 0 <= i < normalized(text).len() ==> #[trigger] normalized(text)[i] != '\r',
    decreases text.len(),
{
    if text.len() > 0 {
        let step: int = if text[0] == '\r' && text.len() > 1 && text[1] == '\n' {
            2
        } else {
            1
        };
        let rest = normalized(text.skip(step));
        law_normalized_has_no_carriage_return(text.skip(step));
        assert forall|i: int| 0 <= i < normalized(text).len() implies #[trigger] normalized(text)[i]
            != '\r' by {
            if i > 0 {
                assert(normalized(text)[i] == rest[i - 1]);
            }
        }
    }
}

/// How many lines `text` ends: each `\n`, and each `\r` that no `\n` follows.
pub open spec fn line_end_count(text: Seq<char>) -> nat
    decreases text.len(),
{
    if text.len() == 0 {
        0
    } else {
        let ends = text[0] == '\n' || (text[0] == '\r' && !(text.len() > 1 && text[1] == '\n'));
        line_end_count(text.skip(1)) + if ends {
            1nat
        } else {
            0nat
        }
    }
}

proof fn lemma_newline_count_front(c: char, rest: Seq<char>)
    ensures
        newline_count(seq![c] + rest) == newline_count(rest) + if c == '\n' {
            1nat
        } else {
            0nat
        },
    decreases rest.len(),
{
    let s = seq![c] + rest;
    if rest.len() == 0 {
        reveal_with_fuel(newline_count, 2);
        assert(s.drop_last() == rest);
        assert(s.last() == c);
    } else {
        assert(s.drop_last() == seq![c] + rest.drop_last());
        assert(s.last() == rest.last());
        lemma_newline_count_front(c, rest.drop_last());
    }
}

/// Whether `c` belongs to the text of a line rather than to a line end.
pub open spec fn within_line(c: char) -> bool {
    c != '\r' && c != '\n'
}

proof fn lemma_filter_front(c: char, rest: Seq<char>)
    ensures
        (seq![c] + rest).filter(|c: char| within_line(c)) == if within_line(c) {
            seq![c] + rest.filter(|c: char| within_line(c))
        } else {
            rest.filter(|c: char| within_line(c))
        },
{
    let keep = |c: char| within_line(c);
    Seq::filter_distributes_over_add(seq![c], rest, keep);
    reveal_with_fuel(Seq::filter, 2);
    assert(seq![c].drop_last() == Seq::<char>::empty());
    assert(seq![c].filter(keep) == if keep(c) {
        seq![c]
    } else {
        Seq::<char>::empty()
    });
}

/// Normalizing keeps everything but the line ends, in order, and leaves one
/// newline for each line end.
pub proof fn law_normalizing_keeps_the_lines(text: Seq<char>)
    ensures
        normalized(text).filter(|c: char| within_line(c)) == text.filter(
            |c: char| within_line(c),
        ),
        newline_count(normalized(text)) == line_end_count(text),
    decreases text.len(),
{
    if text.len() > 0 {
        let crlf = text[0] == '\r' && text.len() > 1 && text[1] == '\n';
        let step: int = if crlf {
            2
        } else {
            1
        };
        let c = if text[0] == '\r' {
            '\n'
        } else {
            text[0]
        };
        law_normalizing_keeps_the_lines(text.skip(step));
        lemma_newline_count_front(c, normalized(text.skip(step)));
        lemma_filter_front(c, normalized(text.skip(step)));
        lemma_filter_front(text[0], text.skip(1));
        assert(text == seq![text[0]] + text.skip(1));
        if crlf {
            lemma_filter_front(text[1], text.skip(2));
            assert(text.skip(1) == seq![text[1]] + text.skip(2));
            assert(text.skip(1).skip(1) == text.skip(2));
            assert(line_end_count(text.skip(1)) == line_end_count(text.skip(2)) + 1);
        }
    }
}

/// Text without carriage returns is left as it is.
pub proof fn law_normalizing_keeps_plain_text(text: Seq<char>)
    requires
        forall|i: int| 0 <= i < text.len() ==> #[trigger] text[i] != '\r',
    ensures
        normalized(text) == text,
    decreases text.len(),
{
    if text.len() > 0 {
        law_normalizing_keeps_plain_text(text.skip(1));
        assert(seq![text[0]] + text.skip(1) == text);
    }
}

/// Normalizing twice gives what normalizing once gives.
pub proof fn law_normalizing_is_idempotent(text: Seq<char>)
    ensures
        normalized(normalized(text)) == normalized(text),
{
    law_normalized_has_no_carriage_return(text);
    law_normalizing_keeps_plain_text(normalized(text));
}

/// The number that the digits `s` stand for.
pub open spec fn value_of_digits(s: Seq<char>) -> int
    decreases s.len(),
{
    if s.len() == 0 {
        0
    } else {
        10 * value_of_digits(s.drop_last()) + (s.last() as int - '0' as int)
    }
}

/// A number in decimal notation is made of digits, does not begin with a zero
/// unless it is one, and reads back as the number.
pub proof fn law_decimal_reads_back(n: nat)
    ensures
        forall|i: int| 0 <= i < decimal(n).len() ==> '0' <= #[trigger] decimal(n)[i] <= '9',
        decimal(n).len() > 1 ==> decimal(n)[0] != '0',
        decimal(n).len() > 0,
        value_of_digits(decimal(n)) == n,
    decreases n,
{
    lemma_decimal_digits(n);
    if n < 10 {
        reveal_with_fuel(value_of_digits, 2);
        assert(decimal(n).drop_last() == Seq::<char>::empty());
    } else {
        law_decimal_reads_back(n / 10);
        assert(decimal(n).drop_last() == decimal(n / 10));
        assert(decimal(n)[0] == decimal(n / 10)[0]);
        if decimal(n / 10).len() == 1 {
            reveal_with_fuel(value_of_digits, 2);
            assert(decimal(n / 10).drop_last() == Seq::<char>::empty());
            assert(decimal(n / 10)[0] as int - '0' as int == n / 10);
        }
    }
}

/// The newlines of a text are counted one by one.
pub proof fn law_newlines_are_counted(s: Seq<char>)
    ensures
        newline_count(s) == s.filter(|c: char| c == '\n').len(),
    decreases s.len(),
{
    reveal(Seq::filter);
    if s.len() > 0 {
        law_newlines_are_counted(s.drop_last());
    }
}

proof fn lemma_final_newlines(body: Seq<char>, tail: Seq<char>)
    requires
        body.len() == 0 || body.last() != '\n',
        forall|i: int| 0 <= i < tail.len() ==> #[trigger] tail[i] == '\n',
    ensures
        without_final_newlines(body + tail) == body,
    decreases tail.len(),
{
    let whole = body + tail;
    if tail.len() == 0 {
        assert(whole == body);
    } else {
        assert(whole.last() == tail[tail.len() - 1]);
        assert(whole.drop_last() == body + tail.drop_last());
        lemma_final_newlines(body, tail.drop_last());
    }
}

/// When a block is collapsed, and how its chip reads. Of a block whose last line
/// is followed by any newlines there are, one line more is counted than there are
/// newlines before that: from two lines on the chip counts them. A block of one
/// line is collapsed from four hundred characters on, and the chip counts those.
/// Any other block is kept inline.
pub proof fn law_large_blocks_are_collapsed(body: Seq<char>, tail: Seq<char>, id: nat)
    requires
        body.len() == 0 || body.last() != '\n',
        forall|i: int| 0 <= i < tail.len() ==> #[trigger] tail[i] == '\n',
    ensures
        ({
            let lines = (body.filter(|c: char| c == '\n').len() + 1) as nat;
            let size = (body + tail).len();
            chip(body + tail, id) == if lines >= 2 {
                Some("[Pasted "@ + decimal(lines) + " lines #"@ + decimal(id) + "]"@)
            } else if size >= 400 {
                Some("[Pasted "@ + decimal(size) + " chars #"@ + decimal(id) + "]"@)
            } else {
                None::<Seq<char>>
            }
        }),
{
    lemma_final_newlines(body, tail);
    law_newlines_are_counted(body);
}

/// A block is collapsed exactly when it is large enough, and whether it is does
/// not depend on its id.
pub proof fn law_chip_goes_by_size(content: Seq<char>, id: nat, other_id: nat)
    ensures
        chip(content, id) is Some <==> line_count(content) >= PASTE_CHIP_MIN_LINES
            || content.len() >= PASTE_CHIP_MIN_CHARS,
        chip(content, id) is Some <==> chip(content, other_id) is Some,
{
}

proof fn lemma_joined_newlines(lines: Seq<Seq<char>>)
    requires
        lines.len() > 0,
        forall|i: int| 0 <= i < lines.len() ==> !(#[trigger] lines[i]).contains('\n'),
    ensures
        newline_count(joined(lines, "\n"@)) == lines.len() - 1,
        joined(lines, "\n"@).len() >= lines.last().len(),
        lines.last().len() > 0 ==> joined(lines, "\n"@).last() == lines.last().last(),
    decreases lines.len(),
{
    reveal_strlit("\n");
    let last = lines.last();
    assert(!last.contains('\n')) by {
        assert(last == lines[lines.len() - 1]);
    }
    lemma_no_newline_count(last);
    if lines.len() > 1 {
        let earlier = lines.drop_last();
        assert forall|i: int| 0 <= i < earlier.len() implies !(#[trigger] earlier[i]).contains(
            '\n',
        ) by {
            assert(earlier[i] == lines[i]);
        }
        lemma_joined_newlines(earlier);
        let front = joined(earlier, "\n"@);
        lemma_newline_count_add(front, "\n"@);
        lemma_newline_count_add(front + "\n"@, last);
        assert("\n"@ == seq!['\n']);
        reveal_with_fuel(newline_count, 2);
        assert(newline_count("\n"@) == 1);
    }
}

proof fn lemma_no_newline_count(s: Seq<char>)
    requires
        !s.contains('\n'),
    ensures
        newline_count(s) == 0,
    decreases s.len(),
{
    if s.len() > 0 {
        assert(s.contains(s[s.len() - 1]));
        assert(!s.drop_last().contains('\n')) by {
            if s.drop_last().contains('\n') {
                let k = choose|k: int| 0 <= k < s.drop_last().len() && s.drop_last()[k] == '\n';
                assert(s[k] == '\n');
            }
        }
        lemma_no_newline_count(s.drop_last());
    }
}

proof fn lemma_newline_count_add(a: Seq<char>, b: Seq<char>)
    ensures
        newline_count(a + b) == newline_count(a) + newline_count(b),
    decreases b.len(),
{
    if b.len() == 0 {
        assert(a + b == a);
    } else {
        assert((a + b).drop_last() == a + b.drop_last());
        assert((a + b).last() == b.last());
        lemma_newline_count_add(a, b.drop_last());
    }
}

/// Lines joined by newlines, two of them or more and the last one not empty, are
/// collapsed into a chip that tells their number.
pub proof fn law_joined_lines_are_counted(lines: Seq<Seq<char>>, id: nat)
    requires
        lines.len() >= 2,
        forall|i: int| 0 <= i < lines.len() ==> !(#[trigger] lines[i]).contains('\n'),
        lines.last().len() > 0,
    ensures
        chip(joined(lines, "\n"@), id) == Some(
            "[Pasted "@ + decimal(lines.len()) + " lines #"@ + decimal(id) + "]"@,
        ),
{
    let content = joined(lines, "\n"@);
    let last = lines.last();
    let none = Seq::<char>::empty();
    lemma_joined_newlines(lines);
    assert(last.contains(last[last.len() - 1]));
    assert(!lines[lines.len() - 1].contains('\n'));
    assert(content + none == content);
    law_newlines_are_counted(content);
    law_large_blocks_are_collapsed(content, none, id);
}

/// The pastes are in order exactly when they are as many as their last id says,
/// and each stands under its own chip, by its position.
pub proof fn law_pastes_are_numbered(state: PasteState)
    ensures
        state.well_formed() <==> state.next_id == state.blocks().len() && (forall|i: int|
            0 <= i < state.blocks().len() ==> Some((#[trigger] state.blocks()[i]).marker) == chip(
                state.blocks()[i].content,
                (i + 1) as nat,
            )),
{
}

/// A block that is collapsed is kept whole, behind the others and under the chip
/// that is shown, and the others stay as they are. A block that is not collapsed
/// is shown as it stands, and nothing is kept.
pub proof fn law_taken_block_is_kept(
    before: PasteState,
    content: Seq<char>,
    after: PasteState,
    shown: Seq<char>,
)
    requires
        takes_in(before, content, after, shown),
    ensures
        chip(content, (before.next_id + 1) as nat) is None ==> shown == content && after == before,
        chip(content, (before.next_id + 1) as nat) matches Some(marker) ==> {
            &&& shown == marker
            &&& after.next_id == before.next_id + 1
            &&& after.blocks().len() == before.blocks().len() + 1
            &&& after.blocks().last() == (PasteView { marker: shown, content })
            &&& forall|k: int|
                0 <= k < before.blocks().len() ==> #[trigger] after.blocks()[k]
                    == before.blocks()[k]
        },
{
}

/// Taking in a block keeps the pastes in order, and from then on its chip and
/// those of all the earlier blocks give back what was pasted.
pub proof fn law_every_chip_stays_good(
    before: PasteState,
    content: Seq<char>,
    after: PasteState,
    shown: Seq<char>,
)
    requires
        before.well_formed(),
        before.next_id < usize::MAX,
        takes_in(before, content, after, shown),
    ensures
        after.well_formed(),
        forall|k: int|
            0 <= k < before.blocks().len() ==> expanded(
                (#[trigger] before.blocks()[k]).marker,
                after.blocks(),
            ) == before.blocks()[k].content,
        chip(content, (before.next_id + 1) as nat) is Some ==> expanded(shown, after.blocks())
            == content,
{
    law_stored_chips_are_told_apart(before.blocks());
    if chip(content, (before.next_id + 1) as nat) is Some {
        assert(chips_numbered(after.blocks()));
        law_stored_chips_are_told_apart(after.blocks());
        law_chip_gives_back_its_block(after.blocks(), before.blocks().len() as int);
    }
    assert forall|k: int| 0 <= k < before.blocks().len() implies expanded(
        (#[trigger] before.blocks()[k]).marker,
        after.blocks(),
    ) == before.blocks()[k].content by {
        assert(after.blocks()[k] == before.blocks()[k]);
        law_chip_gives_back_its_block(after.blocks(), k);
    }
}

/// Whatever the pastes are: the leftmost chip in a line, and of several there the
/// one of the earliest paste, is replaced by its block; the text before it stays,
/// and the rest of the line is expanded in the same way. A line in which no chip
/// occurs stays as it is.
pub proof fn law_leftmost_chip_is_expanded(
    line: Seq<char>,
    at: int,
    k: int,
    blocks: Seq<PasteView>,
)
    requires
        forall|j: int| 0 <= j < blocks.len() ==> (#[trigger] blocks[j]).marker.len() > 0,
        forall|p: int, j: int|
            0 <= p < at && 0 <= j < blocks.len() ==> !#[trigger] matches_at(
                line,
                p,
                blocks[j].marker,
            ),
        at == line.len() || {
            &&& 0 <= k < blocks.len()
            &&& matches_at(line, at, blocks[k].marker)
            &&& forall|j: int|
                0 <= j < k ==> !matches_at(line, at, (#[trigger] blocks[j]).marker)
        },
    ensures
        at == line.len() ==> expanded(line, blocks) == line,
        at < line.len() ==> expanded(line, blocks) == line.take(at) + blocks[k].content + expanded(
            line.skip(at + blocks[k].marker.len()),
            blocks,
        ),
    decreases line.len(),
{
    assert forall|j: int| 0 <= j < blocks.len() implies matches_at(line, 0, (
    #[trigger] blocks[j]).marker) == blocks[j].marker.is_prefix_of(line) by {}
    if line.len() == 0 {
    } else if at > 0 {
        assert forall|j: int| 0 <= j < blocks.len() implies !(
        #[trigger] blocks[j]).marker.is_prefix_of(line) by {
            assert(!matches_at(line, 0, blocks[j].marker));
        }
        lemma_no_leading(line, blocks);
        let rest = line.skip(1);
        assert forall|p: int, j: int| 0 <= p && 0 <= j < blocks.len() implies #[trigger] matches_at(
            rest,
            p,
            blocks[j].marker,
        ) == matches_at(line, p + 1, blocks[j].marker) by {
            let m = blocks[j].marker;
            if p + 1 + m.len() <= line.len() {
                assert(rest.subrange(p, p + m.len()) == line.subrange(p + 1, p + 1 + m.len()));
            }
        }
        if at < line.len() {
            assert(matches_at(rest, at - 1, blocks[k].marker));
            assert forall|j: int| 0 <= j < k implies !matches_at(
                rest,
                at - 1,
                (#[trigger] blocks[j]).marker,
            ) by {
                assert(!matches_at(line, at, blocks[j].marker));
            }
        }
        law_leftmost_chip_is_expanded(rest, at - 1, k, blocks);
        if at < line.len() {
            let m = blocks[k].marker;
            assert(rest.skip(at - 1 + m.len()) == line.skip(at + m.len()));
            assert(seq![line[0]] + (rest.take(at - 1) + blocks[k].content + expanded(
                line.skip(at + m.len()),
                blocks,
            )) == line.take(at) + blocks[k].content + expanded(line.skip(at + m.len()), blocks));
        } else {
            assert(seq![line[0]] + rest == line);
        }
    } else if at == 0 {
        lemma_first_leading(line, blocks, k);
        assert(line.take(0) + blocks[k].content == blocks[k].content);
    } else {
        assert(false);
    }
}

proof fn lemma_first_leading(line: Seq<char>, blocks: Seq<PasteView>, k: int)
    requires
        0 <= k < blocks.len(),
        blocks[k].marker.is_prefix_of(line),
        forall|j: int| 0 <= j < k ==> !(#[trigger] blocks[j]).marker.is_prefix_of(line),
    ensures
        leading_paste(line, blocks) == Some(blocks[k]),
    decreases k,
{
    if k > 0 {
        assert(!blocks[0].marker.is_prefix_of(line));
        let rest = blocks.skip(1);
        assert(rest[k - 1] == blocks[k]);
        assert forall|j: int| 0 <= j < k - 1 implies !(
        #[trigger] rest[j]).marker.is_prefix_of(line) by {
            assert(rest[j] == blocks[j + 1]);
        }
        lemma_first_leading(line, rest, k - 1);
    }
}

proof fn lemma_normalized_append(before: Seq<char>, after: Seq<char>)
    requires
        before.len() == 0 || before.last() != '\r' || after.len() == 0 || after[0] != '\n',
    ensures
        normalized(before + after) == normalized(before) + normalized(after),
    decreases before.len(),
{
    let whole = before + after;
    if before.len() == 0 {
        assert(whole == after);
        assert(normalized(before) + normalized(after) == normalized(after));
    } else {
        let step: int = if before[0] == '\r' && before.len() > 1 && before[1] == '\n' {
            2
        } else {
            1
        };
        let c = if before[0] == '\r' {
            '\n'
        } else {
            before[0]
        };
        assert(whole.skip(step) == before.skip(step) + after);
        lemma_normalized_append(before.skip(step), after);
        assert(whole[0] == before[0]);
        assert(whole.len() > 1 ==> whole[1] == if before.len() > 1 {
            before[1]
        } else {
            after[0]
        });
        assert(normalized(before) == seq![c] + normalized(before.skip(step)));
        assert(normalized(whole) == seq![c] + normalized(whole.skip(step)));
        assert(seq![c] + (normalized(before.skip(step)) + normalized(after)) == normalized(before)
            + normalized(after));
    }
}

/// Wherever it stands, a line end becomes one newline: `\r\n`, a `\r` with no `\n`
/// behind it, or a `\n` with no `\r` before it. What stands before and behind is
/// normalized by itself.
pub proof fn law_line_end_becomes_a_newline(
    before: Seq<char>,
    end: Seq<char>,
    after: Seq<char>,
)
    requires
        end == seq!['\r', '\n'] || (end == seq!['\r'] && (after.len() == 0 || after[0] != '\n'))
            || (end == seq!['\n'] && (before.len() == 0 || before.last() != '\r')),
    ensures
        normalized(before + end + after) == normalized(before) + seq!['\n'] + normalized(after),
{
    let none = Seq::<char>::empty();
    assert(end[0] == '\r' || end[0] == '\n');
    lemma_normalized_append(before, end);
    lemma_normalized_append(before + end, after);
    assert(end.skip(end.len() as int) == none);
    assert(normalized(none) == none);
    if end.len() == 1 {
        assert(end.skip(1) == none);
    } else {
        assert(end.skip(2) == none);
    }
    assert(normalized(end) == seq!['\n']);
}

/// A character that belongs to no line end stays where it is.
pub proof fn law_other_characters_stay(before: Seq<char>, c: char, after: Seq<char>)
    requires
        c != '\r',
        c != '\n',
    ensures
        normalized(before.push(c) + after) == normalized(before).push(c) + normalized(after),
{
    let one = seq![c];
    let none = Seq::<char>::empty();
    lemma_normalized_append(before, one);
    lemma_normalized_append(before.push(c), after);
    assert(before + one == before.push(c));
    assert(one.skip(1) == none);
    assert(normalized(none) == none);
    assert(normalized(one) == one);
    assert(normalized(before) + one == normalized(before).push(c));
}

} // verus!
