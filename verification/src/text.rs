//! Strings as sequences of characters: white space, trimming, prefixes, words
//! and letter case.

use vstd::prelude::*;

verus! {

/// Whether `c` has the Unicode property `White_Space`.
pub open spec fn is_white_space(c: char) -> bool {
    let u = c as u32;
    ||| 0x09 <= u <= 0x0d
    ||| u == 0x20
    ||| u == 0x85
    ||| u == 0xa0
    ||| u == 0x1680
    ||| 0x2000 <= u <= 0x200a
    ||| u == 0x2028
    ||| u == 0x2029
    ||| u == 0x202f
    ||| u == 0x205f
    ||| u == 0x3000
}

/// Decides [`is_white_space`].
pub fn is_whitespace(c: char) -> (b: bool)
    ensures
        b == is_white_space(c),
{
    let u: u32 = c as u32;
    (0x09 <= u && u <= 0x0d) || u == 0x20 || u == 0x85 || u == 0xa0 || u == 0x1680 || (0x2000 <= u
        && u <= 0x200a) || u == 0x2028 || u == 0x2029 || u == 0x202f || u == 0x205f || u == 0x3000
}

/// `std::string::String::push`: appends one character to the string.
pub assume_specification[ String::push ](s: &mut String, ch: char)
    ensures
        final(s)@ == old(s)@.push(ch),
;

/// The characters of `s`, in order.
pub fn chars_of(s: &str) -> (v: Vec<char>)
    ensures
        v@ == s@,
{
    let mut v: Vec<char> = Vec::new();
    for c in it: s.chars()
        invariant
            it.seq() == s@,
            v@ == it.seq().take(it.index() as int),
    {
        v.push(c);
    }
    assert(s@.take(s@.len() as int) == s@);
    v
}

/// The string made of `v[from..to]`.
pub fn string_of(v: &Vec<char>, from: usize, to: usize) -> (s: String)
    requires
        from <= to <= v@.len(),
    ensures
        s@ == v@.subrange(from as int, to as int),
{
    let mut s: String = String::new();
    let mut i: usize = from;
    while i < to
        invariant
            from <= i <= to <= v@.len(),
            s@ == v@.subrange(from as int, i as int),
        decreases to - i,
    {
        s.push(v[i]);
        i += 1;
    }
    s
}

/// `s` without its leading white space.
pub open spec fn trim_start(s: Seq<char>) -> Seq<char>
    decreases s.len(),
{
    if s.len() > 0 && is_white_space(s[0]) {
        trim_start(s.skip(1))
    } else {
        s
    }
}

/// `s` without its trailing white space.
pub open spec fn trim_end(s: Seq<char>) -> Seq<char>
    decreases s.len(),
{
    if s.len() > 0 && is_white_space(s.last()) {
        trim_end(s.drop_last())
    } else {
        s
    }
}

/// `s` without white space at either end.
pub open spec fn trimmed(s: Seq<char>) -> Seq<char> {
    trim_end(trim_start(s))
}

/// Whether `s` holds nothing but white space.
pub open spec fn is_blank(s: Seq<char>) -> bool {
    forall|i: int| 0 <= i < s.len() ==> is_white_space(#[trigger] s[i])
}

/// Removes the white space at both ends of `s`.
pub fn trim(s: &str) -> (r: String)
    ensures
        r@ == trimmed(s@),
{
    let v: Vec<char> = chars_of(s);
    let n: usize = v.len();
    let mut from: usize = 0;
    assert(v@.skip(0) == v@);
    while from < n && is_whitespace(v[from])
        invariant
            n == v@.len(),
            from <= n,
            trim_start(v@) == trim_start(v@.skip(from as int)),
        decreases n - from,
    {
        assert(v@.skip(from as int).skip(1) == v@.skip(from + 1));
        from += 1;
    }
    let mut to: usize = n;
    assert(v@.subrange(from as int, n as int) == v@.skip(from as int));
    while from < to && is_whitespace(v[to - 1])
        invariant
            n == v@.len(),
            from <= to <= n,
            trimmed(v@) == trim_end(v@.subrange(from as int, to as int)),
        decreases to,
    {
        assert(v@.subrange(from as int, to as int).drop_last() == v@.subrange(
            from as int,
            to - 1,
        ));
        to -= 1;
    }
    string_of(&v, from, to)
}

/// Whether the two strings hold the same characters.
pub fn eq_str(a: &str, b: &str) -> (r: bool)
    ensures
        r == (a@ == b@),
{
    let x: Vec<char> = chars_of(a);
    let y: Vec<char> = chars_of(b);
    if x.len() != y.len() {
        return false;
    }
    assert(x@.subrange(0, x@.len() as int) == x@);
    occurs_at(&x, 0, &y)
}

/// Whether `pattern` stands in `s` from position `at` on.
pub open spec fn matches_at(s: Seq<char>, at: int, pattern: Seq<char>) -> bool {
    &&& 0 <= at
    &&& at + pattern.len() <= s.len()
    &&& s.subrange(at, at + pattern.len()) == pattern
}

/// Whether `pattern` stands somewhere in `s`.
pub open spec fn contains_text(s: Seq<char>, pattern: Seq<char>) -> bool {
    exists|at: int| matches_at(s, at, pattern)
}

/// Decides [`matches_at`].
pub fn occurs_at(s: &Vec<char>, at: usize, pattern: &Vec<char>) -> (r: bool)
    requires
        at <= s@.len(),
    ensures
        r == matches_at(s@, at as int, pattern@),
{
    let n: usize = s.len();
    if n - at < pattern.len() {
        return false;
    }
    let mut i: usize = 0;
    while i < pattern.len()
        invariant
            i <= pattern@.len(),
            at + pattern@.len() <= n == s@.len(),
            forall|k: int| 0 <= k < i ==> s@[at + k] == #[trigger] pattern@[k],
        decreases pattern@.len() - i,
    {
        if s[at + i] != pattern[i] {
            assert(s@.subrange(at as int, at + pattern@.len())[i as int] != pattern@[i as int]);
            return false;
        }
        i += 1;
    }
    assert(s@.subrange(at as int, at + pattern@.len()) == pattern@);
    true
}

/// What follows `prefix` in `s`, where `s` begins with it.
pub open spec fn after_prefix(s: Seq<char>, prefix: Seq<char>) -> Option<Seq<char>> {
    if prefix.is_prefix_of(s) {
        Some(s.skip(prefix.len() as int))
    } else {
        None
    }
}

/// Takes `prefix` off the front of `s`.
pub fn strip_prefix(s: &str, prefix: &str) -> (r: Option<String>)
    ensures
        r.deep_view() == after_prefix(s@, prefix@),
{
    let v: Vec<char> = chars_of(s);
    let p: Vec<char> = chars_of(prefix);
    if occurs_at(&v, 0, &p) {
        let rest: String = string_of(&v, p.len(), v.len());
        assert(rest@ == s@.skip(prefix@.len() as int));
        Some(rest)
    } else {
        None
    }
}

/// Whether `s` ends with `suffix`.
pub fn ends_with(s: &str, suffix: &str) -> (r: bool)
    ensures
        r == suffix@.is_suffix_of(s@),
{
    let v: Vec<char> = chars_of(s);
    let p: Vec<char> = chars_of(suffix);
    if v.len() < p.len() {
        return false;
    }
    occurs_at(&v, v.len() - p.len(), &p)
}

/// What splitting leaves after reading `s`: the words that a separator has
/// ended, and the word still being read.
pub open spec fn split_state(s: Seq<char>, separates: spec_fn(char) -> bool) -> (
    Seq<Seq<char>>,
    Seq<char>,
)
    decreases s.len(),
{
    if s.len() == 0 {
        (Seq::empty(), Seq::empty())
    } else {
        let (ended, word) = split_state(s.drop_last(), separates);
        if !separates(s.last()) {
            (ended, word.push(s.last()))
        } else if word.len() > 0 {
            (ended.push(word), Seq::empty())
        } else {
            (ended, word)
        }
    }
}

/// The words of `s`: its longest non-empty runs of characters that do not
/// separate, in order.
pub open spec fn words(s: Seq<char>, separates: spec_fn(char) -> bool) -> Seq<Seq<char>> {
    let (ended, word) = split_state(s, separates);
    if word.len() > 0 {
        ended.push(word)
    } else {
        ended
    }
}

/// White space as a separator of words.
pub open spec fn at_white_space() -> spec_fn(char) -> bool {
    |c: char| is_white_space(c)
}

/// Splits `s` into words at white space.
pub fn split_whitespace(s: &str) -> (r: Vec<String>)
    ensures
        r.deep_view() == words(s@, at_white_space()),
{
    let v: Vec<char> = chars_of(s);
    let n: usize = v.len();
    let mut r: Vec<String> = Vec::new();
    let mut from: usize = 0;
    let mut i: usize = 0;
    while i < n
        invariant
            n == v@.len(),
            from <= i <= n,
            split_state(v@.take(i as int), at_white_space()) == (
                r.deep_view(),
                v@.subrange(from as int, i as int),
            ),
        decreases n - i,
    {
        let ghost before = r.deep_view();
        assert(v@.take(i + 1).drop_last() == v@.take(i as int));
        if is_whitespace(v[i]) {
            if from < i {
                r.push(string_of(&v, from, i));
                assert(r.deep_view() == before.push(v@.subrange(from as int, i as int)));
            }
            from = i + 1;
            assert(v@.subrange(from as int, i + 1) == Seq::<char>::empty());
            assert(from < i + 1 || v@.subrange(i as int, i as int) == Seq::<char>::empty());
        } else {
            assert(v@.subrange(from as int, i + 1) == v@.subrange(from as int, i as int).push(
                v@[i as int],
            ));
        }
        i += 1;
    }
    assert(v@.take(n as int) == v@);
    if from < n {
        let ghost before = r.deep_view();
        r.push(string_of(&v, from, n));
        assert(r.deep_view() == before.push(v@.subrange(from as int, n as int)));
    }
    r
}

/// The two sides of the first `mark` in `s`.
pub open spec fn split_at_first(s: Seq<char>, mark: char) -> Option<(Seq<char>, Seq<char>)>
    decreases s.len(),
{
    if s.len() == 0 {
        None
    } else if s[0] == mark {
        Some((Seq::empty(), s.skip(1)))
    } else {
        match split_at_first(s.skip(1), mark) {
            Some((key, value)) => Some((seq![s[0]] + key, value)),
            None => None,
        }
    }
}

proof fn lemma_split_at_first(s: Seq<char>, mark: char, at: int)
    requires
        0 <= at <= s.len(),
        forall|k: int| 0 <= k < at ==> s[k] != mark,
    ensures
        at == s.len() ==> split_at_first(s, mark) is None,
        at < s.len() && s[at] == mark ==> split_at_first(s, mark) == Some(
            (s.take(at), s.skip(at + 1)),
        ),
    decreases at,
{
    if at == 0 {
        if s.len() > 0 {
            assert(s.take(0) == Seq::<char>::empty());
        }
    } else {
        lemma_split_at_first(s.skip(1), mark, at - 1);
        if at < s.len() && s[at] == mark {
            assert(seq![s[0]] + s.skip(1).take(at - 1) == s.take(at));
            assert(s.skip(1).skip(at) == s.skip(at + 1));
        }
    }
}

/// Splits `s` at the first `mark`.
pub fn split_once(s: &str, mark: char) -> (r: Option<(String, String)>)
    ensures
        match r {
            Some((key, value)) => split_at_first(s@, mark) == Some((key@, value@)),
            None => split_at_first(s@, mark) is None,
        },
{
    let v: Vec<char> = chars_of(s);
    let n: usize = v.len();
    let mut i: usize = 0;
    while i < n
        invariant
            i <= n == v@.len(),
            v@ == s@,
            forall|k: int| 0 <= k < i ==> v@[k] != mark,
        decreases n - i,
    {
        if v[i] == mark {
            proof {
                lemma_split_at_first(v@, mark, i as int);
                assert(v@.subrange(0, i as int) == v@.take(i as int));
                assert(v@.subrange(i + 1, n as int) == v@.skip(i + 1));
            }
            return Some((string_of(&v, 0, i), string_of(&v, i + 1, n)));
        }
        i += 1;
    }
    proof {
        lemma_split_at_first(v@, mark, n as int);
    }
    None
}

/// `c`, with the letters `A` to `Z` in lower case.
pub open spec fn ascii_lower(c: char) -> char {
    if 'A' <= c <= 'Z' {
        (c as u8 + 32) as char
    } else {
        c
    }
}

/// `c`, with the letters `a` to `z` in upper case.
pub open spec fn ascii_upper(c: char) -> char {
    if 'a' <= c <= 'z' {
        (c as u8 - 32) as char
    } else {
        c
    }
}

/// `s`, with the letters `A` to `Z` in lower case.
pub open spec fn ascii_lowercase(s: Seq<char>) -> Seq<char> {
    s.map_values(|c: char| ascii_lower(c))
}

/// Computes [`ascii_lower`].
pub fn to_ascii_lowercase(c: char) -> (r: char)
    ensures
        r == ascii_lower(c),
{
    if 'A' <= c && c <= 'Z' {
        (c as u8 + 32) as char
    } else {
        c
    }
}

/// Computes [`ascii_upper`].
pub fn to_ascii_uppercase(c: char) -> (r: char)
    ensures
        r == ascii_upper(c),
{
    if 'a' <= c && c <= 'z' {
        (c as u8 - 32) as char
    } else {
        c
    }
}

/// Whether the two strings differ at most in the case of the letters `A` to `Z`.
pub fn eq_ignore_ascii_case(a: &str, b: &str) -> (r: bool)
    ensures
        r == (ascii_lowercase(a@) == ascii_lowercase(b@)),
{
    let x: Vec<char> = chars_of(a);
    let y: Vec<char> = chars_of(b);
    if x.len() != y.len() {
        assert(ascii_lowercase(a@).len() != ascii_lowercase(b@).len());
        return false;
    }
    let mut i: usize = 0;
    while i < x.len()
        invariant
            i <= x@.len() == y@.len(),
            x@ == a@,
            y@ == b@,
            forall|k: int| 0 <= k < i ==> ascii_lower(#[trigger] x@[k]) == ascii_lower(y@[k]),
        decreases x@.len() - i,
    {
        if to_ascii_lowercase(x[i]) != to_ascii_lowercase(y[i]) {
            assert(ascii_lowercase(a@)[i as int] != ascii_lowercase(b@)[i as int]);
            return false;
        }
        i += 1;
    }
    assert(ascii_lowercase(a@) == ascii_lowercase(b@));
    true
}

/// The result of `str::to_lowercase` on a string with these characters.
pub uninterp spec fn unicode_lowercase(s: Seq<char>) -> Seq<char>;

/// `s` in lower case: by the letters `A` to `Z` where all of it is ASCII, by
/// the Unicode mapping where it is not.
pub open spec fn lowercase(s: Seq<char>) -> Seq<char> {
    if vstd::utf8::is_ascii_chars(s) {
        ascii_lowercase(s)
    } else {
        unicode_lowercase(s)
    }
}

/// `str::to_lowercase`: the Unicode lower case of `s`, which depends on its
/// characters alone. On a string of ASCII characters it changes the letters `A`
/// to `Z` and nothing else; of other strings nothing but the name is stated.
#[verifier::external_body]
pub(crate) fn to_lowercase(s: &str) -> (r: String)
    ensures
        r@ == lowercase(s@),
        !vstd::utf8::is_ascii_chars(s@) ==> r@ == unicode_lowercase(s@),
{
    s.to_lowercase()
}

proof fn lemma_trim_start_blank(s: Seq<char>)
    requires
        is_blank(s),
    ensures
        trim_start(s) == Seq::<char>::empty(),
    decreases s.len(),
{
    if s.len() > 0 {
        assert(is_blank(s.skip(1)));
        lemma_trim_start_blank(s.skip(1));
    }
}

proof fn lemma_trim_start_padded(pad: Seq<char>, s: Seq<char>)
    requires
        is_blank(pad),
    ensures
        trim_start(pad + s) == trim_start(s),
    decreases pad.len(),
{
    if pad.len() == 0 {
        assert(pad + s == s);
    } else {
        assert((pad + s).skip(1) == pad.skip(1) + s);
        assert(is_blank(pad.skip(1)));
        assert((pad + s)[0] == pad[0]);
        lemma_trim_start_padded(pad.skip(1), s);
    }
}

proof fn lemma_trim_start_append(s: Seq<char>, t: Seq<char>)
    requires
        !is_blank(s),
    ensures
        trim_start(s + t) == trim_start(s) + t,
    decreases s.len(),
{
    if is_white_space(s[0]) {
        assert((s + t).skip(1) == s.skip(1) + t);
        assert(!is_blank(s.skip(1))) by {
            let k = choose|k: int| 0 <= k < s.len() && !is_white_space(#[trigger] s[k]);
            assert(s.skip(1)[k - 1] == s[k]);
        }
        lemma_trim_start_append(s.skip(1), t);
    }
}

proof fn lemma_trim_end_padded(s: Seq<char>, pad: Seq<char>)
    requires
        is_blank(pad),
    ensures
        trim_end(s + pad) == trim_end(s),
    decreases pad.len(),
{
    if pad.len() == 0 {
        assert(s + pad == s);
    } else {
        assert((s + pad).drop_last() == s + pad.drop_last());
        assert(is_blank(pad.drop_last()));
        assert((s + pad).last() == pad[pad.len() - 1]);
        lemma_trim_end_padded(s, pad.drop_last());
    }
}

/// White space put around a string does not change what trimming leaves of it.
pub proof fn law_trim_ignores_padding(before: Seq<char>, s: Seq<char>, after: Seq<char>)
    requires
        is_blank(before),
        is_blank(after),
    ensures
        trimmed(before + s + after) == trimmed(s),
{
    assert(before + s + after == before + (s + after));
    lemma_trim_start_padded(before, s + after);
    if is_blank(s) {
        assert(is_blank(s + after));
        lemma_trim_start_blank(s + after);
        lemma_trim_start_blank(s);
    } else {
        lemma_trim_start_append(s, after);
        lemma_trim_end_padded(trim_start(s), after);
    }
}

proof fn lemma_trim_start_is_suffix(s: Seq<char>)
    ensures
        exists|k: int| 0 <= k <= s.len() && #[trigger] s.skip(k) == trim_start(s) && is_blank(s.take(k)),
    decreases s.len(),
{
    if s.len() > 0 && is_white_space(s[0]) {
        lemma_trim_start_is_suffix(s.skip(1));
        let k = choose|k: int|
            0 <= k <= s.skip(1).len() && #[trigger] s.skip(1).skip(k) == trim_start(s.skip(1))
                && is_blank(s.skip(1).take(k));
        assert(s.skip(k + 1) == s.skip(1).skip(k));
        assert forall|i: int| 0 <= i < k + 1 implies is_white_space(#[trigger] s.take(k + 1)[i]) by {
            if i > 0 {
                assert(s.skip(1).take(k)[i - 1] == s[i]);
            }
        }
    } else {
        assert(s.skip(0) == s);
        assert(is_blank(s.take(0)));
    }
}

proof fn lemma_trim_end_is_prefix(s: Seq<char>)
    ensures
        exists|k: int| 0 <= k <= s.len() && #[trigger] s.take(k) == trim_end(s) && is_blank(s.skip(k)),
    decreases s.len(),
{
    if s.len() > 0 && is_white_space(s.last()) {
        lemma_trim_end_is_prefix(s.drop_last());
        let k = choose|k: int|
            0 <= k <= s.drop_last().len() && #[trigger] s.drop_last().take(k) == trim_end(s.drop_last())
                && is_blank(s.drop_last().skip(k));
        assert(s.take(k) == s.drop_last().take(k));
        assert forall|i: int| 0 <= i < s.len() - k implies is_white_space(#[trigger] s.skip(k)[i]) by {
            if i < s.len() - k - 1 {
                assert(s.drop_last().skip(k)[i] == s.skip(k)[i]);
            }
        }
    } else {
        assert(s.take(s.len() as int) == s);
        assert(is_blank(s.skip(s.len() as int)));
    }
}

/// Trimming takes white space off the two ends and nothing else, and what is
/// left neither begins nor ends with white space.
pub proof fn law_trim_takes_only_the_ends(s: Seq<char>)
    ensures
        exists|before: Seq<char>, after: Seq<char>|
            is_blank(before) && is_blank(after) && s == #[trigger] (before + trimmed(s) + after),
        trimmed(s).len() > 0 ==> !is_white_space(trimmed(s)[0]) && !is_white_space(
            trimmed(s).last(),
        ),
{
    lemma_trim_start_is_suffix(s);
    lemma_trim_end_is_prefix(trim_start(s));
    let t = trim_start(s);
    let i = choose|k: int| 0 <= k <= s.len() && #[trigger] s.skip(k) == t && is_blank(s.take(k));
    let j = choose|k: int|
        0 <= k <= t.len() && #[trigger] t.take(k) == trim_end(t) && is_blank(t.skip(k));
    assert(s == s.take(i) + trimmed(s) + t.skip(j));
    lemma_trim_start_first(s);
    lemma_trim_end_last(t);
    if trimmed(s).len() > 0 {
        assert(trimmed(s)[0] == t[0]);
    }
}

proof fn lemma_trim_start_first(s: Seq<char>)
    ensures
        trim_start(s).len() > 0 ==> !is_white_space(trim_start(s)[0]),
    decreases s.len(),
{
    if s.len() > 0 && is_white_space(s[0]) {
        lemma_trim_start_first(s.skip(1));
    }
}

proof fn lemma_trim_end_last(s: Seq<char>)
    ensures
        trim_end(s).len() > 0 ==> !is_white_space(trim_end(s).last()),
    decreases s.len(),
{
    if s.len() > 0 && is_white_space(s.last()) {
        lemma_trim_end_last(s.drop_last());
    }
}

/// What trimming leaves stays as it is when trimmed again.
pub proof fn law_trim_is_idempotent(s: Seq<char>)
    ensures
        trimmed(trimmed(s)) == trimmed(s),
{
    law_trim_takes_only_the_ends(s);
}

/// Trimming leaves nothing exactly of the strings that are all white space.
pub proof fn law_trim_empty_iff_blank(s: Seq<char>)
    ensures
        trimmed(s).len() == 0 <==> is_blank(s),
{
    if is_blank(s) {
        lemma_trim_start_blank(s);
    } else {
        law_trim_takes_only_the_ends(s);
        if trimmed(s).len() == 0 {
            let (before, after) = choose|before: Seq<char>, after: Seq<char>|
                is_blank(before) && is_blank(after) && s == #[trigger] (before + trimmed(s) + after);
            assert forall|i: int| 0 <= i < s.len() implies is_white_space(#[trigger] s[i]) by {
                if i < before.len() {
                    assert(s[i] == before[i]);
                } else {
                    assert(s[i] == after[i - before.len()]);
                }
            }
        }
    }
}

/// Whether `word` is non-empty and holds no separator.
pub open spec fn is_word(word: Seq<char>, separates: spec_fn(char) -> bool) -> bool {
    &&& word.len() > 0
    &&& forall|k: int| 0 <= k < word.len() ==> !separates(#[trigger] word[k])
}

proof fn lemma_split_state(s: Seq<char>, separates: spec_fn(char) -> bool)
    ensures
        forall|i: int|
            0 <= i < split_state(s, separates).0.len() ==> is_word(
                #[trigger] split_state(s, separates).0[i],
                separates,
            ),
        split_state(s, separates).1.len() > 0 ==> is_word(split_state(s, separates).1, separates),
        split_state(s, separates).0.flatten() + split_state(s, separates).1 == s.filter(
            |c: char| !separates(c),
        ),
    decreases s.len(),
{
    let keep = |c: char| !separates(c);
    reveal(Seq::filter);
    if s.len() > 0 {
        lemma_split_state(s.drop_last(), separates);
        let (ended, word) = split_state(s.drop_last(), separates);
        ended.lemma_flatten_push(word);
        assert(s == s.drop_last().push(s.last()));
        if separates(s.last()) {
            if word.len() > 0 {
                assert(ended.push(word).flatten() + Seq::<char>::empty() == ended.flatten() + word);
            }
        } else {
            assert(ended.flatten() + word.push(s.last()) == (ended.flatten() + word).push(s.last()));
        }
    } else {
        reveal_with_fuel(Seq::flatten, 1);
        assert(Seq::<Seq<char>>::empty().flatten() + Seq::<char>::empty() == Seq::<char>::empty());
    }
}

/// Splitting gives non-empty words without separators, and together they hold
/// every other character of the string, in order.
pub proof fn law_words_hold_the_rest(s: Seq<char>, separates: spec_fn(char) -> bool)
    ensures
        forall|i: int|
            0 <= i < words(s, separates).len() ==> is_word(
                #[trigger] words(s, separates)[i],
                separates,
            ),
        words(s, separates).flatten() == s.filter(|c: char| !separates(c)),
{
    lemma_split_state(s, separates);
    let (ended, word) = split_state(s, separates);
    ended.lemma_flatten_push(word);
    if word.len() == 0 {
        assert(ended.flatten() + word == ended.flatten());
    }
}

/// `rest` is what follows `prefix` in `s` exactly when the two, put together, are
/// `s`; nothing follows it exactly when no text would do.
pub proof fn law_prefix_is_taken_off(s: Seq<char>, prefix: Seq<char>, rest: Seq<char>)
    ensures
        after_prefix(s, prefix) == Some(rest) <==> s == prefix + rest,
        after_prefix(s, prefix) is None <==> forall|other: Seq<char>| s != #[trigger] (prefix
            + other),
{
    assert((prefix + rest).skip(prefix.len() as int) == rest);
    assert(prefix.is_prefix_of(prefix + rest));
    if prefix.is_prefix_of(s) {
        assert(s == prefix + s.skip(prefix.len() as int));
    }
    assert forall|other: Seq<char>| s == #[trigger] (prefix + other) implies after_prefix(
        s,
        prefix,
    ) is Some by {
        assert(prefix.is_prefix_of(prefix + other));
    }
}

proof fn lemma_split_state_append(
    a: Seq<char>,
    b: Seq<char>,
    separates: spec_fn(char) -> bool,
)
    requires
        split_state(a, separates).1.len() == 0,
    ensures
        split_state(a + b, separates).0 == split_state(a, separates).0 + split_state(
            b,
            separates,
        ).0,
        split_state(a + b, separates).1 == split_state(b, separates).1,
    decreases b.len(),
{
    if b.len() == 0 {
        assert(a + b == a);
        assert(split_state(a, separates).1 == Seq::<char>::empty());
    } else {
        lemma_split_state_append(a, b.drop_last(), separates);
        assert((a + b).drop_last() == a + b.drop_last());
        assert((a + b).last() == b.last());
    }
}

/// A separator ends a word and begins none: the words of a string are the words
/// before any separator in it, and then the words behind it.
pub proof fn law_words_part_at_a_separator(
    before: Seq<char>,
    separator: char,
    after: Seq<char>,
    separates: spec_fn(char) -> bool,
)
    requires
        separates(separator),
    ensures
        words(before.push(separator) + after, separates) == words(before, separates) + words(
            after,
            separates,
        ),
{
    assert(before.push(separator).drop_last() == before);
    assert(split_state(before.push(separator), separates).0 == words(before, separates));
    assert(split_state(before.push(separator), separates).1.len() == 0);
    lemma_split_state_append(before.push(separator), after, separates);
}

/// A string without separators is one word, unless it is empty: then it has none.
pub proof fn law_text_without_separators_is_one_word(
    text: Seq<char>,
    separates: spec_fn(char) -> bool,
)
    requires
        forall|i: int| 0 <= i < text.len() ==> !separates(#[trigger] text[i]),
    ensures
        words(text, separates) == if text.len() == 0 {
            Seq::<Seq<char>>::empty()
        } else {
            seq![text]
        },
{
    lemma_split_state_word(text, separates);
}

proof fn lemma_split_state_word(text: Seq<char>, separates: spec_fn(char) -> bool)
    requires
        forall|i: int| 0 <= i < text.len() ==> !separates(#[trigger] text[i]),
    ensures
        split_state(text, separates) == (Seq::<Seq<char>>::empty(), text),
    decreases text.len(),
{
    if text.len() > 0 {
        let rest = text.drop_last();
        assert forall|i: int| 0 <= i < rest.len() implies !separates(#[trigger] rest[i]) by {
            assert(rest[i] == text[i]);
        }
        lemma_split_state_word(rest, separates);
        assert(!separates(text[text.len() - 1]));
        assert(rest.push(text.last()) == text);
    } else {
        assert(text == Seq::<char>::empty());
    }
}

/// White space, and nothing else, parts the words.
pub proof fn law_white_space_separates(c: char)
    ensures
        at_white_space()(c) == is_white_space(c),
        is_white_space(c) <==> {
            let u = c as u32;
            0x09 <= u <= 0x0d || 0x2000 <= u <= 0x200a || seq![
                0x20u32,
                0x85,
                0xa0,
                0x1680,
                0x2028,
                0x2029,
                0x202f,
                0x205f,
                0x3000,
            ].contains(u)
        },
{
    let single = seq![
        0x20u32,
        0x85,
        0xa0,
        0x1680,
        0x2028,
        0x2029,
        0x202f,
        0x205f,
        0x3000,
    ];
    assert(single[0] == 0x20 && single[1] == 0x85 && single[2] == 0xa0 && single[3] == 0x1680
        && single[4] == 0x2028 && single[5] == 0x2029 && single[6] == 0x202f && single[7] == 0x205f
        && single[8] == 0x3000);
}

/// A string is split at its first mark: what stands before holds no mark, and with
/// the mark between them the two sides make up the string. A string without the
/// mark is not split.
pub proof fn law_split_at_the_first_mark(s: Seq<char>, mark: char)
    ensures
        split_at_first(s, mark) is Some <==> s.contains(mark),
        split_at_first(s, mark) matches Some((before, after)) ==> !before.contains(mark) && s
            == before.push(mark) + after,
    decreases s.len(),
{
    if s.len() > 0 {
        law_split_at_the_first_mark(s.skip(1), mark);
        assert(s == seq![s[0]] + s.skip(1));
        if s[0] == mark {
            assert(Seq::<char>::empty().push(mark) + s.skip(1) == s);
        } else {
            if s.contains(mark) {
                let k = choose|k: int| 0 <= k < s.len() && s[k] == mark;
                assert(s.skip(1)[k - 1] == mark);
            }
            if let Some((key, value)) = split_at_first(s.skip(1), mark) {
                let before = seq![s[0]] + key;
                assert(before.push(mark) + value == seq![s[0]] + (key.push(mark) + value));
                assert(s.contains(mark)) by {
                    assert(s[(key.len() + 1) as int] == mark) by {
                        assert((key.push(mark) + value)[key.len() as int] == mark);
                    }
                }
                if before.contains(mark) {
                    let k = choose|k: int| 0 <= k < before.len() && before[k] == mark;
                    assert(key[k - 1] == mark);
                }
            }
        }
    }
}

/// Changing the case of ASCII letters moves the letters `A` to `Z` and `a` to `z`
/// onto each other, in order, and leaves every other character alone.
pub proof fn law_ascii_case(c: char)
    ensures
        'A' <= c <= 'Z' ==> ascii_lower(c) as int - 'a' as int == c as int - 'A' as int,
        !('A' <= c <= 'Z') ==> ascii_lower(c) == c,
        'a' <= c <= 'z' ==> ascii_upper(c) as int - 'A' as int == c as int - 'a' as int,
        !('a' <= c <= 'z') ==> ascii_upper(c) == c,
{
}

/// The lower case of a string is that of its characters, one by one.
pub proof fn law_ascii_lowercase_goes_by_character(s: Seq<char>)
    ensures
        ascii_lowercase(s).len() == s.len(),
        forall|i: int|
            0 <= i < s.len() ==> #[trigger] ascii_lowercase(s)[i] == ascii_lower(s[i]),
        vstd::utf8::is_ascii_chars(s) ==> lowercase(s) == ascii_lowercase(s),
{
}

/// A text occurs in a string at some place exactly when the string can be cut into
/// three pieces of which it is the middle one.
pub proof fn law_text_occurs_between(s: Seq<char>, at: int, pattern: Seq<char>)
    ensures
        matches_at(s, at, pattern) <==> exists|before: Seq<char>, after: Seq<char>|
            before.len() == at && s == #[trigger] (before + pattern + after),
        contains_text(s, pattern) <==> exists|before: Seq<char>, after: Seq<char>|
            s == #[trigger] (before + pattern + after),
{
    assert forall|before: Seq<char>, after: Seq<char>|
        s == #[trigger] (before + pattern + after) implies matches_at(
        s,
        before.len() as int,
        pattern,
    ) by {
        assert(s.subrange(before.len() as int, (before.len() + pattern.len()) as int) == pattern);
    }
    assert forall|k: int| #[trigger] matches_at(s, k, pattern) implies s == s.take(k) + pattern
        + s.skip(k + pattern.len()) && s.take(k).len() == k by {}
    if matches_at(s, at, pattern) {
        assert(s == s.take(at) + pattern + s.skip(at + pattern.len()));
    }
    if contains_text(s, pattern) {
        let k = choose|k: int| matches_at(s, k, pattern);
        assert(s == s.take(k) + pattern + s.skip(k + pattern.len()));
    }
}

} // verus!
