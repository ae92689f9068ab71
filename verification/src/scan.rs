//! Reading the parts of a latitude from free-form text: the segments between
//! delimiters, the magnitude in degrees and the direction letter.

use vstd::prelude::*;

verus! {

/// The characters that separate the segments of a latitude: period, comma,
/// apostrophe and space.
pub open spec fn is_delimiter(c: char) -> bool {
    c == '.' || c == ',' || c == '\'' || c == ' '
}

/// The number of characters at the start of `s` that come before its first
/// delimiter, or all of them where it holds none.
pub open spec fn run_len(s: Seq<char>) -> nat
    decreases s.len(),
{
    if s.len() == 0 || is_delimiter(s[0]) {
        0
    } else {
        1 + run_len(s.drop_first())
    }
}

/// The segments of `s`: its longest runs of characters that are no
/// delimiters, in the order in which they stand. None of them is empty.
pub open spec fn segments(s: Seq<char>) -> Seq<Seq<char>>
    decreases s.len(),
    via segments_decreases
{
    if s.len() == 0 {
        Seq::empty()
    } else if is_delimiter(s[0]) {
        segments(s.drop_first())
    } else {
        seq![s.take(run_len(s) as int)] + segments(s.skip(run_len(s) as int))
    }
}

#[via_fn]
proof fn segments_decreases(s: Seq<char>) {
    lemma_run_len_bounds(s);
}

/// A run is no longer than the text, holds no delimiter, and ends at a
/// delimiter or at the end of the text.
pub proof fn lemma_run_len_bounds(s: Seq<char>)
    ensures
        run_len(s) <= s.len(),
        s.len() > 0 && !is_delimiter(s[0]) ==> run_len(s) >= 1,
        forall|k: int| 0 <= k < run_len(s) ==> !is_delimiter(#[trigger] s[k]),
        run_len(s) < s.len() ==> is_delimiter(s[run_len(s) as int]),
    decreases s.len(),
{
    if s.len() > 0 && !is_delimiter(s[0]) {
        let rest = s.drop_first();
        lemma_run_len_bounds(rest);
        assert forall|k: int| 0 <= k < run_len(s) implies !is_delimiter(#[trigger] s[k]) by {
            if k > 0 {
                assert(s[k] == rest[k - 1]);
            }
        }
        if run_len(s) < s.len() {
            assert(s[run_len(s) as int] == rest[run_len(rest) as int]);
        }
    }
}

/// The run at the start of `s` has `n` characters where the first `n` hold
/// no delimiter and a delimiter, or the end of the text, follows them.
pub proof fn lemma_run_len_is(s: Seq<char>, n: int)
    requires
        0 <= n <= s.len(),
        forall|k: int| 0 <= k < n ==> !is_delimiter(#[trigger] s[k]),
        n < s.len() ==> is_delimiter(s[n]),
    ensures
        run_len(s) == n,
    decreases n,
{
    if n > 0 {
        let rest = s.drop_first();
        assert(!is_delimiter(s[0]));
        assert forall|k: int| 0 <= k < n - 1 implies !is_delimiter(#[trigger] rest[k]) by {
            assert(rest[k] == s[k + 1]);
        }
        lemma_run_len_is(rest, n - 1);
    }
}

/// Whether `s` is a run: one or more characters, none of them a delimiter.
pub open spec fn is_run(s: Seq<char>) -> bool {
    &&& s.len() > 0
    &&& forall|i: int| 0 <= i < s.len() ==> !is_delimiter(#[trigger] s[i])
}

/// Every segment is a run: none is empty: where delimiters stand
/// side by side, nothing is taken from between them.
pub proof fn lemma_segments_are_runs(s: Seq<char>)
    ensures
        forall|k: int| 0 <= k < segments(s).len() ==> is_run(#[trigger] segments(s)[k]),
    decreases s.len(),
{
    if s.len() > 0 {
        if is_delimiter(s[0]) {
            lemma_segments_are_runs(s.drop_first());
            assert(segments(s) == segments(s.drop_first()));
        } else {
            lemma_run_len_bounds(s);
            let n = run_len(s) as int;
            let rest = segments(s.skip(n));
            lemma_segments_are_runs(s.skip(n));
            assert forall|k: int| 0 <= k < segments(s).len() implies is_run(
                #[trigger] segments(s)[k],
            ) by {
                if k > 0 {
                    assert(segments(s)[k] == rest[k - 1]);
                }
            }
        }
    }
}

/// Whether `c` is one of the ten decimal digits.
pub open spec fn is_digit(c: char) -> bool {
    '0' <= c && c <= '9'
}

/// The number that the digit `c` writes.
pub open spec fn digit_value(c: char) -> nat
    recommends
        is_digit(c),
{
    if is_digit(c) {
        (c as nat - '0' as nat) as nat
    } else {
        0
    }
}

/// The number that the digits of `s` write in base ten.
pub open spec fn decimal_value(s: Seq<char>) -> nat
    decreases s.len(),
{
    if s.len() == 0 {
        0
    } else {
        10 * decimal_value(s.drop_last()) + digit_value(s.last())
    }
}

/// Whether `s` holds decimal digits and nothing else.
pub open spec fn all_digits(s: Seq<char>) -> bool {
    forall|i: int| 0 <= i < s.len() ==> is_digit(#[trigger] s[i])
}

/// `s` without the plus sign at its start, if it has one.
pub open spec fn unsigned_part(s: Seq<char>) -> Seq<char> {
    if s.len() > 0 && s[0] == '+' {
        s.drop_first()
    } else {
        s
    }
}

/// The magnitude that a segment writes: one or more decimal digits, with or
/// without a plus sign before them, that write a number up to ninety.
/// Anything else writes none.
pub open spec fn degrees_of(s: Seq<char>) -> Option<u8> {
    let digits = unsigned_part(s);
    if digits.len() > 0 && all_digits(digits) && decimal_value(digits) <= 90 {
        Some(decimal_value(digits) as u8)
    } else {
        None
    }
}

/// The direction that a segment names: `Some(true)` for the letter N,
/// `Some(false)` for the letter S, in either case, and `None` for anything
/// else.
pub open spec fn direction_of(s: Seq<char>) -> Option<bool> {
    if s.len() != 1 {
        None
    } else if s[0] == 'n' || s[0] == 'N' {
        Some(true)
    } else if s[0] == 's' || s[0] == 'S' {
        Some(false)
    } else {
        None
    }
}

/// A number does not shrink when digits are written after it.
pub proof fn lemma_decimal_value_grows(s: Seq<char>, n: int)
    requires
        0 <= n <= s.len(),
    ensures
        decimal_value(s.take(n)) <= decimal_value(s),
    decreases s.len() - n,
{
    if n < s.len() {
        lemma_decimal_value_grows(s.drop_last(), n);
        assert(s.drop_last().take(n) =~= s.take(n));
    } else {
        assert(s.take(n) =~= s);
    }
}

/// `c` in lower case where it is a capital letter of the Latin alphabet, and
/// `c` itself where it is anything else.
pub open spec fn lowered(c: char) -> char {
    if 'A' <= c && c <= 'Z' {
        (c as u32 + 32) as char
    } else {
        c
    }
}

/// Whether `a` and `b` are the same text but for the case of their letters.
pub open spec fn same_but_case(a: Seq<char>, b: Seq<char>) -> bool {
    &&& a.len() == b.len()
    &&& forall|i: int| 0 <= i < a.len() ==> lowered(#[trigger] a[i]) == lowered(b[i])
}

/// Two characters that differ in case only are the same character where one
/// of them is no letter, and both are delimiters or neither is.
pub proof fn lemma_lowered_keeps_marks(x: char, y: char)
    requires
        lowered(x) == lowered(y),
    ensures
        is_delimiter(x) == is_delimiter(y),
        is_digit(x) || x == '+' ==> x == y,
        is_digit(y) || y == '+' ==> x == y,
{
}

/// The case of its letters does not change where the first run of a text
/// ends.
pub proof fn lemma_run_len_ignores_case(a: Seq<char>, b: Seq<char>)
    requires
        same_but_case(a, b),
    ensures
        run_len(a) == run_len(b),
    decreases a.len(),
{
    if a.len() > 0 {
        lemma_lowered_keeps_marks(a[0], b[0]);
        if !is_delimiter(a[0]) {
            let ra = a.drop_first();
            let rb = b.drop_first();
            assert forall|i: int| 0 <= i < ra.len() implies lowered(#[trigger] ra[i]) == lowered(
                rb[i],
            ) by {
                assert(lowered(a[i + 1]) == lowered(b[i + 1]));
            }
            lemma_run_len_ignores_case(ra, rb);
        }
    }
}

/// Two texts that differ in the case of their letters only have as many
/// segments as each other, and their segments differ in case only.
pub proof fn lemma_segments_ignore_case(a: Seq<char>, b: Seq<char>)
    requires
        same_but_case(a, b),
    ensures
        segments(a).len() == segments(b).len(),
        forall|k: int|
            0 <= k < segments(a).len() ==> same_but_case(
                #[trigger] segments(a)[k],
                segments(b)[k],
            ),
    decreases a.len(),
{
    if a.len() > 0 {
        lemma_lowered_keeps_marks(a[0], b[0]);
        if is_delimiter(a[0]) {
            let ra = a.drop_first();
            let rb = b.drop_first();
            assert forall|i: int| 0 <= i < ra.len() implies lowered(#[trigger] ra[i]) == lowered(
                rb[i],
            ) by {
                assert(lowered(a[i + 1]) == lowered(b[i + 1]));
            }
            lemma_segments_ignore_case(ra, rb);
        } else {
            lemma_run_len_ignores_case(a, b);
            lemma_run_len_bounds(a);
            let n = run_len(a) as int;
            let (ha, hb) = (a.take(n), b.take(n));
            let (ta, tb) = (a.skip(n), b.skip(n));
            assert forall|i: int| 0 <= i < ha.len() implies lowered(#[trigger] ha[i]) == lowered(
                hb[i],
            ) by {
                assert(lowered(a[i]) == lowered(b[i]));
            }
            assert forall|i: int| 0 <= i < ta.len() implies lowered(#[trigger] ta[i]) == lowered(
                tb[i],
            ) by {
                assert(lowered(a[i + n]) == lowered(b[i + n]));
            }
            lemma_segments_ignore_case(ta, tb);
            assert forall|k: int| 0 <= k < segments(a).len() implies same_but_case(
                #[trigger] segments(a)[k],
                segments(b)[k],
            ) by {
                if k > 0 {
                    assert(segments(a)[k] == segments(ta)[k - 1]);
                    assert(segments(b)[k] == segments(tb)[k - 1]);
                }
            }
        }
    }
}

/// Digits and the plus sign are no letters: a segment that writes a
/// magnitude writes the same one in either case, and one that writes none
/// writes none in either case.
pub proof fn lemma_degrees_ignore_case(a: Seq<char>, b: Seq<char>)
    requires
        same_but_case(a, b),
    ensures
        degrees_of(a) == degrees_of(b),
{
    if a.len() > 0 {
        lemma_lowered_keeps_marks(a[0], b[0]);
    }
    let (da, db) = (unsigned_part(a), unsigned_part(b));
    assert(da.len() == db.len());
    assert forall|i: int| 0 <= i < da.len() implies lowered(#[trigger] da[i]) == lowered(
        db[i],
    ) by {
        let j = i + (a.len() - da.len());
        assert(da[i] == a[j] && db[i] == b[j]);
    }
    if all_digits(da) || all_digits(db) {
        assert forall|i: int| 0 <= i < da.len() implies #[trigger] da[i] == db[i] by {
            lemma_lowered_keeps_marks(da[i], db[i]);
        }
        assert(da =~= db);
    }
}

/// The letter that names a direction names the same one in either case.
pub proof fn lemma_direction_ignores_case(a: Seq<char>, b: Seq<char>)
    requires
        same_but_case(a, b),
    ensures
        direction_of(a) == direction_of(b),
{
    if a.len() == 1 {
        assert(lowered(a[0]) == lowered(b[0]));
    }
}

/// The characters of `text`, in order.
pub fn chars_of(text: &str) -> (chars: Vec<char>)
    ensures
        chars@ == text@,
{
    let mut chars: Vec<char> = Vec::new();
    for c in it: text.chars()
        invariant
            it.seq() == text@,
            chars@ == text@.take(it.index()),
    {
        chars.push(c);
    }
    chars
}

/// Tells whether `c` separates segments.
pub fn delimits(c: char) -> (b: bool)
    ensures
        b == is_delimiter(c),
{
    c == '.' || c == ',' || c == '\'' || c == ' '
}

/// Splits `chars` into its segments.
pub fn split_segments(chars: &Vec<char>) -> (segs: Vec<Vec<char>>)
    ensures
        segs.deep_view() == segments(chars@),
{
    let mut segs: Vec<Vec<char>> = Vec::new();
    let mut i: usize = 0;
    assert(chars@.skip(0) =~= chars@);
    while i < chars.len()
        invariant
            i <= chars.len(),
            segments(chars@) == segs.deep_view() + segments(chars@.skip(i as int)),
        decreases chars.len() - i,
    {
        let ghost rest = chars@.skip(i as int);
        if delimits(chars[i]) {
            i += 1;
            assert(rest.drop_first() =~= chars@.skip(i as int));
        } else {
            let start = i;
            let mut seg: Vec<char> = Vec::new();
            while i < chars.len() && !delimits(chars[i])
                invariant
                    start <= i <= chars.len(),
                    seg@ == chars@.subrange(start as int, i as int),
                    forall|k: int| start <= k < i ==> !is_delimiter(#[trigger] chars@[k]),
                decreases chars.len() - i,
            {
                seg.push(chars[i]);
                i += 1;
            }
            proof {
                let n = i - start;
                assert forall|k: int| 0 <= k < n implies !is_delimiter(#[trigger] rest[k]) by {
                    assert(rest[k] == chars@[start + k]);
                }
                lemma_run_len_is(rest, n);
                assert(rest.take(n) =~= seg@);
                assert(rest.skip(n) =~= chars@.skip(i as int));
            }
            assert(seg.deep_view() =~= seg@);
            segs.push(seg);
        }
    }
    segs
}

/// Reads the magnitude that a segment writes.
pub fn parse_degrees(seg: &Vec<char>) -> (deg: Option<u8>)
    ensures
        deg == degrees_of(seg@),
{
    let n = seg.len();
    let start: usize = if n > 0 && seg[0] == '+' {
        1
    } else {
        0
    };
    let ghost digits = unsigned_part(seg@);
    if start == n {
        return None;
    }
    let mut value: u8 = 0;
    let mut i: usize = start;
    while i < n
        invariant
            start <= i <= n,
            n == seg.len(),
            start < n,
            digits == seg@.skip(start as int),
            digits == unsigned_part(seg@),
            all_digits(digits.take(i - start)),
            value == decimal_value(digits.take(i - start)),
            value <= 90,
        decreases n - i,
    {
        let c = seg[i];
        let ghost prefix = digits.take(i - start);
        let ghost longer = digits.take(i - start + 1);
        assert(longer.drop_last() =~= prefix);
        assert(longer.last() == c);
        if !(c >= '0' && c <= '9') {
            return None;
        }
        let d: u8 = c as u8 - '0' as u8;
        let next: u16 = value as u16 * 10 + d as u16;
        if next > 90 {
            proof {
                lemma_decimal_value_grows(digits, i - start + 1);
            }
            return None;
        }
        value = next as u8;
        i += 1;
    }
    assert(digits.take(n - start) =~= digits);
    Some(value)
}

/// Reads the direction that a segment names.
pub fn parse_direction(seg: &Vec<char>) -> (dir: Option<bool>)
    ensures
        dir == direction_of(seg@),
{
    if seg.len() != 1 {
        None
    } else {
        let c = seg[0];
        if c == 'n' || c == 'N' {
            Some(true)
        } else if c == 's' || c == 'S' {
            Some(false)
        } else {
            None
        }
    }
}

/// Reads the direction that a word names: `Some(true)` for north,
/// `Some(false)` for south.
pub fn dir_to_bool(dir: &str) -> (flag: Option<bool>)
    ensures
        flag == direction_of(dir@),
{
    let chars = chars_of(dir);
    parse_direction(&chars)
}

} // verus!
