//! The grammar of a prober's textual report: where a line marks a round-trip
//! time, and which number stands behind the mark.
//!
//! A report is a run of lines, each ended by a line feed. The first line that
//! holds the mark `time=` decides for that line: the bytes behind the mark, up
//! to the next white space, are read as a decimal number of milliseconds. The
//! first line whose number reads gives the report's round-trip time.

use vstd::prelude::*;
use vstd::slice::slice_subrange;

verus! {

/// The byte `\n`, which ends a line.
pub const LINE_FEED: u8 = 10;

/// The byte `.`, which parts the whole milliseconds from their fraction.
pub const POINT: u8 = 46;

/// The byte `0`.
pub const ZERO: u8 = 48;

/// The length of the mark.
pub const MARK_LEN: usize = 5;

/// The mark that stands before a round-trip time: the bytes of `time=`.
pub open spec fn mark() -> Seq<u8> {
    seq![116u8, 105u8, 109u8, 101u8, 61u8]
}

/// Whether `b` is a decimal digit.
pub open spec fn is_digit(b: u8) -> bool {
    48 <= b <= 57
}

/// Whether `b` is white space: a blank, or one of tab, line feed, vertical
/// tab, form feed and carriage return.
pub open spec fn is_space(b: u8) -> bool {
    b == 32 || 9 <= b <= 13
}

/// Whether every byte of `s` is a decimal digit.
pub open spec fn all_digits(s: Seq<u8>) -> bool {
    forall|i: int| 0 <= i < s.len() ==> is_digit(#[trigger] s[i])
}

/// The number that a run of decimal digits writes.
pub open spec fn digits_value(s: Seq<u8>) -> nat
    decreases s.len(),
{
    if s.len() == 0 {
        0
    } else {
        digits_value(s.drop_last()) * 10 + (s.last() - ZERO) as nat
    }
}

/// The digit at place `i` behind the point, or 0 where the fraction is
/// shorter.
pub open spec fn digit_at(frac: Seq<u8>, i: int) -> nat {
    if 0 <= i < frac.len() {
        (frac[i] - ZERO) as nat
    } else {
        0
    }
}

/// The thousandths that a fraction's digits write; places behind the third
/// are dropped.
pub open spec fn thousandths_of(frac: Seq<u8>) -> nat {
    digit_at(frac, 0) * 100 + digit_at(frac, 1) * 10 + digit_at(frac, 2)
}

/// The first place at or behind `from` where `s` holds `b`, or the length of
/// `s` where it holds none.
pub open spec fn find_byte(s: Seq<u8>, b: u8, from: int) -> int
    decreases s.len() - from,
{
    if from >= s.len() {
        s.len() as int
    } else if s[from] == b {
        from
    } else {
        find_byte(s, b, from + 1)
    }
}

/// The first place at or behind `from` where `s` holds white space, or the
/// length of `s` where it holds none.
pub open spec fn find_space(s: Seq<u8>, from: int) -> int
    decreases s.len() - from,
{
    if from >= s.len() {
        s.len() as int
    } else if is_space(s[from]) {
        from
    } else {
        find_space(s, from + 1)
    }
}

/// Whether the mark stands in `line` at place `at`.
pub open spec fn mark_at(line: Seq<u8>, at: int) -> bool {
    0 <= at && at + MARK_LEN <= line.len() && line.subrange(at, at + MARK_LEN) == mark()
}

/// The first place at or behind `from` where the mark stands in `line`.
pub open spec fn find_mark(line: Seq<u8>, from: int) -> Option<int>
    decreases line.len() - from,
{
    if from < 0 || from + MARK_LEN > line.len() {
        None
    } else if mark_at(line, from) {
        Some(from)
    } else {
        find_mark(line, from + 1)
    }
}

/// The microseconds that `text` writes as a decimal number of milliseconds:
/// digits, with at most one point among them, and at least one digit. Digits
/// behind the third place after the point are dropped. Text of any other
/// shape, and a number too large for 64 bits, reads as nothing.
pub open spec fn micros_of(text: Seq<u8>) -> Option<u64> {
    let point = find_byte(text, POINT, 0);
    let whole = text.subrange(0, point);
    let frac = if point < text.len() {
        text.subrange(point + 1, text.len() as int)
    } else {
        Seq::empty()
    };
    let micros = digits_value(whole) * 1000 + thousandths_of(frac);
    if all_digits(whole) && all_digits(frac) && whole.len() + frac.len() > 0 && micros
        <= u64::MAX {
        Some(micros as u64)
    } else {
        None
    }
}

/// The round-trip time that one line reports: the number behind the line's
/// first mark, up to the next white space.
pub open spec fn rtt_in_line(line: Seq<u8>) -> Option<u64> {
    match find_mark(line, 0) {
        None => None,
        Some(at) => {
            let rest = line.subrange(at + MARK_LEN, line.len() as int);
            micros_of(rest.subrange(0, find_space(rest, 0)))
        },
    }
}

/// The round-trip time that a report gives: that of its first line which
/// reports one.
pub open spec fn rtt_in_text(text: Seq<u8>) -> Option<u64>
    decreases text.len(),
{
    let end = find_byte(text, LINE_FEED, 0);
    match rtt_in_line(text.subrange(0, end)) {
        Some(rtt) => Some(rtt),
        None => if 0 <= end < text.len() {
            rtt_in_text(text.subrange(end + 1, text.len() as int))
        } else {
            None
        },
    }
}

/// `find_byte` stays within the text, passes over no `b`, and stops on one.
pub proof fn lemma_find_byte(s: Seq<u8>, b: u8, from: int)
    requires
        0 <= from <= s.len(),
    ensures
        from <= find_byte(s, b, from) <= s.len(),
        forall|i: int| from <= i < find_byte(s, b, from) ==> s[i] != b,
        find_byte(s, b, from) < s.len() ==> s[find_byte(s, b, from)] == b,
    decreases s.len() - from,
{
    if from < s.len() && s[from] != b {
        lemma_find_byte(s, b, from + 1);
    }
}

/// `find_space` stays within the text, passes over no white space, and stops
/// on some.
pub proof fn lemma_find_space(s: Seq<u8>, from: int)
    requires
        0 <= from <= s.len(),
    ensures
        from <= find_space(s, from) <= s.len(),
        forall|i: int| from <= i < find_space(s, from) ==> !is_space(s[i]),
        find_space(s, from) < s.len() ==> is_space(s[find_space(s, from)]),
    decreases s.len() - from,
{
    if from < s.len() && !is_space(s[from]) {
        lemma_find_space(s, from + 1);
    }
}

/// `find_mark` gives the first place of the mark and no other.
pub proof fn lemma_find_mark(line: Seq<u8>, from: int)
    requires
        0 <= from,
    ensures
        match find_mark(line, from) {
            Some(at) => from <= at && mark_at(line, at) && forall|i: int|
                from <= i < at ==> !mark_at(line, i),
            None => forall|i: int| from <= i ==> !mark_at(line, i),
        },
    decreases line.len() - from,
{
    if from + MARK_LEN <= line.len() && !mark_at(line, from) {
        lemma_find_mark(line, from + 1);
    }
}

/// A run of digits writes no less than any of its beginnings.
proof fn lemma_digits_grow(s: Seq<u8>, n: int)
    requires
        0 <= n <= s.len(),
        all_digits(s),
    ensures
        digits_value(s.take(n)) <= digits_value(s),
    decreases s.len() - n,
{
    if n < s.len() {
        lemma_digits_grow(s, n + 1);
        assert(s.take(n + 1).drop_last() =~= s.take(n));
        assert(is_digit(s[n]));
    } else {
        assert(s.take(n) =~= s);
    }
}

/// Reads a decimal number of milliseconds as microseconds.
pub fn parse_micros(text: &[u8]) -> (micros: Option<u64>)
    ensures
        micros == micros_of(text@),
{
    let n: usize = text.len();
    proof {
        lemma_find_byte(text@, POINT, 0);
    }
    let ghost point = find_byte(text@, POINT, 0);
    let ghost whole = text@.subrange(0, point);
    let mut acc: u64 = 0;
    let mut i: usize = 0;
    while i < n && text[i] != POINT
        invariant
            n == text@.len(),
            i <= n,
            point == find_byte(text@, POINT, 0),
            point == find_byte(text@, POINT, i as int),
            whole == text@.subrange(0, point),
            i <= point <= n,
            all_digits(whole.take(i as int)),
            acc == digits_value(whole.take(i as int)),
        decreases n - i,
    {
        let b: u8 = text[i];
        proof {
            lemma_find_byte(text@, POINT, i + 1);
            assert(whole.take(i + 1).drop_last() =~= whole.take(i as int));
            assert(whole[i as int] == b);
        }
        if b < 48 || b > 57 {
            assert(!is_digit(whole[i as int]));
            return None;
        }
        let d: u64 = (b - ZERO) as u64;
        if acc > (u64::MAX - d) / 10 {
            proof {
                if all_digits(whole) {
                    lemma_digits_grow(whole, i + 1);
                }
            }
            return None;
        }
        acc = acc * 10 + d;
        i = i + 1;
    }
    proof {
        assert(i == point);
        assert(whole.take(i as int) =~= whole);
    }
    let ghost frac = if point < n {
        text@.subrange(point + 1, n as int)
    } else {
        Seq::empty()
    };
    let start: usize = if i < n {
        i + 1
    } else {
        n
    };
    let mut j: usize = start;
    while j < n
        invariant
            n == text@.len(),
            start <= j <= n,
            i == point,
            point == find_byte(text@, POINT, 0),
            start == if i < n {
                i + 1
            } else {
                n as int
            },
            frac == if point < n {
                text@.subrange(point + 1, n as int)
            } else {
                Seq::<u8>::empty()
            },
            all_digits(frac.take(j - start)),
        decreases n - j,
    {
        let b: u8 = text[j];
        proof {
            assert(frac[j - start] == b);
        }
        if b < 48 || b > 57 {
            assert(!is_digit(frac[j - start]));
            return None;
        }
        j = j + 1;
    }
    proof {
        assert(frac.take(j - start) =~= frac);
        assert(frac.len() == n - start);
    }
    if i == 0 && start == n {
        return None;
    }
    let mut part: u64 = 0;
    if start < n {
        assert(is_digit(frac[0]));
        part = part + ((text[start] - ZERO) as u64) * 100;
    }
    if start < n && 1 < n - start {
        assert(is_digit(frac[1]));
        part = part + ((text[start + 1] - ZERO) as u64) * 10;
    }
    if start < n && 2 < n - start {
        assert(is_digit(frac[2]));
        part = part + (text[start + 2] - ZERO) as u64;
    }
    assert(part == thousandths_of(frac));
    if acc > (u64::MAX - part) / 1000 {
        return None;
    }
    Some(acc * 1000 + part)
}

/// The first place where `s` holds `b`, or the length of `s`.
fn position_of(s: &[u8], b: u8) -> (at: usize)
    ensures
        at == find_byte(s@, b, 0),
        at <= s@.len(),
{
    let n: usize = s.len();
    let mut i: usize = 0;
    while i < n && s[i] != b
        invariant
            n == s@.len(),
            i <= n,
            find_byte(s@, b, 0) == find_byte(s@, b, i as int),
        decreases n - i,
    {
        i = i + 1;
    }
    i
}

/// The first place where `s` holds white space, or the length of `s`.
fn position_of_space(s: &[u8]) -> (at: usize)
    ensures
        at == find_space(s@, 0),
        at <= s@.len(),
{
    let n: usize = s.len();
    let mut i: usize = 0;
    while i < n && !(s[i] == 32 || (9 <= s[i] && s[i] <= 13))
        invariant
            n == s@.len(),
            i <= n,
            find_space(s@, 0) == find_space(s@, i as int),
        decreases n - i,
    {
        i = i + 1;
    }
    i
}

/// The first place where the mark stands in `line`.
fn position_of_mark(line: &[u8]) -> (at: Option<usize>)
    ensures
        match at {
            Some(i) => find_mark(line@, 0) == Some(i as int) && i + MARK_LEN <= line@.len(),
            None => find_mark(line@, 0).is_none(),
        },
{
    let n: usize = line.len();
    let mut i: usize = 0;
    while i < n && MARK_LEN <= n - i
        invariant
            n == line@.len(),
            i <= n,
            find_mark(line@, 0) == find_mark(line@, i as int),
        decreases n - i,
    {
        let here: bool = line[i] == 116 && line[i + 1] == 105 && line[i + 2] == 109 && line[i + 3]
            == 101 && line[i + 4] == 61;
        proof {
            let found = line@.subrange(i as int, i + MARK_LEN);
            if here {
                assert(found =~= mark());
            } else {
                assert(found[0] == line@[i as int]);
                assert(found[1] == line@[i + 1]);
                assert(found[2] == line@[i + 2]);
                assert(found[3] == line@[i + 3]);
                assert(found[4] == line@[i + 4]);
                assert(found != mark());
            }
        }
        if here {
            return Some(i);
        }
        i = i + 1;
    }
    None
}

/// Reads the round-trip time that one line reports.
pub fn parse_line(line: &[u8]) -> (rtt: Option<u64>)
    ensures
        rtt == rtt_in_line(line@),
{
    let n: usize = line.len();
    match position_of_mark(line) {
        None => None,
        Some(at) => {
            let rest = slice_subrange(line, at + MARK_LEN, n);
            let end: usize = position_of_space(rest);
            parse_micros(slice_subrange(rest, 0, end))
        },
    }
}

/// Reads the round-trip time that a report gives, in microseconds: that of
/// the first line which reports one.
pub fn parse_rtt(text: &[u8]) -> (rtt: Option<u64>)
    ensures
        rtt == rtt_in_text(text@),
{
    let n: usize = text.len();
    let mut start: usize = 0;
    proof {
        assert(text@.subrange(0, n as int) =~= text@);
    }
    loop
        invariant
            n == text@.len(),
            start <= n,
            rtt_in_text(text@) == rtt_in_text(text@.subrange(start as int, n as int)),
        decreases n - start,
    {
        let rest = slice_subrange(text, start, n);
        let end: usize = position_of(rest, LINE_FEED);
        let found = parse_line(slice_subrange(rest, 0, end));
        if found.is_some() {
            return found;
        }
        if end >= n - start {
            return None;
        }
        proof {
            assert(rest@.subrange(end + 1, rest@.len() as int) =~= text@.subrange(
                start + end + 1,
                n as int,
            ));
        }
        start = start + end + 1;
    }
}

} // verus!
