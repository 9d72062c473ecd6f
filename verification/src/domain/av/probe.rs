//! Reading what the probe prints: the `pts_time=` entries of its frame
//! listing, and plain times in seconds.
//!
//! A time is one or more decimal digits, a point, and one or more decimal
//! digits. It is read as microseconds; digits past the sixth decimal are
//! dropped.

use vstd::prelude::*;
use vstd::slice::slice_subrange;

verus! {

/// What stands at a position where a time is looked for.
#[derive(Debug, Clone, Copy, PartialEq, Eq, Structural)]
pub enum NumberMatch {
    /// No time starts here.
    NoMatch,
    /// A time starts here, and it is more microseconds than a `u64` holds.
    TooLarge,
    /// A time of this many microseconds starts here.
    Micros(u64),
}

/// Whether `b` is an ASCII decimal digit.
pub open spec fn is_digit(b: u8) -> bool {
    48 <= b && b <= 57
}

/// The end of the run of digits that starts at `from`.
pub open spec fn digits_end(s: Seq<u8>, from: int) -> int
    decreases s.len() - from,
{
    if 0 <= from < s.len() && is_digit(s[from]) {
        digits_end(s, from + 1)
    } else {
        from
    }
}

/// The number that the digits `s` write in base ten.
pub open spec fn digits_value(s: Seq<u8>) -> nat
    decreases s.len(),
{
    if s.len() == 0 {
        0
    } else {
        digits_value(s.drop_last()) * 10 + (s.last() - 48) as nat
    }
}

/// The digit at `i` of `s`, zero past its end.
pub open spec fn digit_or_zero(s: Seq<u8>, i: int) -> nat {
    if 0 <= i < s.len() {
        (s[i] - 48) as nat
    } else {
        0
    }
}

/// The millionths that the decimals `s` stand for, digits past the sixth
/// dropped.
pub open spec fn fraction_micros(s: Seq<u8>) -> nat {
    digit_or_zero(s, 0) * 100000 + digit_or_zero(s, 1) * 10000 + digit_or_zero(s, 2) * 1000
        + digit_or_zero(s, 3) * 100 + digit_or_zero(s, 4) * 10 + digit_or_zero(s, 5)
}

/// Whether a time starts at `p`: digits, a point, digits.
pub open spec fn number_at(s: Seq<u8>, p: int) -> bool {
    let point = digits_end(s, p);
    &&& 0 <= p < point < s.len()
    &&& s[point] == 46
    &&& digits_end(s, point + 1) > point + 1
}

/// The microseconds of the time that starts at `p`.
pub open spec fn number_micros(s: Seq<u8>, p: int) -> nat {
    let point = digits_end(s, p);
    let end = digits_end(s, point + 1);
    digits_value(s.subrange(p, point)) * 1000000 + fraction_micros(s.subrange(point + 1, end))
}

/// What stands at `p` of `s`, as a `NumberMatch`.
pub open spec fn match_at(s: Seq<u8>, p: int) -> NumberMatch {
    if !number_at(s, p) {
        NumberMatch::NoMatch
    } else if number_micros(s, p) > u64::MAX {
        NumberMatch::TooLarge
    } else {
        NumberMatch::Micros(number_micros(s, p) as u64)
    }
}

/// The bytes of `pts_time=`.
pub open spec fn pts_tag() -> Seq<u8> {
    seq![112u8, 116u8, 115u8, 95u8, 116u8, 105u8, 109u8, 101u8, 61u8]
}

/// Whether `pts_time=` and a time stand at `p` of `line`.
pub open spec fn tagged_at(line: Seq<u8>, p: int) -> bool {
    &&& 0 <= p
    &&& p + 9 <= line.len()
    &&& line.subrange(p, p + 9) == pts_tag()
    &&& number_at(line, p + 9)
}

/// The leftmost position at or after `from` where `pts_time=` and a time
/// stand.
pub open spec fn first_tagged(line: Seq<u8>, from: int) -> Option<int>
    decreases line.len() - from,
{
    if from < 0 || from + 9 > line.len() {
        None
    } else if tagged_at(line, from) {
        Some(from)
    } else {
        first_tagged(line, from + 1)
    }
}

/// The time of the first `pts_time=` entry of `line`, where it has one that
/// fits a `u64`.
pub open spec fn line_time(line: Seq<u8>) -> Option<u64> {
    match first_tagged(line, 0) {
        Some(p) => match match_at(line, p + 9) {
            NumberMatch::Micros(t) => Some(t),
            _ => None,
        },
        None => None,
    }
}

/// The end of the line that starts at `from`: the next line feed, or the
/// end of `s`.
pub open spec fn line_end(s: Seq<u8>, from: int) -> int
    decreases s.len() - from,
{
    if 0 <= from < s.len() && s[from] != 10 {
        line_end(s, from + 1)
    } else {
        from
    }
}

/// The times of the lines of `s` from `from` on: of each line the first
/// `pts_time=` entry, in order.
pub open spec fn keyframe_times(s: Seq<u8>, from: int) -> Seq<u64>
    decreases s.len() - from,
{
    if from < 0 || from >= s.len() {
        Seq::empty()
    } else {
        let end = line_end(s, from);
        let rest = if from <= end < s.len() {
            keyframe_times(s, end + 1)
        } else {
            Seq::empty()
        };
        match line_time(s.subrange(from, end)) {
            Some(t) => seq![t] + rest,
            None => rest,
        }
    }
}

/// Whether only line breaks follow from `from` on.
pub open spec fn only_line_breaks(s: Seq<u8>, from: int) -> bool {
    forall|i: int| from <= i < s.len() ==> s[i] == 10 || s[i] == 13
}

/// The time that `s` holds: one that starts at its first byte and is
/// followed by line breaks only, where it fits a `u64`.
pub open spec fn seconds_of(s: Seq<u8>) -> Option<u64> {
    match match_at(s, 0) {
        NumberMatch::Micros(t) => if only_line_breaks(
            s,
            digits_end(s, digits_end(s, 0) + 1),
        ) {
            Some(t)
        } else {
            None
        },
        _ => None,
    }
}

proof fn lemma_value_grows(s: Seq<u8>, a: int, b: int, c: int)
    requires
        0 <= a <= b <= c <= s.len(),
        forall|k: int| a <= k < c ==> is_digit(s[k]),
    ensures
        digits_value(s.subrange(a, b)) <= digits_value(s.subrange(a, c)),
    decreases c - b,
{
    if b < c {
        lemma_value_grows(s, a, b, c - 1);
        assert(s.subrange(a, c).drop_last() =~= s.subrange(a, c - 1));
    }
}

/// The end of the run of digits that starts at `from`.
fn scan_digits(s: &[u8], from: usize) -> (end: usize)
    requires
        from <= s@.len(),
    ensures
        end == digits_end(s@, from as int),
        from <= end <= s@.len(),
        forall|k: int| from <= k < end ==> is_digit(s@[k]),
{
    let len: usize = s.len();
    let mut i: usize = from;
    while i < len && 48 <= s[i] && s[i] <= 57
        invariant
            len == s@.len(),
            from <= i <= len,
            digits_end(s@, from as int) == digits_end(s@, i as int),
            forall|k: int| from <= k < i ==> is_digit(s@[k]),
        decreases len - i,
    {
        i = i + 1;
    }
    i
}

/// The number that the digits `from..to` of `s` write, where a `u64`
/// holds it.
fn whole_value(s: &[u8], from: usize, to: usize) -> (value: Option<u64>)
    requires
        from <= to <= s@.len(),
        forall|k: int| from <= k < to ==> is_digit(s@[k]),
    ensures
        match value {
            Some(v) => v == digits_value(s@.subrange(from as int, to as int)),
            None => digits_value(s@.subrange(from as int, to as int)) > u64::MAX,
        },
{
    let mut acc: u64 = 0;
    let mut i: usize = from;
    assert(s@.subrange(from as int, from as int) =~= Seq::<u8>::empty());
    while i < to
        invariant
            from <= i <= to,
            to <= s@.len(),
            forall|k: int| from <= k < to ==> is_digit(s@[k]),
            acc == digits_value(s@.subrange(from as int, i as int)),
        decreases to - i,
    {
        let d: u64 = (s[i] - 48) as u64;
        proof {
            assert(s@.subrange(from as int, i + 1).drop_last() =~= s@.subrange(
                from as int,
                i as int,
            ));
            lemma_value_grows(s@, from as int, i + 1, to as int);
        }
        if acc > (u64::MAX - d) / 10 {
            return None;
        }
        acc = acc * 10 + d;
        i = i + 1;
    }
    Some(acc)
}

/// The digit at offset `i` of the digits `start..end`, zero past their
/// end.
fn digit_before(s: &[u8], i: usize, start: usize, end: usize) -> (d: u64)
    requires
        start <= end <= s@.len(),
        forall|k: int| start <= k < end ==> is_digit(s@[k]),
    ensures
        d == digit_or_zero(s@.subrange(start as int, end as int), i as int),
        d <= 9,
{
    if i < end - start {
        (s[start + i] - 48) as u64
    } else {
        0
    }
}

/// What stands at `p` of `s`: a time, in microseconds, or none.
pub fn match_number(s: &[u8], p: usize) -> (m: NumberMatch)
    requires
        p <= s@.len(),
    ensures
        m == match_at(s@, p as int),
{
    let len: usize = s.len();
    let point: usize = scan_digits(s, p);
    if point == p || point >= len || s[point] != 46 {
        return NumberMatch::NoMatch;
    }
    let end: usize = scan_digits(s, point + 1);
    if end == point + 1 {
        return NumberMatch::NoMatch;
    }
    let start: usize = point + 1;
    let d0: u64 = digit_before(s, 0, start, end);
    let d1: u64 = digit_before(s, 1, start, end);
    let d2: u64 = digit_before(s, 2, start, end);
    let d3: u64 = digit_before(s, 3, start, end);
    let d4: u64 = digit_before(s, 4, start, end);
    let d5: u64 = digit_before(s, 5, start, end);
    let fraction: u64 = d0 * 100000 + d1 * 10000 + d2 * 1000 + d3 * 100 + d4 * 10 + d5;
    match whole_value(s, p, point) {
        Some(whole) => {
            if whole > (u64::MAX - fraction) / 1000000 {
                assert(whole * 1000000 + fraction > u64::MAX) by (nonlinear_arith)
                    requires
                        whole > (u64::MAX - fraction) / 1000000,
                        fraction <= u64::MAX,
                ;
                NumberMatch::TooLarge
            } else {
                assert(whole * 1000000 + fraction <= u64::MAX) by (nonlinear_arith)
                    requires
                        whole <= (u64::MAX - fraction) / 1000000,
                        fraction <= u64::MAX,
                ;
                NumberMatch::Micros(whole * 1000000 + fraction)
            }
        },
        None => {
            assert(digits_value(s@.subrange(p as int, point as int)) * 1000000 > u64::MAX)
                by (nonlinear_arith)
                requires
                    digits_value(s@.subrange(p as int, point as int)) > u64::MAX,
            ;
            NumberMatch::TooLarge
        },
    }
}

/// Whether `pts_time=` stands at `p` of `line`.
fn has_tag(line: &[u8], p: usize) -> (yes: bool)
    requires
        p + 9 <= line@.len(),
    ensures
        yes == (line@.subrange(p as int, p + 9) == pts_tag()),
{
    let len: usize = line.len();
    let yes = line[p] == 112 && line[p + 1] == 116 && line[p + 2] == 115 && line[p + 3] == 95
        && line[p + 4] == 116 && line[p + 5] == 105 && line[p + 6] == 109 && line[p + 7] == 101
        && line[p + 8] == 61;
    proof {
        let t = line@.subrange(p as int, p + 9);
        if yes {
            assert(t =~= pts_tag());
        } else {
            assert(t[0] == line@[p as int]);
            assert(t[1] == line@[p + 1]);
            assert(t[2] == line@[p + 2]);
            assert(t[3] == line@[p + 3]);
            assert(t[4] == line@[p + 4]);
            assert(t[5] == line@[p + 5]);
            assert(t[6] == line@[p + 6]);
            assert(t[7] == line@[p + 7]);
            assert(t[8] == line@[p + 8]);
            assert(pts_tag()[0] == 112 && pts_tag()[1] == 116 && pts_tag()[2] == 115
                && pts_tag()[3] == 95 && pts_tag()[4] == 116 && pts_tag()[5] == 105
                && pts_tag()[6] == 109 && pts_tag()[7] == 101 && pts_tag()[8] == 61);
        }
    }
    yes
}

/// The time of the first `pts_time=` entry of `line`.
pub fn first_keyframe_time(line: &[u8]) -> (time: Option<u64>)
    ensures
        time == line_time(line@),
{
    let len: usize = line.len();
    if len < 9 {
        return None;
    }
    let mut p: usize = 0;
    while p <= len - 9
        invariant
            len == line@.len(),
            len >= 9,
            p <= len - 9 + 1,
            first_tagged(line@, 0) == first_tagged(line@, p as int),
        decreases len - p,
    {
        if has_tag(line, p) {
            match match_number(line, p + 9) {
                NumberMatch::Micros(t) => {
                    return Some(t);
                },
                NumberMatch::TooLarge => {
                    return None;
                },
                NumberMatch::NoMatch => {},
            }
        }
        p = p + 1;
    }
    None
}

/// The keyframe times in the probe's frame listing `output`: of each line
/// the first `pts_time=` entry, in the order of the lines.
pub fn get_segments(output: &[u8]) -> (times: Vec<u64>)
    ensures
        times@ == keyframe_times(output@, 0),
{
    let len: usize = output.len();
    let mut times: Vec<u64> = Vec::new();
    let mut from: usize = 0;
    assert(times@ + keyframe_times(output@, 0) =~= keyframe_times(output@, 0));
    while from < len
        invariant
            len == output@.len(),
            from <= len,
            times@ + keyframe_times(output@, from as int) == keyframe_times(output@, 0),
        decreases len - from,
    {
        let mut end: usize = from;
        while end < len && output[end] != 10
            invariant
                len == output@.len(),
                from <= end <= len,
                line_end(output@, from as int) == line_end(output@, end as int),
            decreases len - end,
        {
            end = end + 1;
        }
        let line = slice_subrange(output, from, end);
        let ghost before = times@;
        match first_keyframe_time(line) {
            Some(t) => {
                times.push(t);
            },
            None => {},
        }
        if end == len {
            proof {
                assert(times@ =~= before + keyframe_times(output@, from as int));
                assert(times@ + keyframe_times(output@, len as int) =~= times@);
            }
            from = len;
        } else {
            proof {
                assert(times@ + keyframe_times(output@, end + 1) =~= before + keyframe_times(
                    output@,
                    from as int,
                ));
            }
            from = end + 1;
        }
    }
    assert(times@ + keyframe_times(output@, from as int) =~= times@);
    times
}

/// The time that `text` holds: one that starts at its first byte and is
/// followed by line breaks only.
pub fn parse_seconds(text: &[u8]) -> (time: Option<u64>)
    ensures
        time == seconds_of(text@),
{
    let len: usize = text.len();
    match match_number(text, 0) {
        NumberMatch::Micros(t) => {
            let point: usize = scan_digits(text, 0);
            let end: usize = scan_digits(text, point + 1);
            let mut i: usize = end;
            while i < len
                invariant
                    len == text@.len(),
                    end <= i <= len,
                    end == digits_end(text@, digits_end(text@, 0) + 1),
                    match_at(text@, 0) == NumberMatch::Micros(t),
                    forall|k: int| end <= k < i ==> text@[k] == 10 || text@[k] == 13,
                decreases len - i,
            {
                if text[i] != 10 && text[i] != 13 {
                    assert(!only_line_breaks(text@, end as int)) by {
                        assert(end <= i < text@.len() && !(text@[i as int] == 10 || text@[i as int]
                            == 13));
                    }
                    return None;
                }
                i = i + 1;
            }
            Some(t)
        },
        _ => None,
    }
}

} // verus!
