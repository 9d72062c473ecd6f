//! Decimal rendering of integers and of microsecond times as text.

use vstd::prelude::*;
use vstd::string::*;

verus! {

/// Microseconds in one second.
pub const MICROS_PER_SECOND: u64 = 1_000_000;

/// The character of one decimal digit.
pub open spec fn digit_char(d: nat) -> char {
    if d == 0 {
        '0'
    } else if d == 1 {
        '1'
    } else if d == 2 {
        '2'
    } else if d == 3 {
        '3'
    } else if d == 4 {
        '4'
    } else if d == 5 {
        '5'
    } else if d == 6 {
        '6'
    } else if d == 7 {
        '7'
    } else if d == 8 {
        '8'
    } else {
        '9'
    }
}

/// The decimal numeral of `n`, without leading zeros (`"0"` for zero).
pub open spec fn decimal(n: nat) -> Seq<char>
    decreases n,
{
    if n < 10 {
        seq![digit_char(n)]
    } else {
        decimal(n / 10).push(digit_char(n % 10))
    }
}

/// The six digits of a fraction counted in millionths, leading zeros kept.
pub open spec fn six_digits(r: nat) -> Seq<char> {
    seq![
        digit_char((r / 100000) % 10),
        digit_char((r / 10000) % 10),
        digit_char((r / 1000) % 10),
        digit_char((r / 100) % 10),
        digit_char((r / 10) % 10),
        digit_char(r % 10),
    ]
}

/// A time in microseconds written as seconds with exactly six decimals.
pub open spec fn fixed6(micros: nat) -> Seq<char> {
    decimal(micros / 1000000).push('.') + six_digits(micros % 1000000)
}

/// The one-character text of a decimal digit.
pub fn digit_str(d: u64) -> (s: &'static str)
    requires
        d < 10,
    ensures
        s@ == seq![digit_char(d as nat)],
{
    proof {
        reveal_strlit("0");
        reveal_strlit("1");
        reveal_strlit("2");
        reveal_strlit("3");
        reveal_strlit("4");
        reveal_strlit("5");
        reveal_strlit("6");
        reveal_strlit("7");
        reveal_strlit("8");
        reveal_strlit("9");
    }
    let s: &'static str = if d == 0 {
        "0"
    } else if d == 1 {
        "1"
    } else if d == 2 {
        "2"
    } else if d == 3 {
        "3"
    } else if d == 4 {
        "4"
    } else if d == 5 {
        "5"
    } else if d == 6 {
        "6"
    } else if d == 7 {
        "7"
    } else if d == 8 {
        "8"
    } else {
        "9"
    };
    assert(s@ =~= seq![digit_char(d as nat)]);
    s
}

/// Appends the decimal numeral of `n` to `out`.
pub fn push_decimal(out: &mut String, n: u64)
    ensures
        final(out)@ == old(out)@ + decimal(n as nat),
    decreases n,
{
    if n >= 10 {
        push_decimal(out, n / 10);
    }
    out.append(digit_str(n % 10));
    proof {
        if n >= 10 {
            assert(final(out)@ =~= old(out)@ + decimal(n as nat));
        } else {
            assert(final(out)@ =~= old(out)@ + decimal(n as nat));
        }
    }
}

/// Appends `micros` as seconds with six decimals to `out`.
pub fn push_fixed6(out: &mut String, micros: u64)
    ensures
        final(out)@ == old(out)@ + fixed6(micros as nat),
{
    let whole: u64 = micros / MICROS_PER_SECOND;
    let r: u64 = micros % MICROS_PER_SECOND;
    push_decimal(out, whole);
    out.append(".");
    out.append(digit_str((r / 100000) % 10));
    out.append(digit_str((r / 10000) % 10));
    out.append(digit_str((r / 1000) % 10));
    out.append(digit_str((r / 100) % 10));
    out.append(digit_str((r / 10) % 10));
    out.append(digit_str(r % 10));
    proof {
        reveal_strlit(".");
        assert("."@ =~= seq!['.']);
        assert(final(out)@ =~= old(out)@ + fixed6(micros as nat));
    }
}

/// The decimal numeral of `n` as a fresh string.
pub fn decimal_string(n: u64) -> (s: String)
    ensures
        s@ == decimal(n as nat),
{
    let mut s = String::new();
    push_decimal(&mut s, n);
    assert(s@ =~= decimal(n as nat));
    s
}

/// A decimal numeral has at least one digit, and at least two from ten on.
pub proof fn lemma_decimal_len(n: nat)
    ensures
        decimal(n).len() >= 1,
        n >= 10 ==> decimal(n).len() >= 2,
    decreases n,
{
    if n >= 10 {
        lemma_decimal_len(n / 10);
    }
}

/// Different numbers have different decimal numerals.
pub proof fn lemma_decimal_injective(a: nat, b: nat)
    requires
        decimal(a) == decimal(b),
    ensures
        a == b,
    decreases a,
{
    lemma_decimal_len(a);
    lemma_decimal_len(b);
    if a < 10 && b < 10 {
        assert(decimal(a)[0] == digit_char(a));
        assert(decimal(b)[0] == digit_char(b));
    } else if a >= 10 && b >= 10 {
        let da = decimal(a / 10);
        let db = decimal(b / 10);
        assert(decimal(a).last() == digit_char(a % 10));
        assert(decimal(b).last() == digit_char(b % 10));
        assert(decimal(a).drop_last() =~= da);
        assert(decimal(b).drop_last() =~= db);
        lemma_decimal_injective(a / 10, b / 10);
    } else {
        assert(decimal(a).len() != decimal(b).len());
    }
}

} // verus!
