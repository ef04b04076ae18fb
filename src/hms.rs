//! Rendering a count of seconds as `HH:MM:SS`.
use vstd::prelude::*;
use vstd::string::*;

verus! {

/// The decimal digit for `d`, which is below ten.
pub open spec fn digit_char(d: nat) -> char {
    seq!['0', '1', '2', '3', '4', '5', '6', '7', '8', '9'][d as int]
}

/// The decimal numeral of `n`, most significant digit first, without leading zeros.
pub open spec fn decimal(n: nat) -> Seq<char>
    decreases n,
{
    if n < 10 {
        seq![digit_char(n)]
    } else {
        decimal(n / 10).push(digit_char(n % 10))
    }
}

/// The numeral of `n` padded with one zero to two digits; wider values keep every digit.
pub open spec fn padded(n: nat) -> Seq<char> {
    if n < 10 {
        seq!['0', digit_char(n)]
    } else {
        decimal(n)
    }
}

/// The text shown for `s` elapsed seconds: hours, minutes within the hour and
/// seconds within the minute, separated by colons.
pub open spec fn hms_text(s: nat) -> Seq<char> {
    padded(s / 3600) + seq![':'] + padded((s / 60) % 60) + seq![':'] + padded(s % 60)
}

/// The one-character string holding the digit `d`.
fn digit_str(d: u64) -> (r: &'static str)
    requires
        d < 10,
    ensures
        r@ == seq![digit_char(d as nat)],
{
    if d == 0 {
        proof { reveal_strlit("0"); }
        "0"
    } else if d == 1 {
        proof { reveal_strlit("1"); }
        "1"
    } else if d == 2 {
        proof { reveal_strlit("2"); }
        "2"
    } else if d == 3 {
        proof { reveal_strlit("3"); }
        "3"
    } else if d == 4 {
        proof { reveal_strlit("4"); }
        "4"
    } else if d == 5 {
        proof { reveal_strlit("5"); }
        "5"
    } else if d == 6 {
        proof { reveal_strlit("6"); }
        "6"
    } else if d == 7 {
        proof { reveal_strlit("7"); }
        "7"
    } else if d == 8 {
        proof { reveal_strlit("8"); }
        "8"
    } else {
        proof { reveal_strlit("9"); }
        "9"
    }
}

/// Appends the decimal numeral of `n` to `out`.
fn push_decimal(out: &mut String, n: u64)
    ensures
        final(out)@ == old(out)@ + decimal(n as nat),
    decreases n,
{
    if n >= 10 {
        push_decimal(out, n / 10);
    }
    out.append(digit_str(n % 10));
    assert(final(out)@ =~= old(out)@ + decimal(n as nat));
}

/// Appends `n` padded to at least two digits.
fn push_padded(out: &mut String, n: u64)
    ensures
        final(out)@ == old(out)@ + padded(n as nat),
{
    if n < 10 {
        out.append(digit_str(0));
    }
    push_decimal(out, n);
    assert(final(out)@ =~= old(out)@ + padded(n as nat));
}

/// Formats `seconds` as zero-padded `HH:MM:SS`; hours grow past two digits
/// rather than wrapping.
pub fn format_seconds(seconds: u64) -> (r: String)
    ensures
        r@ == hms_text(seconds as nat),
{
    let mut out = String::new();
    push_padded(&mut out, seconds / 3600);
    proof { reveal_strlit(":"); }
    out.append(":");
    push_padded(&mut out, (seconds / 60) % 60);
    out.append(":");
    push_padded(&mut out, seconds % 60);
    assert(out@ =~= hms_text(seconds as nat));
    out
}

/// Numerals of two-digit values have two characters, larger values more.
proof fn lemma_decimal_width(n: nat)
    ensures
        n >= 10 ==> decimal(n).len() >= 2,
        10 <= n < 100 ==> decimal(n).len() == 2,
        n >= 100 ==> decimal(n).len() >= 3,
    decreases n,
{
    if n >= 10 {
        lemma_decimal_width(n / 10);
        assert(decimal(n).len() == decimal(n / 10).len() + 1);
        assert(n >= 100 ==> n / 10 >= 10);
        assert(n < 100 ==> n / 10 < 10);
    }
}

/// The text is exactly eight characters wide below 100 hours; from 100 hours
/// on, the hours field widens and the text with it.
pub proof fn lemma_hms_width(s: nat)
    ensures
        s < 360000 ==> hms_text(s).len() == 8,
        s >= 360000 ==> hms_text(s).len() > 8,
{
    lemma_decimal_width(s / 3600);
    lemma_decimal_width((s / 60) % 60);
    lemma_decimal_width(s % 60);
    assert(s >= 360000 ==> s / 3600 >= 100);
    assert(s < 360000 ==> s / 3600 < 100);
}

} // verus!
