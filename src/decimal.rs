use vstd::prelude::*;

use crate::text::push_char;

verus! {

/// The character of the decimal digit `d`.
pub open spec fn digit_char(d: nat) -> char {
    ((d + 48) as u8) as char
}

/// The decimal digits of `n`, most significant first, without leading zeros.
pub open spec fn decimal(n: nat) -> Seq<char>
    decreases n,
{
    if n < 10 {
        seq![digit_char(n)]
    } else {
        decimal(n / 10).push(digit_char(n % 10))
    }
}

/// `n` written in decimal, with a minus sign when negative.
pub open spec fn signed_decimal(n: int) -> Seq<char> {
    if n < 0 {
        seq!['-'] + decimal((-n) as nat)
    } else {
        decimal(n as nat)
    }
}

fn digit(d: u64) -> (r: char)
    requires
        d < 10,
    ensures
        r == digit_char(d as nat),
{
    ((d as u8) + 48) as char
}

/// `n` written in decimal, with a minus sign when negative.
pub fn decimal_string(n: i32) -> (r: String)
    ensures
        r@ == signed_decimal(n as int),
{
    let magnitude: u64 = if n < 0 {
        (-(n as i64)) as u64
    } else {
        n as u64
    };
    let ghost m0 = magnitude as nat;
    let mut rest: u64 = magnitude;
    let mut tail: Vec<char> = Vec::new();
    while rest >= 10
        invariant
            decimal(m0) == decimal(rest as nat) + tail@,
        decreases rest,
    {
        let d = digit(rest % 10);
        let ghost before = tail@;
        tail.insert(0, d);
        assert(decimal(rest as nat) == decimal((rest / 10) as nat).push(d));
        assert(tail@ =~= seq![d] + before);
        assert(decimal((rest / 10) as nat) + tail@ =~= decimal((rest / 10) as nat).push(d)
            + before);
        rest = rest / 10;
    }
    let mut out = String::new();
    if n < 0 {
        push_char(&mut out, '-');
    }
    push_char(&mut out, digit(rest));
    let ghost head = out@;
    let mut j: usize = 0;
    while j < tail.len()
        invariant
            j <= tail@.len(),
            out@ == head + tail@.subrange(0, j as int),
        decreases tail@.len() - j,
    {
        push_char(&mut out, tail[j]);
        assert(tail@.subrange(0, j + 1) =~= tail@.subrange(0, j as int).push(tail@[j as int]));
        j = j + 1;
    }
    assert(tail@.subrange(0, j as int) =~= tail@);
    assert(decimal(rest as nat) == seq![digit_char(rest as nat)]);
    if n < 0 {
        assert(out@ =~= seq!['-'] + decimal(m0));
    } else {
        assert(out@ =~= decimal(m0));
    }
    out
}

} // verus!
