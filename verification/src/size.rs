//! Byte counts as short texts in binary units.

use vstd::prelude::*;
use crate::text::{decimal, digit, push_decimal, digit_str};

verus! {

/// 1024 to the power `k`.
pub open spec fn pow1024(k: nat) -> nat
    decreases k,
{
    if k == 0 {
        1
    } else {
        1024 * pow1024((k - 1) as nat)
    }
}

/// How many times `x` is divided by 1024 before it is shown: as long as it is at
/// least 1024, and at most four times (terabytes).
pub open spec fn unit_index(x: nat) -> nat {
    if x >= pow1024(4) {
        4
    } else if x >= pow1024(3) {
        3
    } else if x >= pow1024(2) {
        2
    } else if x >= pow1024(1) {
        1
    } else {
        0
    }
}

/// The name of the unit of index `i`.
pub open spec fn unit_name(i: nat) -> Seq<char> {
    if i == 0 {
        seq!['B']
    } else if i == 1 {
        seq!['K', 'B']
    } else if i == 2 {
        seq!['M', 'B']
    } else if i == 3 {
        seq!['G', 'B']
    } else {
        seq!['T', 'B']
    }
}

/// `n / d` rounded to the nearest integer, ties to the even one.
pub open spec fn round_half_even(n: nat, d: nat) -> nat
    recommends
        d > 0,
{
    let q = n / d;
    let r = n % d;
    if 2 * r > d || (2 * r == d && q % 2 == 1) {
        q + 1
    } else {
        q
    }
}

/// The number `t / 10` written with one decimal place.
pub open spec fn tenths_text(t: nat) -> Seq<char> {
    decimal(t / 10) + seq!['.', digit(t % 10)]
}

/// `bytes` in the largest binary unit up to TB that keeps the number at least 1,
/// rounded to one decimal, with a minus sign when negative: 1536 is "1.5 KB".
pub open spec fn human_text(bytes: int) -> Seq<char> {
    let x: nat = if bytes < 0 { (-bytes) as nat } else { bytes as nat };
    let i = unit_index(x);
    let sign: Seq<char> = if bytes < 0 { seq!['-'] } else { Seq::empty() };
    sign + tenths_text(round_half_even(10 * x, pow1024(i))) + seq![' '] + unit_name(i)
}

/// `bytes` in gigabytes (2^30 bytes) with one decimal: 1610612736 is "1.5 GB".
pub open spec fn gb_text(bytes: nat) -> Seq<char> {
    tenths_text(round_half_even(10 * bytes, pow1024(3))) + seq![' ', 'G', 'B']
}

proof fn lemma_pow1024_values()
    ensures
        pow1024(0) == 1,
        pow1024(1) == 1024,
        pow1024(2) == 1048576,
        pow1024(3) == 1073741824,
        pow1024(4) == 1099511627776,
{
    reveal_with_fuel(pow1024, 5);
}

/// `n / d` rounded half to even.
fn div_round_half_even(n: u128, d: u128) -> (r: u128)
    requires
        d > 0,
        d <= u64::MAX,
        n <= u64::MAX as u128 * 10,
    ensures
        r as nat == round_half_even(n as nat, d as nat),
        r <= u64::MAX as u128 * 10 + 1,
{
    assert(n / d <= n) by (nonlinear_arith)
        requires
            d > 0,
    ;
    let q = n / d;
    let rem = n % d;
    if 2 * rem > d || (2 * rem == d && q % 2 == 1) {
        q + 1
    } else {
        q
    }
}

/// Appends the number `t / 10` with one decimal place.
fn push_tenths(out: &mut String, t: u128)
    requires
        t <= u64::MAX as u128 * 10 + 1,
    ensures
        final(out)@ == old(out)@ + tenths_text(t as nat),
{
    push_decimal(out, (t / 10) as u64);
    out.append(".");
    proof { reveal_strlit("."); }
    out.append(digit_str((t % 10) as u64));
    assert(final(out)@ =~= old(out)@ + tenths_text(t as nat));
}

/// The literal text of the unit of index `i`.
fn unit_str(i: u64) -> (r: &'static str)
    requires
        i <= 4,
    ensures
        r@ == unit_name(i as nat),
{
    if i == 0 {
        proof { reveal_strlit("B"); }
        "B"
    } else if i == 1 {
        proof { reveal_strlit("KB"); }
        "KB"
    } else if i == 2 {
        proof { reveal_strlit("MB"); }
        "MB"
    } else if i == 3 {
        proof { reveal_strlit("GB"); }
        "GB"
    } else {
        proof { reveal_strlit("TB"); }
        "TB"
    }
}

/// `bytes` as a short text in binary units (see `human_text`).
pub fn human(bytes: i64) -> (r: String)
    ensures
        r@ == human_text(bytes as int),
{
    proof { lemma_pow1024_values(); }
    let x: u64 = if bytes < 0 {
        if bytes == i64::MIN { 9223372036854775808u64 } else { (-bytes) as u64 }
    } else {
        bytes as u64
    };
    let (i, d): (u64, u64) = if x >= 1099511627776 {
        (4, 1099511627776)
    } else if x >= 1073741824 {
        (3, 1073741824)
    } else if x >= 1048576 {
        (2, 1048576)
    } else if x >= 1024 {
        (1, 1024)
    } else {
        (0, 1)
    };
    assert(d as nat == pow1024(unit_index(x as nat)) && i as nat == unit_index(x as nat));
    let t = div_round_half_even(x as u128 * 10, d as u128);
    let mut out = if bytes < 0 {
        proof { reveal_strlit("-"); }
        String::from_str("-")
    } else {
        String::new()
    };
    push_tenths(&mut out, t);
    out.append(" ");
    proof { reveal_strlit(" "); }
    out.append(unit_str(i));
    assert(out@ =~= human_text(bytes as int));
    out
}

/// `bytes` in gigabytes with one decimal (see `gb_text`).
pub fn mb(bytes: u64) -> (r: String)
    ensures
        r@ == gb_text(bytes as nat),
{
    proof { lemma_pow1024_values(); }
    let t = div_round_half_even(bytes as u128 * 10, 1073741824);
    let mut out = String::new();
    push_tenths(&mut out, t);
    out.append(" GB");
    proof { reveal_strlit(" GB"); }
    assert(out@ =~= gb_text(bytes as nat));
    out
}

} // verus!
