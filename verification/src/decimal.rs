//! Decimal text of integers and of fixed-point numbers, as ASCII bytes.

use vstd::prelude::*;

verus! {

/// The ASCII byte of one decimal digit.
pub open spec fn digit(d: int) -> u8
    recommends
        0 <= d < 10,
{
    (48 + d) as u8
}

/// The digits of `n` without leading zeros; the single digit `0` for zero.
pub open spec fn digits(n: nat) -> Seq<u8>
    decreases n,
{
    if n < 10 {
        seq![digit(n as int)]
    } else {
        digits(n / 10).push(digit((n % 10) as int))
    }
}

/// The lowest `width` digits of `n`, zeros included.
pub open spec fn padded(n: nat, width: nat) -> Seq<u8>
    decreases width,
{
    if width == 0 {
        Seq::empty()
    } else {
        padded(n / 10, (width - 1) as nat).push(digit((n % 10) as int))
    }
}

/// Ten to the power `e`.
pub open spec fn pow10(e: nat) -> nat
    decreases e,
{
    if e == 0 {
        1
    } else {
        10 * pow10((e - 1) as nat)
    }
}

/// The absolute value of `v`.
pub open spec fn magnitude(v: int) -> nat {
    if v < 0 {
        (-v) as nat
    } else {
        v as nat
    }
}

/// A minus sign for a negative number, nothing otherwise.
pub open spec fn sign(v: int) -> Seq<u8> {
    if v < 0 {
        seq![45u8]
    } else {
        Seq::empty()
    }
}

/// The text of the integer `v`: an optional minus sign and its digits.
pub open spec fn decimal(v: int) -> Seq<u8> {
    sign(v) + digits(magnitude(v))
}

/// The text of `v / 10^places` with exactly `places` digits behind the point.
pub open spec fn fixed(v: int, places: nat) -> Seq<u8> {
    sign(v) + digits(magnitude(v) / pow10(places)) + seq![46u8] + padded(
        magnitude(v) % pow10(places),
        places,
    )
}

/// The number that a run of ASCII digits spells.
pub open spec fn value_of(s: Seq<u8>) -> nat
    decreases s.len(),
{
    if s.len() == 0 {
        0
    } else {
        (value_of(s.drop_last()) * 10 + (s.last() - 48)) as nat
    }
}

/// Whether every byte of `s` is an ASCII digit.
pub open spec fn all_digits(s: Seq<u8>) -> bool {
    forall|i: int| 0 <= i < s.len() ==> 48 <= #[trigger] s[i] <= 57
}

/// `digits(n)` is made of digits only, is not empty, starts with a zero only
/// when `n` is a single digit, and spells `n`.
pub proof fn lemma_digits(n: nat)
    ensures
        all_digits(digits(n)),
        digits(n).len() >= 1,
        n >= 10 ==> digits(n)[0] != 48,
        value_of(digits(n)) == n,
    decreases n,
{
    if n < 10 {
        let s = digits(n);
        assert(s.drop_last() =~= Seq::<u8>::empty());
        assert(value_of(s.drop_last()) == 0);
    } else {
        lemma_digits(n / 10);
        let head = digits(n / 10);
        let s = digits(n);
        assert(s.drop_last() =~= head);
        assert(s[0] == head[0]);
        if n / 10 < 10 {
            assert(head[0] == digit((n / 10) as int));
        }
    }
}

/// `padded(n, width)` is made of `width` digits and spells `n` modulo
/// `10^width`.
pub proof fn lemma_padded(n: nat, width: nat)
    ensures
        all_digits(padded(n, width)),
        padded(n, width).len() == width,
        value_of(padded(n, width)) == n % pow10(width),
    decreases width,
{
    if width == 0 {
    } else {
        let w = (width - 1) as nat;
        lemma_padded(n / 10, w);
        let head = padded(n / 10, w);
        let s = padded(n, width);
        assert(s.drop_last() =~= head);
        lemma_pow10_positive(w);
        lemma_low_digits(n, pow10(w));
    }
}

/// Every power of ten is positive.
pub proof fn lemma_pow10_positive(e: nat)
    ensures
        pow10(e) > 0,
    decreases e,
{
    if e > 0 {
        lemma_pow10_positive((e - 1) as nat);
    }
}

/// Splitting off the last digit commutes with taking the low digits.
proof fn lemma_low_digits(n: nat, p: nat)
    requires
        p > 0,
    ensures
        ((n / 10) % p) * 10 + n % 10 == n % (10 * p),
{
    let q = n / 10;
    let r = (n % 10) as int;
    let q1 = q / p;
    let r1 = (q % p) as int;
    assert(q == p * q1 + r1) by {
        vstd::arithmetic::div_mod::lemma_fundamental_div_mod(q as int, p as int);
    }
    assert(n == 10 * q + r);
    assert(n == (10 * p) * q1 + (10 * r1 + r)) by (nonlinear_arith)
        requires
            n == 10 * q + r,
            q == p * q1 + r1,
    ;
    assert(0 <= 10 * r1 + r < 10 * p) by (nonlinear_arith)
        requires
            0 <= r1 < p,
            0 <= r < 10,
    ;
    vstd::arithmetic::div_mod::lemma_fundamental_div_mod_converse(
        n as int,
        (10 * p) as int,
        q1 as int,
        10 * r1 + r,
    );
}

/// The text of a fixed-point number denotes it exactly: the digits before
/// the point spell `q` and those behind it spell `r`, where
/// `|v| == q * 10^places + r` and `r < 10^places`.
pub proof fn lemma_fixed_is_exact(v: int, places: nat)
    ensures
        ({
            let q = magnitude(v) / pow10(places);
            let r = magnitude(v) % pow10(places);
            &&& fixed(v, places) == sign(v) + digits(q) + seq![46u8] + padded(r, places)
            &&& value_of(digits(q)) == q
            &&& value_of(padded(r, places)) == r
            &&& padded(r, places).len() == places
            &&& magnitude(v) == q * pow10(places) + r
            &&& r < pow10(places)
        }),
{
    let p = pow10(places);
    let m = magnitude(v);
    lemma_pow10_positive(places);
    lemma_digits(m / p);
    lemma_padded(m % p, places);
    vstd::arithmetic::div_mod::lemma_fundamental_div_mod(m as int, p as int);
    vstd::arithmetic::div_mod::lemma_mod_bound(m as int, p as int);
    vstd::arithmetic::div_mod::lemma_mod_twice(m as int, p as int);
    assert(m == (m / p) * p + m % p) by (nonlinear_arith)
        requires
            m == p * (m / p) + m % p,
    ;
}

/// A power of ten grows with its exponent.
pub proof fn lemma_pow10_monotonic(a: nat, b: nat)
    requires
        a <= b,
    ensures
        pow10(a) <= pow10(b),
    decreases b,
{
    if a < b {
        lemma_pow10_monotonic(a, (b - 1) as nat);
    }
}

/// The largest number of places that `push_fixed` takes: ten to that power
/// is the largest power of ten below the range of the numbers it renders.
pub const MAX_PLACES: u32 = 18;

/// Computes ten to the power `places`.
fn power_of_ten(places: u32) -> (p: u64)
    requires
        places <= MAX_PLACES,
    ensures
        p == pow10(places as nat),
{
    let mut p: u64 = 1;
    let mut i: u32 = 0;
    while i < places
        invariant
            i <= places <= MAX_PLACES,
            p == pow10(i as nat),
        decreases places - i,
    {
        proof {
            lemma_pow10_monotonic((i + 1) as nat, 18);
            assert(pow10(18) == 1_000_000_000_000_000_000) by {
                reveal_with_fuel(pow10, 19);
            }
        }
        p = p * 10;
        i = i + 1;
    }
    p
}

/// Appends the digits of `n`.
fn push_digits(out: &mut Vec<u8>, n: u64)
    ensures
        final(out)@ == old(out)@ + digits(n as nat),
    decreases n,
{
    if n >= 10 {
        push_digits(out, n / 10);
    }
    out.push(48 + (n % 10) as u8);
}

/// Appends the lowest `width` digits of `n`.
fn push_padded(out: &mut Vec<u8>, n: u64, width: u32)
    ensures
        final(out)@ == old(out)@ + padded(n as nat, width as nat),
    decreases width,
{
    if width > 0 {
        push_padded(out, n / 10, width - 1);
        out.push(48 + (n % 10) as u8);
    }
}

/// Appends the sign of `v` and hands back its absolute value.
fn push_sign(out: &mut Vec<u8>, v: i64) -> (m: u64)
    ensures
        final(out)@ == old(out)@ + sign(v as int),
        m == magnitude(v as int),
{
    if v < 0 {
        out.push(45);
        (-(v as i128)) as u64
    } else {
        v as u64
    }
}

/// Appends the decimal text of `v`.
pub fn push_decimal(out: &mut Vec<u8>, v: i64)
    ensures
        final(out)@ == old(out)@ + decimal(v as int),
{
    let m = push_sign(out, v);
    push_digits(out, m);
}

/// Appends the text of `v / 10^places`, with exactly `places` digits behind
/// the decimal point. `places` is at most `MAX_PLACES`.
pub fn push_fixed(out: &mut Vec<u8>, v: i64, places: u32)
    requires
        places <= MAX_PLACES,
    ensures
        final(out)@ == old(out)@ + fixed(v as int, places as nat),
{
    let scale = power_of_ten(places);
    proof {
        lemma_pow10_positive(places as nat);
    }
    let m = push_sign(out, v);
    push_digits(out, m / scale);
    out.push(46);
    push_padded(out, m % scale, places);
}

} // verus!
