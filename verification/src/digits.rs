//! Decimal text of integers, as a mathematical model.

use vstd::prelude::*;

verus! {

/// ASCII code of `-`.
pub const MINUS: u8 = 45;

/// ASCII code of `0`.
pub const ZERO: u8 = 48;

/// Whether `b` is the ASCII code of a decimal digit.
pub open spec fn is_digit(b: u8) -> bool {
    48 <= b <= 57
}

/// The canonical base-10 text of `n`: most significant digit first, no leading
/// zero but for `0` itself.
pub open spec fn decimal(n: nat) -> Seq<u8>
    decreases n,
{
    if n < 10 {
        seq![(48 + n) as u8]
    } else {
        decimal(n / 10).push((48 + n % 10) as u8)
    }
}

/// The absolute value of `x`.
pub open spec fn magnitude(x: int) -> nat {
    if x < 0 {
        (-x) as nat
    } else {
        x as nat
    }
}

/// The base-10 text of `x`, with one leading `-` when `x` is negative.
pub open spec fn signed_decimal(x: int) -> Seq<u8> {
    if x < 0 {
        seq![MINUS] + decimal(magnitude(x))
    } else {
        decimal(magnitude(x))
    }
}

/// The number that a string of decimal digits stands for.
pub open spec fn parse_decimal(s: Seq<u8>) -> nat
    decreases s.len(),
{
    if s.len() == 0 {
        0
    } else {
        parse_decimal(s.drop_last()) * 10 + (s.last() - 48) as nat
    }
}

/// The integer that an optional `-` followed by decimal digits stands for.
pub open spec fn parse_signed(s: Seq<u8>) -> int {
    if s.len() > 0 && s[0] == MINUS {
        -(parse_decimal(s.skip(1)) as int)
    } else {
        parse_decimal(s) as int
    }
}

/// Ten to the power `k`.
pub open spec fn pow10(k: nat) -> nat
    decreases k,
{
    if k == 0 {
        1
    } else {
        10 * pow10((k - 1) as nat)
    }
}

/// The text of a number is one digit or more, every byte of it a digit, and it
/// starts with `0` only for zero, whose text is `0` alone.
pub proof fn lemma_decimal_shape(n: nat)
    ensures
        decimal(n).len() >= 1,
        forall|i: int| 0 <= i < decimal(n).len() ==> is_digit(#[trigger] decimal(n)[i]),
        n == 0 ==> decimal(n) == seq![ZERO],
        n > 0 ==> decimal(n)[0] != ZERO,
    decreases n,
{
    if n >= 10 {
        lemma_decimal_shape(n / 10);
    }
}

/// Reading the text of a number gives the number back.
pub proof fn lemma_decimal_round_trip(n: nat)
    ensures
        parse_decimal(decimal(n)) == n,
    decreases n,
{
    if n < 10 {
        let s = decimal(n);
        assert(s.drop_last() =~= Seq::<u8>::empty());
        assert(parse_decimal(s.drop_last()) == 0);
    } else {
        lemma_decimal_round_trip(n / 10);
        let s = decimal(n);
        assert(s.drop_last() =~= decimal(n / 10));
    }
}

/// Reading the text of an integer gives the integer back; a negative one has
/// exactly one `-`, in front, and zero has none.
pub proof fn lemma_signed_round_trip(x: int)
    ensures
        parse_signed(signed_decimal(x)) == x,
        x < 0 ==> signed_decimal(x)[0] == MINUS && signed_decimal(x).skip(1) == decimal(
            magnitude(x),
        ),
        x >= 0 ==> signed_decimal(x) == decimal(magnitude(x)),
        x == 0 ==> signed_decimal(x) == seq![ZERO],
        forall|i: int|
            0 <= i < decimal(magnitude(x)).len() ==> is_digit(#[trigger] decimal(magnitude(x))[i]),
{
    let m = magnitude(x);
    lemma_decimal_shape(m);
    lemma_decimal_round_trip(m);
    if x < 0 {
        assert(signed_decimal(x).skip(1) =~= decimal(m));
    } else {
        assert(is_digit(decimal(m)[0]));
    }
}

/// A number is below ten to the `k` exactly when its text has at most `k`
/// digits.
pub proof fn lemma_decimal_len(n: nat, k: nat)
    requires
        k >= 1,
    ensures
        n < pow10(k) <==> decimal(n).len() <= k,
    decreases k,
{
    lemma_decimal_shape(n);
    reveal_with_fuel(pow10, 2);
    if n >= 10 {
        lemma_decimal_shape(n / 10);
        if k >= 2 {
            lemma_decimal_len(n / 10, (k - 1) as nat);
        }
    } else {
        lemma_pow10_grows(1, k);
    }
}

/// Ten to the `j` is at most ten to the `k` when `j` is at most `k`.
pub proof fn lemma_pow10_grows(j: nat, k: nat)
    requires
        j <= k,
    ensures
        1 <= pow10(j) <= pow10(k),
    decreases k,
{
    if k > 0 {
        if j < k {
            lemma_pow10_grows(j, (k - 1) as nat);
        } else {
            lemma_pow10_grows((j - 1) as nat, (k - 1) as nat);
        }
    }
}

} // verus!
