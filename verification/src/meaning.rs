//! What the text of a value stands for: the digits, read back as numbers.

use crate::digits::{
    decimal, is_digit, lemma_decimal_len, lemma_decimal_round_trip, lemma_decimal_shape,
    magnitude, parse_decimal, parse_signed, pow10, MINUS, ZERO,
};
use crate::number::{Fixed, U64_BASE};
use crate::pieces::{
    exponent_padding, exponent_pieces, fraction_pieces, minus, optional, padding, point, repeat,
    text, zero, zero_block,
};
use vstd::prelude::*;
use vstd::seq_lib::lemma_flatten_concat;

verus! {

/// `n` zeros.
pub open spec fn zeros(n: nat) -> Seq<u8> {
    Seq::new(n, |i: int| ZERO)
}

/// The text of pieces in a row is the text of the first, then the text of the
/// others.
pub proof fn lemma_text_of_two(first: Seq<Seq<u8>>, second: Seq<Seq<u8>>)
    ensures
        text(first + second) == text(first) + text(second),
{
    lemma_flatten_concat(first, second);
}

/// The text of one piece is the piece; the text of no piece is empty.
pub proof fn lemma_text_of_one(piece: Seq<u8>)
    ensures
        text(seq![piece]) == piece,
        text(Seq::<Seq<u8>>::empty()) == Seq::<u8>::empty(),
{
    let one = seq![piece];
    let none = Seq::<Seq<u8>>::empty();
    assert(text(none) =~= Seq::<u8>::empty());
    assert(one.drop_first() =~= none);
    assert(text(one) == one.first() + text(one.drop_first()));
    assert(text(one) =~= piece);
}

/// The text of a run of zero pieces is a run of zeros.
pub proof fn lemma_text_of_zeros(n: nat)
    ensures
        text(repeat(zero(), n)) == zeros(n),
        text(repeat(zero_block(), n)) == zeros(19 * n),
    decreases n,
{
    if n == 0 {
        assert(repeat(zero(), n) =~= Seq::<Seq<u8>>::empty());
        assert(repeat(zero_block(), n) =~= Seq::<Seq<u8>>::empty());
        assert(text(repeat(zero(), n)) =~= zeros(n));
        assert(text(repeat(zero_block(), n)) =~= zeros(19 * n));
    } else {
        let m = (n - 1) as nat;
        lemma_text_of_zeros(m);
        assert(repeat(zero(), n).drop_first() =~= repeat(zero(), m));
        assert(repeat(zero_block(), n).drop_first() =~= repeat(zero_block(), m));
        assert(text(repeat(zero(), n)) =~= zero() + zeros(m));
        assert(text(repeat(zero_block(), n)) =~= zero_block() + zeros(19 * m));
        assert(zero() + zeros(m) =~= zeros(n));
        assert(zero_block() + zeros(19 * m) =~= zeros(19 * n));
    }
}

/// A zero behind the digits makes the number ten times as large.
pub proof fn lemma_parse_trailing_zeros(digits: Seq<u8>, k: nat)
    ensures
        parse_decimal(digits + zeros(k)) == parse_decimal(digits) * pow10(k),
    decreases k,
{
    let value = parse_decimal(digits);
    if k == 0 {
        assert(digits + zeros(k) =~= digits);
        assert(pow10(k) == 1);
        assert(value * 1 == value);
    } else {
        let m = (k - 1) as nat;
        let all = digits + zeros(k);
        let scale = pow10(m);
        lemma_parse_trailing_zeros(digits, m);
        assert(all.drop_last() =~= digits + zeros(m));
        assert(all.last() == ZERO);
        assert(parse_decimal(all) == parse_decimal(all.drop_last()) * 10 + (all.last() - 48) as nat);
        assert(parse_decimal(all) == (value * scale) * 10);
        assert(pow10(k) == 10 * scale);
        assert((value * scale) * 10 == value * (10 * scale)) by (nonlinear_arith);
    }
}

/// Zeros in front of the digits leave the number as it is.
pub proof fn lemma_parse_leading_zeros(k: nat, digits: Seq<u8>)
    ensures
        parse_decimal(zeros(k) + digits) == parse_decimal(digits),
    decreases digits.len(), k,
{
    let all = zeros(k) + digits;
    if digits.len() > 0 {
        lemma_parse_leading_zeros(k, digits.drop_last());
        assert(all.drop_last() =~= zeros(k) + digits.drop_last());
        assert(all.last() == digits.last());
    } else if k > 0 {
        let m = (k - 1) as nat;
        lemma_parse_leading_zeros(m, digits);
        assert(all.drop_last() =~= zeros(m) + digits);
        assert(all.last() == ZERO);
    } else {
        assert(all =~= digits);
    }
}

/// A block of zeros has as many zeros as the scale has: a division by the
/// scale is undone by one block.
pub proof fn lemma_block_is_scale()
    ensures
        U64_BASE == pow10(19),
        zero_block() == zeros(19),
{
    reveal_with_fuel(pow10, 20);
    assert(zero_block() =~= zeros(19));
}

/// The whole part reads as the leading digits times ten to the number of
/// zeros behind them: the zeros put back what the divisions took away.
pub proof fn lemma_whole_text(v: Fixed)
    ensures
        text(v.whole_pieces()) == decimal(v.whole as nat) + zeros(v.zeros()),
        parse_decimal(text(v.whole_pieces())) == v.whole_value(),
        forall|i: int|
            0 <= i < text(v.whole_pieces()).len() ==> is_digit(#[trigger] text(v.whole_pieces())[i]),
{
    let digits = decimal(v.whole as nat);
    let blocks = repeat(zero_block(), v.blocks as nat);
    let shifts = repeat(zero(), v.shifts as nat);
    lemma_text_of_two(seq![digits] + blocks, shifts);
    lemma_text_of_two(seq![digits], blocks);
    lemma_text_of_one(digits);
    lemma_text_of_zeros(v.blocks as nat);
    lemma_text_of_zeros(v.shifts as nat);
    assert(zeros(19 * v.blocks as nat) + zeros(v.shifts as nat) =~= zeros(v.zeros()));
    assert(text(v.whole_pieces()) =~= digits + zeros(v.zeros()));
    lemma_parse_trailing_zeros(digits, v.zeros());
    lemma_decimal_round_trip(v.whole as nat);
    lemma_decimal_shape(v.whole as nat);
}

/// A fraction below ten to the `places` is shown as the point and exactly
/// `places` digits, which read as the fraction.
pub proof fn lemma_fraction_text(fraction: nat, places: nat)
    requires
        places >= 1,
        fraction < pow10(places),
    ensures
        padding(fraction, places) + decimal(fraction).len() == places,
        text(fraction_pieces(fraction, places)) == point() + zeros(padding(fraction, places))
            + decimal(fraction),
        text(fraction_pieces(fraction, places)).len() == places + 1,
        parse_decimal(text(fraction_pieces(fraction, places)).skip(1)) == fraction,
{
    let pad = padding(fraction, places);
    let digits = decimal(fraction);
    lemma_decimal_len(fraction, places);
    lemma_text_of_two(seq![point()] + repeat(zero(), pad), seq![digits]);
    lemma_text_of_two(seq![point()], repeat(zero(), pad));
    lemma_text_of_one(point());
    lemma_text_of_one(digits);
    lemma_text_of_zeros(pad);
    let all = text(fraction_pieces(fraction, places));
    assert(all =~= point() + zeros(pad) + digits);
    assert(all.skip(1) =~= zeros(pad) + digits);
    lemma_parse_leading_zeros(pad, digits);
    lemma_decimal_round_trip(fraction);
}

/// Without places nothing follows the whole part, not even the point.
pub proof fn lemma_no_places(fraction: nat)
    ensures
        text(fraction_pieces(fraction, 0)) == Seq::<u8>::empty(),
{
    lemma_text_of_one(point());
}

/// An exponent reads back as itself; between -100 and 1000 it takes three
/// columns, the sign counted.
pub proof fn lemma_exponent_text(exponent: int)
    ensures
        text(exponent_pieces(exponent)) == (if exponent < 0 {
            minus()
        } else {
            Seq::<u8>::empty()
        }) + zeros(exponent_padding(exponent)) + decimal(magnitude(exponent)),
        parse_signed(text(exponent_pieces(exponent))) == exponent,
        -100 < exponent < 1000 ==> text(exponent_pieces(exponent)).len() == 3,
{
    let pad = exponent_padding(exponent);
    let digits = decimal(magnitude(exponent));
    let sign = optional(minus(), exponent < 0);
    lemma_text_of_two(sign + repeat(zero(), pad), seq![digits]);
    lemma_text_of_two(sign, repeat(zero(), pad));
    lemma_text_of_one(minus());
    lemma_text_of_one(digits);
    lemma_text_of_zeros(pad);
    let all = text(exponent_pieces(exponent));
    lemma_parse_leading_zeros(pad, digits);
    lemma_decimal_round_trip(magnitude(exponent));
    lemma_decimal_shape(magnitude(exponent));
    if exponent < 0 {
        assert(all =~= minus() + zeros(pad) + digits);
        assert(all[0] == MINUS);
        assert(all.skip(1) =~= zeros(pad) + digits);
    } else {
        assert(all =~= Seq::<u8>::empty() + zeros(pad) + digits);
        assert(all =~= zeros(pad) + digits);
        assert(all[0] != MINUS) by {
            if pad == 0 {
                assert(is_digit(digits[0]));
            }
        }
    }
    if -100 < exponent < 1000 {
        reveal_with_fuel(pow10, 4);
        lemma_decimal_len(magnitude(exponent), 1);
        lemma_decimal_len(magnitude(exponent), 2);
        lemma_decimal_len(magnitude(exponent), 3);
    }
}

} // verus!
