//! What a value looks like on its way to the sink: a sequence of pieces, each
//! handed over in one write.

use crate::digits::{decimal, magnitude, signed_decimal};
use vstd::prelude::*;

verus! {

/// `-`
pub open spec fn minus() -> Seq<u8> {
    seq![45u8]
}

/// A blank: the sign column of a number that is not negative.
pub open spec fn space() -> Seq<u8> {
    seq![32u8]
}

/// `0`
pub open spec fn zero() -> Seq<u8> {
    seq![48u8]
}

/// Nineteen zeros: the digits that one division by ten to the nineteenth took
/// away.
pub open spec fn zero_block() -> Seq<u8> {
    Seq::new(19, |i: int| 48u8)
}

/// `.`
pub open spec fn point() -> Seq<u8> {
    seq![46u8]
}

/// `e`, in front of an exponent.
pub open spec fn marker() -> Seq<u8> {
    seq![101u8]
}

/// `[` and a blank, in front of the first element.
pub open spec fn opening() -> Seq<u8> {
    seq![91u8, 32u8]
}

/// `,` and a blank, behind every element.
pub open spec fn separator() -> Seq<u8> {
    seq![44u8, 32u8]
}

/// `]`
pub open spec fn closing() -> Seq<u8> {
    seq![93u8]
}

/// Carriage return and line feed.
pub open spec fn line_end() -> Seq<u8> {
    seq![13u8, 10u8]
}

/// `piece`, `n` times over.
pub open spec fn repeat(piece: Seq<u8>, n: nat) -> Seq<Seq<u8>> {
    Seq::new(n, |i: int| piece)
}

/// `piece` once if `present`, else nothing.
pub open spec fn optional(piece: Seq<u8>, present: bool) -> Seq<Seq<u8>> {
    if present {
        seq![piece]
    } else {
        seq![]
    }
}

/// How many zeros stand between the point and the digits of `fraction` so that
/// `places` digits follow the point.
pub open spec fn padding(fraction: nat, places: nat) -> nat {
    if decimal(fraction).len() < places {
        (places - decimal(fraction).len()) as nat
    } else {
        0
    }
}

/// The point and what follows it; nothing at all for zero places.
pub open spec fn fraction_pieces(fraction: nat, places: nat) -> Seq<Seq<u8>> {
    if places == 0 {
        seq![]
    } else {
        seq![point()] + repeat(zero(), padding(fraction, places)) + seq![decimal(fraction)]
    }
}

/// How many zeros pad an exponent: a negative one to two digits behind its
/// sign, any other to three digits.
pub open spec fn exponent_padding(exponent: int) -> nat {
    if exponent < 0 {
        if exponent > -10 {
            1
        } else {
            0
        }
    } else if exponent < 10 {
        2
    } else if exponent < 100 {
        1
    } else {
        0
    }
}

/// An exponent behind its marker: the sign if negative, the padding, the
/// digits.
pub open spec fn exponent_pieces(exponent: int) -> Seq<Seq<u8>> {
    optional(minus(), exponent < 0) + repeat(zero(), exponent_padding(exponent)) + seq![
        decimal(magnitude(exponent)),
    ]
}

/// Every element of `items` from index `from` on, each followed by the
/// separator.
pub open spec fn joined_from(items: Seq<Seq<Seq<u8>>>, from: int) -> Seq<Seq<u8>>
    decreases items.len() - from,
{
    if from < 0 || from >= items.len() {
        seq![]
    } else {
        items[from] + seq![separator()] + joined_from(items, from + 1)
    }
}

/// A slice: the opening, every element followed by the separator, the closing.
pub open spec fn bracketed(items: Seq<Seq<Seq<u8>>>) -> Seq<Seq<u8>> {
    seq![opening()] + joined_from(items, 0) + seq![closing()]
}

/// The elements of a slice of integers: one piece each, the decimal text.
pub open spec fn integer_items(values: Seq<int>) -> Seq<Seq<Seq<u8>>> {
    Seq::new(values.len(), |i: int| seq![signed_decimal(values[i])])
}

/// `pieces`, then the line end.
pub open spec fn lined(pieces: Seq<Seq<u8>>) -> Seq<Seq<u8>> {
    pieces + seq![line_end()]
}

/// The bytes of all `pieces`, in order: what a sink that accepts everything
/// has received at the end.
pub open spec fn text(pieces: Seq<Seq<u8>>) -> Seq<u8> {
    pieces.flatten()
}

} // verus!
