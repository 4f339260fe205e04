//! One value at a time: where a write stands inside it, and which piece comes
//! next.

use crate::digits::{decimal, lemma_decimal_len, magnitude, signed_decimal};
use crate::glyph::Glyph;
use crate::number::{Fixed, Scientific, Width};
use crate::pieces::{
    exponent_padding, exponent_pieces, fraction_pieces, marker, padding, repeat, zero, zero_block,
};
use vstd::prelude::*;
use vstd::string::StringSliceAdditionalSpecFns;

verus! {

/// The part of a value that the next piece belongs to.
#[derive(Clone, Copy, PartialEq, Eq, Structural)]
pub(crate) enum Part {
    /// The sign column of a value in scientific form; the start of any value.
    Lead,
    /// The `-` of a fixed-point value.
    Sign,
    /// The leading digits of the whole part.
    Whole,
    /// The blocks of nineteen zeros.
    Blocks,
    /// The single zeros.
    Shifts,
    /// The point.
    Point,
    /// The zeros between the point and the digits of the fraction.
    Pad,
    /// The digits of the fraction.
    Fraction,
    /// The `e`; also where a fixed-point value ends.
    Marker,
    /// The `-` of the exponent.
    ExponentSign,
    /// The zeros in front of the exponent's digits.
    ExponentPad,
    /// The digits of the exponent.
    ExponentDigits,
    /// Behind the last piece.
    End,
}

/// A place inside a value: the part, and how many pieces of a run of zeros are
/// still to come.
#[derive(Clone, Copy)]
pub(crate) struct Position {
    pub part: Part,
    pub left: u32,
}

/// One value to write.
#[derive(Clone, Copy)]
pub(crate) enum Scalar<'a> {
    Text(&'a str),
    Unsigned(u64),
    Signed(i64),
    Fixed(Fixed),
    Scientific(Scientific),
}

/// The pieces of `v` from `part` on, `left` being what a run of zeros still
/// holds.
pub(crate) open spec fn fixed_rest(v: Fixed, places: nat, part: Part, left: nat) -> Seq<Seq<u8>> {
    match part {
        Part::Lead | Part::Sign => v.pieces(places),
        Part::Whole => v.whole_pieces() + fraction_pieces(v.fraction as nat, places),
        Part::Blocks => repeat(zero_block(), left) + repeat(zero(), v.shifts as nat)
            + fraction_pieces(v.fraction as nat, places),
        Part::Shifts => repeat(zero(), left) + fraction_pieces(v.fraction as nat, places),
        Part::Point => fraction_pieces(v.fraction as nat, places),
        Part::Pad => repeat(zero(), left) + seq![decimal(v.fraction as nat)],
        Part::Fraction => seq![decimal(v.fraction as nat)],
        _ => seq![],
    }
}

/// Whether `part` lies in a fixed-point value, in front of its last piece.
pub(crate) open spec fn in_mantissa(part: Part) -> bool {
    part == Part::Sign || part == Part::Whole || part == Part::Blocks || part == Part::Shifts
        || part == Part::Point || part == Part::Pad || part == Part::Fraction
}

/// The pieces of `v` from `part` on.
pub(crate) open spec fn scientific_rest(v: Scientific, places: nat, part: Part, left: nat) -> Seq<
    Seq<u8>,
> {
    match part {
        Part::Lead => v.pieces(places),
        Part::Sign | Part::Whole | Part::Blocks | Part::Shifts | Part::Point | Part::Pad
        | Part::Fraction => fixed_rest(v.mantissa, places, part, left) + seq![marker()]
            + exponent_pieces(v.exponent as int),
        Part::Marker => seq![marker()] + exponent_pieces(v.exponent as int),
        Part::ExponentSign => exponent_pieces(v.exponent as int),
        Part::ExponentPad => repeat(zero(), left) + seq![decimal(magnitude(v.exponent as int))],
        Part::ExponentDigits => seq![decimal(magnitude(v.exponent as int))],
        Part::End => seq![],
    }
}

impl Position {
    /// In front of the first piece.
    pub(crate) fn start() -> (position: Position)
        ensures
            position.part == Part::Lead,
    {
        Position { part: Part::Lead, left: 0 }
    }
}

impl<'a> Scalar<'a> {
    /// All the pieces of this value.
    pub(crate) open spec fn pieces(self, places: nat) -> Seq<Seq<u8>> {
        match self {
            Scalar::Text(s) => seq![s.spec_bytes()],
            Scalar::Unsigned(v) => seq![decimal(v as nat)],
            Scalar::Signed(v) => seq![signed_decimal(v as int)],
            Scalar::Fixed(v) => v.pieces(places),
            Scalar::Scientific(v) => v.pieces(places),
        }
    }

    /// The pieces of this value that are still to come at `position`.
    pub(crate) open spec fn rest(self, places: nat, position: Position) -> Seq<Seq<u8>> {
        match self {
            Scalar::Fixed(v) => fixed_rest(v, places, position.part, position.left as nat),
            Scalar::Scientific(v) => scientific_rest(
                v,
                places,
                position.part,
                position.left as nat,
            ),
            _ => if position.part == Part::Lead {
                self.pieces(places)
            } else {
                seq![]
            },
        }
    }

    /// The next piece of this value, if one is left, and the position behind
    /// it.
    pub(crate) fn step(self, places: usize, width: Width, position: &mut Position) -> (next:
        Option<Glyph<'a>>)
        requires
            places <= width.limit(),
        ensures
            match next {
                Some(glyph) => self.rest(places as nat, *old(position)) == seq![glyph.bytes()]
                    + self.rest(places as nat, *final(position)),
                None => self.rest(places as nat, *old(position)).len() == 0 && self.rest(
                    places as nat,
                    *final(position),
                ).len() == 0,
            },
    {
        match self {
            Scalar::Text(s) => {
                if position.part == Part::Lead {
                    position.part = Part::End;
                    assert(self.rest(places as nat, *old(position)) =~= seq![Glyph::Text(s).bytes()]
                        + self.rest(places as nat, *position));
                    Some(Glyph::Text(s))
                } else {
                    None
                }
            },
            Scalar::Unsigned(v) => {
                if position.part == Part::Lead {
                    position.part = Part::End;
                    assert(self.rest(places as nat, *old(position)) =~= seq![
                        Glyph::Unsigned(v).bytes(),
                    ] + self.rest(places as nat, *position));
                    Some(Glyph::Unsigned(v))
                } else {
                    None
                }
            },
            Scalar::Signed(v) => {
                if position.part == Part::Lead {
                    position.part = Part::End;
                    assert(self.rest(places as nat, *old(position)) =~= seq![
                        Glyph::Signed(v).bytes(),
                    ] + self.rest(places as nat, *position));
                    Some(Glyph::Signed(v))
                } else {
                    None
                }
            },
            Scalar::Fixed(v) => fixed_step(v, places, width, position),
            Scalar::Scientific(v) => scientific_step(v, places, width, position),
        }
    }
}

/// A run of `n` pieces is one piece and a run of `n - 1`.
pub(crate) proof fn lemma_repeat_first(piece: Seq<u8>, n: nat)
    ensures
        n > 0 ==> repeat(piece, n) == seq![piece] + repeat(piece, (n - 1) as nat),
        n == 0 ==> repeat(piece, n) == Seq::<Seq<u8>>::empty(),
{
    if n > 0 {
        assert(repeat(piece, n) =~= seq![piece] + repeat(piece, (n - 1) as nat));
    } else {
        assert(repeat(piece, n) =~= Seq::<Seq<u8>>::empty());
    }
}

/// The zeros that pad `fraction` to `places` digits: one for every power of
/// ten below the `places`-th that `fraction` stays under.
pub(crate) fn pad_zeros(fraction: u64, places: usize, width: Width) -> (zeros: u32)
    requires
        places <= width.limit(),
    ensures
        zeros == padding(fraction as nat, places as nat),
{
    let mut k: usize = places;
    let mut zeros: u32 = 0;
    while k > 1 && fraction < width.power_of_ten(k - 1)
        invariant
            k <= places <= width.limit(),
            zeros == places - k,
            places >= 1 ==> k >= 1,
            k < places ==> fraction < crate::digits::pow10(k as nat),
        decreases k,
    {
        zeros = zeros + 1;
        k = k - 1;
    }
    proof {
        let len = decimal(fraction as nat).len();
        crate::digits::lemma_decimal_shape(fraction as nat);
        if k >= 1 {
            lemma_decimal_len(fraction as nat, k as nat);
        }
        if k > 1 {
            lemma_decimal_len(fraction as nat, (k - 1) as nat);
            assert(len >= k);
        }
        if k < places {
            assert(len <= k);
        }
    }
    zeros
}

/// The next piece of a fixed-point value. Behind the last piece the part is
/// `Marker`.
#[verifier::rlimit(40)]
pub(crate) fn fixed_step(v: Fixed, places: usize, width: Width, position: &mut Position) -> (next:
    Option<Glyph<'static>>)
    requires
        places <= width.limit(),
    ensures
        match next {
            Some(glyph) => fixed_rest(
                v,
                places as nat,
                old(position).part,
                old(position).left as nat,
            ) == seq![glyph.bytes()] + fixed_rest(
                v,
                places as nat,
                final(position).part,
                final(position).left as nat,
            ),
            None => {
                &&& fixed_rest(v, places as nat, old(position).part, old(position).left as nat).len()
                    == 0
                &&& fixed_rest(
                    v,
                    places as nat,
                    final(position).part,
                    final(position).left as nat,
                ).len() == 0
            },
        },
        in_mantissa(old(position).part) ==> {
            ||| in_mantissa(final(position).part)
            ||| final(position).part == Part::Marker
        },
        in_mantissa(old(position).part) && next is None ==> final(position).part == Part::Marker,
{
    let ghost all = fixed_rest(v, places as nat, position.part, position.left as nat);
    proof {
        lemma_repeat_first(zero_block(), position.left as nat);
        lemma_repeat_first(zero(), position.left as nat);
        lemma_repeat_first(zero_block(), v.blocks as nat);
        lemma_repeat_first(zero(), v.shifts as nat);
        lemma_repeat_first(zero(), padding(v.fraction as nat, places as nat));
    }
    if position.part == Part::Lead || position.part == Part::Sign {
        position.part = Part::Whole;
        if v.negative {
            assert(all =~= seq![Glyph::Minus.bytes()] + fixed_rest(
                v,
                places as nat,
                position.part,
                position.left as nat,
            ));
            return Some(Glyph::Minus);
        }
        assert(all =~= fixed_rest(v, places as nat, position.part, position.left as nat));
    }
    if position.part == Part::Whole {
        position.part = Part::Blocks;
        position.left = v.blocks;
        assert(all =~= seq![Glyph::Unsigned(v.whole).bytes()] + fixed_rest(
            v,
            places as nat,
            position.part,
            position.left as nat,
        ));
        return Some(Glyph::Unsigned(v.whole));
    }
    if position.part == Part::Blocks {
        if position.left > 0 {
            position.left = position.left - 1;
            assert(all =~= seq![Glyph::ZeroBlock.bytes()] + fixed_rest(
                v,
                places as nat,
                position.part,
                position.left as nat,
            ));
            return Some(Glyph::ZeroBlock);
        }
        position.part = Part::Shifts;
        position.left = v.shifts;
        assert(all =~= fixed_rest(v, places as nat, position.part, position.left as nat));
    }
    if position.part == Part::Shifts {
        if position.left > 0 {
            position.left = position.left - 1;
            assert(all =~= seq![Glyph::Zero.bytes()] + fixed_rest(
                v,
                places as nat,
                position.part,
                position.left as nat,
            ));
            return Some(Glyph::Zero);
        }
        position.part = Part::Point;
        assert(all =~= fixed_rest(v, places as nat, position.part, position.left as nat));
    }
    if position.part == Part::Point {
        if places == 0 {
            position.part = Part::Marker;
            return None;
        }
        position.part = Part::Pad;
        position.left = pad_zeros(v.fraction, places, width);
        assert(all =~= seq![Glyph::Point.bytes()] + fixed_rest(
            v,
            places as nat,
            position.part,
            position.left as nat,
        ));
        return Some(Glyph::Point);
    }
    if position.part == Part::Pad {
        if position.left > 0 {
            position.left = position.left - 1;
            assert(all =~= seq![Glyph::Zero.bytes()] + fixed_rest(
                v,
                places as nat,
                position.part,
                position.left as nat,
            ));
            return Some(Glyph::Zero);
        }
        position.part = Part::Fraction;
        assert(all =~= fixed_rest(v, places as nat, position.part, position.left as nat));
    }
    if position.part == Part::Fraction {
        position.part = Part::Marker;
        assert(all =~= seq![Glyph::Unsigned(v.fraction).bytes()] + fixed_rest(
            v,
            places as nat,
            position.part,
            position.left as nat,
        ));
        return Some(Glyph::Unsigned(v.fraction));
    }
    None
}

/// The zeros that pad `exponent`.
pub(crate) fn exponent_zeros(exponent: i16) -> (zeros: u32)
    ensures
        zeros == exponent_padding(exponent as int),
{
    if exponent < 0 {
        if exponent > -10 {
            1
        } else {
            0
        }
    } else if exponent < 10 {
        2
    } else if exponent < 100 {
        1
    } else {
        0
    }
}

/// The absolute value of `exponent`.
pub(crate) fn exponent_magnitude(exponent: i16) -> (m: u64)
    ensures
        m == magnitude(exponent as int),
{
    let wide: i32 = exponent as i32;
    if wide < 0 {
        (-wide) as u64
    } else {
        wide as u64
    }
}

/// The next piece of a value in scientific form.
#[verifier::rlimit(40)]
pub(crate) fn scientific_step(
    v: Scientific,
    places: usize,
    width: Width,
    position: &mut Position,
) -> (next: Option<Glyph<'static>>)
    requires
        places <= width.limit(),
    ensures
        match next {
            Some(glyph) => scientific_rest(
                v,
                places as nat,
                old(position).part,
                old(position).left as nat,
            ) == seq![glyph.bytes()] + scientific_rest(
                v,
                places as nat,
                final(position).part,
                final(position).left as nat,
            ),
            None => {
                &&& scientific_rest(
                    v,
                    places as nat,
                    old(position).part,
                    old(position).left as nat,
                ).len() == 0
                &&& scientific_rest(
                    v,
                    places as nat,
                    final(position).part,
                    final(position).left as nat,
                ).len() == 0
            },
        },
{
    let ghost all = scientific_rest(v, places as nat, position.part, position.left as nat);
    let ghost tail = seq![marker()] + exponent_pieces(v.exponent as int);
    proof {
        lemma_repeat_first(zero(), position.left as nat);
        lemma_repeat_first(zero(), exponent_padding(v.exponent as int));
    }
    if position.part == Part::Lead {
        position.part = Part::Sign;
        let lead = if v.negative {
            Glyph::Minus
        } else {
            Glyph::Space
        };
        assert(all =~= seq![lead.bytes()] + scientific_rest(
            v,
            places as nat,
            position.part,
            position.left as nat,
        ));
        return Some(lead);
    }
    if position.part == Part::Sign || position.part == Part::Whole || position.part == Part::Blocks
        || position.part == Part::Shifts || position.part == Part::Point || position.part
        == Part::Pad || position.part == Part::Fraction {
        let ghost before = fixed_rest(v.mantissa, places as nat, position.part, position.left as nat);
        match fixed_step(v.mantissa, places, width, position) {
            Some(glyph) => {
                let ghost after = fixed_rest(
                    v.mantissa,
                    places as nat,
                    position.part,
                    position.left as nat,
                );
                assert(before == seq![glyph.bytes()] + after);
                assert(all == before + tail);
                assert(before + tail =~= seq![glyph.bytes()] + (after + tail));
                assert(scientific_rest(v, places as nat, position.part, position.left as nat)
                    =~= after + tail);
                return Some(glyph);
            },
            None => {
                assert(before =~= Seq::<Seq<u8>>::empty());
                assert(all =~= tail);
            },
        }
    }
    if position.part == Part::Marker {
        position.part = Part::ExponentSign;
        assert(all =~= seq![Glyph::Marker.bytes()] + scientific_rest(
            v,
            places as nat,
            position.part,
            position.left as nat,
        ));
        return Some(Glyph::Marker);
    }
    if position.part == Part::ExponentSign {
        position.part = Part::ExponentPad;
        position.left = exponent_zeros(v.exponent);
        if v.exponent < 0 {
            assert(all =~= seq![Glyph::Minus.bytes()] + scientific_rest(
                v,
                places as nat,
                position.part,
                position.left as nat,
            ));
            return Some(Glyph::Minus);
        }
        assert(all =~= scientific_rest(v, places as nat, position.part, position.left as nat));
    }
    if position.part == Part::ExponentPad {
        if position.left > 0 {
            position.left = position.left - 1;
            assert(all =~= seq![Glyph::Zero.bytes()] + scientific_rest(
                v,
                places as nat,
                position.part,
                position.left as nat,
            ));
            return Some(Glyph::Zero);
        }
        position.part = Part::ExponentDigits;
        assert(all =~= scientific_rest(v, places as nat, position.part, position.left as nat));
    }
    if position.part == Part::ExponentDigits {
        position.part = Part::End;
        let digits = Glyph::Unsigned(exponent_magnitude(v.exponent));
        assert(all =~= seq![digits.bytes()] + scientific_rest(
            v,
            places as nat,
            position.part,
            position.left as nat,
        ));
        return Some(digits);
    }
    None
}

} // verus!
