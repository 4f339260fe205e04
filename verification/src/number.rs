//! Floating-point values taken apart into integers, and the two widths they
//! come in.

use crate::digits::{decimal, pow10};
use crate::pieces::{
    exponent_pieces, fraction_pieces, marker, minus, optional, repeat, space, zero, zero_block,
};
use vstd::prelude::*;

verus! {

/// Powers of ten up to the seventh: one for each number of places that the
/// narrow width can show.
pub const F32_EXP: [u64; 8] = [1, 10, 100, 1_000, 10_000, 100_000, 1_000_000, 10_000_000];

/// Powers of ten up to the fifteenth: one for each number of places that the
/// wide width can show.
pub const F64_EXP: [u64; 16] = [
    1,
    10,
    100,
    1_000,
    10_000,
    100_000,
    1_000_000,
    10_000_000,
    100_000_000,
    1_000_000_000,
    10_000_000_000,
    100_000_000_000,
    1_000_000_000_000,
    10_000_000_000_000,
    100_000_000_000_000,
    1_000_000_000_000_000,
];

/// The scale by which a magnitude is cut down, block by block, until its whole
/// part fits in 64 bits: ten to the nineteenth.
pub const U64_BASE: u64 = 10_000_000_000_000_000_000;

/// The width of a floating-point value: it decides how many places can be
/// shown.
#[derive(Clone, Copy, Debug, PartialEq, Eq)]
pub enum Width {
    /// 32 bits: at most seven places.
    Single,
    /// 64 bits: at most fifteen places.
    Double,
}

impl Width {
    /// The largest number of places of this width.
    pub open spec fn limit(self) -> nat {
        match self {
            Width::Single => 7,
            Width::Double => 15,
        }
    }

    /// The places that are shown when `nodp` are asked for.
    pub open spec fn clamp(self, nodp: nat) -> nat {
        if nodp > self.limit() {
            self.limit()
        } else {
            nodp
        }
    }

    /// The places that are shown when `nodp` are asked for: `nodp`, or the
    /// width's limit if that is less.
    pub fn places(self, nodp: usize) -> (places: usize)
        ensures
            places == self.clamp(nodp as nat),
    {
        let limit: usize = match self {
            Width::Single => F32_EXP.len() - 1,
            Width::Double => F64_EXP.len() - 1,
        };
        if nodp > limit {
            limit
        } else {
            nodp
        }
    }

    /// Ten to the power `k`, from this width's table.
    pub(crate) fn power_of_ten(self, k: usize) -> (p: u64)
        requires
            k <= self.limit(),
        ensures
            p == pow10(k as nat),
    {
        proof {
            reveal_with_fuel(pow10, 17);
        }
        match self {
            Width::Single => F32_EXP[k],
            Width::Double => F64_EXP[k],
        }
    }

    /// Ten to the power `k`, from this width's table; `None` beyond the table.
    pub fn power(self, k: usize) -> (p: Option<u64>)
        ensures
            k <= self.limit() ==> p == Some(pow10(k as nat) as u64),
            k <= self.limit() ==> pow10(k as nat) <= u64::MAX,
            k > self.limit() ==> p is None,
    {
        proof {
            reveal_with_fuel(pow10, 17);
        }
        match self {
            Width::Single => if k < F32_EXP.len() {
                Some(F32_EXP[k])
            } else {
                None
            },
            Width::Double => if k < F64_EXP.len() {
                Some(F64_EXP[k])
            } else {
                None
            },
        }
    }
}

/// A magnitude in fixed-point form, taken apart so that every part is an
/// integer.
///
/// The value shown is `whole`, followed by `blocks` times nineteen zeros and
/// `shifts` zeros more, then the point and `fraction` in as many places as the
/// job asks for.
#[derive(Clone, Copy, Debug, PartialEq, Eq)]
pub struct Fixed {
    /// Whether a `-` stands in front.
    pub negative: bool,
    /// The leading digits of the whole part.
    pub whole: u64,
    /// How often the magnitude was divided by ten to the nineteenth.
    pub blocks: u32,
    /// How often it was then divided by ten.
    pub shifts: u32,
    /// The digits behind the point, as a number.
    pub fraction: u64,
}

impl Fixed {
    /// How many zeros follow the leading digits of the whole part.
    pub open spec fn zeros(self) -> nat {
        19 * self.blocks as nat + self.shifts as nat
    }

    /// The whole part as a number: the leading digits, scaled back by every
    /// division that cut the magnitude down.
    pub open spec fn whole_value(self) -> nat {
        self.whole as nat * pow10(self.zeros())
    }

    /// The pieces of the whole part: the leading digits, then nineteen zeros
    /// for each block, then one zero for each shift.
    pub open spec fn whole_pieces(self) -> Seq<Seq<u8>> {
        seq![decimal(self.whole as nat)] + repeat(zero_block(), self.blocks as nat) + repeat(
            zero(),
            self.shifts as nat,
        )
    }

    /// The pieces of this value with `places` digits behind the point: the
    /// sign if negative, the whole part, the point and the fraction.
    pub open spec fn pieces(self, places: nat) -> Seq<Seq<u8>> {
        optional(minus(), self.negative) + self.whole_pieces() + fraction_pieces(
            self.fraction as nat,
            places,
        )
    }
}

/// The elements of a slice of fixed-point values, each with `places` digits
/// behind the point.
pub open spec fn fixed_items(values: Seq<Fixed>, places: nat) -> Seq<Seq<Seq<u8>>> {
    Seq::new(values.len(), |i: int| values[i].pieces(places))
}

/// A value in scientific form: a mantissa and the power of ten that scales it.
#[derive(Clone, Copy, Debug, PartialEq, Eq)]
pub struct Scientific {
    /// Whether a `-` fills the sign column; a blank does otherwise.
    pub negative: bool,
    /// The mantissa.
    pub mantissa: Fixed,
    /// The power of ten.
    pub exponent: i16,
}

impl Scientific {
    /// The pieces of this value with `places` digits behind the mantissa's
    /// point.
    pub open spec fn pieces(self, places: nat) -> Seq<Seq<u8>> {
        seq![if self.negative { minus() } else { space() }] + self.mantissa.pieces(places) + seq![
            marker(),
        ] + exponent_pieces(self.exponent as int)
    }
}

/// The elements of a slice of values in scientific form, each with `places`
/// digits behind the mantissa's point.
pub open spec fn scientific_items(values: Seq<Scientific>, places: nat) -> Seq<Seq<Seq<u8>>> {
    Seq::new(values.len(), |i: int| values[i].pieces(places))
}

/// Asking for more places than a width has gives what asking for all its
/// places gives.
pub proof fn lemma_places_clamped(width: Width, nodp: nat)
    requires
        nodp >= width.limit(),
    ensures
        width.clamp(nodp) == width.clamp(width.limit()),
        forall|v: Fixed| #[trigger] v.pieces(width.clamp(nodp)) == v.pieces(width.limit()),
        forall|v: Scientific| #[trigger] v.pieces(width.clamp(nodp)) == v.pieces(width.limit()),
{
}

} // verus!
