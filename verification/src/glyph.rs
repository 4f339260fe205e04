//! The pieces as values: what the next write holds, before it is put into
//! bytes.

use crate::digits::{decimal, signed_decimal};
use crate::pieces::{
    closing, line_end, marker, minus, opening, point, separator, space, zero, zero_block,
};
use vstd::prelude::*;
use vstd::string::StringSliceAdditionalSpecFns;

verus! {

/// One piece of output.
#[derive(Clone, Copy)]
pub(crate) enum Glyph<'a> {
    /// `-`
    Minus,
    /// A blank.
    Space,
    /// `0`
    Zero,
    /// Nineteen zeros.
    ZeroBlock,
    /// `.`
    Point,
    /// `e`
    Marker,
    /// `[` and a blank.
    Opening,
    /// `,` and a blank.
    Separator,
    /// `]`
    Closing,
    /// Carriage return and line feed.
    LineEnd,
    /// The digits of a number.
    Unsigned(u64),
    /// The digits of a number, behind a `-` if it is negative.
    Signed(i64),
    /// The bytes of a string.
    Text(&'a str),
}

impl<'a> Glyph<'a> {
    /// The bytes of this piece.
    pub(crate) open spec fn bytes(self) -> Seq<u8> {
        match self {
            Glyph::Minus => minus(),
            Glyph::Space => space(),
            Glyph::Zero => zero(),
            Glyph::ZeroBlock => zero_block(),
            Glyph::Point => point(),
            Glyph::Marker => marker(),
            Glyph::Opening => opening(),
            Glyph::Separator => separator(),
            Glyph::Closing => closing(),
            Glyph::LineEnd => line_end(),
            Glyph::Unsigned(v) => decimal(v as nat),
            Glyph::Signed(v) => signed_decimal(v as int),
            Glyph::Text(s) => s.spec_bytes(),
        }
    }
}

} // verus!
