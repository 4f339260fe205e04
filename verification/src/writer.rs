//! The writer: the owner of the scratch buffer in which digits are made.

use crate::convert::{signed_text, unsigned_text};
use crate::glyph::Glyph;
use crate::job::{Job, Source};
use crate::pieces::lined;
use crate::scalar::Scalar;
use vstd::prelude::*;
use vstd::string::{is_ascii_spec_bytes, StringSliceAdditionalSpecFns};

verus! {

/// Turns numbers into text. It owns one scratch buffer of twenty bytes, enough
/// for the digits and the sign of any 64-bit integer; every number that is
/// written overwrites it.
pub struct Writer {
    buf: [u8; 20],
}

impl Writer {
    /// What the scratch buffer holds.
    pub closed spec fn scratch(&self) -> Seq<u8> {
        self.buf@
    }

    /// A writer whose scratch buffer is all zero bytes.
    pub fn new() -> (writer: Self)
        ensures
            writer.scratch() == Seq::new(20, |i: int| 0u8),
    {
        let writer = Writer { buf: [0u8; 20] };
        assert(writer.buf@ =~= Seq::new(20, |i: int| 0u8));
        writer
    }

    /// Plans a string: its bytes, in one piece.
    pub fn write_str<'a>(&self, text: &'a str) -> (job: Job<'a>)
        ensures
            job.pending() == seq![text.spec_bytes()],
            job.written() == 0,
    {
        let job = Job::plain(Source::One(Scalar::Text(text)), false);
        assert(job.pending() =~= seq![text.spec_bytes()]);
        job
    }

    /// Plans a string, followed by a line end.
    pub fn writeln_str<'a>(&self, text: &'a str) -> (job: Job<'a>)
        ensures
            job.pending() == lined(seq![text.spec_bytes()]),
            job.written() == 0,
    {
        let job = Job::plain(Source::One(Scalar::Text(text)), true);
        assert(job.pending() =~= lined(seq![text.spec_bytes()]));
        job
    }

    /// The bytes of `glyph`. Digits are made in the scratch buffer, at its
    /// end; any other piece leaves the buffer as it was.
    pub(crate) fn render<'b>(&'b mut self, glyph: Glyph<'b>) -> (bytes: &'b [u8])
        ensures
            bytes@ == glyph.bytes(),
            final(self).scratch().len() == 20,
            match glyph {
                Glyph::Unsigned(_) | Glyph::Signed(_) => {
                    &&& bytes@.len() <= 20
                    &&& final(self).scratch().subrange(20 - bytes@.len(), 20) == bytes@
                },
                _ => final(self).scratch() == old(self).scratch(),
            },
    {
        match glyph {
            Glyph::Minus => {
                let s = "-";
                proof {
                    reveal_strlit("-");
                    is_ascii_spec_bytes(s);
                }
                let b = s.as_bytes();
                assert(b@ =~= glyph.bytes());
                b
            },
            Glyph::Space => {
                let s = " ";
                proof {
                    reveal_strlit(" ");
                    is_ascii_spec_bytes(s);
                }
                let b = s.as_bytes();
                assert(b@ =~= glyph.bytes());
                b
            },
            Glyph::Zero => {
                let s = "0";
                proof {
                    reveal_strlit("0");
                    is_ascii_spec_bytes(s);
                }
                let b = s.as_bytes();
                assert(b@ =~= glyph.bytes());
                b
            },
            Glyph::ZeroBlock => {
                let s = "0000000000000000000";
                proof {
                    reveal_strlit("0000000000000000000");
                    is_ascii_spec_bytes(s);
                }
                let b = s.as_bytes();
                assert(b@ =~= glyph.bytes());
                b
            },
            Glyph::Point => {
                let s = ".";
                proof {
                    reveal_strlit(".");
                    is_ascii_spec_bytes(s);
                }
                let b = s.as_bytes();
                assert(b@ =~= glyph.bytes());
                b
            },
            Glyph::Marker => {
                let s = "e";
                proof {
                    reveal_strlit("e");
                    is_ascii_spec_bytes(s);
                }
                let b = s.as_bytes();
                assert(b@ =~= glyph.bytes());
                b
            },
            Glyph::Opening => {
                let s = "[ ";
                proof {
                    reveal_strlit("[ ");
                    is_ascii_spec_bytes(s);
                }
                let b = s.as_bytes();
                assert(b@ =~= glyph.bytes());
                b
            },
            Glyph::Separator => {
                let s = ", ";
                proof {
                    reveal_strlit(", ");
                    is_ascii_spec_bytes(s);
                }
                let b = s.as_bytes();
                assert(b@ =~= glyph.bytes());
                b
            },
            Glyph::Closing => {
                let s = "]";
                proof {
                    reveal_strlit("]");
                    is_ascii_spec_bytes(s);
                }
                let b = s.as_bytes();
                assert(b@ =~= glyph.bytes());
                b
            },
            Glyph::LineEnd => {
                let s = "\r\n";
                proof {
                    reveal_strlit("\r\n");
                    is_ascii_spec_bytes(s);
                }
                let b = s.as_bytes();
                assert(b@ =~= glyph.bytes());
                b
            },
            Glyph::Unsigned(v) => unsigned_text(v, &mut self.buf),
            Glyph::Signed(v) => signed_text(v, &mut self.buf),
            Glyph::Text(s) => s.as_bytes(),
        }
    }
}

} // verus!
