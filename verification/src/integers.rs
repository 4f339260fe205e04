//! Integers of every width, alone, in slices, and with a line end.

use crate::digits::signed_decimal;
use crate::job::{Job, Source};
use crate::pieces::{bracketed, integer_items, lined};
use crate::scalar::Scalar;
use crate::writer::Writer;
use vstd::prelude::*;

verus! {

impl Writer {
    /// Plans an `i8` in decimal.
    pub fn write_i8(&self, val: i8) -> (job: Job<'static>)
        ensures
            job.pending() == seq![signed_decimal(val as int)],
            job.written() == 0,
    {
        let job = Job::plain(Source::One(Scalar::Signed(val as i64)), false);
        assert(job.pending() =~= seq![signed_decimal(val as int)]);
        job
    }

    /// Plans an `i16` in decimal.
    pub fn write_i16(&self, val: i16) -> (job: Job<'static>)
        ensures
            job.pending() == seq![signed_decimal(val as int)],
            job.written() == 0,
    {
        let job = Job::plain(Source::One(Scalar::Signed(val as i64)), false);
        assert(job.pending() =~= seq![signed_decimal(val as int)]);
        job
    }

    /// Plans an `i32` in decimal.
    pub fn write_i32(&self, val: i32) -> (job: Job<'static>)
        ensures
            job.pending() == seq![signed_decimal(val as int)],
            job.written() == 0,
    {
        let job = Job::plain(Source::One(Scalar::Signed(val as i64)), false);
        assert(job.pending() =~= seq![signed_decimal(val as int)]);
        job
    }

    /// Plans an `i64` in decimal.
    pub fn write_i64(&self, val: i64) -> (job: Job<'static>)
        ensures
            job.pending() == seq![signed_decimal(val as int)],
            job.written() == 0,
    {
        let job = Job::plain(Source::One(Scalar::Signed(val)), false);
        assert(job.pending() =~= seq![signed_decimal(val as int)]);
        job
    }

    /// Plans an `isize` in decimal.
    pub fn write_isize(&self, val: isize) -> (job: Job<'static>)
        ensures
            job.pending() == seq![signed_decimal(val as int)],
            job.written() == 0,
    {
        let job = Job::plain(Source::One(Scalar::Signed(val as i64)), false);
        assert(job.pending() =~= seq![signed_decimal(val as int)]);
        job
    }

    /// Plans a `u8` in decimal.
    pub fn write_u8(&self, val: u8) -> (job: Job<'static>)
        ensures
            job.pending() == seq![signed_decimal(val as int)],
            job.written() == 0,
    {
        let job = Job::plain(Source::One(Scalar::Unsigned(val as u64)), false);
        assert(job.pending() =~= seq![signed_decimal(val as int)]);
        job
    }

    /// Plans a `u16` in decimal.
    pub fn write_u16(&self, val: u16) -> (job: Job<'static>)
        ensures
            job.pending() == seq![signed_decimal(val as int)],
            job.written() == 0,
    {
        let job = Job::plain(Source::One(Scalar::Unsigned(val as u64)), false);
        assert(job.pending() =~= seq![signed_decimal(val as int)]);
        job
    }

    /// Plans a `u32` in decimal.
    pub fn write_u32(&self, val: u32) -> (job: Job<'static>)
        ensures
            job.pending() == seq![signed_decimal(val as int)],
            job.written() == 0,
    {
        let job = Job::plain(Source::One(Scalar::Unsigned(val as u64)), false);
        assert(job.pending() =~= seq![signed_decimal(val as int)]);
        job
    }

    /// Plans a `u64` in decimal.
    pub fn write_u64(&self, val: u64) -> (job: Job<'static>)
        ensures
            job.pending() == seq![signed_decimal(val as int)],
            job.written() == 0,
    {
        let job = Job::plain(Source::One(Scalar::Unsigned(val)), false);
        assert(job.pending() =~= seq![signed_decimal(val as int)]);
        job
    }

    /// Plans a `usize` in decimal.
    pub fn write_usize(&self, val: usize) -> (job: Job<'static>)
        ensures
            job.pending() == seq![signed_decimal(val as int)],
            job.written() == 0,
    {
        let job = Job::plain(Source::One(Scalar::Unsigned(val as u64)), false);
        assert(job.pending() =~= seq![signed_decimal(val as int)]);
        job
    }

    /// Plans an `i8` in decimal, followed by a line end.
    pub fn writeln_i8(&self, val: i8) -> (job: Job<'static>)
        ensures
            job.pending() == lined(seq![signed_decimal(val as int)]),
            job.written() == 0,
    {
        let job = Job::plain(Source::One(Scalar::Signed(val as i64)), true);
        assert(job.pending() =~= lined(seq![signed_decimal(val as int)]));
        job
    }

    /// Plans an `i16` in decimal, followed by a line end.
    pub fn writeln_i16(&self, val: i16) -> (job: Job<'static>)
        ensures
            job.pending() == lined(seq![signed_decimal(val as int)]),
            job.written() == 0,
    {
        let job = Job::plain(Source::One(Scalar::Signed(val as i64)), true);
        assert(job.pending() =~= lined(seq![signed_decimal(val as int)]));
        job
    }

    /// Plans an `i32` in decimal, followed by a line end.
    pub fn writeln_i32(&self, val: i32) -> (job: Job<'static>)
        ensures
            job.pending() == lined(seq![signed_decimal(val as int)]),
            job.written() == 0,
    {
        let job = Job::plain(Source::One(Scalar::Signed(val as i64)), true);
        assert(job.pending() =~= lined(seq![signed_decimal(val as int)]));
        job
    }

    /// Plans an `i64` in decimal, followed by a line end.
    pub fn writeln_i64(&self, val: i64) -> (job: Job<'static>)
        ensures
            job.pending() == lined(seq![signed_decimal(val as int)]),
            job.written() == 0,
    {
        let job = Job::plain(Source::One(Scalar::Signed(val)), true);
        assert(job.pending() =~= lined(seq![signed_decimal(val as int)]));
        job
    }

    /// Plans an `isize` in decimal, followed by a line end.
    pub fn writeln_isize(&self, val: isize) -> (job: Job<'static>)
        ensures
            job.pending() == lined(seq![signed_decimal(val as int)]),
            job.written() == 0,
    {
        let job = Job::plain(Source::One(Scalar::Signed(val as i64)), true);
        assert(job.pending() =~= lined(seq![signed_decimal(val as int)]));
        job
    }

    /// Plans a `u8` in decimal, followed by a line end.
    pub fn writeln_u8(&self, val: u8) -> (job: Job<'static>)
        ensures
            job.pending() == lined(seq![signed_decimal(val as int)]),
            job.written() == 0,
    {
        let job = Job::plain(Source::One(Scalar::Unsigned(val as u64)), true);
        assert(job.pending() =~= lined(seq![signed_decimal(val as int)]));
        job
    }

    /// Plans a `u16` in decimal, followed by a line end.
    pub fn writeln_u16(&self, val: u16) -> (job: Job<'static>)
        ensures
            job.pending() == lined(seq![signed_decimal(val as int)]),
            job.written() == 0,
    {
        let job = Job::plain(Source::One(Scalar::Unsigned(val as u64)), true);
        assert(job.pending() =~= lined(seq![signed_decimal(val as int)]));
        job
    }

    /// Plans a `u32` in decimal, followed by a line end.
    pub fn writeln_u32(&self, val: u32) -> (job: Job<'static>)
        ensures
            job.pending() == lined(seq![signed_decimal(val as int)]),
            job.written() == 0,
    {
        let job = Job::plain(Source::One(Scalar::Unsigned(val as u64)), true);
        assert(job.pending() =~= lined(seq![signed_decimal(val as int)]));
        job
    }

    /// Plans a `u64` in decimal, followed by a line end.
    pub fn writeln_u64(&self, val: u64) -> (job: Job<'static>)
        ensures
            job.pending() == lined(seq![signed_decimal(val as int)]),
            job.written() == 0,
    {
        let job = Job::plain(Source::One(Scalar::Unsigned(val)), true);
        assert(job.pending() =~= lined(seq![signed_decimal(val as int)]));
        job
    }

    /// Plans a `usize` in decimal, followed by a line end.
    pub fn writeln_usize(&self, val: usize) -> (job: Job<'static>)
        ensures
            job.pending() == lined(seq![signed_decimal(val as int)]),
            job.written() == 0,
    {
        let job = Job::plain(Source::One(Scalar::Unsigned(val as u64)), true);
        assert(job.pending() =~= lined(seq![signed_decimal(val as int)]));
        job
    }

    /// Plans a slice of `i8`: every element in decimal, between brackets.
    pub fn write_i8_slice<'a>(&self, val: &'a [i8]) -> (job: Job<'a>)
        ensures
            job.pending() == bracketed(integer_items(val@.map_values(|v: i8| v as int))),
            job.written() == 0,
    {
        let source = Source::I8(val);
        let job = Job::plain(source, false);
        assert(source.items(0) =~= integer_items(val@.map_values(|v: i8| v as int)));
        assert(job.pending() =~= bracketed(integer_items(val@.map_values(|v: i8| v as int))));
        job
    }

    /// Plans a slice of `i16`: every element in decimal, between brackets.
    pub fn write_i16_slice<'a>(&self, val: &'a [i16]) -> (job: Job<'a>)
        ensures
            job.pending() == bracketed(integer_items(val@.map_values(|v: i16| v as int))),
            job.written() == 0,
    {
        let source = Source::I16(val);
        let job = Job::plain(source, false);
        assert(source.items(0) =~= integer_items(val@.map_values(|v: i16| v as int)));
        assert(job.pending() =~= bracketed(integer_items(val@.map_values(|v: i16| v as int))));
        job
    }

    /// Plans a slice of `i32`: every element in decimal, between brackets.
    pub fn write_i32_slice<'a>(&self, val: &'a [i32]) -> (job: Job<'a>)
        ensures
            job.pending() == bracketed(integer_items(val@.map_values(|v: i32| v as int))),
            job.written() == 0,
    {
        let source = Source::I32(val);
        let job = Job::plain(source, false);
        assert(source.items(0) =~= integer_items(val@.map_values(|v: i32| v as int)));
        assert(job.pending() =~= bracketed(integer_items(val@.map_values(|v: i32| v as int))));
        job
    }

    /// Plans a slice of `i64`: every element in decimal, between brackets.
    pub fn write_i64_slice<'a>(&self, val: &'a [i64]) -> (job: Job<'a>)
        ensures
            job.pending() == bracketed(integer_items(val@.map_values(|v: i64| v as int))),
            job.written() == 0,
    {
        let source = Source::I64(val);
        let job = Job::plain(source, false);
        assert(source.items(0) =~= integer_items(val@.map_values(|v: i64| v as int)));
        assert(job.pending() =~= bracketed(integer_items(val@.map_values(|v: i64| v as int))));
        job
    }

    /// Plans a slice of `isize`: every element in decimal, between brackets.
    pub fn write_isize_slice<'a>(&self, val: &'a [isize]) -> (job: Job<'a>)
        ensures
            job.pending() == bracketed(integer_items(val@.map_values(|v: isize| v as int))),
            job.written() == 0,
    {
        let source = Source::Isize(val);
        let job = Job::plain(source, false);
        assert(source.items(0) =~= integer_items(val@.map_values(|v: isize| v as int)));
        assert(job.pending() =~= bracketed(integer_items(val@.map_values(|v: isize| v as int))));
        job
    }

    /// Plans a slice of `u8`: every element in decimal, between brackets.
    pub fn write_u8_slice<'a>(&self, val: &'a [u8]) -> (job: Job<'a>)
        ensures
            job.pending() == bracketed(integer_items(val@.map_values(|v: u8| v as int))),
            job.written() == 0,
    {
        let source = Source::U8(val);
        let job = Job::plain(source, false);
        assert(source.items(0) =~= integer_items(val@.map_values(|v: u8| v as int)));
        assert(job.pending() =~= bracketed(integer_items(val@.map_values(|v: u8| v as int))));
        job
    }

    /// Plans a slice of `u16`: every element in decimal, between brackets.
    pub fn write_u16_slice<'a>(&self, val: &'a [u16]) -> (job: Job<'a>)
        ensures
            job.pending() == bracketed(integer_items(val@.map_values(|v: u16| v as int))),
            job.written() == 0,
    {
        let source = Source::U16(val);
        let job = Job::plain(source, false);
        assert(source.items(0) =~= integer_items(val@.map_values(|v: u16| v as int)));
        assert(job.pending() =~= bracketed(integer_items(val@.map_values(|v: u16| v as int))));
        job
    }

    /// Plans a slice of `u32`: every element in decimal, between brackets.
    pub fn write_u32_slice<'a>(&self, val: &'a [u32]) -> (job: Job<'a>)
        ensures
            job.pending() == bracketed(integer_items(val@.map_values(|v: u32| v as int))),
            job.written() == 0,
    {
        let source = Source::U32(val);
        let job = Job::plain(source, false);
        assert(source.items(0) =~= integer_items(val@.map_values(|v: u32| v as int)));
        assert(job.pending() =~= bracketed(integer_items(val@.map_values(|v: u32| v as int))));
        job
    }

    /// Plans a slice of `u64`: every element in decimal, between brackets.
    pub fn write_u64_slice<'a>(&self, val: &'a [u64]) -> (job: Job<'a>)
        ensures
            job.pending() == bracketed(integer_items(val@.map_values(|v: u64| v as int))),
            job.written() == 0,
    {
        let source = Source::U64(val);
        let job = Job::plain(source, false);
        assert(source.items(0) =~= integer_items(val@.map_values(|v: u64| v as int)));
        assert(job.pending() =~= bracketed(integer_items(val@.map_values(|v: u64| v as int))));
        job
    }

    /// Plans a slice of `usize`: every element in decimal, between brackets.
    pub fn write_usize_slice<'a>(&self, val: &'a [usize]) -> (job: Job<'a>)
        ensures
            job.pending() == bracketed(integer_items(val@.map_values(|v: usize| v as int))),
            job.written() == 0,
    {
        let source = Source::Usize(val);
        let job = Job::plain(source, false);
        assert(source.items(0) =~= integer_items(val@.map_values(|v: usize| v as int)));
        assert(job.pending() =~= bracketed(integer_items(val@.map_values(|v: usize| v as int))));
        job
    }

    /// Plans a slice of `i8`: every element in decimal, between brackets,
    /// followed by a line end.
    pub fn writeln_i8_slice<'a>(&self, val: &'a [i8]) -> (job: Job<'a>)
        ensures
            job.pending() == lined(bracketed(integer_items(val@.map_values(|v: i8| v as int)))),
            job.written() == 0,
    {
        let source = Source::I8(val);
        let job = Job::plain(source, true);
        assert(source.items(0) =~= integer_items(val@.map_values(|v: i8| v as int)));
        assert(job.pending() =~= lined(bracketed(integer_items(val@.map_values(|v: i8| v as int)))));
        job
    }

    /// Plans a slice of `i16`: every element in decimal, between brackets,
    /// followed by a line end.
    pub fn writeln_i16_slice<'a>(&self, val: &'a [i16]) -> (job: Job<'a>)
        ensures
            job.pending() == lined(bracketed(integer_items(val@.map_values(|v: i16| v as int)))),
            job.written() == 0,
    {
        let source = Source::I16(val);
        let job = Job::plain(source, true);
        assert(source.items(0) =~= integer_items(val@.map_values(|v: i16| v as int)));
        assert(job.pending() =~= lined(bracketed(integer_items(val@.map_values(|v: i16| v as int)))));
        job
    }

    /// Plans a slice of `i32`: every element in decimal, between brackets,
    /// followed by a line end.
    pub fn writeln_i32_slice<'a>(&self, val: &'a [i32]) -> (job: Job<'a>)
        ensures
            job.pending() == lined(bracketed(integer_items(val@.map_values(|v: i32| v as int)))),
            job.written() == 0,
    {
        let source = Source::I32(val);
        let job = Job::plain(source, true);
        assert(source.items(0) =~= integer_items(val@.map_values(|v: i32| v as int)));
        assert(job.pending() =~= lined(bracketed(integer_items(val@.map_values(|v: i32| v as int)))));
        job
    }

    /// Plans a slice of `i64`: every element in decimal, between brackets,
    /// followed by a line end.
    pub fn writeln_i64_slice<'a>(&self, val: &'a [i64]) -> (job: Job<'a>)
        ensures
            job.pending() == lined(bracketed(integer_items(val@.map_values(|v: i64| v as int)))),
            job.written() == 0,
    {
        let source = Source::I64(val);
        let job = Job::plain(source, true);
        assert(source.items(0) =~= integer_items(val@.map_values(|v: i64| v as int)));
        assert(job.pending() =~= lined(bracketed(integer_items(val@.map_values(|v: i64| v as int)))));
        job
    }

    /// Plans a slice of `isize`: every element in decimal, between brackets,
    /// followed by a line end.
    pub fn writeln_isize_slice<'a>(&self, val: &'a [isize]) -> (job: Job<'a>)
        ensures
            job.pending() == lined(bracketed(integer_items(val@.map_values(|v: isize| v as int)))),
            job.written() == 0,
    {
        let source = Source::Isize(val);
        let job = Job::plain(source, true);
        assert(source.items(0) =~= integer_items(val@.map_values(|v: isize| v as int)));
        assert(job.pending() =~= lined(bracketed(integer_items(val@.map_values(|v: isize| v as int)))));
        job
    }

    /// Plans a slice of `u8`: every element in decimal, between brackets,
    /// followed by a line end.
    pub fn writeln_u8_slice<'a>(&self, val: &'a [u8]) -> (job: Job<'a>)
        ensures
            job.pending() == lined(bracketed(integer_items(val@.map_values(|v: u8| v as int)))),
            job.written() == 0,
    {
        let source = Source::U8(val);
        let job = Job::plain(source, true);
        assert(source.items(0) =~= integer_items(val@.map_values(|v: u8| v as int)));
        assert(job.pending() =~= lined(bracketed(integer_items(val@.map_values(|v: u8| v as int)))));
        job
    }

    /// Plans a slice of `u16`: every element in decimal, between brackets,
    /// followed by a line end.
    pub fn writeln_u16_slice<'a>(&self, val: &'a [u16]) -> (job: Job<'a>)
        ensures
            job.pending() == lined(bracketed(integer_items(val@.map_values(|v: u16| v as int)))),
            job.written() == 0,
    {
        let source = Source::U16(val);
        let job = Job::plain(source, true);
        assert(source.items(0) =~= integer_items(val@.map_values(|v: u16| v as int)));
        assert(job.pending() =~= lined(bracketed(integer_items(val@.map_values(|v: u16| v as int)))));
        job
    }

    /// Plans a slice of `u32`: every element in decimal, between brackets,
    /// followed by a line end.
    pub fn writeln_u32_slice<'a>(&self, val: &'a [u32]) -> (job: Job<'a>)
        ensures
            job.pending() == lined(bracketed(integer_items(val@.map_values(|v: u32| v as int)))),
            job.written() == 0,
    {
        let source = Source::U32(val);
        let job = Job::plain(source, true);
        assert(source.items(0) =~= integer_items(val@.map_values(|v: u32| v as int)));
        assert(job.pending() =~= lined(bracketed(integer_items(val@.map_values(|v: u32| v as int)))));
        job
    }

    /// Plans a slice of `u64`: every element in decimal, between brackets,
    /// followed by a line end.
    pub fn writeln_u64_slice<'a>(&self, val: &'a [u64]) -> (job: Job<'a>)
        ensures
            job.pending() == lined(bracketed(integer_items(val@.map_values(|v: u64| v as int)))),
            job.written() == 0,
    {
        let source = Source::U64(val);
        let job = Job::plain(source, true);
        assert(source.items(0) =~= integer_items(val@.map_values(|v: u64| v as int)));
        assert(job.pending() =~= lined(bracketed(integer_items(val@.map_values(|v: u64| v as int)))));
        job
    }

    /// Plans a slice of `usize`: every element in decimal, between brackets,
    /// followed by a line end.
    pub fn writeln_usize_slice<'a>(&self, val: &'a [usize]) -> (job: Job<'a>)
        ensures
            job.pending() == lined(bracketed(integer_items(val@.map_values(|v: usize| v as int)))),
            job.written() == 0,
    {
        let source = Source::Usize(val);
        let job = Job::plain(source, true);
        assert(source.items(0) =~= integer_items(val@.map_values(|v: usize| v as int)));
        assert(job.pending() =~= lined(bracketed(integer_items(val@.map_values(|v: usize| v as int)))));
        job
    }
}

} // verus!
