//! Floating-point values of both widths, in fixed-point and in scientific
//! form, alone, in slices, and with a line end.

use crate::job::{Job, Source};
use crate::number::{fixed_items, scientific_items, Fixed, Scientific, Width};
use crate::pieces::{bracketed, lined};
use crate::scalar::Scalar;
use crate::writer::Writer;
use vstd::prelude::*;

verus! {

impl Writer {
    /// Plans a value of the narrow width in fixed-point form, with `nodp` places or the
    /// width's limit if that is less.
    pub fn write_f32(&self, val: Fixed, nodp: usize) -> (job: Job<'static>)
        ensures
            job.pending() == val.pieces(Width::Single.clamp(nodp as nat)),
            job.written() == 0,
    {
        let places = Width::Single.places(nodp);
        let job = Job::new(Source::One(Scalar::Fixed(val)), Width::Single, places, false);
        assert(job.pending() =~= val.pieces(Width::Single.clamp(nodp as nat)));
        job
    }

    /// Plans a value of the wide width in fixed-point form, with `nodp` places or the
    /// width's limit if that is less.
    pub fn write_f64(&self, val: Fixed, nodp: usize) -> (job: Job<'static>)
        ensures
            job.pending() == val.pieces(Width::Double.clamp(nodp as nat)),
            job.written() == 0,
    {
        let places = Width::Double.places(nodp);
        let job = Job::new(Source::One(Scalar::Fixed(val)), Width::Double, places, false);
        assert(job.pending() =~= val.pieces(Width::Double.clamp(nodp as nat)));
        job
    }

    /// Plans a value of the narrow width in scientific form, with `nodp` places or the
    /// width's limit if that is less.
    pub fn write_f32_exp(&self, val: Scientific, nodp: usize) -> (job: Job<'static>)
        ensures
            job.pending() == val.pieces(Width::Single.clamp(nodp as nat)),
            job.written() == 0,
    {
        let places = Width::Single.places(nodp);
        let job = Job::new(Source::One(Scalar::Scientific(val)), Width::Single, places, false);
        assert(job.pending() =~= val.pieces(Width::Single.clamp(nodp as nat)));
        job
    }

    /// Plans a value of the wide width in scientific form, with `nodp` places or the
    /// width's limit if that is less.
    pub fn write_f64_exp(&self, val: Scientific, nodp: usize) -> (job: Job<'static>)
        ensures
            job.pending() == val.pieces(Width::Double.clamp(nodp as nat)),
            job.written() == 0,
    {
        let places = Width::Double.places(nodp);
        let job = Job::new(Source::One(Scalar::Scientific(val)), Width::Double, places, false);
        assert(job.pending() =~= val.pieces(Width::Double.clamp(nodp as nat)));
        job
    }

    /// Plans a value of the narrow width in fixed-point form, with `nodp` places or the
    /// width's limit if that is less, followed by a line end.
    pub fn writeln_f32(&self, val: Fixed, nodp: usize) -> (job: Job<'static>)
        ensures
            job.pending() == lined(val.pieces(Width::Single.clamp(nodp as nat))),
            job.written() == 0,
    {
        let places = Width::Single.places(nodp);
        let job = Job::new(Source::One(Scalar::Fixed(val)), Width::Single, places, true);
        assert(job.pending() =~= lined(val.pieces(Width::Single.clamp(nodp as nat))));
        job
    }

    /// Plans a value of the wide width in fixed-point form, with `nodp` places or the
    /// width's limit if that is less, followed by a line end.
    pub fn writeln_f64(&self, val: Fixed, nodp: usize) -> (job: Job<'static>)
        ensures
            job.pending() == lined(val.pieces(Width::Double.clamp(nodp as nat))),
            job.written() == 0,
    {
        let places = Width::Double.places(nodp);
        let job = Job::new(Source::One(Scalar::Fixed(val)), Width::Double, places, true);
        assert(job.pending() =~= lined(val.pieces(Width::Double.clamp(nodp as nat))));
        job
    }

    /// Plans a value of the narrow width in scientific form, with `nodp` places or the
    /// width's limit if that is less, followed by a line end.
    pub fn writeln_f32_exp(&self, val: Scientific, nodp: usize) -> (job: Job<'static>)
        ensures
            job.pending() == lined(val.pieces(Width::Single.clamp(nodp as nat))),
            job.written() == 0,
    {
        let places = Width::Single.places(nodp);
        let job = Job::new(Source::One(Scalar::Scientific(val)), Width::Single, places, true);
        assert(job.pending() =~= lined(val.pieces(Width::Single.clamp(nodp as nat))));
        job
    }

    /// Plans a value of the wide width in scientific form, with `nodp` places or the
    /// width's limit if that is less, followed by a line end.
    pub fn writeln_f64_exp(&self, val: Scientific, nodp: usize) -> (job: Job<'static>)
        ensures
            job.pending() == lined(val.pieces(Width::Double.clamp(nodp as nat))),
            job.written() == 0,
    {
        let places = Width::Double.places(nodp);
        let job = Job::new(Source::One(Scalar::Scientific(val)), Width::Double, places, true);
        assert(job.pending() =~= lined(val.pieces(Width::Double.clamp(nodp as nat))));
        job
    }

    /// Plans a slice of values of the narrow width: every element in fixed-point form,
    /// with `nodp` places or the width's limit if that is less, between brackets.
    pub fn write_f32_slice<'a>(&self, val: &'a [Fixed], nodp: usize) -> (job: Job<'a>)
        ensures
            job.pending() == bracketed(fixed_items(val@, Width::Single.clamp(nodp as nat))),
            job.written() == 0,
    {
        let places = Width::Single.places(nodp);
        let source = Source::Fixed(val);
        let job = Job::new(source, Width::Single, places, false);
        assert(source.items(places as nat) =~= fixed_items(val@, Width::Single.clamp(nodp as nat)));
        assert(job.pending() =~= bracketed(fixed_items(val@, Width::Single.clamp(nodp as nat))));
        job
    }

    /// Plans a slice of values of the wide width: every element in fixed-point form,
    /// with `nodp` places or the width's limit if that is less, between brackets.
    pub fn write_f64_slice<'a>(&self, val: &'a [Fixed], nodp: usize) -> (job: Job<'a>)
        ensures
            job.pending() == bracketed(fixed_items(val@, Width::Double.clamp(nodp as nat))),
            job.written() == 0,
    {
        let places = Width::Double.places(nodp);
        let source = Source::Fixed(val);
        let job = Job::new(source, Width::Double, places, false);
        assert(source.items(places as nat) =~= fixed_items(val@, Width::Double.clamp(nodp as nat)));
        assert(job.pending() =~= bracketed(fixed_items(val@, Width::Double.clamp(nodp as nat))));
        job
    }

    /// Plans a slice of values of the narrow width: every element in scientific form,
    /// with `nodp` places or the width's limit if that is less, between brackets.
    pub fn write_f32_slice_exp<'a>(&self, val: &'a [Scientific], nodp: usize) -> (job: Job<'a>)
        ensures
            job.pending() == bracketed(scientific_items(val@, Width::Single.clamp(nodp as nat))),
            job.written() == 0,
    {
        let places = Width::Single.places(nodp);
        let source = Source::Scientific(val);
        let job = Job::new(source, Width::Single, places, false);
        assert(source.items(places as nat) =~= scientific_items(val@, Width::Single.clamp(nodp as nat)));
        assert(job.pending() =~= bracketed(scientific_items(val@, Width::Single.clamp(nodp as nat))));
        job
    }

    /// Plans a slice of values of the wide width: every element in scientific form,
    /// with `nodp` places or the width's limit if that is less, between brackets.
    pub fn write_f64_slice_exp<'a>(&self, val: &'a [Scientific], nodp: usize) -> (job: Job<'a>)
        ensures
            job.pending() == bracketed(scientific_items(val@, Width::Double.clamp(nodp as nat))),
            job.written() == 0,
    {
        let places = Width::Double.places(nodp);
        let source = Source::Scientific(val);
        let job = Job::new(source, Width::Double, places, false);
        assert(source.items(places as nat) =~= scientific_items(val@, Width::Double.clamp(nodp as nat)));
        assert(job.pending() =~= bracketed(scientific_items(val@, Width::Double.clamp(nodp as nat))));
        job
    }

    /// Plans a slice of values of the narrow width: every element in fixed-point form,
    /// with `nodp` places or the width's limit if that is less, between brackets,
    /// followed by a line end.
    pub fn writeln_f32_slice<'a>(&self, val: &'a [Fixed], nodp: usize) -> (job: Job<'a>)
        ensures
            job.pending() == lined(bracketed(fixed_items(val@, Width::Single.clamp(nodp as nat)))),
            job.written() == 0,
    {
        let places = Width::Single.places(nodp);
        let source = Source::Fixed(val);
        let job = Job::new(source, Width::Single, places, true);
        assert(source.items(places as nat) =~= fixed_items(val@, Width::Single.clamp(nodp as nat)));
        assert(job.pending() =~= lined(bracketed(fixed_items(val@, Width::Single.clamp(nodp as nat)))));
        job
    }

    /// Plans a slice of values of the wide width: every element in fixed-point form,
    /// with `nodp` places or the width's limit if that is less, between brackets,
    /// followed by a line end.
    pub fn writeln_f64_slice<'a>(&self, val: &'a [Fixed], nodp: usize) -> (job: Job<'a>)
        ensures
            job.pending() == lined(bracketed(fixed_items(val@, Width::Double.clamp(nodp as nat)))),
            job.written() == 0,
    {
        let places = Width::Double.places(nodp);
        let source = Source::Fixed(val);
        let job = Job::new(source, Width::Double, places, true);
        assert(source.items(places as nat) =~= fixed_items(val@, Width::Double.clamp(nodp as nat)));
        assert(job.pending() =~= lined(bracketed(fixed_items(val@, Width::Double.clamp(nodp as nat)))));
        job
    }

    /// Plans a slice of values of the narrow width: every element in scientific form,
    /// with `nodp` places or the width's limit if that is less, between brackets,
    /// followed by a line end.
    pub fn writeln_f32_slice_exp<'a>(&self, val: &'a [Scientific], nodp: usize) -> (job: Job<'a>)
        ensures
            job.pending() == lined(bracketed(scientific_items(val@, Width::Single.clamp(nodp as nat)))),
            job.written() == 0,
    {
        let places = Width::Single.places(nodp);
        let source = Source::Scientific(val);
        let job = Job::new(source, Width::Single, places, true);
        assert(source.items(places as nat) =~= scientific_items(val@, Width::Single.clamp(nodp as nat)));
        assert(job.pending() =~= lined(bracketed(scientific_items(val@, Width::Single.clamp(nodp as nat)))));
        job
    }

    /// Plans a slice of values of the wide width: every element in scientific form,
    /// with `nodp` places or the width's limit if that is less, between brackets,
    /// followed by a line end.
    pub fn writeln_f64_slice_exp<'a>(&self, val: &'a [Scientific], nodp: usize) -> (job: Job<'a>)
        ensures
            job.pending() == lined(bracketed(scientific_items(val@, Width::Double.clamp(nodp as nat)))),
            job.written() == 0,
    {
        let places = Width::Double.places(nodp);
        let source = Source::Scientific(val);
        let job = Job::new(source, Width::Double, places, true);
        assert(source.items(places as nat) =~= scientific_items(val@, Width::Double.clamp(nodp as nat)));
        assert(job.pending() =~= lined(bracketed(scientific_items(val@, Width::Double.clamp(nodp as nat)))));
        job
    }
}

} // verus!
