//! Numbers as ASCII text for a byte sink that may accept less than it is
//! offered, or fail, at any write.
//!
//! Nothing here allocates, and nothing here touches the sink. A [`Writer`]
//! plans each value as a [`Job`]: the ordered pieces of text that go to the
//! sink, one write each. The caller runs the job: it calls [`Job::step`],
//! hands the bytes it gets to its sink, and calls `step` again with the sink's
//! answer, until `step` says that the call is done. The job keeps the count of
//! the bytes that the sink accepted and ends the call at the first failure,
//! with the sink's error and the count so far.
//!
//! Integers are written in canonical decimal, by `numtoa`, in the writer's
//! scratch buffer. A floating-point value comes taken apart into integers, as
//! a [`Fixed`] or a [`Scientific`]; how many places follow the point is capped
//! by the [`Width`] it came from. Slices stand between brackets, every element
//! followed by a comma, and any value can be followed by a line end.
//!
//! What a job writes is stated in [`pieces`], what a run returns in
//! [`outcome`], and what the digits stand for in [`digits`] and [`meaning`].

mod convert;
pub mod digits;
mod floats;
mod glyph;
mod integers;
pub mod job;
pub mod meaning;
pub mod number;
pub mod outcome;
pub mod pieces;
mod scalar;
pub mod writer;

pub use job::{Job, Step};
pub use number::{Fixed, Scientific, Width, F32_EXP, F64_EXP, U64_BASE};
pub use writer::Writer;
