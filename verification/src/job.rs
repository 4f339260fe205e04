//! A job: one value or one slice on its way to the sink, piece by piece.

use crate::glyph::Glyph;
use crate::number::{Fixed, Scientific, Width};
use crate::outcome::settle;
use crate::pieces::{bracketed, closing, joined_from, line_end, opening, optional, separator};
use crate::scalar::{Position, Scalar};
use crate::writer::Writer;
use vstd::prelude::*;

verus! {

/// What a job writes: one value, or the elements of a slice between brackets.
#[derive(Clone, Copy)]
pub(crate) enum Source<'a> {
    One(Scalar<'a>),
    I8(&'a [i8]),
    I16(&'a [i16]),
    I32(&'a [i32]),
    I64(&'a [i64]),
    Isize(&'a [isize]),
    U8(&'a [u8]),
    U16(&'a [u16]),
    U32(&'a [u32]),
    U64(&'a [u64]),
    Usize(&'a [usize]),
    Fixed(&'a [Fixed]),
    Scientific(&'a [Scientific]),
}

impl<'a> Source<'a> {
    /// Whether brackets and separators are written.
    pub(crate) open spec fn is_slice(self) -> bool {
        !(self is One)
    }

    /// The number of values.
    pub(crate) open spec fn len(self) -> nat {
        match self {
            Source::One(_) => 1,
            Source::I8(s) => s@.len(),
            Source::I16(s) => s@.len(),
            Source::I32(s) => s@.len(),
            Source::I64(s) => s@.len(),
            Source::Isize(s) => s@.len(),
            Source::U8(s) => s@.len(),
            Source::U16(s) => s@.len(),
            Source::U32(s) => s@.len(),
            Source::U64(s) => s@.len(),
            Source::Usize(s) => s@.len(),
            Source::Fixed(s) => s@.len(),
            Source::Scientific(s) => s@.len(),
        }
    }

    /// The value at index `i`.
    pub(crate) open spec fn element(self, i: int) -> Scalar<'a> {
        match self {
            Source::One(scalar) => scalar,
            Source::I8(s) => Scalar::Signed(s@[i] as i64),
            Source::I16(s) => Scalar::Signed(s@[i] as i64),
            Source::I32(s) => Scalar::Signed(s@[i] as i64),
            Source::I64(s) => Scalar::Signed(s@[i]),
            Source::Isize(s) => Scalar::Signed(s@[i] as i64),
            Source::U8(s) => Scalar::Unsigned(s@[i] as u64),
            Source::U16(s) => Scalar::Unsigned(s@[i] as u64),
            Source::U32(s) => Scalar::Unsigned(s@[i] as u64),
            Source::U64(s) => Scalar::Unsigned(s@[i]),
            Source::Usize(s) => Scalar::Unsigned(s@[i] as u64),
            Source::Fixed(s) => Scalar::Fixed(s@[i]),
            Source::Scientific(s) => Scalar::Scientific(s@[i]),
        }
    }

    /// The pieces of each value.
    pub(crate) open spec fn items(self, places: nat) -> Seq<Seq<Seq<u8>>> {
        Seq::new(self.len(), |i: int| self.element(i).pieces(places))
    }

    /// All the pieces of this source.
    pub(crate) open spec fn pieces(self, places: nat) -> Seq<Seq<u8>> {
        if self.is_slice() {
            bracketed(self.items(places))
        } else {
            self.element(0).pieces(places)
        }
    }

    /// The pieces from the value at index `i` on, up to the closing.
    pub(crate) open spec fn later(self, places: nat, i: int) -> Seq<Seq<u8>>
        decreases self.len() - i,
    {
        if 0 <= i < self.len() {
            self.element(i).pieces(places) + optional(separator(), self.is_slice()) + self.later(
                places,
                i + 1,
            )
        } else {
            optional(closing(), self.is_slice())
        }
    }

    /// For a slice, what follows from index `i` on is the joined elements and
    /// the closing.
    pub(crate) proof fn lemma_later(self, places: nat, i: int)
        requires
            self.is_slice(),
            0 <= i <= self.len(),
        ensures
            self.later(places, i) == joined_from(self.items(places), i) + seq![closing()],
        decreases self.len() - i,
    {
        if i < self.len() {
            self.lemma_later(places, i + 1);
            assert(self.later(places, i) =~= joined_from(self.items(places), i) + seq![closing()]);
        } else {
            assert(self.later(places, i) =~= joined_from(self.items(places), i) + seq![closing()]);
        }
    }

    /// The number of values.
    pub(crate) fn count(&self) -> (n: usize)
        ensures
            n == self.len(),
    {
        match self {
            Source::One(_) => 1,
            Source::I8(s) => s.len(),
            Source::I16(s) => s.len(),
            Source::I32(s) => s.len(),
            Source::I64(s) => s.len(),
            Source::Isize(s) => s.len(),
            Source::U8(s) => s.len(),
            Source::U16(s) => s.len(),
            Source::U32(s) => s.len(),
            Source::U64(s) => s.len(),
            Source::Usize(s) => s.len(),
            Source::Fixed(s) => s.len(),
            Source::Scientific(s) => s.len(),
        }
    }

    /// Whether brackets and separators are written.
    pub(crate) fn bracketed(&self) -> (b: bool)
        ensures
            b == self.is_slice(),
    {
        match self {
            Source::One(_) => false,
            _ => true,
        }
    }

    /// The value at index `i`.
    pub(crate) fn get(&self, i: usize) -> (scalar: Scalar<'a>)
        requires
            i < self.len(),
        ensures
            scalar == self.element(i as int),
    {
        match self {
            Source::One(scalar) => *scalar,
            Source::I8(s) => Scalar::Signed(s[i] as i64),
            Source::I16(s) => Scalar::Signed(s[i] as i64),
            Source::I32(s) => Scalar::Signed(s[i] as i64),
            Source::I64(s) => Scalar::Signed(s[i]),
            Source::Isize(s) => Scalar::Signed(s[i] as i64),
            Source::U8(s) => Scalar::Unsigned(s[i] as u64),
            Source::U16(s) => Scalar::Unsigned(s[i] as u64),
            Source::U32(s) => Scalar::Unsigned(s[i] as u64),
            Source::U64(s) => Scalar::Unsigned(s[i]),
            Source::Usize(s) => Scalar::Unsigned(s[i] as u64),
            Source::Fixed(s) => Scalar::Fixed(s[i]),
            Source::Scientific(s) => Scalar::Scientific(s[i]),
        }
    }
}

/// In front of its first piece a value has all its pieces to come.
proof fn lemma_rest_at_start(scalar: Scalar, places: nat, position: Position)
    requires
        position.part == crate::scalar::Part::Lead,
    ensures
        scalar.rest(places, position) == scalar.pieces(places),
{
}

/// The pieces from the value at `index` on, `position` being the place inside
/// that value, up to the closing.
#[verifier::opaque]
spec fn body_of(source: Source, places: nat, index: int, position: Position) -> Seq<Seq<u8>> {
    if 0 <= index < source.len() {
        source.element(index).rest(places, position) + optional(separator(), source.is_slice())
            + source.later(places, index + 1)
    } else {
        optional(closing(), source.is_slice())
    }
}

/// Inside the values, what is left is the rest of the value at `index`, its
/// separator, and what follows.
proof fn lemma_body_inside(source: Source, places: nat, index: int, position: Position)
    requires
        0 <= index < source.len(),
    ensures
        body_of(source, places, index, position) == source.element(index).rest(places, position)
            + (optional(separator(), source.is_slice()) + source.later(places, index + 1)),
{
    reveal(body_of);
    assert(body_of(source, places, index, position) =~= source.element(index).rest(
        places,
        position,
    ) + (optional(separator(), source.is_slice()) + source.later(places, index + 1)));
}

/// In front of a value, what is left is that value and all that follows.
proof fn lemma_body_fresh(source: Source, places: nat, index: int, position: Position)
    requires
        0 <= index,
        position.part == crate::scalar::Part::Lead,
    ensures
        body_of(source, places, index, position) == source.later(places, index),
{
    reveal(body_of);
    if index < source.len() {
        lemma_rest_at_start(source.element(index), places, position);
    }
}

/// Behind the values only the closing of a slice is left.
proof fn lemma_body_outside(source: Source, places: nat, index: int, position: Position)
    requires
        index >= source.len(),
    ensures
        body_of(source, places, index, position) == optional(closing(), source.is_slice()),
        !source.is_slice() ==> source.len() == 1,
{
    reveal(body_of);
}

/// A piece in front stays in front when more is appended.
proof fn lemma_move_front(
    head: Seq<u8>,
    rest: Seq<Seq<u8>>,
    behind: Seq<Seq<u8>>,
    tail: Seq<Seq<u8>>,
)
    ensures
        ((seq![head] + rest) + behind) + tail == seq![head] + ((rest + behind) + tail),
{
    assert(((seq![head] + rest) + behind) + tail =~= seq![head] + ((rest + behind) + tail));
}

/// An optional piece in front of `rest` and `tail`: present, it stays in
/// front; absent, it leaves no trace.
proof fn lemma_join_front(head: Seq<u8>, rest: Seq<Seq<u8>>, tail: Seq<Seq<u8>>)
    ensures
        ((optional(head, true) + rest) + tail) == seq![head] + (rest + tail),
        ((optional(head, false) + rest) + tail) == rest + tail,
        optional(head, false) + rest == rest,
        optional(head, true) + tail == seq![head] + tail,
        optional(head, false) + tail == tail,
{
    assert(((optional(head, true) + rest) + tail) =~= seq![head] + (rest + tail));
    assert(((optional(head, false) + rest) + tail) =~= rest + tail);
    assert(optional(head, false) + rest =~= rest);
    assert(optional(head, false) + tail =~= tail);
}

/// Nothing in front leaves no trace.
proof fn lemma_drop_empty(rest: Seq<Seq<u8>>, behind: Seq<Seq<u8>>)
    requires
        rest.len() == 0,
    ensures
        rest + behind == behind,
{
    assert(rest + behind =~= behind);
}

/// How far a job has come.
#[derive(Clone, Copy, PartialEq, Eq, Structural)]
enum Stage {
    /// Nothing is written yet.
    Open,
    /// Inside the values.
    Items,
    /// Behind the values and the closing.
    LineEnd,
    /// Behind the last piece.
    Done,
}

/// What the caller does next.
pub enum Step<'b, E> {
    /// Hand these bytes to the sink, in one write, and come back with its
    /// answer.
    Write(&'b [u8]),
    /// Stop: this is what the whole call returns.
    Done(Result<usize, (E, usize)>),
}

/// One value or one slice on its way to the sink.
///
/// A job knows the pieces that are still to be written and the number of
/// bytes that the sink has accepted so far.
pub struct Job<'a> {
    source: Source<'a>,
    width: Width,
    places: usize,
    line: bool,
    stage: Stage,
    index: usize,
    position: Position,
    count: usize,
}

impl<'a> Job<'a> {
    #[verifier::type_invariant]
    spec fn well_formed(self) -> bool {
        self.places <= self.width.limit()
    }

    spec fn body(self) -> Seq<Seq<u8>> {
        body_of(self.source, self.places as nat, self.index as int, self.position)
    }

    /// The pieces that are still to be handed to the sink, in order.
    pub closed spec fn pending(&self) -> Seq<Seq<u8>> {
        match self.stage {
            Stage::Open => optional(opening(), self.source.is_slice()) + self.body() + optional(
                line_end(),
                self.line,
            ),
            Stage::Items => self.body() + optional(line_end(), self.line),
            Stage::LineEnd => optional(line_end(), self.line),
            Stage::Done => seq![],
        }
    }

    /// The number of bytes that the sink has accepted so far.
    pub closed spec fn written(&self) -> nat {
        self.count as nat
    }

    /// A job that has written nothing yet.
    #[verifier::rlimit(40)]
    pub(crate) fn new(source: Source<'a>, width: Width, places: usize, line: bool) -> (job: Self)
        requires
            places <= width.limit(),
        ensures
            job.pending() == source.pieces(places as nat) + optional(line_end(), line),
            job.written() == 0,
    {
        let job = Job {
            source,
            width,
            places,
            line,
            stage: Stage::Open,
            index: 0,
            position: Position::start(),
            count: 0,
        };
        proof {
            reveal(body_of);
            if source.is_slice() {
                source.lemma_later(places as nat, 0);
                if source.len() > 0 {
                    source.lemma_later(places as nat, 1);
                }
                assert(job.body() =~= joined_from(source.items(places as nat), 0) + seq![closing()]);
                assert(job.pending() =~= source.pieces(places as nat) + optional(line_end(), line));
            } else {
                assert(source.later(places as nat, 1) =~= Seq::<Seq<u8>>::empty());
                assert(job.body() =~= source.element(0).pieces(places as nat));
                assert(job.pending() =~= source.pieces(places as nat) + optional(line_end(), line));
            }
        }
        job
    }

    /// A job for values that have no places behind a point.
    pub(crate) fn plain(source: Source<'a>, line: bool) -> (job: Self)
        ensures
            job.pending() == source.pieces(0) + optional(line_end(), line),
            job.written() == 0,
    {
        Job::new(source, Width::Double, 0, line)
    }

    /// The number of bytes that the sink has accepted so far.
    pub fn count(&self) -> (count: usize)
        ensures
            count == self.written(),
    {
        self.count
    }

    /// The next piece while the job is inside its values; `None` once it is
    /// behind them and the closing.
    #[verifier::rlimit(40)]
    fn next_item(&mut self) -> (next: Option<Glyph<'a>>)
        requires
            old(self).stage == Stage::Items,
        ensures
            match next {
                Some(glyph) => old(self).pending() == seq![glyph.bytes()] + final(self).pending(),
                None => old(self).pending() == final(self).pending() && final(self).stage
                    == Stage::LineEnd,
            },
            final(self).written() == old(self).written(),
            final(self).line == old(self).line,
    {
        proof {
            use_type_invariant(&*self);
        }
        let ghost tail = optional(line_end(), self.line);
        let ghost places = self.places as nat;
        let bracketed = self.source.bracketed();
        if self.index < self.source.count() {
            let scalar = self.source.get(self.index);
            let ghost before = scalar.rest(places, self.position);
            let ghost behind = optional(separator(), self.source.is_slice()) + self.source.later(
                places,
                self.index + 1,
            );
            proof {
                lemma_body_inside(self.source, places, self.index as int, self.position);
            }
            let mut position = self.position;
            let next = scalar.step(self.places, self.width, &mut position);
            self.position = position;
            proof {
                lemma_body_inside(self.source, places, self.index as int, self.position);
            }
            match next {
                Some(glyph) => {
                    proof {
                        lemma_move_front(
                            glyph.bytes(),
                            scalar.rest(places, self.position),
                            behind,
                            tail,
                        );
                    }
                    return Some(glyph);
                },
                None => {
                    self.index = self.index + 1;
                    self.position = Position::start();
                    proof {
                        lemma_drop_empty(before, behind);
                        lemma_body_fresh(self.source, places, self.index as int, self.position);
                        lemma_join_front(
                            separator(),
                            self.source.later(places, self.index as int),
                            tail,
                        );
                    }
                    if bracketed {
                        return Some(Glyph::Separator);
                    }
                },
            }
        }
        proof {
            lemma_body_outside(self.source, places, self.index as int, self.position);
            lemma_join_front(closing(), Seq::empty(), tail);
        }
        self.stage = Stage::LineEnd;
        if bracketed {
            return Some(Glyph::Closing);
        }
        None
    }

    /// The next piece, if one is left.
    #[verifier::rlimit(40)]
    fn advance(&mut self) -> (next: Option<Glyph<'a>>)
        ensures
            match next {
                Some(glyph) => old(self).pending() == seq![glyph.bytes()] + final(self).pending(),
                None => old(self).pending().len() == 0 && final(self).pending().len() == 0,
            },
            final(self).written() == old(self).written(),
    {
        proof {
            use_type_invariant(&*self);
        }
        let ghost all = self.pending();
        if self.stage == Stage::Open {
            self.stage = Stage::Items;
            if self.source.bracketed() {
                assert(all =~= seq![opening()] + self.pending());
                return Some(Glyph::Opening);
            }
            assert(all =~= self.pending());
        }
        if self.stage == Stage::Items {
            match self.next_item() {
                Some(glyph) => {
                    return Some(glyph);
                },
                None => {},
            }
        }
        proof {
            use_type_invariant(&*self);
        }
        if self.stage == Stage::LineEnd {
            self.stage = Stage::Done;
            if self.line {
                assert(all =~= seq![line_end()] + self.pending());
                return Some(Glyph::LineEnd);
            }
            assert(all =~= self.pending());
        }
        None
    }

    /// Takes the sink's answer to the piece that was handed out last (`None`
    /// before the first piece) and says what to do next.
    ///
    /// A failure ends the call at once, with the sink's error and the bytes
    /// accepted before it. Otherwise the accepted bytes are added to the
    /// count, and the next piece is handed out; when none is left the call
    /// ends with the count.
    #[verifier::rlimit(40)]
    pub fn step<'b, E>(&'b mut self, writer: &'b mut Writer, answer: Option<Result<usize, E>>) -> (next:
        Step<'b, E>)
        requires
            answer matches Some(Ok(n)) ==> old(self).written() + n <= usize::MAX,
        ensures
            match settle(old(self).written(), answer) {
                Err((e, count)) => {
                    &&& next matches Step::Done(Err(failure))
                    &&& failure.0 == e
                    &&& failure.1 == count
                    &&& final(self).pending() == old(self).pending()
                    &&& final(self).written() == old(self).written()
                    &&& final(writer).scratch() == old(writer).scratch()
                },
                Ok(count) => {
                    &&& final(self).written() == count
                    &&& old(self).pending().len() > 0 ==> {
                        &&& next matches Step::Write(bytes)
                        &&& bytes@ == old(self).pending()[0]
                        &&& final(self).pending() == old(self).pending().skip(1)
                        &&& final(writer).scratch() == old(writer).scratch() || (bytes@.len() <= 20
                            && final(writer).scratch().subrange(20 - bytes@.len(), 20) == bytes@)
                    }
                    &&& old(self).pending().len() == 0 ==> {
                        &&& next matches Step::Done(Ok(total))
                        &&& total == count
                        &&& final(self).pending() == old(self).pending()
                        &&& final(writer).scratch() == old(writer).scratch()
                    }
                },
            },
    {
        let count = match answer {
            Some(Err(e)) => {
                return Step::Done(Err((e, self.count)));
            },
            Some(Ok(n)) => self.count + n,
            None => self.count,
        };
        proof {
            use_type_invariant(&*self);
        }
        let ghost all = self.pending();
        self.count = count;
        assert(self.pending() == all);
        match self.advance() {
            Some(glyph) => {
                assert((seq![glyph.bytes()] + self.pending()).skip(1) =~= self.pending());
                Step::Write(writer.render(glyph))
            },
            None => {
                assert(self.pending() =~= all);
                Step::Done(Ok(count))
            },
        }
    }
}

} // verus!
