//! What a whole call returns, given the answers of the sink: the rule of
//! [`Job::step`](crate::job::Job::step), folded over the pieces.

use crate::pieces::text;
use vstd::prelude::*;

verus! {

/// The bytes that the first `k` answers accepted.
pub open spec fn accepted<E>(answers: Seq<Result<usize, E>>, k: int) -> nat
    decreases k,
{
    if k <= 0 || answers.len() == 0 {
        0
    } else {
        (match answers[0] {
            Ok(n) => n as nat,
            Err(_) => 0,
        }) + accepted(answers.skip(1), k - 1)
    }
}

/// What one answer of the sink does to a call that has `written` bytes
/// accepted: bytes that were accepted are added to the count; an error ends
/// the call, and the count of the bytes accepted before goes with it. Before
/// the first write there is no answer, and nothing changes.
pub open spec fn settle<E>(written: nat, answer: Option<Result<usize, E>>) -> Result<
    nat,
    (E, nat),
> {
    match answer {
        None => Ok(written),
        Some(Ok(n)) => Ok(written + n as nat),
        Some(Err(e)) => Err((e, written)),
    }
}

/// What a call returns when `written` bytes were accepted before and the sink
/// gives `answers`, one to each piece that is left: the count of all accepted
/// bytes, or the first error with the count of the bytes accepted before it.
pub open spec fn outcome<E>(written: nat, answers: Seq<Result<usize, E>>) -> Result<nat, (E, nat)>
    decreases answers.len(),
{
    if answers.len() == 0 {
        Ok(written)
    } else {
        match settle(written, Some(answers[0])) {
            Ok(count) => outcome(count, answers.skip(1)),
            Err(failure) => Err(failure),
        }
    }
}

/// A call that the sink fails at its `k`-th piece, after accepting the pieces
/// before it, returns the sink's error and exactly the bytes accepted before.
pub proof fn lemma_outcome_failure<E>(written: nat, answers: Seq<Result<usize, E>>, k: int, e: E)
    requires
        0 <= k < answers.len(),
        forall|i: int| 0 <= i < k ==> (#[trigger] answers[i]) is Ok,
        answers[k] == Err::<usize, E>(e),
    ensures
        outcome(written, answers) == Err::<nat, (E, nat)>((e, written + accepted(answers, k))),
    decreases k,
{
    if k > 0 {
        let rest = answers.skip(1);
        assert(answers[0] is Ok);
        assert forall|i: int| 0 <= i < k - 1 implies (#[trigger] rest[i]) is Ok by {
            assert(rest[i] == answers[i + 1]);
        }
        lemma_outcome_failure(written + answers[0]->Ok_0 as nat, rest, k - 1, e);
    }
}

/// A call that the sink never fails returns all the bytes it accepted.
pub proof fn lemma_outcome_success<E>(written: nat, answers: Seq<Result<usize, E>>)
    requires
        forall|i: int| 0 <= i < answers.len() ==> (#[trigger] answers[i]) is Ok,
    ensures
        outcome(written, answers) == Ok::<nat, (E, nat)>(
            written + accepted(answers, answers.len() as int),
        ),
    decreases answers.len(),
{
    if answers.len() > 0 {
        let rest = answers.skip(1);
        assert(answers[0] is Ok);
        assert forall|i: int| 0 <= i < rest.len() implies (#[trigger] rest[i]) is Ok by {
            assert(rest[i] == answers[i + 1]);
        }
        lemma_outcome_success(written + answers[0]->Ok_0 as nat, rest);
    }
}

/// A call made of two calls in a row returns what the second returns when it
/// starts from the count of the first, or the failure of the first: the count
/// that comes with an error holds the bytes of every part before it.
pub proof fn lemma_outcome_sequence<E>(
    written: nat,
    first: Seq<Result<usize, E>>,
    second: Seq<Result<usize, E>>,
)
    ensures
        outcome(written, first + second) == match outcome(written, first) {
            Ok(count) => outcome(count, second),
            Err(failure) => Err(failure),
        },
    decreases first.len(),
{
    if first.len() == 0 {
        assert(first + second =~= second);
    } else {
        assert((first + second)[0] == first[0]);
        assert((first + second).skip(1) =~= first.skip(1) + second);
        match first[0] {
            Ok(n) => {
                lemma_outcome_sequence(written + n as nat, first.skip(1), second);
            },
            Err(_) => {},
        }
    }
}

/// The count of a call that starts from `written` is the count of the same
/// call started from zero, plus `written`, on success and on failure alike.
pub proof fn lemma_outcome_offset<E>(written: nat, answers: Seq<Result<usize, E>>)
    ensures
        outcome(written, answers) == match outcome(0, answers) {
            Ok(count) => Ok::<nat, (E, nat)>(written + count),
            Err((e, count)) => Err((e, written + count)),
        },
    decreases answers.len(),
{
    if answers.len() > 0 {
        match answers[0] {
            Ok(n) => {
                lemma_outcome_offset(written + n as nat, answers.skip(1));
                lemma_outcome_offset(n as nat, answers.skip(1));
            },
            Err(_) => {},
        }
    }
}

/// When the sink accepts each of the first `k` pieces whole, the bytes it has
/// accepted are the text of those pieces.
pub proof fn lemma_accepted_whole<E>(pieces: Seq<Seq<u8>>, answers: Seq<Result<usize, E>>, k: int)
    requires
        0 <= k <= pieces.len(),
        k <= answers.len(),
        forall|i: int| 0 <= i < k ==> #[trigger] answers[i] == Ok::<usize, E>(pieces[i].len() as usize),
        forall|i: int| 0 <= i < k ==> (#[trigger] pieces[i]).len() <= usize::MAX,
    ensures
        accepted(answers, k) == text(pieces.take(k)).len(),
    decreases k,
{
    if k > 0 {
        let rest_pieces = pieces.skip(1);
        let rest_answers = answers.skip(1);
        assert forall|i: int| 0 <= i < k - 1 implies #[trigger] rest_answers[i] == Ok::<usize, E>(
            rest_pieces[i].len() as usize,
        ) by {
            assert(rest_answers[i] == answers[i + 1]);
            assert(rest_pieces[i] == pieces[i + 1]);
        }
        assert forall|i: int| 0 <= i < k - 1 implies (#[trigger] rest_pieces[i]).len()
            <= usize::MAX by {
            assert(rest_pieces[i] == pieces[i + 1]);
        }
        lemma_accepted_whole(rest_pieces, rest_answers, k - 1);
        assert(pieces.take(k).drop_first() =~= rest_pieces.take(k - 1));
        assert(pieces.take(k).first() == pieces[0]);
        assert(answers[0] == Ok::<usize, E>(pieces[0].len() as usize));
    } else {
        assert(pieces.take(0) =~= Seq::<Seq<u8>>::empty());
    }
}

/// A sink that accepts every piece whole gives a call the length of the whole
/// text as its count.
pub proof fn lemma_run_whole<E>(written: nat, pieces: Seq<Seq<u8>>, answers: Seq<Result<usize, E>>)
    requires
        answers.len() == pieces.len(),
        forall|i: int|
            0 <= i < pieces.len() ==> #[trigger] answers[i] == Ok::<usize, E>(
                pieces[i].len() as usize,
            ),
        forall|i: int| 0 <= i < pieces.len() ==> (#[trigger] pieces[i]).len() <= usize::MAX,
    ensures
        outcome(written, answers) == Ok::<nat, (E, nat)>(written + text(pieces).len()),
{
    lemma_outcome_success(written, answers);
    lemma_accepted_whole(pieces, answers, pieces.len() as int);
    assert(pieces.take(pieces.len() as int) =~= pieces);
}

/// A sink that accepts `k` pieces whole and fails at the next gives a call its
/// error and, as the count, the length of the text of those `k` pieces.
pub proof fn lemma_run_cut<E>(
    written: nat,
    pieces: Seq<Seq<u8>>,
    answers: Seq<Result<usize, E>>,
    k: int,
    e: E,
)
    requires
        0 <= k < pieces.len(),
        answers.len() == pieces.len(),
        forall|i: int| 0 <= i < k ==> #[trigger] answers[i] == Ok::<usize, E>(pieces[i].len() as usize),
        forall|i: int| 0 <= i < k ==> (#[trigger] pieces[i]).len() <= usize::MAX,
        answers[k] == Err::<usize, E>(e),
    ensures
        outcome(written, answers) == Err::<nat, (E, nat)>(
            (e, written + text(pieces.take(k)).len()),
        ),
{
    assert forall|i: int| 0 <= i < k implies (#[trigger] answers[i]) is Ok by {
        assert(answers[i] == Ok::<usize, E>(pieces[i].len() as usize));
    }
    lemma_outcome_failure(written, answers, k, e);
    lemma_accepted_whole(pieces, answers, k);
}

} // verus!
