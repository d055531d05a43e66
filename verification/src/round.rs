//! The model of a round: which stored future is polled when, and what the
//! round makes of the reports.
//!
//! A round walks the vector as a sequence of [`Step`]s. It starts at the
//! first future, goes on to the next one after every pending report, and is
//! over with the first report of completion or when no future is left. The
//! functions here say so in specifications; the lemmas state what follows:
//! the lowest index that completes wins, and only that future leaves.
use vstd::prelude::*;
use core::task::Poll;
use either::Either;

verus! {

/// What a round does next.
#[derive(Debug)]
#[verifier::reject_recursive_types(R)]
pub enum Step<R> {
    /// Poll the stored future at this index.
    Poll(usize),
    /// The round is over, with this result.
    Done(Poll<R>),
}

/// The first step of a round over `len` futures.
pub open spec fn first_step_of<R>(len: nat) -> Step<R> {
    if len == 0 {
        Step::Done(Poll::Pending)
    } else {
        Step::Poll(0)
    }
}

/// The step that follows `report` from the future at `index`, out of `len`.
pub open spec fn next_step_of<R>(len: nat, index: usize, report: Poll<R>) -> Step<R> {
    match report {
        Poll::Ready(output) => Step::Done(Poll::Ready(output)),
        Poll::Pending => if index + 1 < len && index < usize::MAX {
            Step::Poll((index + 1) as usize)
        } else {
            Step::Done(Poll::Pending)
        },
    }
}

/// The vector after the future at `index` gave `report`: a future that
/// completed has left, a pending one stays.
pub open spec fn settled<T, R>(s: Seq<T>, index: int, report: Poll<R>) -> Seq<T> {
    if report is Ready {
        s.remove(index)
    } else {
        s
    }
}

/// How many polls a round at `step` over `len` futures can still make.
pub open spec fn polls_left<R>(step: Step<R>, len: nat) -> nat {
    match step {
        Step::Done(_) => 0,
        Step::Poll(index) => if index < len {
            (len - index) as nat
        } else {
            0
        },
    }
}

/// The rest of a round that stands at `step` with the vector `current`.
///
/// `reports[i]` is what the future at `i` reports when it is polled in this
/// round, and `polled[i]` is that future after the poll. The result is the
/// vector after the round and the round's result.
pub open spec fn round_from<T, R>(
    current: Seq<T>,
    polled: Seq<T>,
    reports: Seq<Poll<R>>,
    step: Step<R>,
) -> (Seq<T>, Poll<R>)
    decreases polls_left(step, current.len()),
{
    match step {
        Step::Done(out) => (current, out),
        Step::Poll(index) => if index < current.len() {
            let report = reports[index as int];
            let at_poll = current.update(index as int, polled[index as int]);
            round_from(
                settled(at_poll, index as int, report),
                polled,
                reports,
                next_step_of(current.len(), index, report),
            )
        } else {
            (current, Poll::Pending)
        },
    }
}

/// A whole round over the vector `before`, for the given reports.
pub open spec fn round<T, R>(before: Seq<T>, polled: Seq<T>, reports: Seq<Poll<R>>) -> (
    Seq<T>,
    Poll<R>,
) {
    round_from(before, polled, reports, first_step_of(before.len()))
}

/// `after` and `out` are what a round over `before` gives for some reports
/// of its futures.
pub open spec fn is_round<T, R>(before: Seq<T>, after: Seq<T>, out: Poll<R>) -> bool {
    exists|polled: Seq<T>, reports: Seq<Poll<R>>|
        polled.len() == before.len() && reports.len() == before.len() && #[trigger] round(
            before,
            polled,
            reports,
        ) == (after, out)
}

/// The result of the stored futures, as the side of a race with an extra
/// future that they stand for.
pub open spec fn tagged<L, R>(out: Poll<R>) -> Poll<Either<L, R>> {
    match out {
        Poll::Ready(output) => Poll::Ready(Either::Right(output)),
        Poll::Pending => Poll::Pending,
    }
}

/// A whole round with an extra future that reports `extra`: a completed
/// extra future wins and the vector is not touched; otherwise the round goes
/// over the stored futures.
pub open spec fn round_with<T, L, R>(
    before: Seq<T>,
    polled: Seq<T>,
    extra: Poll<L>,
    reports: Seq<Poll<R>>,
) -> (Seq<T>, Poll<Either<L, R>>) {
    match extra {
        Poll::Ready(output) => (before, Poll::Ready(Either::Left(output))),
        Poll::Pending => (round(before, polled, reports).0, tagged(round(before, polled, reports).1)),
    }
}

/// `after` and `out` are what a round with an extra future gives over
/// `before`, for some reports of the extra and the stored futures.
pub open spec fn is_round_with<T, L, R>(
    before: Seq<T>,
    after: Seq<T>,
    out: Poll<Either<L, R>>,
) -> bool {
    exists|polled: Seq<T>, extra: Poll<L>, reports: Seq<Poll<R>>|
        polled.len() == before.len() && reports.len() == before.len() && #[trigger] round_with(
            before,
            polled,
            extra,
            reports,
        ) == (after, out)
}

/// A round that has polled the futures before `index` and found them pending
/// ends at `winner`, the first index from there on whose future completes.
proof fn lemma_round_from_reaches_winner<T, R>(
    before: Seq<T>,
    polled: Seq<T>,
    reports: Seq<Poll<R>>,
    index: int,
    winner: int,
)
    requires
        before.len() <= usize::MAX,
        polled.len() == before.len(),
        reports.len() == before.len(),
        0 <= index <= winner < before.len(),
        reports[winner] is Ready,
        forall|j: int| index <= j < winner ==> reports[j] is Pending,
    ensures
        round_from(
            polled.take(index) + before.skip(index),
            polled,
            reports,
            Step::Poll(index as usize),
        ) == (polled.take(winner) + before.skip(winner + 1), reports[winner]),
    decreases winner - index,
{
    let current = polled.take(index) + before.skip(index);
    let at_poll = current.update(index, polled[index]);
    assert(at_poll =~= polled.take(index + 1) + before.skip(index + 1));
    if index == winner {
        let after = at_poll.remove(index);
        assert(after =~= polled.take(winner) + before.skip(winner + 1));
        assert(round_from(after, polled, reports, next_step_of(current.len(), index as usize, reports[index]))
            == (after, reports[winner]));
    } else {
        lemma_round_from_reaches_winner(before, polled, reports, index + 1, winner);
    }
}

/// A round that has polled the futures before `index` and found them
/// pending, and finds the rest pending too, is pending and keeps them all.
proof fn lemma_round_from_all_pending<T, R>(
    before: Seq<T>,
    polled: Seq<T>,
    reports: Seq<Poll<R>>,
    index: int,
)
    requires
        before.len() <= usize::MAX,
        polled.len() == before.len(),
        reports.len() == before.len(),
        0 <= index < before.len(),
        forall|j: int| index <= j < before.len() ==> reports[j] is Pending,
    ensures
        round_from(
            polled.take(index) + before.skip(index),
            polled,
            reports,
            Step::Poll(index as usize),
        ) == (polled, Poll::<R>::Pending),
    decreases before.len() - index,
{
    let current = polled.take(index) + before.skip(index);
    let at_poll = current.update(index, polled[index]);
    assert(at_poll =~= polled.take(index + 1) + before.skip(index + 1));
    if index + 1 < before.len() {
        lemma_round_from_all_pending(before, polled, reports, index + 1);
    } else {
        assert(at_poll =~= polled);
        assert(round_from(at_poll, polled, reports, Step::<R>::Done(Poll::Pending)) == (
            at_poll,
            Poll::<R>::Pending,
        ));
    }
}

/// The lowest index that completes wins: when the future at `winner` reports
/// completion and every future before it reports pending, the round's result
/// is that report, that future leaves, the futures before it stay as their
/// polls left them, and the futures behind it stay as they were, in order.
pub proof fn lemma_lowest_ready_wins<T, R>(
    before: Seq<T>,
    polled: Seq<T>,
    reports: Seq<Poll<R>>,
    winner: int,
)
    requires
        before.len() <= usize::MAX,
        polled.len() == before.len(),
        reports.len() == before.len(),
        0 <= winner < before.len(),
        reports[winner] is Ready,
        forall|j: int| 0 <= j < winner ==> reports[j] is Pending,
    ensures
        round(before, polled, reports).1 == reports[winner],
        round(before, polled, reports).0 == polled.take(winner) + before.skip(winner + 1),
        round(before, polled, reports).0.len() == before.len() - 1,
{
    assert(polled.take(0) + before.skip(0) =~= before);
    lemma_round_from_reaches_winner(before, polled, reports, 0, winner);
}

/// When every stored future reports pending, the round is pending and every
/// future stays in its place, as its poll left it.
pub proof fn lemma_all_pending_is_pending<T, R>(
    before: Seq<T>,
    polled: Seq<T>,
    reports: Seq<Poll<R>>,
)
    requires
        before.len() <= usize::MAX,
        polled.len() == before.len(),
        reports.len() == before.len(),
        forall|j: int| 0 <= j < before.len() ==> reports[j] is Pending,
    ensures
        round(before, polled, reports) == (polled, Poll::<R>::Pending),
{
    if before.len() == 0 {
        assert(polled =~= before);
    } else {
        assert(polled.take(0) + before.skip(0) =~= before);
        lemma_round_from_all_pending(before, polled, reports, 0);
    }
}

/// A round over an empty vector is pending and changes nothing, whatever is
/// supposed of the reports.
pub proof fn lemma_empty_round_is_pending<T, R>(
    before: Seq<T>,
    polled: Seq<T>,
    reports: Seq<Poll<R>>,
)
    requires
        before.len() == 0,
    ensures
        round(before, polled, reports) == (before, Poll::<R>::Pending),
{
}

/// The lowest index up to `upto` whose future reports completion.
proof fn least_ready<R>(reports: Seq<Poll<R>>, upto: int) -> (winner: int)
    requires
        0 <= upto < reports.len(),
        reports[upto] is Ready,
    ensures
        0 <= winner <= upto,
        reports[winner] is Ready,
        forall|j: int| 0 <= j < winner ==> reports[j] is Pending,
    decreases upto,
{
    if exists|j: int| 0 <= j < upto && (#[trigger] reports[j]) is Ready {
        let lower = choose|j: int| 0 <= j < upto && (#[trigger] reports[j]) is Ready;
        least_ready(reports, lower)
    } else {
        upto
    }
}

/// A round is pending exactly when no stored future reported completion up
/// to the end, and resolves exactly when one did.
pub proof fn lemma_round_result<T, R>(before: Seq<T>, polled: Seq<T>, reports: Seq<Poll<R>>)
    requires
        before.len() <= usize::MAX,
        polled.len() == before.len(),
        reports.len() == before.len(),
    ensures
        round(before, polled, reports).1 is Pending <==> forall|j: int|
            0 <= j < before.len() ==> (#[trigger] reports[j]) is Pending,
{
    if forall|j: int| 0 <= j < before.len() ==> (#[trigger] reports[j]) is Pending {
        lemma_all_pending_is_pending(before, polled, reports);
    } else {
        let some = choose|j: int| 0 <= j < before.len() && !((#[trigger] reports[j]) is Pending);
        let winner = least_ready(reports, some);
        lemma_lowest_ready_wins(before, polled, reports, winner);
    }
}

/// An extra future that completed wins whatever the vector holds and
/// whatever the stored futures would report, and the vector is as it was.
pub proof fn lemma_ready_extra_wins<T, L, R>(
    before: Seq<T>,
    polled: Seq<T>,
    output: L,
    reports: Seq<Poll<R>>,
)
    ensures
        round_with(before, polled, Poll::Ready(output), reports) == (
            before,
            Poll::Ready(Either::<L, R>::Left(output)),
        ),
{
}

/// With a pending extra future the stored futures race as they do alone, and
/// the winner's output comes as `Right`: the lowest index that completes
/// wins and only it leaves; when all are pending, so is the round.
pub proof fn lemma_pending_extra_lets_the_store_race<T, L, R>(
    before: Seq<T>,
    polled: Seq<T>,
    reports: Seq<Poll<R>>,
)
    requires
        before.len() <= usize::MAX,
        polled.len() == before.len(),
        reports.len() == before.len(),
    ensures
        round_with(before, polled, Poll::<L>::Pending, reports).0 == round(
            before,
            polled,
            reports,
        ).0,
        round_with(before, polled, Poll::<L>::Pending, reports).1 == tagged::<L, R>(
            round(before, polled, reports).1,
        ),
        forall|winner: int|
            0 <= winner < before.len() && (#[trigger] reports[winner]) is Ready && (forall|j: int|
                0 <= j < winner ==> reports[j] is Pending) ==> round_with(
                before,
                polled,
                Poll::<L>::Pending,
                reports,
            ) == (
                polled.take(winner) + before.skip(winner + 1),
                tagged::<L, R>(reports[winner]),
            ),
        (forall|j: int| 0 <= j < before.len() ==> (#[trigger] reports[j]) is Pending) ==> round_with(
            before,
            polled,
            Poll::<L>::Pending,
            reports,
        ) == (polled, Poll::<Either<L, R>>::Pending),
{
    assert forall|winner: int|
        0 <= winner < before.len() && (#[trigger] reports[winner]) is Ready && (forall|j: int|
            0 <= j < winner ==> reports[j] is Pending) implies round_with(
        before,
        polled,
        Poll::<L>::Pending,
        reports,
    ) == (
        polled.take(winner) + before.skip(winner + 1),
        tagged::<L, R>(reports[winner]),
    ) by {
        lemma_lowest_ready_wins(before, polled, reports, winner);
    }
    if forall|j: int| 0 <= j < before.len() ==> (#[trigger] reports[j]) is Pending {
        lemma_all_pending_is_pending(before, polled, reports);
    }
}

} // verus!
