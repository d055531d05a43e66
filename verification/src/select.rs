//! Racing the pending operations held in a bounded vector.
//!
//! A round polls the stored futures once each, in index order, and stops at
//! the first that completes: that future leaves the vector and its output is
//! the round's result. [`SelectVecAndFut`] polls one more future, outside the
//! vector, before the stored ones.
use vstd::prelude::*;
use core::future::Future;
use core::pin::Pin;
use core::task::{Context, Poll};
use either::Either;
use crate::model::removed_at;
use crate::round::{
    first_step_of, is_round, is_round_with, lemma_all_pending_is_pending,
    lemma_lowest_ready_wins, next_step_of, polls_left, round, round_with, settled, tagged, Step,
};
use crate::store::StaticVec;
use crate::trusted::poll_unpin;

verus! {

/// A future that resolves to the output of the first stored future to
/// complete, and takes that future out of the vector.
pub struct SelectVec<'a, T, const N: usize>(pub &'a mut StaticVec<T, N>);

/// A future that races one extra future against the stored ones. The extra
/// future's output comes as `Left`, a stored future's as `Right`. Like any
/// future, it is not to be polled again once it has resolved.
pub struct SelectVecAndFut<'a, T, F, const N: usize>(pub &'a mut StaticVec<T, N>, pub F);

/// The race only borrows the vector, so it can always be moved.
impl<'a, T, const N: usize> Unpin for SelectVec<'a, T, N> {

}

/// The race can be moved whenever its extra future can.
impl<'a, T, F: Unpin, const N: usize> Unpin for SelectVecAndFut<'a, T, F, N> {

}

/// What a round makes of the report of the future at `index`: a future that
/// completed leaves the vector, one that is pending stays, and the report is
/// passed on.
pub fn settle<T, R, const N: usize>(
    store: &mut StaticVec<T, N>,
    index: usize,
    report: Poll<R>,
) -> (out: Poll<R>)
    requires
        index < old(store)@.len(),
    ensures
        out == report,
        report is Ready ==> final(store)@ == old(store)@.remove(index as int),
        report is Pending ==> final(store)@ == old(store)@,
{
    match report {
        Poll::Ready(output) => {
            let _ = store.remove(index);
            Poll::Ready(output)
        },
        Poll::Pending => Poll::Pending,
    }
}

/// Where a round over `len` stored futures starts: at the first future, or,
/// with none to poll, at its pending end.
pub fn first_step<R>(len: usize) -> (step: Step<R>)
    ensures
        len == 0 ==> step == Step::<R>::Done(Poll::Pending),
        len > 0 ==> step == Step::<R>::Poll(0),
        step == first_step_of::<R>(len as nat),
{
    if len == 0 {
        Step::Done(Poll::Pending)
    } else {
        Step::Poll(0)
    }
}

/// How a round goes on once the future at `index` has reported: a future
/// that completed leaves the vector and ends the round with its output;
/// after a pending one the round polls the next future, or ends pending when
/// that was the last.
pub fn next_step<T, R, const N: usize>(
    store: &mut StaticVec<T, N>,
    index: usize,
    report: Poll<R>,
) -> (step: Step<R>)
    requires
        index < old(store)@.len(),
    ensures
        report matches Poll::Ready(output) ==> step == Step::Done(Poll::Ready(output))
            && final(store)@ == old(store)@.remove(index as int),
        report is Pending ==> final(store)@ == old(store)@,
        report is Pending && index + 1 < old(store)@.len() ==> step == Step::<R>::Poll(
            (index + 1) as usize,
        ),
        report is Pending && index + 1 >= old(store)@.len() ==> step == Step::<R>::Done(
            Poll::Pending,
        ),
        step == next_step_of(old(store)@.len(), index, report),
        final(store)@ == settled(old(store)@, index as int, report),
        old(store).wf() ==> final(store).wf(),
{
    let len = store.len();
    match settle(store, index, report) {
        Poll::Ready(output) => Step::Done(Poll::Ready(output)),
        Poll::Pending => if index + 1 < len {
            Step::Poll(index + 1)
        } else {
            Step::Done(Poll::Pending)
        },
    }
}

/// One round over the stored futures.
///
/// The round follows [`first_step`] and [`next_step`]: it polls the future
/// that the step names and nothing else. So it is the round of
/// [`crate::round::round`] on what the futures reported: the lowest index
/// that completed wins and only that future leaves; the futures behind it,
/// which were not polled, move down by one place unchanged; when every
/// future reported pending the round is pending and keeps them all in place.
/// A round over an empty vector is pending and changes nothing.
///
/// No stored future may have completed before: a future may panic when it
/// is polled again after that. A round takes out the future that completes,
/// so rounds alone never leave such a future behind.
pub fn poll_round<T: Future + Unpin, const N: usize>(
    store: &mut StaticVec<T, N>,
    cx: &mut Context<'_>,
) -> (out: Poll<T::Output>)
    ensures
        is_round(old(store)@, final(store)@, out),
        out is Pending ==> final(store)@.len() == old(store)@.len(),
        out is Ready ==> exists|i: int| removed_at(old(store)@, final(store)@, i),
        old(store)@.len() == 0 ==> out is Pending && final(store)@ == old(store)@,
        old(store).wf() ==> final(store).wf(),
{
    let ghost before = store@;
    let ghost mut polled: Seq<T> = Seq::empty();
    let ghost mut reports: Seq<Poll<T::Output>> = Seq::empty();
    let mut step = first_step::<T::Output>(store.len());
    proof {
        if before.len() == 0 {
            assert(round(before, polled, reports) == (before, Poll::<T::Output>::Pending));
        } else {
            assert(store@ =~= polled + before.skip(0));
        }
    }
    loop
        invariant
            before == old(store)@,
            before.len() <= usize::MAX,
            old(store).wf() ==> store.wf(),
            match step {
                Step::Poll(index) => {
                    &&& index < before.len()
                    &&& polled.len() == index
                    &&& reports.len() == index
                    &&& forall|j: int| 0 <= j < index ==> reports[j] is Pending
                    &&& store@ == polled + before.skip(index as int)
                },
                Step::Done(out) => {
                    &&& polled.len() == before.len()
                    &&& reports.len() == before.len()
                    &&& round(before, polled, reports) == (store@, out)
                    &&& out is Pending ==> store@.len() == before.len()
                    &&& out is Ready ==> exists|i: int| removed_at(before, store@, i)
                    &&& before.len() == 0 ==> out is Pending && store@ == before
                },
            },
        decreases polls_left(step, before.len()),
    {
        match step {
            Step::Done(out) => {
                return out;
            },
            Step::Poll(index) => {
                let slots = store.as_mut_slice();
                let report = poll_unpin(&mut slots[index], cx);
                let ghost seen = report;
                let ghost state = store@[index as int];
                step = next_step(store, index, report);
                proof {
                    let so_far = polled.push(state);
                    let at_poll = (polled + before.skip(index as int)).update(index as int, state);
                    assert(so_far + before.skip(index + 1) =~= at_poll);
                    if seen is Ready {
                        let rest = before.len() - index - 1;
                        polled = so_far + before.skip(index + 1);
                        reports = reports.push(seen) + Seq::new(
                            rest as nat,
                            |j: int| Poll::<T::Output>::Pending,
                        );
                        assert(polled.take(index as int) =~= so_far.take(index as int));
                        lemma_lowest_ready_wins(before, polled, reports, index as int);
                        assert(store@ =~= polled.take(index as int) + before.skip(index + 1));
                        assert(removed_at(before, store@, index as int));
                    } else {
                        polled = so_far;
                        reports = reports.push(seen);
                        if index + 1 >= before.len() {
                            assert(store@ =~= polled);
                            lemma_all_pending_is_pending(before, polled, reports);
                        }
                    }
                }
            },
        }
    }
}

/// The side of a race that the stored futures' result stands for: their
/// winner's output comes as `Right`.
pub fn tag_stored<L, R>(out: Poll<R>) -> (tag: Poll<Either<L, R>>)
    ensures
        tag == tagged::<L, R>(out),
        out matches Poll::Ready(output) ==> tag == Poll::Ready(Either::<L, R>::Right(output)),
        out is Pending ==> tag is Pending,
{
    match out {
        Poll::Ready(output) => Poll::Ready(Either::Right(output)),
        Poll::Pending => Poll::Pending,
    }
}

/// The rest of a round once the extra future has reported.
///
/// An extra future that completed wins whatever the vector holds, and the
/// vector is left as it was. Otherwise the stored futures are polled as in
/// [`poll_round`], and the round is [`crate::round::round_with`] on the
/// extra future's report and on what the stored futures reported.
pub fn race<T: Future + Unpin, L, const N: usize>(
    store: &mut StaticVec<T, N>,
    extra: Poll<L>,
    cx: &mut Context<'_>,
) -> (out: Poll<Either<L, T::Output>>)
    ensures
        extra matches Poll::Ready(output) ==> out == Poll::Ready(
            Either::<L, T::Output>::Left(output),
        ) && final(store)@ == old(store)@,
        exists|polled: Seq<T>, reports: Seq<Poll<T::Output>>|
            polled.len() == old(store)@.len() && reports.len() == old(store)@.len()
                && #[trigger] round_with(old(store)@, polled, extra, reports) == (
                final(store)@,
                out,
            ),
        extra is Pending ==> {
            &&& out matches Poll::Ready(won) ==> won is Right
            &&& out is Pending ==> final(store)@.len() == old(store)@.len()
            &&& out is Ready ==> exists|i: int| removed_at(old(store)@, final(store)@, i)
            &&& old(store)@.len() == 0 ==> out is Pending && final(store)@ == old(store)@
        },
        old(store).wf() ==> final(store).wf(),
{
    match extra {
        Poll::Ready(output) => {
            proof {
                let polled = store@;
                let reports = Seq::new(store@.len(), |j: int| Poll::<T::Output>::Pending);
                assert(round_with(store@, polled, extra, reports) == (
                    store@,
                    Poll::Ready(Either::<L, T::Output>::Left(output)),
                ));
            }
            Poll::Ready(Either::Left(output))
        },
        Poll::Pending => {
            let stored = poll_round(store, cx);
            proof {
                let (polled, reports) = choose|polled: Seq<T>, reports: Seq<Poll<T::Output>>|
                    polled.len() == old(store)@.len() && reports.len() == old(store)@.len()
                        && #[trigger] round(old(store)@, polled, reports) == (store@, stored);
                assert(round_with(old(store)@, polled, extra, reports) == (
                    store@,
                    tagged::<L, T::Output>(stored),
                ));
            }
            tag_stored(stored)
        },
    }
}

/// One round of the extra future and the stored futures: the extra future is
/// polled first, and the stored ones only if it is pending.
///
/// The round is [`crate::round::round_with`] on what the extra future and
/// the stored futures reported: a round won by the extra future leaves the
/// vector as it was; a round won by a stored future has taken exactly that
/// one out, as in [`poll_round`]; a pending round keeps every future in its
/// place. Over an empty vector only the extra future can win.
///
/// Neither the extra future nor a stored one may have completed before: a
/// future may panic when it is polled again after that.
pub fn poll_round_with<T: Future + Unpin, F: Future + Unpin, const N: usize>(
    store: &mut StaticVec<T, N>,
    extra: &mut F,
    cx: &mut Context<'_>,
) -> (out: Poll<Either<F::Output, T::Output>>)
    ensures
        is_round_with(old(store)@, final(store)@, out),
        out matches Poll::Ready(won) && won is Left ==> final(store)@ == old(store)@,
        out matches Poll::Ready(won) && won is Right ==> exists|i: int|
            removed_at(old(store)@, final(store)@, i),
        out is Pending ==> final(store)@.len() == old(store)@.len(),
        old(store)@.len() == 0 ==> {
            &&& final(store)@ == old(store)@
            &&& !(out matches Poll::Ready(won) && won is Right)
        },
        old(store).wf() ==> final(store).wf(),
{
    let report = poll_unpin(extra, cx);
    let ghost seen = report;
    let out = race(store, report, cx);
    proof {
        let (polled, reports) = choose|polled: Seq<T>, reports: Seq<Poll<T::Output>>|
            polled.len() == old(store)@.len() && reports.len() == old(store)@.len()
                && #[trigger] round_with(old(store)@, polled, seen, reports) == (store@, out);
        assert(round_with(old(store)@, polled, seen, reports) == (store@, out));
    }
    out
}

impl<'a, T: Future + Unpin, const N: usize> Future for SelectVec<'a, T, N> {
    type Output = T::Output;

    fn poll(self: Pin<&mut Self>, cx: &mut Context<'_>) -> Poll<Self::Output> {
        let this = self.get_mut();
        poll_round(this.0, cx)
    }
}

impl<'a, T: Future + Unpin, F: Future + Unpin, const N: usize> Future for SelectVecAndFut<
    'a,
    T,
    F,
    N,
> {
    type Output = Either<F::Output, T::Output>;

    fn poll(self: Pin<&mut Self>, cx: &mut Context<'_>) -> Poll<Self::Output> {
        let this = self.get_mut();
        poll_round_with(this.0, &mut this.1, cx)
    }
}

} // verus!
