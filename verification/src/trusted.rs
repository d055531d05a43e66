//! What this crate assumes of code it does not verify: the `either` crate's
//! sum type, and the parts of `core` that polling and array conversion need.
//!
//! Nothing here is proved. Each item says what it claims of the function or
//! type it stands for.
use vstd::prelude::*;
use vstd::std_specs::iter::IteratorSpec;
use core::future::Future;
use core::pin::Pin;
use core::slice::IterMut;
use core::task::{Context, Poll};
use either::Either;

verus! {

/// `either::Either`: a value is `Left(L)` or `Right(R)`, as the crate defines
/// the enum.
#[verifier::external_type_specification]
#[verifier::reject_recursive_types(L)]
#[verifier::reject_recursive_types(R)]
pub struct ExEither<L, R>(Either<L, R>);

/// `core::task::Poll`: a value is `Ready(T)` or `Pending`.
#[verifier::external_type_specification]
#[verifier::reject_recursive_types(T)]
pub struct ExPoll<T>(Poll<T>);

/// `core::task::Context`: carried through to the futures that are polled;
/// nothing is known of what it holds.
#[verifier::external_type_specification]
#[verifier::external_body]
pub struct ExContext<'a>(Context<'a>);

/// `core::pin::Pin`: nothing is known of what it holds.
#[verifier::external_type_specification]
#[verifier::external_body]
#[verifier::reject_recursive_types(P)]
pub struct ExPin<P>(Pin<P>);

/// `core::slice::IterMut`: nothing is known of what it holds.
#[verifier::external_type_specification]
#[verifier::external_body]
#[verifier::reject_recursive_types(T)]
pub struct ExIterMut<'a, T: 'a>(IterMut<'a, T>);

/// `Vec::from` on an array moves the array's elements into the vector: it
/// holds the same elements in the same order.
pub assume_specification<T, const N: usize>[ <Vec<T> as From<[T; N]>>::from ](s: [T; N]) -> (v:
    Vec<T>)
    ensures
        v@ == s@,
;

/// `<[T]>::iter_mut`: an iterator that yields a mutable reference to each
/// element of the slice, from the first to the last, and then ends.
///
/// In the terms of vstd's iterator laws, which the iterator is taken to obey:
/// the items it will hand out are as many as the slice has elements, and the
/// `i`-th of them refers to the element at `i`. What the slice holds at `i`
/// once the borrow is over is what the `i`-th item holds at its end, and the
/// slice has as many elements as before.
#[verifier::external_body]
pub(crate) fn slice_iter_mut<'a, T>(s: &'a mut [T]) -> (it: IterMut<'a, T>)
    ensures
        it.obeys_prophetic_iter_laws(),
        it.remaining().len() == old(s)@.len(),
        forall|i: int| 0 <= i < old(s)@.len() ==> *(#[trigger] it.remaining()[i]) == old(s)@[i],
        final(s)@.len() == old(s)@.len(),
        forall|i: int|
            0 <= i < old(s)@.len() ==> #[trigger] final(s)@[i] == *final(it.remaining()[i]),
{
    s.iter_mut()
}

/// `Pin::get_mut` hands out the reference that the pin holds. Nothing is
/// claimed of it.
pub assume_specification<'a, T: ?Sized + Unpin>[ Pin::<&'a mut T>::get_mut ](
    pinned: Pin<&'a mut T>,
) -> (r: &'a mut T)
;

/// `Future::poll`, on `operation` pinned by `Pin::new`: advances the future
/// once. What it reports depends on the future and on the moment, so nothing
/// is claimed of the report nor of the future's state afterwards.
///
/// A future may panic when it is polled again after it completed, and no
/// `requires` can speak of that. The rounds of this crate ask in words that
/// no future handed to them has completed before, and they take a stored
/// future out of its vector as soon as it completes, so that they never poll
/// one twice over.
#[verifier::external_body]
pub(crate) fn poll_unpin<F: Future + Unpin>(operation: &mut F, cx: &mut Context<'_>) -> (report:
    Poll<F::Output>) {
    Pin::new(operation).poll(cx)
}

} // verus!
