//! The bounded vector.
use vstd::prelude::*;
use vstd::std_specs::iter::IteratorSpec;
use crate::error::StaticVecError;
use crate::model::{extended, filled, kept, pushed, room};
use crate::trusted::slice_iter_mut;
use core::ops::{Deref, DerefMut, Index};
use core::slice::{Iter, IterMut};
use vstd::std_specs::cmp::{PartialEqSpec, PartialEqSpecImpl};
use vstd::std_specs::convert::FromSpecImpl;

verus! {

/// Moves the elements of an array into growable storage, keeping their order.
fn extend_array<T, const A: usize>(a: [T; A]) -> (data: Vec<T>)
    ensures
        data@ == a@,
{
    Vec::from(a)
}

/// A vector that holds at most `N` elements.
///
/// Its view is the sequence of its elements. Growing operations report
/// [`StaticVecError::CapacityExceeded`] rather than pass `N`, so a vector
/// made by this module's constructors satisfies [`StaticVec::wf`] for good.
///
/// The elements are kept in a `Vec`: the capacity is a bound that every
/// operation enforces, not the size of an inline buffer.
#[derive(Debug)]
pub struct StaticVec<T, const N: usize> {
    data: Vec<T>,
}

impl<T, const N: usize> View for StaticVec<T, N> {
    type V = Seq<T>;

    closed spec fn view(&self) -> Seq<T> {
        self.data@
    }
}

impl<T, const N: usize> StaticVec<T, N> {
    /// The capacity bound: no more than `N` elements are held.
    pub open spec fn wf(&self) -> bool {
        self@.len() <= N
    }

    /// A vector of `len` elements, each a default value of `T`, or
    /// `CapacityExceeded` when `len` is more than `N`.
    pub fn new(len: usize) -> (r: Result<Self, StaticVecError>)
        where T: Default,
        ensures
            len <= N <==> r is Ok,
            r is Err ==> r->Err_0 == StaticVecError::CapacityExceeded,
            r matches Ok(v) ==> {
                &&& v.wf()
                &&& v@.len() == len
                &&& forall|i: int|
                    0 <= i < len ==> call_ensures(T::default, (), #[trigger] v@[i])
            },
    {
        if len > N {
            return Err(StaticVecError::CapacityExceeded);
        }
        let mut data: Vec<T> = Vec::new();
        while data.len() < len
            invariant
                data@.len() <= len,
                forall|i: int|
                    0 <= i < data@.len() ==> call_ensures(T::default, (), #[trigger] data@[i]),
            decreases len - data@.len(),
        {
            data.push(T::default());
        }
        Ok(Self { data })
    }

    /// The capacity check that every growing operation goes through: whether
    /// `extra` more elements fit.
    fn check_room(&self, extra: usize) -> (r: Result<(), StaticVecError>)
        ensures
            r is Ok <==> self@.len() + extra <= N,
            r is Err ==> r->Err_0 == StaticVecError::CapacityExceeded,
    {
        let len = self.data.len();
        if len > N || extra > N - len {
            Err(StaticVecError::CapacityExceeded)
        } else {
            Ok(())
        }
    }

    /// The number of elements.
    pub fn len(&self) -> (n: usize)
        ensures
            n == self@.len(),
    {
        self.data.len()
    }

    /// Whether there is no element.
    pub fn is_empty(&self) -> (b: bool)
        ensures
            b <==> self@.len() == 0,
    {
        self.data.len() == 0
    }

    /// The elements, in index order.
    pub fn as_slice(&self) -> (s: &[T])
        ensures
            s@ == self@,
    {
        self.data.as_slice()
    }

    /// The elements, in index order, open to change in place.
    pub fn as_mut_slice(&mut self) -> (s: &mut [T])
        ensures
            s@ == old(self)@,
            final(self)@ == final(s)@,
    {
        self.data.as_mut_slice()
    }

    /// Appends `item`, or refuses it when the vector is at its capacity.
    pub fn push(&mut self, item: T) -> (r: Result<(), StaticVecError>)
        ensures
            r is Ok <==> old(self)@.len() < N,
            r is Ok ==> final(self)@ == old(self)@.push(item),
            r is Err ==> r->Err_0 == StaticVecError::CapacityExceeded,
            r is Err ==> final(self)@ == old(self)@,
            final(self)@ == pushed(old(self)@, item, N as nat),
            old(self).wf() ==> final(self).wf(),
    {
        self.check_room(1)?;
        self.data.push(item);
        Ok(())
    }

    /// Appends a copy of every element of `other`, or nothing at all when they
    /// do not all fit.
    pub fn try_extend_from_slice(&mut self, other: &[T]) -> (r: Result<(), StaticVecError>)
        where T: Copy,
        ensures
            r is Ok <==> old(self)@.len() + other@.len() <= N,
            r is Ok ==> final(self)@ == old(self)@ + other@,
            r is Err ==> r->Err_0 == StaticVecError::CapacityExceeded,
            r is Err ==> final(self)@ == old(self)@,
            final(self)@ == extended(old(self)@, other@, N as nat),
            old(self).wf() ==> final(self).wf(),
    {
        self.check_room(other.len())?;
        let mut i: usize = 0;
        while i < other.len()
            invariant
                i <= other@.len(),
                old(self)@.len() + other@.len() <= N,
                self.data@ == old(self).data@ + other@.take(i as int),
            decreases other@.len() - i,
        {
            self.data.push(other[i]);
            i += 1;
            assert(self.data@ =~= old(self).data@ + other@.take(i as int));
        }
        assert(other@.take(i as int) =~= other@);
        Ok(())
    }

    /// Appends the items of `iter` one at a time until it ends or an item does
    /// not fit. The items appended before a refusal stay in the vector.
    pub fn try_extend_from_iter<I: Iterator<Item = T>>(&mut self, iter: I) -> (r: Result<
        (),
        StaticVecError,
    >)
        ensures
            r is Err ==> r->Err_0 == StaticVecError::CapacityExceeded,
            r is Err ==> final(self)@.len() >= N,
            old(self)@.is_prefix_of(final(self)@),
            old(self).wf() ==> final(self).wf(),
            iter.obeys_prophetic_iter_laws() ==> {
                &&& r is Ok <==> iter.remaining().len() <= room(old(self)@.len(), N as nat)
                &&& final(self)@ == filled(old(self)@, iter.remaining(), N as nat)
            },
    {
        let mut rest = iter;
        let ghost items = iter.remaining();
        let ghost taken: int = 0;
        loop
            invariant
                0 <= taken,
                items == iter.remaining(),
                rest.obeys_prophetic_iter_laws() == iter.obeys_prophetic_iter_laws(),
                old(self)@.is_prefix_of(self@),
                old(self).wf() ==> self.wf(),
                iter.obeys_prophetic_iter_laws() ==> {
                    &&& taken <= items.len()
                    &&& taken <= room(old(self)@.len(), N as nat)
                    &&& rest.remaining() == items.skip(taken)
                    &&& self@ == old(self)@ + items.take(taken)
                },
            decreases N - self@.len(),
        {
            match rest.next() {
                None => {
                    proof {
                        if iter.obeys_prophetic_iter_laws() {
                            assert(items.skip(taken).len() == 0);
                            assert(items.take(taken) =~= items);
                        }
                    }
                    return Ok(());
                },
                Some(item) => {
                    if self.check_room(1).is_err() {
                        proof {
                            if iter.obeys_prophetic_iter_laws() {
                                assert(items.skip(taken).len() > 0);
                                assert(taken == room(old(self)@.len(), N as nat));
                            }
                        }
                        return Err(StaticVecError::CapacityExceeded);
                    }
                    self.data.push(item);
                    proof {
                        if iter.obeys_prophetic_iter_laws() {
                            assert(items.skip(taken).drop_first() =~= items.skip(taken + 1));
                            assert(old(self)@ + items.take(taken + 1) =~= (old(self)@
                                + items.take(taken)).push(item));
                        }
                        taken = taken + 1;
                    }
                },
            }
        }
    }

    /// Appends a clone of each item that `iter` refers to, one at a time, until
    /// it ends or an item does not fit. The clones appended before a refusal
    /// stay in the vector.
    pub fn try_extend_from_iter_ref<'a, I: Iterator<Item = &'a T>>(&mut self, iter: I) -> (r:
        Result<(), StaticVecError>)
        where T: 'a + Clone,
        ensures
            r is Err ==> r->Err_0 == StaticVecError::CapacityExceeded,
            r is Err ==> final(self)@.len() >= N,
            old(self)@.is_prefix_of(final(self)@),
            old(self).wf() ==> final(self).wf(),
            iter.obeys_prophetic_iter_laws() ==> {
                let count = kept(old(self)@.len(), iter.remaining().len(), N as nat);
                &&& r is Ok <==> iter.remaining().len() <= room(old(self)@.len(), N as nat)
                &&& final(self)@.len() == old(self)@.len() + count
                &&& forall|i: int|
                    0 <= i < count ==> cloned(
                        *iter.remaining()[i],
                        #[trigger] final(self)@[old(self)@.len() + i],
                    )
            },
    {
        let mut rest = iter;
        let ghost items = iter.remaining();
        let ghost taken: int = 0;
        loop
            invariant
                0 <= taken,
                items == iter.remaining(),
                rest.obeys_prophetic_iter_laws() == iter.obeys_prophetic_iter_laws(),
                old(self)@.is_prefix_of(self@),
                old(self).wf() ==> self.wf(),
                iter.obeys_prophetic_iter_laws() ==> {
                    &&& taken <= items.len()
                    &&& taken <= room(old(self)@.len(), N as nat)
                    &&& rest.remaining() == items.skip(taken)
                    &&& self@.len() == old(self)@.len() + taken
                    &&& forall|i: int|
                        0 <= i < taken ==> cloned(
                            *items[i],
                            #[trigger] self@[old(self)@.len() + i],
                        )
                },
            decreases N - self@.len(),
        {
            match rest.next() {
                None => {
                    proof {
                        if iter.obeys_prophetic_iter_laws() {
                            assert(items.skip(taken).len() == 0);
                        }
                    }
                    return Ok(());
                },
                Some(source) => {
                    let item = source.clone();
                    if self.check_room(1).is_err() {
                        proof {
                            if iter.obeys_prophetic_iter_laws() {
                                assert(items.skip(taken).len() > 0);
                                assert(taken == room(old(self)@.len(), N as nat));
                            }
                        }
                        return Err(StaticVecError::CapacityExceeded);
                    }
                    let ghost before = self@;
                    self.data.push(item);
                    proof {
                        if iter.obeys_prophetic_iter_laws() {
                            assert(items.skip(taken).drop_first() =~= items.skip(taken + 1));
                            assert forall|i: int| 0 <= i < taken + 1 implies cloned(
                                *items[i],
                                #[trigger] self@[old(self)@.len() + i],
                            ) by {
                                if i < taken {
                                    assert(self@[old(self)@.len() + i] == before[old(self)@.len()
                                        + i]);
                                }
                            }
                        }
                        taken = taken + 1;
                    }
                },
            }
        }
    }

    /// A vector holding the elements of `value`, in order. The array must not
    /// be longer than the capacity.
    pub fn from_array<const A: usize>(value: [T; A]) -> (v: Self)
        requires
            A <= N,
        ensures
            v@ == value@,
            v.wf(),
    {
        Self { data: extend_array(value) }
    }

    /// An iterator over the elements, in index order.
    pub fn iter(&self) -> (it: Iter<'_, T>)
        ensures
            it.remaining() == self@.as_ref(),
            IteratorSpec::decrease(&it) is Some,
            IteratorSpec::initial_value_relation(&it, &it),
    {
        self.data.as_slice().iter()
    }

    /// An iterator over the elements, in index order, each open to change in
    /// place: it hands out one mutable reference for each element, the `i`-th
    /// to the element at `i`, and what is written through it is what the
    /// vector holds there afterwards. The number of elements stays as it is.
    pub fn iter_mut(&mut self) -> (it: IterMut<'_, T>)
        ensures
            it.obeys_prophetic_iter_laws(),
            it.remaining().len() == old(self)@.len(),
            forall|i: int|
                0 <= i < old(self)@.len() ==> *(#[trigger] it.remaining()[i]) == old(self)@[i],
            final(self)@.len() == old(self)@.len(),
            forall|i: int|
                0 <= i < old(self)@.len() ==> #[trigger] final(self)@[i] == *final(
                    it.remaining()[i]
                ),
            old(self).wf() ==> final(self).wf(),
    {
        slice_iter_mut(self.data.as_mut_slice())
    }

    /// Takes the element at `index` out and returns it; the later elements
    /// move down by one place, in their order. `index` must be in range.
    pub fn remove(&mut self, index: usize) -> (item: T)
        requires
            index < old(self)@.len(),
        ensures
            item == old(self)@[index as int],
            final(self)@ == old(self)@.remove(index as int),
            old(self).wf() ==> final(self).wf(),
    {
        self.data.remove(index)
    }
}

/// Round trip: whatever vector `from` builds of an array, and whatever slice
/// `as_slice` then shows of it, the slice holds the array's elements in the
/// array's order.
pub proof fn lemma_array_round_trip<T, const N: usize>(
    source: [T; N],
    built: StaticVec<T, N>,
    shown: &[T],
)
    requires
        call_ensures(StaticVec::<T, N>::from, (source,), built),
        call_ensures(StaticVec::<T, N>::as_slice, (&built,), shown),
    ensures
        shown@ == source@,
        shown@.len() == N,
        built.wf(),
{
}

impl<T: Clone, const N: usize> Clone for StaticVec<T, N> {
    /// A vector of as many elements, each a clone of the element in its place.
    fn clone(&self) -> (res: Self)
        ensures
            res@.len() == self@.len(),
            forall|i: int| 0 <= i < self@.len() ==> cloned(self@[i], #[trigger] res@[i]),
            self.wf() ==> res.wf(),
    {
        let mut data: Vec<T> = Vec::new();
        let mut i: usize = 0;
        while i < self.data.len()
            invariant
                i <= self.data@.len(),
                data@.len() == i,
                forall|j: int| 0 <= j < i ==> cloned(self.data@[j], #[trigger] data@[j]),
            decreases self.data@.len() - i,
        {
            data.push(self.data[i].clone());
            i += 1;
        }
        Self { data }
    }
}

impl<T: PartialEq, const N: usize> PartialEqSpecImpl for StaticVec<T, N> {
    open spec fn obeys_eq_spec() -> bool {
        T::obeys_eq_spec()
    }

    /// Two vectors are equal when they have as many elements and the elements
    /// in each place are equal.
    open spec fn eq_spec(&self, other: &Self) -> bool {
        &&& self@.len() == other@.len()
        &&& forall|i: int| 0 <= i < self@.len() ==> #[trigger] self@[i].eq_spec(&other@[i])
    }
}

impl<T: PartialEq, const N: usize> PartialEq for StaticVec<T, N> {
    fn eq(&self, other: &Self) -> (r: bool) {
        if self.data.len() != other.data.len() {
            return false;
        }
        let mut i: usize = 0;
        while i < self.data.len()
            invariant
                i <= self.data@.len(),
                self.data@.len() == other.data@.len(),
                T::obeys_eq_spec() ==> forall|j: int|
                    0 <= j < i ==> #[trigger] self.data@[j].eq_spec(&other.data@[j]),
            decreases self.data@.len() - i,
        {
            if !(self.data[i] == other.data[i]) {
                return false;
            }
            i += 1;
        }
        true
    }
}

impl<'a, T, const N: usize> IntoIterator for &'a StaticVec<T, N> {
    type Item = &'a T;

    type IntoIter = Iter<'a, T>;

    fn into_iter(self) -> (it: Iter<'a, T>)
        ensures
            it.remaining() == self@.as_ref(),
            IteratorSpec::decrease(&it) is Some,
            IteratorSpec::initial_value_relation(&it, &it),
    {
        self.iter()
    }
}

impl<T, const N: usize> Default for StaticVec<T, N> {
    /// The empty vector.
    fn default() -> (v: Self)
        ensures
            v@ == Seq::<T>::empty(),
            v.wf(),
    {
        Self { data: Vec::new() }
    }
}

/// The storage has no constructor in specifications, so the conversion cannot
/// be given as a function: `from` states its result over the view instead.
impl<'a, T: Clone, const N: usize> FromSpecImpl<&'a [T; N]> for StaticVec<T, N> {
    open spec fn obeys_from_spec() -> bool {
        false
    }

    open spec fn from_spec(value: &'a [T; N]) -> Self {
        arbitrary()
    }
}

impl<'a, T: Clone, const N: usize> From<&'a [T; N]> for StaticVec<T, N> {
    /// A full vector: a clone of each element of `value`, in order.
    fn from(value: &'a [T; N]) -> (v: Self)
        ensures
            v@.len() == N,
            forall|i: int| 0 <= i < N ==> cloned(value@[i], #[trigger] v@[i]),
            v.wf(),
    {
        let mut data: Vec<T> = Vec::new();
        let mut i: usize = 0;
        while i < N
            invariant
                i <= N,
                data@.len() == i,
                forall|j: int| 0 <= j < i ==> cloned(value@[j], #[trigger] data@[j]),
            decreases N - i,
        {
            data.push(value[i].clone());
            i += 1;
        }
        Self { data }
    }
}

/// As for the conversion from a reference: `from` states its result over the
/// view.
impl<T, const N: usize> FromSpecImpl<[T; N]> for StaticVec<T, N> {
    open spec fn obeys_from_spec() -> bool {
        false
    }

    open spec fn from_spec(value: [T; N]) -> Self {
        arbitrary()
    }
}

impl<T, const N: usize> From<[T; N]> for StaticVec<T, N> {
    /// A full vector: the elements of `value`, in order.
    fn from(value: [T; N]) -> (v: Self)
        ensures
            v@ == value@,
            v.wf(),
    {
        Self { data: extend_array(value) }
    }
}

impl<T, const N: usize> Deref for StaticVec<T, N> {
    type Target = [T];

    fn deref(&self) -> (s: &[T])
        ensures
            s@ == self@,
    {
        self.as_slice()
    }
}

impl<T, const N: usize> DerefMut for StaticVec<T, N> {
    fn deref_mut(&mut self) -> (s: &mut [T])
        ensures
            s@ == old(self)@,
            final(self)@ == final(s)@,
    {
        self.as_mut_slice()
    }
}

impl<T, const N: usize> vstd::std_specs::core::IndexSpecImpl<usize> for StaticVec<T, N> {
    open spec fn index_req(&self, index: &usize) -> bool {
        *index < self@.len()
    }
}

impl<T, const N: usize> Index<usize> for StaticVec<T, N> {
    type Output = T;

    fn index(&self, index: usize) -> (item: &T)
        ensures
            *item == self@[index as int],
    {
        &self.data[index]
    }
}

} // verus!
