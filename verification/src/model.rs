//! The mathematical model of a bounded vector: a sequence together with a
//! capacity, and what each growing or shrinking operation makes of it.
//!
//! The executable operations of [`crate::StaticVec`] are specified by the
//! functions of this module; the lemmas state what follows for runs of several
//! operations.
use vstd::prelude::*;

verus! {

/// How many more elements a sequence of length `len` can take under `cap`.
pub open spec fn room(len: nat, cap: nat) -> nat {
    if len <= cap {
        (cap - len) as nat
    } else {
        0
    }
}

/// The contents after trying to push `item`: appended if there is room,
/// otherwise unchanged.
pub open spec fn pushed<T>(s: Seq<T>, item: T, cap: nat) -> Seq<T> {
    if s.len() < cap {
        s.push(item)
    } else {
        s
    }
}

/// The contents after trying to push each of `items` in turn.
pub open spec fn pushed_all<T>(s: Seq<T>, items: Seq<T>, cap: nat) -> Seq<T>
    decreases items.len(),
{
    if items.len() == 0 {
        s
    } else {
        pushed_all(pushed(s, items[0], cap), items.drop_first(), cap)
    }
}

/// The contents after an all-or-nothing append of `items`.
pub open spec fn extended<T>(s: Seq<T>, items: Seq<T>, cap: nat) -> Seq<T> {
    if s.len() + items.len() <= cap {
        s + items
    } else {
        s
    }
}

/// How many of `count` arriving items a sequence of length `len` takes when
/// they are appended one at a time until one does not fit.
pub open spec fn kept(len: nat, count: nat, cap: nat) -> nat {
    if count <= room(len, cap) {
        count
    } else {
        room(len, cap)
    }
}

/// The contents after appending the items one at a time until one does not
/// fit: the longest prefix of `items` for which there is room is kept.
pub open spec fn filled<T>(s: Seq<T>, items: Seq<T>, cap: nat) -> Seq<T> {
    s + items.take(kept(s.len(), items.len(), cap) as int)
}

/// `after` is `before` without its element at `index`, the later elements
/// having moved down by one place in their order.
pub open spec fn removed_at<T>(before: Seq<T>, after: Seq<T>, index: int) -> bool {
    &&& 0 <= index < before.len()
    &&& after.len() == before.len() - 1
    &&& forall|j: int| index <= j < after.len() ==> after[j] == before[j + 1]
}

/// Pushing up to `cap` elements into an empty vector, or any run of elements
/// that fits beside what is there, keeps every element in the order pushed.
pub proof fn lemma_pushes_keep_order<T>(s: Seq<T>, items: Seq<T>, cap: nat)
    requires
        s.len() + items.len() <= cap,
    ensures
        pushed_all(s, items, cap) == s + items,
        pushed_all(s, items, cap).len() == s.len() + items.len(),
        s.len() == 0 ==> pushed_all(s, items, cap) == items,
    decreases items.len(),
{
    if items.len() == 0 {
        assert(s + items =~= s);
    } else {
        lemma_pushes_keep_order(s.push(items[0]), items.drop_first(), cap);
        assert(s.push(items[0]) + items.drop_first() =~= s + items);
    }
    if s.len() == 0 {
        assert(s + items =~= items);
    }
}

/// A push into a vector that is at its capacity changes nothing.
pub proof fn lemma_push_when_full<T>(s: Seq<T>, item: T, cap: nat)
    requires
        s.len() >= cap,
    ensures
        pushed(s, item, cap) == s,
{
}

/// An all-or-nothing append either adds every item, as pushing each in turn
/// would, or leaves the vector exactly as it was.
pub proof fn lemma_extended_all_or_nothing<T>(s: Seq<T>, items: Seq<T>, cap: nat)
    ensures
        s.len() + items.len() <= cap ==> extended(s, items, cap) == pushed_all(s, items, cap),
        s.len() + items.len() > cap ==> extended(s, items, cap) == s,
{
    if s.len() + items.len() <= cap {
        lemma_pushes_keep_order(s, items, cap);
    }
}

/// Appending one at a time is the same as pushing each item in turn: what
/// fits is kept, in order, and the rest is not.
pub proof fn lemma_filled_is_pushed_all<T>(s: Seq<T>, items: Seq<T>, cap: nat)
    ensures
        filled(s, items, cap) == pushed_all(s, items, cap),
    decreases items.len(),
{
    if items.len() == 0 {
        assert(s + items =~= s);
    } else {
        let rest = items.drop_first();
        lemma_filled_is_pushed_all(pushed(s, items[0], cap), rest, cap);
        if s.len() < cap {
            let r = room(s.len(), cap);
            if items.len() <= r {
                assert(s.push(items[0]) + rest =~= s + items);
            } else {
                assert(s.push(items[0]) + rest.take(r - 1) =~= s + items.take(r as int));
            }
        } else {
            assert(items.take(0) =~= Seq::<T>::empty());
            assert(rest.take(0) =~= Seq::<T>::empty());
            assert(s + Seq::<T>::empty() =~= s);
        }
    }
}

/// When more items arrive than fit, appending one at a time leaves the vector
/// exactly full, holding the old contents and then the items that fitted; a
/// push after that is refused.
pub proof fn lemma_filled_overflow<T>(s: Seq<T>, items: Seq<T>, cap: nat, next: T)
    requires
        s.len() <= cap,
        s.len() + items.len() > cap,
    ensures
        filled(s, items, cap).len() == cap,
        filled(s, items, cap) == s + items.take(cap - s.len()),
        pushed(filled(s, items, cap), next, cap) == filled(s, items, cap),
{
}

/// Removing the element at `index` leaves the elements before it followed by
/// the elements after it.
pub proof fn lemma_remove_is_stable<T>(s: Seq<T>, index: int)
    requires
        0 <= index < s.len(),
    ensures
        s.remove(index).len() == s.len() - 1,
        s.remove(index) == s.subrange(0, index) + s.subrange(index + 1, s.len() as int),
        forall|j: int| 0 <= j < index ==> s.remove(index)[j] == s[j],
        forall|j: int| index <= j < s.len() - 1 ==> s.remove(index)[j] == s[j + 1],
        removed_at(s, s.remove(index), index),
{
    assert(s.remove(index) =~= s.subrange(0, index) + s.subrange(index + 1, s.len() as int));
}

/// Removing an element frees room for exactly one push.
pub proof fn lemma_remove_frees_room<T>(s: Seq<T>, index: int, item: T, cap: nat)
    requires
        0 <= index < s.len(),
        s.len() <= cap,
    ensures
        pushed(s.remove(index), item, cap) == s.remove(index).push(item),
        pushed(s.remove(index), item, cap).len() == s.len(),
{
}

} // verus!
