use static_vec::{StaticVec, StaticVecError};

fn filled_with<const N: usize>(items: &[u32]) -> StaticVec<u32, N> {
    let mut v = StaticVec::<u32, N>::default();
    for x in items {
        v.push(*x).unwrap();
    }
    v
}

#[test]
fn new_gives_default_elements() {
    let v = StaticVec::<u32, 4>::new(3).unwrap();
    assert_eq!(v.len(), 3);
    assert!(!v.is_empty());
    assert_eq!(v.as_slice(), &[0, 0, 0]);
}

#[test]
fn new_of_zero_is_empty() {
    let v = StaticVec::<u8, 4>::new(0).unwrap();
    assert_eq!(v.len(), 0);
    assert!(v.is_empty());
    assert_eq!(v.as_slice(), &[] as &[u8]);
}

#[test]
fn new_at_capacity_succeeds() {
    let v = StaticVec::<u8, 4>::new(4).unwrap();
    assert_eq!(v.len(), 4);
}

#[test]
fn new_past_capacity_is_refused() {
    let r = StaticVec::<u32, 4>::new(5);
    assert_eq!(r.unwrap_err(), StaticVecError::CapacityExceeded);
}

#[test]
fn new_with_zero_capacity() {
    assert!(StaticVec::<u32, 0>::new(0).is_ok());
    assert_eq!(
        StaticVec::<u32, 0>::new(1).unwrap_err(),
        StaticVecError::CapacityExceeded
    );
}

#[test]
fn default_is_empty() {
    let v = StaticVec::<String, 3>::default();
    assert_eq!(v.len(), 0);
    assert!(v.is_empty());
}

#[test]
fn pushes_keep_count_and_order() {
    let mut v = StaticVec::<u32, 5>::default();
    for (count, x) in [10u32, 20, 30, 40, 50].into_iter().enumerate() {
        assert_eq!(v.push(x), Ok(()));
        assert_eq!(v.len(), count + 1);
    }
    assert_eq!(v.as_slice(), &[10, 20, 30, 40, 50]);
}

#[test]
fn push_when_full_fails_and_changes_nothing() {
    let mut v = filled_with::<3>(&[1, 2, 3]);
    assert_eq!(v.push(4), Err(StaticVecError::CapacityExceeded));
    assert_eq!(v.len(), 3);
    assert_eq!(v.as_slice(), &[1, 2, 3]);
    assert_eq!(v.push(5), Err(StaticVecError::CapacityExceeded));
    assert_eq!(v.as_slice(), &[1, 2, 3]);
}

#[test]
fn push_into_zero_capacity_fails() {
    let mut v = StaticVec::<u32, 0>::default();
    assert_eq!(v.push(1), Err(StaticVecError::CapacityExceeded));
    assert!(v.is_empty());
}

#[test]
fn push_takes_values_that_are_not_copy() {
    let mut v = StaticVec::<String, 2>::default();
    v.push(String::from("a")).unwrap();
    v.push(String::from("b")).unwrap();
    assert_eq!(v.as_slice(), &[String::from("a"), String::from("b")]);
    assert_eq!(v.remove(0), "a");
    assert_eq!(v.as_slice(), &[String::from("b")]);
}

#[test]
fn extend_from_slice_appends_all() {
    let mut v = filled_with::<5>(&[1]);
    assert_eq!(v.try_extend_from_slice(&[2, 3, 4]), Ok(()));
    assert_eq!(v.as_slice(), &[1, 2, 3, 4]);
    assert_eq!(v.try_extend_from_slice(&[5]), Ok(()));
    assert_eq!(v.as_slice(), &[1, 2, 3, 4, 5]);
}

#[test]
fn extend_from_slice_is_all_or_nothing() {
    let mut v = filled_with::<4>(&[1, 2]);
    assert_eq!(
        v.try_extend_from_slice(&[3, 4, 5]),
        Err(StaticVecError::CapacityExceeded)
    );
    assert_eq!(v.len(), 2);
    assert_eq!(v.as_slice(), &[1, 2]);
    assert_eq!(v.try_extend_from_slice(&[3, 4]), Ok(()));
    assert_eq!(v.as_slice(), &[1, 2, 3, 4]);
}

#[test]
fn extend_from_empty_slice_always_fits() {
    let mut v = filled_with::<2>(&[1, 2]);
    assert_eq!(v.try_extend_from_slice(&[]), Ok(()));
    assert_eq!(v.as_slice(), &[1, 2]);
}

#[test]
fn extend_from_iter_appends_all_that_fit() {
    let mut v = filled_with::<4>(&[1]);
    assert_eq!(v.try_extend_from_iter([2u32, 3, 4].into_iter()), Ok(()));
    assert_eq!(v.as_slice(), &[1, 2, 3, 4]);
}

#[test]
fn extend_from_iter_keeps_what_fitted() {
    let mut v = filled_with::<4>(&[1, 2]);
    assert_eq!(
        v.try_extend_from_iter([3u32, 4, 5, 6].into_iter()),
        Err(StaticVecError::CapacityExceeded)
    );
    assert_eq!(v.len(), 4);
    assert_eq!(v.as_slice(), &[1, 2, 3, 4]);
    assert_eq!(v.push(7), Err(StaticVecError::CapacityExceeded));
    assert_eq!(v.remove(0), 1);
    assert_eq!(v.push(7), Ok(()));
    assert_eq!(v.as_slice(), &[2, 3, 4, 7]);
}

#[test]
fn extend_from_iter_stops_at_the_first_item_that_does_not_fit() {
    let mut v = StaticVec::<u32, 2>::default();
    let mut source = [1u32, 2, 3, 4, 5].into_iter();
    assert_eq!(
        v.try_extend_from_iter(&mut source),
        Err(StaticVecError::CapacityExceeded)
    );
    assert_eq!(v.as_slice(), &[1, 2]);
    assert_eq!(source.next(), Some(4));
}

#[test]
fn extend_from_iter_ends_on_an_endless_source() {
    let mut v = StaticVec::<u32, 3>::default();
    assert_eq!(
        v.try_extend_from_iter(core::iter::repeat(7u32)),
        Err(StaticVecError::CapacityExceeded)
    );
    assert_eq!(v.as_slice(), &[7, 7, 7]);
}

#[test]
fn extend_from_empty_iter_into_full_vector_succeeds() {
    let mut v = filled_with::<2>(&[1, 2]);
    assert_eq!(v.try_extend_from_iter(core::iter::empty()), Ok(()));
    assert_eq!(v.as_slice(), &[1, 2]);
}

#[test]
fn extend_from_iter_ref_clones() {
    let source = vec![String::from("x"), String::from("y")];
    let mut v = StaticVec::<String, 3>::default();
    assert_eq!(v.try_extend_from_iter_ref(source.iter()), Ok(()));
    assert_eq!(v.as_slice(), source.as_slice());
    assert_eq!(
        v.try_extend_from_iter_ref(source.iter()),
        Err(StaticVecError::CapacityExceeded)
    );
    assert_eq!(
        v.as_slice(),
        &[String::from("x"), String::from("y"), String::from("x")]
    );
    assert_eq!(source.len(), 2);
}

#[test]
fn remove_every_valid_index() {
    for i in 0..5usize {
        let mut v = filled_with::<5>(&[10, 11, 12, 13, 14]);
        let mut expected = vec![10u32, 11, 12, 13, 14];
        let removed = expected.remove(i);
        assert_eq!(v.remove(i), removed);
        assert_eq!(v.len(), 4);
        assert_eq!(v.as_slice(), expected.as_slice());
    }
}

#[test]
fn remove_the_only_element() {
    let mut v = filled_with::<1>(&[9]);
    assert_eq!(v.remove(0), 9);
    assert!(v.is_empty());
}

#[test]
fn from_array_round_trip() {
    let v: StaticVec<u32, 4> = StaticVec::from([4, 3, 2, 1]);
    assert_eq!(v.len(), 4);
    assert_eq!(v.as_slice(), &[4, 3, 2, 1]);
}

#[test]
fn from_array_moves_the_elements() {
    let v: StaticVec<String, 2> = StaticVec::from([String::from("p"), String::from("q")]);
    assert_eq!(v.as_slice(), &[String::from("p"), String::from("q")]);
}

#[test]
fn from_array_reference_clones() {
    let source = [1u8, 2, 3];
    let v: StaticVec<u8, 3> = StaticVec::from(&source);
    assert_eq!(v.as_slice(), &source);
}

#[test]
fn from_shorter_array() {
    let mut v = StaticVec::<u32, 4>::from_array([7, 8]);
    assert_eq!(v.len(), 2);
    assert_eq!(v.as_slice(), &[7, 8]);
    assert_eq!(v.push(9), Ok(()));
    assert_eq!(v.push(10), Ok(()));
    assert_eq!(v.push(11), Err(StaticVecError::CapacityExceeded));
}

#[test]
fn from_empty_array() {
    let v = StaticVec::<u32, 4>::from_array([]);
    assert!(v.is_empty());
}

#[test]
fn clone_is_equal_and_independent() {
    let v = filled_with::<4>(&[1, 2, 3]);
    let mut w = v.clone();
    assert_eq!(v, w);
    w.push(4).unwrap();
    assert_ne!(v, w);
    assert_eq!(v.as_slice(), &[1, 2, 3]);
    assert_eq!(w.as_slice(), &[1, 2, 3, 4]);
}

#[test]
fn equality_is_pointwise() {
    let a = filled_with::<4>(&[1, 2, 3]);
    assert!(a == filled_with::<4>(&[1, 2, 3]));
    assert!(a != filled_with::<4>(&[1, 2, 4]));
    assert!(a != filled_with::<4>(&[1, 2]));
    assert!(a != filled_with::<4>(&[1, 2, 3, 4]));
    assert!(StaticVec::<u32, 4>::default() == StaticVec::<u32, 4>::default());
}

#[test]
fn equality_ignores_removed_elements() {
    let mut a = filled_with::<4>(&[1, 2, 3]);
    a.remove(2);
    assert_eq!(a, filled_with::<4>(&[1, 2]));
}

#[test]
fn as_mut_slice_changes_elements_in_place() {
    let mut v = filled_with::<4>(&[1, 2, 3]);
    v.as_mut_slice()[1] = 20;
    assert_eq!(v.as_slice(), &[1, 20, 3]);
    assert_eq!(v.as_mut_slice().len(), 3);
}

#[test]
fn iter_yields_the_elements_in_order_and_restarts() {
    let v = filled_with::<4>(&[5, 6, 7]);
    assert_eq!(v.iter().copied().collect::<Vec<u32>>(), vec![5, 6, 7]);
    assert_eq!(v.iter().count(), 3);
    let mut seen = Vec::new();
    for x in &v {
        seen.push(*x);
    }
    assert_eq!(seen, vec![5, 6, 7]);
}

#[test]
fn iter_mut_changes_every_element_and_keeps_the_length() {
    let mut v = filled_with::<4>(&[1, 2, 3]);
    for x in v.iter_mut() {
        *x *= 10;
    }
    assert_eq!(v.len(), 3);
    assert_eq!(v.as_slice(), &[10, 20, 30]);
}

#[test]
fn deref_and_index() {
    let mut v = filled_with::<4>(&[3, 1, 2]);
    assert_eq!(v[0], 3);
    assert_eq!(v[2], 2);
    assert_eq!(v.first(), Some(&3));
    assert_eq!(v.contains(&1), true);
    v.sort();
    assert_eq!(v.as_slice(), &[1, 2, 3]);
}

#[test]
fn error_is_copy_and_comparable() {
    let e = StaticVecError::CapacityExceeded;
    let f = e;
    assert_eq!(e, f);
    assert_eq!(format!("{:?}", e), "CapacityExceeded");
}

#[test]
fn new_uses_the_default_of_the_element_type() {
    let v = StaticVec::<String, 3>::new(2).unwrap();
    assert_eq!(v.as_slice(), &[String::new(), String::new()]);
    let w = StaticVec::<Option<u8>, 3>::new(3).unwrap();
    assert_eq!(w.as_slice(), &[None, None, None]);
}

#[test]
fn clone_of_values_that_are_not_copy() {
    let mut v = StaticVec::<String, 3>::default();
    v.push(String::from("one")).unwrap();
    v.push(String::from("two")).unwrap();
    let w = v.clone();
    assert_eq!(w.len(), 2);
    assert_eq!(w.as_slice(), v.as_slice());
}

#[test]
fn removals_make_room_one_for_one() {
    let mut v = filled_with::<3>(&[1, 2, 3]);
    assert_eq!(v.remove(1), 2);
    assert_eq!(v.remove(0), 1);
    assert_eq!(v.try_extend_from_slice(&[7, 8, 9]), Err(StaticVecError::CapacityExceeded));
    assert_eq!(v.try_extend_from_slice(&[7, 8]), Ok(()));
    assert_eq!(v.as_slice(), &[3, 7, 8]);
}

#[test]
fn iter_mut_yields_each_element_once_in_order() {
    let mut v = filled_with::<5>(&[10, 20, 30]);
    let mut seen = Vec::new();
    for (place, x) in v.iter_mut().enumerate() {
        seen.push(*x);
        *x += place as u32;
    }
    assert_eq!(seen, vec![10, 20, 30]);
    assert_eq!(v.as_slice(), &[10, 21, 32]);
    assert_eq!(v.iter_mut().count(), 3);
}

#[test]
fn iter_mut_dropped_early_leaves_the_rest_untouched() {
    let mut v = filled_with::<4>(&[1, 2, 3]);
    {
        let mut it = v.iter_mut();
        *it.next().unwrap() = 9;
    }
    assert_eq!(v.as_slice(), &[9, 2, 3]);
}

#[test]
fn iter_mut_over_an_empty_vector_yields_nothing() {
    let mut v = StaticVec::<u32, 4>::default();
    assert!(v.iter_mut().next().is_none());
    assert!(v.is_empty());
}
