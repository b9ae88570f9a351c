use tindex::slice_index::TSliceIndex;
use tindex::{TSlice, TVec};

fn numbers() -> TVec<u32, i32> {
    TVec::from_vec(vec![10, 20, 30, 40, 50])
}

#[test]
fn mutable_view_over_raw_storage() {
    let mut raw = [1, 2, 3];
    {
        let mut view: TSlice<usize, i32> = TSlice::from_mut_slice(&mut raw);
        assert_eq!(view.len(), 3);
        assert!(!view.is_empty());
        view.swap(0, 2);
        *view.index_mut(1) = 7;
        assert_eq!(view.as_ref().to_slice(), &[3, 7, 1]);
    }
    assert_eq!(raw, [3, 7, 1]);
}

#[test]
fn mutable_view_of_a_collection() {
    let mut v = numbers();
    {
        let mut view = v.as_mut_slice();
        *view.first_mut().unwrap() = 11;
        *view.last_mut().unwrap() = 51;
        *view.get_mut(2).unwrap() = 31;
        assert!(view.get_mut(5).is_none());
        view.inner[3] = 41;
    }
    assert_eq!(v.into_vec(), vec![11, 20, 31, 41, 51]);
}

#[test]
fn first_and_last_of_an_empty_view() {
    let mut raw: [i32; 0] = [];
    let mut view: TSlice<usize, i32> = TSlice::from_mut_slice(&mut raw);
    assert!(view.is_empty());
    assert!(view.first_mut().is_none());
    assert!(view.last_mut().is_none());
}

#[test]
fn split_at_mut_gives_two_halves() {
    let mut v = numbers();
    {
        let (mut left, mut right) = v.as_mut_slice().split_at_mut(2);
        assert_eq!(left.len(), 2);
        assert_eq!(right.len(), 3);
        *left.index_mut(1) = 0;
        *right.index_mut(0) = 1;
        right.swap(1, 2);
    }
    assert_eq!(v.into_vec(), vec![10, 0, 1, 50, 40]);
}

#[test]
fn range_shapes_for_writing() {
    let mut v = numbers();
    {
        let mut part = v.as_mut_slice().get_range_mut(1..3).unwrap();
        assert_eq!(part.as_ref().to_slice(), &[20, 30]);
        part.swap(0, 1);
    }
    {
        let mut part = v.as_mut_slice().index_range_mut(3..);
        *part.index_mut(1) = 5;
    }
    {
        let mut part = v.as_mut_slice().index_range_mut(..=0);
        *part.index_mut(0) = 1;
    }
    assert!(v.as_mut_slice().get_range_mut(2..6).is_none());
    assert!(v.as_mut_slice().get_range_mut(4..3).is_none());
    assert!(v.as_mut_slice().get_range_mut(..=5).is_none());
    assert_eq!(v.as_mut_slice().get_range_mut(..).unwrap().len(), 5);
    assert_eq!(v.as_mut_slice().get_range_mut(5..).unwrap().len(), 0);
    assert_eq!(v.as_mut_slice().get_range_mut(1..=1).unwrap().len(), 1);
    assert_eq!(v.as_mut_slice().get_range_mut(..2).unwrap().len(), 2);
    assert_eq!(v.into_vec(), vec![1, 30, 20, 40, 5]);
}

#[test]
fn iter_mut_writes_every_value() {
    let mut v = numbers();
    for x in v.as_mut_slice().iter_mut() {
        *x += 1;
    }
    assert_eq!(v.into_vec(), vec![11, 21, 31, 41, 51]);
}

#[test]
fn sort_orders_the_values() {
    let mut v: TVec<u32, i32> = TVec::from_vec(vec![3, 1, 2, 1, -5]);
    v.sort();
    assert_eq!(v.as_slice().to_slice(), &[-5, 1, 1, 2, 3]);
    let mut w: TVec<u32, i32> = TVec::from_vec(vec![2, 9, 4]);
    w.as_mut_slice().sort();
    assert_eq!(w.into_vec(), vec![2, 4, 9]);
}

#[test]
fn sort_by_a_comparing_function() {
    let mut v: TVec<u32, i32> = TVec::from_vec(vec![3, 1, 2]);
    v.as_mut_slice().sort_by(|a: &i32, b: &i32| b.cmp(a));
    assert_eq!(v.into_vec(), vec![3, 2, 1]);
}

#[test]
fn sort_by_key_is_stable() {
    let mut v: TVec<u32, (i32, char)> = TVec::from_vec(vec![(2, 'a'), (1, 'b'), (2, 'c'), (1, 'd')]);
    v.as_mut_slice().sort_by_key(|p: &(i32, char)| p.0);
    assert_eq!(v.as_slice().to_slice(), &[(1, 'b'), (1, 'd'), (2, 'a'), (2, 'c')]);
    let mut w: TVec<u32, (i32, char)> = TVec::from_vec(vec![(2, 'a'), (1, 'b'), (2, 'c'), (1, 'd')]);
    w.as_mut_slice().sort_by_cached_key(|p: &(i32, char)| -p.0);
    assert_eq!(w.into_vec(), vec![(2, 'a'), (2, 'c'), (1, 'b'), (1, 'd')]);
}

#[test]
fn sorted_view_can_be_searched() {
    let mut v: TVec<u32, i32> = TVec::from_vec(vec![40, 10, 30, 20]);
    v.sort();
    assert_eq!(v.as_slice().binary_search(&25), Err(2));
    assert_eq!(v.as_slice().binary_search(&30), Ok(2));
}

#[test]
fn clone_and_default_of_a_collection() {
    let v = numbers();
    let w = v.clone();
    assert_eq!(v.as_slice().to_slice(), w.as_slice().to_slice());
    let d: TVec<u32, i32> = TVec::default();
    assert!(d.is_empty());
}

#[test]
fn shapes_select_for_writing() {
    use_shapes();
}

fn use_shapes() {
    let mut v = numbers();
    *2u32.index_mut(v.as_mut_slice()) = 33;
    *0u32.get_mut(v.as_mut_slice()).unwrap() = 11;
    assert!(5u32.get_mut(v.as_mut_slice()).is_none());
    (1u32..3).index_mut(v.as_mut_slice()).swap(0, 1);
    *(3u32..).get_mut(v.as_mut_slice()).unwrap().index_mut(1) = 55;
    *(..1u32).index_mut(v.as_mut_slice()).index_mut(0) += 1;
    *(3u32..=3).index_mut(v.as_mut_slice()).index_mut(0) = 44;
    *(..=1u32).get_mut(v.as_mut_slice()).unwrap().index_mut(1) += 1;
    assert_eq!(TSliceIndex::<u32, i32>::index_mut(.., v.as_mut_slice()).len(), 5);
    assert!((2u32..6).get_mut(v.as_mut_slice()).is_none());
    assert!((..=5u32).get_mut(v.as_mut_slice()).is_none());
    assert!(TSliceIndex::<u32, i32>::get_mut(.., v.as_mut_slice()).is_some());
    assert_eq!(v.into_vec(), vec![12, 34, 20, 44, 55]);
}

#[test]
fn reading_through_the_view() {
    let mut raw = [10, 20, 30, 40];
    let view: TSlice<u32, i32> = TSlice::from_mut_slice(&mut raw);
    assert_eq!(view.len(), 4);
    assert_eq!(view.first(), Some(&10));
    assert_eq!(view.last(), Some(&40));
    assert_eq!(view.get(1), Some(&20));
    assert_eq!(view.get(4), None);
    assert_eq!(view[2u32], 30);
    assert_eq!(view.last_id(), Some(3));
    assert_eq!(view.range_start(), 0);
    assert_eq!(view.range_end(), 4);
    assert_eq!(view.to_slice(), &[10, 20, 30, 40]);
    assert!(view.contains(&30));
    assert!(!view.contains(&31));
    let (left, right) = view.split_at(1);
    assert_eq!(left.to_slice(), &[10]);
    assert_eq!(right.to_slice(), &[20, 30, 40]);
    let (last, front) = view.split_last().unwrap();
    assert_eq!(*last, 40);
    assert_eq!(front.to_slice(), &[10, 20, 30]);
    let all: Vec<i32> = view.iter().copied().collect();
    assert_eq!(all, vec![10, 20, 30, 40]);
    assert_eq!(view.windows(3).count(), 2);
    let mut ids = view.index_iter();
    assert_eq!(ids.next(), Some(0));
    assert_eq!(ids.next_back(), Some(3));
    assert_eq!(ids.len(), 2);
}

#[test]
fn searching_through_the_view() {
    let mut raw = [10, 20, 30, 40];
    let view: TSlice<u32, i32> = TSlice::from_mut_slice(&mut raw);
    assert_eq!(view.binary_search(&25), Err(2));
    assert_eq!(view.binary_search(&20), Ok(1));
    assert_eq!(view.binary_search_by(|p: &i32| p.cmp(&41)), Err(4));
    assert_eq!(view.binary_search_by_key(&4, |p: &i32| *p / 10), Ok(3));
}

#[test]
fn read_write_views_compare_by_value() {
    let mut a = [1, 2, 3];
    let mut b = [1, 2, 3];
    let mut c = [1, 2, 4];
    let va: TSlice<u32, i32> = TSlice::from_mut_slice(&mut a);
    let vb: TSlice<u32, i32> = TSlice::from_mut_slice(&mut b);
    let vc: TSlice<u32, i32> = TSlice::from_mut_slice(&mut c);
    assert!(va == vb);
    assert!(va != vc);
}

#[test]
fn empty_view_reads_nothing() {
    let mut raw: [i32; 0] = [];
    let view: TSlice<u32, i32> = TSlice::from_mut_slice(&mut raw);
    assert!(view.is_empty());
    assert_eq!(view.first(), None);
    assert_eq!(view.last(), None);
    assert_eq!(view.last_id(), None);
    assert!(view.split_last().is_none());
    assert_eq!(view.binary_search(&1), Err(0));
}

#[test]
fn iter_mut_hands_out_each_value_in_order() {
    let mut raw = [1, 2, 3];
    {
        let view: TSlice<u32, i32> = TSlice::from_mut_slice(&mut raw);
        let mut iter = view.iter_mut();
        let first = iter.next().unwrap();
        assert_eq!(*first, 1);
        *first = 10;
        let second = iter.next().unwrap();
        assert_eq!(*second, 2);
        let third = iter.next().unwrap();
        assert_eq!(*third, 3);
        *third = 30;
        assert!(iter.next().is_none());
    }
    assert_eq!(raw, [10, 2, 30]);
}

#[test]
fn windows_of_the_read_write_view() {
    let mut raw = [1, 2, 3, 4];
    let view: TSlice<u32, i32> = TSlice::from_mut_slice(&mut raw);
    let runs: Vec<&[i32]> = view.windows(2).collect();
    assert_eq!(runs, vec![&[1, 2][..], &[2, 3][..], &[3, 4][..]]);
    assert_eq!(view.windows(5).count(), 0);
}
