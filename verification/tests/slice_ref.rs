use tindex::slice_index::{TSliceBounds, TSliceIndex};
use tindex::{TSliceRef, TVec};

const DATA: [i32; 5] = [10, 20, 30, 40, 50];

fn view() -> TSliceRef<'static, u32, i32> {
    TSliceRef::from_slice(&DATA)
}

#[test]
fn length_and_ends() {
    let s = view();
    assert_eq!(s.len(), 5);
    assert!(!s.is_empty());
    assert_eq!(s.first(), Some(&10));
    assert_eq!(s.last(), Some(&50));
    assert_eq!(s.last_id(), Some(4));
    assert_eq!(s.range_start(), 0);
    assert_eq!(s.range_end(), 5);
    let none: TSliceRef<u32, i32> = TSliceRef::from_slice(&[]);
    assert!(none.is_empty());
    assert_eq!(none.first(), None);
    assert_eq!(none.last(), None);
    assert_eq!(none.last_id(), None);
    assert_eq!(none.range_end(), 0);
    assert!(none.split_last().is_none());
}

#[test]
fn view_shares_the_storage() {
    let s = view();
    assert!(std::ptr::eq(s.to_slice().as_ptr(), DATA.as_ptr()));
    let copy = s;
    assert_eq!(copy.to_slice(), s.to_slice());
}

#[test]
fn get_by_index() {
    let s = view();
    assert_eq!(s.get(0), Some(&10));
    assert_eq!(s.get(4), Some(&50));
    assert_eq!(s.get(5), None);
}

#[test]
fn split_at_every_index() {
    let s = view();
    for mid in 0u32..=5 {
        let (left, right) = s.split_at(mid);
        assert_eq!(left.len(), mid as usize);
        assert_eq!(left.to_slice(), &DATA[..mid as usize]);
        assert_eq!(right.to_slice(), &DATA[mid as usize..]);
    }
}

#[test]
fn split_last_gives_the_front() {
    let (last, front) = view().split_last().unwrap();
    assert_eq!(*last, 50);
    assert_eq!(front.to_slice(), &[10, 20, 30, 40]);
}

#[test]
fn contains_by_value() {
    let s = view();
    assert!(s.contains(&30));
    assert!(!s.contains(&35));
}

#[test]
fn std_iterators() {
    let s = view();
    let all: Vec<i32> = s.iter().copied().collect();
    assert_eq!(all, vec![10, 20, 30, 40, 50]);
    let sums: Vec<i32> = s.windows(2).map(|w| w[0] + w[1]).collect();
    assert_eq!(sums, vec![30, 50, 70, 90]);
}

#[test]
fn index_iter_covers_the_view() {
    let s = view();
    let mut iter = s.index_iter();
    let mut seen = Vec::new();
    while let Some(i) = iter.next() {
        seen.push((i, *s.get(i).unwrap()));
    }
    assert_eq!(seen, vec![(0, 10), (1, 20), (2, 30), (3, 40), (4, 50)]);
}

#[test]
fn binary_search_miss_gives_insertion_point() {
    let v: TVec<u32, i32> = TVec::from_vec(vec![10, 20, 30, 40]);
    assert_eq!(v.as_slice().binary_search(&25), Err(2));
    assert_eq!(v.as_slice().binary_search(&5), Err(0));
    assert_eq!(v.as_slice().binary_search(&45), Err(4));
}

#[test]
fn binary_search_hit_gives_index() {
    let v: TVec<u32, i32> = TVec::from_vec(vec![10, 20, 30, 40]);
    assert_eq!(v.as_slice().binary_search(&10), Ok(0));
    assert_eq!(v.as_slice().binary_search(&30), Ok(2));
    assert_eq!(v.as_slice().binary_search(&40), Ok(3));
    let none: TVec<u32, i32> = TVec::new();
    assert_eq!(none.as_slice().binary_search(&1), Err(0));
}

#[test]
fn binary_search_by_closure_and_key() {
    let pairs = [(1, 'a'), (4, 'b'), (9, 'c')];
    let s: TSliceRef<usize, (i32, char)> = TSliceRef::from_slice(&pairs);
    assert_eq!(s.binary_search_by(|p: &(i32, char)| p.0.cmp(&4)), Ok(1));
    assert_eq!(s.binary_search_by(|p: &(i32, char)| p.0.cmp(&5)), Err(2));
    assert_eq!(s.binary_search_by_key(&'c', |p: &(i32, char)| p.1), Ok(2));
    assert_eq!(s.binary_search_by_key(&0, |p: &(i32, char)| p.0), Err(0));
    assert_eq!(s.binary_search_by_key(&10, |p: &(i32, char)| p.0), Err(3));
}

#[test]
fn range_shapes_get() {
    let s = view();
    assert_eq!((1u32..3).get(s).unwrap().to_slice(), &[20, 30]);
    assert_eq!((3u32..).get(s).unwrap().to_slice(), &[40, 50]);
    assert_eq!((..2u32).get(s).unwrap().to_slice(), &[10, 20]);
    assert_eq!((1u32..=3).get(s).unwrap().to_slice(), &[20, 30, 40]);
    assert_eq!((..=1u32).get(s).unwrap().to_slice(), &[10, 20]);
    assert_eq!(TSliceIndex::<u32, i32>::get(.., s).unwrap().to_slice(), &DATA);
    assert_eq!(2u32.get(s), Some(&30));
    assert_eq!((5u32..5).get(s).unwrap().len(), 0);
    assert_eq!((5u32..).get(s).unwrap().len(), 0);
    assert_eq!((2u32..=1).get(s).unwrap().len(), 0);
}

#[test]
fn range_shapes_out_of_bounds() {
    let s = view();
    assert!((1u32..6).get(s).is_none());
    assert!((3u32..2).get(s).is_none());
    assert!((6u32..).get(s).is_none());
    assert!((..6u32).get(s).is_none());
    assert!((1u32..=5).get(s).is_none());
    assert!((3u32..=1).get(s).is_none());
    assert!((..=5u32).get(s).is_none());
    assert!((0usize..=usize::MAX).bounds(5).is_none());
    assert!((..=usize::MAX).bounds(5).is_none());
    assert!(5u32.get(s).is_none());
}

#[test]
fn range_shapes_index() {
    let s = view();
    assert_eq!((0u32..5).index(s).to_slice(), &DATA);
    assert_eq!((4u32..).index(s).to_slice(), &[50]);
    assert_eq!((..0u32).index(s).len(), 0);
    assert_eq!((0u32..=4).index(s).to_slice(), &DATA);
    assert_eq!((..=4u32).index(s).to_slice(), &DATA);
    assert_eq!(TSliceIndex::<u32, i32>::index(.., s).len(), 5);
    assert_eq!(*4u32.index(s), 50);
}

#[test]
fn bounds_of_each_shape() {
    assert_eq!((1u32..3).bounds(5), Some((1, 3)));
    assert_eq!((1u32..).bounds(5), Some((1, 5)));
    assert_eq!((..3u32).bounds(5), Some((0, 3)));
    assert_eq!((1u32..=3).bounds(5), Some((1, 4)));
    assert_eq!((..=3u32).bounds(5), Some((0, 4)));
    assert_eq!(TSliceBounds::<u32>::bounds(&.., 5), Some((0, 5)));
    assert_eq!(3u32.bounds(5), Some((3, 4)));
    assert_eq!(5u32.bounds(5), None);
}

#[test]
fn views_compare_by_value() {
    let other = [10, 20, 30, 40, 50];
    let a = view();
    let b: TSliceRef<u32, i32> = TSliceRef::from_slice(&other);
    assert_eq!(a, b);
    assert!(a == b);
    let (front, _) = a.split_at(4);
    assert_ne!(front, b);
    let changed = [10, 20, 31, 40, 50];
    assert_ne!(a, TSliceRef::from_slice(&changed));
    let none: TSliceRef<u32, i32> = TSliceRef::from_slice(&[]);
    assert_eq!(none, TSliceRef::from_slice(&[]));
}

#[test]
fn collections_compare_by_value() {
    let a: TVec<u32, i32> = TVec::from_vec(vec![1, 2, 3]);
    let mut b: TVec<u32, i32> = TVec::from_vec(vec![1, 2]);
    assert_ne!(a, b);
    b.push(3);
    assert_eq!(a, b);
    *b.index_mut(0) = 0;
    assert_ne!(a, b);
}

#[test]
fn index_operator_reads_by_typed_index() {
    let s = view();
    assert_eq!(s[0u32], 10);
    assert_eq!(s[4u32], 50);
    let v: TVec<u32, i32> = TVec::from_vec(vec![7, 8]);
    assert_eq!(v[1u32], 8);
}

#[test]
fn index_operator_matches_get() {
    let s = view();
    for k in 0u32..5 {
        assert_eq!(Some(&s[k]), s.get(k));
    }
}

fn hash_of<H: std::hash::Hash>(value: &H) -> u64 {
    let mut state = std::collections::hash_map::DefaultHasher::new();
    std::hash::Hash::hash(value, &mut state);
    std::hash::Hasher::finish(&state)
}

#[test]
fn equal_views_hash_alike() {
    let other = [10, 20, 30, 40, 50];
    let a = view();
    let b: TSliceRef<u32, i32> = TSliceRef::from_slice(&other);
    assert_eq!(hash_of(&a), hash_of(&b));
    let v: TVec<u32, i32> = TVec::from_vec(vec![1, 2, 3]);
    let w: TVec<u32, i32> = TVec::from_vec(vec![1, 2, 3]);
    assert_eq!(hash_of(&v), hash_of(&w));
}

#[test]
fn windows_hand_out_every_run_in_order() {
    let s = view();
    let runs: Vec<&[i32]> = s.windows(3).collect();
    assert_eq!(runs, vec![&[10, 20, 30][..], &[20, 30, 40][..], &[30, 40, 50][..]]);
    let whole: Vec<&[i32]> = s.windows(5).collect();
    assert_eq!(whole, vec![&DATA[..]]);
    assert_eq!(s.windows(6).count(), 0);
    let none: TSliceRef<u32, i32> = TSliceRef::from_slice(&[]);
    assert_eq!(none.windows(1).count(), 0);
}
