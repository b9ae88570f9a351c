use tindex::bits::FRAME_SIZE;
use tindex::TBitSet;

#[test]
fn test() {
    let mut set = TBitSet::new();
    assert_eq!(set.element_count(), 0);
    assert_eq!(set.get(1000000), false);
    assert_eq!(set.frame_count(), 0);
    assert!(set.is_empty());
    set.add(3);
    assert_eq!(set.frame_count(), 1);
    assert_eq!(set.get(3), true);
    assert_eq!(set.get(4), false);
    assert!(!set.is_empty());
    set.clear();
    assert!(set.is_empty());
    assert_eq!(set.get(3), false);
    set.add(5);
    assert_eq!(set.element_count(), 1);
    assert!(!set.is_empty());
    assert_eq!(set.get(5), true);
    set.add(FRAME_SIZE + 2);
    assert_eq!(set.frame_count(), 2);
    assert_eq!(set.get(FRAME_SIZE + 2), true);
    assert_eq!(set.get(FRAME_SIZE + 1), false);
    set.flip(FRAME_SIZE + 4);
    assert_eq!(set.get(FRAME_SIZE), false);
    assert_eq!(set.get(FRAME_SIZE + 2), true);
    assert_eq!(set.get(FRAME_SIZE + 4), true);
    set.flip(FRAME_SIZE + 4);
    assert_eq!(set.get(FRAME_SIZE + 4), false);
    set.flip(FRAME_SIZE * 2 + 1);
    assert_eq!(set.frame_count(), 3);
    assert_eq!(set.get(FRAME_SIZE * 2 + 1), true);
    assert_eq!(set.get(FRAME_SIZE * 2 + 3), false);
    set.remove(FRAME_SIZE * 2 + 1);
    assert_eq!(set.get(FRAME_SIZE * 2 + 1), false);
    set.remove(FRAME_SIZE * 2 + 1);
    assert_eq!(set.get(FRAME_SIZE * 2 + 1), false);
    set.remove(FRAME_SIZE * 100);
    assert_eq!(set.frame_count(), 3);
    assert_eq!(set.element_count(), 2);
}

#[test]
fn eq() {
    let mut a = TBitSet::new();
    let mut b = TBitSet::new();
    a.add(FRAME_SIZE * 2);
    assert_ne!(a, b);
    b.add(FRAME_SIZE * 2);
    assert_eq!(a, b);
    a.add(FRAME_SIZE * 3);
    assert_ne!(a, b);
    a.remove(FRAME_SIZE * 3);
    assert_ne!(a.frame_count(), b.frame_count());
    assert_eq!(a, b);
    b.add(FRAME_SIZE * 4);
    assert_ne!(a, b);
    assert!(b.contains(&a));
    assert!(!a.contains(&b));
    b.remove(FRAME_SIZE * 4);
    assert_ne!(a.frame_count(), b.frame_count());
    assert_eq!(a, b);
    assert!(a.contains(&b));
    assert!(b.contains(&a));
}

#[test]
fn iter() {
    let mut set: TBitSet<usize> = TBitSet::from_iter(vec![7, 4, 3, 4, 1, 1000]);
    assert_eq!(set.get(1), true);
    assert_eq!(set.get(2), false);
    assert_eq!(set.get(4), true);
    set.add(0);
    assert_eq!(set.get(0), true);
    assert_eq!(set.get(7), true);
    assert_eq!(set.get(99), false);
    assert_eq!(set.get(1000), true);

    let mut iter = set.iter();
    assert_eq!(iter.next(), Some(0));
    assert_eq!(iter.next(), Some(1));
    assert_eq!(iter.next(), Some(3));
    assert_eq!(iter.next(), Some(4));
    assert_eq!(iter.next(), Some(7));
    assert_eq!(iter.next(), Some(1000));
    assert_eq!(iter.next(), None);

    set.remove(0);
    set.extend(vec![5, 1]);
    assert_eq!(set.get(1), true);
    assert_eq!(set.get(2), false);
    assert_eq!(set.get(5), true);

    let mut iter = set.into_iter();
    assert_eq!(iter.next(), Some(1));
    assert_eq!(iter.next(), Some(3));
    assert_eq!(iter.next(), Some(4));
    assert_eq!(iter.next_back(), Some(1000));
    assert_eq!(iter.next_back(), Some(7));
    assert_eq!(iter.next(), Some(5));
    assert_eq!(iter.next(), None);
    assert_eq!(iter.next_back(), None);

    let set: TBitSet<u32> = TBitSet::from_iter(vec![0, 1]);
    let mut iter = set.iter();
    assert_eq!(iter.next_back(), Some(1));
    assert_eq!(iter.next_back(), Some(0));
    assert_eq!(iter.next_back(), None);
    let mut iter = set.iter();
    assert_eq!(iter.next_back(), Some(1));
    assert_eq!(iter.next(), Some(0));
    assert_eq!(iter.next_back(), None);
    let mut iter = set.iter();
    assert_eq!(iter.next(), Some(0));
    assert_eq!(iter.next_back(), Some(1));
    assert_eq!(iter.next(), None);
}

#[test]
fn union() {
    let a: TBitSet<usize> = TBitSet::from_iter(vec![1, 3, 4, 100, 300, 1800]);
    let b: TBitSet<_> = TBitSet::from_iter(vec![3, 5, 99, 300]);
    assert_eq!(a.union(&b), TBitSet::from_iter(vec![3, 300]));
}
