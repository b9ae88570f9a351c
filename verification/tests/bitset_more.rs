use tindex::bits::FRAME_SIZE;
use tindex::TBitSet;

fn forward(set: &TBitSet<usize>) -> Vec<usize> {
    let mut iter = set.iter();
    let mut out = Vec::new();
    while let Some(i) = iter.next() {
        out.push(i);
    }
    out
}

fn backward(set: &TBitSet<usize>) -> Vec<usize> {
    let mut iter = set.iter();
    let mut out = Vec::new();
    while let Some(i) = iter.next_back() {
        out.push(i);
    }
    out
}

#[test]
fn frame_size_is_64() {
    assert_eq!(FRAME_SIZE, 64);
}

#[test]
fn insert_three_offsets() {
    let mut set: TBitSet<usize> = TBitSet::new();
    set.add(3);
    set.add(70);
    set.add(133);
    assert_eq!(set.frame_count(), 3);
    assert_eq!(set.element_count(), 3);
    assert_eq!(forward(&set), vec![3, 70, 133]);
}

#[test]
fn remove_does_not_trim() {
    let mut set: TBitSet<usize> = TBitSet::from_iter(vec![3, 70, 133]);
    set.remove(70);
    assert!(!set.get(70));
    assert_eq!(set.element_count(), 2);
    assert_eq!(set.frame_count(), 3);
}

#[test]
fn trim_keeps_frames_that_hold_members() {
    let mut set: TBitSet<usize> = TBitSet::from_iter(vec![3, 70, 133]);
    set.remove(70);
    set.shrink_to_fit();
    assert_eq!(set.frame_count(), 3);
    set.remove(133);
    assert_eq!(set.frame_count(), 3);
    set.shrink_to_fit();
    assert_eq!(set.frame_count(), 1);
    assert_eq!(forward(&set), vec![3]);
    set.remove(3);
    set.shrink_to_fit();
    assert_eq!(set.frame_count(), 0);
    assert!(set.is_empty());
}

#[test]
fn trimmed_set_equals_untrimmed() {
    let mut a: TBitSet<usize> = TBitSet::from_iter(vec![1, 500]);
    a.remove(500);
    let mut b = a.clone();
    b.shrink_to_fit();
    assert_eq!(a.frame_count(), 8);
    assert_eq!(b.frame_count(), 1);
    assert_eq!(a, b);
    assert_eq!(b, a);
    assert_eq!(a.element_count(), b.element_count());
}

#[test]
fn empty_is_not_the_same_as_no_frames() {
    let mut set: TBitSet<usize> = TBitSet::new();
    set.add(200);
    set.remove(200);
    assert_eq!(set.frame_count(), 4);
    assert!(set.is_empty());
    assert_eq!(set.element_count(), 0);
    assert_eq!(set, TBitSet::new());
}

#[test]
fn get_far_beyond_storage_is_false() {
    let mut set: TBitSet<usize> = TBitSet::new();
    set.add(1);
    assert!(!set.get(usize::MAX));
    assert!(!set.get(usize::MAX - 63));
    assert!(!set.get(64));
    assert_eq!(set.frame_count(), 1);
}

#[test]
fn set_true_and_false() {
    let mut set: TBitSet<u32> = TBitSet::new();
    set.set(130, true);
    assert_eq!(set.frame_count(), 3);
    assert!(set.get(130));
    set.set(130, false);
    assert!(!set.get(130));
    assert_eq!(set.frame_count(), 3);
    set.set(100000, false);
    assert_eq!(set.frame_count(), 3);
    set.set(63, true);
    set.set(64, true);
    assert!(set.get(63));
    assert!(set.get(64));
    assert!(!set.get(62));
    assert!(!set.get(65));
    assert_eq!(set.element_count(), 2);
}

#[test]
fn flip_grows_like_add() {
    let mut set: TBitSet<usize> = TBitSet::new();
    set.flip(64);
    assert_eq!(set.frame_count(), 2);
    assert!(set.get(64));
    set.flip(64);
    assert!(!set.get(64));
    assert_eq!(set.frame_count(), 2);
    set.flip(0);
    assert_eq!(forward(&set), vec![0]);
}

#[test]
fn membership_follows_the_last_change() {
    let mut set: TBitSet<usize> = TBitSet::new();
    set.add(9);
    set.remove(9);
    set.add(9);
    set.add(10);
    set.remove(10);
    set.remove(11);
    assert!(set.get(9));
    assert!(!set.get(10));
    assert!(!set.get(11));
}

#[test]
fn count_matches_both_enumerations() {
    let set: TBitSet<usize> = TBitSet::from_iter(vec![0, 63, 64, 127, 128, 700, 5, 5]);
    let up = forward(&set);
    let down = backward(&set);
    assert_eq!(up, vec![0, 5, 63, 64, 127, 128, 700]);
    assert_eq!(down, vec![700, 128, 127, 64, 63, 5, 0]);
    assert_eq!(set.element_count(), 7);
    assert_eq!(up.len(), set.element_count());
    assert_eq!(down.len(), set.element_count());
}

#[test]
fn count_of_a_full_frame() {
    let mut set: TBitSet<usize> = TBitSet::new();
    for i in 0..64 {
        set.add(i);
    }
    assert_eq!(set.frame_count(), 1);
    assert_eq!(set.element_count(), 64);
    set.add(64);
    assert_eq!(set.element_count(), 65);
}

#[test]
fn interleaved_pulls_visit_each_member_once() {
    let members = vec![2usize, 3, 64, 65, 190];
    let set: TBitSet<usize> = TBitSet::from_iter(members.clone());
    for pattern in 0u32..64 {
        let mut iter = set.iter();
        let mut seen = Vec::new();
        for step in 0..6 {
            let pulled = if pattern & (1 << step) != 0 {
                iter.next()
            } else {
                iter.next_back()
            };
            if let Some(i) = pulled {
                seen.push(i);
            }
        }
        assert_eq!(iter.next(), None);
        assert_eq!(iter.next_back(), None);
        seen.sort();
        assert_eq!(seen, members);
    }
}

#[test]
fn cursors_meet_on_a_member() {
    let set: TBitSet<usize> = TBitSet::from_iter(vec![5]);
    let mut iter = set.iter();
    assert_eq!(iter.next_back(), Some(5));
    assert_eq!(iter.next(), None);
    assert_eq!(iter.next_back(), None);
    let mut iter = set.iter();
    assert_eq!(iter.next(), Some(5));
    assert_eq!(iter.next_back(), None);
    assert_eq!(iter.next(), None);
}

#[test]
fn enumerating_an_empty_set() {
    let set: TBitSet<usize> = TBitSet::new();
    let mut iter = set.iter();
    assert_eq!(iter.next(), None);
    assert_eq!(iter.next_back(), None);
    let mut with_frames: TBitSet<usize> = TBitSet::new();
    with_frames.add(100);
    with_frames.remove(100);
    let mut iter = with_frames.into_iter();
    assert_eq!(iter.next_back(), None);
    assert_eq!(iter.next(), None);
}

#[test]
fn superset_laws() {
    let a: TBitSet<usize> = TBitSet::from_iter(vec![1, 64, 300]);
    let none: TBitSet<usize> = TBitSet::new();
    assert!(a.contains(&a));
    assert!(a.contains(&none));
    assert!(none.contains(&none));
    assert!(!none.contains(&a));
    let part: TBitSet<usize> = TBitSet::from_iter(vec![64]);
    assert!(a.contains(&part));
    assert!(!part.contains(&a));
    let mut longer: TBitSet<usize> = TBitSet::from_iter(vec![64, 1000]);
    assert!(!a.contains(&longer));
    longer.remove(1000);
    assert!(a.contains(&longer));
}

#[test]
fn union_keeps_common_members_only() {
    let a: TBitSet<usize> = TBitSet::from_iter(vec![1, 2, 70, 500]);
    let b: TBitSet<usize> = TBitSet::from_iter(vec![2, 70, 71]);
    let both = a.union(&b);
    assert_eq!(forward(&both), vec![2, 70]);
    assert_eq!(both.frame_count(), 2);
    assert_eq!(b.union(&a).frame_count(), 2);
    assert_eq!(both, b.union(&a));
    let none: TBitSet<usize> = TBitSet::new();
    assert_eq!(a.union(&none).frame_count(), 0);
    assert!(a.union(&none).is_empty());
}

#[test]
fn extend_adds_every_index() {
    let mut set: TBitSet<u32> = TBitSet::new();
    set.add(7);
    set.extend(vec![130, 7, 2]);
    assert_eq!(set.frame_count(), 3);
    assert!(set.get(2) && set.get(7) && set.get(130));
    assert_eq!(set.element_count(), 3);
    set.extend(Vec::new());
    assert_eq!(set.element_count(), 3);
}

#[test]
fn clone_and_default() {
    let a: TBitSet<usize> = TBitSet::from_iter(vec![4, 99]);
    let b = a.clone();
    assert_eq!(a, b);
    assert_eq!(a.frame_count(), b.frame_count());
    let d: TBitSet<usize> = TBitSet::default();
    assert_eq!(d.frame_count(), 0);
    assert!(d.is_empty());
}

#[test]
fn clear_drops_frames() {
    let mut set: TBitSet<usize> = TBitSet::from_iter(vec![4, 99]);
    set.clear();
    assert_eq!(set.frame_count(), 0);
    assert_eq!(set.element_count(), 0);
    assert!(!set.get(4));
}
