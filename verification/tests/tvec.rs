use tindex::{TIndex, TSliceRef, TVec};

fn numbers() -> TVec<u32, i32> {
    TVec::from_vec(vec![10, 20, 30, 40, 50])
}

#[test]
fn split_off_at_two() {
    let mut v = numbers();
    let tail = v.split_off(2);
    assert_eq!(v.into_vec(), vec![10, 20]);
    assert_eq!(tail.into_vec(), vec![30, 40, 50]);
}

#[test]
fn split_off_then_append_restores() {
    for at in 0u32..=5 {
        let mut v = numbers();
        let mut tail = v.split_off(at);
        assert_eq!(v.len(), at as usize);
        v.append(&mut tail);
        assert!(tail.is_empty());
        assert_eq!(v.into_vec(), vec![10, 20, 30, 40, 50]);
    }
}

#[test]
fn push_returns_the_old_length() {
    let mut v: TVec<u32, char> = TVec::new();
    assert!(v.is_empty());
    assert_eq!(v.push('a'), 0);
    assert_eq!(v.push('b'), 1);
    assert_eq!(v.push('c'), 2);
    assert_eq!(v.len(), 3);
    assert_eq!(v.get(1), Some(&'b'));
    assert_eq!(v.get(3), None);
}

#[test]
fn push_then_remove_restores() {
    let mut v = numbers();
    let id = v.push(60);
    assert_eq!(id, 5);
    assert_eq!(v.len(), 6);
    assert_eq!(v.remove(id), 60);
    assert_eq!(v.into_vec(), vec![10, 20, 30, 40, 50]);
}

#[test]
fn pushed_index_round_trips() {
    let mut v: TVec<u32, u8> = TVec::with_capacity(4);
    for k in 0..10u8 {
        let id = v.push(k);
        assert_eq!(<u32 as TIndex>::from_index(id.as_index()), id);
        assert_eq!(id.as_index(), k as usize);
    }
}

#[test]
fn insert_and_remove_shift() {
    let mut v = numbers();
    v.insert(1, 15);
    assert_eq!(v.as_slice().to_slice(), &[10, 15, 20, 30, 40, 50]);
    v.insert(6, 60);
    assert_eq!(v.as_slice().to_slice(), &[10, 15, 20, 30, 40, 50, 60]);
    assert_eq!(v.remove(0), 10);
    assert_eq!(v.remove(2), 30);
    assert_eq!(v.into_vec(), vec![15, 20, 40, 50, 60]);
}

#[test]
fn pop_takes_the_last() {
    let mut v: TVec<usize, i32> = TVec::from_vec(vec![1, 2]);
    assert_eq!(v.pop(), Some(2));
    assert_eq!(v.pop(), Some(1));
    assert_eq!(v.pop(), None);
    assert!(v.is_empty());
}

#[test]
fn retain_keeps_order() {
    let mut v: TVec<usize, i32> = TVec::from_vec(vec![1, 2, 3, 4, 5, 6, 7]);
    v.retain(|x: &i32| *x % 2 == 1);
    assert_eq!(v.as_slice().to_slice(), &[1, 3, 5, 7]);
    v.retain(|x: &i32| *x > 4);
    assert_eq!(v.as_slice().to_slice(), &[5, 7]);
    v.retain(|_x: &i32| true);
    assert_eq!(v.as_slice().to_slice(), &[5, 7]);
    v.retain(|_x: &i32| false);
    assert!(v.is_empty());
}

#[test]
fn resize_cuts_and_fills() {
    let mut v = numbers();
    v.resize(2, 0);
    assert_eq!(v.as_slice().to_slice(), &[10, 20]);
    v.resize(4, 7);
    assert_eq!(v.as_slice().to_slice(), &[10, 20, 7, 7]);
}

#[test]
fn extend_from_slice_clones() {
    let mut v: TVec<u32, String> = TVec::new();
    let source = vec!["a".to_string(), "b".to_string()];
    v.push("z".to_string());
    v.extend_from_slice(TSliceRef::from_slice(&source));
    assert_eq!(v.into_vec(), vec!["z".to_string(), "a".to_string(), "b".to_string()]);
    assert_eq!(source.len(), 2);
}

#[test]
fn swap_exchanges_two_values() {
    let mut v = numbers();
    v.swap(0, 4);
    assert_eq!(v.as_slice().to_slice(), &[50, 20, 30, 40, 10]);
    v.swap(2, 2);
    assert_eq!(v.as_slice().to_slice(), &[50, 20, 30, 40, 10]);
}

#[test]
fn writing_through_mutable_access() {
    let mut v = numbers();
    *v.get_mut(1).unwrap() = 21;
    *v.index_mut(2) += 1;
    *v.first_mut().unwrap() = 11;
    *v.last_mut().unwrap() = 51;
    assert!(v.get_mut(5).is_none());
    assert_eq!(v.as_slice().to_slice(), &[11, 21, 31, 40, 51]);
    v.as_mut_slice().inner[3] = 41;
    assert_eq!(v.into_vec(), vec![11, 21, 31, 41, 51]);
    let mut none: TVec<u32, i32> = TVec::new();
    assert!(none.first_mut().is_none());
    assert!(none.last_mut().is_none());
}

#[test]
fn splice_over_each_shape() {
    let mut v = numbers();
    assert_eq!(v.splice(1..3, vec![1, 2, 3]), vec![20, 30]);
    assert_eq!(v.as_slice().to_slice(), &[10, 1, 2, 3, 40, 50]);
    assert_eq!(v.splice(4.., vec![]), vec![40, 50]);
    assert_eq!(v.as_slice().to_slice(), &[10, 1, 2, 3]);
    assert_eq!(v.splice(..1, vec![8, 9]), vec![10]);
    assert_eq!(v.as_slice().to_slice(), &[8, 9, 1, 2, 3]);
    assert_eq!(v.splice(1..=2, vec![0]), vec![9, 1]);
    assert_eq!(v.as_slice().to_slice(), &[8, 0, 2, 3]);
    assert_eq!(v.splice(..=0, vec![]), vec![8]);
    assert_eq!(v.splice(2..2, vec![5]), vec![]);
    assert_eq!(v.as_slice().to_slice(), &[0, 2, 5, 3]);
    assert_eq!(v.splice(3u32, vec![4, 4]), vec![3]);
    assert_eq!(v.splice(.., vec![7]), vec![0, 2, 5, 4, 4]);
    assert_eq!(v.into_vec(), vec![7]);
}
