use tindex::{TBitSet, TIndex, TaggedIndex, TVec};

#[derive(Debug)]
struct Node;

#[derive(Debug)]
struct Edge;

type NodeId = TaggedIndex<Node>;
type EdgeId = TaggedIndex<Edge>;

#[test]
fn tagged_index_round_trips() {
    let id = NodeId::new(7);
    assert_eq!(id.raw(), 7);
    assert_eq!(id.as_index(), 7);
    assert_eq!(NodeId::from_index(id.as_index()), id);
    assert_eq!(NodeId::from_index(usize::MAX).as_index(), usize::MAX);
    assert!(NodeId::new(1) != NodeId::new(2));
    let copy = id;
    assert_eq!(copy, id.clone());
}

#[test]
fn tagged_index_keys_a_collection() {
    let mut names: TVec<NodeId, &str> = TVec::new();
    let mut weights: TVec<EdgeId, u32> = TVec::new();
    let a = names.push("a");
    let b = names.push("b");
    let e = weights.push(5);
    assert_eq!(a, NodeId::new(0));
    assert_eq!(b, NodeId::new(1));
    assert_eq!(e, EdgeId::new(0));
    assert_eq!(names.get(b), Some(&"b"));
    assert_eq!(weights.get(e), Some(&5));
    assert_eq!(names.as_slice().last_id(), Some(NodeId::new(1)));
    assert_eq!(names.remove(a), "a");
    assert_eq!(names.get(a), Some(&"b"));
}

#[test]
fn tagged_index_keys_a_set() {
    let mut live: TBitSet<NodeId> = TBitSet::new();
    live.add(NodeId::new(65));
    live.add(NodeId::new(2));
    assert!(live.get(NodeId::new(65)));
    assert!(!live.get(NodeId::new(64)));
    let mut iter = live.iter();
    assert_eq!(iter.next(), Some(NodeId::new(2)));
    assert_eq!(iter.next(), Some(NodeId::new(65)));
    assert_eq!(iter.next(), None);
}
