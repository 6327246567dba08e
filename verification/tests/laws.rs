use tasty_ntree::Ntree;
use tasty_ntree::NtreeNode;
use tasty_ntree::NtreeNodeInterface;

#[test]
fn push_then_peek_finds_the_payload() {
    let mut tree = Ntree::<5, &str>::new("root");
    for i in 0..5 {
        let root = tree.interface_mut();
        let made = root.push(i, "pushed");
        assert_eq!(*made.get_data(), "pushed");
        let found = root.peek(i).expect("the slot was just filled");
        assert_eq!(*found.get_data(), "pushed");
        for j in 0..5 {
            assert!(found.peek(j).is_none());
        }
    }
    assert_eq!(*tree.interface().get_data(), "root");
}

#[test]
fn push_leaves_the_other_slots_alone() {
    let mut tree = Ntree::<3, u8>::new(0);
    let root = tree.interface_mut();
    root.push(0, 10);
    root.push(2, 30);
    root.push(1, 20);
    assert_eq!(*root.peek(0).unwrap().get_data(), 10);
    assert_eq!(*root.peek(1).unwrap().get_data(), 20);
    assert_eq!(*root.peek(2).unwrap().get_data(), 30);
}

#[test]
fn second_push_overwrites_the_first() {
    let mut tree = Ntree::<4, String>::new("root".to_string());
    let root = tree.interface_mut();
    let first = root.push_mut(2, "first".to_string());
    first.push(0, "below the first".to_string());
    first.push(3, "also below the first".to_string());
    root.push(2, "second".to_string());
    let child = root.peek(2).expect("the slot is occupied");
    assert_eq!(child.get_data(), "second");
    for j in 0..4 {
        assert!(child.peek(j).is_none());
    }

    let mut plain = Ntree::<4, String>::new("root".to_string());
    plain.interface_mut().push(2, "second".to_string());
    assert!(tree == plain);
}

#[test]
fn pop_after_push_returns_the_payload() {
    let mut tree = Ntree::<4, i64>::new(-1);
    let root = tree.interface_mut();
    root.push(3, 99);
    assert_eq!(root.pop(3), Some(99));
    assert!(root.peek(3).is_none());
    assert_eq!(root.pop(3), None);
    assert!(tree == Ntree::<4, i64>::new(-1));
}

#[test]
fn pop_peels_one_layer() {
    let mut tree = Ntree::<2, char>::new('r');
    let root = tree.interface_mut();
    let child = root.push_mut(1, 'c');
    child.push_mut(0, 'g').push(1, 'h');
    assert_eq!(root.pop(1), Some('c'));
    assert!(root.peek(0).is_none());
    assert!(root.peek(1).is_none());
    assert_eq!(*root.get_data(), 'r');
    let refilled = root.peek_or_push(1, 'n');
    assert_eq!(*refilled.get_data(), 'n');
    assert!(refilled.peek(0).is_none());
}

#[test]
fn peek_or_push_keeps_the_first_payload() {
    let mut tree = Ntree::<3, i32>::new(0);
    let root = tree.interface_mut();
    assert_eq!(*root.peek_or_push(1, 11).get_data(), 11);
    assert_eq!(*root.peek_or_push(1, 22).get_data(), 11);
    assert_eq!(*root.peek(1).unwrap().get_data(), 11);
    assert_eq!(*root.peek_or_push_mut(1, 33).get_data(), 11);
    assert_eq!(*root.bounded_peek_or_push(1, 44).unwrap().get_data(), 11);
    assert_eq!(*root.bounded_peek_or_push_mut(1, 55).unwrap().get_data(), 11);
}

#[test]
fn peek_or_push_never_discards_a_subtree() {
    let mut tree = Ntree::<3, i32>::new(0);
    let root = tree.interface_mut();
    root.push_mut(2, 1).push(0, 2);
    let kept = root.peek_or_push_mut(2, 9);
    assert_eq!(*kept.get_data(), 1);
    assert_eq!(*kept.peek(0).unwrap().get_data(), 2);
    kept.set_data(5);
    assert_eq!(*root.peek(2).unwrap().get_data(), 5);
}

#[test]
fn checked_family_rejects_an_index_out_of_range() {
    let mut tree = Ntree::<4, u16>::new(7);
    tree.interface_mut().push(1, 8);
    let before = {
        let mut same = Ntree::<4, u16>::new(7);
        same.interface_mut().push(1, 8);
        same
    };
    for i in [4usize, 5, 100, usize::MAX] {
        let root = tree.interface_mut();
        assert!(root.bounded_peek(i).is_none());
        assert!(root.bounded_peek_mut(i).is_none());
        assert!(root.bounded_push(i, 1).is_none());
        assert!(root.bounded_push_mut(i, 2).is_none());
        assert!(root.bounded_peek_or_push(i, 3).is_none());
        assert!(root.bounded_peek_or_push_mut(i, 4).is_none());
        assert_eq!(root.bounded_pop(i), None);
        assert!(tree == before);
    }
}

#[test]
fn checked_family_accepts_every_index_in_range() {
    let mut tree = Ntree::<4, usize>::new(0);
    let root = tree.interface_mut();
    for i in 0..4 {
        assert!(root.bounded_peek(i).is_none());
        assert!(root.bounded_peek_mut(i).is_none());
        assert_eq!(*root.bounded_push(i, i).unwrap().get_data(), i);
        assert_eq!(*root.bounded_peek(i).unwrap().get_data(), i);
        assert_eq!(*root.bounded_push_mut(i, i + 10).unwrap().get_data(), i + 10);
        assert_eq!(*root.bounded_peek_mut(i).unwrap().get_data(), i + 10);
        assert_eq!(root.bounded_pop(i), Some(i + 10));
        assert_eq!(root.bounded_pop(i), None);
        assert_eq!(*root.bounded_peek_or_push(i, i + 20).unwrap().get_data(), i + 20);
        assert_eq!(*root.bounded_peek_or_push_mut(i, i + 30).unwrap().get_data(), i + 20);
    }
}

#[test]
fn last_slot_is_in_range_and_the_next_index_is_not() {
    let mut tree = Ntree::<8, i32>::new(0);
    let root = tree.interface_mut();
    assert!(root.bounded_push(7, 1).is_some());
    assert!(root.bounded_push(8, 1).is_none());
    assert!(root.bounded_peek(7).is_some());
    assert!(root.bounded_peek(8).is_none());
    assert_eq!(root.bounded_pop(8), None);
    assert_eq!(root.bounded_pop(7), Some(1));
}

#[test]
fn arity_zero_has_no_slot_at_all() {
    let mut tree = Ntree::<0, &str>::new("alone");
    for i in [0usize, 1, 2, usize::MAX] {
        let root = tree.interface_mut();
        assert!(root.bounded_peek(i).is_none());
        assert!(root.bounded_peek_mut(i).is_none());
        assert!(root.bounded_push(i, "a").is_none());
        assert!(root.bounded_push_mut(i, "b").is_none());
        assert!(root.bounded_peek_or_push(i, "c").is_none());
        assert!(root.bounded_peek_or_push_mut(i, "d").is_none());
        assert_eq!(root.bounded_pop(i), None);
    }
    assert_eq!(*tree.interface().get_data(), "alone");
    assert!(tree == Ntree::<0, &str>::new("alone"));
    assert_eq!(tree.to_string(), "[Ntree]\n 0 NtreeNode");
}

#[test]
fn equal_construction_gives_equal_trees() {
    let mut a = Ntree::<3, i32>::new(1);
    a.interface_mut().push_mut(0, 2).push(2, 3);
    a.interface_mut().peek_or_push(1, 4);

    let mut b = Ntree::<3, i32>::new(1);
    b.interface_mut().peek_or_push(1, 4);
    b.interface_mut().peek_or_push_mut(0, 2).peek_or_push(2, 3);
    b.interface_mut().peek_or_push(1, 5);

    assert!(a == b);
    assert!(b == a);
    assert!(a == a);
}

#[test]
fn an_extra_slot_or_another_payload_makes_trees_differ() {
    let mut a = Ntree::<3, i32>::new(1);
    a.interface_mut().push(0, 2);
    let mut b = Ntree::<3, i32>::new(1);
    b.interface_mut().push(0, 2);
    assert!(a == b);

    b.interface_mut().push(2, 2);
    assert!(a != b);
    assert!(b != a);

    b.interface_mut().pop(2);
    assert!(a == b);

    b.interface_mut().peek_mut(0).unwrap().push(1, 9);
    assert!(a != b);

    b.interface_mut().peek_mut(0).unwrap().pop(1);
    assert!(a == b);

    b.interface_mut().peek_mut(0).unwrap().set_data(3);
    assert!(a != b);

    let mut c = Ntree::<3, i32>::new(1);
    c.interface_mut().push(1, 2);
    assert!(a != c);

    assert!(Ntree::<3, i32>::new(1) != Ntree::<3, i32>::new(2));
}

#[test]
fn depth_chain_reaches_the_deepest_payload() {
    let mut tree = Ntree::<8, char>::new('R');
    let root = tree.interface_mut();
    let a = root.push_mut(4, 'A');
    let b = a.push_mut(6, 'B');
    b.push(3, 'C');

    let root = tree.interface();
    let a = root.peek(4).expect("slot 4 of the root is occupied");
    let b = a.peek(6).expect("slot 6 below it is occupied");
    let c = b.peek(3).expect("slot 3 below that is occupied");
    assert_eq!(*a.get_data(), 'A');
    assert_eq!(*b.get_data(), 'B');
    assert_eq!(*c.get_data(), 'C');
    assert!(root.peek(0).is_none());
    assert!(a.peek(0).is_none());
    assert!(b.peek(0).is_none());
    assert!(c.peek(0).is_none());
}

#[test]
fn set_data_returns_the_previous_payload_and_keeps_the_children() {
    let mut tree = Ntree::<2, String>::new("one".to_string());
    let root = tree.interface_mut();
    root.push(1, "child".to_string());
    assert_eq!(root.set_data("two".to_string()), "one");
    assert_eq!(root.set_data("three".to_string()), "two");
    assert_eq!(root.get_data(), "three");
    assert_eq!(root.peek(1).unwrap().get_data(), "child");
    assert!(root.peek(0).is_none());
}

#[test]
fn get_data_mut_writes_through() {
    let mut tree = Ntree::<2, Vec<i32>>::new(vec![1]);
    let root = tree.interface_mut();
    root.push(0, vec![]);
    root.get_data_mut().push(2);
    root.peek_mut(0).unwrap().get_data_mut().push(7);
    assert_eq!(*root.get_data(), vec![1, 2]);
    assert_eq!(*root.peek(0).unwrap().get_data(), vec![7]);
}

#[test]
fn changes_through_a_child_handle_show_in_the_tree() {
    let mut tree = Ntree::<3, i32>::new(0);
    {
        let child = tree.interface_mut().bounded_push_mut(1, 1).unwrap();
        child.set_data(10);
        child.push(2, 12);
    }
    let child = tree.interface().peek(1).unwrap();
    assert_eq!(*child.get_data(), 10);
    assert_eq!(*child.peek(2).unwrap().get_data(), 12);
}

#[test]
fn node_from_parts_holds_what_it_was_given() {
    let leaf = NtreeNode::<3, i32>::from_parts(5, [None, None, None]);
    assert!(leaf == NtreeNode::<3, i32>::new(5));
    let node = NtreeNode::<3, i32>::from_parts(
        1,
        [Some(Box::new(NtreeNode::new(2))), None, Some(Box::new(leaf))],
    );
    assert_eq!(*node.get_data(), 1);
    assert_eq!(*node.peek(0).unwrap().get_data(), 2);
    assert!(node.peek(1).is_none());
    assert_eq!(*node.peek(2).unwrap().get_data(), 5);

    let tree = Ntree::from(node);
    let mut built = Ntree::<3, i32>::new(1);
    built.interface_mut().push(0, 2);
    built.interface_mut().push(2, 5);
    assert!(tree == built);
}

#[test]
fn payload_needs_neither_default_nor_clone() {
    struct Opaque(#[allow(dead_code)] Box<u8>);
    let mut tree = Ntree::<16, Opaque>::new(Opaque(Box::new(0)));
    let root = tree.interface_mut();
    for i in 0..16 {
        assert!(root.peek(i).is_none());
    }
    assert!(root.bounded_push(15, Opaque(Box::new(1))).is_some());
    assert!(root.bounded_pop(15).is_some());
}

fn is_send<X: Send>() {}

fn is_sync<X: Sync>() {}

#[test]
fn tree_can_be_sent_and_shared() {
    is_send::<Ntree<4, i32>>();
    is_sync::<Ntree<3, i32>>();
    is_send::<NtreeNode<4, String>>();
    is_sync::<NtreeNode<3, String>>();

    let tree = std::sync::Arc::new(Ntree::<3, i32>::new(5));
    let first = tree.clone();
    let second = tree.clone();
    assert_eq!(*first.interface().get_data(), 5);
    assert_eq!(*second.interface().get_data(), 5);
}
