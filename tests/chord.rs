use rings_core::chord::{ChordState, Lookup, Served};
use rings_core::did::Did;
use rings_core::error::Error;
use rings_core::vnode::VirtualNode;

fn d(lo: u128) -> Did {
    Did::new(0, lo)
}

#[test]
fn successor_list_is_sorted_and_bounded() {
    let mut c = ChordState::new(d(100), 3);
    for x in [d(500), d(150), d(100), d(90), d(300), d(150)] {
        c.add_successor(x);
    }
    assert_eq!(c.successors(), vec![d(150), d(300), d(500)]);
    c.remove_successor(d(300));
    assert_eq!(c.successors(), vec![d(150), d(500)]);
    c.add_successor(d(90));
    assert_eq!(c.successors(), vec![d(150), d(500), d(90)]);
}

#[test]
fn join_resets_routing() {
    let mut c = ChordState::new(d(1), 3);
    c.add_successor(d(5));
    c.notify(d(0));
    c.set_finger(3, Some(d(9)));
    assert!(c.join(d(42)));
    assert_eq!(c.successors(), vec![d(42)]);
    assert_eq!(c.predecessor(), None);
    assert_eq!(c.finger(3), None);
    assert!(!c.join(d(1)));
}

#[test]
fn notify_takes_closer_predecessors() {
    let mut c = ChordState::new(d(100), 3);
    c.notify(d(10));
    assert_eq!(c.predecessor(), Some(d(10)));
    c.notify(d(50));
    assert_eq!(c.predecessor(), Some(d(50)));
    c.notify(d(20));
    assert_eq!(c.predecessor(), Some(d(50)));
    c.notify(d(50));
    assert_eq!(c.predecessor(), Some(d(50)));
    c.notify(d(100));
    assert_eq!(c.predecessor(), Some(d(50)));
}

#[test]
fn lookup_found_or_forwarded() {
    let mut c = ChordState::new(d(100), 3);
    assert_eq!(c.find_successor(d(5)), Err(Error::SuccessorListEmpty));
    c.add_successor(d(200));
    c.set_finger(7, Some(d(228)));
    c.set_finger(8, Some(d(356)));
    assert_eq!(c.find_successor(d(150)), Ok(Lookup::Found(d(200))));
    assert_eq!(c.find_successor(d(200)), Ok(Lookup::Found(d(200))));
    assert_eq!(c.find_successor(d(300)), Ok(Lookup::Forward { next: d(228), target: d(300) }));
    assert_eq!(c.closest_preceding_node(d(1000)), d(356));
    assert_eq!(c.closest_preceding_node(d(101)), d(100));
}

#[test]
fn two_node_stabilization() {
    // key2 < key1, as after ordering two random keys
    let k1 = d(900);
    let k2 = d(400);
    let mut n1 = ChordState::new(k1, 3);
    let mut n2 = ChordState::new(k2, 3);
    n1.join(k2);
    n2.join(k1);
    for _ in 0..3 {
        let to1 = n1.stabilize(n2.predecessor());
        if let Some(t) = to1 {
            assert_eq!(t, k2);
            n2.notify(k1);
        }
        let to2 = n2.stabilize(n1.predecessor());
        if let Some(t) = to2 {
            assert_eq!(t, k1);
            n1.notify(k2);
        }
    }
    assert!(n1.successors().contains(&k2));
    assert!(n2.successors().contains(&k1));
    assert_eq!(n1.predecessor(), Some(k2));
    assert_eq!(n2.predecessor(), Some(k1));
}

#[test]
fn three_node_routing_reaches_the_far_node() {
    let (a, b, c) = (d(100), d(200), d(300));
    let mut first = ChordState::new(a, 3);
    let mut second = ChordState::new(b, 3);
    let mut third = ChordState::new(c, 3);
    first.join(b);
    second.join(c);
    third.join(a);
    second.notify(a);
    third.notify(b);
    first.notify(c);
    // first asks for third: forwarded to second, whose successor third is the answer
    let mut hops = vec![a];
    let mut at = &first;
    let found = loop {
        match at.find_successor(Did::new(0, 299)).unwrap() {
            Lookup::Found(x) => break x,
            Lookup::Forward { next, .. } => {
                hops.push(next);
                at = if next == b { &second } else { &third };
            }
        }
    };
    assert_eq!(found, c);
    assert_eq!(hops, vec![a, b]);
    assert_eq!(hops.len(), 2);
}

#[test]
fn vnode_append_then_fetch() {
    let vid = VirtualNode::gen_did("room-1");
    assert_eq!(vid, VirtualNode::gen_did("room-1"));
    assert_ne!(vid, VirtualNode::gen_did("room-2"));
    let mut c = ChordState::new(d(7), 3);
    assert!(c.is_responsible(vid));
    assert_eq!(c.fetch(vid), Ok(Served::Local(vec![])));
    assert_eq!(c.store_append(vid, "msg-A".to_string()), Ok(Served::Local(vec![])));
    assert_eq!(c.store_append(vid, "msg-B".to_string()), Ok(Served::Local(vec![])));
    assert_eq!(
        c.fetch(vid),
        Ok(Served::Local(vec!["msg-A".to_string(), "msg-B".to_string()]))
    );
    let other = VirtualNode::gen_did("room-2");
    assert_eq!(c.fetch(other), Ok(Served::Local(vec![])));
}

#[test]
fn vnode_not_held_is_forwarded() {
    let mut c = ChordState::new(d(100), 3);
    c.notify(d(50));
    assert!(!c.is_responsible(d(10)));
    assert_eq!(c.fetch(d(10)), Err(Error::SuccessorListEmpty));
    c.add_successor(d(300));
    assert_eq!(
        c.store_append(d(200), "x".to_string()),
        Ok(Served::Remote(Lookup::Found(d(300))))
    );
    assert!(c.is_responsible(d(60)));
    assert!(c.is_responsible(d(100)));
}

#[test]
fn vnode_merge_concatenates() {
    let mut a = VirtualNode::new(d(1), "a".to_string());
    let b = VirtualNode::new(d(1), "a".to_string());
    a.merge(b);
    assert_eq!(a.data, vec!["a".to_string(), "a".to_string()]);
    assert_eq!(a.messages_from(1), vec!["a".to_string()]);
    assert_eq!(a.messages_from(5), Vec::<String>::new());
}

#[test]
fn finger_targets_follow_powers_of_two() {
    let c = ChordState::new(Did::new(u32::MAX, u128::MAX), 3);
    assert_eq!(c.finger_target(0), Did::new(0, 0));
    assert_eq!(c.finger_target(1), Did::new(0, 1));
    assert_eq!(c.finger_target(159), Did::new(0x7fff_ffff, u128::MAX));
}

#[test]
fn merge_keeps_the_nearest() {
    let mut c = ChordState::new(d(100), 3);
    c.add_successor(d(400));
    c.merge_successors(&[d(100), d(300), d(150), d(900), d(200)]);
    assert_eq!(c.successors(), vec![d(150), d(200), d(300)]);
    c.merge_successors(&[]);
    assert_eq!(c.successors(), vec![d(150), d(200), d(300)]);
}
