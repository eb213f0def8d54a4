use boomnet::service::node::{IONode, IONodes};
use boomnet::service::slots::MIN_IO_NODE_SLOTS;
use boomnet::service::time::{Duration, TimeSource};
use boomnet::service::Handle;

struct FixedTime(u64);

impl TimeSource for FixedTime {
    fn current_time_nanos(&self) -> u64 {
        self.0
    }
}

fn node(token: u32) -> IONode<u8, u32> {
    IONode::new(token as u8, Handle(token), token * 10, None, &FixedTime(0))
}

fn storage(tokens: &[u32]) -> IONodes<u8, u32> {
    let mut nodes = IONodes::default();
    for token in tokens {
        assert!(nodes.insert(*token, node(*token)).is_ok());
    }
    nodes
}

fn turns(nodes: &mut IONodes<u8, u32>, count: usize) -> Vec<u32> {
    (0..count).filter_map(|_| nodes.next_active_token()).collect()
}

fn tokens(nodes: &IONodes<u8, u32>) -> Vec<u32> {
    nodes.values().iter().map(|node| node.as_endpoint().0 .0).collect()
}

#[test]
fn storage_size_remains_a_power_of_two() {
    let mut nodes = IONodes::<(), ()>::default();
    assert_eq!(nodes.slot_count(), MIN_IO_NODE_SLOTS);

    let node = IONode::new((), Handle(4), (), None, &FixedTime(0));
    assert!(nodes.insert(4, node).is_ok());
    assert_eq!(nodes.slot_count(), 8);
    assert_eq!(nodes.next_active_token(), Some(4));
    assert_eq!(nodes.next_active_token(), Some(4));

    assert!(nodes.remove(4).is_some());
    assert_eq!(nodes.slot_count(), MIN_IO_NODE_SLOTS);
    assert!(nodes.slot_count().is_power_of_two());
    assert_eq!(nodes.next_active_token(), None);
}

#[test]
fn storage_grows_and_shrinks_with_the_highest_token() {
    let mut nodes = storage(&[0, 3]);
    assert_eq!(nodes.slot_count(), 4);
    assert!(nodes.insert(7, node(7)).is_ok());
    assert_eq!(nodes.slot_count(), 8);
    assert!(nodes.insert(8, node(8)).is_ok());
    assert_eq!(nodes.slot_count(), 16);
    assert!(nodes.insert(100, node(100)).is_ok());
    assert_eq!(nodes.slot_count(), 128);
    assert!(nodes.remove(8).is_some());
    assert_eq!(nodes.slot_count(), 128);
    assert!(nodes.remove(100).is_some());
    assert_eq!(nodes.slot_count(), 8);
    assert!(nodes.remove(7).is_some());
    assert_eq!(nodes.slot_count(), 4);
    assert_eq!(tokens(&nodes), [0, 3]);
}

#[test]
fn inserted_node_is_found_and_others_stay() {
    let mut nodes = storage(&[1, 6]);
    assert!(nodes.insert(9, node(9)).is_ok());
    assert_eq!(nodes.get(9).unwrap().as_endpoint(), &(Handle(9), 90));
    assert_eq!(nodes.get(1).unwrap().as_endpoint(), &(Handle(1), 10));
    assert_eq!(nodes.get(6).unwrap().as_stream(), &6);
    assert!(nodes.get(0).is_none());
    assert!(nodes.get(15).is_none());
    assert!(nodes.get(16).is_none());
    assert!(nodes.get(u32::MAX).is_none());
}

#[test]
fn taken_token_gives_the_node_back() {
    let mut nodes = storage(&[2]);
    let back = nodes.insert(2, IONode::new(77, Handle(5), 55, None, &FixedTime(0))).err().unwrap();
    assert_eq!(back.into_endpoint(), (Handle(5), 55));
    assert_eq!(nodes.get(2).unwrap().as_endpoint(), &(Handle(2), 20));
    assert_eq!(turns(&mut nodes, 2), [2, 2]);
}

#[test]
fn removed_node_is_given_out_once() {
    let mut nodes = storage(&[1, 2]);
    assert_eq!(nodes.remove(1).unwrap().into_endpoint(), (Handle(1), 10));
    assert!(nodes.remove(1).is_none());
    assert!(nodes.remove(40).is_none());
    assert_eq!(tokens(&nodes), [2]);
}

#[test]
fn removing_undoes_inserting() {
    let mut nodes = storage(&[0, 1, 3]);
    assert_eq!(turns(&mut nodes, 2), [0, 1]);
    assert!(nodes.insert(21, node(21)).is_ok());
    assert_eq!(nodes.slot_count(), 32);
    assert!(nodes.remove(21).is_some());
    assert_eq!(nodes.slot_count(), 4);
    assert_eq!(tokens(&nodes), [0, 1, 3]);
    assert_eq!(turns(&mut nodes, 3), [3, 0, 1]);
}

#[test]
fn turns_go_round() {
    let mut nodes = storage(&[5, 0, 9]);
    assert_eq!(turns(&mut nodes, 7), [0, 5, 9, 0, 5, 9, 0]);
}

#[test]
fn every_round_serves_each_once() {
    let mut nodes = storage(&[1, 2, 4, 6, 7]);
    assert_eq!(turns(&mut nodes, 3), [1, 2, 4]);
    let mut round = turns(&mut nodes, 5);
    assert_eq!(round, [6, 7, 1, 2, 4]);
    round.sort();
    assert_eq!(round, [1, 2, 4, 6, 7]);
}

#[test]
fn inserting_keeps_the_order_of_turns() {
    let mut nodes = storage(&[0, 2]);
    assert_eq!(turns(&mut nodes, 1), [0]);
    assert!(nodes.insert(1, node(1)).is_ok());
    assert_eq!(turns(&mut nodes, 3), [1, 2, 0]);
    assert!(nodes.insert(6, node(6)).is_ok());
    assert_eq!(turns(&mut nodes, 4), [1, 2, 6, 0]);
}

#[test]
fn removing_keeps_the_order_of_turns() {
    let mut nodes = storage(&[0, 1, 2, 3]);
    assert_eq!(turns(&mut nodes, 1), [0]);
    assert!(nodes.remove(2).is_some());
    assert_eq!(turns(&mut nodes, 3), [1, 3, 0]);
}

#[test]
fn shrinking_keeps_the_order_of_turns() {
    let mut nodes = storage(&[0, 2, 4, 6]);
    assert_eq!(turns(&mut nodes, 3), [0, 2, 4]);
    assert!(nodes.remove(4).is_some());
    assert!(nodes.remove(6).is_some());
    assert_eq!(nodes.slot_count(), 4);
    assert_eq!(turns(&mut nodes, 3), [0, 2, 0]);
}

#[test]
fn values_come_by_ascending_token() {
    let nodes = storage(&[6, 1, 3]);
    let streams: Vec<u8> = nodes.values().iter().map(|node| node.stream).collect();
    assert_eq!(streams, [1, 3, 6]);
    assert!(IONodes::<u8, u32>::default().values().is_empty());
}

#[test]
fn values_can_be_changed_in_place() {
    let mut nodes = storage(&[6, 1, 3]);
    for node in nodes.values_mut() {
        *node.as_stream_mut() += 100;
        node.as_endpoint_mut().1 += 1;
    }
    let seen: Vec<(u8, u32)> = nodes
        .values()
        .iter()
        .map(|node| {
            let (stream, endpoint) = node.as_parts();
            (*stream, endpoint.1)
        })
        .collect();
    assert_eq!(seen, [(101, 11), (103, 31), (106, 61)]);
    assert_eq!(turns(&mut nodes, 4), [1, 3, 6, 1]);
}

#[test]
fn one_node_can_be_changed_in_place() {
    let mut nodes = storage(&[0, 4]);
    let (stream, endpoint) = nodes.get_mut(4).unwrap().as_parts_mut();
    *stream = 9;
    endpoint.1 = 99;
    assert_eq!(nodes.get(4).unwrap().stream, 9);
    assert_eq!(nodes.get(4).unwrap().endpoint, (Handle(4), 99));
    assert_eq!(nodes.get(0).unwrap().endpoint, (Handle(0), 0));
    assert!(nodes.get_mut(5).is_none());
    assert!(nodes.get_mut(8).is_none());
}

#[test]
fn node_is_due_when_its_ttl_has_passed() {
    let ttl = Some(Duration::new(2, 5));
    let node = IONode::new((), Handle(1), (), ttl, &FixedTime(100));
    assert_eq!(node.ttl.as_nanos(), 2_000_000_005);
    assert_eq!(node.disconnect_time_ns, 2_000_000_105);
}

#[test]
fn node_without_ttl_is_never_due() {
    let node = IONode::new((), Handle(1), (), None, &FixedTime(100));
    assert_eq!(node.ttl.as_nanos(), u64::MAX as u128);
    assert_eq!(node.disconnect_time_ns, u64::MAX);
}

#[test]
fn node_is_due_at_the_latest_time_there_is() {
    let ttl = Some(Duration::from_nanos(11));
    let node = IONode::new((), Handle(1), (), ttl, &FixedTime(u64::MAX - 10));
    assert_eq!(node.disconnect_time_ns, u64::MAX);
}

#[test]
fn ttl_keeps_its_low_64_bits() {
    // 2^64 nanoseconds and 3 more
    let ttl = Some(Duration::new(18_446_744_073, 709_551_619));
    let node = IONode::new((), Handle(1), (), ttl, &FixedTime(1));
    assert_eq!(node.ttl.as_nanos(), 3);
    assert_eq!(node.disconnect_time_ns, 4);
}
