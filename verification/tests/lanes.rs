use mixnet_core::lanes::{LaneQueueLengths, LaneQueues};

#[test]
fn lengths_start_at_zero_and_follow_the_queue() {
    let mut lengths = LaneQueueLengths::new();
    assert_eq!(lengths.get(3), 0);
    lengths.increment(3);
    lengths.increment(3);
    lengths.increment(4);
    assert_eq!(lengths.get(3), 2);
    assert_eq!(lengths.get(4), 1);
    lengths.decrement(3);
    assert_eq!(lengths.get(3), 1);
    lengths.decrement(5);
    assert_eq!(lengths.get(5), 0);
    lengths.set(9, u64::MAX);
    lengths.increment(9);
    assert_eq!(lengths.get(9), u64::MAX);
}

#[test]
fn a_lane_is_first_in_first_out() {
    let mut lanes: LaneQueues<u32> = LaneQueues::new();
    assert_eq!(lanes.pop(0), None);
    assert_eq!(lanes.peek(0), None);
    lanes.enqueue(0, vec![1, 2, 3]);
    lanes.enqueue(1, vec![10]);
    lanes.enqueue(0, vec![4]);
    assert_eq!(lanes.lane_length(0), 4);
    assert_eq!(lanes.lane_length(1), 1);
    assert_eq!(lanes.lengths().get(0), 4);
    assert_eq!(lanes.peek(0), Some(&1));
    assert_eq!(lanes.pop(0), Some(1));
    assert_eq!(lanes.pop(1), Some(10));
    assert_eq!(lanes.pop(1), None);
    assert_eq!(lanes.pop(0), Some(2));
    assert_eq!(lanes.pop(0), Some(3));
    assert_eq!(lanes.pop(0), Some(4));
    assert_eq!(lanes.pop(0), None);
    assert_eq!(lanes.lane_length(0), 0);
    assert_eq!(lanes.lengths().get(0), 0);
}

#[test]
fn a_random_lane_keeps_the_order_of_each_lane() {
    let mut lanes: LaneQueues<(u64, u32)> = LaneQueues::new();
    assert_eq!(lanes.pick_lane(), None);
    assert_eq!(lanes.pop_any(), None);
    for lane in 0..4u64 {
        lanes.enqueue(lane, (0..25u32).map(|n| (lane, n)).collect());
    }
    assert_eq!(lanes.waiting_lanes(), vec![0, 1, 2, 3]);
    let mut next = [0u32; 4];
    let mut first_lanes = Vec::new();
    for _ in 0..100 {
        let picked = lanes.pick_lane().unwrap();
        assert!(lanes.lane_length(picked) > 0);
        let (lane, item) = lanes.pop_any().unwrap();
        assert_eq!(item, (lane, next[lane as usize]));
        next[lane as usize] += 1;
        first_lanes.push(lane);
    }
    assert_eq!(next, [25, 25, 25, 25]);
    assert_eq!(lanes.pop_any(), None);
    assert!(lanes.waiting_lanes().is_empty());
    // the lanes were not simply emptied one after the other
    let mut sorted = first_lanes.clone();
    sorted.sort();
    assert_ne!(first_lanes, sorted);
}
