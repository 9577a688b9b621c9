use mixnet_core::error::ClientCoreError;
use mixnet_core::replies::{
    setup_persistent_reply_storage, CombinedReplyStorage, ReceivedSurbs, ReplyControlRequest,
    ReplyControlResponse, ReplyController, ReplyKey, ReplyStorageSnapshot, SentKey, SentReplyKeys, Surb,
};

fn surb(id: u128) -> Surb {
    Surb { id, first_hop: id + 1000, encryption_key: ReplyKey { bytes: [id as u8; 16] }, material: vec![id as u8; 4] }
}

fn key(byte: u8) -> ReplyKey {
    ReplyKey { bytes: [byte; 16] }
}

fn taken(response: ReplyControlResponse) -> Option<Surb> {
    match response {
        ReplyControlResponse::Surb(surb) => surb,
        _ => panic!("not an answer to a take"),
    }
}

#[test]
fn reply_keys_are_stored_and_found() {
    let mut keys = SentReplyKeys::new();
    assert_eq!(keys.len(), 0);
    keys.insert(7, key(1), 100);
    keys.insert(8, key(2), 200);
    assert!(keys.contains(7));
    assert!(!keys.contains(9));
    assert_eq!(keys.peek(8), Some(key(2)));
    assert_eq!(keys.len(), 2);
    keys.insert(7, key(3), 300);
    assert_eq!(keys.peek(7), Some(key(3)));
    assert_eq!(keys.len(), 2);
}

#[test]
fn a_reply_key_is_taken_once() {
    let mut keys = SentReplyKeys::new();
    keys.insert(7, key(1), 100);
    assert_eq!(keys.try_take(7), Some(key(1)));
    assert_eq!(keys.try_take(7), None);
    assert!(!keys.contains(7));
    keys.insert(7, key(2), 100);
    assert_eq!(keys.try_take(7), Some(key(2)));
}

#[test]
fn expired_reply_keys_are_collected() {
    let mut keys = SentReplyKeys::new();
    keys.insert(1, key(1), 100);
    keys.insert(2, key(2), 200);
    keys.insert(3, key(3), 300);
    keys.insert(4, key(4), 150);
    // age 50 at time 249: only the key of time 100 and 150 have expired
    assert_eq!(keys.remove_expired(249, 100), 1);
    assert!(!keys.contains(1));
    assert!(keys.contains(4));
    assert_eq!(keys.remove_expired(250, 100), 1);
    assert!(!keys.contains(4));
    assert_eq!(keys.remove_expired(250, 100), 0);
    assert_eq!(keys.remove_expired(10_000, 100), 2);
    assert_eq!(keys.len(), 0);
    // a time before the stamp expires nothing
    keys.insert(9, key(9), 500);
    assert_eq!(keys.remove_expired(10, 0), 0);
    assert_eq!(keys.remove_expired(500, 0), 1);
}

#[test]
fn reply_blocks_leave_in_the_order_they_came() {
    let mut surbs = ReceivedSurbs::new();
    assert_eq!(surbs.available(5), 0);
    assert_eq!(surbs.take(5), None);
    surbs.insert(5, surb(1));
    surbs.insert(6, surb(2));
    surbs.insert(5, surb(3));
    assert_eq!(surbs.available(5), 2);
    assert_eq!(surbs.take(5), Some(surb(1)));
    assert_eq!(surbs.take(6), Some(surb(2)));
    assert_eq!(surbs.take(5), Some(surb(3)));
    assert_eq!(surbs.take(5), None);
    assert_eq!(surbs.take(6), None);
}

#[test]
fn no_reply_block_is_handed_out_twice() {
    let mut controller = ReplyController::new(CombinedReplyStorage::new(), 1000);
    for id in 0..20u128 {
        controller.handle(ReplyControlRequest::InsertReceivedSurb { sender_tag: id % 3, surb: surb(id) }, 0);
    }
    let mut seen = Vec::new();
    for round in 0..30u128 {
        if let Some(surb) = taken(controller.handle(ReplyControlRequest::TakeSurbFor { sender_tag: round % 3 }, 0)) {
            assert!(!seen.contains(&surb.id));
            seen.push(surb.id);
        }
    }
    seen.sort();
    assert_eq!(seen, (0..20u128).collect::<Vec<_>>());
    for tag in 0..3u128 {
        assert_eq!(controller.surbs_available(tag), 0);
    }
}

#[test]
fn the_controller_serves_every_request() {
    let mut controller = ReplyController::new(CombinedReplyStorage::new(), 1000);
    assert!(matches!(
        controller.handle(ReplyControlRequest::StoreSentReplyKey { surb_id: 4, key: key(4) }, 10),
        ReplyControlResponse::KeyStored
    ));
    assert!(controller.holds_reply_key(4));
    assert_eq!(controller.reply_key_count(), 1);
    assert!(matches!(
        controller.handle(ReplyControlRequest::InsertReceivedSurb { sender_tag: 1, surb: surb(9) }, 10),
        ReplyControlResponse::SurbInserted
    ));
    assert_eq!(controller.surbs_available(1), 1);
    assert!(matches!(
        controller.handle(ReplyControlRequest::GarbageCollect, 1009),
        ReplyControlResponse::Collected { evicted: 0 }
    ));
    assert!(matches!(
        controller.handle(ReplyControlRequest::GarbageCollect, 1010),
        ReplyControlResponse::Collected { evicted: 1 }
    ));
    assert!(!controller.holds_reply_key(4));
    assert_eq!(taken(controller.handle(ReplyControlRequest::TakeSurbFor { sender_tag: 1 }, 10)), Some(surb(9)));
    assert_eq!(taken(controller.handle(ReplyControlRequest::TakeSurbFor { sender_tag: 1 }, 10)), None);
}

#[test]
fn used_reply_keys_are_gone() {
    let mut controller = ReplyController::new(CombinedReplyStorage::new(), 1000);
    controller.handle(ReplyControlRequest::StoreSentReplyKey { surb_id: 4, key: key(4) }, 10);
    assert_eq!(controller.use_reply_key(4), Some(key(4)));
    assert_eq!(controller.use_reply_key(4), None);
    assert_eq!(controller.reply_key_count(), 0);
}

#[test]
fn the_storage_survives_a_restart() {
    let mut controller = ReplyController::new(CombinedReplyStorage::new(), 1000);
    controller.handle(ReplyControlRequest::StoreSentReplyKey { surb_id: 4, key: key(4) }, 10);
    controller.handle(ReplyControlRequest::InsertReceivedSurb { sender_tag: 1, surb: surb(9) }, 10);
    let storage = controller.into_storage();
    let restored = setup_persistent_reply_storage(Ok(storage)).unwrap();
    let mut controller = ReplyController::new(restored, 1000);
    assert!(controller.holds_reply_key(4));
    assert_eq!(taken(controller.handle(ReplyControlRequest::TakeSurbFor { sender_tag: 1 }, 10)), Some(surb(9)));
}

#[test]
fn a_failing_backend_stops_the_startup() {
    match setup_persistent_reply_storage(Err("disk full".to_string())) {
        Err(error) => assert_eq!(error, ClientCoreError::SurbStorageError { source: "disk full".to_string() }),
        Ok(_) => panic!("the storage error was swallowed"),
    }
}

#[test]
fn a_snapshot_holds_all_that_is_stored() {
    let mut controller = ReplyController::new(CombinedReplyStorage::new(), 1000);
    controller.handle(ReplyControlRequest::StoreSentReplyKey { surb_id: 4, key: key(4) }, 10);
    controller.handle(ReplyControlRequest::StoreSentReplyKey { surb_id: 5, key: key(5) }, 20);
    controller.handle(ReplyControlRequest::InsertReceivedSurb { sender_tag: 1, surb: surb(9) }, 10);
    controller.handle(ReplyControlRequest::InsertReceivedSurb { sender_tag: 2, surb: surb(10) }, 10);
    controller.handle(ReplyControlRequest::InsertReceivedSurb { sender_tag: 1, surb: surb(11) }, 10);
    let snapshot = controller.into_storage().into_snapshot();
    assert_eq!(snapshot.key_ids, vec![4, 5]);
    assert_eq!(snapshot.keys, vec![SentKey { key: key(4), sent_at_ms: 10 }, SentKey { key: key(5), sent_at_ms: 20 }]);
    assert_eq!(snapshot.tags, vec![1, 2]);
    assert_eq!(snapshot.surbs, vec![vec![surb(9), surb(11)], vec![surb(10)]]);
    let restored = CombinedReplyStorage::from_snapshot(snapshot).unwrap();
    let mut controller = ReplyController::new(restored, 1000);
    assert_eq!(controller.reply_key_count(), 2);
    assert_eq!(controller.use_reply_key(5), Some(key(5)));
    // the age of a key counts from when it was stored, not from the restart
    assert!(matches!(
        controller.handle(ReplyControlRequest::GarbageCollect, 1010),
        ReplyControlResponse::Collected { evicted: 1 }
    ));
    assert_eq!(taken(controller.handle(ReplyControlRequest::TakeSurbFor { sender_tag: 1 }, 0)), Some(surb(9)));
    assert_eq!(taken(controller.handle(ReplyControlRequest::TakeSurbFor { sender_tag: 1 }, 0)), Some(surb(11)));
    assert_eq!(taken(controller.handle(ReplyControlRequest::TakeSurbFor { sender_tag: 2 }, 0)), Some(surb(10)));
}

#[test]
fn a_snapshot_that_does_not_pair_up_is_refused() {
    let odd = ReplyStorageSnapshot { key_ids: vec![1], keys: vec![], tags: vec![], surbs: vec![] };
    assert!(CombinedReplyStorage::from_snapshot(odd).is_none());
    let odd = ReplyStorageSnapshot { key_ids: vec![], keys: vec![], tags: vec![], surbs: vec![vec![]] };
    assert!(CombinedReplyStorage::from_snapshot(odd).is_none());
    // where an id or a tag occurs twice the later entry counts
    let twice = ReplyStorageSnapshot {
        key_ids: vec![1, 1],
        keys: vec![SentKey { key: key(1), sent_at_ms: 1 }, SentKey { key: key(2), sent_at_ms: 2 }],
        tags: vec![7, 7],
        surbs: vec![vec![surb(1)], vec![surb(2), surb(3)]],
    };
    let mut controller = ReplyController::new(CombinedReplyStorage::from_snapshot(twice).unwrap(), 1000);
    assert_eq!(controller.reply_key_count(), 1);
    assert_eq!(controller.use_reply_key(1), Some(key(2)));
    assert_eq!(controller.surbs_available(7), 2);
}
