use hmac::Mac;
use mixnet_core::ack_frames::{build_ack, derive_ack_key, open_ack, ACK_SIZE};
use mixnet_core::acks::{
    compute_next_deadline, AckAction, AckConfig, AckOutcome, PendingAcks, DEFAULT_ACK_TIMEOUT_MS,
    DEFAULT_RETRANSMIT_BUDGET,
};

fn config(budget: u32) -> AckConfig {
    AckConfig { base_timeout_ms: 1000, retransmit_budget: budget }
}

#[test]
fn the_default_settings_are_documented() {
    let defaults = AckConfig::default();
    assert_eq!(defaults.base_timeout_ms, DEFAULT_ACK_TIMEOUT_MS);
    assert_eq!(defaults.retransmit_budget, DEFAULT_RETRANSMIT_BUDGET);
    assert_eq!(DEFAULT_ACK_TIMEOUT_MS, 1500);
    assert_eq!(DEFAULT_RETRANSMIT_BUDGET, 10);
}

#[test]
fn the_deadline_moves_with_backoff_and_jitter() {
    assert_eq!(compute_next_deadline(1000, 1500, 0), 2500);
    assert_eq!(compute_next_deadline(1000, 1500, 100), 2650);
    assert_eq!(compute_next_deadline(1000, 1500, -100), 2350);
    assert_eq!(compute_next_deadline(1000, 1500, 37), 2555);
    assert_eq!(compute_next_deadline(1000, 1500, -37), 2445);
    // the jitter is limited to a tenth
    assert_eq!(compute_next_deadline(1000, 1500, 900), 2650);
    assert_eq!(compute_next_deadline(1000, 1500, i64::MIN), 2350);
    // the deadline saturates
    assert_eq!(compute_next_deadline(u64::MAX - 5, 1500, 0), u64::MAX);
    assert_eq!(compute_next_deadline(0, u64::MAX, 100), u64::MAX);
    assert_eq!(compute_next_deadline(7, 1, -100), 8);
}

#[test]
fn a_registered_fragment_waits_one_timeout() {
    let mut acks = PendingAcks::new(config(3));
    acks.register(11, 5, 77, 2, 10_000);
    assert_eq!(acks.len(), 1);
    let entry = acks.get(11).unwrap();
    assert_eq!(entry.fragment_id, 11);
    assert_eq!(entry.message_id, 5);
    assert_eq!(entry.first_hop, 77);
    assert_eq!(entry.lane, 2);
    assert_eq!(entry.sent_at_ms, 10_000);
    assert_eq!(entry.retransmit_deadline_ms, 11_000);
    assert_eq!(entry.retransmissions_left, 3);
    assert_eq!(entry.backoff_ms, 2000);
    assert!(acks.poll_expired(10_999, 0).is_empty());
    assert_eq!(acks.get(11).unwrap(), entry);
}

#[test]
fn an_ack_before_the_deadline_cancels_retransmission() {
    let mut acks = PendingAcks::new(config(3));
    acks.register(11, 5, 77, 2, 10_000);
    assert_eq!(acks.on_ack(11), AckOutcome::Acknowledged { message_id: 5, message_delivered: true });
    assert!(!acks.is_pending(11));
    for now in [10_500u64, 11_000, 50_000, u64::MAX] {
        assert!(acks.poll_expired(now, 0).is_empty());
    }
    assert_eq!(acks.len(), 0);
}

#[test]
fn an_unknown_ack_changes_nothing() {
    let mut acks = PendingAcks::new(config(3));
    acks.register(11, 5, 77, 2, 10_000);
    assert_eq!(acks.on_ack(12), AckOutcome::Unknown);
    assert!(acks.is_pending(11));
    assert_eq!(acks.len(), 1);
}

#[test]
fn a_message_is_delivered_with_its_last_ack() {
    let mut acks = PendingAcks::new(config(3));
    acks.register(1, 5, 77, 0, 0);
    acks.register(2, 5, 77, 0, 0);
    acks.register(3, 6, 77, 0, 0);
    assert_eq!(acks.on_ack(2), AckOutcome::Acknowledged { message_id: 5, message_delivered: false });
    assert_eq!(acks.on_ack(1), AckOutcome::Acknowledged { message_id: 5, message_delivered: true });
    assert_eq!(acks.on_ack(3), AckOutcome::Acknowledged { message_id: 6, message_delivered: true });
}

#[test]
fn each_expired_deadline_gives_one_retransmission_up_to_the_budget() {
    let mut acks = PendingAcks::new(config(2));
    acks.register(11, 5, 77, 4, 0);
    // first deadline: 1000
    assert_eq!(acks.poll_expired(1000, 0), vec![AckAction::Retransmit { fragment_id: 11, lane: 4 }]);
    let entry = acks.get(11).unwrap();
    assert_eq!(entry.retransmissions_left, 1);
    assert_eq!(entry.retransmit_deadline_ms, 3000);
    assert_eq!(entry.backoff_ms, 4000);
    assert_eq!(entry.sent_at_ms, 1000);
    // the same instant again: the deadline has moved, nothing is due
    assert!(acks.poll_expired(1000, 0).is_empty());
    assert!(acks.poll_expired(2999, 0).is_empty());
    // second deadline: 3000
    assert_eq!(acks.poll_expired(3000, 0), vec![AckAction::Retransmit { fragment_id: 11, lane: 4 }]);
    let entry = acks.get(11).unwrap();
    assert_eq!(entry.retransmissions_left, 0);
    assert_eq!(entry.retransmit_deadline_ms, 7000);
    // the budget is spent: the third deadline drops the fragment
    assert_eq!(acks.poll_expired(7000, 0), vec![AckAction::Undeliverable { fragment_id: 11 }]);
    assert!(!acks.is_pending(11));
    assert!(acks.poll_expired(100_000, 0).is_empty());
}

#[test]
fn only_what_is_due_is_touched_and_order_is_kept() {
    let mut acks = PendingAcks::new(config(0));
    acks.register(1, 1, 0, 0, 0);
    acks.register(2, 1, 0, 0, 500);
    acks.register(3, 1, 0, 0, 100);
    // due at 1000, 1500, 1100
    assert_eq!(
        acks.poll_expired(1200, 0),
        vec![AckAction::Undeliverable { fragment_id: 1 }, AckAction::Undeliverable { fragment_id: 3 }]
    );
    assert!(acks.is_pending(2));
    assert_eq!(acks.len(), 1);
}

#[test]
fn registering_again_replaces_the_entry() {
    let mut acks = PendingAcks::new(config(1));
    acks.register(1, 1, 0, 0, 0);
    assert_eq!(acks.poll_expired(1000, 0).len(), 1);
    assert_eq!(acks.get(1).unwrap().retransmissions_left, 0);
    acks.register(1, 1, 9, 0, 5000);
    let entry = acks.get(1).unwrap();
    assert_eq!(entry.retransmissions_left, 1);
    assert_eq!(entry.first_hop, 9);
    assert_eq!(entry.retransmit_deadline_ms, 6000);
    assert_eq!(acks.len(), 1);
}

fn tag(key: &[u8], data: &[u8]) -> Vec<u8> {
    let mut mac = hmac::Hmac::<sha2::Sha256>::new_from_slice(key).unwrap();
    mac.update(data);
    mac.finalize().into_bytes().to_vec()
}

#[test]
fn the_ack_key_is_derived_from_master_key_and_fragment() {
    let master = [7u8; 32];
    let id = 0x0102_0304_0506_0708_090a_0b0c_0d0e_0f10u128;
    assert_eq!(derive_ack_key(&master, id).to_vec(), tag(&master, &id.to_be_bytes()));
    assert_ne!(derive_ack_key(&master, id), derive_ack_key(&master, id + 1));
    assert_ne!(derive_ack_key(&master, id), derive_ack_key(&[8u8; 32], id));
    assert_eq!(derive_ack_key(&master, 0).to_vec(), tag(&master, &[0u8; 16]));
}

#[test]
fn an_ack_names_its_fragment_and_is_tagged() {
    let master = [7u8; 32];
    for id in [0u128, 1, 255, 256, 9 * 65_536 + 3, u128::MAX, 1 << 127] {
        let ack = build_ack(&master, id);
        assert_eq!(ack.len(), ACK_SIZE);
        assert_eq!(&ack[..16], &id.to_be_bytes());
        assert_eq!(&ack[16..], &tag(&derive_ack_key(&master, id), &id.to_be_bytes())[..16]);
        assert_eq!(open_ack(&master, &ack), Some(id));
        assert_eq!(open_ack(&[8u8; 32], &ack), None);
    }
}

#[test]
fn a_forged_ack_is_not_accepted() {
    let master = [7u8; 32];
    let ack = build_ack(&master, 77);
    for position in 0..ACK_SIZE {
        let mut forged = ack.clone();
        forged[position] ^= 0x80;
        assert_eq!(open_ack(&master, &forged), None);
    }
    assert_eq!(open_ack(&master, &ack[..31]), None);
    let mut long = ack.clone();
    long.push(0);
    assert_eq!(open_ack(&master, &long), None);
    assert_eq!(open_ack(&master, &[]), None);
}
