use aes::cipher::{KeyIvInit, StreamCipher};
use mixnet_core::error::{ClientCoreError, TelemetryEvent};
use mixnet_core::fragments::{split_message, Fragment};
use mixnet_core::messages::{encode_message, Message};
use mixnet_core::reassembly::{PartialSet, ReassemblyOutcome, ReassemblyTable, RecentlyCompleted};
use mixnet_core::received_buffer::{
    open_frame, read_payload, read_tag_value, seal_frame_for, seal_reply_frame, Opened,
    ReceivedMessagesBufferController, ReconstructedMessage, MAX_PENDING_DELIVERIES,
};
use mixnet_core::replies::{
    CombinedReplyStorage, ReplyControlRequest, ReplyControlResponse, ReplyController, ReplyKey, SentReplyKeys, Surb,
};

fn encrypt(key: [u8; 16], data: &[u8]) -> Vec<u8> {
    let mut out = data.to_vec();
    let mut cipher = ctr::Ctr64BE::<aes::Aes128>::new(&key.into(), &[0u8; 16].into());
    cipher.apply_keystream(&mut out);
    out
}

fn payload_of(fragment: &Fragment) -> Vec<u8> {
    let mut payload = vec![0u8; 16];
    payload.extend_from_slice(&fragment.to_bytes());
    payload
}

fn public_of(secret: [u8; 32]) -> [u8; 32] {
    x25519_dalek::x25519(secret, x25519_dalek::X25519_BASEPOINT_BYTES)
}

fn seal_for(recipient_public: [u8; 32], ephemeral: [u8; 32], fragment: &Fragment) -> Vec<u8> {
    let shared = x25519_dalek::x25519(ephemeral, recipient_public);
    let mut okm = [0u8; 48];
    hkdf::Hkdf::<sha2::Sha256>::new(None, &shared).expand(&[], &mut okm).unwrap();
    let mut key = [0u8; 16];
    key.copy_from_slice(&okm[..16]);
    let mut frame = public_of(ephemeral).to_vec();
    frame.extend_from_slice(&encrypt(key, &payload_of(fragment)));
    frame
}

fn seal_reply(surb_id: u128, key: ReplyKey, fragment: &Fragment) -> Vec<u8> {
    let mut frame = surb_id.to_be_bytes().to_vec();
    frame.extend_from_slice(&[0u8; 16]);
    frame.extend_from_slice(&encrypt(key.bytes, &payload_of(fragment)));
    frame
}

fn fragment(message_id: u64, data: &[u8]) -> Fragment {
    let written = encode_message(&Message::Plain { data: data.to_vec() }).unwrap();
    split_message(&written, message_id, 32).unwrap().remove(0)
}

fn replies() -> ReplyController {
    ReplyController::new(CombinedReplyStorage::new(), 1000)
}

#[test]
fn the_tag_is_read_most_significant_byte_first() {
    let mut bytes = [0u8; 16];
    assert_eq!(read_tag_value(&bytes), 0);
    bytes[15] = 1;
    assert_eq!(read_tag_value(&bytes), 1);
    bytes[0] = 0x80;
    assert_eq!(read_tag_value(&bytes), (1u128 << 127) + 1);
    let value = 0x0102_0304_0506_0708_090a_0b0c_0d0e_0f10u128;
    let mut longer = value.to_be_bytes().to_vec();
    longer.extend_from_slice(&[0xff; 20]);
    assert_eq!(read_tag_value(&longer), value);
    assert_eq!(read_tag_value(&[0xff; 16]), u128::MAX);
}

#[test]
fn a_payload_needs_its_zero_prefix() {
    let piece = fragment(5, b"abc");
    assert_eq!(piece.data[0], 0);
    assert_eq!(read_payload(&payload_of(&piece)), Some(piece.clone()));
    let mut spoiled = payload_of(&piece);
    spoiled[15] = 1;
    assert_eq!(read_payload(&spoiled), None);
    assert_eq!(read_payload(&[0u8; 15]), None);
    assert_eq!(read_payload(&[0u8; 16]), None);
    // sixteen zeros and a header of a message of no fragments
    assert_eq!(read_payload(&[0u8; 25]), None);
}

#[test]
fn a_frame_for_the_local_key_is_opened() {
    let local_secret = [11u8; 32];
    let piece = fragment(5, b"for you");
    let frame = seal_for(public_of(local_secret), [12u8; 32], &piece);
    let mut keys = SentReplyKeys::new();
    assert_eq!(open_frame(&local_secret, &mut keys, &frame), Opened::WithLocalKey { fragment: piece });
    // another key does not open it
    assert_eq!(open_frame(&[13u8; 32], &mut keys, &frame), Opened::Undecryptable);
    // a changed ciphertext does not pass the check of the prefix
    let mut changed = frame.clone();
    changed[40] ^= 1;
    assert_eq!(open_frame(&local_secret, &mut keys, &changed), Opened::Undecryptable);
    assert_eq!(open_frame(&local_secret, &mut keys, &frame[..31]), Opened::Undecryptable);
    assert_eq!(open_frame(&local_secret, &mut keys, &[]), Opened::Undecryptable);
}

#[test]
fn a_reply_key_opens_one_frame() {
    let local_secret = [11u8; 32];
    let piece = fragment(6, b"an answer");
    let key = ReplyKey { bytes: [21u8; 16] };
    let surb_id = 0xabcdefu128 << 64;
    let frame = seal_reply(surb_id, key, &piece);
    let mut keys = SentReplyKeys::new();
    // no key: undecryptable
    assert_eq!(open_frame(&local_secret, &mut keys, &frame), Opened::Undecryptable);
    keys.insert(surb_id, key, 0);
    keys.insert(surb_id + 1, ReplyKey { bytes: [22u8; 16] }, 0);
    assert_eq!(open_frame(&local_secret, &mut keys, &frame), Opened::WithReplyKey { surb_id, fragment: piece });
    assert!(!keys.contains(surb_id));
    assert!(keys.contains(surb_id + 1));
    // the key is used up
    assert_eq!(open_frame(&local_secret, &mut keys, &frame), Opened::Undecryptable);
    assert_eq!(keys.len(), 1);
}

#[test]
fn a_wrong_reply_key_is_kept() {
    let local_secret = [11u8; 32];
    let piece = fragment(6, b"an answer");
    let frame = seal_reply(77, ReplyKey { bytes: [21u8; 16] }, &piece);
    let mut keys = SentReplyKeys::new();
    keys.insert(77, ReplyKey { bytes: [99u8; 16] }, 0);
    assert_eq!(open_frame(&local_secret, &mut keys, &frame), Opened::Undecryptable);
    assert!(keys.contains(77));
}

#[test]
fn frames_are_counted_or_delivered() {
    let local_secret = [11u8; 32];
    let mut controller = ReceivedMessagesBufferController::new(4, 4);
    let mut replies = ReplyController::new(CombinedReplyStorage::new(), 1000);
    assert!(controller.connect_consumer().unwrap().is_empty());
    let (out, event) = controller.handle_frame(&local_secret, &mut replies, &[1, 2, 3], 0);
    assert!(out.is_empty());
    assert_eq!(event, Some(TelemetryEvent::UndecryptableInbound));
    assert_eq!(controller.undecryptable_count(), 1);
    let piece = fragment(8, b"hello");
    let frame = seal_for(public_of(local_secret), [12u8; 32], &piece);
    let (out, event) = controller.handle_frame(&local_secret, &mut replies, &frame, 0);
    assert_eq!(event, None);
    assert_eq!(out, vec![ReconstructedMessage { message: b"hello".to_vec(), sender_tag: None }]);
    assert!(controller.was_delivered(8));
    // the same frame again: the message was delivered before
    let (out, event) = controller.handle_frame(&local_secret, &mut replies, &frame, 0);
    assert!(out.is_empty());
    assert_eq!(event, None);
    assert_eq!(controller.undecryptable_count(), 1);
    // a reply
    let key = ReplyKey { bytes: [5u8; 16] };
    replies.handle(ReplyControlRequest::StoreSentReplyKey { surb_id: 3, key }, 0);
    let answer = seal_reply(3, key, &fragment(9, b"pong"));
    let (out, _) = controller.handle_frame(&local_secret, &mut replies, &answer, 0);
    assert_eq!(out, vec![ReconstructedMessage { message: b"pong".to_vec(), sender_tag: None }]);
    assert!(!replies.holds_reply_key(3));
    let (out, event) = controller.handle_frame(&local_secret, &mut replies, &answer, 0);
    assert!(out.is_empty());
    assert_eq!(event, Some(TelemetryEvent::UndecryptableInbound));
    assert_eq!(controller.undecryptable_count(), 2);
}

#[test]
fn only_one_consumer_is_registered() {
    let mut controller = ReceivedMessagesBufferController::new(4, 4);
    assert!(!controller.is_connected());
    assert_eq!(controller.connect_consumer(), Ok(vec![]));
    assert!(controller.is_connected());
    assert_eq!(controller.connect_consumer(), Err(ClientCoreError::ConsumerAlreadyRegistered));
    controller.disconnect_consumer();
    assert!(!controller.is_connected());
    assert_eq!(controller.connect_consumer(), Ok(vec![]));
}

#[test]
fn messages_wait_for_a_consumer() {
    let mut controller = ReceivedMessagesBufferController::new(4, 4);
    let mut replies = replies();
    assert!(controller.handle_fragment(fragment(1, b"one"), &mut replies, 0).is_empty());
    let tagged = encode_message(&Message::Repliable { sender_tag: 44, surbs: vec![], data: b"two".to_vec() }).unwrap();
    let tagged = split_message(&tagged, 2, 32).unwrap().remove(0);
    assert!(controller.handle_fragment(tagged, &mut replies, 0).is_empty());
    assert_eq!(controller.backlog_len(), 2);
    assert_eq!(
        controller.connect_consumer(),
        Ok(vec![
            ReconstructedMessage { message: b"one".to_vec(), sender_tag: None },
            ReconstructedMessage { message: b"two".to_vec(), sender_tag: Some(44) },
        ])
    );
    assert_eq!(controller.backlog_len(), 0);
    assert_eq!(
        controller.handle_fragment(fragment(3, b"three"), &mut replies, 0),
        vec![ReconstructedMessage { message: b"three".to_vec(), sender_tag: None }]
    );
}

#[test]
fn a_full_backlog_drops_the_oldest() {
    let mut controller = ReceivedMessagesBufferController::new(4, 0);
    let mut replies = replies();
    for id in 0..(MAX_PENDING_DELIVERIES as u64 + 2) {
        assert!(controller.handle_fragment(fragment(id, &id.to_be_bytes()), &mut replies, 0).is_empty());
    }
    assert_eq!(controller.backlog_len(), MAX_PENDING_DELIVERIES);
    let waiting = controller.connect_consumer().unwrap();
    assert_eq!(waiting.len(), MAX_PENDING_DELIVERIES);
    assert_eq!(waiting[0].message, 2u64.to_be_bytes().to_vec());
    assert_eq!(waiting[MAX_PENDING_DELIVERIES - 1].message, (MAX_PENDING_DELIVERIES as u64 + 1).to_be_bytes().to_vec());
}

#[test]
fn the_record_of_delivered_messages_is_bounded() {
    let mut recent = RecentlyCompleted::new(2);
    assert!(recent.remember(1));
    assert!(recent.remember(2));
    assert!(!recent.remember(1));
    assert!(recent.contains(1));
    assert!(recent.remember(3));
    assert!(!recent.contains(1));
    assert!(recent.contains(2));
    assert!(recent.contains(3));
    let mut none = RecentlyCompleted::new(0);
    assert!(none.remember(1));
    assert!(!none.contains(1));
    assert!(none.remember(1));
}

#[test]
fn a_partial_set_knows_when_it_is_complete() {
    let mut set = PartialSet::new(3);
    assert_eq!(set.fragment_count(), 3);
    assert!(!set.is_complete());
    set.put(2, vec![3]);
    set.put(0, vec![1]);
    assert!(set.has(0));
    assert!(!set.has(1));
    assert!(!set.has(7));
    assert!(!set.is_complete());
    set.put(1, vec![2, 2]);
    assert!(set.is_complete());
    assert_eq!(set.join(), vec![1, 2, 2, 3]);
    assert!(PartialSet::new(0).is_complete());
}

#[test]
fn the_reassembly_table_reports_what_came_of_a_fragment() {
    let payload: Vec<u8> = (0..40u8).collect();
    let pieces = split_message(&payload, 5, 16).unwrap();
    assert_eq!(pieces.len(), 3);
    let mut table = ReassemblyTable::new(4);
    assert_eq!(table.insert_fragment(pieces[1].clone()), ReassemblyOutcome::Stored);
    assert!(table.is_held(5));
    assert_eq!(table.insert_fragment(pieces[1].clone()), ReassemblyOutcome::Duplicate);
    let mut inconsistent = pieces[0].clone();
    inconsistent.total = 4;
    assert_eq!(table.insert_fragment(inconsistent), ReassemblyOutcome::Inconsistent);
    assert_eq!(table.insert_fragment(pieces[0].clone()), ReassemblyOutcome::Stored);
    assert_eq!(table.insert_fragment(pieces[2].clone()), ReassemblyOutcome::Completed { payload });
    assert!(!table.is_held(5));
    assert_eq!(table.len(), 0);
    // a lone fragment without the end marker
    let bare = Fragment { message_id: 6, total: 1, index: 0, data: vec![0, 0, 0] };
    assert_eq!(table.insert_fragment(bare), ReassemblyOutcome::Malformed);
}

#[test]
fn the_reassembly_table_evicts_the_least_recently_used() {
    let payload: Vec<u8> = (0..40u8).collect();
    let mut table = ReassemblyTable::new(2);
    let first = split_message(&payload, 1, 16).unwrap();
    let second = split_message(&payload, 2, 16).unwrap();
    let third = split_message(&payload, 3, 16).unwrap();
    assert_eq!(table.insert_fragment(first[0].clone()), ReassemblyOutcome::Stored);
    assert_eq!(table.insert_fragment(second[0].clone()), ReassemblyOutcome::Stored);
    // message 1 is added to: message 2 is now the least recently used
    assert_eq!(table.insert_fragment(first[1].clone()), ReassemblyOutcome::Stored);
    assert_eq!(table.insert_fragment(third[0].clone()), ReassemblyOutcome::Stored);
    assert!(table.is_held(1));
    assert!(!table.is_held(2));
    assert!(table.is_held(3));
    assert_eq!(table.len(), 2);
    assert_eq!(table.insert_fragment(first[2].clone()), ReassemblyOutcome::Completed { payload });
    // a capacity of zero is a capacity of one
    let mut small = ReassemblyTable::new(0);
    assert_eq!(small.insert_fragment(second[0].clone()), ReassemblyOutcome::Stored);
    assert_eq!(small.insert_fragment(third[0].clone()), ReassemblyOutcome::Stored);
    assert!(!small.is_held(2));
    assert!(small.is_held(3));
}

#[test]
fn reply_blocks_that_come_with_a_message_are_kept() {
    let mut controller = ReceivedMessagesBufferController::new(4, 4);
    let mut replies = replies();
    assert_eq!(controller.connect_consumer(), Ok(vec![]));
    let surb = |id: u128| Surb { id, first_hop: 5, encryption_key: ReplyKey { bytes: [id as u8; 16] }, material: vec![id as u8; 10] };
    let written = encode_message(&Message::Repliable { sender_tag: 9, surbs: vec![surb(1), surb(2)], data: b"q".to_vec() }).unwrap();
    let pieces = split_message(&written, 3, 32).unwrap();
    assert!(pieces.len() > 1);
    let mut delivered = Vec::new();
    for piece in pieces.into_iter().rev() {
        delivered.extend(controller.handle_fragment(piece, &mut replies, 0));
    }
    assert_eq!(delivered, vec![ReconstructedMessage { message: b"q".to_vec(), sender_tag: Some(9) }]);
    assert_eq!(replies.surbs_available(9), 2);
    assert_eq!(replies.surbs_available(8), 0);
    match replies.handle(ReplyControlRequest::TakeSurbFor { sender_tag: 9 }, 0) {
        ReplyControlResponse::Surb(taken) => assert_eq!(taken, Some(surb(1))),
        _ => panic!("not an answer to a take"),
    }
}

#[test]
fn a_payload_that_is_no_message_delivers_nothing() {
    let mut controller = ReceivedMessagesBufferController::new(4, 4);
    let mut replies = replies();
    assert_eq!(controller.connect_consumer(), Ok(vec![]));
    // an unknown kind of message
    let piece = split_message(&[7, 1, 2, 3], 3, 32).unwrap().remove(0);
    assert!(controller.handle_fragment(piece, &mut replies, 0).is_empty());
    // a repliable message that is cut short
    let piece = split_message(&[1, 0, 0], 4, 32).unwrap().remove(0);
    assert!(controller.handle_fragment(piece, &mut replies, 0).is_empty());
    // no message at all
    let piece = split_message(&[], 5, 32).unwrap().remove(0);
    assert!(controller.handle_fragment(piece, &mut replies, 0).is_empty());
    assert!(controller.was_delivered(3));
}

#[test]
fn a_sealed_reply_opens_with_the_key_of_its_block() {
    let key = ReplyKey { bytes: [4u8; 16] };
    let sent = fragment(21, b"an answer");
    let frame = seal_reply_frame(0x0102, &key, &sent);
    // the frame is the block's id, sixteen zeros and the sealed payload
    assert_eq!(frame, seal_reply(0x0102, key, &sent));
    assert_eq!(frame.len(), 32 + 16 + sent.to_bytes().len());
    assert_ne!(&frame[32..], &payload_of(&sent)[..]);
    let mut keys = SentReplyKeys::new();
    keys.insert(0x0102, key, 0);
    assert_eq!(open_frame(&[8u8; 32], &mut keys, &frame), Opened::WithReplyKey { surb_id: 0x0102, fragment: sent });
    // the key is used up
    assert_eq!(open_frame(&[8u8; 32], &mut keys, &frame), Opened::Undecryptable);
}

#[test]
fn a_frame_sealed_for_a_client_opens_with_its_local_key() {
    let local_secret = [8u8; 32];
    let sent = fragment(22, b"to myself");
    let frame = seal_frame_for(&public_of(local_secret), &[3u8; 32], &sent);
    assert_eq!(frame, seal_for(public_of(local_secret), [3u8; 32], &sent));
    let mut keys = SentReplyKeys::new();
    assert_eq!(open_frame(&local_secret, &mut keys, &frame), Opened::WithLocalKey { fragment: sent });
    // another client cannot open it
    assert_eq!(open_frame(&[9u8; 32], &mut keys, &frame), Opened::Undecryptable);
}
