use mixnet_core::messages::{decode_message, encode_message, Message, MessageError};
use mixnet_core::replies::{ReplyKey, Surb};

fn surb(id: u128, material: usize) -> Surb {
    Surb { id, first_hop: id * 3, encryption_key: ReplyKey { bytes: [id as u8; 16] }, material: vec![id as u8; material] }
}

#[test]
fn a_plain_message_is_a_zero_and_the_data() {
    assert_eq!(encode_message(&Message::Plain { data: vec![5, 6] }), Ok(vec![0, 5, 6]));
    assert_eq!(encode_message(&Message::Plain { data: vec![] }), Ok(vec![0]));
    assert_eq!(decode_message(&[0, 5, 6]), Some(Message::Plain { data: vec![5, 6] }));
    assert_eq!(decode_message(&[0]), Some(Message::Plain { data: vec![] }));
}

#[test]
fn a_repliable_message_is_written_field_by_field() {
    let message = Message::Repliable { sender_tag: 0x0102, surbs: vec![surb(9, 2), surb(10, 2)], data: vec![0xaa, 0xbb] };
    let bytes = encode_message(&message).unwrap();
    let mut expected = vec![1u8];
    expected.extend_from_slice(&0x0102u128.to_be_bytes());
    expected.extend_from_slice(&[0, 2]);
    expected.extend_from_slice(&[0, 2]);
    for id in [9u128, 10] {
        expected.extend_from_slice(&id.to_be_bytes());
        expected.extend_from_slice(&(id * 3).to_be_bytes());
        expected.extend_from_slice(&[id as u8; 16]);
        expected.extend_from_slice(&[id as u8; 2]);
    }
    expected.extend_from_slice(&[0xaa, 0xbb]);
    assert_eq!(bytes, expected);
    assert_eq!(decode_message(&bytes), Some(message));
}

#[test]
fn messages_are_read_back() {
    for (count, material, data) in [(0usize, 0usize, 0usize), (1, 0, 5), (3, 7, 0), (2, 300, 1000), (300, 1, 2)] {
        let message = Message::Repliable {
            sender_tag: u128::MAX - count as u128,
            surbs: (0..count as u128).map(|id| surb(id + (1 << 100), material)).collect(),
            data: vec![3; data],
        };
        let bytes = encode_message(&message).unwrap();
        assert_eq!(bytes.len(), 21 + count * (48 + material) + data);
        assert_eq!(decode_message(&bytes), Some(message));
    }
}

#[test]
fn what_is_no_message_is_not_read() {
    assert_eq!(decode_message(&[]), None);
    assert_eq!(decode_message(&[2, 0, 0]), None);
    assert_eq!(decode_message(&[255]), None);
    assert_eq!(decode_message(&[1; 20]), None);
    let message = Message::Repliable { sender_tag: 1, surbs: vec![surb(9, 2)], data: vec![] };
    let bytes = encode_message(&message).unwrap();
    assert_eq!(decode_message(&bytes[..bytes.len() - 1]), None);
    // a header that promises more blocks than follow
    let mut greedy = bytes.clone();
    greedy[18] = 2;
    assert_eq!(decode_message(&greedy), None);
    // with one byte more the last byte is data
    let mut longer = bytes.clone();
    longer.push(4);
    assert_eq!(decode_message(&longer), Some(Message::Repliable { sender_tag: 1, surbs: vec![surb(9, 2)], data: vec![4] }));
}

#[test]
fn reply_blocks_of_unequal_length_are_not_written() {
    let unequal = Message::Repliable { sender_tag: 1, surbs: vec![surb(1, 2), surb(2, 3)], data: vec![] };
    assert_eq!(encode_message(&unequal), Err(MessageError::UnequalSurbs));
    let long = Message::Repliable { sender_tag: 1, surbs: vec![surb(1, 65_536)], data: vec![] };
    assert_eq!(encode_message(&long), Err(MessageError::SurbTooLong));
    let longest = Message::Repliable { sender_tag: 1, surbs: vec![surb(1, 65_535)], data: vec![] };
    assert!(encode_message(&longest).is_ok());
    let many = Message::Repliable { sender_tag: 1, surbs: (0..65_536u128).map(|id| surb(id, 0)).collect(), data: vec![] };
    assert_eq!(encode_message(&many), Err(MessageError::TooManySurbs));
}
