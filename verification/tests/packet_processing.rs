use mixnet_core::packet_processing::{
    try_recover_destination_and_plaintext, MixProcessingError, MixProcessingResult, PacketProcessor,
    StoreData, UnwrappedPacket,
};
use sphinx_packet::crypto::{PrivateKey, PublicKey};
use sphinx_packet::header::delays::Delay;
use sphinx_packet::route::{Destination, DestinationAddressBytes, Node, NodeAddressBytes};
use sphinx_packet::{ProcessedPacketData, SphinxPacket};

fn node(secret: [u8; 32], address: u8) -> Node {
    Node::new(NodeAddressBytes::from_bytes([address; 32]), PublicKey::from(&PrivateKey::from(secret)))
}

fn packet_for(route: &[Node], client: [u8; 32], surb_id: [u8; 16], plaintext: Vec<u8>) -> SphinxPacket {
    let destination = Destination::new(DestinationAddressBytes::from_bytes(client), surb_id);
    let delays: Vec<Delay> = route.iter().map(|_| Delay::new_from_nanos(7)).collect();
    SphinxPacket::new(plaintext, route, &destination, &delays).unwrap()
}

fn addressed(client: [u8; 32], message: &[u8]) -> Vec<u8> {
    let mut plaintext = client.to_vec();
    plaintext.extend_from_slice(message);
    plaintext
}

#[test]
fn a_packet_for_a_client_is_stored_for_it() {
    let provider_secret = [9u8; 32];
    let client = [77u8; 32];
    let packet = packet_for(&[node(provider_secret, 1)], client, [5u8; 16], addressed(client, b"hello client"));
    let processor = PacketProcessor::new(provider_secret);
    assert_eq!(
        processor.process_sphinx_packet(&packet.to_bytes()),
        Ok(StoreData { client_address: client, client_surb_id: [5u8; 16], message: b"hello client".to_vec() })
    );
}

#[test]
fn a_packet_that_travelled_is_stored_at_its_last_hop() {
    let first_secret = [1u8; 32];
    let provider_secret = [9u8; 32];
    let client = [77u8; 32];
    let route = [node(first_secret, 1), node(provider_secret, 2)];
    let packet = packet_for(&route, client, [6u8; 16], addressed(client, b"far away"));
    let processor = PacketProcessor::new(provider_secret);
    // at the provider the packet of the first hop is of no use
    assert_eq!(processor.process_sphinx_packet(&packet.to_bytes()), Err(MixProcessingError::SphinxProcessingError));
    // the first node sees a packet that travels on
    assert_eq!(
        PacketProcessor::new(first_secret).process_sphinx_packet(&packet.to_bytes()),
        Err(MixProcessingError::ReceivedForwardHopError)
    );
    let forwarded = match packet.process(&PrivateKey::from(first_secret)).unwrap().data {
        ProcessedPacketData::ForwardHop { next_hop_packet, .. } => next_hop_packet,
        ProcessedPacketData::FinalHop { .. } => panic!("the first hop was the last"),
    };
    assert_eq!(
        processor.process_sphinx_packet(&forwarded.to_bytes()),
        Ok(StoreData { client_address: client, client_surb_id: [6u8; 16], message: b"far away".to_vec() })
    );
}

#[test]
fn the_payload_must_name_the_client_of_the_header() {
    let provider_secret = [9u8; 32];
    let client = [77u8; 32];
    let processor = PacketProcessor::new(provider_secret);
    let other = packet_for(&[node(provider_secret, 1)], client, [5u8; 16], addressed([78u8; 32], b"hello"));
    assert_eq!(processor.process_sphinx_packet(&other.to_bytes()), Err(MixProcessingError::NonMatchingRecipient));
    let short = packet_for(&[node(provider_secret, 1)], client, [5u8; 16], vec![77u8; 31]);
    assert_eq!(processor.process_sphinx_packet(&short.to_bytes()), Err(MixProcessingError::InvalidPayload));
    let empty = packet_for(&[node(provider_secret, 1)], client, [5u8; 16], addressed(client, b""));
    assert_eq!(
        processor.process_sphinx_packet(&empty.to_bytes()),
        Ok(StoreData { client_address: client, client_surb_id: [5u8; 16], message: vec![] })
    );
}

#[test]
fn bytes_that_are_no_packet_are_refused() {
    let processor = PacketProcessor::new([9u8; 32]);
    assert_eq!(processor.process_sphinx_packet(&[]), Err(MixProcessingError::SphinxProcessingError));
    assert_eq!(processor.process_sphinx_packet(&[1, 2, 3]), Err(MixProcessingError::SphinxProcessingError));
    assert_eq!(processor.process_sphinx_packet(&vec![0u8; 2000]), Err(MixProcessingError::SphinxProcessingError));
    let packet = packet_for(&[node([9u8; 32], 1)], [77u8; 32], [5u8; 16], addressed([77u8; 32], b"hello"));
    let mut bytes = packet.to_bytes();
    bytes[40] ^= 1;
    assert_eq!(processor.process_sphinx_packet(&bytes), Err(MixProcessingError::SphinxProcessingError));
}

#[test]
fn the_final_hop_decides_from_the_recovered_plaintext() {
    let processor = PacketProcessor::new([9u8; 32]);
    let client = [77u8; 32];
    assert_eq!(processor.process_final_hop(client, [1; 16], None), Err(MixProcessingError::InvalidPayload));
    assert_eq!(processor.process_final_hop(client, [1; 16], Some(vec![77; 31])), Err(MixProcessingError::InvalidPayload));
    assert_eq!(
        processor.process_final_hop(client, [1; 16], Some(addressed([76; 32], b"x"))),
        Err(MixProcessingError::NonMatchingRecipient)
    );
    assert_eq!(
        processor.process_final_hop(client, [1; 16], Some(addressed(client, b"x"))),
        Ok(StoreData { client_address: client, client_surb_id: [1; 16], message: vec![b'x'] })
    );
    assert_eq!(try_recover_destination_and_plaintext(&[1u8; 31]), None);
    assert_eq!(try_recover_destination_and_plaintext(&addressed(client, b"ab")), Some((client, b"ab".to_vec())));
}

#[test]
fn every_failure_of_the_packet_library_is_one_error() {
    let error = SphinxPacket::from_bytes(&[1]).err().unwrap();
    assert_eq!(MixProcessingError::from(error), MixProcessingError::SphinxProcessingError);
    assert_ne!(MixProcessingResult::FinalHop, MixProcessingResult::ForwardHop);
    assert_ne!(MixProcessingError::InvalidHopAddress, MixProcessingError::InvalidPayload);
}

#[test]
fn an_unwrapped_packet_is_decided_by_its_kind() {
    let provider_secret = [9u8; 32];
    let client = [77u8; 32];
    let processor = PacketProcessor::new(provider_secret);
    assert_eq!(
        processor.process_unwrapped(UnwrappedPacket::ForwardHop),
        Err(MixProcessingError::ReceivedForwardHopError)
    );
    let packet = packet_for(&[node(provider_secret, 1)], client, [5u8; 16], addressed(client, b"kept"));
    let payload = match packet.process(&PrivateKey::from(provider_secret)).unwrap().data {
        ProcessedPacketData::FinalHop { payload, .. } => payload.into_bytes(),
        ProcessedPacketData::ForwardHop { .. } => panic!("the only hop was not the last"),
    };
    assert_eq!(
        processor.process_unwrapped(UnwrappedPacket::FinalHop {
            destination: client,
            identifier: [5u8; 16],
            payload: payload.clone(),
        }),
        Ok(StoreData { client_address: client, client_surb_id: [5u8; 16], message: b"kept".to_vec() })
    );
    // the header names another client than the payload
    assert_eq!(
        processor.process_unwrapped(UnwrappedPacket::FinalHop {
            destination: [78u8; 32],
            identifier: [5u8; 16],
            payload,
        }),
        Err(MixProcessingError::NonMatchingRecipient)
    );
    // a payload without its padding
    assert_eq!(
        processor.process_unwrapped(UnwrappedPacket::FinalHop {
            destination: client,
            identifier: [5u8; 16],
            payload: vec![1u8; 8],
        }),
        Err(MixProcessingError::InvalidPayload)
    );
    assert_eq!(
        processor.process_unwrapped(UnwrappedPacket::FinalHop {
            destination: client,
            identifier: [5u8; 16],
            payload: vec![3u8; 200],
        }),
        Err(MixProcessingError::InvalidPayload)
    );
}
