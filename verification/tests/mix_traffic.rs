use mixnet_core::error::ClientCoreError;
use hmac::Mac;
use mixnet_core::mix_traffic::{open_sealed_frame, seal_frame, GatewayFrame, MixPacket, MixTrafficController, MAC_SIZE};

const KEY: [u8; 32] = [33u8; 32];

fn tag(key: &[u8], data: &[u8]) -> Vec<u8> {
    let mut mac = hmac::Hmac::<sha2::Sha256>::new_from_slice(key).unwrap();
    mac.update(data);
    mac.finalize().into_bytes().to_vec()
}

fn sealed(frame: Vec<u8>) -> Vec<u8> {
    let mut out = frame.clone();
    out.extend_from_slice(&tag(&KEY, &frame));
    out
}

fn packet(byte: u8, size: usize) -> MixPacket {
    MixPacket { first_hop: byte as u128, packet: vec![byte; size] }
}

#[test]
fn a_frame_is_its_kind_and_its_content() {
    assert_eq!(GatewayFrame::Handshake(vec![9, 8]).to_bytes(), vec![1, 9, 8]);
    assert_eq!(GatewayFrame::MixnetPacket(vec![7]).to_bytes(), vec![2, 7]);
    assert_eq!(GatewayFrame::Ack(vec![]).to_bytes(), vec![3]);
    assert_eq!(GatewayFrame::ControlRequest(vec![1]).to_bytes(), vec![4, 1]);
    assert_eq!(GatewayFrame::ControlResponse(vec![2]).to_bytes(), vec![5, 2]);
}

#[test]
fn frames_are_read_back() {
    for frame in [
        GatewayFrame::Handshake(vec![9, 8]),
        GatewayFrame::MixnetPacket(vec![0; 40]),
        GatewayFrame::Ack(vec![]),
        GatewayFrame::ControlRequest(vec![1, 2, 3]),
        GatewayFrame::ControlResponse(vec![255]),
    ] {
        assert_eq!(GatewayFrame::from_bytes(&frame.to_bytes()), Some(frame));
    }
    assert_eq!(GatewayFrame::from_bytes(&[]), None);
    assert_eq!(GatewayFrame::from_bytes(&[0, 1]), None);
    assert_eq!(GatewayFrame::from_bytes(&[6]), None);
}

#[test]
fn a_batch_becomes_one_frame_per_packet() {
    let mut controller = MixTrafficController::new(4);
    let frames = controller.frames_for(&KEY, &vec![packet(1, 4), packet(2, 4), packet(3, 4)]).unwrap();
    assert_eq!(
        frames,
        vec![sealed(vec![2, 1, 1, 1, 1]), sealed(vec![2, 2, 2, 2, 2]), sealed(vec![2, 3, 3, 3, 3])]
    );
    for frame in &frames {
        assert_eq!(frame.len(), 5 + MAC_SIZE);
        let opened = open_sealed_frame(&KEY, frame).unwrap();
        assert!(matches!(GatewayFrame::from_bytes(&opened), Some(GatewayFrame::MixnetPacket(_))));
    }
    assert_eq!(controller.sent_count(), 3);
    assert_eq!(controller.frames_for(&KEY, &vec![]), Ok(vec![]));
    assert_eq!(controller.sent_count(), 3);
}

#[test]
fn a_packet_of_the_wrong_size_refuses_the_batch() {
    let mut controller = MixTrafficController::new(4);
    assert_eq!(
        controller.frames_for(&KEY, &vec![packet(1, 4), packet(2, 5)]),
        Err(ClientCoreError::MixTrafficSendFailed)
    );
    assert_eq!(controller.sent_count(), 0);
    assert!(controller.is_running());
}

#[test]
fn a_refusing_sink_ends_the_controller() {
    let mut controller = MixTrafficController::new(4);
    assert_eq!(controller.on_sink_result(true), Ok(()));
    assert!(controller.is_running());
    assert_eq!(controller.on_sink_result(false), Err(ClientCoreError::MixTrafficSendFailed));
    assert!(!controller.is_running());
    assert_eq!(controller.frames_for(&KEY, &vec![packet(1, 4)]), Err(ClientCoreError::MixTrafficSendFailed));
    assert_eq!(controller.on_sink_result(true), Ok(()));
    assert!(!controller.is_running());
}

#[test]
fn a_sealed_frame_opens_with_its_key_only() {
    let frame = GatewayFrame::Ack(vec![1, 2, 3]).to_bytes();
    let bytes = seal_frame(&KEY, &frame);
    assert_eq!(bytes, sealed(frame.clone()));
    assert_eq!(open_sealed_frame(&KEY, &bytes), Some(frame.clone()));
    assert_eq!(open_sealed_frame(&[34u8; 32], &bytes), None);
    for position in [0usize, 3, 4, 20, bytes.len() - 1] {
        let mut changed = bytes.clone();
        changed[position] ^= 1;
        assert_eq!(open_sealed_frame(&KEY, &changed), None);
    }
    assert_eq!(open_sealed_frame(&KEY, &bytes[..bytes.len() - 1]), None);
    assert_eq!(open_sealed_frame(&KEY, &[0u8; 31]), None);
    assert_eq!(open_sealed_frame(&KEY, &[]), None);
    // the empty frame
    assert_eq!(open_sealed_frame(&KEY, &seal_frame(&KEY, &[])), Some(vec![]));
    assert_eq!(seal_frame(&KEY, &[]), tag(&KEY, &[]));
}
