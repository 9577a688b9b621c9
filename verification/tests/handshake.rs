use mixnet_core::error::{ClientCoreError, HandshakeFailure};
use mixnet_core::handshake::{
    client_handshake, gateway_handshake, ClientHandshake, ClientProgress, GatewayHandshake,
    GatewayProgress, IdentityKeyPair, SharedKeys, TransportEvent,
};

fn identity(seed: u8) -> IdentityKeyPair {
    let secret = [seed; 32];
    let public = ed25519_dalek::SigningKey::from_bytes(&secret).verifying_key().to_bytes();
    IdentityKeyPair { secret, public }
}

fn failed(step: u8, reason: HandshakeFailure) -> ClientCoreError {
    ClientCoreError::HandshakeFailed { step, reason }
}

struct Started {
    client: ClientHandshake,
    gateway: GatewayHandshake,
    init: Vec<u8>,
    mid: Vec<u8>,
}

fn start(client_identity: &IdentityKeyPair, gateway_identity: &IdentityKeyPair) -> Started {
    let (client, init) = client_handshake(client_identity, gateway_identity.public, [3u8; 32]);
    let (gateway, mid) = match gateway_handshake(gateway_identity, init.clone(), [4u8; 32]) {
        Ok(answer) => answer,
        Err(error) => panic!("the gateway refused the first message: {:?}", error),
    };
    Started { client, gateway, init, mid }
}

fn client_error(progress: ClientProgress) -> ClientCoreError {
    match progress {
        ClientProgress::Failed { error } => error,
        ClientProgress::Continue { .. } => panic!("the client went on"),
        ClientProgress::Finished { .. } => panic!("the client finished"),
    }
}

fn client_continues(progress: ClientProgress) -> (ClientHandshake, Vec<u8>) {
    match progress {
        ClientProgress::Continue { handshake, frame } => (handshake, frame),
        ClientProgress::Failed { error } => panic!("the client failed: {:?}", error),
        ClientProgress::Finished { .. } => panic!("the client finished too early"),
    }
}

fn client_keys(progress: ClientProgress) -> SharedKeys {
    match progress {
        ClientProgress::Finished { keys } => keys,
        ClientProgress::Failed { error } => panic!("the client failed: {:?}", error),
        ClientProgress::Continue { .. } => panic!("the client went on"),
    }
}

#[test]
fn the_first_message_is_identity_then_share() {
    let client_identity = identity(1);
    let gateway_identity = identity(2);
    let (client, init) = client_handshake(&client_identity, gateway_identity.public, [3u8; 32]);
    assert_eq!(init.len(), 64);
    assert_eq!(&init[..32], &client_identity.public);
    assert_eq!(&init[32..], &x25519_dalek::x25519([3u8; 32], x25519_dalek::X25519_BASEPOINT_BYTES));
    assert!(!client.awaits_status());
}

#[test]
fn both_sides_end_with_the_same_keys() {
    let client_identity = identity(1);
    let gateway_identity = identity(2);
    let started = start(&client_identity, &gateway_identity);
    assert_eq!(started.init.len(), 64);
    assert_eq!(started.mid.len(), 96);
    assert_eq!(&started.mid[..32], &x25519_dalek::x25519([4u8; 32], x25519_dalek::X25519_BASEPOINT_BYTES));
    let (client, third) = client_continues(started.client.on_event(TransportEvent::Frame(started.mid)));
    assert_eq!(third.len(), 64);
    assert!(client.awaits_status());
    match started.gateway.on_event(TransportEvent::Frame(third)) {
        GatewayProgress::Finished { keys, client_identity: seen, status } => {
            assert_eq!(status, vec![0u8]);
            assert_eq!(seen, client_identity.public);
            let ours = client_keys(client.on_event(TransportEvent::Frame(status)));
            assert_eq!(ours, keys);
            // the keys are what the key derivation gives for the shared secret
            let shared = x25519_dalek::x25519([3u8; 32], x25519_dalek::x25519([4u8; 32], x25519_dalek::X25519_BASEPOINT_BYTES));
            let mut okm = [0u8; 48];
            hkdf::Hkdf::<sha2::Sha256>::new(None, &shared).expand(&[], &mut okm).unwrap();
            assert_eq!(&ours.encryption_key[..], &okm[..16]);
            assert_eq!(&ours.mac_key[..], &okm[16..]);
        }
        GatewayProgress::Failed { error, .. } => panic!("the gateway failed: {:?}", error),
    }
}

#[test]
fn a_tampered_second_message_fails_the_handshake() {
    let client_identity = identity(1);
    let gateway_identity = identity(2);
    for position in [0usize, 17, 31, 32, 50, 95] {
        let started = start(&client_identity, &gateway_identity);
        let mut mid = started.mid;
        mid[position] ^= 0x40;
        let error = client_error(started.client.on_event(TransportEvent::Frame(mid)));
        assert!(matches!(error, ClientCoreError::HandshakeFailed { step: 2, .. }));
    }
}

#[test]
fn a_tampered_third_message_fails_the_handshake() {
    let client_identity = identity(1);
    let gateway_identity = identity(2);
    for position in [0usize, 13, 63] {
        let started = start(&client_identity, &gateway_identity);
        let (client, mut third) = client_continues(started.client.on_event(TransportEvent::Frame(started.mid)));
        third[position] ^= 0x01;
        match started.gateway.on_event(TransportEvent::Frame(third)) {
            GatewayProgress::Failed { error, status } => {
                assert_eq!(error, failed(3, HandshakeFailure::SignatureVerification));
                let status = status.unwrap();
                assert_eq!(status.len(), 1);
                assert_ne!(status[0], 0);
                let error = client_error(client.on_event(TransportEvent::Frame(status)));
                assert_eq!(error, failed(4, HandshakeFailure::Rejected));
            }
            GatewayProgress::Finished { .. } => panic!("the gateway accepted a tampered signature"),
        }
    }
}

#[test]
fn a_gateway_with_another_identity_is_refused() {
    let client_identity = identity(1);
    let gateway_identity = identity(2);
    let impostor = identity(9);
    let (client, init) = client_handshake(&client_identity, gateway_identity.public, [3u8; 32]);
    let (_, mid) = gateway_handshake(&impostor, init, [4u8; 32]).ok().unwrap();
    let error = client_error(client.on_event(TransportEvent::Frame(mid)));
    assert_eq!(error, failed(2, HandshakeFailure::SignatureVerification));
}

#[test]
fn a_client_that_lies_about_its_identity_is_refused() {
    let client_identity = identity(1);
    let gateway_identity = identity(2);
    let (client, mut init) = client_handshake(&client_identity, gateway_identity.public, [3u8; 32]);
    let other = identity(7);
    init[..32].copy_from_slice(&other.public);
    let (gateway, mid) = gateway_handshake(&gateway_identity, init, [4u8; 32]).ok().unwrap();
    let (_, third) = client_continues(client.on_event(TransportEvent::Frame(mid)));
    match gateway.on_event(TransportEvent::Frame(third)) {
        GatewayProgress::Failed { error, status } => {
            assert_eq!(error, failed(3, HandshakeFailure::SignatureVerification));
            assert_eq!(status, Some(vec![1u8]));
        }
        GatewayProgress::Finished { .. } => panic!("the gateway accepted a wrong identity"),
    }
}

#[test]
fn frames_of_the_wrong_length_are_malformed() {
    let client_identity = identity(1);
    let gateway_identity = identity(2);
    match gateway_handshake(&gateway_identity, vec![0u8; 63], [4u8; 32]) {
        Err(error) => assert_eq!(error, failed(1, HandshakeFailure::MalformedFrame)),
        Ok(_) => panic!("a short first message was accepted"),
    }
    match gateway_handshake(&gateway_identity, vec![0u8; 65], [4u8; 32]) {
        Err(error) => assert_eq!(error, failed(1, HandshakeFailure::MalformedFrame)),
        Ok(_) => panic!("a long first message was accepted"),
    }
    let started = start(&client_identity, &gateway_identity);
    let mut short = started.mid.clone();
    short.pop();
    assert_eq!(
        client_error(started.client.on_event(TransportEvent::Frame(short))),
        failed(2, HandshakeFailure::MalformedFrame)
    );
    match started.gateway.on_event(TransportEvent::Frame(vec![0u8; 10])) {
        GatewayProgress::Failed { error, status } => {
            assert_eq!(error, failed(3, HandshakeFailure::MalformedFrame));
            assert_eq!(status, Some(vec![1u8]));
        }
        GatewayProgress::Finished { .. } => panic!("a short third message was accepted"),
    }
    let started = start(&client_identity, &gateway_identity);
    let (client, _) = client_continues(started.client.on_event(TransportEvent::Frame(started.mid)));
    assert_eq!(
        client_error(client.on_event(TransportEvent::Frame(vec![0, 0]))),
        failed(4, HandshakeFailure::MalformedFrame)
    );
}

#[test]
fn a_share_that_contributes_nothing_is_rejected() {
    let gateway_identity = identity(2);
    let client_identity = identity(1);
    // the point zero has low order: whatever the secret, the shared secret is zero
    let mut init = client_identity.public.to_vec();
    init.extend_from_slice(&[0u8; 32]);
    match gateway_handshake(&gateway_identity, init, [4u8; 32]) {
        Err(error) => assert_eq!(error, failed(1, HandshakeFailure::KeyShareRejected)),
        Ok(_) => panic!("a share of low order was accepted"),
    }
    let (client, _) = client_handshake(&client_identity, gateway_identity.public, [3u8; 32]);
    let error = client_error(client.on_event(TransportEvent::Frame(vec![0u8; 96])));
    assert_eq!(error, failed(2, HandshakeFailure::KeyShareRejected));
}

#[test]
fn a_lost_transport_ends_the_handshake() {
    let client_identity = identity(1);
    let gateway_identity = identity(2);
    let started = start(&client_identity, &gateway_identity);
    assert_eq!(client_error(started.client.on_event(TransportEvent::Closed)), failed(2, HandshakeFailure::Transport));
    match started.gateway.on_event(TransportEvent::TimedOut) {
        GatewayProgress::Failed { error, status } => {
            assert_eq!(error, failed(3, HandshakeFailure::Timeout));
            assert_eq!(status, None);
        }
        GatewayProgress::Finished { .. } => panic!("the gateway finished without the client"),
    }
    let started = start(&client_identity, &gateway_identity);
    assert_eq!(client_error(started.client.on_event(TransportEvent::TimedOut)), failed(2, HandshakeFailure::Timeout));
    match started.gateway.on_event(TransportEvent::Closed) {
        GatewayProgress::Failed { error, status } => {
            assert_eq!(error, failed(3, HandshakeFailure::Transport));
            assert_eq!(status, None);
        }
        GatewayProgress::Finished { .. } => panic!("the gateway finished without the client"),
    }
    let started = start(&client_identity, &gateway_identity);
    let (client, _) = client_continues(started.client.on_event(TransportEvent::Frame(started.mid)));
    assert_eq!(client_error(client.on_event(TransportEvent::Closed)), failed(4, HandshakeFailure::Transport));
    let started = start(&client_identity, &gateway_identity);
    let (client, _) = client_continues(started.client.on_event(TransportEvent::Frame(started.mid)));
    assert_eq!(client_error(client.on_event(TransportEvent::TimedOut)), failed(4, HandshakeFailure::Timeout));
}
