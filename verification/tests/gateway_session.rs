use mixnet_core::base_client::{CredentialsToggle, GatewaySessionPlan};
use mixnet_core::error::ClientCoreError;
use mixnet_core::gateway_session::{authentication_steps, AuthenticationStep, GatewaySession, InboundFrame};
use mixnet_core::handshake::{IdentityKeyPair, SharedKeys};
use mixnet_core::mix_traffic::{seal_frame, GatewayFrame, MixPacket, MixTrafficController};

fn keys() -> SharedKeys {
    SharedKeys { encryption_key: [1; 16], mac_key: [2; 32] }
}

fn plan(shared_key: Option<SharedKeys>, credentials: CredentialsToggle) -> GatewaySessionPlan {
    GatewaySessionPlan {
        gateway_listener: "ws://gateway".to_string(),
        gateway_identity: [3; 32],
        identity: IdentityKeyPair { secret: [4; 32], public: [5; 32] },
        shared_key,
        response_timeout_ms: 1000,
        credentials,
    }
}

#[test]
fn authentication_takes_its_steps_in_order() {
    let (first, then, last) = (AuthenticationStep::Handshake, AuthenticationStep::Authenticate, AuthenticationStep::SpendCredential);
    assert_eq!(authentication_steps(&plan(None, CredentialsToggle::Enabled)), vec![first, then, last]);
    assert_eq!(authentication_steps(&plan(None, CredentialsToggle::Disabled)), vec![first, then]);
    assert_eq!(authentication_steps(&plan(Some(keys()), CredentialsToggle::Enabled)), vec![then, last]);
    assert_eq!(authentication_steps(&plan(Some(keys()), CredentialsToggle::Disabled)), vec![then]);
}

#[test]
fn what_arrives_is_sorted_by_its_kind() {
    let session = GatewaySession::new(keys(), CredentialsToggle::Disabled);
    assert_eq!(session.mac_key(), [2; 32]);
    let sealed = |frame: GatewayFrame| seal_frame(&[2; 32], &frame.to_bytes());
    assert_eq!(session.classify(&sealed(GatewayFrame::MixnetPacket(vec![1, 2]))), InboundFrame::Mixnet(vec![1, 2]));
    assert_eq!(session.classify(&sealed(GatewayFrame::Ack(vec![3]))), InboundFrame::Ack(vec![3]));
    assert_eq!(session.classify(&sealed(GatewayFrame::ControlResponse(vec![]))), InboundFrame::ControlResponse(vec![]));
    // kinds that only a client sends
    assert_eq!(session.classify(&sealed(GatewayFrame::ControlRequest(vec![4]))), InboundFrame::Discarded);
    assert_eq!(session.classify(&sealed(GatewayFrame::Handshake(vec![4]))), InboundFrame::Discarded);
    // no kind at all, or one that does not exist
    assert_eq!(session.classify(&seal_frame(&[2; 32], &[])), InboundFrame::Discarded);
    assert_eq!(session.classify(&seal_frame(&[2; 32], &[9, 9])), InboundFrame::Discarded);
}

#[test]
fn what_does_not_carry_the_tag_of_the_gateway_is_discarded() {
    let session = GatewaySession::new(keys(), CredentialsToggle::Disabled);
    let frame = GatewayFrame::MixnetPacket(vec![1, 2]).to_bytes();
    assert_eq!(session.classify(&frame), InboundFrame::Discarded);
    assert_eq!(session.classify(&seal_frame(&[9; 32], &frame)), InboundFrame::Discarded);
    let mut changed = seal_frame(&[2; 32], &frame);
    changed[1] ^= 1;
    assert_eq!(session.classify(&changed), InboundFrame::Discarded);
    assert_eq!(session.classify(&[]), InboundFrame::Discarded);
}

#[test]
fn what_the_mix_traffic_controller_sends_the_other_side_accepts() {
    let mut controller = MixTrafficController::new(3);
    let frames = controller.frames_for(&[2; 32], &vec![MixPacket { first_hop: 1, packet: vec![7, 8, 9] }]).unwrap();
    let session = GatewaySession::new(keys(), CredentialsToggle::Enabled);
    assert_eq!(session.classify(&frames[0]), InboundFrame::Mixnet(vec![7, 8, 9]));
}

#[test]
fn a_transport_error_closes_the_session_for_good() {
    let mut session = GatewaySession::new(keys(), CredentialsToggle::Disabled);
    assert!(session.is_open());
    assert_eq!(session.on_transport_error(), ClientCoreError::GatewaySessionClosed);
    assert!(!session.is_open());
    assert_eq!(session.on_transport_error(), ClientCoreError::GatewaySessionClosed);
    assert!(!session.is_open());
}
