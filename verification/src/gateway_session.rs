//! The session with the gateway, once it is authenticated: what arrives is
//! checked against the shared key and sorted by its kind.

use vstd::prelude::*;
use crate::base_client::{CredentialsToggle, GatewaySessionPlan};
use crate::error::ClientCoreError;
use crate::handshake::SharedKeys;
use crate::mix_traffic::{
    open_sealed_frame, opened_frame, parsed_frame, FrameView, GatewayFrame,
};

verus! {

/// A step of the authentication with the gateway.
#[derive(Debug, Clone, Copy, PartialEq, Eq, Structural)]
pub enum AuthenticationStep {
    /// No key is shared yet: the registration handshake establishes one.
    Handshake,
    /// The client proves that it holds the shared key.
    Authenticate,
    /// Bandwidth credentials are spent from the credential store.
    SpendCredential,
}

/// The steps of the authentication, in order: the handshake where no key
/// is shared yet, the authentication itself, and the spending of
/// credentials unless they are disabled.
pub open spec fn steps_of(has_key: bool, credentials_enabled: bool) -> Seq<AuthenticationStep> {
    let first = if has_key {
        Seq::<AuthenticationStep>::empty()
    } else {
        seq![AuthenticationStep::Handshake]
    };
    let last = if credentials_enabled {
        seq![AuthenticationStep::SpendCredential]
    } else {
        Seq::<AuthenticationStep>::empty()
    };
    first + seq![AuthenticationStep::Authenticate] + last
}

/// The steps that the authentication of a planned session takes.
pub fn authentication_steps(plan: &GatewaySessionPlan) -> (steps: Vec<AuthenticationStep>)
    ensures
        steps@ == steps_of(plan.shared_key is Some, plan.credentials is Enabled),
{
    let mut steps: Vec<AuthenticationStep> = Vec::new();
    if plan.shared_key.is_none() {
        steps.push(AuthenticationStep::Handshake);
    }
    steps.push(AuthenticationStep::Authenticate);
    if plan.credentials.is_enabled() {
        steps.push(AuthenticationStep::SpendCredential);
    }
    assert(steps@ =~= steps_of(plan.shared_key is Some, plan.credentials is Enabled));
    steps
}

/// What arrived from the gateway.
#[derive(Debug, Clone, PartialEq, Eq)]
pub enum InboundFrame {
    /// An unwrapped Sphinx payload, for the received-messages buffer.
    Mixnet(Vec<u8>),
    /// An ack, for the real traffic controller.
    Ack(Vec<u8>),
    /// An answer about bandwidth credit.
    ControlResponse(Vec<u8>),
    /// Bytes that do not carry the tag of the gateway, or a frame of a
    /// kind that a gateway does not send.
    Discarded,
}

/// What sealed bytes are to the client.
pub open spec fn classified(mac_key: Seq<u8>, sealed: Seq<u8>) -> Option<FrameView> {
    match opened_frame(mac_key, sealed) {
        None => None,
        Some(frame) => match parsed_frame(frame) {
            Some(FrameView::MixnetPacket(content)) => Some(FrameView::MixnetPacket(content)),
            Some(FrameView::Ack(content)) => Some(FrameView::Ack(content)),
            Some(FrameView::ControlResponse(content)) => Some(FrameView::ControlResponse(content)),
            _ => None,
        },
    }
}

/// An authenticated session with the gateway.
#[derive(Debug, Clone, Copy, PartialEq, Eq)]
pub struct GatewaySession {
    keys: SharedKeys,
    credentials: CredentialsToggle,
    open: bool,
}

impl GatewaySession {
    pub closed spec fn keys(&self) -> SharedKeys {
        self.keys
    }

    pub closed spec fn credentials(&self) -> CredentialsToggle {
        self.credentials
    }

    /// False once the transport has failed.
    pub closed spec fn open(&self) -> bool {
        self.open
    }

    pub fn new(keys: SharedKeys, credentials: CredentialsToggle) -> (session: GatewaySession)
        ensures
            session.keys() == keys,
            session.credentials() == credentials,
            session.open(),
    {
        GatewaySession { keys, credentials, open: true }
    }

    pub fn is_open(&self) -> (open: bool)
        ensures
            open == self.open(),
    {
        self.open
    }

    /// The key that authenticates the frames of this session.
    pub fn mac_key(&self) -> (key: [u8; 32])
        ensures
            key == self.keys().mac_key,
    {
        self.keys.mac_key
    }

    /// Checks the tag of what arrived and sorts it by its kind.
    pub fn classify(&self, sealed: &[u8]) -> (inbound: InboundFrame)
        ensures
            match classified(self.keys().mac_key@, sealed@) {
                None => inbound is Discarded,
                Some(FrameView::MixnetPacket(content)) => inbound matches InboundFrame::Mixnet(p)
                    && p@ == content,
                Some(FrameView::Ack(content)) => inbound matches InboundFrame::Ack(a) && a@
                    == content,
                Some(FrameView::ControlResponse(content)) => inbound matches InboundFrame::ControlResponse(
                    c,
                ) && c@ == content,
                Some(_) => inbound is Discarded,
            },
    {
        let frame = match open_sealed_frame(&self.keys.mac_key, sealed) {
            Some(frame) => frame,
            None => {
                return InboundFrame::Discarded;
            },
        };
        match GatewayFrame::from_bytes(frame.as_slice()) {
            Some(GatewayFrame::MixnetPacket(payload)) => InboundFrame::Mixnet(payload),
            Some(GatewayFrame::Ack(raw_ack)) => InboundFrame::Ack(raw_ack),
            Some(GatewayFrame::ControlResponse(answer)) => InboundFrame::ControlResponse(answer),
            _ => InboundFrame::Discarded,
        }
    }

    /// The transport has failed: the session is over for good and the
    /// client shuts down. There is no reconnecting.
    pub fn on_transport_error(&mut self) -> (error: ClientCoreError)
        ensures
            error == ClientCoreError::GatewaySessionClosed,
            !final(self).open(),
            final(self).keys() == old(self).keys(),
            final(self).credentials() == old(self).credentials(),
    {
        self.open = false;
        ClientCoreError::GatewaySessionClosed
    }
}

} // verus!
