//! The mix traffic controller and the frames that cross the connection to
//! the gateway. The controller is the only writer into the gateway
//! session: it turns each batch of packets into frames, one per packet.
//!
//! A frame is one byte that tells its kind, followed by its content.

use vstd::prelude::*;
use crate::bytes::{append_bytes, bytes_equal, copy_range};
use crate::crypto::{first_bytes, hmac_sha256, hmac_sha256_output};
use crate::error::ClientCoreError;

verus! {

pub const FRAME_HANDSHAKE: u8 = 1;

pub const FRAME_MIXNET_PACKET: u8 = 2;

pub const FRAME_ACK: u8 = 3;

pub const FRAME_CONTROL_REQUEST: u8 = 4;

pub const FRAME_CONTROL_RESPONSE: u8 = 5;

/// A frame on the connection to the gateway.
#[derive(Debug, Clone, PartialEq, Eq)]
pub enum GatewayFrame {
    /// A message of the registration handshake.
    Handshake(Vec<u8>),
    /// A Sphinx packet of fixed size.
    MixnetPacket(Vec<u8>),
    /// An acknowledgement.
    Ack(Vec<u8>),
    /// A request about bandwidth credit.
    ControlRequest(Vec<u8>),
    /// The answer to a request about bandwidth credit.
    ControlResponse(Vec<u8>),
}

/// The mathematical content of a frame.
pub enum FrameView {
    Handshake(Seq<u8>),
    MixnetPacket(Seq<u8>),
    Ack(Seq<u8>),
    ControlRequest(Seq<u8>),
    ControlResponse(Seq<u8>),
}

impl View for GatewayFrame {
    type V = FrameView;

    open spec fn view(&self) -> FrameView {
        match self {
            GatewayFrame::Handshake(content) => FrameView::Handshake(content@),
            GatewayFrame::MixnetPacket(content) => FrameView::MixnetPacket(content@),
            GatewayFrame::Ack(content) => FrameView::Ack(content@),
            GatewayFrame::ControlRequest(content) => FrameView::ControlRequest(content@),
            GatewayFrame::ControlResponse(content) => FrameView::ControlResponse(content@),
        }
    }
}

/// The bytes of a frame.
pub open spec fn frame_bytes(frame: FrameView) -> Seq<u8> {
    match frame {
        FrameView::Handshake(content) => seq![FRAME_HANDSHAKE] + content,
        FrameView::MixnetPacket(content) => seq![FRAME_MIXNET_PACKET] + content,
        FrameView::Ack(content) => seq![FRAME_ACK] + content,
        FrameView::ControlRequest(content) => seq![FRAME_CONTROL_REQUEST] + content,
        FrameView::ControlResponse(content) => seq![FRAME_CONTROL_RESPONSE] + content,
    }
}

/// The frame that bytes stand for; `None` for no bytes or an unknown kind.
pub open spec fn parsed_frame(bytes: Seq<u8>) -> Option<FrameView> {
    if bytes.len() == 0 {
        None
    } else {
        let content = bytes.subrange(1, bytes.len() as int);
        if bytes[0] == FRAME_HANDSHAKE {
            Some(FrameView::Handshake(content))
        } else if bytes[0] == FRAME_MIXNET_PACKET {
            Some(FrameView::MixnetPacket(content))
        } else if bytes[0] == FRAME_ACK {
            Some(FrameView::Ack(content))
        } else if bytes[0] == FRAME_CONTROL_REQUEST {
            Some(FrameView::ControlRequest(content))
        } else if bytes[0] == FRAME_CONTROL_RESPONSE {
            Some(FrameView::ControlResponse(content))
        } else {
            None
        }
    }
}

impl GatewayFrame {
    /// Writes the frame to bytes.
    pub fn to_bytes(&self) -> (bytes: Vec<u8>)
        ensures
            bytes@ == frame_bytes(self@),
    {
        let mut bytes: Vec<u8> = Vec::new();
        match self {
            GatewayFrame::Handshake(content) => {
                bytes.push(FRAME_HANDSHAKE);
                append_bytes(&mut bytes, content.as_slice());
            },
            GatewayFrame::MixnetPacket(content) => {
                bytes.push(FRAME_MIXNET_PACKET);
                append_bytes(&mut bytes, content.as_slice());
            },
            GatewayFrame::Ack(content) => {
                bytes.push(FRAME_ACK);
                append_bytes(&mut bytes, content.as_slice());
            },
            GatewayFrame::ControlRequest(content) => {
                bytes.push(FRAME_CONTROL_REQUEST);
                append_bytes(&mut bytes, content.as_slice());
            },
            GatewayFrame::ControlResponse(content) => {
                bytes.push(FRAME_CONTROL_RESPONSE);
                append_bytes(&mut bytes, content.as_slice());
            },
        }
        bytes
    }

    /// Reads a frame; fails on no bytes or an unknown kind.
    pub fn from_bytes(bytes: &[u8]) -> (frame: Option<GatewayFrame>)
        ensures
            frame is Some <==> parsed_frame(bytes@) is Some,
            frame is Some ==> frame.unwrap()@ == parsed_frame(bytes@).unwrap(),
    {
        if bytes.len() == 0 {
            return None;
        }
        let kind = bytes[0];
        if kind != FRAME_HANDSHAKE && kind != FRAME_MIXNET_PACKET && kind != FRAME_ACK && kind
            != FRAME_CONTROL_REQUEST && kind != FRAME_CONTROL_RESPONSE {
            return None;
        }
        let content = copy_range(bytes, 1, bytes.len());
        if kind == FRAME_HANDSHAKE {
            Some(GatewayFrame::Handshake(content))
        } else if kind == FRAME_MIXNET_PACKET {
            Some(GatewayFrame::MixnetPacket(content))
        } else if kind == FRAME_ACK {
            Some(GatewayFrame::Ack(content))
        } else if kind == FRAME_CONTROL_REQUEST {
            Some(GatewayFrame::ControlRequest(content))
        } else {
            Some(GatewayFrame::ControlResponse(content))
        }
    }
}

/// Reading the bytes of a frame gives the frame.
pub proof fn lemma_frame_round_trip(frame: FrameView)
    ensures
        parsed_frame(frame_bytes(frame)) == Some(frame),
{
    let bytes = frame_bytes(frame);
    match frame {
        FrameView::Handshake(content) => {
            assert(bytes.subrange(1, bytes.len() as int) =~= content);
        },
        FrameView::MixnetPacket(content) => {
            assert(bytes.subrange(1, bytes.len() as int) =~= content);
        },
        FrameView::Ack(content) => {
            assert(bytes.subrange(1, bytes.len() as int) =~= content);
        },
        FrameView::ControlRequest(content) => {
            assert(bytes.subrange(1, bytes.len() as int) =~= content);
        },
        FrameView::ControlResponse(content) => {
            assert(bytes.subrange(1, bytes.len() as int) =~= content);
        },
    }
}

/// Length of the tag that authenticates a frame.
pub const MAC_SIZE: usize = 32;

/// A frame followed by its tag under the key shared with the gateway.
pub open spec fn sealed_frame(mac_key: Seq<u8>, frame: Seq<u8>) -> Seq<u8> {
    frame + first_bytes(hmac_sha256_output(mac_key, frame), MAC_SIZE as nat)
}

/// The frame inside sealed bytes, if the tag at their end is the frame's tag.
pub open spec fn opened_frame(mac_key: Seq<u8>, sealed: Seq<u8>) -> Option<Seq<u8>> {
    if sealed.len() < MAC_SIZE {
        None
    } else {
        let frame = sealed.subrange(0, sealed.len() - MAC_SIZE);
        let tag = sealed.subrange(sealed.len() - MAC_SIZE, sealed.len() as int);
        if tag == first_bytes(hmac_sha256_output(mac_key, frame), MAC_SIZE as nat) {
            Some(frame)
        } else {
            None
        }
    }
}

/// Appends to a frame its tag under the key shared with the gateway.
pub fn seal_frame(mac_key: &[u8; 32], frame: &[u8]) -> (sealed: Vec<u8>)
    ensures
        sealed@ == sealed_frame(mac_key@, frame@),
{
    let tag = hmac_sha256(mac_key.as_slice(), frame);
    let mut sealed: Vec<u8> = Vec::new();
    append_bytes(&mut sealed, frame);
    append_bytes(&mut sealed, tag.as_slice());
    assert(tag@ =~= first_bytes(hmac_sha256_output(mac_key@, frame@), MAC_SIZE as nat));
    sealed
}

/// Checks the tag at the end of sealed bytes and hands out the frame.
pub fn open_sealed_frame(mac_key: &[u8; 32], sealed: &[u8]) -> (frame: Option<Vec<u8>>)
    ensures
        frame is Some <==> opened_frame(mac_key@, sealed@) is Some,
        frame is Some ==> frame.unwrap()@ == opened_frame(mac_key@, sealed@).unwrap(),
{
    if sealed.len() < MAC_SIZE {
        return None;
    }
    let frame = copy_range(sealed, 0, sealed.len() - MAC_SIZE);
    let tag = copy_range(sealed, sealed.len() - MAC_SIZE, sealed.len());
    let expected = hmac_sha256(mac_key.as_slice(), frame.as_slice());
    assert(expected@ =~= first_bytes(hmac_sha256_output(mac_key@, frame@), MAC_SIZE as nat));
    if bytes_equal(tag.as_slice(), expected.as_slice()) {
        Some(frame)
    } else {
        None
    }
}

/// A frame that was sealed with a key opens with that key.
pub proof fn lemma_sealed_frame_opens(mac_key: Seq<u8>, frame: Seq<u8>)
    ensures
        opened_frame(mac_key, sealed_frame(mac_key, frame)) == Some(frame),
{
    let sealed = sealed_frame(mac_key, frame);
    assert(sealed.subrange(0, sealed.len() - MAC_SIZE) =~= frame);
    assert(sealed.subrange(sealed.len() - MAC_SIZE, sealed.len() as int) =~= first_bytes(
        hmac_sha256_output(mac_key, frame),
        MAC_SIZE as nat,
    ));
}

/// A Sphinx packet with the node that the gateway forwards it to.
#[derive(Debug, Clone, PartialEq, Eq)]
pub struct MixPacket {
    pub first_hop: u128,
    pub packet: Vec<u8>,
}

/// The frames of a batch: one mixnet frame per packet, in the order of the
/// batch, each sealed with the key shared with the gateway.
pub open spec fn batch_frames(mac_key: Seq<u8>, batch: Seq<MixPacket>) -> Seq<Seq<u8>> {
    Seq::new(
        batch.len(),
        |i: int| sealed_frame(mac_key, frame_bytes(FrameView::MixnetPacket(batch[i].packet@))),
    )
}

/// Every packet of the batch has the size that the session carries.
pub open spec fn batch_fits(batch: Seq<MixPacket>, packet_size: usize) -> bool {
    forall|i: int| 0 <= i < batch.len() ==> (#[trigger] batch[i]).packet@.len() == packet_size
}

/// The byte strings that a vector of vectors holds.
pub open spec fn byte_views(frames: Seq<Vec<u8>>) -> Seq<Seq<u8>> {
    Seq::new(frames.len(), |i: int| frames[i]@)
}

/// The single writer into the gateway session.
#[derive(Debug, Clone, Copy, PartialEq, Eq, Structural)]
pub struct MixTrafficController {
    packet_size: usize,
    running: bool,
    sent: u64,
}

impl MixTrafficController {
    pub closed spec fn packet_size(&self) -> usize {
        self.packet_size
    }

    /// False once the session has refused a batch.
    pub closed spec fn running(&self) -> bool {
        self.running
    }

    /// How many packets were handed to the session.
    pub closed spec fn sent(&self) -> u64 {
        self.sent
    }

    /// A controller for a session that carries packets of `packet_size` bytes.
    pub fn new(packet_size: usize) -> (controller: MixTrafficController)
        ensures
            controller.packet_size() == packet_size,
            controller.running(),
            controller.sent() == 0,
    {
        MixTrafficController { packet_size, running: true, sent: 0 }
    }

    pub fn is_running(&self) -> (running: bool)
        ensures
            running == self.running(),
    {
        self.running
    }

    /// How many packets were handed to the session so far.
    pub fn sent_count(&self) -> (n: u64)
        ensures
            n == self.sent(),
    {
        self.sent
    }

    /// Turns a batch into the frames to push into the session sink.
    /// A batch with a packet of the wrong size is refused whole, and so is
    /// every batch once the controller has terminated.
    pub fn frames_for(&mut self, mac_key: &[u8; 32], batch: &Vec<MixPacket>) -> (res: Result<
        Vec<Vec<u8>>,
        ClientCoreError,
    >)
        ensures
            final(self).packet_size() == old(self).packet_size(),
            final(self).running() == old(self).running(),
            res is Ok <==> old(self).running() && batch_fits(batch@, old(self).packet_size()),
            res is Err ==> res->Err_0 == ClientCoreError::MixTrafficSendFailed && final(self).sent()
                == old(self).sent(),
            res is Ok ==> byte_views(res->Ok_0@) == batch_frames(mac_key@, batch@),
            res is Ok ==> final(self).sent() == if old(self).sent() + batch@.len() > u64::MAX {
                u64::MAX
            } else {
                (old(self).sent() + batch@.len()) as u64
            },
    {
        if !self.running {
            return Err(ClientCoreError::MixTrafficSendFailed);
        }
        let mut frames: Vec<Vec<u8>> = Vec::new();
        let mut i: usize = 0;
        while i < batch.len()
            invariant
                i <= batch@.len(),
                frames@.len() == i,
                forall|j: int| 0 <= j < i ==> (#[trigger] batch@[j]).packet@.len()
                    == self.packet_size,
                forall|j: int|
                    0 <= j < i ==> (#[trigger] frames@[j])@ == sealed_frame(
                        mac_key@,
                        frame_bytes(FrameView::MixnetPacket(batch@[j].packet@)),
                    ),
            decreases batch@.len() - i,
        {
            if batch[i].packet.len() != self.packet_size {
                return Err(ClientCoreError::MixTrafficSendFailed);
            }
            let mut frame: Vec<u8> = Vec::new();
            frame.push(FRAME_MIXNET_PACKET);
            append_bytes(&mut frame, batch[i].packet.as_slice());
            frames.push(seal_frame(mac_key, frame.as_slice()));
            i += 1;
        }
        assert(byte_views(frames@) =~= batch_frames(mac_key@, batch@));
        let count: u64 = batch.len() as u64;
        self.sent = self.sent.saturating_add(count);
        Ok(frames)
    }

    /// Takes note of what the session sink said to a push. A refusal ends
    /// the controller for good, which in turn shuts the client down.
    pub fn on_sink_result(&mut self, accepted: bool) -> (res: Result<(), ClientCoreError>)
        ensures
            final(self).packet_size() == old(self).packet_size(),
            final(self).sent() == old(self).sent(),
            final(self).running() == (old(self).running() && accepted),
            res is Ok <==> accepted,
            res is Err ==> res->Err_0 == ClientCoreError::MixTrafficSendFailed,
    {
        if accepted {
            Ok(())
        } else {
            self.running = false;
            Err(ClientCoreError::MixTrafficSendFailed)
        }
    }
}

} // verus!
