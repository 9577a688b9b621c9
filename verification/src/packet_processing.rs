//! What a provider does with a Sphinx packet that reaches it: it removes
//! the last layer and keeps the message for the client it is addressed to.

use vstd::prelude::*;
use crate::bytes::{array32_at, bytes_equal, copy_range};

verus! {

#[verifier::external_type_specification]
#[verifier::external_body]
pub struct ExSphinxError(sphinx_packet::Error);

/// Length of the address of a client.
pub const DESTINATION_ADDRESS_LENGTH: usize = 32;

/// Why a packet was not stored.
#[derive(Debug, Clone, Copy, PartialEq, Eq, Structural)]
pub enum MixProcessingError {
    ReceivedForwardHopError,
    NonMatchingRecipient,
    InvalidPayload,
    SphinxProcessingError,
    InvalidHopAddress,
}

/// What became of a packet.
#[derive(Debug, Clone, Copy, PartialEq, Eq, Structural)]
pub enum MixProcessingResult {
    ForwardHop,
    FinalHop,
}

impl From<sphinx_packet::Error> for MixProcessingError {
    /// Every failure of the packet library is one and the same error here.
    fn from(_error: sphinx_packet::Error) -> (error: MixProcessingError) {
        MixProcessingError::SphinxProcessingError
    }
}

impl vstd::std_specs::convert::FromSpecImpl<sphinx_packet::Error> for MixProcessingError {
    open spec fn obeys_from_spec() -> bool {
        true
    }

    open spec fn from_spec(error: sphinx_packet::Error) -> MixProcessingError {
        MixProcessingError::SphinxProcessingError
    }
}

/// What is stored for a client.
#[derive(Debug, Clone, PartialEq, Eq)]
pub struct StoreData {
    pub client_address: [u8; 32],
    pub client_surb_id: [u8; 16],
    pub message: Vec<u8>,
}

/// A packet with its last layer removed.
#[derive(Debug, Clone, PartialEq, Eq)]
pub enum UnwrappedPacket {
    /// The packet wants to travel on.
    ForwardHop,
    /// The packet has arrived: the client it is for, the identifier of the
    /// reply block it travelled on, and the payload with its padding.
    FinalHop { destination: [u8; 32], identifier: [u8; 16], payload: Vec<u8> },
}

/// An unwrapped packet with its fields as byte strings.
pub enum UnwrappedView {
    ForwardHop,
    FinalHop { destination: Seq<u8>, identifier: Seq<u8>, payload: Seq<u8> },
}

impl View for UnwrappedPacket {
    type V = UnwrappedView;

    open spec fn view(&self) -> UnwrappedView {
        match *self {
            UnwrappedPacket::ForwardHop => UnwrappedView::ForwardHop,
            UnwrappedPacket::FinalHop { destination, identifier, payload } => UnwrappedView::FinalHop {
                destination: destination@,
                identifier: identifier@,
                payload: payload@,
            },
        }
    }
}

/// What removing a layer from the packet in `raw` with `secret_key` gives,
/// if `raw` is a packet and the layer is one for that key.
pub uninterp spec fn sphinx_unwrapped(raw: Seq<u8>, secret_key: Seq<u8>) -> Option<UnwrappedView>;

/// The plaintext inside a payload, if the payload is padded as it should be.
pub uninterp spec fn payload_plaintext(payload: Seq<u8>) -> Option<Seq<u8>>;

/// Reads a Sphinx packet and removes a layer with the node's secret key.
///
/// Trusted: calls `SphinxPacket::from_bytes` and `SphinxPacket::process`,
/// which depend on the bytes and the key alone, and tells the two kinds of
/// `ProcessedPacketData` apart; the result is named.
#[verifier::external_body]
fn unwrap_packet(raw: &[u8], secret_key: &[u8; 32]) -> (res: Result<
    UnwrappedPacket,
    sphinx_packet::Error,
>)
    ensures
        res is Ok <==> sphinx_unwrapped(raw@, secret_key@) is Some,
        res is Ok ==> res->Ok_0@ == sphinx_unwrapped(raw@, secret_key@).unwrap(),
{
    let key = sphinx_packet::crypto::PrivateKey::from(*secret_key);
    match sphinx_packet::SphinxPacket::from_bytes(raw)?.process(&key)?.data {
        sphinx_packet::ProcessedPacketData::ForwardHop { .. } => Ok(UnwrappedPacket::ForwardHop),
        sphinx_packet::ProcessedPacketData::FinalHop { destination, identifier, payload } => Ok(
            UnwrappedPacket::FinalHop {
                destination: destination.as_bytes(),
                identifier,
                payload: payload.into_bytes(),
            },
        ),
    }
}

/// Removes the padding of a payload.
///
/// Trusted: calls `Payload::from_bytes` and `Payload::recover_plaintext`,
/// which fail on a payload that is too short or wrongly padded; the
/// result is named.
#[verifier::external_body]
fn recover_plaintext(payload: &[u8]) -> (plaintext: Option<Vec<u8>>)
    ensures
        plaintext is Some <==> payload_plaintext(payload@) is Some,
        plaintext is Some ==> plaintext.unwrap()@ == payload_plaintext(payload@).unwrap(),
{
    match sphinx_packet::payload::Payload::from_bytes(payload) {
        Ok(payload) => payload.recover_plaintext().ok(),
        Err(_) => None,
    }
}

/// The destination that opens a plaintext and the message that follows it.
pub open spec fn destination_and_message(plaintext: Seq<u8>) -> Option<(Seq<u8>, Seq<u8>)> {
    if plaintext.len() < DESTINATION_ADDRESS_LENGTH {
        None
    } else {
        Some(
            (
                plaintext.subrange(0, DESTINATION_ADDRESS_LENGTH as int),
                plaintext.subrange(DESTINATION_ADDRESS_LENGTH as int, plaintext.len() as int),
            ),
        )
    }
}

/// What a final hop comes to, given the plaintext that was recovered, if any.
pub open spec fn final_hop_outcome(
    client_address: Seq<u8>,
    recovered: Option<Seq<u8>>,
) -> Result<Seq<u8>, MixProcessingError> {
    match recovered {
        None => Err(MixProcessingError::InvalidPayload),
        Some(plaintext) => match destination_and_message(plaintext) {
            None => Err(MixProcessingError::InvalidPayload),
            Some((destination, message)) => if destination == client_address {
                Ok(message)
            } else {
                Err(MixProcessingError::NonMatchingRecipient)
            },
        },
    }
}

/// What is stored for a client, with its fields as byte strings.
pub struct StoreView {
    pub client_address: Seq<u8>,
    pub client_surb_id: Seq<u8>,
    pub message: Seq<u8>,
}

impl View for StoreData {
    type V = StoreView;

    open spec fn view(&self) -> StoreView {
        StoreView {
            client_address: self.client_address@,
            client_surb_id: self.client_surb_id@,
            message: self.message@,
        }
    }
}

/// What a packet comes to, given what removing its last layer gave.
pub open spec fn packet_outcome(unwrapped: Option<UnwrappedView>) -> Result<
    StoreView,
    MixProcessingError,
> {
    match unwrapped {
        None => Err(MixProcessingError::SphinxProcessingError),
        Some(UnwrappedView::ForwardHop) => Err(MixProcessingError::ReceivedForwardHopError),
        Some(UnwrappedView::FinalHop { destination, identifier, payload }) => match final_hop_outcome(
            destination,
            payload_plaintext(payload),
        ) {
            Ok(message) => Ok(
                StoreView { client_address: destination, client_surb_id: identifier, message },
            ),
            Err(error) => Err(error),
        },
    }
}

/// The result `res` is the outcome `outcome`.
pub open spec fn stored_as(
    res: Result<StoreData, MixProcessingError>,
    outcome: Result<StoreView, MixProcessingError>,
) -> bool {
    match outcome {
        Ok(stored) => res is Ok && res->Ok_0@ == stored,
        Err(error) => res == Err::<StoreData, MixProcessingError>(error),
    }
}

/// Splits a recovered plaintext into the destination and the message.
pub fn try_recover_destination_and_plaintext(plaintext: &[u8]) -> (parts: Option<([u8; 32],
    Vec<u8>)>)
    ensures
        parts is Some <==> destination_and_message(plaintext@) is Some,
        parts is Some ==> parts.unwrap().0@ == destination_and_message(plaintext@).unwrap().0
            && parts.unwrap().1@ == destination_and_message(plaintext@).unwrap().1,
{
    if plaintext.len() < DESTINATION_ADDRESS_LENGTH {
        return None;
    }
    let destination = array32_at(plaintext, 0);
    let message = copy_range(plaintext, DESTINATION_ADDRESS_LENGTH, plaintext.len());
    Some((destination, message))
}

/// Removes the last layer of Sphinx packets and prepares what is to be stored.
#[derive(Debug, Clone, Copy, PartialEq, Eq)]
pub struct PacketProcessor {
    secret_key: [u8; 32],
}

impl PacketProcessor {
    pub closed spec fn secret_key(&self) -> Seq<u8> {
        self.secret_key@
    }

    pub fn new(secret_key: [u8; 32]) -> (processor: PacketProcessor)
        ensures
            processor.secret_key() == secret_key@,
    {
        PacketProcessor { secret_key }
    }

    /// Decides what is stored for a packet that has arrived. The payload
    /// must open with the address that the header names; what follows is
    /// the message. `recovered` is the plaintext of the payload, if its
    /// padding could be removed.
    pub fn process_final_hop(
        &self,
        client_address: [u8; 32],
        surb_id: [u8; 16],
        recovered: Option<Vec<u8>>,
    ) -> (res: Result<StoreData, MixProcessingError>)
        ensures
            ({
                let outcome = final_hop_outcome(
                    client_address@,
                    match recovered {
                        Some(plaintext) => Some(plaintext@),
                        None => None,
                    },
                );
                &&& res is Ok <==> outcome is Ok
                &&& res is Err ==> res->Err_0 == outcome->Err_0
                &&& res is Ok ==> res->Ok_0.client_address == client_address
                    && res->Ok_0.client_surb_id
                    == surb_id && res->Ok_0.message@ == outcome->Ok_0
            }),
    {
        let plaintext = match recovered {
            Some(plaintext) => plaintext,
            None => {
                return Err(MixProcessingError::InvalidPayload);
            },
        };
        let (payload_destination, message) = match try_recover_destination_and_plaintext(
            plaintext.as_slice(),
        ) {
            Some(parts) => parts,
            None => {
                return Err(MixProcessingError::InvalidPayload);
            },
        };
        if !bytes_equal(client_address.as_slice(), payload_destination.as_slice()) {
            return Err(MixProcessingError::NonMatchingRecipient);
        }
        Ok(StoreData { client_address, client_surb_id: surb_id, message })
    }

    /// Decides what is stored for a packet whose last layer was removed.
    /// A packet that wants to travel on is refused with
    /// `ReceivedForwardHopError`; for one that has arrived the padding of
    /// the payload is removed and `process_final_hop` decides.
    pub fn process_unwrapped(&self, packet: UnwrappedPacket) -> (res: Result<
        StoreData,
        MixProcessingError,
    >)
        ensures
            stored_as(res, packet_outcome(Some(packet@))),
    {
        match packet {
            UnwrappedPacket::ForwardHop => Err(MixProcessingError::ReceivedForwardHopError),
            UnwrappedPacket::FinalHop { destination, identifier, payload } => {
                let recovered = recover_plaintext(payload.as_slice());
                self.process_final_hop(destination, identifier, recovered)
            },
        }
    }

    /// Processes a packet that reached the provider. A packet that cannot
    /// be read or unwrapped gives `SphinxProcessingError`, one that wants
    /// to travel on `ReceivedForwardHopError`; for one that has arrived the
    /// result is that of `process_final_hop`.
    pub fn process_sphinx_packet(&self, raw_packet_data: &[u8]) -> (res: Result<
        StoreData,
        MixProcessingError,
    >)
        ensures
            stored_as(res, packet_outcome(sphinx_unwrapped(raw_packet_data@, self.secret_key()))),
    {
        match unwrap_packet(raw_packet_data, &self.secret_key) {
            Ok(packet) => self.process_unwrapped(packet),
            Err(err) => Err(MixProcessingError::from(err)),
        }
    }
}

} // verus!
