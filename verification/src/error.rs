//! Error kinds of the client core.

use vstd::prelude::*;

verus! {

/// Why a registration handshake with the gateway was given up.
#[derive(Debug, Clone, Copy, PartialEq, Eq, Structural)]
pub enum HandshakeFailure {
    /// A frame had the wrong length or could not be parsed.
    MalformedFrame,
    /// The remote signature over both key shares did not verify.
    SignatureVerification,
    /// The remote Diffie-Hellman share was rejected.
    KeyShareRejected,
    /// The framed transport reported an error or was closed.
    Transport,
    /// No frame arrived within the gateway response timeout.
    Timeout,
    /// The gateway finished the handshake with a nonzero status.
    Rejected,
}

/// Errors surfaced by the client core.
#[derive(Debug, Clone, PartialEq, Eq)]
pub enum ClientCoreError {
    /// The long-term keys could not be loaded.
    KeyLoadFailed,
    /// No gateway details are stored for this client.
    GatewayDetailsMissing,
    /// The gateway identity in the stored details is not a valid public key.
    UnableToCreatePublicKeyFromGatewayId,
    /// The network view cannot route a packet.
    InsufficientNetworkTopology,
    /// The registration handshake failed at `step` (1 to 4).
    HandshakeFailed { step: u8, reason: HandshakeFailure },
    /// The gateway session was closed.
    GatewaySessionClosed,
    /// A batch could not be handed to the gateway session.
    MixTrafficSendFailed,
    /// Tasks did not acknowledge shutdown before the global deadline.
    SupervisorDeadlineExceeded,
    /// A consumer of received messages was already registered.
    ConsumerAlreadyRegistered,
    /// A producer of input messages was already registered.
    ProducerAlreadyRegistered,
    /// The received-buffer controller no longer accepts requests.
    FailedToRegisterReceiver,
    /// The key store failed.
    KeyStorageError { source: String },
    /// The gateway details store failed.
    GatewayDetailsStorageError { source: String },
    /// The reply storage backend failed.
    SurbStorageError { source: String },
    /// The credential store failed.
    CredentialStorageError { source: String },
}

/// Non-fatal conditions reported on the telemetry channel.
#[derive(Debug, Clone, Copy, PartialEq, Eq, Structural)]
pub enum TelemetryEvent {
    /// An inbound frame could be decrypted neither with the local key nor with a reply key.
    UndecryptableInbound,
    /// A fragment ran out of retransmissions without being acknowledged.
    FragmentTimeout { fragment_id: u128 },
}

impl ClientCoreError {
    /// A copy of the error.
    pub fn duplicate(&self) -> (copy: ClientCoreError)
        ensures
            copy == *self,
    {
        match self {
            ClientCoreError::KeyLoadFailed => ClientCoreError::KeyLoadFailed,
            ClientCoreError::GatewayDetailsMissing => ClientCoreError::GatewayDetailsMissing,
            ClientCoreError::UnableToCreatePublicKeyFromGatewayId => {
                ClientCoreError::UnableToCreatePublicKeyFromGatewayId
            },
            ClientCoreError::InsufficientNetworkTopology => {
                ClientCoreError::InsufficientNetworkTopology
            },
            ClientCoreError::HandshakeFailed { step, reason } => ClientCoreError::HandshakeFailed {
                step: *step,
                reason: *reason,
            },
            ClientCoreError::GatewaySessionClosed => ClientCoreError::GatewaySessionClosed,
            ClientCoreError::MixTrafficSendFailed => ClientCoreError::MixTrafficSendFailed,
            ClientCoreError::SupervisorDeadlineExceeded => {
                ClientCoreError::SupervisorDeadlineExceeded
            },
            ClientCoreError::ConsumerAlreadyRegistered => ClientCoreError::ConsumerAlreadyRegistered,
            ClientCoreError::ProducerAlreadyRegistered => ClientCoreError::ProducerAlreadyRegistered,
            ClientCoreError::FailedToRegisterReceiver => ClientCoreError::FailedToRegisterReceiver,
            ClientCoreError::KeyStorageError { source } => ClientCoreError::KeyStorageError {
                source: source.clone(),
            },
            ClientCoreError::GatewayDetailsStorageError { source } => {
                ClientCoreError::GatewayDetailsStorageError { source: source.clone() }
            },
            ClientCoreError::SurbStorageError { source } => ClientCoreError::SurbStorageError {
                source: source.clone(),
            },
            ClientCoreError::CredentialStorageError { source } => {
                ClientCoreError::CredentialStorageError { source: source.clone() }
            },
        }
    }

    /// True for the errors that may only arise while the client starts.
    pub open spec fn is_initialisation(self) -> bool {
        self is KeyLoadFailed || self is GatewayDetailsMissing
            || self is UnableToCreatePublicKeyFromGatewayId
            || self is InsufficientNetworkTopology || self is HandshakeFailed
    }

    /// True for the errors that cascade into a shutdown of every task.
    pub open spec fn is_runtime_fatal(self) -> bool {
        self is GatewaySessionClosed || self is MixTrafficSendFailed
            || self is SupervisorDeadlineExceeded
    }
}

} // verus!
