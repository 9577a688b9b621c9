//! The base client: the handles that producers and consumers get, the
//! builder, and the order in which the components of the client start.

use vstd::prelude::*;
use futures::channel::mpsc::{UnboundedReceiver, UnboundedSender};
use crate::addressing::{identity_from_base58, identity_key_from_base58, Recipient};
use crate::config::{Config, DebugConfig, GatewayEndpointConfig};
use crate::cover_traffic::LoopCoverTrafficStream;
use crate::crypto::{basepoint_bytes, ed25519_public, ed25519_public_of, x25519};
use crate::error::ClientCoreError;
use crate::handshake::{public_share, IdentityKeyPair, SharedKeys};
use crate::lanes::LaneQueueLengths;
use crate::mix_traffic::MixTrafficController;
use crate::real_traffic::{
    InputMessage, RealMessagesController, RealTrafficConfig, DEFAULT_FRAGMENT_SIZE, DEFAULT_HOPS,
};
use crate::received_buffer::{ReceivedMessagesBufferController, ReconstructedMessage};
use crate::replies::ReplyControlRequest;
use crate::supervisor::TaskManager;
use crate::topology::TopologyAccessor;

verus! {

#[verifier::external_type_specification]
#[verifier::external_body]
#[verifier::reject_recursive_types(T)]
pub struct ExUnboundedSender<T>(UnboundedSender<T>);

#[verifier::external_type_specification]
#[verifier::external_body]
#[verifier::reject_recursive_types(T)]
pub struct ExUnboundedReceiver<T>(UnboundedReceiver<T>);

#[verifier::external_type_specification]
#[verifier::external_body]
#[verifier::reject_recursive_types(T)]
pub struct ExBoundedSender<T>(tokio::sync::mpsc::Sender<T>);

/// How many input messages the channel from the producer holds: a producer
/// waits while the real traffic controller is saturated.
pub const INPUT_CHANNEL_CAPACITY: usize = 1;

/// What a connection of the client's user tells the real traffic controller.
#[derive(Debug, Clone, PartialEq, Eq)]
pub enum ConnectionCommand {
    /// The connection was closed; its lane can be dropped.
    Close(u64),
    /// These connections are still open.
    ActiveConnections(Vec<u64>),
}

/// A request to the received-messages buffer controller.
pub enum ReceivedBufferMessage {
    /// A consumer announces the channel on which it wants complete messages.
    ReceiverAnnounce(UnboundedSender<Vec<ReconstructedMessage>>),
    /// The consumer goes away.
    ReceiverDisconnect,
}

/// The handle of a producer of input messages.
pub struct ClientInput {
    pub connection_command_sender: UnboundedSender<ConnectionCommand>,
    pub input_sender: tokio::sync::mpsc::Sender<InputMessage>,
}

/// The handle of a consumer of received messages.
pub struct ClientOutput {
    pub received_buffer_request_sender: UnboundedSender<ReceivedBufferMessage>,
}

/// Creates the channel on which a consumer receives complete messages.
///
/// Trusted: calls `futures::channel::mpsc::unbounded`; nothing is claimed of the two ends.
#[verifier::external_body]
fn reconstructed_messages_channel() -> (ends: (
    UnboundedSender<Vec<ReconstructedMessage>>,
    UnboundedReceiver<Vec<ReconstructedMessage>>,
)) {
    futures::channel::mpsc::unbounded()
}

/// Sends the announcement of a receiver to the received-messages buffer
/// controller and says whether the channel took it.
///
/// Trusted: calls `UnboundedSender::unbounded_send`, which fails when the
/// receiving end is gone; nothing is claimed of the outcome.
#[verifier::external_body]
fn send_buffer_request(
    sender: &UnboundedSender<ReceivedBufferMessage>,
    request: ReceivedBufferMessage,
) -> (accepted: bool)
    requires
        request is ReceiverAnnounce,
{
    sender.unbounded_send(request).is_ok()
}

/// The request that announces a receiver: it carries the end on which the
/// controller sends complete messages.
pub fn receiver_announcement(sender: UnboundedSender<Vec<ReconstructedMessage>>) -> (request:
    ReceivedBufferMessage)
    ensures
        request == ReceivedBufferMessage::ReceiverAnnounce(sender),
{
    ReceivedBufferMessage::ReceiverAnnounce(sender)
}

/// The result of a registration, given whether the announcement was accepted.
pub fn receiver_registration(
    accepted: bool,
    receiver: UnboundedReceiver<Vec<ReconstructedMessage>>,
) -> (res: Result<UnboundedReceiver<Vec<ReconstructedMessage>>, ClientCoreError>)
    ensures
        accepted ==> res == Ok::<UnboundedReceiver<Vec<ReconstructedMessage>>, ClientCoreError>(
            receiver,
        ),
        !accepted ==> res == Err::<UnboundedReceiver<Vec<ReconstructedMessage>>, ClientCoreError>(
            ClientCoreError::FailedToRegisterReceiver,
        ),
{
    if accepted {
        Ok(receiver)
    } else {
        Err(ClientCoreError::FailedToRegisterReceiver)
    }
}

impl ClientOutput {
    /// Announces a new receiver to the received-messages buffer controller
    /// and returns the end on which complete messages arrive. Fails with
    /// `FailedToRegisterReceiver` when the controller is gone. The handle
    /// itself stays as it is.
    pub fn register_receiver(&mut self) -> (res: Result<
        UnboundedReceiver<Vec<ReconstructedMessage>>,
        ClientCoreError,
    >)
        ensures
            *final(self) == *old(self),
            res is Err ==> res->Err_0 == ClientCoreError::FailedToRegisterReceiver,
    {
        let (reconstructed_sender, reconstructed_receiver) = reconstructed_messages_channel();
        let accepted = send_buffer_request(
            &self.received_buffer_request_sender,
            receiver_announcement(reconstructed_sender),
        );
        receiver_registration(accepted, reconstructed_receiver)
    }
}

/// The read-only state that the client shares with its user.
pub struct ClientState {
    pub shared_lane_queue_lengths: LaneQueueLengths,
    pub reply_controller_sender: UnboundedSender<ReplyControlRequest>,
    pub topology_accessor: TopologyAccessor,
}

/// Whether the producer's handle was handed out.
pub enum ClientInputStatus {
    AwaitingProducer { client_input: ClientInput },
    Connected,
}

impl ClientInputStatus {
    /// Hands the producer's handle out, once. A second registration fails
    /// with `ProducerAlreadyRegistered`.
    pub fn register_producer(&mut self) -> (res: Result<ClientInput, ClientCoreError>)
        ensures
            *final(self) is Connected,
            *old(self) is AwaitingProducer ==> res == Ok::<ClientInput, ClientCoreError>(
                old(self)->client_input,
            ),
            *old(self) is Connected ==> res == Err::<ClientInput, ClientCoreError>(
                ClientCoreError::ProducerAlreadyRegistered,
            ),
    {
        let mut status = ClientInputStatus::Connected;
        std::mem::swap(self, &mut status);
        match status {
            ClientInputStatus::AwaitingProducer { client_input } => Ok(client_input),
            ClientInputStatus::Connected => Err(ClientCoreError::ProducerAlreadyRegistered),
        }
    }
}

/// Whether the consumer's handle was handed out.
pub enum ClientOutputStatus {
    AwaitingConsumer { client_output: ClientOutput },
    Connected,
}

impl ClientOutputStatus {
    /// Hands the consumer's handle out, once. A second registration fails
    /// with `ConsumerAlreadyRegistered`.
    pub fn register_consumer(&mut self) -> (res: Result<ClientOutput, ClientCoreError>)
        ensures
            *final(self) is Connected,
            *old(self) is AwaitingConsumer ==> res == Ok::<ClientOutput, ClientCoreError>(
                old(self)->client_output,
            ),
            *old(self) is Connected ==> res == Err::<ClientOutput, ClientCoreError>(
                ClientCoreError::ConsumerAlreadyRegistered,
            ),
    {
        let mut status = ClientOutputStatus::Connected;
        std::mem::swap(self, &mut status);
        match status {
            ClientOutputStatus::AwaitingConsumer { client_output } => Ok(client_output),
            ClientOutputStatus::Connected => Err(ClientCoreError::ConsumerAlreadyRegistered),
        }
    }
}

/// Whether the gateway session spends bandwidth credentials while authenticating.
#[derive(Copy, Clone, PartialEq, Eq, Structural, Debug)]
pub enum CredentialsToggle {
    Enabled,
    Disabled,
}

impl CredentialsToggle {
    pub fn is_enabled(&self) -> (enabled: bool)
        ensures
            enabled <==> *self == CredentialsToggle::Enabled,
    {
        *self == CredentialsToggle::Enabled
    }

    pub fn is_disabled(&self) -> (disabled: bool)
        ensures
            disabled <==> *self == CredentialsToggle::Disabled,
    {
        *self == CredentialsToggle::Disabled
    }
}

impl From<bool> for CredentialsToggle {
    fn from(value: bool) -> (toggle: CredentialsToggle) {
        if value {
            CredentialsToggle::Enabled
        } else {
            CredentialsToggle::Disabled
        }
    }
}

impl vstd::std_specs::convert::FromSpecImpl<bool> for CredentialsToggle {
    open spec fn obeys_from_spec() -> bool {
        true
    }

    open spec fn from_spec(value: bool) -> CredentialsToggle {
        if value {
            CredentialsToggle::Enabled
        } else {
            CredentialsToggle::Disabled
        }
    }
}

/// An X25519 key pair; its public key is the destination of Sphinx packets.
#[derive(Debug, Clone, Copy, PartialEq, Eq)]
pub struct EncryptionKeyPair {
    pub secret: [u8; 32],
    pub public: [u8; 32],
}

/// The keys of a client.
#[derive(Debug, Clone, Copy, PartialEq, Eq)]
pub struct ManagedKeys {
    /// Long-term identity, for signing.
    pub identity: IdentityKeyPair,
    /// For the unwrapping of Sphinx packets.
    pub encryption: EncryptionKeyPair,
    /// The key from which the ack key of every packet is derived.
    pub ack_key: [u8; 32],
    /// The key shared with the gateway, once a handshake has established it.
    pub gateway_shared_key: Option<SharedKeys>,
}

impl ManagedKeys {
    /// The public keys belong to the secret keys.
    pub open spec fn wf(&self) -> bool {
        &&& self.identity.public@ == ed25519_public_of(self.identity.secret@)
        &&& self.encryption.public@ == public_share(self.encryption.secret@)
    }

    /// The keys of a new client, from 96 fresh random bytes: the secret
    /// identity key, the secret encryption key and the ack key. No key is
    /// shared with a gateway yet.
    pub fn from_secrets(
        identity_secret: [u8; 32],
        encryption_secret: [u8; 32],
        ack_key: [u8; 32],
    ) -> (keys: ManagedKeys)
        ensures
            keys.wf(),
            keys.identity.secret == identity_secret,
            keys.encryption.secret == encryption_secret,
            keys.ack_key == ack_key,
            keys.gateway_shared_key is None,
    {
        let base = basepoint_bytes();
        ManagedKeys {
            identity: IdentityKeyPair {
                secret: identity_secret,
                public: ed25519_public(&identity_secret),
            },
            encryption: EncryptionKeyPair {
                secret: encryption_secret,
                public: x25519(&encryption_secret, &base),
            },
            ack_key,
            gateway_shared_key: None,
        }
    }

    /// Keeps the key that the gateway session established.
    pub fn ensure_gateway_key(&mut self, shared_key: SharedKeys)
        ensures
            final(self).gateway_shared_key == Some(shared_key),
            final(self).identity == old(self).identity,
            final(self).encryption == old(self).encryption,
            final(self).ack_key == old(self).ack_key,
    {
        self.gateway_shared_key = Some(shared_key);
    }
}

/// How the client comes by its gateway.
#[derive(Debug, Clone, PartialEq, Eq)]
pub enum GatewaySetup {
    /// Keys and gateway details must be in the stores.
    MustLoad,
    /// The details are given; the keys must be in the store.
    Predefined { details: GatewayEndpointConfig },
    /// Register with the gateway of this identity.
    Specified { gateway_identity: String },
    /// Choose a gateway, by latency or at random, and register with it.
    New { by_latency: bool },
}

/// The keys and gateway details with which the client starts.
#[derive(Debug, Clone, PartialEq, Eq)]
pub struct InitialisationDetails {
    pub gateway_details: GatewayEndpointConfig,
    pub managed_keys: ManagedKeys,
}

/// What is to be done before the components start.
#[derive(Debug, Clone, PartialEq, Eq)]
pub enum InitialisationResult {
    /// Everything is at hand.
    Ready { details: InitialisationDetails },
    /// A gateway has to be registered with first; `keys` are the stored
    /// keys, where there are any.
    MustRegister { gateway_identity: Option<String>, by_latency: bool, keys: Option<ManagedKeys> },
}

/// Decides how the client initialises, from the setup method and from what
/// the key store and the gateway details store returned.
pub fn initialise_keys_and_gateway(
    setup_method: GatewaySetup,
    stored_keys: Result<Option<ManagedKeys>, String>,
    stored_details: Result<Option<GatewayEndpointConfig>, String>,
) -> (res: Result<InitialisationResult, ClientCoreError>)
    ensures
        stored_keys is Err ==> res == Err::<InitialisationResult, ClientCoreError>(
            ClientCoreError::KeyStorageError { source: stored_keys->Err_0 },
        ),
        stored_keys is Ok && stored_details is Err ==> res == Err::<
            InitialisationResult,
            ClientCoreError,
        >(ClientCoreError::GatewayDetailsStorageError { source: stored_details->Err_0 }),
        stored_keys is Ok && stored_details is Ok ==> match setup_method {
            GatewaySetup::MustLoad => {
                if stored_keys->Ok_0 is None {
                    res == Err::<InitialisationResult, ClientCoreError>(
                        ClientCoreError::KeyLoadFailed,
                    )
                } else if stored_details->Ok_0 is None {
                    res == Err::<InitialisationResult, ClientCoreError>(
                        ClientCoreError::GatewayDetailsMissing,
                    )
                } else {
                    res == Ok::<InitialisationResult, ClientCoreError>(
                        InitialisationResult::Ready {
                            details: InitialisationDetails {
                                gateway_details: stored_details->Ok_0.unwrap(),
                                managed_keys: stored_keys->Ok_0.unwrap(),
                            },
                        },
                    )
                }
            },
            GatewaySetup::Predefined { details } => {
                if stored_keys->Ok_0 is None {
                    res == Err::<InitialisationResult, ClientCoreError>(
                        ClientCoreError::KeyLoadFailed,
                    )
                } else {
                    res == Ok::<InitialisationResult, ClientCoreError>(
                        InitialisationResult::Ready {
                            details: InitialisationDetails {
                                gateway_details: details,
                                managed_keys: stored_keys->Ok_0.unwrap(),
                            },
                        },
                    )
                }
            },
            GatewaySetup::Specified { gateway_identity } => res == Ok::<
                InitialisationResult,
                ClientCoreError,
            >(
                InitialisationResult::MustRegister {
                    gateway_identity: Some(gateway_identity),
                    by_latency: false,
                    keys: stored_keys->Ok_0,
                },
            ),
            GatewaySetup::New { by_latency } => res == Ok::<InitialisationResult, ClientCoreError>(
                InitialisationResult::MustRegister {
                    gateway_identity: None,
                    by_latency,
                    keys: stored_keys->Ok_0,
                },
            ),
        },
{
    let keys = match stored_keys {
        Ok(keys) => keys,
        Err(source) => {
            return Err(ClientCoreError::KeyStorageError { source });
        },
    };
    let stored = match stored_details {
        Ok(stored) => stored,
        Err(source) => {
            return Err(ClientCoreError::GatewayDetailsStorageError { source });
        },
    };
    match setup_method {
        GatewaySetup::MustLoad => {
            let managed_keys = match keys {
                Some(managed_keys) => managed_keys,
                None => {
                    return Err(ClientCoreError::KeyLoadFailed);
                },
            };
            match stored {
                Some(gateway_details) => Ok(
                    InitialisationResult::Ready {
                        details: InitialisationDetails { gateway_details, managed_keys },
                    },
                ),
                None => Err(ClientCoreError::GatewayDetailsMissing),
            }
        },
        GatewaySetup::Predefined { details } => match keys {
            Some(managed_keys) => Ok(
                InitialisationResult::Ready {
                    details: InitialisationDetails { gateway_details: details, managed_keys },
                },
            ),
            None => Err(ClientCoreError::KeyLoadFailed),
        },
        GatewaySetup::Specified { gateway_identity } => Ok(
            InitialisationResult::MustRegister {
                gateway_identity: Some(gateway_identity),
                by_latency: false,
                keys,
            },
        ),
        GatewaySetup::New { by_latency } => Ok(
            InitialisationResult::MustRegister { gateway_identity: None, by_latency, keys },
        ),
    }
}

/// The address of the client: its identity key, its encryption key and the
/// identity of its gateway. Fails when the stored gateway identity is no key.
pub fn mix_address(managed_keys: &ManagedKeys, gateway_config: &GatewayEndpointConfig) -> (res:
    Result<Recipient, ClientCoreError>)
    ensures
        res is Ok <==> identity_from_base58(gateway_config.gateway_id@) is Some,
        res is Err ==> res->Err_0 == ClientCoreError::UnableToCreatePublicKeyFromGatewayId,
        res is Ok ==> {
            &&& res->Ok_0.identity == managed_keys.identity.public
            &&& res->Ok_0.encryption_key == managed_keys.encryption.public
            &&& res->Ok_0.gateway@ == identity_from_base58(gateway_config.gateway_id@).unwrap()
        },
{
    match identity_key_from_base58(gateway_config.gateway_id.as_str()) {
        Some(gateway) => Ok(
            Recipient::new(managed_keys.identity.public, managed_keys.encryption.public, gateway),
        ),
        None => Err(ClientCoreError::UnableToCreatePublicKeyFromGatewayId),
    }
}

/// What the gateway session is opened with.
#[derive(Debug, Clone, PartialEq, Eq)]
pub struct GatewaySessionPlan {
    pub gateway_listener: String,
    pub gateway_identity: [u8; 32],
    pub identity: IdentityKeyPair,
    /// The key of an earlier session; without one a handshake comes first.
    pub shared_key: Option<SharedKeys>,
    pub response_timeout_ms: u64,
    pub credentials: CredentialsToggle,
}

/// Prepares the gateway session. Credentials are spent while
/// authenticating only if they are not disabled in the configuration and a
/// bandwidth controller exists.
pub fn start_gateway_client(
    config: &Config,
    gateway_config: GatewayEndpointConfig,
    managed_keys: &ManagedKeys,
    has_bandwidth_controller: bool,
) -> (res: Result<GatewaySessionPlan, ClientCoreError>)
    ensures
        res is Ok <==> identity_from_base58(gateway_config.gateway_id@) is Some,
        res is Err ==> res->Err_0 == ClientCoreError::UnableToCreatePublicKeyFromGatewayId,
        res is Ok ==> {
            let plan = res->Ok_0;
            &&& plan.gateway_listener == gateway_config.gateway_listener
            &&& plan.gateway_identity@ == identity_from_base58(gateway_config.gateway_id@).unwrap()
            &&& plan.identity == managed_keys.identity
            &&& plan.shared_key == managed_keys.gateway_shared_key
            &&& plan.response_timeout_ms
                == config.debug.gateway_connection.gateway_response_timeout_ms
            &&& plan.credentials is Enabled <==> has_bandwidth_controller
                && !config.client.disabled_credentials_mode
        },
{
    let gateway_identity = match identity_key_from_base58(gateway_config.gateway_id.as_str()) {
        Some(key) => key,
        None => {
            return Err(ClientCoreError::UnableToCreatePublicKeyFromGatewayId);
        },
    };
    let credentials = if has_bandwidth_controller && !config.client.disabled_credentials_mode {
        CredentialsToggle::Enabled
    } else {
        CredentialsToggle::Disabled
    };
    Ok(
        GatewaySessionPlan {
            gateway_listener: gateway_config.gateway_listener,
            gateway_identity,
            identity: managed_keys.identity,
            shared_key: managed_keys.gateway_shared_key,
            response_timeout_ms: config.debug.gateway_connection.gateway_response_timeout_ms,
            credentials,
        },
    )
}

/// Takes note of how authentication with the gateway ended: the shared key
/// is kept with the client's keys, a failure stops the startup.
pub fn finish_gateway_client(
    managed_keys: &mut ManagedKeys,
    authenticated: Result<SharedKeys, ClientCoreError>,
) -> (res: Result<(), ClientCoreError>)
    ensures
        authenticated is Ok ==> res is Ok && final(managed_keys).gateway_shared_key == Some(
            authenticated->Ok_0,
        ),
        authenticated is Err ==> res == Err::<(), ClientCoreError>(authenticated->Err_0)
            && final(managed_keys).gateway_shared_key == old(managed_keys).gateway_shared_key,
        final(managed_keys).identity == old(managed_keys).identity,
        final(managed_keys).encryption == old(managed_keys).encryption,
        final(managed_keys).ack_key == old(managed_keys).ack_key,
{
    match authenticated {
        Ok(shared_key) => {
            managed_keys.ensure_gateway_key(shared_key);
            Ok(())
        },
        Err(error) => Err(error),
    }
}

/// Creates the received-messages buffer controller.
pub fn start_received_messages_buffer_controller(debug_config: &DebugConfig) -> (controller:
    ReceivedMessagesBufferController)
    ensures
        controller.wf(),
        !controller.connected(),
        controller.backlog() == Seq::<crate::received_buffer::MessageView>::empty(),
        controller.completed() == Seq::<u64>::empty(),
        controller.dedupe_capacity() == debug_config.received_buffer.dedupe_capacity,
        controller.undecryptable() == 0,
        controller.reassembly().capacity() == if debug_config.received_buffer.reassembly_capacity
            == 0 {
            1
        } else {
            debug_config.received_buffer.reassembly_capacity as nat
        },
        controller.reassembly().held_ids() == Seq::<u128>::empty(),
        forall|id: u64| !#[trigger] controller.reassembly().holds(id),
{
    ReceivedMessagesBufferController::new(
        debug_config.received_buffer.reassembly_capacity,
        debug_config.received_buffer.dedupe_capacity,
    )
}

/// Creates the controller that sends packets to the gateway.
pub fn start_mix_traffic_controller(packet_size: usize) -> (controller: MixTrafficController)
    ensures
        controller.packet_size() == packet_size,
        controller.running(),
        controller.sent() == 0,
{
    MixTrafficController::new(packet_size)
}

/// Creates the real traffic controller.
pub fn start_real_traffic_controller(controller_config: RealTrafficConfig) -> (controller:
    RealMessagesController)
    ensures
        controller.wf(),
        controller.config().acks == controller_config.acks,
        controller.config().reply_wait_ms == controller_config.reply_wait_ms,
        controller.config().sender_tag == controller_config.sender_tag,
        controller.config().ack_key == controller_config.ack_key,
        controller.config().fragment_size == if controller_config.fragment_size == 0 {
            DEFAULT_FRAGMENT_SIZE
        } else {
            controller_config.fragment_size
        },
        controller.config().hops == if controller_config.hops == 0 {
            DEFAULT_HOPS
        } else {
            controller_config.hops
        },
        controller.pending() == Map::<u128, crate::acks::PendingAck>::empty(),
        controller.pending_in_order() == Seq::<crate::acks::PendingAck>::empty(),
        controller.in_flight() == Map::<u128, crate::real_traffic::PreparedFragment>::empty(),
        forall|lane: u64| #[trigger]
            controller.queue(lane) == Seq::<crate::real_traffic::PreparedFragment>::empty(),
{
    RealMessagesController::new(controller_config)
}

/// Creates the loop cover traffic stream, addressed to the client itself.
pub fn start_cover_traffic_stream(debug_config: &DebugConfig, self_address: Recipient) -> (stream:
    LoopCoverTrafficStream)
    ensures
        stream.self_address() == self_address,
        stream.average_delay_ms() == debug_config.cover_traffic.loop_cover_traffic_average_delay_ms,
        stream.refresh_rate_ms() == debug_config.topology.topology_refresh_rate_ms,
        stream.hops() == debug_config.traffic.hops,
        stream.emitted() == 0,
        !stream.stopped(),
{
    LoopCoverTrafficStream::new(
        self_address,
        debug_config.cover_traffic.loop_cover_traffic_average_delay_ms,
        debug_config.topology.topology_refresh_rate_ms,
        debug_config.traffic.hops,
    )
}

/// A stage of the startup.
#[derive(Debug, Clone, Copy, PartialEq, Eq, Structural)]
pub enum StartupStage {
    KeysAndGateway,
    GatewayClient,
    ReplyStorage,
    TopologyRefresher,
    ReceivedBuffer,
    MixTraffic,
    RealTraffic,
    CoverTraffic,
}

/// The order in which the components start. The cover traffic stream
/// comes last and only if it is not disabled.
pub open spec fn startup_order(cover_traffic: bool) -> Seq<StartupStage> {
    let always = seq![
        StartupStage::KeysAndGateway,
        StartupStage::GatewayClient,
        StartupStage::ReplyStorage,
        StartupStage::TopologyRefresher,
        StartupStage::ReceivedBuffer,
        StartupStage::MixTraffic,
        StartupStage::RealTraffic,
    ];
    if cover_traffic {
        always.push(StartupStage::CoverTraffic)
    } else {
        always
    }
}

/// The progress of a startup: how many stages have succeeded.
#[derive(Debug, Clone, Copy, PartialEq, Eq, Structural)]
pub struct ClientStartup {
    completed: u8,
    cover_traffic: bool,
}

impl ClientStartup {
    /// How many stages have succeeded.
    pub closed spec fn completed(&self) -> nat {
        self.completed as nat
    }

    /// Whether the cover traffic stream is part of this startup.
    pub closed spec fn cover_traffic(&self) -> bool {
        self.cover_traffic
    }

    pub closed spec fn wf(&self) -> bool {
        self.completed <= startup_order(self.cover_traffic).len()
    }

    /// The stages that lie ahead, the next one first.
    pub open spec fn remaining(&self) -> Seq<StartupStage> {
        let order = startup_order(self.cover_traffic());
        order.subrange(self.completed() as int, order.len() as int)
    }

    /// A startup of which no stage has run.
    pub fn new(cover_traffic: bool) -> (startup: ClientStartup)
        ensures
            startup.wf(),
            startup.completed() == 0,
            startup.cover_traffic() == cover_traffic,
            startup.remaining() == startup_order(cover_traffic),
    {
        let startup = ClientStartup { completed: 0, cover_traffic };
        assert(startup.remaining() =~= startup_order(cover_traffic));
        startup
    }

    /// The stage to run next; `None` when every stage has succeeded.
    pub fn next_stage(&self) -> (stage: Option<StartupStage>)
        requires
            self.wf(),
        ensures
            stage is None <==> self.remaining().len() == 0,
            stage is Some ==> stage.unwrap() == self.remaining()[0],
    {
        match self.completed {
            0 => Some(StartupStage::KeysAndGateway),
            1 => Some(StartupStage::GatewayClient),
            2 => Some(StartupStage::ReplyStorage),
            3 => Some(StartupStage::TopologyRefresher),
            4 => Some(StartupStage::ReceivedBuffer),
            5 => Some(StartupStage::MixTraffic),
            6 => Some(StartupStage::RealTraffic),
            7 => if self.cover_traffic {
                Some(StartupStage::CoverTraffic)
            } else {
                None
            },
            _ => None,
        }
    }

    /// Whether every stage has succeeded.
    pub fn is_complete(&self) -> (complete: bool)
        requires
            self.wf(),
        ensures
            complete <==> self.remaining().len() == 0,
    {
        self.next_stage().is_none()
    }

    /// Takes note of how the stage that was due ended. A success moves the
    /// startup to the stage after it. A failure ends the startup: the error
    /// is returned and, the progress being consumed, no later stage can run.
    pub fn advance(self, outcome: Result<(), ClientCoreError>) -> (res: Result<
        ClientStartup,
        ClientCoreError,
    >)
        requires
            self.wf(),
        ensures
            outcome is Err ==> res == Err::<ClientStartup, ClientCoreError>(outcome->Err_0),
            outcome is Ok ==> res is Ok && res->Ok_0.wf() && res->Ok_0.cover_traffic()
                == self.cover_traffic(),
            outcome is Ok && self.remaining().len() > 0 ==> res->Ok_0.completed()
                == self.completed()
                + 1 && res->Ok_0.remaining() == self.remaining().drop_first(),
            outcome is Ok && self.remaining().len() == 0 ==> res->Ok_0 == self,
    {
        match outcome {
            Err(error) => Err(error),
            Ok(()) => {
                if self.is_complete() {
                    Ok(self)
                } else {
                    let next = ClientStartup {
                        completed: self.completed + 1,
                        cover_traffic: self.cover_traffic,
                    };
                    assert(next.remaining() =~= self.remaining().drop_first());
                    Ok(next)
                }
            },
        }
    }
}

/// The components start in one fixed order: after `k` successes the stage
/// that is due is the `k`-th of the order, whatever the outcomes were worth.
pub proof fn lemma_startup_follows_order(startup: ClientStartup, k: int)
    requires
        startup.wf(),
        0 <= k < startup.remaining().len(),
    ensures
        startup.remaining()[k] == startup_order(startup.cover_traffic())[startup.completed() + k],
        startup_order(startup.cover_traffic()).len() == if startup.cover_traffic() {
            8int
        } else {
            7int
        },
        startup_order(startup.cover_traffic())[0] == StartupStage::KeysAndGateway,
        startup_order(startup.cover_traffic())[1] == StartupStage::GatewayClient,
{
}

/// Collects what a client is started from.
pub struct BaseClientBuilder<C, S, P> {
    config: Config,
    client_store: S,
    dkg_query_client: Option<C>,
    custom_topology_provider: Option<P>,
    setup_method: GatewaySetup,
}

impl<C, S, P> BaseClientBuilder<C, S, P> {
    pub closed spec fn config(&self) -> Config {
        self.config
    }

    pub closed spec fn client_store(&self) -> S {
        self.client_store
    }

    pub closed spec fn dkg_query_client(&self) -> Option<C> {
        self.dkg_query_client
    }

    pub closed spec fn custom_topology_provider(&self) -> Option<P> {
        self.custom_topology_provider
    }

    pub closed spec fn setup_method(&self) -> GatewaySetup {
        self.setup_method
    }

    /// A builder without a topology provider of its own, whose keys and
    /// gateway details must be in the stores.
    pub fn new(base_config: Config, client_store: S, dkg_query_client: Option<C>) -> (builder:
        BaseClientBuilder<C, S, P>)
        ensures
            builder.config() == base_config,
            builder.client_store() == client_store,
            builder.dkg_query_client() == dkg_query_client,
            builder.custom_topology_provider() is None,
            builder.setup_method() == GatewaySetup::MustLoad,
    {
        BaseClientBuilder {
            config: base_config,
            client_store,
            dkg_query_client,
            custom_topology_provider: None,
            setup_method: GatewaySetup::MustLoad,
        }
    }

    pub fn with_gateway_setup(self, setup: GatewaySetup) -> (builder: BaseClientBuilder<C, S, P>)
        ensures
            builder.setup_method() == setup,
            builder.config() == self.config(),
            builder.client_store() == self.client_store(),
            builder.dkg_query_client() == self.dkg_query_client(),
            builder.custom_topology_provider() == self.custom_topology_provider(),
    {
        let mut builder = self;
        builder.setup_method = setup;
        builder
    }

    pub fn with_topology_provider(self, provider: P) -> (builder: BaseClientBuilder<C, S, P>)
        ensures
            builder.custom_topology_provider() == Some(provider),
            builder.config() == self.config(),
            builder.client_store() == self.client_store(),
            builder.dkg_query_client() == self.dkg_query_client(),
            builder.setup_method() == self.setup_method(),
    {
        let mut builder = self;
        builder.custom_topology_provider = Some(provider);
        builder
    }

    /// Begins the startup. Returns the progress, which names the stage to
    /// run, and the parts that the stages need.
    pub fn start_base(self) -> (started: (ClientStartup, StartupParts<C, S, P>))
        ensures
            started.0.wf(),
            started.0.completed() == 0,
            started.0.cover_traffic()
                == !self.config().debug.cover_traffic.disable_loop_cover_traffic_stream,
            started.0.remaining() == startup_order(
                !self.config().debug.cover_traffic.disable_loop_cover_traffic_stream,
            ),
            started.1.config == self.config(),
            started.1.client_store == self.client_store(),
            started.1.dkg_query_client == self.dkg_query_client(),
            started.1.custom_topology_provider == self.custom_topology_provider(),
            started.1.setup_method == self.setup_method(),
            started.1.has_bandwidth_controller == self.dkg_query_client() is Some,
    {
        let startup = ClientStartup::new(
            !self.config.debug.cover_traffic.disable_loop_cover_traffic_stream,
        );
        let has_bandwidth_controller = self.dkg_query_client.is_some();
        let parts = StartupParts {
            config: self.config,
            client_store: self.client_store,
            dkg_query_client: self.dkg_query_client,
            custom_topology_provider: self.custom_topology_provider,
            setup_method: self.setup_method,
            has_bandwidth_controller,
        };
        (startup, parts)
    }
}

/// What the builder held, handed to whoever runs the stages.
pub struct StartupParts<C, S, P> {
    pub config: Config,
    pub client_store: S,
    pub dkg_query_client: Option<C>,
    pub custom_topology_provider: Option<P>,
    pub setup_method: GatewaySetup,
    /// A bandwidth controller is created exactly when a query client was given.
    pub has_bandwidth_controller: bool,
}

/// A client that has started.
pub struct BaseClient {
    pub address: Recipient,
    pub client_input: ClientInputStatus,
    pub client_output: ClientOutputStatus,
    pub client_state: ClientState,
    pub task_manager: TaskManager,
}

impl BaseClient {
    /// Puts the started client together. `None` unless every stage of the
    /// startup has succeeded.
    pub fn assemble(
        startup: ClientStartup,
        address: Recipient,
        client_input: ClientInput,
        client_output: ClientOutput,
        client_state: ClientState,
        task_manager: TaskManager,
    ) -> (client: Option<BaseClient>)
        requires
            startup.wf(),
        ensures
            client is Some <==> startup.remaining().len() == 0,
            client is Some ==> {
                &&& client.unwrap().address == address
                &&& client.unwrap().client_input == (ClientInputStatus::AwaitingProducer {
                    client_input,
                })
                &&& client.unwrap().client_output == (ClientOutputStatus::AwaitingConsumer {
                    client_output,
                })
                &&& client.unwrap().client_state == client_state
                &&& client.unwrap().task_manager == task_manager
            },
    {
        if !startup.is_complete() {
            return None;
        }
        Some(
            BaseClient {
                address,
                client_input: ClientInputStatus::AwaitingProducer { client_input },
                client_output: ClientOutputStatus::AwaitingConsumer { client_output },
                client_state,
                task_manager,
            },
        )
    }
}

} // verus!
