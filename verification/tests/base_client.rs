use futures::channel::mpsc;
use mixnet_core::addressing::Recipient;
use mixnet_core::base_client::{
    finish_gateway_client, initialise_keys_and_gateway, mix_address, receiver_registration,
    start_gateway_client, start_mix_traffic_controller, BaseClient, BaseClientBuilder, ClientInput,
    ClientInputStatus, ClientOutput, ClientOutputStatus, ClientStartup, ClientState, ConnectionCommand,
    CredentialsToggle, EncryptionKeyPair, GatewaySetup, InitialisationDetails, InitialisationResult,
    ManagedKeys, ReceivedBufferMessage, StartupStage,
};
use mixnet_core::config::{ClientConfig, Config, DebugConfig, GatewayEndpointConfig};
use mixnet_core::error::ClientCoreError;
use mixnet_core::handshake::{IdentityKeyPair, SharedKeys};
use mixnet_core::lanes::LaneQueueLengths;
use mixnet_core::real_traffic::InputMessage;
use mixnet_core::received_buffer::ReconstructedMessage;
use mixnet_core::replies::ReplyControlRequest;
use mixnet_core::supervisor::TaskManager;
use mixnet_core::topology::TopologyAccessor;

fn keys(shared: Option<SharedKeys>) -> ManagedKeys {
    ManagedKeys {
        identity: IdentityKeyPair { secret: [1; 32], public: [2; 32] },
        encryption: EncryptionKeyPair { secret: [3; 32], public: [4; 32] },
        ack_key: [5; 32],
        gateway_shared_key: shared,
    }
}

fn gateway_key() -> [u8; 32] {
    ed25519_dalek::SigningKey::from_bytes(&[7u8; 32]).verifying_key().to_bytes()
}

fn gateway_details(id: String) -> GatewayEndpointConfig {
    GatewayEndpointConfig { gateway_id: id, gateway_owner: "n1owner".to_string(), gateway_listener: "ws://1.2.3.4:9000".to_string() }
}

fn config(disabled_credentials_mode: bool, cover_disabled: bool) -> Config {
    let mut debug = DebugConfig::default();
    debug.cover_traffic.disable_loop_cover_traffic_stream = cover_disabled;
    Config {
        client: ClientConfig {
            version: "1.1.1".to_string(),
            id: "client".to_string(),
            disabled_credentials_mode,
            nym_api_urls: vec!["https://api.example".to_string()],
        },
        debug,
    }
}

fn client_output() -> (ClientOutput, mpsc::UnboundedReceiver<ReceivedBufferMessage>) {
    let (sender, receiver) = mpsc::unbounded();
    (ClientOutput { received_buffer_request_sender: sender }, receiver)
}

fn client_input() -> ClientInput {
    let (connection_command_sender, _) = mpsc::unbounded::<ConnectionCommand>();
    let (input_sender, _) = tokio::sync::mpsc::channel::<InputMessage>(1);
    ClientInput { connection_command_sender, input_sender }
}

#[test]
fn the_toggle_says_what_it_is() {
    assert!(CredentialsToggle::Enabled.is_enabled());
    assert!(!CredentialsToggle::Enabled.is_disabled());
    assert!(CredentialsToggle::Disabled.is_disabled());
    assert!(!CredentialsToggle::Disabled.is_enabled());
    assert_eq!(CredentialsToggle::from(true), CredentialsToggle::Enabled);
    assert_eq!(CredentialsToggle::from(false), CredentialsToggle::Disabled);
}

#[test]
fn a_consumer_registers_once() {
    let (output, _requests) = client_output();
    let mut status = ClientOutputStatus::AwaitingConsumer { client_output: output };
    assert!(status.register_consumer().is_ok());
    assert!(matches!(status, ClientOutputStatus::Connected));
    match status.register_consumer() {
        Err(error) => assert_eq!(error, ClientCoreError::ConsumerAlreadyRegistered),
        Ok(_) => panic!("a second consumer was registered"),
    }
    assert!(matches!(status, ClientOutputStatus::Connected));
}

#[test]
fn a_producer_registers_once() {
    let mut status = ClientInputStatus::AwaitingProducer { client_input: client_input() };
    assert!(status.register_producer().is_ok());
    assert!(matches!(status, ClientInputStatus::Connected));
    match status.register_producer() {
        Err(error) => assert_eq!(error, ClientCoreError::ProducerAlreadyRegistered),
        Ok(_) => panic!("a second producer was registered"),
    }
}

#[test]
fn a_receiver_is_announced_to_the_buffer_controller() {
    let (mut output, mut requests) = client_output();
    let mut receiver = output.register_receiver().unwrap();
    let announced = match requests.try_next() {
        Ok(Some(ReceivedBufferMessage::ReceiverAnnounce(sender))) => sender,
        _ => panic!("no receiver was announced"),
    };
    let batch = vec![ReconstructedMessage { message: vec![1, 2, 3], sender_tag: None }];
    announced.unbounded_send(batch.clone()).unwrap();
    assert_eq!(receiver.try_next().unwrap(), Some(batch));
}

#[test]
fn a_receiver_cannot_register_with_a_controller_that_is_gone() {
    let (mut output, requests) = client_output();
    drop(requests);
    match output.register_receiver() {
        Err(error) => assert_eq!(error, ClientCoreError::FailedToRegisterReceiver),
        Ok(_) => panic!("the registration went nowhere"),
    }
    let (_, receiver) = mpsc::unbounded::<Vec<ReconstructedMessage>>();
    assert!(receiver_registration(true, receiver).is_ok());
    let (_, receiver) = mpsc::unbounded::<Vec<ReconstructedMessage>>();
    assert!(matches!(receiver_registration(false, receiver), Err(ClientCoreError::FailedToRegisterReceiver)));
}

#[test]
fn keys_and_gateway_must_load() {
    let details = gateway_details("id".to_string());
    assert_eq!(
        initialise_keys_and_gateway(GatewaySetup::MustLoad, Ok(Some(keys(None))), Ok(Some(details.clone()))),
        Ok(InitialisationResult::Ready {
            details: InitialisationDetails { gateway_details: details.clone(), managed_keys: keys(None) }
        })
    );
    assert_eq!(
        initialise_keys_and_gateway(GatewaySetup::MustLoad, Ok(None), Ok(Some(details.clone()))),
        Err(ClientCoreError::KeyLoadFailed)
    );
    assert_eq!(
        initialise_keys_and_gateway(GatewaySetup::MustLoad, Ok(Some(keys(None))), Ok(None)),
        Err(ClientCoreError::GatewayDetailsMissing)
    );
    assert_eq!(
        initialise_keys_and_gateway(GatewaySetup::MustLoad, Ok(None), Ok(None)),
        Err(ClientCoreError::KeyLoadFailed)
    );
    assert_eq!(
        initialise_keys_and_gateway(GatewaySetup::MustLoad, Err("locked".to_string()), Err("gone".to_string())),
        Err(ClientCoreError::KeyStorageError { source: "locked".to_string() })
    );
    assert_eq!(
        initialise_keys_and_gateway(GatewaySetup::MustLoad, Ok(None), Err("gone".to_string())),
        Err(ClientCoreError::GatewayDetailsStorageError { source: "gone".to_string() })
    );
}

#[test]
fn other_setups_decide_otherwise() {
    let details = gateway_details("id".to_string());
    assert_eq!(
        initialise_keys_and_gateway(GatewaySetup::Predefined { details: details.clone() }, Ok(Some(keys(None))), Ok(None)),
        Ok(InitialisationResult::Ready {
            details: InitialisationDetails { gateway_details: details.clone(), managed_keys: keys(None) }
        })
    );
    assert_eq!(
        initialise_keys_and_gateway(GatewaySetup::Predefined { details }, Ok(None), Ok(None)),
        Err(ClientCoreError::KeyLoadFailed)
    );
    assert_eq!(
        initialise_keys_and_gateway(GatewaySetup::Specified { gateway_identity: "gw".to_string() }, Ok(None), Ok(None)),
        Ok(InitialisationResult::MustRegister { gateway_identity: Some("gw".to_string()), by_latency: false, keys: None })
    );
    assert_eq!(
        initialise_keys_and_gateway(GatewaySetup::New { by_latency: true }, Ok(Some(keys(None))), Ok(None)),
        Ok(InitialisationResult::MustRegister { gateway_identity: None, by_latency: true, keys: Some(keys(None)) })
    );
}

#[test]
fn the_address_names_the_encryption_key_and_the_gateway() {
    let id = bs58::encode(gateway_key()).into_string();
    assert_eq!(
        mix_address(&keys(None), &gateway_details(id)),
        Ok(Recipient { identity: [2; 32], encryption_key: [4; 32], gateway: gateway_key() })
    );
    for bad in ["", "not base58 0OIl", "3yZe7d"] {
        assert_eq!(
            mix_address(&keys(None), &gateway_details(bad.to_string())),
            Err(ClientCoreError::UnableToCreatePublicKeyFromGatewayId)
        );
    }
    // 32 bytes that are no point of the curve
    let mut no_point = [0xffu8; 32];
    no_point[0] = 0xee;
    let off_curve = (0u8..=255)
        .map(|first| {
            no_point[0] = first;
            no_point
        })
        .find(|bytes| ed25519_dalek::VerifyingKey::from_bytes(bytes).is_err())
        .unwrap();
    assert_eq!(
        mix_address(&keys(None), &gateway_details(bs58::encode(off_curve).into_string())),
        Err(ClientCoreError::UnableToCreatePublicKeyFromGatewayId)
    );
}

#[test]
fn the_gateway_session_is_planned_from_the_configuration() {
    let id = bs58::encode(gateway_key()).into_string();
    let shared = SharedKeys { encryption_key: [8; 16], mac_key: [9; 32] };
    let plan = start_gateway_client(&config(false, false), gateway_details(id.clone()), &keys(Some(shared)), true).unwrap();
    assert_eq!(plan.gateway_listener, "ws://1.2.3.4:9000");
    assert_eq!(plan.gateway_identity, gateway_key());
    assert_eq!(plan.identity, keys(None).identity);
    assert_eq!(plan.shared_key, Some(shared));
    assert_eq!(plan.response_timeout_ms, 90_000);
    assert_eq!(plan.credentials, CredentialsToggle::Enabled);
    let plan = start_gateway_client(&config(true, false), gateway_details(id.clone()), &keys(None), true).unwrap();
    assert_eq!(plan.credentials, CredentialsToggle::Disabled);
    assert_eq!(plan.shared_key, None);
    let plan = start_gateway_client(&config(false, false), gateway_details(id), &keys(None), false).unwrap();
    assert_eq!(plan.credentials, CredentialsToggle::Disabled);
    assert_eq!(
        start_gateway_client(&config(false, false), gateway_details("?".to_string()), &keys(None), true),
        Err(ClientCoreError::UnableToCreatePublicKeyFromGatewayId)
    );
}

#[test]
fn the_shared_key_is_kept_after_authentication() {
    let shared = SharedKeys { encryption_key: [8; 16], mac_key: [9; 32] };
    let mut managed = keys(None);
    assert_eq!(finish_gateway_client(&mut managed, Ok(shared)), Ok(()));
    assert_eq!(managed, keys(Some(shared)));
    let mut managed = keys(None);
    assert_eq!(
        finish_gateway_client(&mut managed, Err(ClientCoreError::GatewaySessionClosed)),
        Err(ClientCoreError::GatewaySessionClosed)
    );
    assert_eq!(managed, keys(None));
}

#[test]
fn the_components_start_in_one_order() {
    let all = [
        StartupStage::KeysAndGateway,
        StartupStage::GatewayClient,
        StartupStage::ReplyStorage,
        StartupStage::TopologyRefresher,
        StartupStage::ReceivedBuffer,
        StartupStage::MixTraffic,
        StartupStage::RealTraffic,
        StartupStage::CoverTraffic,
    ];
    for cover in [true, false] {
        let mut startup = ClientStartup::new(cover);
        let mut seen = Vec::new();
        while let Some(stage) = startup.next_stage() {
            assert!(!startup.is_complete());
            seen.push(stage);
            startup = startup.advance(Ok(())).unwrap();
        }
        assert!(startup.is_complete());
        assert_eq!(seen, all[..if cover { 8 } else { 7 }].to_vec());
        // a success reported after the end changes nothing
        assert_eq!(startup.advance(Ok(())), Ok(startup));
    }
}

#[test]
fn a_failed_stage_ends_the_startup_with_its_error() {
    let startup = ClientStartup::new(true);
    let startup = startup.advance(Ok(())).unwrap().advance(Ok(())).unwrap().advance(Ok(())).unwrap();
    assert_eq!(startup.next_stage(), Some(StartupStage::TopologyRefresher));
    assert_eq!(
        startup.advance(Err(ClientCoreError::InsufficientNetworkTopology)),
        Err(ClientCoreError::InsufficientNetworkTopology)
    );
}

#[test]
fn the_builder_keeps_what_it_is_given() {
    let builder: BaseClientBuilder<u8, &str, u16> = BaseClientBuilder::new(config(false, true), "store", Some(5));
    let builder = builder
        .with_gateway_setup(GatewaySetup::New { by_latency: false })
        .with_topology_provider(77);
    let (startup, parts) = builder.start_base();
    assert_eq!(parts.config, config(false, true));
    assert_eq!(parts.client_store, "store");
    assert_eq!(parts.dkg_query_client, Some(5));
    assert_eq!(parts.custom_topology_provider, Some(77));
    assert_eq!(parts.setup_method, GatewaySetup::New { by_latency: false });
    assert!(parts.has_bandwidth_controller);
    // the cover traffic stream is disabled: seven stages
    let mut startup = startup;
    let mut stages = 0;
    while startup.next_stage().is_some() {
        startup = startup.advance(Ok(())).unwrap();
        stages += 1;
    }
    assert_eq!(stages, 7);
    let plain: BaseClientBuilder<u8, &str, u16> = BaseClientBuilder::new(config(false, false), "store", None);
    let (startup, parts) = plain.start_base();
    assert_eq!(parts.setup_method, GatewaySetup::MustLoad);
    assert_eq!(parts.custom_topology_provider, None);
    assert!(!parts.has_bandwidth_controller);
    assert_eq!(startup.next_stage(), Some(StartupStage::KeysAndGateway));
}

#[test]
fn a_client_is_assembled_only_after_every_stage() {
    let address = Recipient::new([1; 32], [2; 32], [3; 32]);
    let state = || {
        let (reply_controller_sender, _) = mpsc::unbounded::<ReplyControlRequest>();
        ClientState {
            shared_lane_queue_lengths: LaneQueueLengths::new(),
            reply_controller_sender,
            topology_accessor: TopologyAccessor::new(),
        }
    };
    let unfinished = ClientStartup::new(false).advance(Ok(())).unwrap();
    let (output, _requests) = client_output();
    assert!(BaseClient::assemble(unfinished, address, client_input(), output, state(), TaskManager::default()).is_none());
    let mut startup = ClientStartup::new(false);
    while startup.next_stage().is_some() {
        startup = startup.advance(Ok(())).unwrap();
    }
    let (output, _requests) = client_output();
    let mut client = BaseClient::assemble(startup, address, client_input(), output, state(), TaskManager::default()).unwrap();
    assert_eq!(client.address, address);
    assert!(matches!(client.client_input, ClientInputStatus::AwaitingProducer { .. }));
    assert!(matches!(client.client_output, ClientOutputStatus::AwaitingConsumer { .. }));
    assert!(client.client_output.register_consumer().is_ok());
    assert!(client.client_input.register_producer().is_ok());
    assert!(!client.client_state.topology_accessor.routable());
    assert_eq!(client.task_manager.active_count(), 0);
}

#[test]
fn the_mix_traffic_controller_starts_running() {
    let controller = start_mix_traffic_controller(64);
    assert!(controller.is_running());
    assert_eq!(controller.sent_count(), 0);
}

#[test]
fn new_keys_come_with_their_public_keys() {
    let generated = ManagedKeys::from_secrets([11; 32], [12; 32], [13; 32]);
    assert_eq!(generated.identity.secret, [11; 32]);
    assert_eq!(generated.identity.public, ed25519_dalek::SigningKey::from_bytes(&[11u8; 32]).verifying_key().to_bytes());
    assert_eq!(generated.encryption.secret, [12; 32]);
    assert_eq!(generated.encryption.public, x25519_dalek::x25519([12u8; 32], x25519_dalek::X25519_BASEPOINT_BYTES));
    assert_eq!(generated.ack_key, [13; 32]);
    assert_eq!(generated.gateway_shared_key, None);
}

#[test]
fn the_input_channel_holds_one_message() {
    assert_eq!(mixnet_core::base_client::INPUT_CHANNEL_CAPACITY, 1);
}
