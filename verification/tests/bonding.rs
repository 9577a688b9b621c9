use ed25519_dalek::Signer;
use mixnet_core::bonding::{
    check_bonding_credentials, create_gateway_bonding_sign_payload,
    create_mixnode_bonding_sign_payload, proxy,
    verify_gateway_bonding_sign_payload, verify_mixnode_bonding_sign_payload, BackendError, Coin,
    ContractMessageContent, Gateway, GatewayBondingPayload, MixNode, MixNodeCostParams,
    MixnodeBondingPayload, SignableMessage, SigningAlgorithm,
};
use mixnet_core::directory::Percent;

struct MockClient {
    address: String,
    vesting_contract: String,
    signing_nonce: u32,
}

fn dummy_client() -> MockClient {
    MockClient {
        address: "n16t2umcd83zjpl5puyuuq6lgmy4p3qedjd8ynn6".to_string(),
        vesting_contract: "n17tj0a0w6v7r2dc54rnkzfza6s8hxs87rj273a5".to_string(),
        signing_nonce: 42,
    }
}

fn coin(amount: u128, denom: &str) -> Coin {
    Coin { amount, denom: denom.to_string() }
}

// the serialized form of a message: what is signed
fn plaintext<T: std::fmt::Debug>(message: &SignableMessage<T>) -> Vec<u8> {
    format!("{:?}", message).into_bytes()
}

fn identity_keypair() -> ed25519_dalek::SigningKey {
    ed25519_dalek::SigningKey::from_bytes(&[42u8; 32])
}

#[test]
fn dummy_mix_bonding_signature_verification() {
    let identity_keypair = identity_keypair();
    let dummy_mixnode = MixNode {
        host: "1.2.3.4".to_string(),
        mix_port: 1234,
        verloc_port: 2345,
        http_api_port: 3456,
        sphinx_key: "totally-legit-sphinx-key".to_string(),
        identity_key: bs58::encode(identity_keypair.verifying_key().to_bytes()).into_string(),
        version: "v1.2.3".to_string(),
    };
    let dummy_cost_params = MixNodeCostParams {
        profit_margin_percent: Percent::from_percentage_value(42).unwrap(),
        interval_operating_cost: coin(1111111, "unym"),
    };
    let dummy_pledge: Coin = coin(10000000000, "unym");
    let dummy_client = dummy_client();

    let payload = |vesting: bool| {
        create_mixnode_bonding_sign_payload(
            dummy_client.address.clone(),
            dummy_client.vesting_contract.clone(),
            dummy_client.signing_nonce,
            dummy_mixnode.clone(),
            dummy_cost_params.clone(),
            dummy_pledge.clone(),
            vesting,
        )
    };
    let signing_msg_liquid = payload(false);
    let plaintext_liquid = plaintext(&signing_msg_liquid);
    let sig_liquid = identity_keypair.sign(&plaintext_liquid).to_bytes();

    let signing_msg_vesting = payload(true);
    let plaintext_vesting = plaintext(&signing_msg_vesting);
    let sig_vesting = identity_keypair.sign(&plaintext_vesting).to_bytes();

    let verify = |vesting: bool, signature: &[u8]| {
        let msg = payload(vesting);
        verify_mixnode_bonding_sign_payload(&dummy_mixnode, &msg, &plaintext(&msg), signature)
    };
    let res = verify(false, &sig_liquid);
    assert!(res.is_ok());

    let res = verify(true, &sig_vesting);
    assert!(res.is_ok());

    let res = verify(false, &sig_vesting);
    assert!(res.is_err());

    let res = verify(true, &sig_liquid);
    assert!(res.is_err())
}

#[test]
fn dummy_gateway_bonding_signature_verification() {
    let identity_keypair = identity_keypair();
    let dummy_gateway = Gateway {
        host: "1.2.3.4".to_string(),
        mix_port: 1234,
        clients_port: 2345,
        location: "whatever".to_string(),
        sphinx_key: "totally-legit-sphinx-key".to_string(),
        identity_key: bs58::encode(identity_keypair.verifying_key().to_bytes()).into_string(),
        version: "v1.2.3".to_string(),
    };
    let dummy_pledge: Coin = coin(10000000000, "unym");
    let dummy_client = dummy_client();

    let payload = |vesting: bool| {
        create_gateway_bonding_sign_payload(
            dummy_client.address.clone(),
            dummy_client.vesting_contract.clone(),
            dummy_client.signing_nonce,
            dummy_gateway.clone(),
            dummy_pledge.clone(),
            vesting,
        )
    };
    let signing_msg_liquid = payload(false);
    let plaintext_liquid = plaintext(&signing_msg_liquid);
    let sig_liquid = identity_keypair.sign(&plaintext_liquid).to_bytes();

    let signing_msg_vesting = payload(true);
    let plaintext_vesting = plaintext(&signing_msg_vesting);
    let sig_vesting = identity_keypair.sign(&plaintext_vesting).to_bytes();

    let verify = |vesting: bool, signature: &[u8]| {
        let msg = payload(vesting);
        verify_gateway_bonding_sign_payload(&dummy_gateway, &msg, &plaintext(&msg), signature)
    };
    let res = verify(false, &sig_liquid);
    assert!(res.is_ok());

    let res = verify(true, &sig_vesting);
    assert!(res.is_ok());

    let res = verify(false, &sig_vesting);
    assert!(res.is_err());

    let res = verify(true, &sig_liquid);
    assert!(res.is_err())
}

#[test]
fn the_proxy_is_the_vesting_contract() {
    assert_eq!(proxy("vesting".to_string(), true), Some("vesting".to_string()));
    assert_eq!(proxy("vesting".to_string(), false), None);
}

#[test]
fn the_bonding_message_holds_what_was_entered() {
    let gateway = Gateway {
        host: "h".to_string(),
        mix_port: 1,
        clients_port: 2,
        location: "l".to_string(),
        sphinx_key: "s".to_string(),
        identity_key: "i".to_string(),
        version: "v".to_string(),
    };
    assert_eq!(
        create_gateway_bonding_sign_payload("me".to_string(), "vesting".to_string(), 7, gateway.clone(), coin(5, "unym"), true),
        SignableMessage {
            nonce: 7,
            algorithm: SigningAlgorithm::Ed25519,
            content: ContractMessageContent {
                sender: "me".to_string(),
                proxy: Some("vesting".to_string()),
                funds: vec![coin(5, "unym")],
                data: GatewayBondingPayload { gateway },
            },
        }
    );
    let mix_node = MixNode {
        host: "h".to_string(),
        mix_port: 1,
        verloc_port: 2,
        http_api_port: 3,
        sphinx_key: "s".to_string(),
        identity_key: "i".to_string(),
        version: "v".to_string(),
    };
    let cost_params = MixNodeCostParams {
        profit_margin_percent: Percent::from_percentage_value(10).unwrap(),
        interval_operating_cost: coin(40, "unym"),
    };
    let message = create_mixnode_bonding_sign_payload(
        "me".to_string(),
        "vesting".to_string(),
        8,
        mix_node.clone(),
        cost_params.clone(),
        coin(5, "unym"),
        false,
    );
    assert_eq!(message.nonce, 8);
    assert_eq!(message.content.proxy, None);
    assert_eq!(message.content.funds, vec![coin(5, "unym")]);
    assert_eq!(message.content.data, MixnodeBondingPayload { mix_node, cost_params });
    assert!(message.algorithm.is_ed25519());
    assert!(!SigningAlgorithm::Secp256k1.is_ed25519());
}

#[test]
fn a_bonding_signature_fails_for_its_reason() {
    let identity_keypair = identity_keypair();
    let mut gateway = Gateway {
        host: "h".to_string(),
        mix_port: 1,
        clients_port: 2,
        location: "l".to_string(),
        sphinx_key: "s".to_string(),
        identity_key: bs58::encode(identity_keypair.verifying_key().to_bytes()).into_string(),
        version: "v".to_string(),
    };
    let mut msg = create_gateway_bonding_sign_payload("me".to_string(), "v".to_string(), 7, gateway.clone(), coin(5, "unym"), false);
    let text = plaintext(&msg);
    let signature = identity_keypair.sign(&text).to_bytes();
    assert_eq!(verify_gateway_bonding_sign_payload(&gateway, &msg, &text, &signature), Ok(()));
    assert_eq!(
        verify_gateway_bonding_sign_payload(&gateway, &msg, &text, &signature[..63]),
        Err(BackendError::InvalidSignature)
    );
    assert_eq!(
        verify_gateway_bonding_sign_payload(&gateway, &msg, b"something else", &signature),
        Err(BackendError::SignatureVerificationFailed)
    );
    let mut forged = signature;
    forged[5] ^= 1;
    assert_eq!(
        verify_gateway_bonding_sign_payload(&gateway, &msg, &text, &forged),
        Err(BackendError::SignatureVerificationFailed)
    );
    msg.algorithm = SigningAlgorithm::Secp256k1;
    assert_eq!(
        verify_gateway_bonding_sign_payload(&gateway, &msg, &text, &signature),
        Err(BackendError::UnexpectedSigningAlgorithm {
            received: SigningAlgorithm::Secp256k1,
            expected: SigningAlgorithm::Ed25519
        })
    );
    // the length of the signature is looked at before the algorithm
    assert_eq!(verify_gateway_bonding_sign_payload(&gateway, &msg, &text, &[]), Err(BackendError::InvalidSignature));
    gateway.identity_key = "not a key".to_string();
    assert_eq!(
        verify_gateway_bonding_sign_payload(&gateway, &msg, &text, &signature),
        Err(BackendError::InvalidIdentityKey)
    );
}

#[test]
fn key_and_signature_are_read_before_anything_else() {
    let key = bs58::encode(identity_keypair().verifying_key().to_bytes()).into_string();
    assert_eq!(check_bonding_credentials(&key, &[0u8; 64]), Ok(()));
    assert_eq!(check_bonding_credentials(&key, &[0u8; 63]), Err(BackendError::InvalidSignature));
    assert_eq!(check_bonding_credentials(&key, &[0u8; 65]), Err(BackendError::InvalidSignature));
    assert_eq!(check_bonding_credentials("not a key", &[0u8; 64]), Err(BackendError::InvalidIdentityKey));
    // the key is read first
    assert_eq!(check_bonding_credentials("not a key", &[]), Err(BackendError::InvalidIdentityKey));
}
