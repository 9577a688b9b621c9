//! Bonding of mix nodes and gateways: the message that an operator signs
//! with the node's identity key, and the check of that signature.

use vstd::prelude::*;
use crate::addressing::{identity_from_base58, identity_key_from_base58};
use crate::bytes::array64_at;
use crate::crypto::{ed25519_accepts, ed25519_verify};
use crate::directory::Percent;

verus! {

/// The algorithm of a signature.
#[derive(Debug, Clone, Copy, PartialEq, Eq, Structural)]
pub enum SigningAlgorithm {
    Ed25519,
    Secp256k1,
}

impl SigningAlgorithm {
    pub fn is_ed25519(&self) -> (yes: bool)
        ensures
            yes == (*self is Ed25519),
    {
        match self {
            SigningAlgorithm::Ed25519 => true,
            SigningAlgorithm::Secp256k1 => false,
        }
    }
}

/// Errors of the bonding operations.
#[derive(Debug, Clone, PartialEq, Eq)]
pub enum BackendError {
    /// The node's identity key is not a key.
    InvalidIdentityKey,
    /// The signature does not have the length of a signature.
    InvalidSignature,
    /// The message is to be signed with another algorithm.
    UnexpectedSigningAlgorithm { received: SigningAlgorithm, expected: SigningAlgorithm },
    /// The signature is not the node's signature of the message.
    SignatureVerificationFailed,
    /// The signing nonce could not be obtained.
    NonceUnavailable { source: String },
}

/// An amount of some denomination.
#[derive(Debug, Clone, PartialEq, Eq)]
pub struct Coin {
    pub amount: u128,
    pub denom: String,
}

/// What a mix node announces of itself.
#[derive(Debug, Clone, PartialEq, Eq)]
pub struct MixNode {
    pub host: String,
    pub mix_port: u16,
    pub verloc_port: u16,
    pub http_api_port: u16,
    pub sphinx_key: String,
    /// The node's identity key, in Base58.
    pub identity_key: String,
    pub version: String,
}

/// What a mix node costs its delegators.
#[derive(Debug, Clone, PartialEq, Eq)]
pub struct MixNodeCostParams {
    pub profit_margin_percent: Percent,
    pub interval_operating_cost: Coin,
}

/// What a gateway announces of itself.
#[derive(Debug, Clone, PartialEq, Eq)]
pub struct Gateway {
    pub host: String,
    pub mix_port: u16,
    pub clients_port: u16,
    pub location: String,
    pub sphinx_key: String,
    /// The gateway's identity key, in Base58.
    pub identity_key: String,
    pub version: String,
}

/// What is bonded with a mix node.
#[derive(Debug, Clone, PartialEq, Eq)]
pub struct MixnodeBondingPayload {
    pub mix_node: MixNode,
    pub cost_params: MixNodeCostParams,
}

/// What is bonded with a gateway.
#[derive(Debug, Clone, PartialEq, Eq)]
pub struct GatewayBondingPayload {
    pub gateway: Gateway,
}

/// The content of a message to the contract.
#[derive(Debug, Clone, PartialEq, Eq)]
pub struct ContractMessageContent<T> {
    pub sender: String,
    /// The vesting contract, when the pledge comes from vesting tokens.
    pub proxy: Option<String>,
    pub funds: Vec<Coin>,
    pub data: T,
}

/// A message that is to be signed.
#[derive(Debug, Clone, PartialEq, Eq)]
pub struct SignableMessage<T> {
    pub nonce: u32,
    pub algorithm: SigningAlgorithm,
    pub content: ContractMessageContent<T>,
}

/// The vesting contract as proxy when the pledge comes from vesting tokens, else none.
pub fn proxy(vesting_contract_address: String, vesting: bool) -> (address: Option<String>)
    ensures
        vesting ==> address == Some(vesting_contract_address),
        !vesting ==> address is None,
{
    if vesting {
        Some(vesting_contract_address)
    } else {
        None
    }
}

/// The message that the operator of a mix node signs. `nonce` is the
/// signing nonce of `sender` as the chain reports it.
pub fn create_mixnode_bonding_sign_payload(
    sender: String,
    vesting_contract_address: String,
    nonce: u32,
    mix_node: MixNode,
    cost_params: MixNodeCostParams,
    pledge: Coin,
    vesting: bool,
) -> (message: SignableMessage<MixnodeBondingPayload>)
    ensures
        message.nonce == nonce,
        message.algorithm == SigningAlgorithm::Ed25519,
        message.content.sender == sender,
        vesting ==> message.content.proxy == Some(vesting_contract_address),
        !vesting ==> message.content.proxy is None,
        message.content.funds@ == seq![pledge],
        message.content.data == (MixnodeBondingPayload { mix_node, cost_params }),
{
    let proxy = proxy(vesting_contract_address, vesting);
    let mut funds: Vec<Coin> = Vec::new();
    funds.push(pledge);
    assert(funds@ =~= seq![pledge]);
    SignableMessage {
        nonce,
        algorithm: SigningAlgorithm::Ed25519,
        content: ContractMessageContent {
            sender,
            proxy,
            funds,
            data: MixnodeBondingPayload { mix_node, cost_params },
        },
    }
}

/// The message that the operator of a gateway signs.
pub fn create_gateway_bonding_sign_payload(
    sender: String,
    vesting_contract_address: String,
    nonce: u32,
    gateway: Gateway,
    pledge: Coin,
    vesting: bool,
) -> (message: SignableMessage<GatewayBondingPayload>)
    ensures
        message.nonce == nonce,
        message.algorithm == SigningAlgorithm::Ed25519,
        message.content.sender == sender,
        vesting ==> message.content.proxy == Some(vesting_contract_address),
        !vesting ==> message.content.proxy is None,
        message.content.funds@ == seq![pledge],
        message.content.data == (GatewayBondingPayload { gateway }),
{
    let payload = GatewayBondingPayload { gateway };
    let proxy = proxy(vesting_contract_address, vesting);
    let mut funds: Vec<Coin> = Vec::new();
    funds.push(pledge);
    assert(funds@ =~= seq![pledge]);
    SignableMessage {
        nonce,
        algorithm: SigningAlgorithm::Ed25519,
        content: ContractMessageContent { sender, proxy, funds, data: payload },
    }
}

/// What the check of a bonding signature comes to.
pub open spec fn bonding_verdict(
    identity_key: Seq<char>,
    algorithm: SigningAlgorithm,
    plaintext: Seq<u8>,
    signature: Seq<u8>,
) -> Result<(), BackendError> {
    if identity_from_base58(identity_key) is None {
        Err(BackendError::InvalidIdentityKey)
    } else if signature.len() != 64 {
        Err(BackendError::InvalidSignature)
    } else if !(algorithm is Ed25519) {
        Err(
            BackendError::UnexpectedSigningAlgorithm {
                received: algorithm,
                expected: SigningAlgorithm::Ed25519,
            },
        )
    } else if !ed25519_accepts(identity_from_base58(identity_key).unwrap(), plaintext, signature) {
        Err(BackendError::SignatureVerificationFailed)
    } else {
        Ok(())
    }
}

/// What reading the identity key and the signature comes to. Both are
/// read before the signed message is recreated.
pub open spec fn credentials_verdict(identity_key: Seq<char>, signature: Seq<u8>) -> Result<
    (),
    BackendError,
> {
    if identity_from_base58(identity_key) is None {
        Err(BackendError::InvalidIdentityKey)
    } else if signature.len() != 64 {
        Err(BackendError::InvalidSignature)
    } else {
        Ok(())
    }
}

/// Reads the identity key and the signature of a bonding request: the key
/// must be an identity key in Base58 and the signature 64 bytes long.
pub fn check_bonding_credentials(identity_key: &str, msg_signature: &[u8]) -> (res: Result<
    (),
    BackendError,
>)
    ensures
        res == credentials_verdict(identity_key@, msg_signature@),
{
    if identity_key_from_base58(identity_key).is_none() {
        return Err(BackendError::InvalidIdentityKey);
    }
    if msg_signature.len() != 64 {
        return Err(BackendError::InvalidSignature);
    }
    Ok(())
}

/// Checks that `msg_signature` is the signature of `plaintext` under the identity key.
fn verify_bonding_signature(
    identity_key: &str,
    algorithm: SigningAlgorithm,
    plaintext: &[u8],
    msg_signature: &[u8],
) -> (res: Result<(), BackendError>)
    ensures
        res == bonding_verdict(identity_key@, algorithm, plaintext@, msg_signature@),
{
    let public = match identity_key_from_base58(identity_key) {
        Some(public) => public,
        None => {
            return Err(BackendError::InvalidIdentityKey);
        },
    };
    if msg_signature.len() != 64 {
        return Err(BackendError::InvalidSignature);
    }
    let signature = array64_at(msg_signature, 0);
    assert(signature@ =~= msg_signature@);
    if !algorithm.is_ed25519() {
        return Err(
            BackendError::UnexpectedSigningAlgorithm {
                received: algorithm,
                expected: SigningAlgorithm::Ed25519,
            },
        );
    }
    if ed25519_verify(&public, plaintext, &signature) {
        Ok(())
    } else {
        Err(BackendError::SignatureVerificationFailed)
    }
}

/// Checks the signature under which a mix node is bonded. `msg` is the
/// message recreated from what the operator entered and `plaintext` its
/// serialized form, which is what was signed.
pub fn verify_mixnode_bonding_sign_payload(
    mix_node: &MixNode,
    msg: &SignableMessage<MixnodeBondingPayload>,
    plaintext: &[u8],
    msg_signature: &[u8],
) -> (res: Result<(), BackendError>)
    ensures
        res == bonding_verdict(mix_node.identity_key@, msg.algorithm, plaintext@, msg_signature@),
{
    verify_bonding_signature(mix_node.identity_key.as_str(), msg.algorithm, plaintext,
        msg_signature)
}

/// Checks the signature under which a gateway is bonded.
pub fn verify_gateway_bonding_sign_payload(
    gateway: &Gateway,
    msg: &SignableMessage<GatewayBondingPayload>,
    plaintext: &[u8],
    msg_signature: &[u8],
) -> (res: Result<(), BackendError>)
    ensures
        res == bonding_verdict(gateway.identity_key@, msg.algorithm, plaintext@, msg_signature@),
{
    verify_bonding_signature(gateway.identity_key.as_str(), msg.algorithm, plaintext, msg_signature)
}

} // verus!
