//! Addresses of clients in the mixnet.

use vstd::prelude::*;
use crate::bytes::{append_bytes, array32_at};
use crate::crypto::{base58_decode, base58_decoded, ed25519_key_is_valid, ed25519_key_valid};

verus! {

/// Length of a serialized recipient.
pub const RECIPIENT_SIZE: usize = 96;

/// Where a client can be reached: its identity key, its encryption key and
/// the identity of its gateway.
#[derive(Debug, Clone, Copy, PartialEq, Eq)]
pub struct Recipient {
    pub identity: [u8; 32],
    pub encryption_key: [u8; 32],
    pub gateway: [u8; 32],
}

/// The three keys of a recipient as byte strings.
pub struct RecipientView {
    pub identity: Seq<u8>,
    pub encryption_key: Seq<u8>,
    pub gateway: Seq<u8>,
}

impl View for Recipient {
    type V = RecipientView;

    open spec fn view(&self) -> RecipientView {
        RecipientView {
            identity: self.identity@,
            encryption_key: self.encryption_key@,
            gateway: self.gateway@,
        }
    }
}

/// The serialized form: the three keys one after the other.
pub open spec fn recipient_bytes(recipient: RecipientView) -> Seq<u8> {
    recipient.identity + recipient.encryption_key + recipient.gateway
}

/// The recipient that 96 bytes stand for.
pub open spec fn parsed_recipient(bytes: Seq<u8>) -> Option<RecipientView> {
    if bytes.len() != RECIPIENT_SIZE {
        None
    } else {
        Some(
            RecipientView {
                identity: bytes.subrange(0, 32),
                encryption_key: bytes.subrange(32, 64),
                gateway: bytes.subrange(64, 96),
            },
        )
    }
}

impl Recipient {
    pub fn new(identity: [u8; 32], encryption_key: [u8; 32], gateway: [u8; 32]) -> (recipient:
        Recipient)
        ensures
            recipient.identity == identity,
            recipient.encryption_key == encryption_key,
            recipient.gateway == gateway,
    {
        Recipient { identity, encryption_key, gateway }
    }

    /// Writes the recipient as 96 bytes.
    pub fn to_bytes(&self) -> (bytes: Vec<u8>)
        ensures
            bytes@ == recipient_bytes(self@),
            bytes@.len() == RECIPIENT_SIZE,
    {
        let mut bytes: Vec<u8> = Vec::new();
        append_bytes(&mut bytes, self.identity.as_slice());
        append_bytes(&mut bytes, self.encryption_key.as_slice());
        append_bytes(&mut bytes, self.gateway.as_slice());
        bytes
    }

    /// Reads a recipient; fails unless exactly 96 bytes are given.
    pub fn try_from_bytes(bytes: &[u8]) -> (recipient: Option<Recipient>)
        ensures
            recipient is Some <==> bytes@.len() == RECIPIENT_SIZE,
            recipient is Some ==> Some(recipient.unwrap()@) == parsed_recipient(bytes@),
    {
        if bytes.len() != RECIPIENT_SIZE {
            return None;
        }
        Some(
            Recipient {
                identity: array32_at(bytes, 0),
                encryption_key: array32_at(bytes, 32),
                gateway: array32_at(bytes, 64),
            },
        )
    }

    /// Two recipients are the same when their bytes are.
    pub fn same_as(&self, other: &Recipient) -> (same: bool)
        ensures
            same == (recipient_bytes(self@) == recipient_bytes(other@)),
    {
        let mine = self.to_bytes();
        let theirs = other.to_bytes();
        crate::bytes::bytes_equal(mine.as_slice(), theirs.as_slice())
    }
}

/// Reading the bytes of a recipient gives the recipient.
pub proof fn lemma_recipient_round_trip(recipient: RecipientView)
    requires
        recipient.identity.len() == 32,
        recipient.encryption_key.len() == 32,
        recipient.gateway.len() == 32,
    ensures
        parsed_recipient(recipient_bytes(recipient)) == Some(recipient),
{
    let bytes = recipient_bytes(recipient);
    assert(bytes.subrange(0, 32) =~= recipient.identity);
    assert(bytes.subrange(32, 64) =~= recipient.encryption_key);
    assert(bytes.subrange(64, 96) =~= recipient.gateway);
}

/// The identity key that a Base58 string stands for: 32 bytes that are a point of the curve.
pub open spec fn identity_from_base58(text: Seq<char>) -> Option<Seq<u8>> {
    match base58_decoded(text) {
        Some(bytes) => if bytes.len() == 32 && ed25519_key_valid(bytes) {
            Some(bytes)
        } else {
            None
        },
        None => None,
    }
}

/// Reads an identity key from its Base58 form.
pub fn identity_key_from_base58(text: &str) -> (key: Option<[u8; 32]>)
    ensures
        key is Some <==> identity_from_base58(text@) is Some,
        key is Some ==> key.unwrap()@ == identity_from_base58(text@).unwrap(),
{
    let bytes = match base58_decode(text) {
        Some(bytes) => bytes,
        None => {
            return None;
        },
    };
    if bytes.len() != 32 {
        return None;
    }
    let key = array32_at(bytes.as_slice(), 0);
    assert(key@ =~= bytes@);
    if ed25519_key_is_valid(&key) {
        Some(key)
    } else {
        None
    }
}

} // verus!
