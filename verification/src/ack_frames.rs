//! Acknowledgements on the wire. An ack names its fragment and carries a
//! tag under the ack key of that fragment, which is derived from the
//! client's ack master key. Only the client can make the acks that it
//! will accept.

use vstd::prelude::*;
use crate::bytes::{
    append_bytes, array16_at, be_bytes, be_u128_at, be_value, bytes_equal, lemma_be_bytes_len,
    u128_to_be_bytes,
};
use crate::crypto::{first_bytes, hmac_sha256, hmac_sha256_output};

verus! {

/// Length of an ack: the fragment id, then the tag.
pub const ACK_SIZE: usize = 32;

/// Length of the tag of an ack.
pub const ACK_TAG_SIZE: usize = 16;

/// The ack key of a fragment: a pseudorandom function of the master key and the fragment id.
pub open spec fn ack_key_of(ack_master: Seq<u8>, fragment_id: u128) -> Seq<u8> {
    first_bytes(hmac_sha256_output(ack_master, be_bytes(fragment_id as int, 16)), 32)
}

/// The tag of the ack of a fragment.
pub open spec fn ack_tag_of(ack_master: Seq<u8>, fragment_id: u128) -> Seq<u8> {
    first_bytes(
        hmac_sha256_output(ack_key_of(ack_master, fragment_id), be_bytes(fragment_id as int, 16)),
        ACK_TAG_SIZE as nat,
    )
}

/// The ack of a fragment.
pub open spec fn ack_bytes(ack_master: Seq<u8>, fragment_id: u128) -> Seq<u8> {
    be_bytes(fragment_id as int, 16) + ack_tag_of(ack_master, fragment_id)
}

/// The fragment that bytes acknowledge, if they are an ack that the owner of the master key made.
pub open spec fn opened_ack(ack_master: Seq<u8>, raw_ack: Seq<u8>) -> Option<u128> {
    if raw_ack.len() != ACK_SIZE {
        None
    } else {
        let fragment_id = be_value(raw_ack.subrange(0, 16)) as u128;
        if raw_ack.subrange(16, 32) == ack_tag_of(ack_master, fragment_id) && raw_ack.subrange(
            0,
            16,
        ) == be_bytes(fragment_id as int, 16) {
            Some(fragment_id)
        } else {
            None
        }
    }
}

/// Derives the ack key of a fragment from the master key.
pub fn derive_ack_key(ack_master: &[u8; 32], fragment_id: u128) -> (key: [u8; 32])
    ensures
        key@ == ack_key_of(ack_master@, fragment_id),
{
    let id = u128_to_be_bytes(fragment_id);
    let key = hmac_sha256(ack_master.as_slice(), id.as_slice());
    assert(key@ =~= ack_key_of(ack_master@, fragment_id));
    key
}

/// The tag of the ack of a fragment.
fn ack_tag(ack_master: &[u8; 32], fragment_id: u128) -> (tag: [u8; 16])
    ensures
        tag@ == ack_tag_of(ack_master@, fragment_id),
{
    let id = u128_to_be_bytes(fragment_id);
    let key = derive_ack_key(ack_master, fragment_id);
    let full = hmac_sha256(key.as_slice(), id.as_slice());
    let tag = array16_at(full.as_slice(), 0);
    assert(tag@ =~= ack_tag_of(ack_master@, fragment_id));
    tag
}

/// Makes the ack that will come back for a fragment.
pub fn build_ack(ack_master: &[u8; 32], fragment_id: u128) -> (ack: Vec<u8>)
    ensures
        ack@ == ack_bytes(ack_master@, fragment_id),
        ack@.len() == ACK_SIZE,
{
    let id = u128_to_be_bytes(fragment_id);
    let tag = ack_tag(ack_master, fragment_id);
    let mut ack: Vec<u8> = Vec::new();
    append_bytes(&mut ack, id.as_slice());
    append_bytes(&mut ack, tag.as_slice());
    ack
}

/// Reads an ack and checks its tag. Returns the fragment that it acknowledges.
pub fn open_ack(ack_master: &[u8; 32], raw_ack: &[u8]) -> (fragment_id: Option<u128>)
    ensures
        fragment_id == opened_ack(ack_master@, raw_ack@),
{
    if raw_ack.len() != ACK_SIZE {
        return None;
    }
    let id = be_u128_at(raw_ack, 0);
    let expected = build_ack(ack_master, id);
    if bytes_equal(raw_ack, expected.as_slice()) {
        proof {
            lemma_be_bytes_len(id as int, 16);
            assert(raw_ack@.subrange(0, 16) =~= be_bytes(id as int, 16));
            assert(raw_ack@.subrange(16, 32) =~= ack_tag_of(ack_master@, id));
        }
        Some(id)
    } else {
        proof {
            lemma_be_bytes_len(id as int, 16);
            if raw_ack@.subrange(16, 32) == ack_tag_of(ack_master@, id) && raw_ack@.subrange(0, 16)
                == be_bytes(id as int, 16) {
                assert(raw_ack@ =~= raw_ack@.subrange(0, 16) + raw_ack@.subrange(16, 32));
            }
        }
        None
    }
}

/// The ack that the client makes for a fragment is an ack of that fragment.
pub proof fn lemma_own_ack_opens(ack_master: Seq<u8>, fragment_id: u128)
    ensures
        opened_ack(ack_master, ack_bytes(ack_master, fragment_id)) == Some(fragment_id),
{
    let raw = ack_bytes(ack_master, fragment_id);
    lemma_be_bytes_len(fragment_id as int, 16);
    crate::bytes::lemma_pow256_sixteen();
    crate::bytes::lemma_be_round_trip(fragment_id as int, 16);
    assert(raw.subrange(0, 16) =~= be_bytes(fragment_id as int, 16));
    assert(raw.subrange(16, 32) =~= ack_tag_of(ack_master, fragment_id));
}

} // verus!
