//! What travels inside the fragments of a message: the data alone, or the
//! data together with the sender's tag and reply blocks for the answer.
//!
//! A plain message is a zero byte followed by the data. A repliable
//! message is a one, the sender's tag (16 bytes), the number of reply
//! blocks (2 bytes), the length of the material of each (2 bytes), the
//! reply blocks and then the data. A reply block is its id (16 bytes),
//! its first hop (16 bytes), its key (16 bytes) and its material. Numbers
//! are written with the first byte counting most.

use vstd::prelude::*;
use crate::bytes::{
    append_bytes, array16_at, be_bytes, be_u128_at, be_value, copy_range, lemma_be_bytes_len,
    lemma_be_round_trip, lemma_pow256_sixteen, u128_to_be_bytes,
};
use crate::replies::{ReplyKey, SenderTag, Surb, SurbView};

verus! {

pub const KIND_PLAIN: u8 = 0;

pub const KIND_REPLIABLE: u8 = 1;

/// Bytes of a reply block that precede its material.
pub const SURB_HEADER_SIZE: usize = 48;

/// Bytes of a repliable message that precede its reply blocks.
pub const REPLIABLE_HEADER_SIZE: usize = 21;

/// The most reply blocks in one message, and the longest material of one.
pub const MAX_COUNT: usize = 0xffff;

/// A message as it is sent.
#[derive(Debug, PartialEq, Eq)]
pub enum Message {
    Plain { data: Vec<u8> },
    Repliable { sender_tag: SenderTag, surbs: Vec<Surb>, data: Vec<u8> },
}

/// The mathematical content of a message.
pub enum MessageContent {
    Plain { data: Seq<u8> },
    Repliable { sender_tag: SenderTag, surbs: Seq<SurbView>, data: Seq<u8> },
}

/// The views of a sequence of reply blocks.
pub open spec fn surb_views(surbs: Seq<Surb>) -> Seq<SurbView> {
    Seq::new(surbs.len(), |i: int| surbs[i]@)
}

impl View for Message {
    type V = MessageContent;

    open spec fn view(&self) -> MessageContent {
        match self {
            Message::Plain { data } => MessageContent::Plain { data: data@ },
            Message::Repliable { sender_tag, surbs, data } => MessageContent::Repliable {
                sender_tag: *sender_tag,
                surbs: surb_views(surbs@),
                data: data@,
            },
        }
    }
}

/// Why a message cannot be written.
#[derive(Debug, Clone, Copy, PartialEq, Eq, Structural)]
pub enum MessageError {
    /// More reply blocks than two bytes can count.
    TooManySurbs,
    /// A material longer than two bytes can tell.
    SurbTooLong,
    /// The reply blocks do not all have material of one length.
    UnequalSurbs,
}

/// The length of the material of the reply blocks of a message.
pub open spec fn material_len(surbs: Seq<SurbView>) -> nat {
    if surbs.len() == 0 {
        0
    } else {
        surbs[0].material.len()
    }
}

/// The reply blocks can be written: keys of 16 bytes, material of one length, not too many.
pub open spec fn surbs_writable(surbs: Seq<SurbView>) -> bool {
    &&& surbs.len() <= MAX_COUNT
    &&& material_len(surbs) <= MAX_COUNT
    &&& forall|i: int|
        0 <= i < surbs.len() ==> (#[trigger] surbs[i]).material.len() == material_len(surbs)
            && surbs[i].encryption_key.len() == 16
}

/// The bytes of a reply block.
pub open spec fn surb_bytes(surb: SurbView) -> Seq<u8> {
    be_bytes(surb.id as int, 16) + be_bytes(surb.first_hop as int, 16) + surb.encryption_key
        + surb.material
}

/// The bytes of reply blocks, one after the other.
pub open spec fn surbs_bytes(surbs: Seq<SurbView>) -> Seq<u8>
    decreases surbs.len(),
{
    if surbs.len() == 0 {
        Seq::empty()
    } else {
        surbs_bytes(surbs.drop_last()) + surb_bytes(surbs.last())
    }
}

/// The two bytes of a number below 65536.
pub open spec fn short_bytes(value: nat) -> Seq<u8> {
    seq![(value / 256) as u8, (value % 256) as u8]
}

/// The number that two bytes stand for.
pub open spec fn short_value(bytes: Seq<u8>) -> nat {
    (bytes[0] * 256 + bytes[1]) as nat
}

/// The bytes of a message.
pub open spec fn message_bytes(message: MessageContent) -> Seq<u8> {
    match message {
        MessageContent::Plain { data } => seq![KIND_PLAIN] + data,
        MessageContent::Repliable { sender_tag, surbs, data } => seq![KIND_REPLIABLE] + be_bytes(
            sender_tag as int,
            16,
        ) + short_bytes(surbs.len()) + short_bytes(material_len(surbs)) + surbs_bytes(surbs) + data,
    }
}

/// The reply block that stands in a block of bytes.
pub open spec fn parsed_surb(block: Seq<u8>) -> SurbView {
    SurbView {
        id: be_value(block.subrange(0, 16)) as u128,
        first_hop: be_value(block.subrange(16, 32)) as u128,
        encryption_key: block.subrange(32, 48),
        material: block.subrange(48, block.len() as int),
    }
}

/// The message that bytes stand for, if they are a message.
pub open spec fn parsed_message(bytes: Seq<u8>) -> Option<MessageContent> {
    if bytes.len() == 0 {
        None
    } else if bytes[0] == KIND_PLAIN {
        Some(MessageContent::Plain { data: bytes.subrange(1, bytes.len() as int) })
    } else if bytes[0] != KIND_REPLIABLE || bytes.len() < REPLIABLE_HEADER_SIZE {
        None
    } else {
        let count = short_value(bytes.subrange(17, 19));
        let block = SURB_HEADER_SIZE + short_value(bytes.subrange(19, 21));
        let end = REPLIABLE_HEADER_SIZE + count * block;
        if bytes.len() < end {
            None
        } else {
            Some(
                MessageContent::Repliable {
                    sender_tag: be_value(bytes.subrange(1, 17)) as u128,
                    surbs: Seq::new(
                        count,
                        |i: int|
                            parsed_surb(
                                bytes.subrange(
                                    REPLIABLE_HEADER_SIZE + i * block,
                                    REPLIABLE_HEADER_SIZE + i * block + block,
                                ),
                            ),
                    ),
                    data: bytes.subrange(end as int, bytes.len() as int),
                },
            )
        }
    }
}

/// Writes a number below 65536 as two bytes.
fn push_short(bytes: &mut Vec<u8>, value: usize)
    requires
        value <= MAX_COUNT,
    ensures
        final(bytes)@ == old(bytes)@ + short_bytes(value as nat),
{
    bytes.push((value / 256) as u8);
    bytes.push((value % 256) as u8);
    assert(bytes@ =~= old(bytes)@ + short_bytes(value as nat));
}

/// Reads the number that the two bytes from `from` on stand for.
fn short_at(bytes: &[u8], from: usize) -> (value: usize)
    requires
        from + 2 <= bytes@.len(),
    ensures
        value == short_value(bytes@.subrange(from as int, from + 2)),
        value <= MAX_COUNT,
{
    let len = bytes.len();
    bytes[from] as usize * 256 + bytes[from + 1] as usize
}

/// The blocks of `count` reply blocks take `count` times the length of one.
pub proof fn lemma_surbs_bytes(surbs: Seq<SurbView>, block: int)
    requires
        forall|i: int| 0 <= i < surbs.len() ==> surb_bytes(#[trigger] surbs[i]).len() == block,
    ensures
        surbs_bytes(surbs).len() == surbs.len() * block,
        forall|i: int|
            0 <= i < surbs.len() ==> #[trigger] surbs_bytes(surbs).subrange(
                i * block,
                i * block + block,
            ) == surb_bytes(surbs[i]),
    decreases surbs.len(),
{
    if surbs.len() > 0 {
        let earlier = surbs.drop_last();
        let n = earlier.len() as int;
        assert forall|i: int| 0 <= i < earlier.len() implies surb_bytes(#[trigger] earlier[i]).len()
            == block by {
            assert(earlier[i] == surbs[i]);
        }
        lemma_surbs_bytes(earlier, block);
        assert(n * block + block == (n + 1) * block) by (nonlinear_arith);
        assert(surb_bytes(surbs[0]).len() == block);
        assert(block >= 0);
        assert forall|i: int| 0 <= i < surbs.len() implies #[trigger] surbs_bytes(surbs).subrange(
            i * block,
            i * block + block,
        ) == surb_bytes(surbs[i]) by {
            if i < n {
                assert(0 <= i * block && i * block + block <= n * block) by (nonlinear_arith)
                    requires
                        0 <= i < n,
                        block >= 0,
                ;
                assert(surbs_bytes(surbs).subrange(i * block, i * block + block) =~= surbs_bytes(
                    earlier,
                ).subrange(i * block, i * block + block));
                assert(earlier[i] == surbs[i]);
            } else {
                assert(surbs_bytes(surbs).subrange(n * block, n * block + block) =~= surb_bytes(
                    surbs.last(),
                ));
            }
        }
    } else {
        assert(surbs.len() * block == 0) by (nonlinear_arith)
            requires
                surbs.len() == 0,
        ;
    }
}

/// A reply block that was written is read back.
pub proof fn lemma_surb_round_trip(surb: SurbView)
    requires
        surb.encryption_key.len() == 16,
    ensures
        parsed_surb(surb_bytes(surb)) == surb,
        surb_bytes(surb).len() == SURB_HEADER_SIZE + surb.material.len(),
{
    let bytes = surb_bytes(surb);
    lemma_be_bytes_len(surb.id as int, 16);
    lemma_be_bytes_len(surb.first_hop as int, 16);
    lemma_pow256_sixteen();
    lemma_be_round_trip(surb.id as int, 16);
    lemma_be_round_trip(surb.first_hop as int, 16);
    assert(bytes.subrange(0, 16) =~= be_bytes(surb.id as int, 16));
    assert(bytes.subrange(16, 32) =~= be_bytes(surb.first_hop as int, 16));
    assert(bytes.subrange(32, 48) =~= surb.encryption_key);
    assert(bytes.subrange(48, bytes.len() as int) =~= surb.material);
}

/// A message that was written is read back.
pub proof fn lemma_message_round_trip(message: MessageContent)
    requires
        message matches MessageContent::Repliable { surbs, .. } ==> surbs_writable(surbs),
    ensures
        parsed_message(message_bytes(message)) == Some(message),
{
    let bytes = message_bytes(message);
    match message {
        MessageContent::Plain { data } => {
            assert(bytes.subrange(1, bytes.len() as int) =~= data);
        },
        MessageContent::Repliable { sender_tag, surbs, data } => {
            let count = surbs.len() as int;
            let m = material_len(surbs) as int;
            let block = SURB_HEADER_SIZE + m;
            lemma_be_bytes_len(sender_tag as int, 16);
            lemma_pow256_sixteen();
            lemma_be_round_trip(sender_tag as int, 16);
            assert forall|i: int| 0 <= i < surbs.len() implies surb_bytes(#[trigger] surbs[i]).len()
                == block by {
                lemma_surb_round_trip(surbs[i]);
            }
            lemma_surbs_bytes(surbs, block);
            let head = seq![KIND_REPLIABLE] + be_bytes(sender_tag as int, 16) + short_bytes(
                surbs.len(),
            ) + short_bytes(material_len(surbs));
            assert(head.len() == REPLIABLE_HEADER_SIZE);
            assert(bytes =~= head + surbs_bytes(surbs) + data);
            assert(bytes.subrange(1, 17) =~= be_bytes(sender_tag as int, 16));
            assert(bytes.subrange(17, 19) =~= short_bytes(surbs.len()));
            assert(bytes.subrange(19, 21) =~= short_bytes(material_len(surbs)));
            assert(short_value(short_bytes(surbs.len())) == surbs.len());
            assert(short_value(short_bytes(material_len(surbs))) == material_len(surbs));
            let end = REPLIABLE_HEADER_SIZE + count * block;
            assert(bytes.len() == end + data.len());
            assert(count * block >= 0) by (nonlinear_arith)
                requires
                    count >= 0,
                    block >= 0,
            ;
            assert(bytes.subrange(end, bytes.len() as int) =~= data);
            let parsed = parsed_message(bytes);
            assert(parsed is Some);
            let read = parsed.unwrap()->surbs;
            assert forall|i: int| 0 <= i < count implies #[trigger] read[i] == surbs[i] by {
                assert(0 <= i * block && i * block + block <= count * block) by (nonlinear_arith)
                    requires
                        0 <= i < count,
                        block >= 0,
                ;
                assert(bytes.subrange(
                    REPLIABLE_HEADER_SIZE + i * block,
                    REPLIABLE_HEADER_SIZE + i * block + block,
                ) =~= surbs_bytes(surbs).subrange(i * block, i * block + block));
                lemma_surb_round_trip(surbs[i]);
            }
            assert(read =~= surbs);
        },
    }
}

/// Appends the bytes of a reply block.
fn push_surb(bytes: &mut Vec<u8>, surb: &Surb)
    ensures
        final(bytes)@ == old(bytes)@ + surb_bytes(surb@),
{
    let id = u128_to_be_bytes(surb.id);
    let first_hop = u128_to_be_bytes(surb.first_hop);
    append_bytes(bytes, id.as_slice());
    append_bytes(bytes, first_hop.as_slice());
    append_bytes(bytes, surb.encryption_key.bytes.as_slice());
    append_bytes(bytes, surb.material.as_slice());
    assert(bytes@ =~= old(bytes)@ + surb_bytes(surb@));
}

/// Writes a message to bytes.
pub fn encode_message(message: &Message) -> (res: Result<Vec<u8>, MessageError>)
    ensures
        message is Plain ==> res is Ok,
        message matches Message::Repliable { surbs, .. } ==> {
            let views = surb_views(surbs@);
            &&& res is Ok <==> surbs_writable(views)
            &&& views.len() > MAX_COUNT ==> res == Err::<Vec<u8>, MessageError>(
                MessageError::TooManySurbs,
            )
            &&& views.len() <= MAX_COUNT && material_len(views) > MAX_COUNT ==> res == Err::<
                Vec<u8>,
                MessageError,
            >(MessageError::SurbTooLong)
            &&& views.len() <= MAX_COUNT && material_len(views) <= MAX_COUNT
                && !surbs_writable(views)
                ==> res == Err::<Vec<u8>, MessageError>(MessageError::UnequalSurbs)
        },
        res is Ok ==> res->Ok_0@ == message_bytes(message@),
{
    let mut bytes: Vec<u8> = Vec::new();
    match message {
        Message::Plain { data } => {
            bytes.push(KIND_PLAIN);
            append_bytes(&mut bytes, data.as_slice());
            Ok(bytes)
        },
        Message::Repliable { sender_tag, surbs, data } => {
            let ghost views = surb_views(surbs@);
            if surbs.len() > MAX_COUNT {
                return Err(MessageError::TooManySurbs);
            }
            let material = if surbs.len() == 0 {
                0
            } else {
                surbs[0].material.len()
            };
            assert(material == material_len(views));
            if material > MAX_COUNT {
                return Err(MessageError::SurbTooLong);
            }
            let tag = u128_to_be_bytes(*sender_tag);
            bytes.push(KIND_REPLIABLE);
            append_bytes(&mut bytes, tag.as_slice());
            push_short(&mut bytes, surbs.len());
            push_short(&mut bytes, material);
            let ghost head = bytes@;
            let mut i: usize = 0;
            assert(views.subrange(0, 0) =~= Seq::<SurbView>::empty());
            while i < surbs.len()
                invariant
                    i <= surbs@.len(),
                    *message == (Message::Repliable {
                        sender_tag: *sender_tag,
                        surbs: *surbs,
                        data: *data,
                    }),
                    views == surb_views(surbs@),
                    views.len() <= MAX_COUNT,
                    material <= MAX_COUNT,
                    material == material_len(views),
                    bytes@ == head + surbs_bytes(views.subrange(0, i as int)),
                    forall|j: int|
                        0 <= j < i ==> (#[trigger] views[j]).material.len() == material
                            && views[j].encryption_key.len() == 16,
                decreases surbs@.len() - i,
            {
                if surbs[i].material.len() != material {
                    assert(views[i as int].material.len() != material_len(views));
                    return Err(MessageError::UnequalSurbs);
                }
                push_surb(&mut bytes, &surbs[i]);
                proof {
                    assert(views.subrange(0, i + 1).drop_last() =~= views.subrange(0, i as int));
                    assert(views.subrange(0, i + 1).last() == surbs@[i as int]@);
                    assert(bytes@ =~= head + surbs_bytes(views.subrange(0, i + 1)));
                }
                i += 1;
            }
            assert(views.subrange(0, views.len() as int) =~= views);
            append_bytes(&mut bytes, data.as_slice());
            assert(bytes@ =~= message_bytes(message@));
            Ok(bytes)
        },
    }
}

/// Reads a message from bytes.
pub fn decode_message(bytes: &[u8]) -> (message: Option<Message>)
    ensures
        message is Some <==> parsed_message(bytes@) is Some,
        message is Some ==> message.unwrap()@ == parsed_message(bytes@).unwrap(),
{
    let len = bytes.len();
    if len == 0 {
        return None;
    }
    if bytes[0] == KIND_PLAIN {
        return Some(Message::Plain { data: copy_range(bytes, 1, len) });
    }
    if bytes[0] != KIND_REPLIABLE || len < REPLIABLE_HEADER_SIZE {
        return None;
    }
    let sender_tag = be_u128_at(bytes, 1);
    let count = short_at(bytes, 17);
    let material = short_at(bytes, 19);
    let block = SURB_HEADER_SIZE + material;
    assert(count * block <= MAX_COUNT * (SURB_HEADER_SIZE + MAX_COUNT)) by (nonlinear_arith)
        requires
            count <= MAX_COUNT,
            block <= SURB_HEADER_SIZE + MAX_COUNT,
    ;
    let end = REPLIABLE_HEADER_SIZE as u64 + count as u64 * block as u64;
    if (len as u64) < end {
        return None;
    }
    let mut surbs: Vec<Surb> = Vec::new();
    let mut i: usize = 0;
    while i < count
        invariant
            i <= count <= MAX_COUNT,
            len == bytes@.len(),
            block == SURB_HEADER_SIZE + material,
            material <= MAX_COUNT,
            REPLIABLE_HEADER_SIZE + count * block <= len,
            surbs@.len() == i,
            forall|j: int|
                0 <= j < i ==> (#[trigger] surbs@[j])@ == parsed_surb(
                    bytes@.subrange(
                        REPLIABLE_HEADER_SIZE + j * block,
                        REPLIABLE_HEADER_SIZE + j * block + block,
                    ),
                ),
        decreases count - i,
    {
        assert(0 <= i * block && i * block + block <= count * block) by (nonlinear_arith)
            requires
                0 <= i < count,
                block >= 0,
        ;
        let start = REPLIABLE_HEADER_SIZE + i * block;
        let ghost piece = bytes@.subrange(start as int, start + block);
        let id = be_u128_at(bytes, start);
        let first_hop = be_u128_at(bytes, start + 16);
        let key = array16_at(bytes, start + 32);
        let body = copy_range(bytes, start + SURB_HEADER_SIZE, start + block);
        let surb = Surb { id, first_hop, encryption_key: ReplyKey { bytes: key }, material: body };
        proof {
            assert(piece.subrange(0, 16) =~= bytes@.subrange(start as int, start + 16));
            assert(piece.subrange(16, 32) =~= bytes@.subrange(start + 16, start + 32));
            assert(piece.subrange(32, 48) =~= bytes@.subrange(start + 32, start + 48));
            assert(piece.subrange(48, piece.len() as int) =~= bytes@.subrange(
                start + 48,
                start + block,
            ));
            assert(surb@ == parsed_surb(piece));
        }
        surbs.push(surb);
        i += 1;
    }
    let data = copy_range(bytes, REPLIABLE_HEADER_SIZE + count * block, len);
    let message = Message::Repliable { sender_tag, surbs, data };
    proof {
        assert(parsed_message(bytes@) is Some);
        assert(surb_views(surbs@) =~= parsed_message(bytes@).unwrap()->surbs);
    }
    Some(message)
}

} // verus!
