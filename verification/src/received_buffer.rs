//! The received-messages buffer controller: it decrypts what comes back
//! from the mixnet, puts fragments together, drops what it has delivered
//! before and hands complete messages to the consumer.
//!
//! An inbound frame is a clear tag of 32 bytes followed by a ciphertext.
//! For a frame addressed to the client's encryption key the tag is the
//! sender's key share; for a reply the first 16 bytes of the tag name the
//! reply block. A decrypted payload is accepted when it begins with 16
//! zero bytes and a consistent fragment header follows.

use vstd::prelude::*;
use crate::bytes::{
    all_zero, append_bytes, array16_at, array32_at, be_bytes, be_u128_at, be_value, copy_range,
    u128_to_be_bytes,
};
use crate::crypto::{
    aes128_ctr, aes128_ctr_output, basepoint_bytes, hkdf_sha256, hkdf_sha256_output, x25519,
    x25519_basepoint, x25519_output,
};
use crate::error::{ClientCoreError, TelemetryEvent};
use crate::fragments::{
    complete, fragment_bytes, joined, lemma_fragment_round_trip, parsed_fragment, unpadded, Fragment,
    FragmentView,
};
use crate::reassembly::{
    remembered, stored, ReassemblyOutcome, ReassemblyTable, RecentlyCompleted,
};
use crate::messages::{decode_message, parsed_message, surb_views, Message, MessageContent};
use crate::replies::{
    ReplyControlRequest, ReplyController, ReplyKey, SenderTag, SentKey, SentReplyKeys, Surb, SurbId,
    SurbView,
};

verus! {

/// How many complete messages are kept while no consumer is registered.
pub const MAX_PENDING_DELIVERIES: usize = 1024;

/// Length of the clear tag of an inbound frame.
pub const CLEAR_TAG_SIZE: usize = 32;

/// Zero bytes that open every payload; they show that the right key was used.
pub const INTEGRITY_PREFIX_SIZE: usize = 16;

/// A complete message, as the consumer gets it.
#[derive(Debug, Clone, PartialEq, Eq)]
pub struct ReconstructedMessage {
    pub message: Vec<u8>,
    pub sender_tag: Option<SenderTag>,
}

/// The mathematical content of a complete message.
pub struct MessageView {
    pub message: Seq<u8>,
    pub sender_tag: Option<SenderTag>,
}

impl View for ReconstructedMessage {
    type V = MessageView;

    open spec fn view(&self) -> MessageView {
        MessageView { message: self.message@, sender_tag: self.sender_tag }
    }
}

/// The views of a sequence of messages.
pub open spec fn message_views(messages: Seq<ReconstructedMessage>) -> Seq<MessageView> {
    Seq::new(messages.len(), |i: int| messages[i]@)
}

/// The payload that `fragment` completes in `table`, if it completes one.
pub open spec fn completion(table: ReassemblyTable, fragment: FragmentView) -> Option<Seq<u8>> {
    let id = fragment.message_id;
    if table.holds(id) && (table.total(id) != fragment.total || table.parts(id).contains_key(
        fragment.index as int,
    )) {
        None
    } else {
        let gathered = table.parts(id).insert(fragment.index as int, fragment.data);
        if complete(gathered, fragment.total as int) {
            unpadded(joined(gathered, fragment.total as int))
        } else {
            None
        }
    }
}

/// The backlog after `message` was added: when it is full the oldest message goes.
pub open spec fn backlog_with(backlog: Seq<MessageView>, message: MessageView) -> Seq<MessageView> {
    if backlog.len() >= MAX_PENDING_DELIVERIES {
        backlog.drop_first().push(message)
    } else {
        backlog.push(message)
    }
}

/// The number that the first 16 bytes stand for, the first byte counting most.
pub open spec fn tag_value(bytes: Seq<u8>) -> u128
    recommends
        bytes.len() >= 16,
{
    be_value(bytes.subrange(0, 16)) as u128
}

/// Reads the number that the first 16 bytes stand for.
pub fn read_tag_value(bytes: &[u8]) -> (value: u128)
    requires
        bytes@.len() >= 16,
    ensures
        value == tag_value(bytes@),
{
    be_u128_at(bytes, 0)
}

/// The payload of a frame, decrypted with the key that the local
/// encryption key and the frame's tag agree on.
pub open spec fn opened_with_local_key(local_secret: Seq<u8>, frame: Seq<u8>) -> Seq<u8> {
    let dh = x25519_output(local_secret, frame.subrange(0, 32));
    aes128_ctr_output(
        hkdf_sha256_output(dh).subrange(0, 16),
        frame.subrange(32, frame.len() as int),
    )
}

/// The payload of a frame, decrypted with a reply key.
pub open spec fn opened_with_reply_key(key: ReplyKey, frame: Seq<u8>) -> Seq<u8> {
    aes128_ctr_output(key.bytes@, frame.subrange(32, frame.len() as int))
}

/// The fragment inside a decrypted payload, if the payload is sound.
pub open spec fn payload_fragment(payload: Seq<u8>) -> Option<FragmentView> {
    if payload.len() < INTEGRITY_PREFIX_SIZE {
        None
    } else if exists|i: int| 0 <= i < INTEGRITY_PREFIX_SIZE && payload[i] != 0 {
        None
    } else {
        parsed_fragment(payload.subrange(INTEGRITY_PREFIX_SIZE as int, payload.len() as int))
    }
}

/// How an inbound frame was opened.
#[derive(Debug, Clone, PartialEq, Eq)]
pub enum Opened {
    /// With the local encryption key.
    WithLocalKey { fragment: Fragment },
    /// With the reply key of this reply block; the key is used up.
    WithReplyKey { surb_id: SurbId, fragment: Fragment },
    /// With no key that the client holds.
    Undecryptable,
}

/// What opening `frame` gives, with the local key tried first and then
/// the reply key that the frame's tag names.
pub open spec fn opening(
    local_secret: Seq<u8>,
    keys: Map<SurbId, SentKey>,
    frame: Seq<u8>,
) -> (Option<SurbId>, Option<FragmentView>) {
    if frame.len() < CLEAR_TAG_SIZE {
        (None, None)
    } else {
        let local = payload_fragment(opened_with_local_key(local_secret, frame));
        let surb_id = tag_value(frame);
        if local is Some {
            (None, local)
        } else if keys.contains_key(surb_id) {
            let reply = payload_fragment(opened_with_reply_key(keys[surb_id].key, frame));
            if reply is Some {
                (Some(surb_id), reply)
            } else {
                (None, None)
            }
        } else {
            (None, None)
        }
    }
}

/// Reads the fragment inside a decrypted payload.
pub fn read_payload(payload: &[u8]) -> (fragment: Option<Fragment>)
    ensures
        fragment is Some <==> payload_fragment(payload@) is Some,
        fragment is Some ==> fragment.unwrap()@ == payload_fragment(payload@).unwrap()
            && fragment.unwrap()@.wf(),
{
    if payload.len() < INTEGRITY_PREFIX_SIZE {
        return None;
    }
    let prefix = copy_range(payload, 0, INTEGRITY_PREFIX_SIZE);
    if !all_zero(prefix.as_slice()) {
        proof {
            let i = choose|i: int| 0 <= i < prefix@.len() && prefix@[i] != 0;
            assert(payload@[i] == prefix@[i]);
        }
        return None;
    }
    proof {
        assert forall|i: int| 0 <= i < INTEGRITY_PREFIX_SIZE implies payload@[i] == 0 by {
            assert(payload@[i] == prefix@[i]);
        }
    }
    let rest = copy_range(payload, INTEGRITY_PREFIX_SIZE, payload.len());
    match Fragment::from_bytes(rest.as_slice()) {
        Ok(fragment) => Some(fragment),
        Err(_) => None,
    }
}

/// Opens an inbound frame: first with the local encryption key, then with
/// the reply key that the frame's tag names. A reply key that opened a
/// frame is removed from `keys`; otherwise `keys` stays as it is.
pub fn open_frame(local_secret: &[u8; 32], keys: &mut SentReplyKeys, frame: &[u8]) -> (opened:
    Opened)
    requires
        old(keys).wf(),
    ensures
        final(keys).wf(),
        ({
            let (used, fragment) = opening(local_secret@, old(keys)@, frame@);
            &&& fragment is None <==> opened is Undecryptable
            &&& fragment is Some && used is None ==> (opened matches Opened::WithLocalKey {
                fragment: f,
            } && f@ == fragment.unwrap() && f@.wf())
            &&& fragment is Some && used is Some ==> (opened matches Opened::WithReplyKey {
                surb_id,
                fragment: f,
            } && surb_id == used.unwrap() && f@ == fragment.unwrap() && f@.wf())
            &&& used is Some ==> final(keys)@ == old(keys)@.remove(used.unwrap())
            &&& used is None ==> final(keys)@ == old(keys)@
        }),
{
    if frame.len() < CLEAR_TAG_SIZE {
        return Opened::Undecryptable;
    }
    let share = array32_at(frame, 0);
    let ciphertext = copy_range(frame, CLEAR_TAG_SIZE, frame.len());
    let dh = x25519(local_secret, &share);
    let okm = hkdf_sha256(&dh);
    let local_key = array16_at(okm.as_slice(), 0);
    let payload = aes128_ctr(&local_key, ciphertext.as_slice());
    if let Some(fragment) = read_payload(payload.as_slice()) {
        return Opened::WithLocalKey { fragment };
    }
    let surb_id = read_tag_value(frame);
    match keys.peek(surb_id) {
        None => Opened::Undecryptable,
        Some(key) => {
            let payload = aes128_ctr(&key.bytes, ciphertext.as_slice());
            match read_payload(payload.as_slice()) {
                Some(fragment) => {
                    let _ = keys.try_take(surb_id);
                    Opened::WithReplyKey { surb_id, fragment }
                },
                None => Opened::Undecryptable,
            }
        },
    }
}

/// The frame that carries `fragment` to the owner of `recipient_public`:
/// the sender's key share, then the payload sealed with the key that both
/// sides derive.
pub open spec fn addressed_frame(
    recipient_public: Seq<u8>,
    ephemeral_secret: Seq<u8>,
    fragment: FragmentView,
) -> Seq<u8> {
    x25519_output(ephemeral_secret, x25519_basepoint()) + aes128_ctr_output(
        hkdf_sha256_output(x25519_output(ephemeral_secret, recipient_public)).subrange(0, 16),
        Seq::new(INTEGRITY_PREFIX_SIZE as nat, |i: int| 0u8) + fragment_bytes(fragment),
    )
}

/// Seals a fragment for the client whose encryption key is
/// `recipient_public`; `ephemeral_secret` are 32 fresh random bytes. The
/// client opens the frame with its local key and finds the fragment.
pub fn seal_frame_for(
    recipient_public: &[u8; 32],
    ephemeral_secret: &[u8; 32],
    fragment: &Fragment,
) -> (frame: Vec<u8>)
    ensures
        frame@ == addressed_frame(recipient_public@, ephemeral_secret@, fragment@),
        frame@.len() == CLEAR_TAG_SIZE + INTEGRITY_PREFIX_SIZE + fragment_bytes(fragment@).len(),
        fragment@.wf() ==> forall|local_secret: Seq<u8>, keys: Map<SurbId, SentKey>|
            local_secret.len() == 32 && recipient_public@ == #[trigger] x25519_output(
                local_secret,
                x25519_basepoint(),
            ) ==> #[trigger] opening(local_secret, keys, frame@) == (
                None::<SurbId>,
                Some(fragment@),
            ),
{
    let base = basepoint_bytes();
    let share = x25519(ephemeral_secret, &base);
    let dh = x25519(ephemeral_secret, recipient_public);
    let okm = hkdf_sha256(&dh);
    let key = array16_at(okm.as_slice(), 0);
    let zeros = [0u8; 16];
    let mut payload: Vec<u8> = Vec::new();
    append_bytes(&mut payload, zeros.as_slice());
    let written = fragment.to_bytes();
    append_bytes(&mut payload, written.as_slice());
    let sealed = aes128_ctr(&key, payload.as_slice());
    let mut frame: Vec<u8> = Vec::new();
    append_bytes(&mut frame, share.as_slice());
    append_bytes(&mut frame, sealed.as_slice());
    proof {
        let blank = Seq::new(16, |i: int| 0u8);
        assert(zeros@ =~= blank);
        assert(payload@ =~= blank + fragment_bytes(fragment@));
        assert(key@ =~= hkdf_sha256_output(dh@).subrange(0, 16));
        assert(frame@ =~= addressed_frame(recipient_public@, ephemeral_secret@, fragment@));
        assert(frame@.subrange(0, 32) =~= share@);
        assert(frame@.subrange(32, frame@.len() as int) =~= sealed@);
        if fragment@.wf() {
            lemma_fragment_round_trip(fragment@);
            assert(payload@.subrange(INTEGRITY_PREFIX_SIZE as int, payload@.len() as int)
                =~= fragment_bytes(fragment@));
            assert(payload_fragment(payload@) == Some(fragment@));
            assert forall|local_secret: Seq<u8>, keys: Map<SurbId, SentKey>|
                local_secret.len() == 32 && recipient_public@ == #[trigger] x25519_output(
                    local_secret,
                    x25519_basepoint(),
                ) implies #[trigger] opening(local_secret, keys, frame@) == (
                None::<SurbId>,
                Some(fragment@),
            ) by {
                assert(dh@ == x25519_output(local_secret, share@));
                assert(opened_with_local_key(local_secret, frame@) == payload@);
            }
        }
    }
    frame
}

/// The frame that carries `fragment` back on the reply block `surb_id`:
/// the block's id, 16 zero bytes that fill the tag, and the payload sealed
/// with the block's key.
pub open spec fn reply_frame(surb_id: SurbId, key: ReplyKey, fragment: FragmentView) -> Seq<u8> {
    be_bytes(surb_id as int, 16) + Seq::new(16, |i: int| 0u8) + aes128_ctr_output(
        key.bytes@,
        Seq::new(INTEGRITY_PREFIX_SIZE as nat, |i: int| 0u8) + fragment_bytes(fragment),
    )
}

/// Seals a fragment for the owner of a reply block: this is what whoever
/// answers on the block sends. The owner, who kept the block's key, opens
/// the frame with it and finds the fragment, unless the frame happens to
/// open with the owner's local key as well.
pub fn seal_reply_frame(surb_id: SurbId, key: &ReplyKey, fragment: &Fragment) -> (frame: Vec<u8>)
    ensures
        frame@ == reply_frame(surb_id, *key, fragment@),
        frame@.len() == CLEAR_TAG_SIZE + INTEGRITY_PREFIX_SIZE + fragment_bytes(fragment@).len(),
        tag_value(frame@) == surb_id,
        fragment@.wf() ==> payload_fragment(opened_with_reply_key(*key, frame@)) == Some(fragment@),
        fragment@.wf() ==> forall|local_secret: Seq<u8>, keys: Map<SurbId, SentKey>|
            keys.contains_key(surb_id) && keys[surb_id].key == *key && payload_fragment(
                opened_with_local_key(local_secret, frame@),
            ) is None ==> #[trigger] opening(local_secret, keys, frame@) == (
                Some(surb_id),
                Some(fragment@),
            ),
{
    let tag = u128_to_be_bytes(surb_id);
    let zeros = [0u8; 16];
    let mut payload: Vec<u8> = Vec::new();
    append_bytes(&mut payload, zeros.as_slice());
    let written = fragment.to_bytes();
    append_bytes(&mut payload, written.as_slice());
    let sealed = aes128_ctr(&key.bytes, payload.as_slice());
    let mut frame: Vec<u8> = Vec::new();
    append_bytes(&mut frame, tag.as_slice());
    append_bytes(&mut frame, zeros.as_slice());
    append_bytes(&mut frame, sealed.as_slice());
    proof {
        let blank = Seq::new(16, |i: int| 0u8);
        assert(zeros@ =~= blank);
        assert(payload@ =~= blank + fragment_bytes(fragment@));
        assert(frame@ =~= reply_frame(surb_id, *key, fragment@));
        assert(frame@.subrange(0, 16) =~= tag@);
        assert(frame@.subrange(32, frame@.len() as int) =~= sealed@);
        assert(opened_with_reply_key(*key, frame@) == payload@);
        if fragment@.wf() {
            lemma_fragment_round_trip(fragment@);
            assert(payload@.subrange(INTEGRITY_PREFIX_SIZE as int, payload@.len() as int)
                =~= fragment_bytes(fragment@));
            assert(payload_fragment(payload@) == Some(fragment@));
        }
    }
    frame
}

/// Buffers, reassembles and delivers what the client receives.
pub struct ReceivedMessagesBufferController {
    reassembly: ReassemblyTable,
    completed: RecentlyCompleted,
    consumer_connected: bool,
    backlog: Vec<ReconstructedMessage>,
    undecryptable: u64,
}

impl ReceivedMessagesBufferController {
    pub closed spec fn wf(&self) -> bool {
        &&& self.reassembly.wf()
        &&& self.completed.wf()
        &&& self.backlog@.len() <= MAX_PENDING_DELIVERIES
        &&& self.consumer_connected ==> self.backlog@.len() == 0
    }

    /// The fragments of incomplete messages.
    pub closed spec fn reassembly(&self) -> ReassemblyTable {
        self.reassembly
    }

    /// The ids of the messages delivered lately, oldest first.
    pub closed spec fn completed(&self) -> Seq<u64> {
        self.completed@
    }

    /// How many ids of delivered messages are remembered.
    pub closed spec fn dedupe_capacity(&self) -> nat {
        self.completed.capacity()
    }

    /// Whether a consumer is registered.
    pub closed spec fn connected(&self) -> bool {
        self.consumer_connected
    }

    /// The messages that wait for a consumer, oldest first.
    pub closed spec fn backlog(&self) -> Seq<MessageView> {
        message_views(self.backlog@)
    }

    /// How many frames could not be decrypted.
    pub closed spec fn undecryptable(&self) -> u64 {
        self.undecryptable
    }

    /// A controller without consumer, fragments or history.
    pub fn new(reassembly_capacity: usize, dedupe_capacity: usize) -> (controller:
        ReceivedMessagesBufferController)
        ensures
            controller.wf(),
            !controller.connected(),
            controller.backlog() == Seq::<MessageView>::empty(),
            controller.completed() == Seq::<u64>::empty(),
            controller.dedupe_capacity() == dedupe_capacity,
            controller.undecryptable() == 0,
            controller.reassembly().capacity() == if reassembly_capacity == 0 {
                1
            } else {
                reassembly_capacity as nat
            },
            controller.reassembly().held_ids() == Seq::<u128>::empty(),
            forall|id: u64| !#[trigger] controller.reassembly().holds(id),
    {
        let controller = ReceivedMessagesBufferController {
            reassembly: ReassemblyTable::new(reassembly_capacity),
            completed: RecentlyCompleted::new(dedupe_capacity),
            consumer_connected: false,
            backlog: Vec::new(),
            undecryptable: 0,
        };
        assert(controller.backlog() =~= Seq::<MessageView>::empty());
        controller
    }

    /// Registers the consumer and hands it the messages that waited for it.
    /// Only one consumer can be registered at a time.
    pub fn connect_consumer(&mut self) -> (res: Result<Vec<ReconstructedMessage>, ClientCoreError>)
        requires
            old(self).wf(),
        ensures
            final(self).wf(),
            final(self).dedupe_capacity() == old(self).dedupe_capacity(),
            final(self).reassembly() == old(self).reassembly(),
            final(self).completed() == old(self).completed(),
            final(self).undecryptable() == old(self).undecryptable(),
            old(self).connected() ==> res == Err::<Vec<ReconstructedMessage>, ClientCoreError>(
                ClientCoreError::ConsumerAlreadyRegistered,
            ) && final(self).connected() && final(self).backlog() == old(self).backlog(),
            !old(self).connected() ==> res is Ok && message_views(res->Ok_0@)
                == old(self).backlog() && final(self).connected() && final(self).backlog() == Seq::<
                MessageView,
            >::empty(),
    {
        if self.consumer_connected {
            return Err(ClientCoreError::ConsumerAlreadyRegistered);
        }
        self.consumer_connected = true;
        let mut waiting: Vec<ReconstructedMessage> = Vec::new();
        std::mem::swap(&mut self.backlog, &mut waiting);
        assert(final(self).backlog() =~= Seq::<MessageView>::empty());
        Ok(waiting)
    }

    /// The consumer went away; messages are kept for the next one.
    pub fn disconnect_consumer(&mut self)
        requires
            old(self).wf(),
        ensures
            final(self).wf(),
            final(self).dedupe_capacity() == old(self).dedupe_capacity(),
            !final(self).connected(),
            final(self).backlog() == old(self).backlog(),
            final(self).reassembly() == old(self).reassembly(),
            final(self).completed() == old(self).completed(),
            final(self).undecryptable() == old(self).undecryptable(),
    {
        self.consumer_connected = false;
    }

    /// Counts a frame that could not be decrypted and reports it.
    pub fn note_undecryptable(&mut self) -> (event: TelemetryEvent)
        requires
            old(self).wf(),
        ensures
            final(self).wf(),
            final(self).dedupe_capacity() == old(self).dedupe_capacity(),
            event == TelemetryEvent::UndecryptableInbound,
            old(self).undecryptable() < u64::MAX ==> final(self).undecryptable()
                == old(self).undecryptable() + 1,
            old(self).undecryptable() == u64::MAX ==> final(self).undecryptable() == u64::MAX,
            final(self).connected() == old(self).connected(),
            final(self).backlog() == old(self).backlog(),
            final(self).reassembly() == old(self).reassembly(),
            final(self).completed() == old(self).completed(),
    {
        self.undecryptable = self.undecryptable.saturating_add(1);
        TelemetryEvent::UndecryptableInbound
    }

    /// Whether a consumer is registered.
    pub fn is_connected(&self) -> (connected: bool)
        ensures
            connected == self.connected(),
    {
        self.consumer_connected
    }

    /// How many messages wait for a consumer.
    pub fn backlog_len(&self) -> (n: usize)
        ensures
            n == self.backlog().len(),
    {
        self.backlog.len()
    }

    /// How many frames could not be decrypted so far.
    pub fn undecryptable_count(&self) -> (n: u64)
        ensures
            n == self.undecryptable(),
    {
        self.undecryptable
    }

    /// Whether `message_id` is remembered as delivered.
    pub fn was_delivered(&self, message_id: u64) -> (delivered: bool)
        ensures
            delivered == self.completed().contains(message_id),
    {
        self.completed.contains(message_id)
    }

    /// Takes in one frame from the gateway. The frame is opened with the
    /// local key or with the reply key that it names; what cannot be opened
    /// is counted and reported; a fragment goes on to `handle_fragment`.
    pub fn handle_frame(
        &mut self,
        local_secret: &[u8; 32],
        replies: &mut ReplyController,
        frame: &[u8],
        now_ms: u64,
    ) -> (out: (Vec<ReconstructedMessage>, Option<TelemetryEvent>))
        requires
            old(self).wf(),
            old(replies).wf(),
        ensures
            final(self).wf(),
            final(replies).wf(),
            final(self).connected() == old(self).connected(),
            final(self).dedupe_capacity() == old(self).dedupe_capacity(),
            final(replies).ttl() == old(replies).ttl(),
            ({
                let (used, fragment) = opening(local_secret@, old(replies).keys(), frame@);
                &&& used is Some ==> final(replies).keys() == old(replies).keys().remove(
                    used.unwrap(),
                )
                &&& used is None ==> final(replies).keys() == old(replies).keys()
                &&& out.1 is Some <==> fragment is None
                &&& out.1 is Some ==> out.1 == Some(TelemetryEvent::UndecryptableInbound)
                    && out.0@.len() == 0 && final(self).backlog() == old(self).backlog()
                        && final(self).completed() == old(self).completed()
                        && final(self).undecryptable() == if old(self).undecryptable() == u64::MAX {
                    u64::MAX
                } else {
                    (old(self).undecryptable() + 1) as u64
                } && final(self).reassembly() == old(self).reassembly()
                    && forall|tag: SenderTag| #[trigger]
                    final(replies).surbs(tag) == old(replies).surbs(tag)
                &&& fragment is Some ==> {
                    let done = completion(old(self).reassembly(), fragment.unwrap());
                    let fresh = !old(self).completed().contains(fragment.unwrap().message_id);
                    let delivered = if done is Some && fresh {
                        delivery(done.unwrap())
                    } else {
                        None
                    };
                    &&& final(self).undecryptable() == old(self).undecryptable()
                    &&& stored(old(self).reassembly(), final(self).reassembly(), fragment.unwrap())
                    &&& final(self).completed() == if done is Some {
                        remembered(
                            old(self).completed(),
                            fragment.unwrap().message_id,
                            old(self).dedupe_capacity(),
                        )
                    } else {
                        old(self).completed()
                    }
                    &&& match delivered {
                        Some((message, surbs)) => {
                            &&& old(self).connected() ==> message_views(out.0@) == seq![message]
                                && final(self).backlog() == old(self).backlog()
                            &&& !old(self).connected() ==> out.0@.len() == 0
                                && final(self).backlog() == backlog_with(old(self).backlog(),
                                message)
                            &&& forall|tag: SenderTag|
                                #![trigger final(replies).surbs(tag)]
                                surb_views(final(replies).surbs(tag)) == if Some(tag)
                                    == message.sender_tag {
                                    surb_views(old(replies).surbs(tag)) + surbs
                                } else {
                                    surb_views(old(replies).surbs(tag))
                                }
                        },
                        None => {
                            &&& out.0@.len() == 0
                            &&& final(self).backlog() == old(self).backlog()
                            &&& forall|tag: SenderTag| #[trigger]
                                final(replies).surbs(tag) == old(replies).surbs(tag)
                        },
                    }
                }
            }),
    {
        match replies.open_frame(local_secret, frame) {
            Opened::Undecryptable => {
                let event = self.note_undecryptable();
                (Vec::new(), Some(event))
            },
            Opened::WithLocalKey { fragment } => (self.handle_fragment(fragment, replies,
                now_ms), None),
            Opened::WithReplyKey { fragment, .. } => (
                self.handle_fragment(fragment, replies, now_ms),
                None,
            ),
        }
    }

    /// Takes in one decrypted fragment. If it completes a message that was
    /// not delivered before, the message is read: its reply blocks, if it
    /// carries any, are kept for answers to its sender, and its data is
    /// delivered, to the consumer if one is registered and to the backlog
    /// otherwise. Returns the messages to push to the consumer.
    pub fn handle_fragment(
        &mut self,
        fragment: Fragment,
        replies: &mut ReplyController,
        now_ms: u64,
    ) -> (out: Vec<ReconstructedMessage>)
        requires
            old(self).wf(),
            old(replies).wf(),
            fragment@.wf(),
        ensures
            final(self).wf(),
            final(replies).wf(),
            final(self).connected() == old(self).connected(),
            final(self).undecryptable() == old(self).undecryptable(),
            final(self).dedupe_capacity() == old(self).dedupe_capacity(),
            final(replies).keys() == old(replies).keys(),
            final(replies).ttl() == old(replies).ttl(),
            stored(old(self).reassembly(), final(self).reassembly(), fragment@),
            ({
                let done = completion(old(self).reassembly(), fragment@);
                let fresh = !old(self).completed().contains(fragment.message_id);
                let delivered = if done is Some && fresh {
                    delivery(done.unwrap())
                } else {
                    None
                };
                &&& final(self).completed() == if done is Some {
                    remembered(
                        old(self).completed(),
                        fragment.message_id,
                        old(self).dedupe_capacity(),
                    )
                } else {
                    old(self).completed()
                }
                &&& match delivered {
                    Some((message, surbs)) => {
                        &&& old(self).connected() ==> message_views(out@) == seq![message]
                            && final(self).backlog() == old(self).backlog()
                        &&& !old(self).connected() ==> out@.len() == 0 && final(self).backlog()
                            == backlog_with(old(self).backlog(), message)
                        &&& forall|tag: SenderTag|
                            #![trigger final(replies).surbs(tag)]
                            surb_views(final(replies).surbs(tag)) == if Some(tag)
                                == message.sender_tag {
                                surb_views(old(replies).surbs(tag)) + surbs
                            } else {
                                surb_views(old(replies).surbs(tag))
                            }
                    },
                    None => {
                        &&& out@.len() == 0
                        &&& final(self).backlog() == old(self).backlog()
                        &&& forall|tag: SenderTag| #[trigger]
                            final(replies).surbs(tag) == old(replies).surbs(tag)
                    },
                }
            }),
    {
        let message_id = fragment.message_id;
        let mut out: Vec<ReconstructedMessage> = Vec::new();
        let outcome = self.reassembly.insert_fragment(fragment);
        let payload = match outcome {
            ReassemblyOutcome::Completed { payload } => payload,
            _ => {
                return out;
            },
        };
        if !self.completed.remember(message_id) {
            return out;
        }
        let message = match decode_message(payload.as_slice()) {
            None => {
                return out;
            },
            Some(Message::Plain { data }) => ReconstructedMessage { message: data,
                sender_tag: None },
            Some(Message::Repliable { sender_tag, surbs, data }) => {
                keep_reply_surbs(replies, sender_tag, surbs, now_ms);
                ReconstructedMessage { message: data, sender_tag: Some(sender_tag) }
            },
        };
        if self.consumer_connected {
            out.push(message);
            assert(message_views(out@) =~= seq![message@]);
        } else {
            let ghost before = self.backlog@;
            if self.backlog.len() >= MAX_PENDING_DELIVERIES {
                let _ = self.backlog.remove(0);
                assert(message_views(self.backlog@) =~= message_views(before).drop_first());
            }
            let ghost kept = self.backlog@;
            self.backlog.push(message);
            assert(message_views(self.backlog@) =~= message_views(kept).push(message@));
        }
        out
    }
}

/// What a complete payload delivers: the message for the consumer and the
/// reply blocks that came with it. `None` for a payload that is no message.
pub open spec fn delivery(payload: Seq<u8>) -> Option<(MessageView, Seq<SurbView>)> {
    match parsed_message(payload) {
        None => None,
        Some(MessageContent::Plain { data }) => Some(
            (MessageView { message: data, sender_tag: None }, Seq::empty()),
        ),
        Some(MessageContent::Repliable { sender_tag, surbs, data }) => Some(
            (MessageView { message: data, sender_tag: Some(sender_tag) }, surbs),
        ),
    }
}

/// Keeps the reply blocks that came with a message for answers to its sender.
fn keep_reply_surbs(replies: &mut ReplyController, sender_tag: SenderTag, surbs: Vec<Surb>,
    now_ms: u64)
    requires
        old(replies).wf(),
    ensures
        final(replies).wf(),
        final(replies).keys() == old(replies).keys(),
        final(replies).ttl() == old(replies).ttl(),
        surb_views(final(replies).surbs(sender_tag)) == surb_views(old(replies).surbs(sender_tag))
            + surb_views(surbs@),
        forall|tag: SenderTag|
            tag != sender_tag ==> #[trigger] final(replies).surbs(tag) == old(replies).surbs(tag),
{
    let ghost all = surb_views(surbs@);
    let mut surbs = surbs;
    let mut moved: usize = 0;
    let total = surbs.len();
    assert(surb_views(replies.surbs(sender_tag)) =~= surb_views(old(replies).surbs(sender_tag))
        + all.subrange(0, 0));
    while surbs.len() > 0
        invariant
            replies.wf(),
            replies.keys() == old(replies).keys(),
            replies.ttl() == old(replies).ttl(),
            moved + surbs@.len() == total,
            total == all.len(),
            surb_views(surbs@) == all.subrange(moved as int, total as int),
            surb_views(replies.surbs(sender_tag)) == surb_views(old(replies).surbs(sender_tag))
                + all.subrange(0, moved as int),
            forall|tag: SenderTag|
                tag != sender_tag ==> #[trigger] replies.surbs(tag) == old(replies).surbs(tag),
        decreases surbs@.len(),
    {
        let ghost before = surbs@;
        let ghost held = replies.surbs(sender_tag);
        let surb = surbs.remove(0);
        proof {
            assert(surb@ == surb_views(before)[0]);
            assert(surb@ == all[moved as int]);
            assert forall|k: int| 0 <= k < surbs@.len() implies #[trigger] surb_views(surbs@)[k]
                == all.subrange(moved + 1, total as int)[k] by {
                assert(surbs@[k] == before[k + 1]);
                assert(surb_views(before)[k + 1] == all.subrange(moved as int,
                    total as int)[k + 1]);
            }
            assert(surb_views(surbs@) =~= all.subrange(moved + 1, total as int));
        }
        let _ = replies.handle(ReplyControlRequest::InsertReceivedSurb { sender_tag, surb },
            now_ms);
        proof {
            assert(replies.surbs(sender_tag) =~= held.push(surb));
            assert(surb_views(replies.surbs(sender_tag)) =~= surb_views(held).push(surb@));
            assert(all.subrange(0, moved + 1) =~= all.subrange(0,
                moved as int).push(all[moved as int]));
        }
        moved += 1;
    }
    assert(all.subrange(0, total as int) =~= all);
}

/// A reply key opens one frame. If a frame was opened with the reply key
/// that its tag names, then, once the key is used up, no frame that names
/// the same reply block is opened with a reply key again: unless it opens
/// with the local key it is undecryptable, and the frame that was opened
/// is undecryptable.
pub proof fn lemma_reply_frame_opens_once(
    local_secret: Seq<u8>,
    keys: Map<SurbId, SentKey>,
    frame: Seq<u8>,
)
    requires
        opening(local_secret, keys, frame).0 is Some,
    ensures
        keys.contains_key(opening(local_secret, keys, frame).0.unwrap()),
        opening(
            local_secret,
            keys.remove(opening(local_secret, keys, frame).0.unwrap()),
            frame,
        ) == (None::<SurbId>, None::<FragmentView>),
        forall|later: Seq<u8>|
            later.len() >= CLEAR_TAG_SIZE && tag_value(later) == opening(
                local_secret,
                keys,
                frame,
            ).0.unwrap() ==> {
                let again = #[trigger] opening(
                    local_secret,
                    keys.remove(opening(local_secret, keys, frame).0.unwrap()),
                    later,
                );
                &&& again.0 is None
                &&& again.1 == payload_fragment(opened_with_local_key(local_secret, later))
            },
{
}

} // verus!
