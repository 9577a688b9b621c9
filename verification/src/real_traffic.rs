//! The real traffic controller: it cuts input messages into fragments,
//! queues them by lane, decides which packet is built next, listens for
//! acks and retransmits what was not acknowledged in time.

use vstd::prelude::*;
use crate::acks::{
    action_fragment, after_poll, due_actions, entries_after_poll, without_fragment, AckAction,
    AckConfig, AckOutcome, PendingAck, PendingAcks, MAX_JITTER_PERMILLE,
};
use crate::ack_frames::{ack_bytes, build_ack, open_ack, opened_ack};
use crate::addressing::Recipient;
use crate::error::TelemetryEvent;
use crate::fifo::{queue_step, QueueOp};
use crate::fragments::{
    fragment_bytes, fragments_of, padded, split_message, views, Fragment, FragmentError,
    FragmentView, MAX_FRAGMENTS, MESSAGE_ID_LIMIT,
};
use crate::lanes::{LaneId, LaneQueues};
use crate::randomness::{random_number_below, random_within};
use crate::messages::{
    encode_message, message_bytes, surb_views, surbs_writable, Message, MessageContent,
    MessageError,
};
use crate::replies::{ReplyControlRequest, ReplyController, SenderTag, SentKey, Surb, SurbId};
use crate::table::Table;
use crate::topology::{MixNode, SnapshotView, TopologyAccessor};

verus! {

/// Default size of the data of a fragment, in bytes.
pub const DEFAULT_FRAGMENT_SIZE: usize = 1024;

/// Default number of mix nodes on a route.
pub const DEFAULT_HOPS: usize = 3;

/// Default time that a reply waits for a reply block, in milliseconds.
pub const DEFAULT_REPLY_WAIT_MS: u64 = 10_000;

/// What a producer hands to the client.
#[derive(Debug, Clone, PartialEq, Eq)]
pub enum InputMessage {
    /// A message to a known address.
    Regular { recipient: Recipient, data: Vec<u8>, lane: LaneId },
    /// An answer to whoever sent reply blocks under `sender_tag`.
    Reply { sender_tag: SenderTag, data: Vec<u8>, lane: LaneId },
    /// A message to a known address that carries `reply_surbs` reply blocks.
    WithReplySurb { recipient: Recipient, data: Vec<u8>, reply_surbs: u32, lane: LaneId },
}

/// Where a fragment goes.
#[derive(Debug, Clone, Copy, PartialEq, Eq)]
pub enum Target {
    /// To an address, on a route that the client chooses.
    Recipient(Recipient),
    /// Back to a peer, on the path that one of its reply blocks dictates.
    Reply(SenderTag),
}

/// A fragment that waits in a lane or for its ack.
#[derive(Debug, PartialEq, Eq)]
pub struct PreparedFragment {
    pub fragment: Fragment,
    pub target: Target,
    pub lane: LaneId,
    pub enqueued_at_ms: u64,
    pub retransmission: bool,
}

/// Settings of the controller.
#[derive(Debug, Clone, Copy, PartialEq, Eq)]
pub struct RealTrafficConfig {
    pub fragment_size: usize,
    pub hops: usize,
    pub reply_wait_ms: u64,
    pub acks: AckConfig,
    /// The tag under which peers keep the reply blocks of this client.
    pub sender_tag: SenderTag,
    /// The master key from which the ack key of every fragment is derived.
    pub ack_key: [u8; 32],
}

impl Default for RealTrafficConfig {
    fn default() -> (config: RealTrafficConfig)
        ensures
            config.fragment_size == DEFAULT_FRAGMENT_SIZE,
            config.hops == DEFAULT_HOPS,
            config.reply_wait_ms == DEFAULT_REPLY_WAIT_MS,
            config.acks.base_timeout_ms == crate::acks::DEFAULT_ACK_TIMEOUT_MS,
            config.acks.retransmit_budget == crate::acks::DEFAULT_RETRANSMIT_BUDGET,
            config.sender_tag == 0,
            config.ack_key@ == Seq::new(32, |i: int| 0u8),
    {
        let config = RealTrafficConfig {
            fragment_size: DEFAULT_FRAGMENT_SIZE,
            hops: DEFAULT_HOPS,
            reply_wait_ms: DEFAULT_REPLY_WAIT_MS,
            acks: AckConfig::default(),
            sender_tag: 0,
            ack_key: [0u8; 32],
        };
        assert(config.ack_key@ =~= Seq::new(32, |i: int| 0u8));
        config
    }
}

/// The packet that is to be built and handed to the mix-traffic controller.
#[derive(Debug, PartialEq, Eq)]
pub struct PacketOrder {
    pub fragment_id: u128,
    /// The bytes of the fragment, to be wrapped in a Sphinx packet.
    pub payload: Vec<u8>,
    /// The ack that is to come back once the packet has arrived.
    pub ack: Vec<u8>,
    /// The mix nodes that the packet visits; empty when a reply block dictates the path.
    pub route: Vec<MixNode>,
    /// The node that the gateway forwards the packet to.
    pub first_hop: u128,
    pub recipient: Option<Recipient>,
    /// The reply block that is used up by this packet.
    pub surb: Option<Surb>,
    pub lane: LaneId,
    pub retransmission: bool,
}

/// What the packet builder decided about the fragment at the head of a lane.
#[derive(Debug, PartialEq, Eq)]
pub enum PacketDecision {
    /// Nothing waits in the lane.
    Idle,
    /// The network view cannot route a packet; the fragment keeps waiting.
    Blocked,
    /// The fragment is a reply and no reply block is held; more are to be
    /// requested from the peer, and the fragment keeps waiting.
    NeedSurbs { sender_tag: SenderTag, count: u64 },
    /// The reply waited for a reply block for too long and was dropped.
    NoReplyPath { fragment_id: u128 },
    /// The fragment was due for retransmission, but its ack arrived; it was dropped.
    Skipped { fragment_id: u128 },
    /// Build this packet and send it.
    Send(PacketOrder),
}

/// The fragment marked as a retransmission.
pub open spec fn as_retransmission(prepared: PreparedFragment) -> PreparedFragment {
    PreparedFragment { retransmission: true, ..prepared }
}

/// The fragments in flight after the retransmitter has dealt with `actions`:
/// every fragment that an action names has left.
pub open spec fn in_flight_after(
    actions: Seq<AckAction>,
    in_flight: Map<u128, PreparedFragment>,
) -> Map<u128, PreparedFragment>
    decreases actions.len(),
{
    if actions.len() == 0 {
        in_flight
    } else {
        in_flight_after(actions.drop_last(), in_flight).remove(action_fragment(actions.last()))
    }
}

/// The queue of `lane` after the retransmitter has dealt with `actions`:
/// the fragments to retransmit on that lane were appended in order.
pub open spec fn queue_after_requeue(
    actions: Seq<AckAction>,
    in_flight: Map<u128, PreparedFragment>,
    lane: LaneId,
    queue: Seq<PreparedFragment>,
) -> Seq<PreparedFragment>
    decreases actions.len(),
{
    if actions.len() == 0 {
        queue
    } else {
        let earlier = queue_after_requeue(actions.drop_last(), in_flight, lane, queue);
        let held = in_flight_after(actions.drop_last(), in_flight);
        match actions.last() {
            AckAction::Retransmit { fragment_id, lane: l } => if l == lane && held.contains_key(
                fragment_id,
            ) {
                earlier.push(as_retransmission(held[fragment_id]))
            } else {
                earlier
            },
            AckAction::Undeliverable { .. } => earlier,
        }
    }
}

/// The reports for the fragments that were given up.
pub open spec fn timeout_events(actions: Seq<AckAction>) -> Seq<TelemetryEvent>
    decreases actions.len(),
{
    if actions.len() == 0 {
        Seq::empty()
    } else {
        let earlier = timeout_events(actions.drop_last());
        match actions.last() {
            AckAction::Undeliverable { fragment_id } => earlier.push(
                TelemetryEvent::FragmentTimeout { fragment_id },
            ),
            AckAction::Retransmit { .. } => earlier,
        }
    }
}

/// The fragment views of queued fragments.
pub open spec fn queued_views(queue: Seq<PreparedFragment>) -> Seq<FragmentView> {
    Seq::new(queue.len(), |i: int| queue[i].fragment@)
}

/// `after` is `before` followed by `fragments`, each queued for `target`
/// on `lane` at `now_ms` and not yet sent.
pub open spec fn queue_extended(
    before: Seq<PreparedFragment>,
    after: Seq<PreparedFragment>,
    fragments: Seq<FragmentView>,
    target: Target,
    lane: LaneId,
    now_ms: u64,
) -> bool {
    &&& after.len() == before.len() + fragments.len()
    &&& after.subrange(0, before.len() as int) == before
    &&& queued_views(after.subrange(before.len() as int, after.len() as int)) == fragments
    &&& forall|i: int|
        before.len() <= i < after.len() ==> {
            let queued = #[trigger] after[i];
            &&& queued.target == target
            &&& queued.lane == lane
            &&& queued.enqueued_at_ms == now_ms
            &&& !queued.retransmission
        }
}

/// Why an input message was not queued.
#[derive(Debug, Clone, Copy, PartialEq, Eq, Structural)]
pub enum InputError {
    /// The message cannot be written.
    Message(MessageError),
    /// The message cannot be cut into fragments.
    Fragment(FragmentError),
}

/// What became of an input message.
#[derive(Debug, PartialEq, Eq)]
pub enum InputOutcome {
    /// The message waits in its lane as so many fragments.
    Queued { fragments: usize },
    /// The message asks for reply blocks: they have to be made, then the
    /// message is queued with `enqueue_with_reply_surbs`.
    NeedsReplySurbs { recipient: Recipient, data: Vec<u8>, count: u32, lane: LaneId },
    /// The message was not queued.
    Refused { error: FragmentError },
}

/// The reply keys after the key of each reply block was stored at `now_ms`.
pub open spec fn keys_with(keys: Map<SurbId, SentKey>, surbs: Seq<Surb>, now_ms: u64) -> Map<
    SurbId,
    SentKey,
>
    decreases surbs.len(),
{
    if surbs.len() == 0 {
        keys
    } else {
        keys_with(keys, surbs.drop_last(), now_ms).insert(
            surbs.last().id,
            SentKey { key: surbs.last().encryption_key, sent_at_ms: now_ms },
        )
    }
}

/// What queueing a plain message with `data` for `target` on `lane` at
/// `now_ms` came to.
pub open spec fn plain_outcome(
    before: RealMessagesController,
    after: RealMessagesController,
    data: Seq<u8>,
    target: Target,
    lane: LaneId,
    now_ms: u64,
    outcome: InputOutcome,
) -> bool {
    let size = before.config().fragment_size as nat;
    let bytes = message_bytes(MessageContent::Plain { data });
    let count = padded(bytes, size).len() / size;
    &&& outcome is Queued <==> count <= MAX_FRAGMENTS
    &&& !(outcome is NeedsReplySurbs)
    &&& outcome is Refused ==> outcome->error == FragmentError::MessageTooLong
    &&& outcome is Queued ==> outcome->fragments == count && after.queue(lane).len()
        == before.queue(lane).len() + count && exists|message_id: u64|
        message_id < MESSAGE_ID_LIMIT && queue_extended(
            before.queue(lane),
            after.queue(lane),
            #[trigger] fragments_of(bytes, message_id, size),
            target,
            lane,
            now_ms,
        )
    &&& forall|other: LaneId|
        other != lane || outcome is Refused ==> #[trigger] after.queue(other) == before.queue(other)
}

/// Owns the lanes, the pending acks and the fragments in flight.
pub struct RealMessagesController {
    config: RealTrafficConfig,
    lanes: LaneQueues<PreparedFragment>,
    acks: PendingAcks,
    in_flight: Table<PreparedFragment>,
}

impl RealMessagesController {
    pub closed spec fn wf(&self) -> bool {
        &&& self.lanes.wf()
        &&& self.acks.wf()
        &&& self.in_flight.wf()
        &&& self.acks.config() == self.config.acks
        &&& self.config.fragment_size > 0
        &&& self.config.hops > 0
        &&& forall|lane: LaneId, i: int|
            0 <= i < self.lanes.queue(lane).len() ==> (#[trigger] self.lanes.queue(
                lane,
            )[i]).fragment@.wf()
        &&& forall|id: u128| #[trigger]
            self.in_flight.map().contains_key(id) ==> self.in_flight.map()[id].fragment@.wf()
    }

    pub closed spec fn config(&self) -> RealTrafficConfig {
        self.config
    }

    /// What waits in `lane`, oldest first.
    pub closed spec fn queue(&self, lane: LaneId) -> Seq<PreparedFragment> {
        self.lanes.queue(lane)
    }

    /// The fragments that wait for their ack.
    pub closed spec fn pending(&self) -> Map<u128, PendingAck> {
        self.acks@
    }

    /// The pending acks, oldest first.
    pub closed spec fn pending_in_order(&self) -> Seq<PendingAck> {
        self.acks.in_order()
    }

    /// The fragments that were sent and may have to be sent again.
    pub closed spec fn in_flight(&self) -> Map<u128, PreparedFragment> {
        self.in_flight.map()
    }

    /// A controller with empty lanes and no pending acks. A fragment size
    /// or a hop count of zero is raised to the default.
    pub fn new(config: RealTrafficConfig) -> (controller: RealMessagesController)
        ensures
            controller.wf(),
            controller.config().acks == config.acks,
            controller.config().reply_wait_ms == config.reply_wait_ms,
            controller.config().sender_tag == config.sender_tag,
            controller.config().ack_key == config.ack_key,
            controller.config().fragment_size == if config.fragment_size == 0 {
                DEFAULT_FRAGMENT_SIZE
            } else {
                config.fragment_size
            },
            controller.config().hops == if config.hops == 0 {
                DEFAULT_HOPS
            } else {
                config.hops
            },
            controller.pending() == Map::<u128, PendingAck>::empty(),
            controller.pending_in_order() == Seq::<PendingAck>::empty(),
            controller.in_flight() == Map::<u128, PreparedFragment>::empty(),
            forall|lane: LaneId| #[trigger] controller.queue(lane)
                == Seq::<PreparedFragment>::empty(),
    {
        let config = RealTrafficConfig {
            fragment_size: if config.fragment_size == 0 {
                DEFAULT_FRAGMENT_SIZE
            } else {
                config.fragment_size
            },
            hops: if config.hops == 0 {
                DEFAULT_HOPS
            } else {
                config.hops
            },
            ..config
        };
        RealMessagesController {
            config,
            lanes: LaneQueues::new(),
            acks: PendingAcks::new(config.acks),
            in_flight: Table::new(),
        }
    }

    /// How many fragments wait in `lane`.
    pub fn lane_length(&self, lane: LaneId) -> (len: u64)
        requires
            self.wf(),
        ensures
            len == self.queue(lane).len(),
    {
        self.lanes.lane_length(lane)
    }

    /// How many fragments wait for their ack.
    pub fn pending_count(&self) -> (n: usize)
        requires
            self.wf(),
        ensures
            n == self.pending_in_order().len(),
            n == self.pending().dom().len(),
    {
        proof {
            self.acks.lemma_in_order_is_view();
        }
        self.acks.len()
    }

    /// Whether the ack of `fragment_id` is awaited.
    pub fn is_pending(&self, fragment_id: u128) -> (pending: bool)
        requires
            self.wf(),
        ensures
            pending == self.pending().contains_key(fragment_id),
    {
        self.acks.is_pending(fragment_id)
    }

    /// What is known of the pending ack of `fragment_id`.
    pub fn pending_ack(&self, fragment_id: u128) -> (entry: Option<PendingAck>)
        requires
            self.wf(),
        ensures
            entry is Some <==> self.pending().contains_key(fragment_id),
            entry is Some ==> entry.unwrap() == self.pending()[fragment_id],
    {
        self.acks.get(fragment_id)
    }

    /// The lengths of the lanes as producers see them.
    pub fn lane_queue_lengths(&self) -> (lengths: &crate::lanes::LaneQueueLengths)
        requires
            self.wf(),
        ensures
            lengths.wf(),
            forall|lane: LaneId| #[trigger] lengths.length(lane) == self.queue(lane).len(),
    {
        self.lanes.lengths()
    }

    /// Cuts a message into fragments and appends them, in order, to its lane.
    /// Returns how many fragments were queued.
    pub fn enqueue_message(
        &mut self,
        data: &[u8],
        target: Target,
        lane: LaneId,
        message_id: u64,
        now_ms: u64,
    ) -> (res: Result<usize, FragmentError>)
        requires
            old(self).wf(),
        ensures
            final(self).wf(),
            final(self).config() == old(self).config(),
            final(self).pending() == old(self).pending(),
            final(self).pending_in_order() == old(self).pending_in_order(),
            final(self).in_flight() == old(self).in_flight(),
            ({
                let size = old(self).config().fragment_size as nat;
                let count = padded(data@, size).len() / size;
                if message_id >= MESSAGE_ID_LIMIT {
                    res == Err::<usize, FragmentError>(FragmentError::InvalidMessageId)
                } else if count > MAX_FRAGMENTS {
                    res == Err::<usize, FragmentError>(FragmentError::MessageTooLong)
                } else {
                    res == Ok::<usize, FragmentError>(count as usize)
                }
            }),
            res is Err ==> forall|other: LaneId| #[trigger]
                final(self).queue(other) == old(self).queue(other),
            res is Ok ==> {
                let size = old(self).config().fragment_size as nat;
                &&& forall|other: LaneId|
                    other != lane ==> #[trigger] final(self).queue(other) == old(self).queue(other)
                &&& final(self).queue(lane).len() == old(self).queue(lane).len() + res->Ok_0
                &&& final(self).queue(lane).subrange(0, old(self).queue(lane).len() as int)
                    == old(self).queue(lane)
                &&& queued_views(
                    final(self).queue(lane).subrange(
                        old(self).queue(lane).len() as int,
                        final(self).queue(lane).len() as int,
                    ),
                ) == fragments_of(data@, message_id, size)
                &&& forall|i: int|
                    old(self).queue(lane).len() <= i < final(self).queue(lane).len() ==> {
                        let queued = #[trigger] final(self).queue(lane)[i];
                        &&& queued.target == target
                        &&& queued.lane == lane
                        &&& queued.enqueued_at_ms == now_ms
                        &&& !queued.retransmission
                    }
                &&& queue_extended(
                    old(self).queue(lane),
                    final(self).queue(lane),
                    fragments_of(data@, message_id, size),
                    target,
                    lane,
                    now_ms,
                )
            },
    {
        let fragments = match split_message(data, message_id, self.config.fragment_size) {
            Ok(fragments) => fragments,
            Err(err) => {
                return Err(err);
            },
        };
        let count = fragments.len();
        let ghost cut = fragments@;
        assert(views(cut).len() == cut.len());
        assert(count <= MAX_FRAGMENTS);
        let mut fragments = fragments;
        let mut prepared: Vec<PreparedFragment> = Vec::new();
        while fragments.len() > 0
            invariant
                fragments@.len() + prepared@.len() == count,
                count == cut.len(),
                forall|i: int|
                    0 <= i < prepared@.len() ==> {
                        let queued = #[trigger] prepared@[i];
                        &&& queued.fragment == cut[i]
                        &&& queued.target == target
                        &&& queued.lane == lane
                        &&& queued.enqueued_at_ms == now_ms
                        &&& !queued.retransmission
                    },
                forall|i: int|
                    0 <= i < fragments@.len() ==> #[trigger] fragments@[i]
                        == cut[prepared@.len() + i],
            decreases fragments@.len(),
        {
            let ghost before = fragments@;
            let fragment = fragments.remove(0);
            prepared.push(
                PreparedFragment { fragment, target, lane, enqueued_at_ms: now_ms,
                    retransmission: false },
            );
            proof {
                assert forall|i: int| 0 <= i < fragments@.len() implies #[trigger] fragments@[i]
                    == cut[prepared@.len() + i] by {
                    assert(fragments@[i] == before[i + 1]);
                }
            }
        }
        let ghost added = prepared@;
        self.lanes.enqueue(lane, prepared);
        proof {
            let size = old(self).config().fragment_size as nat;
            let start = old(self).queue(lane).len() as int;
            let end = final(self).queue(lane).len() as int;
            assert(final(self).queue(lane).subrange(0, start) =~= old(self).queue(lane));
            assert(final(self).queue(lane).subrange(start, end) =~= added);
            assert(queued_views(added) =~= views(cut));
            assert forall|l: LaneId, i: int| 0 <= i < final(self).lanes.queue(l).len() implies (
            #[trigger] final(self).lanes.queue(l)[i]).fragment@.wf() by {
                if l == lane {
                    if i >= start {
                        assert(final(self).lanes.queue(l)[i] == added[i - start]);
                        assert(added[i - start].fragment == cut[i - start]);
                    } else {
                        assert(final(self).lanes.queue(l)[i] == old(self).lanes.queue(l)[i]);
                    }
                } else {
                    assert(final(self).lanes.queue(l) == old(self).lanes.queue(l));
                }
            }
            assert forall|other: LaneId| other != lane implies #[trigger] final(self).queue(other)
                == old(self).queue(other) by {
                assert(other as u128 != lane as u128);
            }
        }
        Ok(count)
    }

    /// Queues a message that carries no reply blocks: the data is written
    /// as a plain message and cut into fragments.
    pub fn enqueue_plain(
        &mut self,
        data: Vec<u8>,
        target: Target,
        lane: LaneId,
        message_id: u64,
        now_ms: u64,
    ) -> (res: Result<usize, FragmentError>)
        requires
            old(self).wf(),
        ensures
            final(self).wf(),
            final(self).config() == old(self).config(),
            final(self).pending() == old(self).pending(),
            final(self).pending_in_order() == old(self).pending_in_order(),
            final(self).in_flight() == old(self).in_flight(),
            forall|other: LaneId|
                other != lane || res is Err ==> #[trigger] final(self).queue(other)
                    == old(self).queue(other),
            ({
                let size = old(self).config().fragment_size as nat;
                let bytes = message_bytes(MessageContent::Plain { data: data@ });
                let count = padded(bytes, size).len() / size;
                &&& message_id >= MESSAGE_ID_LIMIT ==> res == Err::<usize, FragmentError>(
                    FragmentError::InvalidMessageId,
                )
                &&& message_id < MESSAGE_ID_LIMIT && count > MAX_FRAGMENTS ==> res == Err::<
                    usize,
                    FragmentError,
                >(FragmentError::MessageTooLong)
                &&& message_id < MESSAGE_ID_LIMIT && count <= MAX_FRAGMENTS ==> res == Ok::<
                    usize,
                    FragmentError,
                >(count as usize)
                &&& res is Ok ==> final(self).queue(lane).len() == old(self).queue(lane).len()
                    + count && queue_extended(
                    old(self).queue(lane),
                    final(self).queue(lane),
                    fragments_of(bytes, message_id, size),
                    target,
                    lane,
                    now_ms,
                )
            }),
    {
        let message = Message::Plain { data };
        let bytes = match encode_message(&message) {
            Ok(bytes) => bytes,
            Err(_) => {
                return Err(FragmentError::MessageTooLong);
            },
        };
        self.enqueue_message(bytes.as_slice(), target, lane, message_id, now_ms)
    }

    /// Queues a message that carries reply blocks. The message is written
    /// with the client's tag and the blocks, cut into fragments and queued;
    /// then the key of every block is stored, so that the answer can be
    /// opened. A message that cannot be written or cut changes nothing.
    pub fn enqueue_with_reply_surbs(
        &mut self,
        recipient: Recipient,
        data: Vec<u8>,
        surbs: Vec<Surb>,
        lane: LaneId,
        message_id: u64,
        now_ms: u64,
        replies: &mut ReplyController,
    ) -> (res: Result<usize, InputError>)
        requires
            old(self).wf(),
            old(replies).wf(),
        ensures
            final(self).wf(),
            final(replies).wf(),
            final(self).config() == old(self).config(),
            final(self).pending() == old(self).pending(),
            final(self).pending_in_order() == old(self).pending_in_order(),
            final(self).in_flight() == old(self).in_flight(),
            final(replies).ttl() == old(replies).ttl(),
            forall|tag: SenderTag| #[trigger] final(replies).surbs(tag) == old(replies).surbs(tag),
            forall|other: LaneId|
                other != lane || res is Err ==> #[trigger] final(self).queue(other)
                    == old(self).queue(other),
            res is Err ==> final(replies).keys() == old(replies).keys(),
            ({
                let views = surb_views(surbs@);
                let size = old(self).config().fragment_size as nat;
                let bytes = message_bytes(
                    MessageContent::Repliable {
                        sender_tag: old(self).config().sender_tag,
                        surbs: views,
                        data: data@,
                    },
                );
                let count = padded(bytes, size).len() / size;
                &&& res is Ok <==> surbs_writable(views) && message_id < MESSAGE_ID_LIMIT && count
                    <= MAX_FRAGMENTS
                &&& !surbs_writable(views) ==> res is Err && res->Err_0 is Message
                &&& surbs_writable(views) && message_id >= MESSAGE_ID_LIMIT ==> res == Err::<
                    usize,
                    InputError,
                >(InputError::Fragment(FragmentError::InvalidMessageId))
                &&& surbs_writable(views) && message_id < MESSAGE_ID_LIMIT && count > MAX_FRAGMENTS
                    ==> res == Err::<usize, InputError>(
                    InputError::Fragment(FragmentError::MessageTooLong),
                )
                &&& res is Ok ==> {
                    &&& res->Ok_0 == count
                    &&& final(replies).keys() == keys_with(old(replies).keys(), surbs@, now_ms)
                    &&& final(self).queue(lane).len() == old(self).queue(lane).len() + count
                    &&& queue_extended(
                        old(self).queue(lane),
                        final(self).queue(lane),
                        fragments_of(bytes, message_id, size),
                        Target::Recipient(recipient),
                        lane,
                        now_ms,
                    )
                }
            }),
    {
        let message = Message::Repliable { sender_tag: self.config.sender_tag, surbs, data };
        let bytes = match encode_message(&message) {
            Ok(bytes) => bytes,
            Err(error) => {
                return Err(InputError::Message(error));
            },
        };
        let count = match self.enqueue_message(
            bytes.as_slice(),
            Target::Recipient(recipient),
            lane,
            message_id,
            now_ms,
        ) {
            Ok(count) => count,
            Err(error) => {
                return Err(InputError::Fragment(error));
            },
        };
        let surbs = match message {
            Message::Repliable { surbs, .. } => surbs,
            Message::Plain { .. } => Vec::new(),
        };
        let mut i: usize = 0;
        assert(surbs@.subrange(0, 0) =~= Seq::<Surb>::empty());
        while i < surbs.len()
            invariant
                i <= surbs@.len(),
                replies.wf(),
                replies.ttl() == old(replies).ttl(),
                forall|tag: SenderTag| #[trigger] replies.surbs(tag) == old(replies).surbs(tag),
                replies.keys() == keys_with(old(replies).keys(), surbs@.subrange(0, i as int),
                    now_ms),
            decreases surbs@.len() - i,
        {
            proof {
                assert(surbs@.subrange(0, i + 1).drop_last() =~= surbs@.subrange(0, i as int));
            }
            let _ = replies.handle(
                ReplyControlRequest::StoreSentReplyKey {
                    surb_id: surbs[i].id,
                    key: surbs[i].encryption_key,
                },
                now_ms,
            );
            i += 1;
        }
        assert(surbs@.subrange(0, surbs@.len() as int) =~= surbs@);
        Ok(count)
    }

    /// Takes in one input message. A message without reply blocks is
    /// queued under a message id drawn at random; whatever id was drawn, it
    /// is queued as `enqueue_plain` says. For a message that is to carry
    /// reply blocks the blocks have to be made first: the message is handed
    /// back with the number of blocks that it asks for.
    pub fn on_input(&mut self, message: InputMessage, now_ms: u64) -> (outcome: InputOutcome)
        requires
            old(self).wf(),
        ensures
            final(self).wf(),
            final(self).config() == old(self).config(),
            final(self).pending() == old(self).pending(),
            final(self).pending_in_order() == old(self).pending_in_order(),
            final(self).in_flight() == old(self).in_flight(),
            match message {
                InputMessage::WithReplySurb { recipient, data, reply_surbs, lane } => {
                    &&& outcome == (InputOutcome::NeedsReplySurbs {
                        recipient,
                        data,
                        count: reply_surbs,
                        lane,
                    })
                    &&& forall|other: LaneId| #[trigger]
                        final(self).queue(other) == old(self).queue(other)
                },
                InputMessage::Regular { recipient, data, lane } => plain_outcome(
                    *old(self),
                    *final(self),
                    data@,
                    Target::Recipient(recipient),
                    lane,
                    now_ms,
                    outcome,
                ),
                InputMessage::Reply { sender_tag, data, lane } => plain_outcome(
                    *old(self),
                    *final(self),
                    data@,
                    Target::Reply(sender_tag),
                    lane,
                    now_ms,
                    outcome,
                ),
            },
    {
        match message {
            InputMessage::WithReplySurb { recipient, data, reply_surbs, lane } => {
                InputOutcome::NeedsReplySurbs { recipient, data, count: reply_surbs, lane }
            },
            InputMessage::Regular { recipient, data, lane } => {
                let message_id = random_number_below(MESSAGE_ID_LIMIT);
                match self.enqueue_plain(data, Target::Recipient(recipient), lane, message_id,
                    now_ms) {
                    Ok(fragments) => InputOutcome::Queued { fragments },
                    Err(error) => InputOutcome::Refused { error },
                }
            },
            InputMessage::Reply { sender_tag, data, lane } => {
                let message_id = random_number_below(MESSAGE_ID_LIMIT);
                match self.enqueue_plain(data, Target::Reply(sender_tag), lane, message_id,
                    now_ms) {
                    Ok(fragments) => InputOutcome::Queued { fragments },
                    Err(error) => InputOutcome::Refused { error },
                }
            },
        }
    }

    /// Handles an ack that came back: the fragment is no longer pending and
    /// no longer in flight. An ack that matches nothing changes nothing.
    pub fn on_ack(&mut self, fragment_id: u128) -> (outcome: AckOutcome)
        requires
            old(self).wf(),
        ensures
            final(self).wf(),
            final(self).config() == old(self).config(),
            final(self).pending() == old(self).pending().remove(fragment_id),
            final(self).pending_in_order() == without_fragment(
                old(self).pending_in_order(),
                fragment_id,
            ),
            final(self).in_flight() == old(self).in_flight().remove(fragment_id),
            forall|lane: LaneId| #[trigger] final(self).queue(lane) == old(self).queue(lane),
            outcome is Unknown <==> !old(self).pending().contains_key(fragment_id),
            outcome matches AckOutcome::Acknowledged { message_id, message_delivered } ==> {
                &&& message_id == old(self).pending()[fragment_id].message_id
                &&& message_delivered == !crate::acks::message_outstanding(
                    final(self).pending(),
                    message_id,
                )
            },
    {
        let outcome = self.acks.on_ack(fragment_id);
        let _ = self.in_flight.remove(fragment_id);
        outcome
    }

    /// Handles an ack frame that the gateway handed over. A frame that is
    /// no ack of this client, or the ack of a fragment that is not pending,
    /// changes nothing.
    pub fn on_ack_frame(&mut self, raw_ack: &[u8]) -> (outcome: AckOutcome)
        requires
            old(self).wf(),
        ensures
            final(self).wf(),
            final(self).config() == old(self).config(),
            forall|lane: LaneId| #[trigger] final(self).queue(lane) == old(self).queue(lane),
            match opened_ack(old(self).config().ack_key@, raw_ack@) {
                None => outcome is Unknown && final(self).pending() == old(self).pending()
                    && final(self).pending_in_order() == old(self).pending_in_order()
                        && final(self).in_flight() == old(self).in_flight(),
                Some(fragment_id) => {
                    &&& final(self).pending() == old(self).pending().remove(fragment_id)
                    &&& final(self).pending_in_order() == without_fragment(
                        old(self).pending_in_order(),
                        fragment_id,
                    )
                    &&& final(self).in_flight() == old(self).in_flight().remove(fragment_id)
                    &&& outcome is Unknown <==> !old(self).pending().contains_key(fragment_id)
                    &&& outcome matches AckOutcome::Acknowledged { message_id, message_delivered }
                        ==> {
                        &&& message_id == old(self).pending()[fragment_id].message_id
                        &&& message_delivered == !crate::acks::message_outstanding(
                            final(self).pending(),
                            message_id,
                        )
                    }
                },
            },
    {
        match open_ack(&self.config.ack_key, raw_ack) {
            None => AckOutcome::Unknown,
            Some(fragment_id) => self.on_ack(fragment_id),
        }
    }

    /// Runs the retransmitter at `now_ms` with the given jitter. Every
    /// pending ack whose deadline has passed is retransmitted while its
    /// budget lasts: its fragment goes back to the end of its lane. One
    /// whose budget is spent is dropped and reported.
    pub fn poll_retransmissions(&mut self, now_ms: u64, jitter_permille: i64) -> (events: Vec<
        TelemetryEvent,
    >)
        requires
            old(self).wf(),
        ensures
            final(self).wf(),
            final(self).config() == old(self).config(),
            final(self).pending() == after_poll(old(self).pending(), now_ms, jitter_permille),
            final(self).pending_in_order() == entries_after_poll(
                old(self).pending_in_order(),
                now_ms,
                jitter_permille,
            ),
            ({
                let actions = due_actions(old(self).pending_in_order(), now_ms);
                &&& events@ == timeout_events(actions)
                &&& final(self).in_flight() == in_flight_after(actions, old(self).in_flight())
                &&& forall|lane: LaneId| #[trigger]
                    final(self).queue(lane) == queue_after_requeue(
                        actions,
                        old(self).in_flight(),
                        lane,
                        old(self).queue(lane),
                    )
            }),
    {
        let actions = self.acks.poll_expired(now_ms, jitter_permille);
        let ghost polled = self.acks;
        let mut events: Vec<TelemetryEvent> = Vec::new();
        let mut k: usize = 0;
        assert(actions@.subrange(0, 0) =~= Seq::<AckAction>::empty());
        while k < actions.len()
            invariant
                k <= actions@.len(),
                self.wf(),
                self.config == old(self).config,
                self.acks == polled,
                polled@ == after_poll(old(self).pending(), now_ms, jitter_permille),
                events@ == timeout_events(actions@.subrange(0, k as int)),
                self.in_flight.map() == in_flight_after(
                    actions@.subrange(0, k as int),
                    old(self).in_flight(),
                ),
                forall|lane: LaneId| #[trigger]
                    self.lanes.queue(lane) == queue_after_requeue(
                        actions@.subrange(0, k as int),
                        old(self).in_flight(),
                        lane,
                        old(self).queue(lane),
                    ),
            decreases actions@.len() - k,
        {
            let action = actions[k];
            let ghost here = *self;
            proof {
                assert(actions@.subrange(0, k + 1).drop_last() =~= actions@.subrange(0, k as int));
                assert(actions@.subrange(0, k + 1).last() == action);
            }
            match action {
                AckAction::Undeliverable { fragment_id } => {
                    let _ = self.in_flight.remove(fragment_id);
                    events.push(TelemetryEvent::FragmentTimeout { fragment_id });
                },
                AckAction::Retransmit { fragment_id, lane } => {
                    match self.in_flight.remove(fragment_id) {
                        Some(prepared) => {
                            let again = PreparedFragment { retransmission: true, ..prepared };
                            let mut items: Vec<PreparedFragment> = Vec::new();
                            items.push(again);
                            self.lanes.enqueue(lane, items);
                            proof {
                                assert(self.lanes.queue(lane) =~= here.lanes.queue(lane).push(
                                    again,
                                ));
                                assert forall|l: LaneId| #[trigger]
                                    self.lanes.queue(l) == queue_after_requeue(
                                        actions@.subrange(0, k + 1),
                                        old(self).in_flight(),
                                        l,
                                        old(self).queue(l),
                                    ) by {
                                    if l != lane {
                                        assert(l as u128 != lane as u128);
                                    }
                                }
                                assert forall|l: LaneId, i: int|
                                    0 <= i < self.lanes.queue(l).len() implies (
                                #[trigger] self.lanes.queue(l)[i]).fragment@.wf() by {
                                    if l == lane {
                                        if i < here.lanes.queue(l).len() {
                                            assert(self.lanes.queue(l)[i]
                                                == here.lanes.queue(l)[i]);
                                        } else {
                                            assert(here.in_flight.map().contains_key(fragment_id));
                                        }
                                    } else {
                                        assert(l as u128 != lane as u128);
                                        assert(self.lanes.queue(l) == here.lanes.queue(l));
                                    }
                                }
                            }
                        },
                        None => {},
                    }
                },
            }
            k += 1;
        }
        proof {
            assert(actions@.subrange(0, actions@.len() as int) =~= actions@);
        }
        events
    }

    /// Runs the retransmitter at `now_ms` with a jitter drawn at random from
    /// a tenth of the backoff in either direction. Whatever was drawn, the
    /// retransmitter did what `poll_retransmissions` says for that jitter.
    pub fn on_timer(&mut self, now_ms: u64) -> (events: Vec<TelemetryEvent>)
        requires
            old(self).wf(),
        ensures
            final(self).wf(),
            final(self).config() == old(self).config(),
            events@ == timeout_events(due_actions(old(self).pending_in_order(), now_ms)),
            exists|jitter: i64|
                -MAX_JITTER_PERMILLE <= jitter <= MAX_JITTER_PERMILLE && #[trigger] after_poll(
                    old(self).pending(),
                    now_ms,
                    jitter,
                ) == final(self).pending() && entries_after_poll(
                    old(self).pending_in_order(),
                    now_ms,
                    jitter,
                ) == final(self).pending_in_order(),
            final(self).in_flight() == in_flight_after(
                due_actions(old(self).pending_in_order(), now_ms),
                old(self).in_flight(),
            ),
            forall|lane: LaneId| #[trigger]
                final(self).queue(lane) == queue_after_requeue(
                    due_actions(old(self).pending_in_order(), now_ms),
                    old(self).in_flight(),
                    lane,
                    old(self).queue(lane),
                ),
    {
        let jitter = random_within(MAX_JITTER_PERMILLE);
        let events = self.poll_retransmissions(now_ms, jitter);
        assert(after_poll(old(self).pending(), now_ms, jitter) == final(self).pending());
        events
    }

    /// Decides about the fragment at the head of `lane`.
    ///
    /// - Nothing waits: `Idle`.
    /// - A retransmission whose fragment is no longer pending: it is taken
    ///   out and `Skipped`.
    /// - A fragment for an address: when the network view is routable it is
    ///   taken out, a route of the configured length is drawn, its ack is
    ///   registered (unless it is a retransmission) and the packet ordered;
    ///   otherwise it keeps waiting and the lane is `Blocked`.
    /// - A reply: when a reply block is held for the peer it is used up and
    ///   the packet ordered; when none is held the reply keeps waiting
    ///   (`NeedSurbs`) until it has waited for `reply_wait_ms`, then it is
    ///   dropped (`NoReplyPath`).
    pub fn next_packet_on(
        &mut self,
        lane: LaneId,
        topology: &TopologyAccessor,
        replies: &mut ReplyController,
        now_ms: u64,
    ) -> (decision: PacketDecision)
        requires
            old(self).wf(),
            old(replies).wf(),
        ensures
            final(self).wf(),
            final(replies).wf(),
            packet_decided(
                *old(self),
                *final(self),
                *old(replies),
                *final(replies),
                lane,
                topology@,
                now_ms,
                decision,
            ),
    {
        let (id, retransmission, target, enqueued_at_ms) = match self.lanes.peek(lane) {
            None => {
                return PacketDecision::Idle;
            },
            Some(head) => (head.fragment.id(), head.retransmission, head.target,
                head.enqueued_at_ms),
        };
        assert(old(self).queue(lane)[0].fragment@.wf());
        if retransmission && !self.acks.is_pending(id) {
            let _ = self.pop_head(lane);
            return PacketDecision::Skipped { fragment_id: id };
        }
        match target {
            Target::Recipient(recipient) => {
                let route = match topology.current() {
                    None => None,
                    Some(snapshot) => {
                        if snapshot.routable() {
                            snapshot.random_route(self.config.hops)
                        } else {
                            None
                        }
                    },
                };
                let route = match route {
                    None => {
                        return PacketDecision::Blocked;
                    },
                    Some(route) => route,
                };
                let first_hop = route[0].identity;
                let prepared = self.pop_head(lane);
                let payload = prepared.fragment.to_bytes();
                let ack = build_ack(&self.config.ack_key, id);
                if !retransmission {
                    self.acks.register(id, prepared.fragment.message_id, first_hop,
                        prepared.lane, now_ms);
                }
                let order = PacketOrder {
                    fragment_id: id,
                    payload,
                    ack,
                    route,
                    first_hop,
                    recipient: Some(recipient),
                    surb: None,
                    lane: prepared.lane,
                    retransmission,
                };
                let _ = self.in_flight.insert(id, prepared);
                PacketDecision::Send(order)
            },
            Target::Reply(tag) => {
                let taken = replies.handle(
                    ReplyControlRequest::TakeSurbFor { sender_tag: tag },
                    now_ms,
                );
                let surb = match taken {
                    crate::replies::ReplyControlResponse::Surb(Some(surb)) => surb,
                    _ => {
                        if now_ms >= enqueued_at_ms && now_ms - enqueued_at_ms
                            >= self.config.reply_wait_ms {
                            let _ = self.pop_head(lane);
                            let _ = self.acks.on_ack(id);
                            return PacketDecision::NoReplyPath { fragment_id: id };
                        }
                        let count = self.lanes.lane_length(lane);
                        return PacketDecision::NeedSurbs { sender_tag: tag, count };
                    },
                };
                let first_hop = surb.first_hop;
                let prepared = self.pop_head(lane);
                let payload = prepared.fragment.to_bytes();
                let ack = build_ack(&self.config.ack_key, id);
                if !retransmission {
                    self.acks.register(id, prepared.fragment.message_id, first_hop,
                        prepared.lane, now_ms);
                }
                let order = PacketOrder {
                    fragment_id: id,
                    payload,
                    ack,
                    route: Vec::new(),
                    first_hop,
                    recipient: None,
                    surb: Some(surb),
                    lane: prepared.lane,
                    retransmission,
                };
                let _ = self.in_flight.insert(id, prepared);
                PacketDecision::Send(order)
            },
        }
    }

    /// Takes the head of a lane that is known to hold something.
    fn pop_head(&mut self, lane: LaneId) -> (head: PreparedFragment)
        requires
            old(self).wf(),
            old(self).queue(lane).len() > 0,
        ensures
            final(self).wf(),
            head == old(self).queue(lane).first(),
            head.fragment@.wf(),
            final(self).config == old(self).config,
            final(self).acks == old(self).acks,
            final(self).in_flight == old(self).in_flight,
            final(self).queue(lane) == old(self).queue(lane).drop_first(),
            forall|other: LaneId|
                other != lane ==> final(self).queue(other) == #[trigger] old(self).queue(other),
    {
        let taken = self.lanes.pop(lane);
        proof {
            assert(old(self).queue(lane)[0].fragment@.wf());
            assert forall|l: LaneId, i: int| 0 <= i < self.lanes.queue(l).len() implies (
            #[trigger] self.lanes.queue(l)[i]).fragment@.wf() by {
                if l == lane {
                    assert(self.lanes.queue(l)[i] == old(self).lanes.queue(l)[i + 1]);
                } else {
                    assert(l as u128 != lane as u128);
                    assert(self.lanes.queue(l) == old(self).lanes.queue(l));
                }
            }
            assert forall|other: LaneId| other != lane implies final(self).queue(other)
                == #[trigger] old(self).queue(other) by {
                assert(other as u128 != lane as u128);
            }
        }
        taken.unwrap()
    }

    /// Decides about the head of a lane drawn at random among those in
    /// which something waits. `None` says that every lane is empty.
    pub fn next_packet(
        &mut self,
        topology: &TopologyAccessor,
        replies: &mut ReplyController,
        now_ms: u64,
    ) -> (decision: Option<(LaneId, PacketDecision)>)
        requires
            old(self).wf(),
            old(replies).wf(),
        ensures
            final(self).wf(),
            final(replies).wf(),
            decision is None <==> forall|lane: LaneId| #[trigger] old(self).queue(lane).len() == 0,
            decision is None ==> {
                &&& final(self).config() == old(self).config()
                &&& final(self).pending() == old(self).pending()
                &&& final(self).pending_in_order() == old(self).pending_in_order()
                &&& final(self).in_flight() == old(self).in_flight()
                &&& final(replies).keys() == old(replies).keys()
                &&& final(replies).ttl() == old(replies).ttl()
                &&& forall|lane: LaneId| #[trigger] final(self).queue(lane) == old(self).queue(lane)
                &&& forall|tag: SenderTag| #[trigger]
                    final(replies).surbs(tag) == old(replies).surbs(tag)
            },
            decision is Some ==> old(self).queue(decision.unwrap().0).len() > 0 && packet_decided(
                *old(self),
                *final(self),
                *old(replies),
                *final(replies),
                decision.unwrap().0,
                topology@,
                now_ms,
                decision.unwrap().1,
            ),
    {
        match self.lanes.pick_lane() {
            None => None,
            Some(lane) => {
                let made = self.next_packet_on(lane, topology, replies, now_ms);
                Some((lane, made))
            },
        }
    }
}

/// What the packet builder does about the fragment at the head of `lane`,
/// as a relation between the state before and after and the decision.
pub open spec fn packet_decided(
    before: RealMessagesController,
    after: RealMessagesController,
    replies_before: ReplyController,
    replies_after: ReplyController,
    lane: LaneId,
    topology: Option<SnapshotView>,
    now_ms: u64,
    decision: PacketDecision,
) -> bool {
    &&& after.config() == before.config()
    &&& replies_after.keys() == replies_before.keys()
    &&& replies_after.ttl() == replies_before.ttl()
    &&& forall|other: LaneId|
        other != lane ==> #[trigger] after.queue(other) == before.queue(other)
    &&& before.queue(lane).len() == 0 <==> decision is Idle
    &&& (decision is Idle || decision is Blocked || decision is NeedSurbs) ==> {
        &&& after.queue(lane) == before.queue(lane)
        &&& after.pending() == before.pending()
        &&& after.pending_in_order() == before.pending_in_order()
        &&& after.in_flight() == before.in_flight()
        &&& forall|tag: SenderTag| #[trigger] replies_after.surbs(tag) == replies_before.surbs(tag)
    }
    &&& (decision is Skipped || decision is NoReplyPath || decision is Send)
        ==> after.queue(lane) == before.queue(lane).drop_first()
    &&& before.queue(lane).len() > 0 ==> {
        let head = before.queue(lane).first();
        let id = head.fragment@.id();
        let acked = head.retransmission && !before.pending().contains_key(id);
        let routable = topology is Some && topology.unwrap().routable()
            && before.config().hops <= topology.unwrap().mixes.len();
        &&& decision is Skipped <==> acked
        &&& decision matches PacketDecision::Skipped { fragment_id } ==> fragment_id == id
            && after.pending() == before.pending() && after.pending_in_order()
            == before.pending_in_order() && after.in_flight() == before.in_flight()
        &&& !acked ==> match head.target {
            Target::Recipient(recipient) => {
                &&& decision is Blocked <==> !routable
                &&& routable ==> decision is Send
            },
            Target::Reply(tag) => {
                let held = replies_before.surbs(tag).len() > 0;
                let waited = now_ms >= head.enqueued_at_ms && now_ms - head.enqueued_at_ms
                    >= before.config().reply_wait_ms;
                &&& decision is Send <==> held
                &&& decision is NoReplyPath <==> !held && waited
                &&& decision is NeedSurbs <==> !held && !waited
                &&& decision matches PacketDecision::NeedSurbs { sender_tag, count }
                    ==> sender_tag == tag && count == before.queue(lane).len()
                &&& decision matches PacketDecision::NoReplyPath { fragment_id } ==> fragment_id
                    == id && after.pending() == before.pending().remove(id)
                    && after.pending_in_order() == without_fragment(before.pending_in_order(), id)
                    && after.in_flight() == before.in_flight()
            },
        }
        &&& decision matches PacketDecision::Send(order) ==> {
            &&& order.fragment_id == id
            &&& order.payload@ == fragment_bytes(head.fragment@)
            &&& order.ack@ == ack_bytes(before.config().ack_key@, id)
            &&& order.lane == head.lane
            &&& order.retransmission == head.retransmission
            &&& after.in_flight() == before.in_flight().insert(id, head)
            &&& head.retransmission ==> after.pending() == before.pending()
                && after.pending_in_order()
                == before.pending_in_order()
            &&& !head.retransmission ==> after.pending().contains_key(id) && after.pending()
                == before.pending().insert(id, after.pending()[id]) && {
                let entry = after.pending()[id];
                &&& entry.fragment_id == id
                &&& entry.message_id == head.fragment.message_id
                &&& entry.first_hop == order.first_hop
                &&& entry.lane == head.lane
                &&& entry.sent_at_ms == now_ms
                &&& entry.retransmissions_left == before.config().acks.retransmit_budget
                &&& !before.pending().contains_key(id) ==> after.pending_in_order()
                    == before.pending_in_order().push(entry)
            }
            &&& match head.target {
                Target::Recipient(recipient) => {
                    &&& order.recipient == Some(recipient)
                    &&& order.surb is None
                    &&& order.route@.len() == before.config().hops
                    &&& topology.unwrap().is_route(order.route@)
                    &&& order.first_hop == order.route@[0].identity
                    &&& forall|tag: SenderTag| #[trigger]
                        replies_after.surbs(tag) == replies_before.surbs(tag)
                },
                Target::Reply(tag) => {
                    &&& order.recipient is None
                    &&& order.surb == Some(replies_before.surbs(tag).first())
                    &&& order.route@.len() == 0
                    &&& order.first_hop == replies_before.surbs(tag).first().first_hop
                    &&& forall|other: SenderTag| #[trigger]
                        replies_after.surbs(other) == queue_step(
                            replies_before.surbs(other),
                            QueueOp::<Surb>::Pop { key: tag },
                            other,
                        )
                },
            }
        }
    }
}

} // verus!
