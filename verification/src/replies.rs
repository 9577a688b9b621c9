//! Reply blocks and reply keys: the two maps of the reply controller and
//! the control requests that it serves.

use vstd::prelude::*;
use crate::error::ClientCoreError;
use crate::fifo::{lemma_queue_single_use, popped_on, pushed_on, queue_step, QueueOp};
use crate::table::{inserted_all, Table};

verus! {

/// Identifies a reply block; travels in the clear tag of the frame that answers it.
pub type SurbId = u128;

/// The pseudonym under which a peer sent its reply blocks.
pub type SenderTag = u128;

/// The symmetric key that decrypts the payload returning on a reply block.
#[derive(Debug, Clone, Copy, PartialEq, Eq)]
pub struct ReplyKey {
    pub bytes: [u8; 16],
}

/// A single-use reply block: the token with which a peer can answer
/// without knowing whom. It cannot be copied.
#[derive(Debug, PartialEq, Eq)]
pub struct Surb {
    pub id: SurbId,
    /// The node to which a packet on this block is handed.
    pub first_hop: u128,
    /// The key with which the answer is encrypted; the owner of the block keeps it too.
    pub encryption_key: ReplyKey,
    /// The prebuilt path back to the owner, as the packet library made it.
    pub material: Vec<u8>,
}

/// The mathematical content of a reply block.
pub struct SurbView {
    pub id: SurbId,
    pub first_hop: u128,
    pub encryption_key: Seq<u8>,
    pub material: Seq<u8>,
}

impl View for Surb {
    type V = SurbView;

    open spec fn view(&self) -> SurbView {
        SurbView {
            id: self.id,
            first_hop: self.first_hop,
            encryption_key: self.encryption_key.bytes@,
            material: self.material@,
        }
    }
}

/// A reply key together with the time at which its reply block was sent out.
#[derive(Debug, Clone, Copy, PartialEq, Eq)]
pub struct SentKey {
    pub key: ReplyKey,
    pub sent_at_ms: u64,
}

/// A key has expired once `ttl_ms` have passed since it was stored.
pub open spec fn expired(entry: SentKey, now_ms: u64, ttl_ms: u64) -> bool {
    entry.sent_at_ms + ttl_ms <= now_ms
}

/// The keys of `keys` that have not expired at `now_ms`.
pub open spec fn surviving(keys: Map<SurbId, SentKey>, now_ms: u64, ttl_ms: u64) -> Map<
    SurbId,
    SentKey,
> {
    Map::new(
        |id: SurbId| keys.contains_key(id) && !expired(keys[id], now_ms, ttl_ms),
        |id: SurbId| keys[id],
    )
}

/// The keys of the reply blocks that were sent out and not answered yet.
pub struct SentReplyKeys {
    entries: Table<SentKey>,
}

impl View for SentReplyKeys {
    type V = Map<SurbId, SentKey>;

    closed spec fn view(&self) -> Map<SurbId, SentKey> {
        self.entries.map()
    }
}

impl SentReplyKeys {
    pub closed spec fn wf(&self) -> bool {
        self.entries.wf()
    }

    pub fn new() -> (keys: SentReplyKeys)
        ensures
            keys.wf(),
            keys@ == Map::<SurbId, SentKey>::empty(),
    {
        SentReplyKeys { entries: Table::new() }
    }

    /// Stores `key` for the reply block `surb_id`, stamped with the current time.
    pub fn insert(&mut self, surb_id: SurbId, key: ReplyKey, now_ms: u64)
        requires
            old(self).wf(),
        ensures
            final(self).wf(),
            final(self)@ == old(self)@.insert(surb_id, SentKey { key, sent_at_ms: now_ms }),
    {
        let _ = self.entries.insert(surb_id, SentKey { key, sent_at_ms: now_ms });
    }

    pub fn contains(&self, surb_id: SurbId) -> (held: bool)
        requires
            self.wf(),
        ensures
            held == self@.contains_key(surb_id),
    {
        self.entries.contains_key(surb_id)
    }

    /// The key stored for `surb_id`, left in place.
    pub fn peek(&self, surb_id: SurbId) -> (key: Option<ReplyKey>)
        requires
            self.wf(),
        ensures
            key is Some <==> self@.contains_key(surb_id),
            key is Some ==> key.unwrap() == self@[surb_id].key,
    {
        match self.entries.get(surb_id) {
            Some(entry) => Some(entry.key),
            None => None,
        }
    }

    /// Hands out the key stored for `surb_id` and forgets it: a key opens one reply.
    pub fn try_take(&mut self, surb_id: SurbId) -> (key: Option<ReplyKey>)
        requires
            old(self).wf(),
        ensures
            final(self).wf(),
            key is Some <==> old(self)@.contains_key(surb_id),
            key is Some ==> key.unwrap() == old(self)@[surb_id].key,
            final(self)@ == old(self)@.remove(surb_id),
    {
        match self.entries.remove(surb_id) {
            Some(entry) => Some(entry.key),
            None => None,
        }
    }

    pub fn len(&self) -> (n: usize)
        requires
            self.wf(),
        ensures
            n == self@.dom().len(),
    {
        proof {
            self.entries.lemma_order_is_domain();
        }
        self.entries.len()
    }

    /// Evicts every key that has expired at `now_ms` and says how many went.
    pub fn remove_expired(&mut self, now_ms: u64, ttl_ms: u64) -> (evicted: usize)
        requires
            old(self).wf(),
        ensures
            final(self).wf(),
            final(self)@ == surviving(old(self)@, now_ms, ttl_ms),
            evicted == old(self)@.dom().len() - final(self)@.dom().len(),
    {
        let mut evicted: usize = 0;
        let mut i: usize = 0;
        let total = self.entries.len();
        proof {
            self.entries.lemma_order_is_domain();
        }
        while i < self.entries.len()
            invariant
                self.entries.wf(),
                total == old(self).entries.order().len(),
                i <= self.entries.order().len(),
                evicted + self.entries.order().len() == old(self).entries.order().len(),
                forall|k: u128| #[trigger]
                    self.entries.map().contains_key(k) ==> old(self)@.contains_key(k)
                        && self.entries.map()[k] == old(self)@[k],
                forall|k: u128|
                    old(self)@.contains_key(k) && !expired(old(self)@[k], now_ms, ttl_ms)
                        ==> #[trigger] self.entries.map().contains_key(k),
                forall|j: int|
                    0 <= j < i ==> !expired(#[trigger] self.entries.items()[j], now_ms, ttl_ms),
            decreases self.entries.order().len() - i,
        {
            let entry = *self.entries.value_at(i);
            if now_ms >= entry.sent_at_ms && now_ms - entry.sent_at_ms >= ttl_ms {
                proof {
                    self.entries.lemma_map_at(i as int);
                }
                let _ = self.entries.remove_at(i);
                evicted += 1;
            } else {
                i += 1;
            }
        }
        proof {
            assert forall|k: u128| #[trigger]
                self@.contains_key(k) implies !expired(self@[k], now_ms, ttl_ms) by {
                self.entries.lemma_key_position(k);
            }
            assert(self@ =~= surviving(old(self)@, now_ms, ttl_ms));
            self.entries.lemma_order_is_domain();
        }
        evicted
    }
}

/// The reply blocks received from peers, one queue per sender tag.
pub struct ReceivedSurbs {
    queues: Table<Vec<Surb>>,
}

impl ReceivedSurbs {
    pub closed spec fn wf(&self) -> bool {
        self.queues.wf()
    }

    /// The reply blocks held for `tag`, oldest first.
    pub closed spec fn queue(&self, tag: SenderTag) -> Seq<Surb> {
        if self.queues.map().contains_key(tag) {
            self.queues.map()[tag]@
        } else {
            Seq::empty()
        }
    }

    pub fn new() -> (surbs: ReceivedSurbs)
        ensures
            surbs.wf(),
            forall|tag: SenderTag| #[trigger] surbs.queue(tag) == Seq::<Surb>::empty(),
    {
        ReceivedSurbs { queues: Table::new() }
    }

    /// How many reply blocks are held for `tag`.
    pub fn available(&self, tag: SenderTag) -> (n: usize)
        requires
            self.wf(),
        ensures
            n == self.queue(tag).len(),
    {
        match self.queues.get(tag) {
            Some(queue) => queue.len(),
            None => 0,
        }
    }

    /// Appends `surb` to the queue of `tag`.
    pub fn insert(&mut self, tag: SenderTag, surb: Surb)
        requires
            old(self).wf(),
        ensures
            final(self).wf(),
            final(self).queue(tag) == old(self).queue(tag).push(surb),
            forall|other: SenderTag| #[trigger]
                final(self).queue(other) == queue_step(
                    old(self).queue(other),
                    QueueOp::Push { key: tag, items: seq![surb] },
                    other,
                ),
    {
        match self.queues.position(tag) {
            Some(at) => {
                proof {
                    self.queues.lemma_map_at(at as int);
                }
                let mut queue = self.queues.replace_at(at, Vec::new());
                queue.push(surb);
                let _ = self.queues.replace_at(at, queue);
            },
            None => {
                let mut queue: Vec<Surb> = Vec::new();
                queue.push(surb);
                let _ = self.queues.insert(tag, queue);
            },
        }
        proof {
            assert(final(self).queue(tag) =~= old(self).queue(tag) + seq![surb]);
            assert(final(self).queue(tag) =~= old(self).queue(tag).push(surb));
        }
    }

    /// Hands out the oldest reply block held for `tag`, if there is one.
    pub fn take(&mut self, tag: SenderTag) -> (surb: Option<Surb>)
        requires
            old(self).wf(),
        ensures
            final(self).wf(),
            surb is Some <==> old(self).queue(tag).len() > 0,
            surb is Some ==> surb.unwrap() == old(self).queue(tag).first(),
            forall|other: SenderTag| #[trigger]
                final(self).queue(other) == queue_step(
                    old(self).queue(other),
                    QueueOp::<Surb>::Pop { key: tag },
                    other,
                ),
    {
        match self.queues.position(tag) {
            Some(at) => {
                proof {
                    self.queues.lemma_map_at(at as int);
                }
                if self.queues.value_at(at).len() == 0 {
                    return None;
                }
                let mut queue = self.queues.replace_at(at, Vec::new());
                let surb = queue.remove(0);
                let _ = self.queues.replace_at(at, queue);
                proof {
                    assert(final(self).queue(tag) =~= old(self).queue(tag).drop_first());
                }
                Some(surb)
            },
            None => None,
        }
    }
}

/// Both maps of the reply controller.
pub struct CombinedReplyStorage {
    pub sent_reply_keys: SentReplyKeys,
    pub received_surbs: ReceivedSurbs,
}

impl CombinedReplyStorage {
    pub open spec fn wf(&self) -> bool {
        self.sent_reply_keys.wf() && self.received_surbs.wf()
    }

    /// A storage that holds nothing.
    pub fn new() -> (storage: CombinedReplyStorage)
        ensures
            storage.wf(),
            storage.sent_reply_keys@ == Map::<SurbId, SentKey>::empty(),
            forall|tag: SenderTag| #[trigger]
                storage.received_surbs.queue(tag) == Seq::<Surb>::empty(),
    {
        CombinedReplyStorage {
            sent_reply_keys: SentReplyKeys::new(),
            received_surbs: ReceivedSurbs::new(),
        }
    }
}

/// The reply storage as a backend keeps it: the reply keys with their
/// blocks' ids, and the reply blocks by sender tag.
pub struct ReplyStorageSnapshot {
    pub key_ids: Vec<SurbId>,
    pub keys: Vec<SentKey>,
    pub tags: Vec<SenderTag>,
    pub surbs: Vec<Vec<Surb>>,
}

/// The queues of reply blocks that a snapshot stands for.
pub open spec fn snapshot_queue(snapshot: ReplyStorageSnapshot, tag: SenderTag) -> Seq<Surb> {
    let queues = inserted_all(snapshot.tags@, snapshot.surbs@);
    if queues.contains_key(tag) {
        queues[tag]@
    } else {
        Seq::empty()
    }
}

impl CombinedReplyStorage {
    /// Takes the storage apart, to be written to the backend.
    pub fn into_snapshot(self) -> (snapshot: ReplyStorageSnapshot)
        requires
            self.wf(),
        ensures
            snapshot.key_ids@.len() == snapshot.keys@.len(),
            snapshot.tags@.len() == snapshot.surbs@.len(),
            inserted_all(snapshot.key_ids@, snapshot.keys@) == self.sent_reply_keys@,
            forall|tag: SenderTag| #[trigger]
                snapshot_queue(snapshot, tag) == self.received_surbs.queue(tag),
    {
        let (key_ids, keys) = self.sent_reply_keys.entries.into_parts();
        let (tags, surbs) = self.received_surbs.queues.into_parts();
        ReplyStorageSnapshot { key_ids, keys, tags, surbs }
    }

    /// Puts a storage together from what the backend kept. Where an id or
    /// a tag occurs twice, the later entry counts.
    pub fn from_snapshot(snapshot: ReplyStorageSnapshot) -> (res: Option<CombinedReplyStorage>)
        ensures
            res is Some <==> snapshot.key_ids@.len() == snapshot.keys@.len() && snapshot.tags@.len()
                == snapshot.surbs@.len(),
            res is Some ==> {
                &&& res.unwrap().wf()
                &&& res.unwrap().sent_reply_keys@ == inserted_all(snapshot.key_ids@, snapshot.keys@)
                &&& forall|tag: SenderTag| #[trigger]
                    res.unwrap().received_surbs.queue(tag) == snapshot_queue(snapshot, tag)
            },
    {
        if snapshot.key_ids.len() != snapshot.keys.len() || snapshot.tags.len()
            != snapshot.surbs.len() {
            return None;
        }
        let mut sent = SentReplyKeys::new();
        let mut i: usize = 0;
        assert(snapshot.key_ids@.subrange(0, 0) =~= Seq::<SurbId>::empty());
        while i < snapshot.key_ids.len()
            invariant
                i <= snapshot.key_ids@.len(),
                snapshot.key_ids@.len() == snapshot.keys@.len(),
                sent.wf(),
                sent@ == inserted_all(
                    snapshot.key_ids@.subrange(0, i as int),
                    snapshot.keys@.subrange(0, i as int),
                ),
            decreases snapshot.key_ids@.len() - i,
        {
            proof {
                assert(snapshot.key_ids@.subrange(0,
                    i + 1).drop_last() =~= snapshot.key_ids@.subrange(
                    0,
                    i as int,
                ));
                assert(snapshot.keys@.subrange(0, i + 1).drop_last() =~= snapshot.keys@.subrange(
                    0,
                    i as int,
                ));
            }
            let entry = snapshot.keys[i];
            sent.insert(snapshot.key_ids[i], entry.key, entry.sent_at_ms);
            i += 1;
        }
        proof {
            assert(snapshot.key_ids@.subrange(0, snapshot.key_ids@.len() as int)
                =~= snapshot.key_ids@);
            assert(snapshot.keys@.subrange(0, snapshot.keys@.len() as int) =~= snapshot.keys@);
        }
        let ghost wanted = inserted_all(snapshot.tags@, snapshot.surbs@);
        let ghost all_tags = snapshot.tags@;
        let ghost all_surbs = snapshot.surbs@;
        let ReplyStorageSnapshot { tags, surbs, .. } = snapshot;
        let mut tags = tags;
        let mut surbs = surbs;
        let mut queues: Table<Vec<Surb>> = Table::new();
        let mut moved: usize = 0;
        let total = tags.len();
        assert(all_tags.subrange(0, 0) =~= Seq::<SenderTag>::empty());
        while tags.len() > 0
            invariant
                tags@.len() == surbs@.len(),
                moved + tags@.len() == total,
                total == all_tags.len(),
                all_tags.len() == all_surbs.len(),
                tags@ == all_tags.subrange(moved as int, total as int),
                surbs@ == all_surbs.subrange(moved as int, total as int),
                queues.wf(),
                queues.map() == inserted_all(
                    all_tags.subrange(0, moved as int),
                    all_surbs.subrange(0, moved as int),
                ),
            decreases tags@.len(),
        {
            let tag = tags.remove(0);
            let queue = surbs.remove(0);
            proof {
                assert(tag == all_tags[moved as int]);
                assert(queue == all_surbs[moved as int]);
                assert(tags@ =~= all_tags.subrange(moved + 1, total as int));
                assert(surbs@ =~= all_surbs.subrange(moved + 1, total as int));
                assert(all_tags.subrange(0, moved + 1).drop_last() =~= all_tags.subrange(
                    0,
                    moved as int,
                ));
                assert(all_surbs.subrange(0, moved + 1).drop_last() =~= all_surbs.subrange(
                    0,
                    moved as int,
                ));
            }
            let _ = queues.insert(tag, queue);
            moved += 1;
        }
        proof {
            assert(all_tags.subrange(0, total as int) =~= all_tags);
            assert(all_surbs.subrange(0, total as int) =~= all_surbs);
        }
        Some(CombinedReplyStorage { sent_reply_keys: sent,
            received_surbs: ReceivedSurbs { queues } })
    }
}

/// Turns what the storage backend returned at startup into the in-memory
/// storage, or into the error that stops the startup.
pub fn setup_persistent_reply_storage(loaded: Result<CombinedReplyStorage, String>) -> (res: Result<
    CombinedReplyStorage,
    ClientCoreError,
>)
    ensures
        loaded is Ok ==> res == Ok::<CombinedReplyStorage, ClientCoreError>(loaded->Ok_0),
        loaded is Err ==> res == Err::<CombinedReplyStorage, ClientCoreError>(
            ClientCoreError::SurbStorageError { source: loaded->Err_0 },
        ),
{
    match loaded {
        Ok(storage) => Ok(storage),
        Err(source) => Err(ClientCoreError::SurbStorageError { source }),
    }
}

/// A request on the reply controller's control channel.
pub enum ReplyControlRequest {
    StoreSentReplyKey { surb_id: SurbId, key: ReplyKey },
    InsertReceivedSurb { sender_tag: SenderTag, surb: Surb },
    TakeSurbFor { sender_tag: SenderTag },
    GarbageCollect,
}

/// The controller's answer to a request.
pub enum ReplyControlResponse {
    KeyStored,
    SurbInserted,
    Surb(Option<Surb>),
    Collected { evicted: usize },
}

/// Owns the reply storage; every access to it is one request.
pub struct ReplyController {
    storage: CombinedReplyStorage,
    key_ttl_ms: u64,
}

impl ReplyController {
    pub closed spec fn wf(&self) -> bool {
        self.storage.wf()
    }

    /// The reply keys that are stored.
    pub closed spec fn keys(&self) -> Map<SurbId, SentKey> {
        self.storage.sent_reply_keys@
    }

    /// The reply blocks held for `tag`.
    pub closed spec fn surbs(&self, tag: SenderTag) -> Seq<Surb> {
        self.storage.received_surbs.queue(tag)
    }

    /// How long a reply key is kept.
    pub closed spec fn ttl(&self) -> u64 {
        self.key_ttl_ms
    }

    pub fn new(storage: CombinedReplyStorage, key_ttl_ms: u64) -> (controller: ReplyController)
        requires
            storage.wf(),
        ensures
            controller.wf(),
            controller.keys() == storage.sent_reply_keys@,
            controller.ttl() == key_ttl_ms,
            forall|tag: SenderTag| #[trigger]
                controller.surbs(tag) == storage.received_surbs.queue(tag),
    {
        ReplyController { storage, key_ttl_ms }
    }

    /// Serves one control request at time `now_ms`.
    pub fn handle(&mut self, request: ReplyControlRequest, now_ms: u64) -> (response:
        ReplyControlResponse)
        requires
            old(self).wf(),
        ensures
            final(self).wf(),
            final(self).ttl() == old(self).ttl(),
            match request {
                ReplyControlRequest::StoreSentReplyKey { surb_id, key } => {
                    &&& response is KeyStored
                    &&& final(self).keys() == old(self).keys().insert(
                        surb_id,
                        SentKey { key, sent_at_ms: now_ms },
                    )
                    &&& forall|tag: SenderTag| #[trigger]
                        final(self).surbs(tag) == old(self).surbs(tag)
                },
                ReplyControlRequest::InsertReceivedSurb { sender_tag, surb } => {
                    &&& response is SurbInserted
                    &&& final(self).keys() == old(self).keys()
                    &&& forall|tag: SenderTag| #[trigger]
                        final(self).surbs(tag) == queue_step(
                            old(self).surbs(tag),
                            QueueOp::Push { key: sender_tag, items: seq![surb] },
                            tag,
                        )
                },
                ReplyControlRequest::TakeSurbFor { sender_tag } => {
                    &&& response is Surb
                    &&& final(self).keys() == old(self).keys()
                    &&& response->Surb_0 is Some <==> old(self).surbs(sender_tag).len() > 0
                    &&& response->Surb_0 is Some ==> response->Surb_0.unwrap() == old(self).surbs(
                        sender_tag,
                    ).first()
                    &&& forall|tag: SenderTag| #[trigger]
                        final(self).surbs(tag) == queue_step(
                            old(self).surbs(tag),
                            QueueOp::<Surb>::Pop { key: sender_tag },
                            tag,
                        )
                },
                ReplyControlRequest::GarbageCollect => {
                    &&& response is Collected
                    &&& final(self).keys() == surviving(old(self).keys(), now_ms, old(self).ttl())
                    &&& response->evicted
                        == old(self).keys().dom().len() - final(self).keys().dom().len()
                    &&& forall|tag: SenderTag| #[trigger]
                        final(self).surbs(tag) == old(self).surbs(tag)
                },
            },
    {
        match request {
            ReplyControlRequest::StoreSentReplyKey { surb_id, key } => {
                self.storage.sent_reply_keys.insert(surb_id, key, now_ms);
                ReplyControlResponse::KeyStored
            },
            ReplyControlRequest::InsertReceivedSurb { sender_tag, surb } => {
                self.storage.received_surbs.insert(sender_tag, surb);
                ReplyControlResponse::SurbInserted
            },
            ReplyControlRequest::TakeSurbFor { sender_tag } => {
                let surb = self.storage.received_surbs.take(sender_tag);
                ReplyControlResponse::Surb(surb)
            },
            ReplyControlRequest::GarbageCollect => {
                let evicted = self.storage.sent_reply_keys.remove_expired(now_ms, self.key_ttl_ms);
                ReplyControlResponse::Collected { evicted }
            },
        }
    }

    /// Uses the reply key of `surb_id` for one inbound frame: the key is handed out and forgotten.
    pub fn use_reply_key(&mut self, surb_id: SurbId) -> (key: Option<ReplyKey>)
        requires
            old(self).wf(),
        ensures
            final(self).wf(),
            final(self).ttl() == old(self).ttl(),
            key is Some <==> old(self).keys().contains_key(surb_id),
            key is Some ==> key.unwrap() == old(self).keys()[surb_id].key,
            final(self).keys() == old(self).keys().remove(surb_id),
            forall|tag: SenderTag| #[trigger] final(self).surbs(tag) == old(self).surbs(tag),
    {
        self.storage.sent_reply_keys.try_take(surb_id)
    }

    /// How many reply blocks are held for `tag`.
    pub fn surbs_available(&self, tag: SenderTag) -> (n: usize)
        requires
            self.wf(),
        ensures
            n == self.surbs(tag).len(),
    {
        self.storage.received_surbs.available(tag)
    }

    /// Whether the key of the reply block `surb_id` is stored.
    pub fn holds_reply_key(&self, surb_id: SurbId) -> (held: bool)
        requires
            self.wf(),
        ensures
            held == self.keys().contains_key(surb_id),
    {
        self.storage.sent_reply_keys.contains(surb_id)
    }

    /// How many reply keys are stored.
    pub fn reply_key_count(&self) -> (n: usize)
        requires
            self.wf(),
        ensures
            n == self.keys().dom().len(),
    {
        self.storage.sent_reply_keys.len()
    }

    /// Opens an inbound frame: first with the local encryption key, then
    /// with the reply key that the frame's tag names. A reply key that
    /// opened a frame is forgotten.
    pub fn open_frame(&mut self, local_secret: &[u8; 32], frame: &[u8]) -> (opened:
        crate::received_buffer::Opened)
        requires
            old(self).wf(),
        ensures
            final(self).wf(),
            final(self).ttl() == old(self).ttl(),
            forall|tag: SenderTag| #[trigger] final(self).surbs(tag) == old(self).surbs(tag),
            ({
                let (used, fragment) = crate::received_buffer::opening(
                    local_secret@,
                    old(self).keys(),
                    frame@,
                );
                &&& fragment is None <==> opened is Undecryptable
                &&& fragment is Some && used is None ==> (
                opened matches crate::received_buffer::Opened::WithLocalKey { fragment: f } && f@
                    == fragment.unwrap() && f@.wf())
                &&& fragment is Some && used is Some ==> (
                opened matches crate::received_buffer::Opened::WithReplyKey { surb_id, fragment: f }
                    && surb_id == used.unwrap() && f@ == fragment.unwrap() && f@.wf())
                &&& used is Some ==> final(self).keys() == old(self).keys().remove(used.unwrap())
                &&& used is None ==> final(self).keys() == old(self).keys()
            }),
    {
        crate::received_buffer::open_frame(local_secret, &mut self.storage.sent_reply_keys, frame)
    }

    /// Gives the storage back, to be written to the backend at shutdown.
    pub fn into_storage(self) -> (storage: CombinedReplyStorage)
        requires
            self.wf(),
        ensures
            storage.wf(),
            storage.sent_reply_keys@ == self.keys(),
            forall|tag: SenderTag| #[trigger]
                storage.received_surbs.queue(tag) == self.surbs(tag),
    {
        self.storage
    }
}

/// A reply block is single-use. Whatever inserts and takes are served, the
/// blocks handed out for a tag are the first blocks inserted for it, each
/// inserted block at most once and in the order of insertion: the `i`-th
/// and the `j`-th block handed out are the `i`-th and the `j`-th inserted.
pub proof fn lemma_surb_single_use(ops: Seq<QueueOp<Surb>>, tag: SenderTag, i: int, j: int)
    requires
        0 <= i < j < popped_on(ops, tag).len(),
    ensures
        popped_on(ops, tag).len() <= pushed_on(ops, tag).len(),
        popped_on(ops, tag)[i] == pushed_on(ops, tag)[i],
        popped_on(ops, tag)[j] == pushed_on(ops, tag)[j],
{
    lemma_queue_single_use(ops, tag, i, j);
}

/// A reply key is single-use. Once the key of a reply block was used, a
/// second frame that names the same block finds no key, until the block's
/// key is stored again.
pub proof fn lemma_reply_key_single_use(keys: Map<SurbId, SentKey>, surb_id: SurbId)
    ensures
        !keys.remove(surb_id).contains_key(surb_id),
        keys.remove(surb_id).remove(surb_id) == keys.remove(surb_id),
        forall|other: SurbId|
            other != surb_id ==> (#[trigger] keys.remove(surb_id).contains_key(other)
                <==> keys.contains_key(other)),
{
    assert(keys.remove(surb_id).remove(surb_id) =~= keys.remove(surb_id));
}

} // verus!
