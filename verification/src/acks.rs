//! Pending acknowledgements: which fragments still wait for their ack, when
//! each is retransmitted and when it is given up.

use vstd::prelude::*;
use crate::table::{lemma_position_unique, position_of, Table};

verus! {

/// Milliseconds that a fragment waits for its ack before the first retransmission.
pub const DEFAULT_ACK_TIMEOUT_MS: u64 = 1500;

/// How often a fragment is retransmitted before it is reported undeliverable.
pub const DEFAULT_RETRANSMIT_BUDGET: u32 = 10;

/// The largest jitter, in thousandths of the backoff, in either direction.
pub const MAX_JITTER_PERMILLE: i64 = 100;

/// Retransmission settings.
#[derive(Debug, Clone, Copy, PartialEq, Eq, Structural)]
pub struct AckConfig {
    pub base_timeout_ms: u64,
    pub retransmit_budget: u32,
}

impl Default for AckConfig {
    fn default() -> (config: AckConfig)
        ensures
            config.base_timeout_ms == DEFAULT_ACK_TIMEOUT_MS,
            config.retransmit_budget == DEFAULT_RETRANSMIT_BUDGET,
    {
        AckConfig {
            base_timeout_ms: DEFAULT_ACK_TIMEOUT_MS,
            retransmit_budget: DEFAULT_RETRANSMIT_BUDGET,
        }
    }
}

/// A fragment that was sent and whose ack has not come back.
#[derive(Debug, Clone, Copy, PartialEq, Eq, Structural)]
pub struct PendingAck {
    pub fragment_id: u128,
    pub message_id: u64,
    pub first_hop: u128,
    pub lane: u64,
    pub sent_at_ms: u64,
    pub retransmit_deadline_ms: u64,
    pub retransmissions_left: u32,
    pub backoff_ms: u64,
}

/// What the retransmitter asks for when a deadline has passed.
#[derive(Debug, Clone, Copy, PartialEq, Eq, Structural)]
pub enum AckAction {
    /// Rebuild the packet of this fragment on a fresh route and send it again.
    Retransmit { fragment_id: u128, lane: u64 },
    /// The budget is spent: the fragment is dropped and reported.
    Undeliverable { fragment_id: u128 },
}

/// What an incoming ack did.
#[derive(Debug, Clone, Copy, PartialEq, Eq, Structural)]
pub enum AckOutcome {
    /// No fragment was waiting for this ack; it is dropped.
    Unknown,
    /// The fragment is no longer pending. `message_delivered` says that it
    /// was the last outstanding fragment of its message.
    Acknowledged { message_id: u64, message_delivered: bool },
}

/// The deadline of `entry` has passed at `now_ms`.
pub open spec fn due(entry: PendingAck, now_ms: u64) -> bool {
    now_ms >= entry.retransmit_deadline_ms
}

/// `jitter` limited to a tenth of the backoff in either direction.
pub open spec fn clamped_jitter(jitter_permille: i64) -> int {
    if jitter_permille < -MAX_JITTER_PERMILLE {
        -(MAX_JITTER_PERMILLE as int)
    } else if jitter_permille > MAX_JITTER_PERMILLE {
        MAX_JITTER_PERMILLE as int
    } else {
        jitter_permille as int
    }
}

/// The backoff moved by the jitter.
pub open spec fn jittered(backoff_ms: u64, jitter_permille: i64) -> int {
    let jitter = clamped_jitter(jitter_permille);
    if jitter < 0 {
        backoff_ms - (backoff_ms * (-jitter)) / 1000
    } else {
        backoff_ms + (backoff_ms * jitter) / 1000
    }
}

/// The next deadline of a fragment retransmitted at `now_ms`; it saturates.
pub open spec fn next_deadline(now_ms: u64, backoff_ms: u64, jitter_permille: i64) -> u64 {
    let at = now_ms + jittered(backoff_ms, jitter_permille);
    if at > u64::MAX {
        u64::MAX
    } else {
        at as u64
    }
}

/// The backoff after one more retransmission: twice as long, saturating.
pub open spec fn doubled(backoff_ms: u64) -> u64 {
    if 2 * backoff_ms > u64::MAX {
        u64::MAX
    } else {
        (2 * backoff_ms) as u64
    }
}

/// What becomes of `entry` when the retransmitter looks at it at `now_ms`.
/// `None` says that the entry is dropped.
pub open spec fn after_timeout(entry: PendingAck, now_ms: u64, jitter_permille: i64) -> Option<
    PendingAck,
> {
    if !due(entry, now_ms) {
        Some(entry)
    } else if entry.retransmissions_left > 0 {
        Some(
            PendingAck {
                retransmissions_left: (entry.retransmissions_left - 1) as u32,
                retransmit_deadline_ms: next_deadline(now_ms, entry.backoff_ms, jitter_permille),
                backoff_ms: doubled(entry.backoff_ms),
                sent_at_ms: now_ms,
                ..entry
            },
        )
    } else {
        None
    }
}

/// The action that `entry` causes at `now_ms`, if its deadline has passed.
pub open spec fn timeout_action(entry: PendingAck, now_ms: u64) -> Option<AckAction> {
    if !due(entry, now_ms) {
        None
    } else if entry.retransmissions_left > 0 {
        Some(AckAction::Retransmit { fragment_id: entry.fragment_id, lane: entry.lane })
    } else {
        Some(AckAction::Undeliverable { fragment_id: entry.fragment_id })
    }
}

/// The actions that the entries cause at `now_ms`, one for each entry whose
/// deadline has passed, in the order of the entries.
pub open spec fn due_actions(entries: Seq<PendingAck>, now_ms: u64) -> Seq<AckAction>
    decreases entries.len(),
{
    if entries.len() == 0 {
        Seq::empty()
    } else {
        let earlier = due_actions(entries.drop_last(), now_ms);
        match timeout_action(entries.last(), now_ms) {
            Some(action) => earlier.push(action),
            None => earlier,
        }
    }
}

/// The pending acks after the retransmitter has looked at each of them.
pub open spec fn after_poll(
    pending: Map<u128, PendingAck>,
    now_ms: u64,
    jitter_permille: i64,
) -> Map<u128, PendingAck> {
    Map::new(
        |id: u128| pending.contains_key(id) && after_timeout(pending[id], now_ms,
            jitter_permille) is Some,
        |id: u128| after_timeout(pending[id], now_ms, jitter_permille).unwrap(),
    )
}

/// The entries after the retransmitter has looked at each of them, in
/// their order: those that were dropped are gone.
pub open spec fn entries_after_poll(
    entries: Seq<PendingAck>,
    now_ms: u64,
    jitter_permille: i64,
) -> Seq<PendingAck>
    decreases entries.len(),
{
    if entries.len() == 0 {
        Seq::empty()
    } else {
        let earlier = entries_after_poll(entries.drop_last(), now_ms, jitter_permille);
        match after_timeout(entries.last(), now_ms, jitter_permille) {
            Some(entry) => earlier.push(entry),
            None => earlier,
        }
    }
}

/// The entries without the entry of a fragment, in their order.
pub open spec fn without_fragment(entries: Seq<PendingAck>, fragment_id: u128) -> Seq<PendingAck>
    decreases entries.len(),
{
    if entries.len() == 0 {
        Seq::empty()
    } else {
        let earlier = without_fragment(entries.drop_last(), fragment_id);
        if entries.last().fragment_id == fragment_id {
            earlier
        } else {
            earlier.push(entries.last())
        }
    }
}

/// Where no entry is about the fragment, nothing is left out.
pub proof fn lemma_without_absent(entries: Seq<PendingAck>, fragment_id: u128)
    requires
        forall|i: int| 0 <= i < entries.len()
            ==> (#[trigger] entries[i]).fragment_id != fragment_id,
    ensures
        without_fragment(entries, fragment_id) == entries,
    decreases entries.len(),
{
    if entries.len() > 0 {
        assert forall|i: int| 0 <= i < entries.drop_last().len() implies (
        #[trigger] entries.drop_last()[i]).fragment_id != fragment_id by {
            assert(entries.drop_last()[i] == entries[i]);
        }
        lemma_without_absent(entries.drop_last(), fragment_id);
        assert(entries.drop_last().push(entries.last()) =~= entries);
    } else {
        assert(without_fragment(entries, fragment_id) =~= entries);
    }
}

/// Where one entry is about the fragment, that entry is left out.
pub proof fn lemma_without_present(entries: Seq<PendingAck>, fragment_id: u128, at: int)
    requires
        0 <= at < entries.len(),
        forall|i: int|
            0 <= i < entries.len() ==> ((#[trigger] entries[i]).fragment_id == fragment_id <==> i
                == at),
    ensures
        without_fragment(entries, fragment_id) == entries.remove(at),
    decreases entries.len(),
{
    let n = entries.len() - 1;
    if at == n {
        assert forall|i: int| 0 <= i < entries.drop_last().len() implies (
        #[trigger] entries.drop_last()[i]).fragment_id != fragment_id by {
            assert(entries.drop_last()[i] == entries[i]);
        }
        lemma_without_absent(entries.drop_last(), fragment_id);
        assert(entries.remove(at) =~= entries.drop_last());
    } else {
        assert forall|i: int| 0 <= i < entries.drop_last().len() implies ((
        #[trigger] entries.drop_last()[i]).fragment_id == fragment_id <==> i == at) by {
            assert(entries.drop_last()[i] == entries[i]);
        }
        lemma_without_present(entries.drop_last(), fragment_id, at);
        assert(entries.drop_last().remove(at).push(entries.last()) =~= entries.remove(at));
    }
}

/// The fragment that an action is about.
pub open spec fn action_fragment(action: AckAction) -> u128 {
    match action {
        AckAction::Retransmit { fragment_id, .. } => fragment_id,
        AckAction::Undeliverable { fragment_id } => fragment_id,
    }
}

/// Some entry of `pending` belongs to `message_id`.
pub open spec fn message_outstanding(
    pending: Map<u128, PendingAck>,
    message_id: u64,
) -> bool {
    exists|id: u128| #[trigger] pending.contains_key(id) && pending[id].message_id == message_id
}

/// Computes the deadline of a retransmission made at `now_ms`.
pub fn compute_next_deadline(now_ms: u64, backoff_ms: u64, jitter_permille: i64) -> (deadline: u64)
    ensures
        deadline == next_deadline(now_ms, backoff_ms, jitter_permille),
        backoff_ms >= 1 && now_ms < u64::MAX ==> deadline > now_ms,
{
    let jitter: i64 = if jitter_permille < -MAX_JITTER_PERMILLE {
        -MAX_JITTER_PERMILLE
    } else if jitter_permille > MAX_JITTER_PERMILLE {
        MAX_JITTER_PERMILLE
    } else {
        jitter_permille
    };
    let magnitude: u128 = if jitter < 0 {
        (-jitter) as u128
    } else {
        jitter as u128
    };
    assert(magnitude <= 100);
    assert(backoff_ms as u128 * magnitude <= 0xffff_ffff_ffff_ffff * 100) by (nonlinear_arith)
        requires
            magnitude <= 100,
            backoff_ms <= 0xffff_ffff_ffff_ffff,
    ;
    let delta: u128 = (backoff_ms as u128 * magnitude) / 1000;
    assert(delta <= backoff_ms) by (nonlinear_arith)
        requires
            delta == (backoff_ms as u128 * magnitude) / 1000,
            magnitude <= 100,
    ;
    assert(backoff_ms >= 1 ==> delta < backoff_ms) by (nonlinear_arith)
        requires
            delta == (backoff_ms as u128 * magnitude) / 1000,
            magnitude <= 100,
    ;
    let moved: u128 = if jitter < 0 {
        backoff_ms as u128 - delta
    } else {
        backoff_ms as u128 + delta
    };
    assert(moved == jittered(backoff_ms, jitter_permille));
    let at: u128 = now_ms as u128 + moved;
    if at > u64::MAX as u128 {
        u64::MAX
    } else {
        at as u64
    }
}

/// The fragments that wait for their ack, oldest first.
pub struct PendingAcks {
    entries: Table<PendingAck>,
    config: AckConfig,
}

impl View for PendingAcks {
    type V = Map<u128, PendingAck>;

    closed spec fn view(&self) -> Map<u128, PendingAck> {
        self.entries.map()
    }
}

impl PendingAcks {
    /// Every entry is stored under its own fragment id.
    pub closed spec fn wf(&self) -> bool {
        &&& self.entries.wf()
        &&& forall|i: int|
            0 <= i < self.entries.order().len() ==> (#[trigger] self.entries.items()[i]).fragment_id
                == self.entries.order()[i]
    }

    /// The entries, oldest first.
    pub closed spec fn in_order(&self) -> Seq<PendingAck> {
        self.entries.items()
    }

    pub closed spec fn config(&self) -> AckConfig {
        self.config
    }

    /// Every entry of the map is one of the ordered entries and the other way round.
    pub proof fn lemma_in_order_is_view(&self)
        requires
            self.wf(),
        ensures
            forall|id: u128| #[trigger]
                self@.contains_key(id) ==> self.in_order().contains(self@[id])
                    && self@[id].fragment_id
                    == id,
            forall|i: int|
                0 <= i < self.in_order().len() ==> self@.contains_key(
                    (#[trigger] self.in_order()[i]).fragment_id,
                ) && self@[self.in_order()[i].fragment_id] == self.in_order()[i],
            self@.dom().finite(),
            self@.dom().len() == self.in_order().len(),
    {
        assert forall|id: u128| #[trigger] self@.contains_key(id) implies self.in_order().contains(
            self@[id],
        ) && self@[id].fragment_id == id by {
            self.entries.lemma_key_position(id);
        }
        assert forall|i: int| 0 <= i < self.in_order().len() implies self@.contains_key(
            (#[trigger] self.in_order()[i]).fragment_id,
        ) && self@[self.in_order()[i].fragment_id] == self.in_order()[i] by {
            self.entries.lemma_map_at(i);
        }
        self.entries.lemma_order_is_domain();
    }

    pub fn new(config: AckConfig) -> (acks: PendingAcks)
        ensures
            acks.wf(),
            acks@ == Map::<u128, PendingAck>::empty(),
            acks.in_order() == Seq::<PendingAck>::empty(),
            acks.config() == config,
    {
        PendingAcks { entries: Table::new(), config }
    }

    pub fn len(&self) -> (n: usize)
        requires
            self.wf(),
        ensures
            n == self.in_order().len(),
    {
        self.entries.len()
    }

    pub fn is_pending(&self, fragment_id: u128) -> (pending: bool)
        requires
            self.wf(),
        ensures
            pending == self@.contains_key(fragment_id),
    {
        self.entries.contains_key(fragment_id)
    }

    /// The entry of `fragment_id`, if it is pending.
    pub fn get(&self, fragment_id: u128) -> (entry: Option<PendingAck>)
        requires
            self.wf(),
        ensures
            entry is Some <==> self@.contains_key(fragment_id),
            entry is Some ==> entry.unwrap() == self@[fragment_id],
    {
        match self.entries.get(fragment_id) {
            Some(entry) => Some(*entry),
            None => None,
        }
    }

    /// Records that a fragment was handed to the mix-traffic controller at `now_ms`.
    /// Its first deadline is one base timeout away and its budget is full.
    pub fn register(
        &mut self,
        fragment_id: u128,
        message_id: u64,
        first_hop: u128,
        lane: u64,
        now_ms: u64,
    )
        requires
            old(self).wf(),
        ensures
            final(self).wf(),
            final(self).config() == old(self).config(),
            final(self)@ == old(self)@.insert(
                fragment_id,
                PendingAck {
                    fragment_id,
                    message_id,
                    first_hop,
                    lane,
                    sent_at_ms: now_ms,
                    retransmit_deadline_ms: next_deadline(
                        now_ms,
                        old(self).config().base_timeout_ms,
                        0,
                    ),
                    retransmissions_left: old(self).config().retransmit_budget,
                    backoff_ms: doubled(old(self).config().base_timeout_ms),
                },
            ),
            !old(self)@.contains_key(fragment_id) ==> final(self).in_order()
                == old(self).in_order().push(final(self)@[fragment_id]),
            old(self)@.contains_key(fragment_id) ==> final(self).in_order().len()
                == old(self).in_order().len() && forall|i: int|
                0 <= i < final(self).in_order().len() ==> #[trigger] final(self).in_order()[i]
                    == if old(self).in_order()[i].fragment_id == fragment_id {
                    final(self)@[fragment_id]
                } else {
                    old(self).in_order()[i]
                },
    {
        let deadline = compute_next_deadline(now_ms, self.config.base_timeout_ms, 0);
        let entry = PendingAck {
            fragment_id,
            message_id,
            first_hop,
            lane,
            sent_at_ms: now_ms,
            retransmit_deadline_ms: deadline,
            retransmissions_left: self.config.retransmit_budget,
            backoff_ms: self.config.base_timeout_ms.saturating_add(self.config.base_timeout_ms),
        };
        let _ = self.entries.insert(fragment_id, entry);
        proof {
            let before = old(self).entries;
            if before.map().contains_key(fragment_id) {
                let p = position_of(before.order(), fragment_id);
                before.lemma_key_position(fragment_id);
                assert forall|i: int| 0 <= i < self.entries.items().len() implies #[trigger]
                    self.entries.items()[i] == if before.items()[i].fragment_id == fragment_id {
                    entry
                } else {
                    before.items()[i]
                } by {
                    if i != p {
                        assert(before.items()[i].fragment_id == before.order()[i]);
                    } else {
                        assert(before.items()[p].fragment_id == before.order()[p]);
                    }
                }
                assert forall|i: int| 0 <= i < self.entries.order().len() implies (
                #[trigger] self.entries.items()[i]).fragment_id == self.entries.order()[i] by {
                    if i != p {
                        assert(self.entries.items()[i] == before.items()[i]);
                    }
                }
            } else {
                assert forall|i: int| 0 <= i < self.entries.order().len() implies (
                #[trigger] self.entries.items()[i]).fragment_id == self.entries.order()[i] by {
                    if i < before.order().len() {
                        assert(self.entries.items()[i] == before.items()[i]);
                    }
                }
            }
        }
    }

    /// Handles the ack of `fragment_id`: its entry is removed, so no timer of
    /// it fires any more. An ack that matches no entry changes nothing.
    pub fn on_ack(&mut self, fragment_id: u128) -> (outcome: AckOutcome)
        requires
            old(self).wf(),
        ensures
            final(self).wf(),
            final(self).config() == old(self).config(),
            final(self)@ == old(self)@.remove(fragment_id),
            outcome is Unknown <==> !old(self)@.contains_key(fragment_id),
            final(self).in_order() == without_fragment(old(self).in_order(), fragment_id),
            outcome matches AckOutcome::Acknowledged { message_id, message_delivered } ==> {
                &&& message_id == old(self)@[fragment_id].message_id
                &&& message_delivered == !message_outstanding(final(self)@, message_id)
            },
    {
        match self.entries.position(fragment_id) {
            None => {
                proof {
                    assert(self@ =~= self@.remove(fragment_id));
                    assert forall|i: int| 0 <= i < self.in_order().len() implies (
                    #[trigger] self.in_order()[i]).fragment_id != fragment_id by {
                        self.entries.lemma_map_at(i);
                    }
                    lemma_without_absent(self.in_order(), fragment_id);
                }
                AckOutcome::Unknown
            },
            Some(at) => {
                let (_, entry) = self.entries.remove_at(at);
                proof {
                    let before = old(self).entries;
                    assert(self.entries.items() == before.items().remove(at as int));
                    assert forall|i: int| 0 <= i < before.items().len() implies ((
                    #[trigger] before.items()[i]).fragment_id == fragment_id <==> i == at) by {
                        assert(before.items()[i].fragment_id == before.order()[i]);
                    }
                    lemma_without_present(before.items(), fragment_id, at as int);
                    assert forall|i: int| 0 <= i < self.entries.order().len() implies (
                    #[trigger] self.entries.items()[i]).fragment_id == self.entries.order()[i] by {
                        let i0 = if i < at { i } else { i + 1 };
                        assert(self.entries.items()[i] == before.items()[i0]);
                        assert(self.entries.order()[i] == before.order()[i0]);
                    }
                }
                let outstanding = self.has_message(entry.message_id);
                AckOutcome::Acknowledged {
                    message_id: entry.message_id,
                    message_delivered: !outstanding,
                }
            },
        }
    }

    /// Whether a fragment of `message_id` is still pending.
    pub fn has_message(&self, message_id: u64) -> (outstanding: bool)
        requires
            self.wf(),
        ensures
            outstanding == message_outstanding(self@, message_id),
    {
        let mut i: usize = 0;
        while i < self.entries.len()
            invariant
                self.wf(),
                i <= self.entries.order().len(),
                forall|j: int| 0 <= j < i
                    ==> (#[trigger] self.entries.items()[j]).message_id != message_id,
            decreases self.entries.order().len() - i,
        {
            if self.entries.value_at(i).message_id == message_id {
                proof {
                    self.entries.lemma_map_at(i as int);
                    assert(self@.contains_key(self.entries.order()[i as int]));
                }
                return true;
            }
            i += 1;
        }
        proof {
            if message_outstanding(self@, message_id) {
                let id = choose|id: u128| #[trigger]
                    self@.contains_key(id) && self@[id].message_id == message_id;
                self.entries.lemma_key_position(id);
            }
        }
        false
    }

    /// Looks at every pending ack at `now_ms`. An entry whose deadline has
    /// passed is retransmitted while its budget lasts, with its deadline
    /// moved by the doubled backoff and the jitter, and dropped otherwise.
    /// An entry whose deadline has not passed is left as it is.
    pub fn poll_expired(&mut self, now_ms: u64, jitter_permille: i64) -> (actions: Vec<AckAction>)
        requires
            old(self).wf(),
        ensures
            final(self).wf(),
            final(self).config() == old(self).config(),
            final(self)@ == after_poll(old(self)@, now_ms, jitter_permille),
            final(self).in_order() == entries_after_poll(
                old(self).in_order(),
                now_ms,
                jitter_permille,
            ),
            actions@ == due_actions(old(self).in_order(), now_ms),
    {
        let mut actions: Vec<AckAction> = Vec::new();
        let total = self.entries.len();
        let mut i: usize = 0;
        let mut done: usize = 0;
        let ghost before = old(self).entries;
        assert(before.items().subrange(0, 0) =~= Seq::<PendingAck>::empty());
        assert(self.entries.items().subrange(0, 0) =~= Seq::<PendingAck>::empty());
        while done < total
            invariant
                before == old(self).entries,
                before.wf(),
                old(self).wf(),
                self.wf(),
                self.config == old(self).config,
                total == before.order().len(),
                i <= done <= total,
                self.entries.order().len() - i == total - done,
                forall|x: int|
                    i <= x < self.entries.order().len() ==> #[trigger] self.entries.order()[x]
                        == before.order()[x + done - i],
                forall|x: int|
                    i <= x < self.entries.order().len() ==> #[trigger] self.entries.items()[x]
                        == before.items()[x + done - i],
                forall|id: u128| #[trigger] self@.contains_key(id)
                    ==> before.map().contains_key(id),
                forall|id: u128| #[trigger]
                    before.map().contains_key(id) ==> if position_of(before.order(), id) < done {
                        &&& self@.contains_key(id) == (after_timeout(
                            before.map()[id],
                            now_ms,
                            jitter_permille,
                        ) is Some)
                        &&& self@.contains_key(id) ==> self@[id] == after_timeout(
                            before.map()[id],
                            now_ms,
                            jitter_permille,
                        ).unwrap()
                    } else {
                        self@.contains_key(id) && self@[id] == before.map()[id]
                    },
                actions@ == due_actions(before.items().subrange(0, done as int), now_ms),
                self.entries.items().subrange(0, i as int) == entries_after_poll(
                    before.items().subrange(0, done as int),
                    now_ms,
                    jitter_permille,
                ),
            decreases total - done,
        {
            assert(self.entries.order()[i as int] == before.order()[done as int]);
            assert(self.entries.items()[i as int] == before.items()[done as int]);
            let entry = *self.entries.value_at(i);
            let ghost key = before.order()[done as int];
            proof {
                before.lemma_map_at(done as int);
                lemma_position_unique(before.order(), done as int);
                self.entries.lemma_map_at(i as int);
                assert(before.items().subrange(0, done + 1).drop_last() =~= before.items().subrange(
                    0,
                    done as int,
                ));
                assert(before.items().subrange(0, done + 1).last() == entry);
                assert(entry.fragment_id == key);
            }
            let ghost here = self.entries;
            if now_ms < entry.retransmit_deadline_ms {
                proof {
                    assert(here.items().subrange(0, i + 1) =~= here.items().subrange(0,
                        i as int).push(
                        entry,
                    ));
                }
                i += 1;
            } else if entry.retransmissions_left > 0 {
                let updated = PendingAck {
                    retransmissions_left: entry.retransmissions_left - 1,
                    retransmit_deadline_ms: compute_next_deadline(
                        now_ms,
                        entry.backoff_ms,
                        jitter_permille,
                    ),
                    backoff_ms: entry.backoff_ms.saturating_add(entry.backoff_ms),
                    sent_at_ms: now_ms,
                    ..entry
                };
                let _ = self.entries.replace_at(i, updated);
                actions.push(AckAction::Retransmit { fragment_id: entry.fragment_id,
                    lane: entry.lane });
                proof {
                    assert(after_timeout(entry, now_ms, jitter_permille) == Some(updated));
                    assert(self.entries.items().subrange(0, i + 1) =~= here.items().subrange(
                        0,
                        i as int,
                    ).push(updated));
                    assert forall|x: int| i + 1 <= x < self.entries.order().len() implies #[trigger]
                        self.entries.items()[x] == before.items()[x + (done + 1) - (i + 1)] by {
                        assert(self.entries.items()[x] == here.items()[x]);
                    }
                    assert forall|x: int| 0 <= x < self.entries.order().len() implies (
                    #[trigger] self.entries.items()[x]).fragment_id == self.entries.order()[x] by {
                        if x != i {
                            assert(self.entries.items()[x] == here.items()[x]);
                        }
                    }
                }
                i += 1;
            } else {
                let _ = self.entries.remove_at(i);
                actions.push(AckAction::Undeliverable { fragment_id: entry.fragment_id });
                proof {
                    assert(after_timeout(entry, now_ms, jitter_permille) is None);
                    assert(self.entries.items().subrange(0, i as int) =~= here.items().subrange(
                        0,
                        i as int,
                    ));
                    assert forall|x: int| i <= x < self.entries.order().len() implies #[trigger]
                        self.entries.items()[x] == before.items()[x + (done + 1) - i] by {
                        assert(self.entries.items()[x] == here.items()[x + 1]);
                    }
                    assert forall|x: int| i <= x < self.entries.order().len() implies #[trigger]
                        self.entries.order()[x] == before.order()[x + (done + 1) - i] by {
                        assert(self.entries.order()[x] == here.order()[x + 1]);
                    }
                    assert forall|x: int| 0 <= x < self.entries.order().len() implies (
                    #[trigger] self.entries.items()[x]).fragment_id == self.entries.order()[x] by {
                        let x0 = if x < i { x } else { x + 1 };
                        assert(self.entries.items()[x] == here.items()[x0]);
                        assert(self.entries.order()[x] == here.order()[x0]);
                    }
                }
            }
            done += 1;
        }
        proof {
            assert(before.items().subrange(0, total as int) =~= before.items());
            assert(self.entries.items().subrange(0, i as int) =~= self.entries.items());
            assert(self@ =~= after_poll(old(self)@, now_ms, jitter_permille));
        }
        actions
    }
}

/// No action names a fragment that is not pending.
pub proof fn lemma_actions_name_pending(entries: Seq<PendingAck>, now_ms: u64, k: int)
    requires
        0 <= k < due_actions(entries, now_ms).len(),
    ensures
        exists|i: int|
            0 <= i < entries.len() && due(#[trigger] entries[i], now_ms) && entries[i].fragment_id
                == action_fragment(due_actions(entries, now_ms)[k]),
    decreases entries.len(),
{
    if entries.len() > 0 {
        let earlier = due_actions(entries.drop_last(), now_ms);
        if k < earlier.len() {
            lemma_actions_name_pending(entries.drop_last(), now_ms, k);
            let i = choose|i: int|
                0 <= i < entries.drop_last().len() && due(
                    #[trigger] entries.drop_last()[i],
                    now_ms,
                ) && entries.drop_last()[i].fragment_id == action_fragment(earlier[k]);
            assert(entries[i] == entries.drop_last()[i]);
        } else {
            assert(due(entries[entries.len() - 1], now_ms));
        }
    }
}

/// An ack cancels retransmission. Once the ack of a fragment was handled,
/// the retransmitter never again asks for anything about that fragment,
/// at whatever time it looks, until the fragment is registered anew.
pub proof fn lemma_ack_cancels_retransmit(acks: PendingAcks, fragment_id: u128, now_ms: u64, k: int)
    requires
        acks.wf(),
        !acks@.contains_key(fragment_id),
        0 <= k < due_actions(acks.in_order(), now_ms).len(),
    ensures
        action_fragment(due_actions(acks.in_order(), now_ms)[k]) != fragment_id,
{
    lemma_actions_name_pending(acks.in_order(), now_ms, k);
    acks.lemma_in_order_is_view();
}

/// An expired deadline causes exactly one action: the entries that cause
/// the actions stand at strictly increasing positions, so no entry is
/// named by two actions of one poll.
pub proof fn lemma_one_action_per_deadline(entries: Seq<PendingAck>, now_ms: u64)
    ensures
        due_actions(entries, now_ms).len() <= entries.len(),
        forall|i: int|
            0 <= i < entries.len() && !due(#[trigger] entries[i], now_ms) ==> due_actions(
                entries,
                now_ms,
            ).len() < entries.len(),
        (forall|i: int| 0 <= i < entries.len() ==> due(#[trigger] entries[i], now_ms))
            ==> due_actions(entries, now_ms).len() == entries.len(),
    decreases entries.len(),
{
    if entries.len() > 0 {
        lemma_one_action_per_deadline(entries.drop_last(), now_ms);
        assert forall|i: int|
            0 <= i < entries.len() && !due(#[trigger] entries[i], now_ms) implies due_actions(
            entries,
            now_ms,
        ).len() < entries.len() by {
            if i < entries.len() - 1 {
                assert(entries.drop_last()[i] == entries[i]);
            }
        }
        if forall|i: int| 0 <= i < entries.len() ==> due(#[trigger] entries[i], now_ms) {
            assert forall|i: int| 0 <= i < entries.drop_last().len() implies due(
                #[trigger] entries.drop_last()[i],
                now_ms,
            ) by {
                assert(entries.drop_last()[i] == entries[i]);
            }
        }
    }
}

/// A retransmission uses up budget and moves the deadline into the future:
/// the deadline that has just expired cannot expire a second time, and a
/// fragment is retransmitted at most as often as its budget allows.
pub proof fn lemma_retransmission_spends_budget(
    entry: PendingAck,
    now_ms: u64,
    jitter_permille: i64,
)
    requires
        due(entry, now_ms),
    ensures
        entry.retransmissions_left == 0 ==> after_timeout(entry, now_ms, jitter_permille) is None,
        entry.retransmissions_left > 0 ==> {
            let next = after_timeout(entry, now_ms, jitter_permille).unwrap();
            &&& next.retransmissions_left == entry.retransmissions_left - 1
            &&& next.fragment_id == entry.fragment_id
            &&& (entry.backoff_ms >= 1 && now_ms < u64::MAX ==> !due(next, now_ms))
        },
{
    if entry.retransmissions_left > 0 {
        let jitter = clamped_jitter(jitter_permille);
        let b = entry.backoff_ms as int;
        if jitter < 0 {
            assert((b * (-jitter)) / 1000 <= b) by (nonlinear_arith)
                requires
                    0 <= b,
                    0 < -jitter <= 100,
            ;
            assert(b >= 1 ==> (b * (-jitter)) / 1000 < b) by (nonlinear_arith)
                requires
                    0 <= b,
                    0 < -jitter <= 100,
            ;
        } else {
            assert((b * jitter) / 1000 >= 0) by (nonlinear_arith)
                requires
                    0 <= b,
                    0 <= jitter <= 100,
            ;
        }
    }
}

} // verus!
