//! The loop cover traffic stream: packets that the client sends to itself
//! so that an observer cannot tell when it sends real messages.

use vstd::prelude::*;
use crate::addressing::Recipient;
use crate::topology::{MixNode, TopologyAccessor};

verus! {

/// What the stream does when its timer fires.
#[derive(Debug, Clone, PartialEq, Eq)]
pub enum CoverAction {
    /// Build a loop cover packet for this route, addressed to the client itself.
    Emit { route: Vec<MixNode>, first_hop: u128, recipient: Recipient },
    /// The network view cannot route a packet: wait, then try again.
    BackOff { wait_ms: u64 },
    /// The client shuts down: the stream ends.
    Stop,
}

/// Emits loop cover packets at random intervals.
#[derive(Debug, Clone, Copy, PartialEq, Eq)]
pub struct LoopCoverTrafficStream {
    self_address: Recipient,
    average_delay_ms: u64,
    refresh_rate_ms: u64,
    hops: usize,
    emitted: u64,
    stopped: bool,
}

impl LoopCoverTrafficStream {
    pub closed spec fn self_address(&self) -> Recipient {
        self.self_address
    }

    pub closed spec fn average_delay_ms(&self) -> u64 {
        self.average_delay_ms
    }

    pub closed spec fn refresh_rate_ms(&self) -> u64 {
        self.refresh_rate_ms
    }

    pub closed spec fn hops(&self) -> usize {
        self.hops
    }

    /// How many cover packets were ordered.
    pub closed spec fn emitted(&self) -> u64 {
        self.emitted
    }

    /// True once the stream has seen the shutdown signal.
    pub closed spec fn stopped(&self) -> bool {
        self.stopped
    }

    pub fn new(
        self_address: Recipient,
        average_delay_ms: u64,
        refresh_rate_ms: u64,
        hops: usize,
    ) -> (stream: LoopCoverTrafficStream)
        ensures
            stream.self_address() == self_address,
            stream.average_delay_ms() == average_delay_ms,
            stream.refresh_rate_ms() == refresh_rate_ms,
            stream.hops() == hops,
            stream.emitted() == 0,
            !stream.stopped(),
    {
        LoopCoverTrafficStream {
            self_address,
            average_delay_ms,
            refresh_rate_ms,
            hops,
            emitted: 0,
            stopped: false,
        }
    }

    /// The average of the random time to wait before the next packet.
    pub fn average_delay(&self) -> (ms: u64)
        ensures
            ms == self.average_delay_ms(),
    {
        self.average_delay_ms
    }

    /// Decides what to do now that the timer has fired. `shutdown` says
    /// whether the shutdown signal was seen since the last packet.
    pub fn on_tick(&mut self, topology: &TopologyAccessor, shutdown: bool) -> (action: CoverAction)
        ensures
            final(self).self_address() == old(self).self_address(),
            final(self).average_delay_ms() == old(self).average_delay_ms(),
            final(self).refresh_rate_ms() == old(self).refresh_rate_ms(),
            final(self).hops() == old(self).hops(),
            final(self).stopped() == (old(self).stopped() || shutdown),
            action is Stop <==> old(self).stopped() || shutdown,
            ({
                let routable = topology@ is Some && topology@.unwrap().routable()
                    && 0 < old(self).hops() <= topology@.unwrap().mixes.len();
                &&& !(old(self).stopped() || shutdown) ==> (action is Emit <==> routable)
                &&& action is BackOff ==> action->wait_ms == old(self).refresh_rate_ms() / 2
                    && final(self).emitted() == old(self).emitted()
                &&& action is Stop ==> final(self).emitted() == old(self).emitted()
                &&& action matches CoverAction::Emit { route, first_hop, recipient } ==> {
                    &&& recipient == old(self).self_address()
                    &&& route@.len() == old(self).hops()
                    &&& topology@.unwrap().is_route(route@)
                    &&& first_hop == route@[0].identity
                    &&& final(self).emitted() == if old(self).emitted() == u64::MAX {
                        u64::MAX
                    } else {
                        (old(self).emitted() + 1) as u64
                    }
                }
            }),
    {
        if self.stopped || shutdown {
            self.stopped = true;
            return CoverAction::Stop;
        }
        let route = match topology.current() {
            None => None,
            Some(snapshot) => {
                if self.hops > 0 && snapshot.routable() {
                    snapshot.random_route(self.hops)
                } else {
                    None
                }
            },
        };
        match route {
            None => CoverAction::BackOff { wait_ms: self.refresh_rate_ms / 2 },
            Some(route) => {
                self.emitted = self.emitted.saturating_add(1);
                let first_hop = route[0].identity;
                CoverAction::Emit { route, first_hop, recipient: self.self_address }
            },
        }
    }
}

} // verus!
