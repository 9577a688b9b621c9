//! The settings that the client core reads.

use vstd::prelude::*;
use crate::acks::AckConfig;
use crate::real_traffic::RealTrafficConfig;
use crate::topology::{TopologyConfig, TopologyStructure};

verus! {

/// Default milliseconds between two refreshes of the network view.
pub const DEFAULT_TOPOLOGY_REFRESH_RATE_MS: u64 = 300_000;

/// Default milliseconds that the gateway is given to answer.
pub const DEFAULT_GATEWAY_RESPONSE_TIMEOUT_MS: u64 = 90_000;

/// Default average of milliseconds between two loop cover packets.
pub const DEFAULT_LOOP_COVER_DELAY_MS: u64 = 200;

/// Default milliseconds for which a reply key is kept.
pub const DEFAULT_REPLY_KEY_AGE_MS: u64 = 86_400_000;

/// Default number of partial messages that the reassembly table holds.
pub const DEFAULT_REASSEMBLY_CAPACITY: usize = 256;

/// Default number of delivered message ids that are remembered.
pub const DEFAULT_DEDUPE_CAPACITY: usize = 1024;

/// The kind of packet that carries the traffic.
#[derive(Debug, Clone, Copy, PartialEq, Eq, Structural)]
pub enum PacketType {
    Mix,
    Outfox,
}

/// Settings of the real traffic.
#[derive(Debug, Clone, Copy, PartialEq, Eq, Structural)]
pub struct Traffic {
    /// Average delay of a packet at each hop, in milliseconds.
    pub average_packet_delay_ms: u64,
    /// Average time between two packets sent, in milliseconds.
    pub message_sending_average_delay_ms: u64,
    pub packet_type: PacketType,
    /// Bytes of data in a fragment.
    pub fragment_size: usize,
    /// Mix nodes on a route.
    pub hops: usize,
}

/// Settings of the loop cover traffic.
#[derive(Debug, Clone, Copy, PartialEq, Eq, Structural)]
pub struct CoverTraffic {
    pub loop_cover_traffic_average_delay_ms: u64,
    pub disable_loop_cover_traffic_stream: bool,
}

/// Settings of the connection to the gateway.
#[derive(Debug, Clone, Copy, PartialEq, Eq, Structural)]
pub struct GatewayConnection {
    pub gateway_response_timeout_ms: u64,
}

/// Settings of acknowledgements and retransmission.
#[derive(Debug, Clone, Copy, PartialEq, Eq, Structural)]
pub struct Acknowledgements {
    pub average_ack_delay_ms: u64,
    pub ack_wait_ms: u64,
    pub retransmit_budget: u32,
}

/// Settings of replies.
#[derive(Debug, Clone, Copy, PartialEq, Eq, Structural)]
pub struct ReplySurbs {
    pub maximum_reply_key_age_ms: u64,
    pub maximum_reply_wait_ms: u64,
}

/// Settings of the received-messages buffer.
#[derive(Debug, Clone, Copy, PartialEq, Eq, Structural)]
pub struct ReceivedBuffer {
    pub reassembly_capacity: usize,
    pub dedupe_capacity: usize,
}

/// The settings that shape the behaviour of the components.
#[derive(Debug, Clone, Copy, PartialEq, Eq, Structural)]
pub struct DebugConfig {
    pub traffic: Traffic,
    pub cover_traffic: CoverTraffic,
    pub gateway_connection: GatewayConnection,
    pub acknowledgements: Acknowledgements,
    pub topology: TopologyConfig,
    pub reply_surbs: ReplySurbs,
    pub received_buffer: ReceivedBuffer,
}

/// The settings of the client itself.
#[derive(Debug, Clone, PartialEq, Eq)]
pub struct ClientConfig {
    pub version: String,
    pub id: String,
    pub disabled_credentials_mode: bool,
    pub nym_api_urls: Vec<String>,
}

/// All settings of the client core.
#[derive(Debug, Clone, PartialEq, Eq)]
pub struct Config {
    pub client: ClientConfig,
    pub debug: DebugConfig,
}

/// What is stored about the client's gateway.
#[derive(Debug, Clone, PartialEq, Eq)]
pub struct GatewayEndpointConfig {
    /// The gateway's identity key, in Base58.
    pub gateway_id: String,
    pub gateway_owner: String,
    /// The address of the gateway's listener.
    pub gateway_listener: String,
}

impl Default for DebugConfig {
    fn default() -> (config: DebugConfig)
        ensures
            config.traffic.fragment_size == crate::real_traffic::DEFAULT_FRAGMENT_SIZE,
            config.traffic.hops == crate::real_traffic::DEFAULT_HOPS,
            config.traffic.packet_type == PacketType::Mix,
            !config.cover_traffic.disable_loop_cover_traffic_stream,
            config.cover_traffic.loop_cover_traffic_average_delay_ms == DEFAULT_LOOP_COVER_DELAY_MS,
            config.gateway_connection.gateway_response_timeout_ms
                == DEFAULT_GATEWAY_RESPONSE_TIMEOUT_MS,
            config.acknowledgements.ack_wait_ms == crate::acks::DEFAULT_ACK_TIMEOUT_MS,
            config.acknowledgements.retransmit_budget == crate::acks::DEFAULT_RETRANSMIT_BUDGET,
            config.topology.topology_refresh_rate_ms == DEFAULT_TOPOLOGY_REFRESH_RATE_MS,
            !config.topology.disable_refreshing,
            config.topology.topology_structure == TopologyStructure::NymApi,
            config.reply_surbs.maximum_reply_key_age_ms == DEFAULT_REPLY_KEY_AGE_MS,
            config.reply_surbs.maximum_reply_wait_ms == crate::real_traffic::DEFAULT_REPLY_WAIT_MS,
            config.received_buffer.reassembly_capacity == DEFAULT_REASSEMBLY_CAPACITY,
            config.received_buffer.dedupe_capacity == DEFAULT_DEDUPE_CAPACITY,
    {
        DebugConfig {
            traffic: Traffic {
                average_packet_delay_ms: 50,
                message_sending_average_delay_ms: 20,
                packet_type: PacketType::Mix,
                fragment_size: crate::real_traffic::DEFAULT_FRAGMENT_SIZE,
                hops: crate::real_traffic::DEFAULT_HOPS,
            },
            cover_traffic: CoverTraffic {
                loop_cover_traffic_average_delay_ms: DEFAULT_LOOP_COVER_DELAY_MS,
                disable_loop_cover_traffic_stream: false,
            },
            gateway_connection: GatewayConnection {
                gateway_response_timeout_ms: DEFAULT_GATEWAY_RESPONSE_TIMEOUT_MS,
            },
            acknowledgements: Acknowledgements {
                average_ack_delay_ms: 50,
                ack_wait_ms: crate::acks::DEFAULT_ACK_TIMEOUT_MS,
                retransmit_budget: crate::acks::DEFAULT_RETRANSMIT_BUDGET,
            },
            topology: TopologyConfig {
                topology_refresh_rate_ms: DEFAULT_TOPOLOGY_REFRESH_RATE_MS,
                disable_refreshing: false,
                topology_structure: TopologyStructure::NymApi,
            },
            reply_surbs: ReplySurbs {
                maximum_reply_key_age_ms: DEFAULT_REPLY_KEY_AGE_MS,
                maximum_reply_wait_ms: crate::real_traffic::DEFAULT_REPLY_WAIT_MS,
            },
            received_buffer: ReceivedBuffer {
                reassembly_capacity: DEFAULT_REASSEMBLY_CAPACITY,
                dedupe_capacity: DEFAULT_DEDUPE_CAPACITY,
            },
        }
    }
}

impl DebugConfig {
    /// The settings of the real traffic controller of a client that is
    /// known to its peers under `sender_tag` and derives its ack keys from `ack_key`.
    pub fn real_traffic(&self, sender_tag: u128, ack_key: [u8; 32]) -> (config: RealTrafficConfig)
        ensures
            config.sender_tag == sender_tag,
            config.ack_key == ack_key,
            config.fragment_size == self.traffic.fragment_size,
            config.hops == self.traffic.hops,
            config.reply_wait_ms == self.reply_surbs.maximum_reply_wait_ms,
            config.acks.base_timeout_ms == self.acknowledgements.ack_wait_ms,
            config.acks.retransmit_budget == self.acknowledgements.retransmit_budget,
    {
        RealTrafficConfig {
            fragment_size: self.traffic.fragment_size,
            hops: self.traffic.hops,
            reply_wait_ms: self.reply_surbs.maximum_reply_wait_ms,
            acks: AckConfig {
                base_timeout_ms: self.acknowledgements.ack_wait_ms,
                retransmit_budget: self.acknowledgements.retransmit_budget,
            },
            sender_tag,
            ack_key,
        }
    }
}

} // verus!
