//! Core runtime logic of a mixnet client, verified with Verus.
//!
//! Every component of the client is a deterministic state machine: it is
//! handed events (a frame that arrived, a timer that fired, an outcome of
//! some network operation) and answers with its next state and the actions
//! to perform. Sockets, timers and task scheduling live outside this crate.

pub mod ack_frames;
pub mod acks;
pub mod addressing;
pub mod base_client;
pub mod bonding;
pub mod bytes;
pub mod config;
pub mod cover_traffic;
pub mod crypto;
pub mod directory;
pub mod dkg;
pub mod error;
pub mod fifo;
pub mod fragments;
pub mod gateway_session;
pub mod handshake;
pub mod lanes;
pub mod messages;
pub mod mix_traffic;
pub mod packet_processing;
pub mod randomness;
pub mod real_traffic;
pub mod reassembly;
pub mod received_buffer;
pub mod replies;
pub mod supervisor;
pub mod table;
pub mod topology;
pub mod versions;
