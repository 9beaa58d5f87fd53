//! Core logic of a threshold-triggered network echo service.
//!
//! The service accepts TCP connections and UDP datagrams on one port and
//! echoes bytes back to the sender once a configured minimum byte count is
//! reached. This crate holds the verified core: the resolved configuration,
//! the per-connection TCP buffering/flush protocol, and the per-datagram UDP
//! echo policy. Socket handling lives outside the crate and feeds the core
//! with plain byte values.

pub mod config;
pub mod tcp;
pub mod udp;
