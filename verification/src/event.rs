//! Audit events the classifier emits, one record per packet and verdict,
//! on per-CPU rings split by direction, L3 version and protocol family.

use vstd::prelude::*;

use crate::types::{EthProtocol, IcmpVersion, IpProtocol, TcAction, CONTAINER_ID_LEN, IPV6_LEN,
    TASK_COMM_LEN};

verus! {

/// Ingress IPv4 TCP/UDP event.
#[derive(Debug, Clone, Copy)]
pub struct IngressEvent {
    pub container_id: [u8; CONTAINER_ID_LEN],
    pub saddr: u32,
    pub daddr: u32,
    pub sport: u16,
    pub dport: u16,
    pub family: EthProtocol,
    pub protocol: IpProtocol,
    pub action: TcAction,
    pub comm: [u8; TASK_COMM_LEN],
}

/// Ingress IPv6 TCP/UDP event.
#[derive(Debug, Clone, Copy)]
pub struct Ingress6Event {
    pub container_id: [u8; CONTAINER_ID_LEN],
    pub saddr: [u8; IPV6_LEN],
    pub daddr: [u8; IPV6_LEN],
    pub sport: u16,
    pub dport: u16,
    pub family: EthProtocol,
    pub protocol: IpProtocol,
    pub action: TcAction,
    pub comm: [u8; TASK_COMM_LEN],
}

/// Ingress IPv4 ICMP event.
#[derive(Debug, Clone, Copy)]
pub struct IngressIcmpEvent {
    pub container_id: [u8; CONTAINER_ID_LEN],
    pub saddr: u32,
    pub daddr: u32,
    pub family: EthProtocol,
    pub protocol: IpProtocol,
    pub version: IcmpVersion,
    pub type_: u8,
    pub code: u8,
    pub action: TcAction,
}

/// Ingress ICMPv6 event.
#[derive(Debug, Clone, Copy)]
pub struct Ingress6IcmpEvent {
    pub container_id: [u8; CONTAINER_ID_LEN],
    pub saddr: [u8; IPV6_LEN],
    pub daddr: [u8; IPV6_LEN],
    pub family: EthProtocol,
    pub protocol: IpProtocol,
    pub version: IcmpVersion,
    pub type_: u8,
    pub code: u8,
    pub action: TcAction,
}

/// Egress IPv4 TCP/UDP event.
#[derive(Debug, Clone, Copy)]
pub struct EgressEvent {
    pub container_id: [u8; CONTAINER_ID_LEN],
    pub saddr: u32,
    pub daddr: u32,
    pub sport: u16,
    pub dport: u16,
    pub family: EthProtocol,
    pub protocol: IpProtocol,
    pub action: TcAction,
    pub comm: [u8; TASK_COMM_LEN],
}

/// Egress IPv6 TCP/UDP event.
#[derive(Debug, Clone, Copy)]
pub struct Egress6Event {
    pub container_id: [u8; CONTAINER_ID_LEN],
    pub saddr: [u8; IPV6_LEN],
    pub daddr: [u8; IPV6_LEN],
    pub sport: u16,
    pub dport: u16,
    pub family: EthProtocol,
    pub protocol: IpProtocol,
    pub action: TcAction,
    pub comm: [u8; TASK_COMM_LEN],
}

/// Egress IPv4 ICMP event.
#[derive(Debug, Clone, Copy)]
pub struct EgressIcmpEvent {
    pub container_id: [u8; CONTAINER_ID_LEN],
    pub saddr: u32,
    pub daddr: u32,
    pub family: EthProtocol,
    pub protocol: IpProtocol,
    pub version: IcmpVersion,
    pub type_: u8,
    pub code: u8,
    pub action: TcAction,
}

/// Egress ICMPv6 event.
#[derive(Debug, Clone, Copy)]
pub struct Egress6IcmpEvent {
    pub container_id: [u8; CONTAINER_ID_LEN],
    pub saddr: [u8; IPV6_LEN],
    pub daddr: [u8; IPV6_LEN],
    pub family: EthProtocol,
    pub protocol: IpProtocol,
    pub version: IcmpVersion,
    pub type_: u8,
    pub code: u8,
    pub action: TcAction,
}

} // verus!
