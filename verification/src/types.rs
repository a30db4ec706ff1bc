//! Shared constants and protocol enums of the classifier and its maps.

use vstd::prelude::*;

verus! {

/// Length in bytes of a container identifier (an ASCII hex prefix).
pub const CONTAINER_ID_LEN: usize = 12;

/// Length in bytes of a kernel-visible process name, trailing NULs included.
pub const TASK_COMM_LEN: usize = 16;

/// Length in bytes of an IPv6 address.
pub const IPV6_LEN: usize = 16;

/// Traffic-control return code that forwards the packet.
pub const TC_ACT_OK: i32 = 0;

/// Traffic-control return code that drops the packet.
pub const TC_ACT_SHOT: i32 = 2;

/// ICMPv6 Neighbor Solicitation message type.
pub const NEIGHBOR_SOLICITATION: u8 = 135;

/// ICMPv6 Neighbor Advertisement message type.
pub const NEIGHBOR_ADVERTISEMENT: u8 = 136;

/// EtherType of IPv4 in an Ethernet header.
pub const ETH_P_IP: u16 = 0x0800;

/// EtherType of IPv6 in an Ethernet header.
pub const ETH_P_IPV6: u16 = 0x86DD;

/// Length in bytes of an Ethernet header.
pub const ETH_HDR_LEN: usize = 14;

/// Length in bytes of an IPv4 header without options, as the classifier loads it.
pub const IP_HDR_LEN: usize = 20;

/// Length in bytes of an IPv6 header.
pub const IPV6_HDR_LEN: usize = 40;

/// Length in bytes of the TCP header the classifier loads.
pub const TCP_HDR_LEN: usize = 20;

/// Length in bytes of a UDP header.
pub const UDP_HDR_LEN: usize = 8;

/// L3 protocol family read from the Ethernet header.
#[derive(PartialEq, Eq, Structural, Debug, Clone, Copy)]
pub enum EthProtocol {
    IP,
    IPv6,
    Other,
}

impl EthProtocol {
    /// Classifies a host-order EtherType value.
    pub fn from_eth(value: u16) -> (r: EthProtocol)
        ensures
            r == EthProtocol::from_eth_spec(value),
    {
        if value == ETH_P_IP {
            EthProtocol::IP
        } else if value == ETH_P_IPV6 {
            EthProtocol::IPv6
        } else {
            EthProtocol::Other
        }
    }

    pub open spec fn from_eth_spec(value: u16) -> EthProtocol {
        if value == ETH_P_IP {
            EthProtocol::IP
        } else if value == ETH_P_IPV6 {
            EthProtocol::IPv6
        } else {
            EthProtocol::Other
        }
    }
}

/// L4 protocol carried in an IP header, or `Default` for "unspecified",
/// the wildcard marker inside policy keys.
#[derive(PartialEq, Eq, Structural, Debug, Clone, Copy)]
pub enum IpProtocol {
    Default,
    ICMP,
    TCP,
    UDP,
    ICMPv6,
}

impl IpProtocol {
    /// Classifies an IP `protocol`/`nexthdr` field; unhandled protocols
    /// fall back to `Default`.
    pub fn new(value: u8) -> (r: IpProtocol)
        ensures
            r == IpProtocol::new_spec(value),
    {
        if value == 1 {
            IpProtocol::ICMP
        } else if value == 6 {
            IpProtocol::TCP
        } else if value == 17 {
            IpProtocol::UDP
        } else if value == 58 {
            IpProtocol::ICMPv6
        } else {
            IpProtocol::Default
        }
    }

    pub open spec fn new_spec(value: u8) -> IpProtocol {
        if value == 1 {
            IpProtocol::ICMP
        } else if value == 6 {
            IpProtocol::TCP
        } else if value == 17 {
            IpProtocol::UDP
        } else if value == 58 {
            IpProtocol::ICMPv6
        } else {
            IpProtocol::Default
        }
    }
}

/// Version discriminator of an ICMP policy entry.
#[derive(PartialEq, Eq, Structural, Debug, Clone, Copy)]
pub enum IcmpVersion {
    V4,
    V6,
}

/// Decision recorded in an audit event.
#[derive(PartialEq, Eq, Structural, Debug, Clone, Copy)]
pub enum TcAction {
    Pass,
    Drop,
}

impl TcAction {
    /// The traffic-control return code that announces this action.
    pub fn code(&self) -> (r: i32)
        ensures
            r == self.code_spec(),
            r == TC_ACT_OK <==> *self == TcAction::Pass,
    {
        match self {
            TcAction::Pass => TC_ACT_OK,
            TcAction::Drop => TC_ACT_SHOT,
        }
    }

    pub open spec fn code_spec(&self) -> i32 {
        match self {
            TcAction::Pass => TC_ACT_OK,
            TcAction::Drop => TC_ACT_SHOT,
        }
    }
}

/// An IP address as plain values: an IPv4 address in host order, or the
/// sixteen octets of an IPv6 address.
#[derive(Debug, Clone, Copy)]
pub enum IpAddress {
    V4(u32),
    V6([u8; IPV6_LEN]),
}

} // verus!
