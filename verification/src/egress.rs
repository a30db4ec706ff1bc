//! Egress classifiers, one per (L3 version, is-ICMP) pair.  For egress
//! the container is resolved by the source address, and the remote
//! endpoint is the destination.  Every decision about a resolved flow is
//! emitted as an audit event whose action announces the verdict.

use vstd::prelude::*;

use crate::classify::{decide_icmp, decide_icmp_spec, decide_tcp_udp, decide_tcp_udp_spec, Maps,
    lookup_container4, lookup_container6};
use crate::event::{Egress6Event, Egress6IcmpEvent, EgressEvent, EgressIcmpEvent};
use crate::helpers::{be32_at, eth_protocol, eth_protocol_spec, get_port, get_port_spec,
    ip_protocol, ip_protocol_spec, lemma_seq_to_arr16, read_addr16, read_be32, seq_to_arr16};
use crate::maps::ContainerIP;
use crate::types::{EthProtocol, IcmpVersion, IpProtocol, TcAction, IPV6_LEN,
    NEIGHBOR_ADVERTISEMENT, NEIGHBOR_SOLICITATION, TASK_COMM_LEN, TC_ACT_OK, TC_ACT_SHOT};

verus! {

/// Egress IPv4 TCP/UDP classifier.
pub fn tcp_udp(frame: &Vec<u8>, maps: &Maps) -> (res: (i32, Option<EgressEvent>))
    requires
        maps.wf(),
    ensures
        res.1 matches Some(ev) ==> (ev.action == TcAction::Pass <==> res.0 == TC_ACT_OK),
        ({
            let f = frame@;
            if eth_protocol_spec(f) != EthProtocol::IP {
                res.0 == TC_ACT_OK && res.1 is None
            } else {
                match get_port_spec(f) {
                    Err(code) => res.0 == code && res.1 is None,
                    Ok(ports) => {
                        let proto = ip_protocol_spec(f)->Ok_0;
                        let saddr = be32_at(f, 26);
                        let daddr = be32_at(f, 30);
                        let ip_key = ContainerIP {
                            ip: saddr,
                            ipv6: vstd::array::spec_array_fill_for_copy_type(0u8),
                        };
                        if !maps.container@.contains_key(ip_key) {
                            res.0 == TC_ACT_SHOT && res.1 is None
                        } else {
                            let cid = maps.container@[ip_key].container_id;
                            match decide_tcp_udp_spec(
                                *maps,
                                cid,
                                daddr,
                                vstd::array::spec_array_fill_for_copy_type(0u8),
                                ports.0,
                                ports.1,
                                proto,
                            ) {
                                None => res == (
                                    TC_ACT_SHOT,
                                    Some(
                                        EgressEvent {
                                            container_id: cid,
                                            saddr,
                                            daddr,
                                            sport: ports.0,
                                            dport: ports.1,
                                            family: EthProtocol::IP,
                                            protocol: proto,
                                            action: TcAction::Drop,
                                            comm: vstd::array::spec_array_fill_for_copy_type(0u8),
                                        },
                                    ),
                                ),
                                Some(decision) => res == (
                                    decision.0.code_spec(),
                                    Some(
                                        EgressEvent {
                                            container_id: cid,
                                            saddr,
                                            daddr,
                                            sport: ports.0,
                                            dport: ports.1,
                                            family: EthProtocol::IP,
                                            protocol: proto,
                                            action: decision.0,
                                            comm: decision.1,
                                        },
                                    ),
                                ),
                            }
                        }
                    },
                }
            }
        }),
{
    let fam = eth_protocol(frame);
    if fam != EthProtocol::IP {
        return (TC_ACT_OK, None);
    }
    let ports = match get_port(frame) {
        Err(code) => {
            return (code, None);
        },
        Ok(p) => p,
    };
    let proto = match ip_protocol(frame) {
        Ok(p) => p,
        Err(_) => {
            return (TC_ACT_SHOT, None);
        },
    };
    let saddr = read_be32(frame, 26);
    let daddr = read_be32(frame, 30);
    let cid = match lookup_container4(maps, saddr) {
        None => {
            return (TC_ACT_SHOT, None);
        },
        Some(c) => c.container_id,
    };
    match decide_tcp_udp(maps, cid, daddr, [0u8; IPV6_LEN], ports.0, ports.1, proto) {
        None => {
            let ev = EgressEvent {
                container_id: cid,
                saddr,
                daddr,
                sport: ports.0,
                dport: ports.1,
                family: fam,
                protocol: proto,
                action: TcAction::Drop,
                comm: [0u8; TASK_COMM_LEN],
            };
            (TC_ACT_SHOT, Some(ev))
        },
        Some((action, comm)) => {
            let ev = EgressEvent {
                container_id: cid,
                saddr,
                daddr,
                sport: ports.0,
                dport: ports.1,
                family: fam,
                protocol: proto,
                action,
                comm,
            };
            (action.code(), Some(ev))
        },
    }
}

/// Egress IPv6 TCP/UDP classifier.
pub fn ipv6_tcp_udp(frame: &Vec<u8>, maps: &Maps) -> (res: (i32, Option<Egress6Event>))
    requires
        maps.wf(),
    ensures
        res.1 matches Some(ev) ==> (ev.action == TcAction::Pass <==> res.0 == TC_ACT_OK),
        ({
            let f = frame@;
            if eth_protocol_spec(f) != EthProtocol::IPv6 {
                res.0 == TC_ACT_OK && res.1 is None
            } else {
                match get_port_spec(f) {
                    Err(code) => res.0 == code && res.1 is None,
                    Ok(ports) => {
                        let proto = ip_protocol_spec(f)->Ok_0;
                        let saddr = seq_to_arr16(f.subrange(22, 38));
                        let daddr = seq_to_arr16(f.subrange(38, 54));
                        let ip_key = ContainerIP { ip: 0, ipv6: saddr };
                        if !maps.container@.contains_key(ip_key) {
                            res.0 == TC_ACT_SHOT && res.1 is None
                        } else {
                            let cid = maps.container@[ip_key].container_id;
                            match decide_tcp_udp_spec(*maps, cid, 0, daddr, ports.0, ports.1, proto) {
                                None => res == (
                                    TC_ACT_SHOT,
                                    Some(
                                        Egress6Event {
                                            container_id: cid,
                                            saddr,
                                            daddr,
                                            sport: ports.0,
                                            dport: ports.1,
                                            family: EthProtocol::IPv6,
                                            protocol: proto,
                                            action: TcAction::Drop,
                                            comm: vstd::array::spec_array_fill_for_copy_type(0u8),
                                        },
                                    ),
                                ),
                                Some(decision) => res == (
                                    decision.0.code_spec(),
                                    Some(
                                        Egress6Event {
                                            container_id: cid,
                                            saddr,
                                            daddr,
                                            sport: ports.0,
                                            dport: ports.1,
                                            family: EthProtocol::IPv6,
                                            protocol: proto,
                                            action: decision.0,
                                            comm: decision.1,
                                        },
                                    ),
                                ),
                            }
                        }
                    },
                }
            }
        }),
{
    let fam = eth_protocol(frame);
    if fam != EthProtocol::IPv6 {
        return (TC_ACT_OK, None);
    }
    let ports = match get_port(frame) {
        Err(code) => {
            return (code, None);
        },
        Ok(p) => p,
    };
    let proto = match ip_protocol(frame) {
        Ok(p) => p,
        Err(_) => {
            return (TC_ACT_SHOT, None);
        },
    };
    let saddr = read_addr16(frame, 22);
    let daddr = read_addr16(frame, 38);
    proof {
        lemma_seq_to_arr16(frame@.subrange(22, 38));
        lemma_seq_to_arr16(frame@.subrange(38, 54));
        assert(saddr =~= seq_to_arr16(frame@.subrange(22, 38)));
        assert(daddr =~= seq_to_arr16(frame@.subrange(38, 54)));
    }
    let cid = match lookup_container6(maps, saddr) {
        None => {
            return (TC_ACT_SHOT, None);
        },
        Some(c) => c.container_id,
    };
    match decide_tcp_udp(maps, cid, 0, daddr, ports.0, ports.1, proto) {
        None => {
            let ev = Egress6Event {
                container_id: cid,
                saddr,
                daddr,
                sport: ports.0,
                dport: ports.1,
                family: fam,
                protocol: proto,
                action: TcAction::Drop,
                comm: [0u8; TASK_COMM_LEN],
            };
            (TC_ACT_SHOT, Some(ev))
        },
        Some((action, comm)) => {
            let ev = Egress6Event {
                container_id: cid,
                saddr,
                daddr,
                sport: ports.0,
                dport: ports.1,
                family: fam,
                protocol: proto,
                action,
                comm,
            };
            (action.code(), Some(ev))
        },
    }
}

/// Egress IPv4 ICMP classifier.
pub fn icmp(frame: &Vec<u8>, maps: &Maps) -> (res: (i32, Option<EgressIcmpEvent>))
    requires
        maps.wf(),
    ensures
        res.1 matches Some(ev) ==> (ev.action == TcAction::Pass <==> res.0 == TC_ACT_OK),
        ({
            let f = frame@;
            if eth_protocol_spec(f) != EthProtocol::IP {
                res.0 == TC_ACT_OK && res.1 is None
            } else {
                match ip_protocol_spec(f) {
                    Err(code) => res.0 == code && res.1 is None,
                    Ok(proto) => {
                        if proto != IpProtocol::ICMP {
                            res.0 == TC_ACT_OK && res.1 is None
                        } else if f.len() < 42 {
                            res.0 == TC_ACT_SHOT && res.1 is None
                        } else {
                            let saddr = be32_at(f, 26);
                            let daddr = be32_at(f, 30);
                            let ip_key = ContainerIP {
                                ip: saddr,
                                ipv6: vstd::array::spec_array_fill_for_copy_type(0u8),
                            };
                            if !maps.container@.contains_key(ip_key) {
                                res.0 == TC_ACT_SHOT && res.1 is None
                            } else {
                                let cid = maps.container@[ip_key].container_id;
                                let action = decide_icmp_spec(
                                    *maps,
                                    cid,
                                    IcmpVersion::V4,
                                    f[34],
                                    f[35],
                                    daddr,
                                    vstd::array::spec_array_fill_for_copy_type(0u8),
                                );
                                res == (
                                    action.code_spec(),
                                    Some(
                                        EgressIcmpEvent {
                                            container_id: cid,
                                            saddr,
                                            daddr,
                                            family: EthProtocol::IP,
                                            protocol: proto,
                                            version: IcmpVersion::V4,
                                            type_: f[34],
                                            code: f[35],
                                            action,
                                        },
                                    ),
                                )
                            }
                        }
                    },
                }
            }
        }),
{
    let fam = eth_protocol(frame);
    if fam != EthProtocol::IP {
        return (TC_ACT_OK, None);
    }
    let proto = match ip_protocol(frame) {
        Err(code) => {
            return (code, None);
        },
        Ok(p) => p,
    };
    if proto != IpProtocol::ICMP {
        return (TC_ACT_OK, None);
    }
    if frame.len() < 42 {
        return (TC_ACT_SHOT, None);
    }
    let type_ = frame[34];
    let code = frame[35];
    let saddr = read_be32(frame, 26);
    let daddr = read_be32(frame, 30);
    let cid = match lookup_container4(maps, saddr) {
        None => {
            return (TC_ACT_SHOT, None);
        },
        Some(c) => c.container_id,
    };
    let action = decide_icmp(maps, cid, IcmpVersion::V4, type_, code, daddr, [0u8; IPV6_LEN]);
    let ev = EgressIcmpEvent {
        container_id: cid,
        saddr,
        daddr,
        family: fam,
        protocol: proto,
        version: IcmpVersion::V4,
        type_,
        code,
        action,
    };
    (action.code(), Some(ev))
}

/// Egress ICMPv6 classifier.  Neighbor Discovery (types 135 and 136) is
/// always allowed, whatever the policy, so L3 keeps working.
pub fn ipv6_icmp(frame: &Vec<u8>, maps: &Maps) -> (res: (i32, Option<Egress6IcmpEvent>))
    requires
        maps.wf(),
    ensures
        res.1 matches Some(ev) ==> (ev.action == TcAction::Pass <==> res.0 == TC_ACT_OK),
        ({
            let f = frame@;
            eth_protocol_spec(f) == EthProtocol::IPv6 && ip_protocol_spec(f) == Ok::<
                IpProtocol,
                i32,
            >(IpProtocol::ICMPv6) && f.len() >= 62 && (f[54] == NEIGHBOR_SOLICITATION || f[54]
                == NEIGHBOR_ADVERTISEMENT) ==> res.0 == TC_ACT_OK && res.1 is None
        }),
        ({
            let f = frame@;
            if eth_protocol_spec(f) != EthProtocol::IPv6 {
                res.0 == TC_ACT_OK && res.1 is None
            } else {
                match ip_protocol_spec(f) {
                    Err(code) => res.0 == code && res.1 is None,
                    Ok(proto) => {
                        if proto != IpProtocol::ICMPv6 {
                            res.0 == TC_ACT_OK && res.1 is None
                        } else if f.len() < 62 {
                            res.0 == TC_ACT_SHOT && res.1 is None
                        } else if f[54] == NEIGHBOR_SOLICITATION || f[54]
                            == NEIGHBOR_ADVERTISEMENT {
                            res.0 == TC_ACT_OK && res.1 is None
                        } else {
                            let saddr = seq_to_arr16(f.subrange(22, 38));
                            let daddr = seq_to_arr16(f.subrange(38, 54));
                            let ip_key = ContainerIP { ip: 0, ipv6: saddr };
                            if !maps.container@.contains_key(ip_key) {
                                res.0 == TC_ACT_SHOT && res.1 is None
                            } else {
                                let cid = maps.container@[ip_key].container_id;
                                let action = decide_icmp_spec(
                                    *maps,
                                    cid,
                                    IcmpVersion::V6,
                                    f[54],
                                    f[55],
                                    0,
                                    daddr,
                                );
                                res == (
                                    action.code_spec(),
                                    Some(
                                        Egress6IcmpEvent {
                                            container_id: cid,
                                            saddr,
                                            daddr,
                                            family: EthProtocol::IPv6,
                                            protocol: proto,
                                            version: IcmpVersion::V6,
                                            type_: f[54],
                                            code: f[55],
                                            action,
                                        },
                                    ),
                                )
                            }
                        }
                    },
                }
            }
        }),
{
    let fam = eth_protocol(frame);
    if fam != EthProtocol::IPv6 {
        return (TC_ACT_OK, None);
    }
    let proto = match ip_protocol(frame) {
        Err(code) => {
            return (code, None);
        },
        Ok(p) => p,
    };
    if proto != IpProtocol::ICMPv6 {
        return (TC_ACT_OK, None);
    }
    if frame.len() < 62 {
        return (TC_ACT_SHOT, None);
    }
    let type_ = frame[54];
    let code = frame[55];
    if type_ == NEIGHBOR_SOLICITATION || type_ == NEIGHBOR_ADVERTISEMENT {
        return (TC_ACT_OK, None);
    }
    let saddr = read_addr16(frame, 22);
    let daddr = read_addr16(frame, 38);
    proof {
        lemma_seq_to_arr16(frame@.subrange(22, 38));
        lemma_seq_to_arr16(frame@.subrange(38, 54));
        assert(saddr =~= seq_to_arr16(frame@.subrange(22, 38)));
        assert(daddr =~= seq_to_arr16(frame@.subrange(38, 54)));
    }
    let cid = match lookup_container6(maps, saddr) {
        None => {
            return (TC_ACT_SHOT, None);
        },
        Some(c) => c.container_id,
    };
    let action = decide_icmp(maps, cid, IcmpVersion::V6, type_, code, 0, daddr);
    let ev = Egress6IcmpEvent {
        container_id: cid,
        saddr,
        daddr,
        family: fam,
        protocol: proto,
        version: IcmpVersion::V6,
        type_,
        code,
        action,
    };
    (action.code(), Some(ev))
}

} // verus!
