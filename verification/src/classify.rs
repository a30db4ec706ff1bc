//! The classifier's shared-map state and its per-flow decisions: resolve
//! the owning process by local port, then search the allow-list, with the
//! privileged container-and-comm shortcut probed first.

use vstd::prelude::*;

use crate::maps::{ContainerID, ContainerIP, IcmpPolicyKey, PolicyKey, PortKey, PortVal};
use crate::search::{icmp_key_matches, key_matches, search_icmp_policy_key, search_policy_key};
use crate::store::{AssocMap, KeySet};
use crate::types::{IcmpVersion, IpProtocol, TcAction, CONTAINER_ID_LEN, IPV6_LEN, TASK_COMM_LEN};

verus! {

/// The shared maps that link the classifier to userspace.
pub struct Maps {
    pub container: AssocMap<ContainerIP, ContainerID>,
    pub process: AssocMap<PortKey, PortVal>,
    pub policy: KeySet<PolicyKey>,
    pub icmp_policy: KeySet<IcmpPolicyKey>,
}

impl Maps {
    /// The association maps keep their keys distinct.
    pub open spec fn wf(&self) -> bool {
        self.container.wf() && self.process.wf()
    }

    /// Empty maps, as created at program load.
    pub fn new() -> (r: Maps)
        ensures
            r.wf(),
            r.container@ == Map::<ContainerIP, ContainerID>::empty(),
            r.process@ == Map::<PortKey, PortVal>::empty(),
            r.policy@ == Set::<PolicyKey>::empty(),
            r.icmp_policy@ == Set::<IcmpPolicyKey>::empty(),
    {
        Maps {
            container: AssocMap::new(),
            process: AssocMap::new(),
            policy: KeySet::new(),
            icmp_policy: KeySet::new(),
        }
    }
}

/// Some rule of the policy set matches the concrete flow key under
/// wildcard semantics.
pub open spec fn flow_allowed(policies: Set<PolicyKey>, flow: PolicyKey) -> bool {
    exists|rule: PolicyKey| #[trigger] policies.contains(rule) && key_matches(rule, flow)
}

/// Some rule of the ICMP policy set matches the concrete ICMP flow key.
pub open spec fn icmp_flow_allowed(policies: Set<IcmpPolicyKey>, flow: IcmpPolicyKey) -> bool {
    exists|rule: IcmpPolicyKey| #[trigger] policies.contains(rule) && icmp_key_matches(rule, flow)
}

/// Decision for a TCP/UDP flow whose container is known.  `None` means no
/// process owns the local port: the packet is dropped with an audit event
/// that carries no comm.  Otherwise the action passes exactly the flows a
/// policy rule allows; the comm recorded in the event stays zero when the
/// privileged container-and-comm key decided.
pub open spec fn decide_tcp_udp_spec(
    maps: Maps,
    container_id: [u8; CONTAINER_ID_LEN],
    remote_ip: u32,
    remote_ipv6: [u8; IPV6_LEN],
    local_port: u16,
    remote_port: u16,
    protocol: IpProtocol,
) -> Option<(TcAction, [u8; TASK_COMM_LEN])> {
    let port_key = PortKey { container_id, port: local_port, proto: protocol };
    if !maps.process@.contains_key(port_key) {
        None
    } else {
        let comm = maps.process@[port_key].comm;
        let privileged = PolicyKey {
            container_id,
            comm,
            remote_ip: 0,
            remote_ipv6: vstd::array::spec_array_fill_for_copy_type(0u8),
            local_port: 0,
            remote_port: 0,
            protocol: IpProtocol::Default,
        };
        if maps.policy@.contains(privileged) {
            Some((TcAction::Pass, vstd::array::spec_array_fill_for_copy_type(0u8)))
        } else {
            let concrete = PolicyKey {
                container_id,
                comm,
                remote_ip,
                remote_ipv6,
                local_port,
                remote_port,
                protocol,
            };
            if flow_allowed(maps.policy@, concrete) {
                Some((TcAction::Pass, comm))
            } else {
                Some((TcAction::Drop, comm))
            }
        }
    }
}

/// Resolves the owning process of a TCP/UDP flow and searches the policy.
pub fn decide_tcp_udp(
    maps: &Maps,
    container_id: [u8; CONTAINER_ID_LEN],
    remote_ip: u32,
    remote_ipv6: [u8; IPV6_LEN],
    local_port: u16,
    remote_port: u16,
    protocol: IpProtocol,
) -> (r: Option<(TcAction, [u8; TASK_COMM_LEN])>)
    requires
        maps.wf(),
    ensures
        r == decide_tcp_udp_spec(
            *maps,
            container_id,
            remote_ip,
            remote_ipv6,
            local_port,
            remote_port,
            protocol,
        ),
{
    let port_key = PortKey { container_id, port: local_port, proto: protocol };
    let port_val = match maps.process.get(&port_key) {
        None => {
            return None;
        },
        Some(v) => *v,
    };
    let privileged = PolicyKey {
        container_id,
        comm: port_val.comm,
        remote_ip: 0,
        remote_ipv6: [0u8; IPV6_LEN],
        local_port: 0,
        remote_port: 0,
        protocol: IpProtocol::Default,
    };
    if maps.policy.contains(&privileged) {
        return Some((TcAction::Pass, [0u8; TASK_COMM_LEN]));
    }
    let concrete = PolicyKey {
        container_id,
        comm: port_val.comm,
        remote_ip,
        remote_ipv6,
        local_port,
        remote_port,
        protocol,
    };
    if search_policy_key(&maps.policy, &concrete) {
        Some((TcAction::Pass, port_val.comm))
    } else {
        Some((TcAction::Drop, port_val.comm))
    }
}

/// Decision for an ICMP flow whose container is known: pass exactly when
/// an ICMP rule matches.
pub open spec fn decide_icmp_spec(
    maps: Maps,
    container_id: [u8; CONTAINER_ID_LEN],
    version: IcmpVersion,
    type_: u8,
    code: u8,
    remote_ip: u32,
    remote_ipv6: [u8; IPV6_LEN],
) -> TcAction {
    let concrete = IcmpPolicyKey { container_id, version, type_, code, remote_ip, remote_ipv6 };
    if icmp_flow_allowed(maps.icmp_policy@, concrete) {
        TcAction::Pass
    } else {
        TcAction::Drop
    }
}

/// Searches the ICMP policy for a resolved ICMP flow.
pub fn decide_icmp(
    maps: &Maps,
    container_id: [u8; CONTAINER_ID_LEN],
    version: IcmpVersion,
    type_: u8,
    code: u8,
    remote_ip: u32,
    remote_ipv6: [u8; IPV6_LEN],
) -> (r: TcAction)
    ensures
        r == decide_icmp_spec(*maps, container_id, version, type_, code, remote_ip, remote_ipv6),
{
    let concrete = IcmpPolicyKey { container_id, version, type_, code, remote_ip, remote_ipv6 };
    if search_icmp_policy_key(&maps.icmp_policy, &concrete) {
        TcAction::Pass
    } else {
        TcAction::Drop
    }
}

/// Looks the owning container up by an IPv4 local address.
pub fn lookup_container4(maps: &Maps, ip: u32) -> (r: Option<ContainerID>)
    requires
        maps.wf(),
    ensures
        ({
            let key = ContainerIP { ip, ipv6: vstd::array::spec_array_fill_for_copy_type(0u8) };
            match r {
                Some(c) => maps.container@.contains_key(key) && c == maps.container@[key],
                None => !maps.container@.contains_key(key),
            }
        }),
{
    let key = ContainerIP { ip, ipv6: [0u8; IPV6_LEN] };
    match maps.container.get(&key) {
        Some(c) => Some(*c),
        None => None,
    }
}

/// Looks the owning container up by an IPv6 local address.
pub fn lookup_container6(maps: &Maps, addr: [u8; IPV6_LEN]) -> (r: Option<ContainerID>)
    requires
        maps.wf(),
    ensures
        ({
            let key = ContainerIP { ip: 0, ipv6: addr };
            match r {
                Some(c) => maps.container@.contains_key(key) && c == maps.container@[key],
                None => !maps.container@.contains_key(key),
            }
        }),
{
    let key = ContainerIP { ip: 0, ipv6: addr };
    match maps.container.get(&key) {
        Some(c) => Some(*c),
        None => None,
    }
}

} // verus!
