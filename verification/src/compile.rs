//! The policy compiler: translating the in-memory document into the map
//! entries that back the classifier's search, and the transactional
//! reload that replaces one compiled key set by another — all additions
//! before any removal, so a policy never becomes more restrictive
//! mid-reload.

use vstd::prelude::*;

use crate::classify::flow_allowed;
use crate::domain::{comm_bytes_spec, id_bytes_spec, Communication, Policies, Policy, Socket, ICMP};
use crate::helpers::{lemma_seq_to_arr12, lemma_seq_to_arr16, seq_to_arr12, seq_to_arr16};
use crate::maps::{all_zero, IcmpPolicyKey, PolicyKey};
use crate::search::{icmp_key_matches, key_matches};
use crate::store::lemma_push_contains;
use crate::types::{IcmpVersion, IpAddress, CONTAINER_ID_LEN, IPV6_LEN, TASK_COMM_LEN};

verus! {

/// The identifier array a policy's entries are keyed under.
pub open spec fn id_arr(p: Policy) -> [u8; CONTAINER_ID_LEN] {
    seq_to_arr12(id_bytes_spec(p.container.id))
}

/// The comm array a communication's entries carry.
pub open spec fn comm_arr(c: Communication) -> [u8; TASK_COMM_LEN] {
    seq_to_arr16(comm_bytes_spec(c.process))
}

/// The privileged key of a communication without sockets and ICMP
/// constraints: its presence allows the process everything.
pub open spec fn privileged_key(
    cid: [u8; CONTAINER_ID_LEN],
    comm: [u8; TASK_COMM_LEN],
) -> PolicyKey {
    PolicyKey {
        container_id: cid,
        comm,
        remote_ip: 0,
        remote_ipv6: vstd::array::spec_array_fill_for_copy_type(0u8),
        local_port: 0,
        remote_port: 0,
        protocol: crate::types::IpProtocol::Default,
    }
}

/// The map key one socket constraint compiles to: fields the document
/// leaves out are zero, the wildcard marker.
pub open spec fn socket_key(
    cid: [u8; CONTAINER_ID_LEN],
    comm: [u8; TASK_COMM_LEN],
    s: Socket,
) -> PolicyKey {
    PolicyKey {
        container_id: cid,
        comm,
        remote_ip: match s.remote_ip {
            Some(IpAddress::V4(ip)) => ip,
            _ => 0,
        },
        remote_ipv6: match s.remote_ip {
            Some(IpAddress::V6(a)) => a,
            _ => vstd::array::spec_array_fill_for_copy_type(0u8),
        },
        local_port: match s.local_port {
            Some(p) => p,
            None => 0,
        },
        remote_port: match s.remote_port {
            Some(p) => p,
            None => 0,
        },
        protocol: s.protocol,
    }
}

/// The map key one ICMP constraint compiles to: an absent code becomes
/// the sentinel 255, an absent remote address zero.
pub open spec fn icmp_rule_key(cid: [u8; CONTAINER_ID_LEN], ic: ICMP) -> IcmpPolicyKey {
    IcmpPolicyKey {
        container_id: cid,
        version: if ic.version == 6 {
            IcmpVersion::V6
        } else {
            IcmpVersion::V4
        },
        type_: ic.icmp_type,
        code: match ic.code {
            Some(c) => c,
            None => 255,
        },
        remote_ip: match ic.remote_ip {
            Some(IpAddress::V4(ip)) => ip,
            _ => 0,
        },
        remote_ipv6: match ic.remote_ip {
            Some(IpAddress::V6(a)) => a,
            _ => vstd::array::spec_array_fill_for_copy_type(0u8),
        },
    }
}

/// One communication of a resolved policy emits this TCP/UDP key.
pub open spec fn comm_emits_key(p: Policy, c: Communication, k: PolicyKey) -> bool {
    &&& p.container.id is Some
    &&& ((c.sockets@.len() == 0 && c.icmp@.len() == 0 && k == privileged_key(
        id_arr(p),
        comm_arr(c),
    )) || (exists|si: int|
        0 <= si < c.sockets@.len() && k == socket_key(id_arr(p), comm_arr(c), #[trigger] c.sockets@[si])))
}

/// The document emits this TCP/UDP key.
pub open spec fn emits_key(ps: Policies, k: PolicyKey) -> bool {
    exists|i: int, j: int|
        0 <= i < ps.policies@.len() && 0 <= j < ps.policies@[i].communications@.len()
            && comm_emits_key(ps.policies@[i], #[trigger] ps.policies@[i].communications@[j], k)
}

/// One communication of a resolved policy emits this ICMP key.
pub open spec fn comm_emits_icmp_key(p: Policy, c: Communication, k: IcmpPolicyKey) -> bool {
    &&& p.container.id is Some
    &&& exists|si: int| 0 <= si < c.icmp@.len() && k == icmp_rule_key(id_arr(p), #[trigger] c.icmp@[si])
}

/// The document emits this ICMP key.
pub open spec fn emits_icmp_key(ps: Policies, k: IcmpPolicyKey) -> bool {
    exists|i: int, j: int|
        0 <= i < ps.policies@.len() && 0 <= j < ps.policies@[i].communications@.len()
            && comm_emits_icmp_key(
            ps.policies@[i],
            #[trigger] ps.policies@[i].communications@[j],
            k,
        )
}

/// The document emits this TCP/UDP key from an entry before position
/// (`i`, `j`) in (policy, communication) order.
pub open spec fn emits_key_before(ps: Policies, k: PolicyKey, i: int, j: int) -> bool {
    exists|a: int, b: int|
        #![auto]
        0 <= a < ps.policies@.len() && 0 <= b < ps.policies@[a].communications@.len() && (a < i || (
        a == i && b < j)) && comm_emits_key(ps.policies@[a], ps.policies@[a].communications@[b], k)
}

/// The same prefix form for ICMP keys.
pub open spec fn emits_icmp_key_before(ps: Policies, k: IcmpPolicyKey, i: int, j: int) -> bool {
    exists|a: int, b: int|
        #![auto]
        0 <= a < ps.policies@.len() && 0 <= b < ps.policies@[a].communications@.len() && (a < i || (
        a == i && b < j)) && comm_emits_icmp_key(
            ps.policies@[a],
            ps.policies@[a].communications@[b],
            k,
        )
}

/// Compiles a resolved document into the exact key sets the classifier
/// searches: a key is produced precisely when some communication of some
/// resolved policy emits it.
pub fn compile_policies(ps: &Policies) -> (r: (Vec<PolicyKey>, Vec<IcmpPolicyKey>))
    ensures
        forall|k: PolicyKey| #[trigger] r.0@.contains(k) <==> emits_key(*ps, k),
        forall|k: IcmpPolicyKey| #[trigger] r.1@.contains(k) <==> emits_icmp_key(*ps, k),
        r.0@.to_set() == compiled_set(*ps),
        r.1@.to_set() == compiled_icmp_set(*ps),
{
    let mut keys: Vec<PolicyKey> = Vec::new();
    let mut icmp_keys: Vec<IcmpPolicyKey> = Vec::new();
    let np = ps.policies.len();
    let mut i: usize = 0;
    while i < np
        invariant
            np == ps.policies@.len(),
            0 <= i <= np,
            forall|k: PolicyKey| #[trigger]
                keys@.contains(k) <==> emits_key_before(*ps, k, i as int, 0),
            forall|k: IcmpPolicyKey| #[trigger]
                icmp_keys@.contains(k) <==> emits_icmp_key_before(*ps, k, i as int, 0),
        decreases np - i,
    {
        let p = &ps.policies[i];
        let nc = p.communications.len();
        if p.container.id.is_none() {
            proof {
                lemma_skip_policy(*ps, i as int);
            }
            i += 1;
            continue ;
        }
        let cid = p.container.id_bytes();
        proof {
            lemma_seq_to_arr12(id_bytes_spec(p.container.id));
            assert(cid =~= id_arr(ps.policies@[i as int]));
        }
        let mut j: usize = 0;
        while j < nc
            invariant
                np == ps.policies@.len(),
                0 <= i < np,
                nc == ps.policies@[i as int].communications@.len(),
                cid == id_arr(ps.policies@[i as int]),
                ps.policies@[i as int].container.id is Some,
                0 <= j <= nc,
                forall|k: PolicyKey| #[trigger]
                    keys@.contains(k) <==> emits_key_before(*ps, k, i as int, j as int),
                forall|k: IcmpPolicyKey| #[trigger]
                    icmp_keys@.contains(k) <==> emits_icmp_key_before(*ps, k, i as int, j as int),
            decreases nc - j,
        {
            let c = &ps.policies[i].communications[j];
            let comm = c.process();
            proof {
                lemma_seq_to_arr16(comm_bytes_spec(c.process));
                assert(comm =~= comm_arr(ps.policies@[i as int].communications@[j as int]));
            }
            if c.sockets.len() == 0 && c.icmp.len() == 0 {
                let key = PolicyKey {
                    container_id: cid,
                    comm,
                    remote_ip: 0,
                    remote_ipv6: [0u8; IPV6_LEN],
                    local_port: 0,
                    remote_port: 0,
                    protocol: crate::types::IpProtocol::Default,
                };
                let ghost before = keys@;
                keys.push(key);
                proof {
                    lemma_push_contains(before, key);
                    assert(key == privileged_key(cid, comm));
                    assert forall|k: PolicyKey| #[trigger]
                        keys@.contains(k) <==> (emits_key_before(*ps, k, i as int, j as int)
                            || comm_emits_key(
                            ps.policies@[i as int],
                            ps.policies@[i as int].communications@[j as int],
                            k,
                        )) by {
                        assert(keys@ == before.push(key));
                        crate::store::lemma_push_contains_elem(before, key, k);
                    }
                }
            } else {
                let ns = c.sockets.len();
                let mut si: usize = 0;
                while si < ns
                    invariant
                        np == ps.policies@.len(),
                        0 <= i < np,
                        nc == ps.policies@[i as int].communications@.len(),
                        0 <= j < nc,
                        c == &ps.policies@[i as int].communications@[j as int],
                        ns == c.sockets@.len(),
                        cid == id_arr(ps.policies@[i as int]),
                        comm == comm_arr(ps.policies@[i as int].communications@[j as int]),
                        ps.policies@[i as int].container.id is Some,
                        0 <= si <= ns,
                        forall|k: PolicyKey| #[trigger]
                            keys@.contains(k) <==> (emits_key_before(*ps, k, i as int, j as int)
                                || exists|b: int|
                                0 <= b < si && k == socket_key(cid, comm, #[trigger] c.sockets@[b])),
                    decreases ns - si,
                {
                    let s = &c.sockets[si];
                    let key = PolicyKey {
                        container_id: cid,
                        comm,
                        remote_ip: match &s.remote_ip {
                            Some(IpAddress::V4(ip)) => *ip,
                            _ => 0,
                        },
                        remote_ipv6: match &s.remote_ip {
                            Some(IpAddress::V6(a)) => *a,
                            _ => [0u8; IPV6_LEN],
                        },
                        local_port: match s.local_port {
                            Some(p) => p,
                            None => 0,
                        },
                        remote_port: match s.remote_port {
                            Some(p) => p,
                            None => 0,
                        },
                        protocol: s.protocol,
                    };
                    let ghost before = keys@;
                    keys.push(key);
                    proof {
                        lemma_push_contains(before, key);
                        assert(key == socket_key(cid, comm, c.sockets@[si as int]));
                        assert forall|k: PolicyKey| #[trigger]
                            keys@.contains(k) <==> (emits_key_before(*ps, k, i as int, j as int)
                                || exists|b: int|
                                0 <= b < si + 1 && k == socket_key(
                                    cid,
                                    comm,
                                    #[trigger] c.sockets@[b],
                                )) by {
                            assert(keys@ == before.push(key));
                            crate::store::lemma_push_contains_elem(before, key, k);
                            if k == key {
                                assert(k == socket_key(cid, comm, c.sockets@[si as int]));
                            }
                        }
                    }
                    si += 1;
                }
            }
            let ni = c.icmp.len();
            let mut ii: usize = 0;
            while ii < ni
                invariant
                    np == ps.policies@.len(),
                    0 <= i < np,
                    nc == ps.policies@[i as int].communications@.len(),
                    0 <= j < nc,
                    c == &ps.policies@[i as int].communications@[j as int],
                    ni == c.icmp@.len(),
                    cid == id_arr(ps.policies@[i as int]),
                    ps.policies@[i as int].container.id is Some,
                    0 <= ii <= ni,
                    forall|k: IcmpPolicyKey| #[trigger]
                        icmp_keys@.contains(k) <==> (emits_icmp_key_before(
                            *ps,
                            k,
                            i as int,
                            j as int,
                        ) || exists|b: int|
                            0 <= b < ii && k == icmp_rule_key(cid, #[trigger] c.icmp@[b])),
                decreases ni - ii,
            {
                let ic = &c.icmp[ii];
                let key = IcmpPolicyKey {
                    container_id: cid,
                    version: if ic.version == 6 {
                        IcmpVersion::V6
                    } else {
                        IcmpVersion::V4
                    },
                    type_: ic.icmp_type,
                    code: match ic.code {
                        Some(cv) => cv,
                        None => 255,
                    },
                    remote_ip: match &ic.remote_ip {
                        Some(IpAddress::V4(ip)) => *ip,
                        _ => 0,
                    },
                    remote_ipv6: match &ic.remote_ip {
                        Some(IpAddress::V6(a)) => *a,
                        _ => [0u8; IPV6_LEN],
                    },
                };
                let ghost before = icmp_keys@;
                icmp_keys.push(key);
                proof {
                    lemma_push_contains(before, key);
                    assert(key == icmp_rule_key(cid, c.icmp@[ii as int]));
                    assert forall|k: IcmpPolicyKey| #[trigger]
                        icmp_keys@.contains(k) <==> (emits_icmp_key_before(
                            *ps,
                            k,
                            i as int,
                            j as int,
                        ) || exists|b: int|
                            0 <= b < ii + 1 && k == icmp_rule_key(cid, #[trigger] c.icmp@[b])) by {
                        assert(icmp_keys@ == before.push(key));
                        crate::store::lemma_push_contains_elem(before, key, k);
                        if k == key {
                            assert(k == icmp_rule_key(cid, c.icmp@[ii as int]));
                        }
                    }
                }
                ii += 1;
            }
            proof {
                let pi = ps.policies@[i as int];
                let cj = pi.communications@[j as int];
                lemma_step_comm(*ps, i as int, j as int);
                if c.sockets@.len() == 0 && c.icmp@.len() == 0 {
                } else {
                    assert forall|k: PolicyKey| #[trigger]
                        keys@.contains(k) <==> (emits_key_before(*ps, k, i as int, j as int)
                            || comm_emits_key(pi, cj, k)) by {
                        assert(comm_emits_key(pi, cj, k) <==> exists|b: int|
                            0 <= b < c.sockets@.len() && k == socket_key(
                                cid,
                                comm,
                                #[trigger] c.sockets@[b],
                            ));
                    }
                }
                assert forall|k: IcmpPolicyKey| #[trigger]
                    icmp_keys@.contains(k) <==> (emits_icmp_key_before(*ps, k, i as int, j as int)
                        || comm_emits_icmp_key(pi, cj, k)) by {
                    assert(comm_emits_icmp_key(pi, cj, k) <==> exists|b: int|
                        0 <= b < c.icmp@.len() && k == icmp_rule_key(cid, #[trigger] c.icmp@[b]));
                }
            }
            j += 1;
        }
        proof {
            lemma_step_policy(*ps, i as int);
        }
        i += 1;
    }
    proof {
        lemma_full_scan(*ps);
        assert(keys@.to_set() =~= compiled_set(*ps));
        assert(icmp_keys@.to_set() =~= compiled_icmp_set(*ps));
    }
    (keys, icmp_keys)
}

/// Extending the scanned prefix by one communication adds exactly its
/// emissions.
proof fn lemma_step_comm(ps: Policies, i: int, j: int)
    requires
        0 <= i < ps.policies@.len(),
        0 <= j < ps.policies@[i].communications@.len(),
    ensures
        forall|k: PolicyKey|
            #![auto]
            emits_key_before(ps, k, i, j + 1) <==> (emits_key_before(ps, k, i, j)
                || comm_emits_key(ps.policies@[i], ps.policies@[i].communications@[j], k)),
        forall|k: IcmpPolicyKey|
            #![auto]
            emits_icmp_key_before(ps, k, i, j + 1) <==> (emits_icmp_key_before(ps, k, i, j)
                || comm_emits_icmp_key(ps.policies@[i], ps.policies@[i].communications@[j], k)),
{
    assert forall|k: PolicyKey|
        #![auto]
        emits_key_before(ps, k, i, j + 1) <==> (emits_key_before(ps, k, i, j) || comm_emits_key(
            ps.policies@[i],
            ps.policies@[i].communications@[j],
            k,
        )) by {
        if emits_key_before(ps, k, i, j + 1) {
            let (a, b) = choose|a: int, b: int|
                #![auto]
                0 <= a < ps.policies@.len() && 0 <= b < ps.policies@[a].communications@.len() && (a
                    < i || (a == i && b < j + 1)) && comm_emits_key(
                    ps.policies@[a],
                    ps.policies@[a].communications@[b],
                    k,
                );
            if a == i && b == j {
                assert(comm_emits_key(ps.policies@[i], ps.policies@[i].communications@[j], k));
            } else {
                assert(emits_key_before(ps, k, i, j));
            }
        }
        if emits_key_before(ps, k, i, j) {
            assert(emits_key_before(ps, k, i, j + 1));
        }
        if comm_emits_key(ps.policies@[i], ps.policies@[i].communications@[j], k) {
            assert(emits_key_before(ps, k, i, j + 1));
        }
    }
    assert forall|k: IcmpPolicyKey|
        #![auto]
        emits_icmp_key_before(ps, k, i, j + 1) <==> (emits_icmp_key_before(ps, k, i, j)
            || comm_emits_icmp_key(ps.policies@[i], ps.policies@[i].communications@[j], k)) by {
        if emits_icmp_key_before(ps, k, i, j + 1) {
            let (a, b) = choose|a: int, b: int|
                #![auto]
                0 <= a < ps.policies@.len() && 0 <= b < ps.policies@[a].communications@.len() && (a
                    < i || (a == i && b < j + 1)) && comm_emits_icmp_key(
                    ps.policies@[a],
                    ps.policies@[a].communications@[b],
                    k,
                );
            if a == i && b == j {
                assert(comm_emits_icmp_key(ps.policies@[i], ps.policies@[i].communications@[j], k));
            } else {
                assert(emits_icmp_key_before(ps, k, i, j));
            }
        }
        if emits_icmp_key_before(ps, k, i, j) {
            assert(emits_icmp_key_before(ps, k, i, j + 1));
        }
        if comm_emits_icmp_key(ps.policies@[i], ps.policies@[i].communications@[j], k) {
            assert(emits_icmp_key_before(ps, k, i, j + 1));
        }
    }
}

/// Finishing one policy's communications moves the prefix bound to the
/// next policy.
proof fn lemma_step_policy(ps: Policies, i: int)
    requires
        0 <= i < ps.policies@.len(),
    ensures
        forall|k: PolicyKey|
            #![auto]
            emits_key_before(ps, k, i + 1, 0) <==> emits_key_before(
                ps,
                k,
                i,
                ps.policies@[i].communications@.len() as int,
            ),
        forall|k: IcmpPolicyKey|
            #![auto]
            emits_icmp_key_before(ps, k, i + 1, 0) <==> emits_icmp_key_before(
                ps,
                k,
                i,
                ps.policies@[i].communications@.len() as int,
            ),
{
}

/// A policy with an unresolved container identifier emits nothing.
proof fn lemma_skip_policy(ps: Policies, i: int)
    requires
        0 <= i < ps.policies@.len(),
        ps.policies@[i].container.id is None,
    ensures
        forall|k: PolicyKey|
            #![auto]
            emits_key_before(ps, k, i + 1, 0) <==> emits_key_before(ps, k, i, 0),
        forall|k: IcmpPolicyKey|
            #![auto]
            emits_icmp_key_before(ps, k, i + 1, 0) <==> emits_icmp_key_before(ps, k, i, 0),
{
}

/// Scanning every policy covers every emission.
proof fn lemma_full_scan(ps: Policies)
    ensures
        forall|k: PolicyKey|
            #![auto]
            emits_key(ps, k) <==> emits_key_before(ps, k, ps.policies@.len() as int, 0),
        forall|k: IcmpPolicyKey|
            #![auto]
            emits_icmp_key(ps, k) <==> emits_icmp_key_before(
                ps,
                k,
                ps.policies@.len() as int,
                0,
            ),
{
}

/// The set of TCP/UDP keys a document compiles to.
pub open spec fn compiled_set(ps: Policies) -> Set<PolicyKey> {
    Set::new(|k: PolicyKey| emits_key(ps, k))
}

/// The set of ICMP keys a document compiles to.
pub open spec fn compiled_icmp_set(ps: Policies) -> Set<IcmpPolicyKey> {
    Set::new(|k: IcmpPolicyKey| emits_icmp_key(ps, k))
}

/// One socket constraint of the document covers a concrete flow: each
/// stated field is the wildcard or agrees with the flow.
pub open spec fn socket_covers(s: Socket, flow: PolicyKey) -> bool {
    &&& (s.protocol == crate::types::IpProtocol::Default || s.protocol == flow.protocol)
    &&& (match s.local_port {
        Some(p) => p == 0 || p == flow.local_port,
        None => true,
    })
    &&& (match s.remote_port {
        Some(p) => p == 0 || p == flow.remote_port,
        None => true,
    })
    &&& (match s.remote_ip {
        None => true,
        Some(IpAddress::V4(ip)) => ip == 0 || (flow.remote_ip == ip && all_zero(
            flow.remote_ipv6@,
        )),
        Some(IpAddress::V6(a)) => all_zero(a@) || (flow.remote_ip == 0 && flow.remote_ipv6 == a),
    })
}

/// One communication covers a concrete flow: the resolved container and
/// the comm agree, and either the communication is unrestricted or some
/// socket constraint covers the flow.
pub open spec fn comm_covers(p: Policy, c: Communication, flow: PolicyKey) -> bool {
    &&& p.container.id is Some
    &&& id_arr(p) == flow.container_id
    &&& (all_zero(comm_arr(c)@) || comm_arr(c) == flow.comm)
    &&& ((c.sockets@.len() == 0 && c.icmp@.len() == 0) || exists|si: int|
        0 <= si < c.sockets@.len() && socket_covers(#[trigger] c.sockets@[si], flow))
}

/// The document allows a concrete TCP/UDP flow under wildcard semantics.
pub open spec fn document_allows(ps: Policies, flow: PolicyKey) -> bool {
    exists|i: int, j: int|
        0 <= i < ps.policies@.len() && 0 <= j < ps.policies@[i].communications@.len()
            && comm_covers(ps.policies@[i], #[trigger] ps.policies@[i].communications@[j], flow)
}

/// One ICMP constraint covers a concrete ICMP flow.
pub open spec fn icmp_covers(ic: ICMP, flow: IcmpPolicyKey) -> bool {
    &&& (if ic.version == 6 {
        IcmpVersion::V6
    } else {
        IcmpVersion::V4
    }) == flow.version
    &&& (ic.icmp_type == 255 || ic.icmp_type == flow.type_)
    &&& (match ic.code {
        Some(cv) => cv == 255 || cv == flow.code,
        None => true,
    })
    &&& (match ic.remote_ip {
        None => true,
        Some(IpAddress::V4(ip)) => ip == 0 || (flow.remote_ip == ip && all_zero(
            flow.remote_ipv6@,
        )),
        Some(IpAddress::V6(a)) => all_zero(a@) || (flow.remote_ip == 0 && flow.remote_ipv6 == a),
    })
}

/// The document allows a concrete ICMP flow under wildcard semantics.
pub open spec fn document_allows_icmp(ps: Policies, flow: IcmpPolicyKey) -> bool {
    exists|i: int, j: int, si: int|
        #![auto]
        0 <= i < ps.policies@.len() && 0 <= j < ps.policies@[i].communications@.len() && 0 <= si
            < ps.policies@[i].communications@[j].icmp@.len()
            && ps.policies@[i].container.id is Some && id_arr(ps.policies@[i])
            == flow.container_id && icmp_covers(
            ps.policies@[i].communications@[j].icmp@[si],
            flow,
        )
}

/// A compiled socket key matches a flow exactly when the socket
/// constraint covers it and container and comm agree.
proof fn lemma_socket_key_matches(p: Policy, c: Communication, si: int, flow: PolicyKey)
    requires
        0 <= si < c.sockets@.len(),
    ensures
        key_matches(socket_key(id_arr(p), comm_arr(c), c.sockets@[si]), flow) <==> (id_arr(p)
            == flow.container_id && (all_zero(comm_arr(c)@) || comm_arr(c) == flow.comm)
            && socket_covers(c.sockets@[si], flow)),
{
    let rule = socket_key(id_arr(p), comm_arr(c), c.sockets@[si]);
    let s = c.sockets@[si];
    let zero16: [u8; IPV6_LEN] = vstd::array::spec_array_fill_for_copy_type(0u8);
    assert(all_zero(zero16@));
    match s.remote_ip {
        None => {
            assert(rule.remote_ip == 0 && all_zero(rule.remote_ipv6@));
        },
        Some(IpAddress::V4(ip)) => {
            assert(rule.remote_ipv6 == zero16);
            if all_zero(flow.remote_ipv6@) {
                assert(flow.remote_ipv6 =~= zero16);
            }
        },
        Some(IpAddress::V6(a)) => {
            assert(rule.remote_ip == 0 && rule.remote_ipv6 == a);
        },
    }
}

/// A privileged key matches a flow exactly when container and comm agree.
proof fn lemma_privileged_key_matches(p: Policy, c: Communication, flow: PolicyKey)
    ensures
        key_matches(privileged_key(id_arr(p), comm_arr(c)), flow) <==> (id_arr(p)
            == flow.container_id && (all_zero(comm_arr(c)@) || comm_arr(c) == flow.comm)),
{
    let zero16: [u8; IPV6_LEN] = vstd::array::spec_array_fill_for_copy_type(0u8);
    assert(all_zero(zero16@));
}

/// A compiled ICMP key matches a flow exactly when its constraint covers
/// it and the container agrees.
proof fn lemma_icmp_key_matches(p: Policy, ic: ICMP, flow: IcmpPolicyKey)
    ensures
        icmp_key_matches(icmp_rule_key(id_arr(p), ic), flow) <==> (id_arr(p) == flow.container_id
            && icmp_covers(ic, flow)),
{
    let rule = icmp_rule_key(id_arr(p), ic);
    let zero16: [u8; IPV6_LEN] = vstd::array::spec_array_fill_for_copy_type(0u8);
    assert(all_zero(zero16@));
    match ic.remote_ip {
        None => {
            assert(rule.remote_ip == 0 && all_zero(rule.remote_ipv6@));
        },
        Some(IpAddress::V4(ip)) => {
            assert(rule.remote_ipv6 == zero16);
            if all_zero(flow.remote_ipv6@) {
                assert(flow.remote_ipv6 =~= zero16);
            }
        },
        Some(IpAddress::V6(a)) => {
            assert(rule.remote_ip == 0 && rule.remote_ipv6 == a);
        },
    }
}

/// For every document and every concrete TCP/UDP flow, the compiled key
/// set allows the flow exactly when some rule of the document covers it
/// under wildcard semantics.
pub proof fn lemma_compile_matches_document(ps: Policies, flow: PolicyKey)
    ensures
        flow_allowed(compiled_set(ps), flow) <==> document_allows(ps, flow),
{
    if flow_allowed(compiled_set(ps), flow) {
        let rule = choose|rule: PolicyKey| #[trigger]
            compiled_set(ps).contains(rule) && key_matches(rule, flow);
        assert(emits_key(ps, rule));
        let (i, j) = choose|i: int, j: int|
            0 <= i < ps.policies@.len() && 0 <= j < ps.policies@[i].communications@.len()
                && comm_emits_key(ps.policies@[i], #[trigger] ps.policies@[i].communications@[j], rule);
        let p = ps.policies@[i];
        let c = p.communications@[j];
        if c.sockets@.len() == 0 && c.icmp@.len() == 0 && rule == privileged_key(
            id_arr(p),
            comm_arr(c),
        ) {
            lemma_privileged_key_matches(p, c, flow);
            assert(comm_covers(p, c, flow));
        } else {
            let si = choose|si: int|
                0 <= si < c.sockets@.len() && rule == socket_key(
                    id_arr(p),
                    comm_arr(c),
                    #[trigger] c.sockets@[si],
                );
            lemma_socket_key_matches(p, c, si, flow);
            assert(socket_covers(c.sockets@[si], flow));
            assert(comm_covers(p, c, flow));
        }
        assert(document_allows(ps, flow));
    }
    if document_allows(ps, flow) {
        let (i, j) = choose|i: int, j: int|
            0 <= i < ps.policies@.len() && 0 <= j < ps.policies@[i].communications@.len()
                && comm_covers(ps.policies@[i], #[trigger] ps.policies@[i].communications@[j], flow);
        let p = ps.policies@[i];
        let c = p.communications@[j];
        if c.sockets@.len() == 0 && c.icmp@.len() == 0 {
            let rule = privileged_key(id_arr(p), comm_arr(c));
            lemma_privileged_key_matches(p, c, flow);
            assert(key_matches(rule, flow));
            assert(comm_emits_key(p, c, rule));
            assert(emits_key(ps, rule));
            assert(compiled_set(ps).contains(rule) && key_matches(rule, flow));
        } else {
            let si = choose|si: int|
                0 <= si < c.sockets@.len() && socket_covers(#[trigger] c.sockets@[si], flow);
            let rule = socket_key(id_arr(p), comm_arr(c), c.sockets@[si]);
            lemma_socket_key_matches(p, c, si, flow);
            assert(key_matches(rule, flow));
            assert(comm_emits_key(p, c, rule));
            assert(emits_key(ps, rule));
            assert(compiled_set(ps).contains(rule) && key_matches(rule, flow));
        }
    }
}

/// For every document and every concrete ICMP flow, the compiled ICMP key
/// set allows the flow exactly when some ICMP constraint of the document
/// covers it.
pub proof fn lemma_compile_matches_document_icmp(ps: Policies, flow: IcmpPolicyKey)
    ensures
        crate::classify::icmp_flow_allowed(compiled_icmp_set(ps), flow) <==> document_allows_icmp(
            ps,
            flow,
        ),
{
    if crate::classify::icmp_flow_allowed(compiled_icmp_set(ps), flow) {
        let rule = choose|rule: IcmpPolicyKey| #[trigger]
            compiled_icmp_set(ps).contains(rule) && icmp_key_matches(rule, flow);
        assert(emits_icmp_key(ps, rule));
        let (i, j) = choose|i: int, j: int|
            0 <= i < ps.policies@.len() && 0 <= j < ps.policies@[i].communications@.len()
                && comm_emits_icmp_key(
                ps.policies@[i],
                #[trigger] ps.policies@[i].communications@[j],
                rule,
            );
        let p = ps.policies@[i];
        let c = p.communications@[j];
        let si = choose|si: int|
            0 <= si < c.icmp@.len() && rule == icmp_rule_key(id_arr(p), #[trigger] c.icmp@[si]);
        lemma_icmp_key_matches(p, c.icmp@[si], flow);
        assert(document_allows_icmp(ps, flow));
    }
    if document_allows_icmp(ps, flow) {
        let (i, j, si) = choose|i: int, j: int, si: int|
            #![auto]
            0 <= i < ps.policies@.len() && 0 <= j < ps.policies@[i].communications@.len() && 0 <= si
                < ps.policies@[i].communications@[j].icmp@.len()
                && ps.policies@[i].container.id is Some && id_arr(ps.policies@[i])
                == flow.container_id && icmp_covers(
                ps.policies@[i].communications@[j].icmp@[si],
                flow,
            );
        let p = ps.policies@[i];
        let c = p.communications@[j];
        let rule = icmp_rule_key(id_arr(p), c.icmp@[si]);
        lemma_icmp_key_matches(p, c.icmp@[si], flow);
        assert(icmp_key_matches(rule, flow));
        assert(comm_emits_icmp_key(p, c, rule));
        assert(emits_icmp_key(ps, rule));
        assert(compiled_icmp_set(ps).contains(rule) && icmp_key_matches(rule, flow));
    }
}

} // verus!
