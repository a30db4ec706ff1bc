//! The wildcard-aware policy-key search.
//!
//! The policy map holds exact-match keys whose zero fields mean "any".  A
//! packet's concrete key matches a rule when it equals the rule after
//! zeroing the same fields.  Because the in-kernel classifier cannot
//! iterate the map, it probes a bounded table of specializations of the
//! concrete key — one per subset of the maskable fields — in a fixed
//! precedence order: more-specific keys before less-specific ones, with
//! remote fields dropped before local fields before the process comm.

use vstd::prelude::*;

use crate::maps::{all_zero, IcmpPolicyKey, PolicyKey};
use crate::store::KeySet;
use crate::types::{IpProtocol, IPV6_LEN, TASK_COMM_LEN};

verus! {

/// Which maskable fields one specialization drops from the concrete key.
/// A dropped TCP/UDP field is zeroed.
#[derive(PartialEq, Eq, Structural, Debug, Clone, Copy)]
pub struct SearchMask {
    pub remote_port: bool,
    pub local_port: bool,
    pub protocol: bool,
    pub remote_addr: bool,
    pub comm: bool,
}

/// Position of a specialization in the probe order.  Dropping a field
/// raises the index by its weight, so a key that keeps strictly more
/// fields is always probed earlier.
pub open spec fn mask_index(m: SearchMask) -> int {
    (if m.remote_port {
        1int
    } else {
        0int
    }) + (if m.local_port {
        2int
    } else {
        0int
    }) + (if m.protocol {
        4int
    } else {
        0int
    }) + (if m.remote_addr {
        8int
    } else {
        0int
    }) + (if m.comm {
        16int
    } else {
        0int
    })
}

/// The specialization probed at one position.
pub open spec fn mask_of_index_spec(i: int) -> SearchMask {
    SearchMask {
        remote_port: i % 2 == 1,
        local_port: (i / 2) % 2 == 1,
        protocol: (i / 4) % 2 == 1,
        remote_addr: (i / 8) % 2 == 1,
        comm: (i / 16) % 2 == 1,
    }
}

/// Builds the specialization probed at one position.
pub fn mask_of_index(i: usize) -> (r: SearchMask)
    requires
        i < 32,
    ensures
        r == mask_of_index_spec(i as int),
{
    SearchMask {
        remote_port: i % 2 == 1,
        local_port: (i / 2) % 2 == 1,
        protocol: (i / 4) % 2 == 1,
        remote_addr: (i / 8) % 2 == 1,
        comm: (i / 16) % 2 == 1,
    }
}

/// The concrete key with the mask's fields dropped.
pub open spec fn specialize_spec(flow: PolicyKey, m: SearchMask) -> PolicyKey {
    PolicyKey {
        container_id: flow.container_id,
        comm: if m.comm {
            vstd::array::spec_array_fill_for_copy_type(0u8)
        } else {
            flow.comm
        },
        remote_ip: if m.remote_addr {
            0
        } else {
            flow.remote_ip
        },
        remote_ipv6: if m.remote_addr {
            vstd::array::spec_array_fill_for_copy_type(0u8)
        } else {
            flow.remote_ipv6
        },
        local_port: if m.local_port {
            0
        } else {
            flow.local_port
        },
        remote_port: if m.remote_port {
            0
        } else {
            flow.remote_port
        },
        protocol: if m.protocol {
            IpProtocol::Default
        } else {
            flow.protocol
        },
    }
}

/// Builds the specialization of a concrete key under a mask.
pub fn specialize(flow: &PolicyKey, m: &SearchMask) -> (r: PolicyKey)
    ensures
        r == specialize_spec(*flow, *m),
{
    PolicyKey {
        container_id: flow.container_id,
        comm: if m.comm {
            [0u8; TASK_COMM_LEN]
        } else {
            flow.comm
        },
        remote_ip: if m.remote_addr {
            0
        } else {
            flow.remote_ip
        },
        remote_ipv6: if m.remote_addr {
            [0u8; IPV6_LEN]
        } else {
            flow.remote_ipv6
        },
        local_port: if m.local_port {
            0
        } else {
            flow.local_port
        },
        remote_port: if m.remote_port {
            0
        } else {
            flow.remote_port
        },
        protocol: if m.protocol {
            IpProtocol::Default
        } else {
            flow.protocol
        },
    }
}

/// Wildcard match of a concrete TCP/UDP flow key against one rule: every
/// field of the rule is either the "any" marker or equal to the flow's.
pub open spec fn key_matches(rule: PolicyKey, flow: PolicyKey) -> bool {
    &&& rule.container_id == flow.container_id
    &&& (all_zero(rule.comm@) || rule.comm == flow.comm)
    &&& ((rule.remote_ip == 0 && all_zero(rule.remote_ipv6@)) || (rule.remote_ip == flow.remote_ip
        && rule.remote_ipv6 == flow.remote_ipv6))
    &&& (rule.local_port == 0 || rule.local_port == flow.local_port)
    &&& (rule.remote_port == 0 || rule.remote_port == flow.remote_port)
    &&& (rule.protocol == IpProtocol::Default || rule.protocol == flow.protocol)
}

/// A rule matches a flow exactly when the rule is one of the flow's
/// specializations, so probing every specialization decides the match.
pub proof fn lemma_specialization_complete(rule: PolicyKey, flow: PolicyKey)
    ensures
        key_matches(rule, flow) <==> exists|m: SearchMask| specialize_spec(flow, m) == rule,
{
    if key_matches(rule, flow) {
        let m = SearchMask {
            remote_port: rule.remote_port == 0,
            local_port: rule.local_port == 0,
            protocol: rule.protocol == IpProtocol::Default,
            remote_addr: rule.remote_ip == 0 && all_zero(rule.remote_ipv6@),
            comm: all_zero(rule.comm@),
        };
        let s = specialize_spec(flow, m);
        assert(s.comm =~= rule.comm);
        assert(s.remote_ipv6 =~= rule.remote_ipv6);
        assert(s =~= rule);
    }
    if exists|m: SearchMask| specialize_spec(flow, m) == rule {
        let m = choose|m: SearchMask| specialize_spec(flow, m) == rule;
        assert(key_matches(specialize_spec(flow, m), flow));
    }
}

/// Every mask stands at exactly one position of the probe table.
pub proof fn lemma_mask_index(m: SearchMask)
    ensures
        0 <= mask_index(m) < 32,
        mask_of_index_spec(mask_index(m)) == m,
{
}

/// Search precedence is total and respects specificity: when one
/// specialization keeps every field another keeps, and more, it stands
/// strictly earlier in the probe table.
pub proof fn lemma_search_precedence(a: SearchMask, b: SearchMask)
    requires
        a.remote_port ==> b.remote_port,
        a.local_port ==> b.local_port,
        a.protocol ==> b.protocol,
        a.remote_addr ==> b.remote_addr,
        a.comm ==> b.comm,
        a != b,
    ensures
        mask_index(a) < mask_index(b),
{
}

/// Probes every specialization of the concrete key, most specific first,
/// and reports whether any rule of the policy map matches the flow.
pub fn search_policy_key(policies: &KeySet<PolicyKey>, flow: &PolicyKey) -> (r: bool)
    ensures
        r <==> exists|rule: PolicyKey| #[trigger]
            policies@.contains(rule) && key_matches(rule, *flow),
{
    let mut i: usize = 0;
    while i < 32
        invariant
            0 <= i <= 32,
            forall|j: int|
                0 <= j < i ==> !policies@.contains(
                    #[trigger] specialize_spec(*flow, mask_of_index_spec(j)),
                ),
        decreases 32 - i,
    {
        let m = mask_of_index(i);
        let probe = specialize(flow, &m);
        if policies.contains(&probe) {
            proof {
                lemma_specialization_complete(probe, *flow);
            }
            return true;
        }
        i += 1;
    }
    proof {
        assert forall|rule: PolicyKey| #[trigger]
            policies@.contains(rule) implies !key_matches(rule, *flow) by {
            if key_matches(rule, *flow) {
                lemma_specialization_complete(rule, *flow);
                let m = choose|m: SearchMask| specialize_spec(*flow, m) == rule;
                lemma_mask_index(m);
                assert(!policies@.contains(specialize_spec(*flow, mask_of_index_spec(mask_index(m)))));
            }
        }
    }
    false
}

/// Which maskable fields one ICMP specialization drops.  A dropped type
/// or code becomes the sentinel 255; a dropped remote address is zeroed.
#[derive(PartialEq, Eq, Structural, Debug, Clone, Copy)]
pub struct IcmpSearchMask {
    pub code: bool,
    pub type_: bool,
    pub remote_addr: bool,
}

/// Position of an ICMP specialization in the probe order.
pub open spec fn icmp_mask_index(m: IcmpSearchMask) -> int {
    (if m.code {
        1int
    } else {
        0int
    }) + (if m.type_ {
        2int
    } else {
        0int
    }) + (if m.remote_addr {
        4int
    } else {
        0int
    })
}

/// The ICMP specialization probed at one position.
pub open spec fn icmp_mask_of_index_spec(i: int) -> IcmpSearchMask {
    IcmpSearchMask { code: i % 2 == 1, type_: (i / 2) % 2 == 1, remote_addr: (i / 4) % 2 == 1 }
}

/// Builds the ICMP specialization probed at one position.
pub fn icmp_mask_of_index(i: usize) -> (r: IcmpSearchMask)
    requires
        i < 8,
    ensures
        r == icmp_mask_of_index_spec(i as int),
{
    IcmpSearchMask { code: i % 2 == 1, type_: (i / 2) % 2 == 1, remote_addr: (i / 4) % 2 == 1 }
}

/// The concrete ICMP key with the mask's fields dropped.
pub open spec fn icmp_specialize_spec(flow: IcmpPolicyKey, m: IcmpSearchMask) -> IcmpPolicyKey {
    IcmpPolicyKey {
        container_id: flow.container_id,
        version: flow.version,
        type_: if m.type_ {
            255
        } else {
            flow.type_
        },
        code: if m.code {
            255
        } else {
            flow.code
        },
        remote_ip: if m.remote_addr {
            0
        } else {
            flow.remote_ip
        },
        remote_ipv6: if m.remote_addr {
            vstd::array::spec_array_fill_for_copy_type(0u8)
        } else {
            flow.remote_ipv6
        },
    }
}

/// Builds the specialization of a concrete ICMP key under a mask.
pub fn icmp_specialize(flow: &IcmpPolicyKey, m: &IcmpSearchMask) -> (r: IcmpPolicyKey)
    ensures
        r == icmp_specialize_spec(*flow, *m),
{
    IcmpPolicyKey {
        container_id: flow.container_id,
        version: flow.version,
        type_: if m.type_ {
            255
        } else {
            flow.type_
        },
        code: if m.code {
            255
        } else {
            flow.code
        },
        remote_ip: if m.remote_addr {
            0
        } else {
            flow.remote_ip
        },
        remote_ipv6: if m.remote_addr {
            [0u8; IPV6_LEN]
        } else {
            flow.remote_ipv6
        },
    }
}

/// Wildcard match of a concrete ICMP flow key against one rule: type and
/// code match through the sentinel 255, the remote address through zero.
pub open spec fn icmp_key_matches(rule: IcmpPolicyKey, flow: IcmpPolicyKey) -> bool {
    &&& rule.container_id == flow.container_id
    &&& rule.version == flow.version
    &&& (rule.type_ == 255 || rule.type_ == flow.type_)
    &&& (rule.code == 255 || rule.code == flow.code)
    &&& ((rule.remote_ip == 0 && all_zero(rule.remote_ipv6@)) || (rule.remote_ip == flow.remote_ip
        && rule.remote_ipv6 == flow.remote_ipv6))
}

/// An ICMP rule matches a flow exactly when the rule is one of the flow's
/// specializations.
pub proof fn lemma_icmp_specialization_complete(rule: IcmpPolicyKey, flow: IcmpPolicyKey)
    ensures
        icmp_key_matches(rule, flow) <==> exists|m: IcmpSearchMask|
            icmp_specialize_spec(flow, m) == rule,
{
    if icmp_key_matches(rule, flow) {
        let m = IcmpSearchMask {
            code: rule.code == 255,
            type_: rule.type_ == 255,
            remote_addr: rule.remote_ip == 0 && all_zero(rule.remote_ipv6@),
        };
        let s = icmp_specialize_spec(flow, m);
        assert(s.remote_ipv6 =~= rule.remote_ipv6);
        assert(s =~= rule);
    }
    if exists|m: IcmpSearchMask| icmp_specialize_spec(flow, m) == rule {
        let m = choose|m: IcmpSearchMask| icmp_specialize_spec(flow, m) == rule;
        assert(icmp_key_matches(icmp_specialize_spec(flow, m), flow));
    }
}

/// Every ICMP mask stands at exactly one position of the probe table.
pub proof fn lemma_icmp_mask_index(m: IcmpSearchMask)
    ensures
        0 <= icmp_mask_index(m) < 8,
        icmp_mask_of_index_spec(icmp_mask_index(m)) == m,
{
}

/// ICMP search precedence respects specificity as the TCP/UDP search does.
pub proof fn lemma_icmp_search_precedence(a: IcmpSearchMask, b: IcmpSearchMask)
    requires
        a.code ==> b.code,
        a.type_ ==> b.type_,
        a.remote_addr ==> b.remote_addr,
        a != b,
    ensures
        icmp_mask_index(a) < icmp_mask_index(b),
{
}

/// Probes every ICMP specialization, most specific first, and reports
/// whether any rule of the ICMP policy map matches the flow.
pub fn search_icmp_policy_key(policies: &KeySet<IcmpPolicyKey>, flow: &IcmpPolicyKey) -> (r: bool)
    ensures
        r <==> exists|rule: IcmpPolicyKey| #[trigger]
            policies@.contains(rule) && icmp_key_matches(rule, *flow),
{
    let mut i: usize = 0;
    while i < 8
        invariant
            0 <= i <= 8,
            forall|j: int|
                0 <= j < i ==> !policies@.contains(
                    #[trigger] icmp_specialize_spec(*flow, icmp_mask_of_index_spec(j)),
                ),
        decreases 8 - i,
    {
        let m = icmp_mask_of_index(i);
        let probe = icmp_specialize(flow, &m);
        if policies.contains(&probe) {
            proof {
                lemma_icmp_specialization_complete(probe, *flow);
            }
            return true;
        }
        i += 1;
    }
    proof {
        assert forall|rule: IcmpPolicyKey| #[trigger]
            policies@.contains(rule) implies !icmp_key_matches(rule, *flow) by {
            if icmp_key_matches(rule, *flow) {
                lemma_icmp_specialization_complete(rule, *flow);
                let m = choose|m: IcmpSearchMask| icmp_specialize_spec(*flow, m) == rule;
                lemma_icmp_mask_index(m);
                assert(!policies@.contains(
                    icmp_specialize_spec(*flow, icmp_mask_of_index_spec(icmp_mask_index(m))),
                ));
            }
        }
    }
    false
}

} // verus!
