//! The userspace writer of the container map: it records every address a
//! live container owns on start and withdraws them on stop.  Applying
//! the same container event twice leaves the map as one application
//! does.

use vstd::prelude::*;

use crate::compile::{compile_policies, compiled_icmp_set, compiled_set};
use crate::domain::{id_bytes_spec, Container, Containers, Policies};
use crate::helpers::{lemma_seq_to_arr12, seq_to_arr12};
use crate::maps::{ContainerID, ContainerIP, IcmpPolicyKey, PolicyKey};
use crate::reload::{apply_all, lemma_reload_reaches_target, plan_reload};
use crate::store::{AssocMap, KeySet};
use crate::types::{IpAddress, CONTAINER_ID_LEN};

verus! {

/// The map key of one address.
pub open spec fn ip_key(ip: IpAddress) -> ContainerIP {
    match ip {
        IpAddress::V4(v4) => ContainerIP {
            ip: v4,
            ipv6: vstd::array::spec_array_fill_for_copy_type(0u8),
        },
        IpAddress::V6(v6) => ContainerIP { ip: 0, ipv6: v6 },
    }
}

/// The identifier array of a container.
pub open spec fn id_arr_of(c: Container) -> [u8; CONTAINER_ID_LEN] {
    seq_to_arr12(id_bytes_spec(c.id))
}

/// The map entries one container's addresses contribute.
pub open spec fn ips_entries(
    cid: [u8; CONTAINER_ID_LEN],
    ips: Seq<IpAddress>,
) -> Map<ContainerIP, ContainerID>
    decreases ips.len(),
{
    if ips.len() == 0 {
        Map::empty()
    } else {
        ips_entries(cid, ips.drop_last()).insert(
            ip_key(ips.last()),
            ContainerID { container_id: cid },
        )
    }
}

/// The map entries one container contributes.
pub open spec fn container_entries(c: Container) -> Map<ContainerIP, ContainerID> {
    match c.ip_addresses {
        Some(ips) => ips_entries(id_arr_of(c), ips@),
        None => Map::empty(),
    }
}

/// The map entries a whole registry contributes, later containers
/// overriding earlier ones on a shared address.
pub open spec fn containers_entries(cs: Seq<Container>) -> Map<ContainerIP, ContainerID>
    decreases cs.len(),
{
    if cs.len() == 0 {
        Map::empty()
    } else {
        containers_entries(cs.drop_last()).union_prefer_right(container_entries(cs.last()))
    }
}

/// The keys of one container's addresses.
pub open spec fn container_ip_keys(c: Container) -> Set<ContainerIP> {
    match c.ip_addresses {
        Some(ips) => Set::new(
            |k: ContainerIP| exists|i: int| 0 <= i < ips@.len() && k == ip_key(#[trigger] ips@[i]),
        ),
        None => Set::empty(),
    }
}

/// The keys of the first `t` addresses of a list.
pub open spec fn ip_keys_prefix(ips: Seq<IpAddress>, t: int) -> Set<ContainerIP> {
    Set::new(|k: ContainerIP| exists|i: int| 0 <= i < t && k == ip_key(#[trigger] ips[i]))
}

/// Writer of the container-ID-from-IPs map.
pub struct ContainerMap {
    pub map: AssocMap<ContainerIP, ContainerID>,
}

impl ContainerMap {
    /// An empty map, as created at load.
    pub fn new() -> (r: ContainerMap)
        ensures
            r.map.wf(),
            r.map@ == Map::<ContainerIP, ContainerID>::empty(),
    {
        ContainerMap { map: AssocMap::new() }
    }

    /// Records, for every listed container, one entry per address it
    /// owns.  Recording the same registry again changes nothing more:
    /// the operation is idempotent.
    pub fn save_id_with_ips(&mut self, containers: &Containers)
        requires
            old(self).map.wf(),
            forall|i: int|
                0 <= i < containers.list@.len() ==> (#[trigger] containers.list@[i]).ip_addresses
                    is Some,
        ensures
            final(self).map.wf(),
            final(self).map@ == old(self).map@.union_prefer_right(
                containers_entries(containers.list@),
            ),
    {
        let nc = containers.list.len();
        let mut i: usize = 0;
        proof {
            assert(self.map@ =~= old(self).map@.union_prefer_right(
                containers_entries(containers.list@.take(0)),
            ));
        }
        while i < nc
            invariant
                self.map.wf(),
                nc == containers.list@.len(),
                forall|a: int|
                    0 <= a < containers.list@.len() ==> (#[trigger] containers.list@[a]).ip_addresses
                        is Some,
                0 <= i <= nc,
                self.map@ == old(self).map@.union_prefer_right(
                    containers_entries(containers.list@.take(i as int)),
                ),
            decreases nc - i,
        {
            let c = &containers.list[i];
            let cid = c.id_bytes();
            proof {
                lemma_seq_to_arr12(id_bytes_spec(c.id));
                assert(cid =~= id_arr_of(containers.list@[i as int]));
            }
            let id_val = ContainerID::new(cid);
            let ghost base = self.map@;
            let ips = match &c.ip_addresses {
                Some(ips) => ips,
                None => {
                    proof {
                        assert(false);
                    }
                    return ;
                },
            };
            let nip = ips.len();
            let mut j: usize = 0;
            proof {
                assert(ips_entries(cid, ips@.take(0)) =~= Map::<ContainerIP, ContainerID>::empty());
                assert(base.union_prefer_right(ips_entries(cid, ips@.take(0))) =~= base);
            }
            while j < nip
                invariant
                    self.map.wf(),
                    nip == ips@.len(),
                    id_val.container_id == cid,
                    0 <= j <= nip,
                    self.map@ == base.union_prefer_right(ips_entries(cid, ips@.take(j as int))),
                decreases nip - j,
            {
                let key = crate::maps::ContainerIP::new(ips[j]);
                proof {
                    assert(key.ipv6@ =~= ip_key(ips@[j as int]).ipv6@);
                    assert(key.ipv6 =~= ip_key(ips@[j as int]).ipv6);
                    assert(key =~= ip_key(ips@[j as int]));
                }
                self.map.insert(key, id_val);
                proof {
                    assert(ips@.take(j + 1).drop_last() =~= ips@.take(j as int));
                    assert(ips@.take(j + 1).last() == ips@[j as int]);
                    assert(self.map@ =~= base.union_prefer_right(
                        ips_entries(cid, ips@.take(j + 1)),
                    ));
                }
                j += 1;
            }
            proof {
                assert(ips@.take(nip as int) =~= ips@);
                assert(container_entries(containers.list@[i as int]) == ips_entries(cid, ips@));
                assert(containers.list@.take(i + 1).drop_last() =~= containers.list@.take(i as int));
                assert(containers.list@.take(i + 1).last() == containers.list@[i as int]);
                assert(self.map@ =~= old(self).map@.union_prefer_right(
                    containers_entries(containers.list@.take(i + 1)),
                ));
            }
            i += 1;
        }
        proof {
            assert(containers.list@.take(nc as int) =~= containers.list@);
        }
    }

    /// Withdraws every entry of one container's addresses, as on
    /// container stop.  Withdrawing them again changes nothing more.
    pub fn remove_id_from_ips(&mut self, container: &Container)
        requires
            old(self).map.wf(),
            container.ip_addresses is Some,
        ensures
            final(self).map.wf(),
            final(self).map@ == old(self).map@.remove_keys(container_ip_keys(*container)),
    {
        let ips = match &container.ip_addresses {
            Some(ips) => ips,
            None => {
                proof {
                    assert(false);
                }
                return ;
            },
        };
        let nip = ips.len();
        let mut j: usize = 0;
        proof {
            assert(self.map@ =~= old(self).map@.remove_keys(ip_keys_prefix(ips@, 0)));
        }
        while j < nip
            invariant
                self.map.wf(),
                nip == ips@.len(),
                container.ip_addresses == Some(*ips),
                0 <= j <= nip,
                self.map@ == old(self).map@.remove_keys(ip_keys_prefix(ips@, j as int)),
            decreases nip - j,
        {
            let key = crate::maps::ContainerIP::new(ips[j]);
            proof {
                assert(key.ipv6@ =~= ip_key(ips@[j as int]).ipv6@);
                assert(key.ipv6 =~= ip_key(ips@[j as int]).ipv6);
                assert(key =~= ip_key(ips@[j as int]));
            }
            self.map.remove(&key);
            proof {
                assert forall|k: ContainerIP| #[trigger]
                    ip_keys_prefix(ips@, j + 1).contains(k) <==> (ip_keys_prefix(
                        ips@,
                        j as int,
                    ).contains(k) || k == ip_key(ips@[j as int])) by {
                    if ip_keys_prefix(ips@, j + 1).contains(k) {
                        let a = choose|a: int| 0 <= a < j + 1 && k == ip_key(#[trigger] ips@[a]);
                        if a < j {
                            assert(ip_keys_prefix(ips@, j as int).contains(k));
                        }
                    }
                    if ip_keys_prefix(ips@, j as int).contains(k) {
                        let a = choose|a: int| 0 <= a < j && k == ip_key(#[trigger] ips@[a]);
                        assert(0 <= a < j + 1 && k == ip_key(ips@[a]));
                        assert(ip_keys_prefix(ips@, j + 1).contains(k));
                    }
                    if k == ip_key(ips@[j as int]) {
                        assert(ip_keys_prefix(ips@, j + 1).contains(k));
                    }
                }
                assert(self.map@ =~= old(self).map@.remove_keys(ip_keys_prefix(ips@, j + 1)));
            }
            j += 1;
        }
        proof {
            assert forall|k: ContainerIP| #[trigger]
                ip_keys_prefix(ips@, nip as int).contains(k) <==> container_ip_keys(
                    *container,
                ).contains(k) by {}
            assert(ip_keys_prefix(ips@, nip as int) =~= container_ip_keys(*container));
            assert(self.map@ =~= old(self).map@.remove_keys(container_ip_keys(*container)));
        }
    }
}

/// Container-start handling is idempotent: recording a registry's
/// entries a second time yields the same map state as recording them
/// once.
pub proof fn lemma_save_idempotent(m: Map<ContainerIP, ContainerID>, cs: Seq<Container>)
    ensures
        m.union_prefer_right(containers_entries(cs)).union_prefer_right(containers_entries(cs))
            == m.union_prefer_right(containers_entries(cs)),
{
    assert(m.union_prefer_right(containers_entries(cs)).union_prefer_right(containers_entries(cs))
        =~= m.union_prefer_right(containers_entries(cs)));
}

/// Container-stop handling is idempotent: withdrawing a container's
/// entries a second time yields the same map state as withdrawing them
/// once.
pub proof fn lemma_remove_idempotent(m: Map<ContainerIP, ContainerID>, c: Container)
    ensures
        m.remove_keys(container_ip_keys(c)).remove_keys(container_ip_keys(c)) == m.remove_keys(
            container_ip_keys(c),
        ),
{
    assert(m.remove_keys(container_ip_keys(c)).remove_keys(container_ip_keys(c)) =~= m.remove_keys(
        container_ip_keys(c),
    ));
}

/// Writer of the two policy maps.
pub struct PolicyMap {
    pub map: KeySet<PolicyKey>,
    pub icmp_map: KeySet<IcmpPolicyKey>,
}

impl PolicyMap {
    /// Empty policy maps, as created at load.
    pub fn new() -> (r: PolicyMap)
        ensures
            r.map@ == Set::<PolicyKey>::empty(),
            r.icmp_map@ == Set::<IcmpPolicyKey>::empty(),
    {
        PolicyMap { map: KeySet::new(), icmp_map: KeySet::new() }
    }

    /// Replaces the live rule sets by the document's compiled keys, as a
    /// transaction: every missing key is inserted before any stale key is
    /// removed, so no flow both documents allow is ever dropped.
    pub fn save(&mut self, policies: &Policies)
        ensures
            final(self).map@ == compiled_set(*policies),
            final(self).icmp_map@ == compiled_icmp_set(*policies),
    {
        let (keys, icmp_keys) = compile_policies(policies);
        let (ops, n) = plan_reload(&self.map, &keys);
        let ghost initial = self.map@;
        apply_all(&mut self.map, &ops);
        proof {
            lemma_reload_reaches_target(initial, keys@.to_set(), ops@, n as int);
        }
        let (icmp_ops, icmp_n) = plan_reload(&self.icmp_map, &icmp_keys);
        let ghost icmp_initial = self.icmp_map@;
        apply_all(&mut self.icmp_map, &icmp_ops);
        proof {
            lemma_reload_reaches_target(
                icmp_initial,
                icmp_keys@.to_set(),
                icmp_ops@,
                icmp_n as int,
            );
        }
    }
}

} // verus!
