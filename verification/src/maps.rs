//! Key and value records of the shared maps that link the classifier to
//! userspace: container-IP to container-ID, (container, port, proto) to
//! process comm, policy key to presence, ICMP policy key to presence.
//!
//! All records hold plain fixed-width values; a policy key's unspecified
//! fields are zero, which the search treats as "any".

use vstd::prelude::*;

use crate::store::MapKey;
use crate::types::{IcmpVersion, IpAddress, IpProtocol, CONTAINER_ID_LEN, IPV6_LEN, TASK_COMM_LEN};

verus! {

/// Compares two byte arrays for equality.
pub fn bytes_eq<const N: usize>(a: &[u8; N], b: &[u8; N]) -> (r: bool)
    ensures
        r <==> a@ == b@,
{
    let mut i: usize = 0;
    while i < N
        invariant
            0 <= i <= N,
            forall|j: int| 0 <= j < i ==> a@[j] == b@[j],
        decreases N - i,
    {
        if a[i] != b[i] {
            assert(a@[i as int] != b@[i as int]);
            return false;
        }
        i += 1;
    }
    assert(a@ =~= b@);
    true
}

/// True when every byte of the sequence is zero.
pub open spec fn all_zero(s: Seq<u8>) -> bool {
    forall|i: int| 0 <= i < s.len() ==> s[i] == 0
}

/// Key of the allow-list policy map.  The key's presence in the map means
/// "allow"; zero fields are wildcards matched by the key search.
#[derive(Debug, Clone, Copy)]
pub struct PolicyKey {
    pub container_id: [u8; CONTAINER_ID_LEN],
    pub comm: [u8; TASK_COMM_LEN],
    pub remote_ip: u32,
    pub remote_ipv6: [u8; IPV6_LEN],
    pub local_port: u16,
    pub remote_port: u16,
    pub protocol: IpProtocol,
}

impl PolicyKey {
    /// Field-by-field equality.
    pub fn eq_key(&self, other: &PolicyKey) -> (r: bool)
        ensures
            r <==> *self == *other,
    {
        let r = bytes_eq(&self.container_id, &other.container_id) && bytes_eq(
            &self.comm,
            &other.comm,
        ) && self.remote_ip == other.remote_ip && bytes_eq(&self.remote_ipv6, &other.remote_ipv6)
            && self.local_port == other.local_port && self.remote_port == other.remote_port
            && self.protocol == other.protocol;
        proof {
            if r {
                assert(self.container_id =~= other.container_id);
                assert(self.comm =~= other.comm);
                assert(self.remote_ipv6 =~= other.remote_ipv6);
                assert(*self =~= *other);
            }
        }
        r
    }
}

/// Key of the ICMP allow-list policy map.  Type and code 255 mean "any";
/// a zero remote address means "any".
#[derive(Debug, Clone, Copy)]
pub struct IcmpPolicyKey {
    pub container_id: [u8; CONTAINER_ID_LEN],
    pub version: IcmpVersion,
    pub type_: u8,
    pub code: u8,
    pub remote_ip: u32,
    pub remote_ipv6: [u8; IPV6_LEN],
}

impl IcmpPolicyKey {
    /// Field-by-field equality.
    pub fn eq_key(&self, other: &IcmpPolicyKey) -> (r: bool)
        ensures
            r <==> *self == *other,
    {
        let r = bytes_eq(&self.container_id, &other.container_id) && self.version == other.version
            && self.type_ == other.type_ && self.code == other.code && self.remote_ip
            == other.remote_ip && bytes_eq(&self.remote_ipv6, &other.remote_ipv6);
        proof {
            if r {
                assert(self.container_id =~= other.container_id);
                assert(self.remote_ipv6 =~= other.remote_ipv6);
                assert(*self =~= *other);
            }
        }
        r
    }
}

/// Marker value stored under a `PolicyKey`; its fields mirror the key's
/// non-container fields.
#[derive(Debug, Clone, Copy)]
pub struct PolicyValue {
    pub comm: [u8; TASK_COMM_LEN],
    pub remote_ip: u32,
    pub remote_ipv6: [u8; IPV6_LEN],
    pub local_port: u16,
    pub remote_port: u16,
    pub protocol: IpProtocol,
}

/// Marker value stored under an `IcmpPolicyKey`.
#[derive(Debug, Clone, Copy)]
pub struct IcmpPolicyValue {
    pub version: IcmpVersion,
    pub type_: u8,
    pub code: u8,
    pub remote_ip: u32,
    pub remote_ipv6: [u8; IPV6_LEN],
}

/// Key of the local-listener map: which process owns this port of this
/// container under this protocol.
#[derive(Debug, Clone, Copy)]
pub struct PortKey {
    pub container_id: [u8; CONTAINER_ID_LEN],
    pub port: u16,
    pub proto: IpProtocol,
}

impl PortKey {
    /// Field-by-field equality.
    pub fn eq_key(&self, other: &PortKey) -> (r: bool)
        ensures
            r <==> *self == *other,
    {
        let r = bytes_eq(&self.container_id, &other.container_id) && self.port == other.port
            && self.proto == other.proto;
        proof {
            if r {
                assert(self.container_id =~= other.container_id);
                assert(*self =~= *other);
            }
        }
        r
    }
}

/// Value of the local-listener map: the owning process's comm.
#[derive(Debug, Clone, Copy)]
pub struct PortVal {
    pub comm: [u8; TASK_COMM_LEN],
}

/// Key of the container map: exactly one of `ip` or `ipv6` is non-zero.
#[derive(Debug, Clone, Copy)]
pub struct ContainerIP {
    pub ip: u32,
    pub ipv6: [u8; IPV6_LEN],
}

impl ContainerIP {
    /// Builds the map key for one address a container owns.
    pub fn new(ip: IpAddress) -> (r: ContainerIP)
        ensures
            match ip {
                IpAddress::V4(v4) => r.ip == v4 && all_zero(r.ipv6@),
                IpAddress::V6(v6) => r.ip == 0 && r.ipv6 == v6,
            },
    {
        match ip {
            IpAddress::V4(v4) => ContainerIP { ip: v4, ipv6: [0u8; IPV6_LEN] },
            IpAddress::V6(v6) => ContainerIP { ip: 0, ipv6: v6 },
        }
    }

    /// Field-by-field equality.
    pub fn eq_key(&self, other: &ContainerIP) -> (r: bool)
        ensures
            r <==> *self == *other,
    {
        let r = self.ip == other.ip && bytes_eq(&self.ipv6, &other.ipv6);
        proof {
            if r {
                assert(self.ipv6 =~= other.ipv6);
                assert(*self =~= *other);
            }
        }
        r
    }
}

/// Value of the container map: the owning container's identifier.
#[derive(Debug, Clone, Copy)]
pub struct ContainerID {
    pub container_id: [u8; CONTAINER_ID_LEN],
}

impl ContainerID {
    pub fn new(id: [u8; CONTAINER_ID_LEN]) -> (r: ContainerID)
        ensures
            r.container_id == id,
    {
        ContainerID { container_id: id }
    }

    /// Field-by-field equality.
    pub fn eq_key(&self, other: &ContainerID) -> (r: bool)
        ensures
            r <==> *self == *other,
    {
        let r = bytes_eq(&self.container_id, &other.container_id);
        proof {
            if r {
                assert(self.container_id =~= other.container_id);
                assert(*self =~= *other);
            }
        }
        r
    }
}

impl MapKey for PolicyKey {
    fn same_key(&self, other: &Self) -> (r: bool) {
        self.eq_key(other)
    }
}

impl MapKey for IcmpPolicyKey {
    fn same_key(&self, other: &Self) -> (r: bool) {
        self.eq_key(other)
    }
}

impl MapKey for PortKey {
    fn same_key(&self, other: &Self) -> (r: bool) {
        self.eq_key(other)
    }
}

impl MapKey for ContainerIP {
    fn same_key(&self, other: &Self) -> (r: bool) {
        self.eq_key(other)
    }
}

impl MapKey for ContainerID {
    fn same_key(&self, other: &Self) -> (r: bool) {
        self.eq_key(other)
    }
}

} // verus!
