//! The userspace domain model: containers learned from the runtime and the
//! allow-list policy document resolved against them.

use vstd::prelude::*;
use vstd::string::StringSliceAdditionalSpecFns;

use crate::types::{IpAddress, CONTAINER_ID_LEN, TASK_COMM_LEN};

verus! {

/// The first `cap` bytes of a sequence, zero-padded to length `n`.
pub open spec fn padded_bytes(b: Seq<u8>, cap: int, n: int) -> Seq<u8> {
    Seq::new(
        n as nat,
        |i: int|
            if i < cap && i < b.len() {
                b[i]
            } else {
                0u8
            },
    )
}

/// The UTF-8 bytes of a string's characters.
pub open spec fn str_bytes(s: Seq<char>) -> Seq<u8> {
    vstd::utf8::encode_utf8(s)
}

/// Copies a string into a fixed byte array, truncated to `cap` bytes and
/// zero-padded.
fn string_to_padded<const N: usize>(s: &str, cap: usize) -> (r: [u8; N])
    requires
        cap <= N,
    ensures
        r@ == padded_bytes(s.spec_bytes(), cap as int, N as int),
{
    let bytes = s.as_bytes();
    let mut r = [0u8; N];
    let n = bytes.len();
    let mut i: usize = 0;
    while i < cap && i < n
        invariant
            cap <= N,
            n == bytes@.len(),
            0 <= i <= N,
            i <= n,
            i <= cap,
            r@.len() == N,
            forall|j: int| 0 <= j < i ==> r@[j] == bytes@[j],
            forall|j: int| i <= j < N ==> r@[j] == 0u8,
        decreases N - i,
    {
        r[i] = bytes[i];
        i += 1;
    }
    proof {
        assert(r@ =~= padded_bytes(bytes@, cap as int, N as int));
    }
    r
}

/// A container as the runtime reports it: identifier, name and the
/// addresses it owns.
#[derive(Debug, Clone)]
pub struct Container {
    pub id: Option<String>,
    pub name: String,
    pub ip_addresses: Option<Vec<IpAddress>>,
}

/// The identifier bytes of a container, zero when it has none.
pub open spec fn id_bytes_spec(id: Option<String>) -> Seq<u8> {
    match id {
        Some(s) => padded_bytes(str_bytes(s@), CONTAINER_ID_LEN as int, CONTAINER_ID_LEN as int),
        None => padded_bytes(Seq::<u8>::empty(), 0, CONTAINER_ID_LEN as int),
    }
}

impl Container {
    /// The fixed-width identifier the maps key on.
    pub fn id_bytes(&self) -> (r: [u8; CONTAINER_ID_LEN])
        ensures
            r@ == id_bytes_spec(self.id),
    {
        match &self.id {
            Some(s) => string_to_padded(s.as_str(), CONTAINER_ID_LEN),
            None => {
                let r = [0u8; CONTAINER_ID_LEN];
                proof {
                    assert(r@ =~= id_bytes_spec(self.id));
                }
                r
            },
        }
    }
}

/// The registry of live containers, the single authority policies resolve
/// names against.
pub struct Containers {
    pub list: Vec<Container>,
}

/// The identifier of the first listed container carrying the name.
pub open spec fn lookup_id_spec(cs: Seq<Container>, name: Seq<char>) -> Option<Seq<char>>
    decreases cs.len(),
{
    if cs.len() == 0 {
        None
    } else if cs[0].name@ == name && cs[0].id is Some {
        Some(cs[0].id->Some_0@)
    } else {
        lookup_id_spec(cs.drop_first(), name)
    }
}

impl Containers {
    /// An empty registry.
    pub fn new() -> (r: Containers)
        ensures
            r.list@.len() == 0,
    {
        Containers { list: Vec::new() }
    }

    /// Records one container.
    pub fn add(&mut self, c: Container)
        ensures
            final(self).list@ == old(self).list@.push(c),
    {
        self.list.push(c);
    }

    /// Resolves a container name to the identifier of the first live
    /// container that carries it.
    pub fn id_of(&self, name: &String) -> (r: Option<String>)
        ensures
            match r {
                Some(s) => lookup_id_spec(self.list@, name@) == Some(s@),
                None => lookup_id_spec(self.list@, name@) is None,
            },
    {
        let n = self.list.len();
        let mut i: usize = 0;
        proof {
            assert(self.list@.skip(0) =~= self.list@);
        }
        while i < n
            invariant
                n == self.list@.len(),
                0 <= i <= n,
                lookup_id_spec(self.list@, name@) == lookup_id_spec(
                    self.list@.skip(i as int),
                    name@,
                ),
            decreases n - i,
        {
            proof {
                assert(self.list@.skip(i as int)[0] == self.list@[i as int]);
                assert(self.list@.skip(i as int).drop_first() =~= self.list@.skip(i + 1));
            }
            let c = &self.list[i];
            if c.name == *name {
                match &c.id {
                    Some(id) => {
                        return Some(id.clone());
                    },
                    None => {},
                }
            }
            i += 1;
        }
        proof {
            assert(self.list@.skip(n as int) =~= Seq::<Container>::empty());
        }
        None
    }
}

/// One socket constraint of a communication: unspecified fields mean
/// "any".
#[derive(Debug, Clone)]
pub struct Socket {
    pub protocol: crate::types::IpProtocol,
    pub local_port: Option<u16>,
    pub remote_ip: Option<IpAddress>,
    pub remote_port: Option<u16>,
}

/// One ICMP constraint of a communication; an absent code means "any".
#[derive(Debug, Clone)]
pub struct ICMP {
    pub version: u8,
    pub icmp_type: u8,
    pub code: Option<u8>,
    pub remote_ip: Option<IpAddress>,
}

/// What one process of a container may do.  Empty `sockets` and `icmp`
/// mean the process may talk to anything.
#[derive(Debug, Clone)]
pub struct Communication {
    pub process: Option<String>,
    pub sockets: Vec<Socket>,
    pub icmp: Vec<ICMP>,
}

/// The comm bytes of a communication's process name: truncated to
/// fifteen bytes, zero-padded, all-zero when no process is named.
pub open spec fn comm_bytes_spec(process: Option<String>) -> Seq<u8> {
    match process {
        Some(s) => padded_bytes(str_bytes(s@), TASK_COMM_LEN - 1, TASK_COMM_LEN as int),
        None => padded_bytes(Seq::<u8>::empty(), 0, TASK_COMM_LEN as int),
    }
}

impl Communication {
    /// The fixed-width comm the policy keys carry.
    pub fn process(&self) -> (r: [u8; TASK_COMM_LEN])
        ensures
            r@ == comm_bytes_spec(self.process),
    {
        match &self.process {
            Some(s) => string_to_padded(s.as_str(), TASK_COMM_LEN - 1),
            None => {
                let r = [0u8; TASK_COMM_LEN];
                proof {
                    assert(r@ =~= comm_bytes_spec(self.process));
                }
                r
            },
        }
    }
}

/// One policy entry: a container name and what its processes may do.
#[derive(Debug, Clone)]
pub struct Policy {
    pub container: Container,
    pub communications: Vec<Communication>,
}

/// The in-memory allow-list document.
#[derive(Debug, Clone)]
pub struct Policies {
    pub policies: Vec<Policy>,
}

impl Policies {
    /// Re-resolves every policy's container name against the registry:
    /// a resolved name gets the container's identifier, an unresolved
    /// one clears it, and a policy without a name keeps what it had.
    pub fn set_container_id(&mut self, containers: &Containers)
        ensures
            final(self).policies@.len() == old(self).policies@.len(),
            forall|i: int|
                0 <= i < old(self).policies@.len() ==> {
                    let oldp = old(self).policies@[i];
                    let newp = #[trigger] final(self).policies@[i];
                    &&& newp.communications == oldp.communications
                    &&& newp.container.name == oldp.container.name
                    &&& newp.container.ip_addresses == oldp.container.ip_addresses
                    &&& (oldp.container.name@.len() == 0 ==> newp.container.id
                        == oldp.container.id)
                    &&& (oldp.container.name@.len() != 0 ==> match lookup_id_spec(
                        containers.list@,
                        oldp.container.name@,
                    ) {
                        Some(id) => newp.container.id matches Some(s) && s@ == id,
                        None => newp.container.id is None,
                    })
                },
    {
        let ghost orig = self.policies@;
        let mut rev: Vec<Policy> = Vec::new();
        proof {
            assert(orig.take(orig.len() as int) =~= orig);
        }
        while self.policies.len() > 0
            invariant
                rev@.len() + self.policies@.len() == orig.len(),
                self.policies@ == orig.take(self.policies@.len() as int),
                forall|j: int|
                    0 <= j < rev@.len() ==> resolved_policy(
                        orig[orig.len() - 1 - j],
                        #[trigger] rev@[j],
                        *containers,
                    ),
            decreases self.policies@.len(),
        {
            let ghost before = self.policies@;
            let p = self.policies.pop().unwrap();
            proof {
                assert(before == orig.take(before.len() as int));
                assert(p == orig[before.len() - 1]);
                assert(self.policies@ =~= orig.take(self.policies@.len() as int));
            }
            let new_id: Option<String> = if p.container.name.as_str().is_empty() {
                p.container.id
            } else {
                match containers.id_of(&p.container.name) {
                    Some(id) => Some(id),
                    None => None,
                }
            };
            let q = Policy {
                container: Container {
                    id: new_id,
                    name: p.container.name,
                    ip_addresses: p.container.ip_addresses,
                },
                communications: p.communications,
            };
            rev.push(q);
        }
        while rev.len() > 0
            invariant
                self.policies@.len() + rev@.len() == orig.len(),
                forall|j: int|
                    0 <= j < rev@.len() ==> resolved_policy(
                        orig[orig.len() - 1 - j],
                        #[trigger] rev@[j],
                        *containers,
                    ),
                forall|i: int|
                    0 <= i < self.policies@.len() ==> resolved_policy(
                        orig[i],
                        #[trigger] self.policies@[i],
                        *containers,
                    ),
            decreases rev@.len(),
        {
            let ghost nrev = rev@.len();
            let p = rev.pop().unwrap();
            proof {
                assert(p == rev@[nrev - 1 - (nrev - 1)] || true);
                assert(resolved_policy(orig[orig.len() - 1 - (nrev - 1)], p, *containers));
                assert(orig.len() - 1 - (nrev - 1) == self.policies@.len() as int);
            }
            self.policies.push(p);
        }
    }
}

/// The relation between a policy before and after name resolution.
pub open spec fn resolved_policy(oldp: Policy, newp: Policy, containers: Containers) -> bool {
    &&& newp.communications == oldp.communications
    &&& newp.container.name == oldp.container.name
    &&& newp.container.ip_addresses == oldp.container.ip_addresses
    &&& (oldp.container.name@.len() == 0 ==> newp.container.id == oldp.container.id)
    &&& (oldp.container.name@.len() != 0 ==> match lookup_id_spec(
        containers.list@,
        oldp.container.name@,
    ) {
        Some(id) => newp.container.id matches Some(s) && s@ == id,
        None => newp.container.id is None,
    })
}

} // verus!
