//! Rendering of audit events as text for the structured log: dotted-quad
//! IPv4 addresses, full-form hexadecimal IPv6 addresses, and NUL-
//! terminated byte strings such as comms and container identifiers.

use vstd::prelude::*;

use crate::event::{Egress6Event, Egress6IcmpEvent, EgressEvent, EgressIcmpEvent, Ingress6Event,
    Ingress6IcmpEvent, IngressEvent, IngressIcmpEvent};
use crate::types::IPV6_LEN;

verus! {

/// Relies on String::push: it appends exactly the one character to the
/// string.
pub assume_specification[ String::push ](s: &mut String, ch: char)
    ensures
        final(s)@ == old(s)@.push(ch),
;

/// The character of one decimal digit.
pub open spec fn dec_digit(d: u8) -> char {
    ((48 + d) as u8) as char
}

/// The character of one hexadecimal digit, lower case.
pub open spec fn hex_digit(d: u8) -> char {
    if d < 10 {
        ((48 + d) as u8) as char
    } else {
        ((87 + d) as u8) as char
    }
}

/// The decimal rendering of one byte, without leading zeros.
pub open spec fn dec_chars(n: u8) -> Seq<char> {
    if n < 10 {
        seq![dec_digit(n)]
    } else if n < 100 {
        seq![dec_digit(n / 10), dec_digit(n % 10)]
    } else {
        seq![dec_digit(n / 100), dec_digit((n / 10) % 10), dec_digit(n % 10)]
    }
}

/// The dotted-quad rendering of a host-order IPv4 address, most
/// significant octet first.
pub open spec fn ipv4_chars(ip: u32) -> Seq<char> {
    dec_chars((ip / 0x1000000) as u8) + seq!['.'] + dec_chars(((ip / 0x10000) % 256) as u8)
        + seq!['.'] + dec_chars(((ip / 256) % 256) as u8) + seq!['.'] + dec_chars((ip % 256) as u8)
}

/// One sixteen-bit group of an IPv6 address.
pub open spec fn ipv6_group(a: Seq<u8>, g: int) -> u16 {
    ((a[2 * g] as int) * 256 + (a[2 * g + 1] as int)) as u16
}

/// The four hexadecimal digits of one group.
pub open spec fn hex4_chars(g: u16) -> Seq<char> {
    seq![
        hex_digit((g / 0x1000) as u8),
        hex_digit(((g / 0x100) % 16) as u8),
        hex_digit(((g / 16) % 16) as u8),
        hex_digit((g % 16) as u8),
    ]
}

/// The first `n` colon-separated groups of an IPv6 address.
pub open spec fn ipv6_prefix_chars(a: Seq<u8>, n: int) -> Seq<char>
    decreases n,
{
    if n <= 0 {
        Seq::empty()
    } else if n == 1 {
        hex4_chars(ipv6_group(a, 0))
    } else {
        ipv6_prefix_chars(a, n - 1) + seq![':'] + hex4_chars(ipv6_group(a, n - 1))
    }
}

/// The full-form rendering of an IPv6 address: eight four-digit groups.
pub open spec fn ipv6_chars(a: Seq<u8>) -> Seq<char> {
    ipv6_prefix_chars(a, 8)
}

/// The number of bytes before the first NUL.
pub open spec fn nul_len(s: Seq<u8>) -> int
    decreases s.len(),
{
    if s.len() == 0 {
        0
    } else if s[0] == 0 {
        0
    } else {
        1 + nul_len(s.drop_first())
    }
}

/// The characters of a byte string up to its first NUL.
pub open spec fn bytes_chars(s: Seq<u8>) -> Seq<char> {
    Seq::new(nul_len(s) as nat, |i: int| s[i] as char)
}

/// A scan that saw no NUL among the first `i` bytes and stopped at a NUL
/// or the end has found the NUL length.
proof fn lemma_nul_len(s: Seq<u8>, i: int)
    requires
        0 <= i <= s.len(),
        forall|j: int| 0 <= j < i ==> s[j] != 0,
        i == s.len() || s[i] == 0,
    ensures
        nul_len(s) == i,
    decreases i,
{
    if s.len() > 0 {
        if i == 0 {
        } else {
            lemma_nul_len(s.drop_first(), i - 1);
        }
    }
}

/// Appends the decimal rendering of one byte.
fn push_dec(s: &mut String, n: u8)
    ensures
        final(s)@ == old(s)@ + dec_chars(n),
{
    if n >= 100 {
        s.push((48 + n / 100) as char);
        s.push((48 + (n / 10) % 10) as char);
        s.push((48 + n % 10) as char);
        proof {
            assert(final(s)@ =~= old(s)@ + dec_chars(n));
        }
    } else if n >= 10 {
        s.push((48 + n / 10) as char);
        s.push((48 + n % 10) as char);
        proof {
            assert(final(s)@ =~= old(s)@ + dec_chars(n));
        }
    } else {
        s.push((48 + n) as char);
        proof {
            assert(final(s)@ =~= old(s)@ + dec_chars(n));
        }
    }
}

/// Renders a host-order IPv4 address as a dotted quad.
pub fn ipv4_string(ip: u32) -> (r: String)
    ensures
        r@ == ipv4_chars(ip),
{
    let mut s = String::new();
    push_dec(&mut s, (ip / 0x1000000) as u8);
    s.push('.');
    push_dec(&mut s, ((ip / 0x10000) % 256) as u8);
    s.push('.');
    push_dec(&mut s, ((ip / 256) % 256) as u8);
    s.push('.');
    push_dec(&mut s, (ip % 256) as u8);
    proof {
        assert(s@ =~= ipv4_chars(ip));
    }
    s
}

/// Appends one hexadecimal digit.
fn push_hex(s: &mut String, d: u8)
    requires
        d < 16,
    ensures
        final(s)@ == old(s)@.push(hex_digit(d)),
{
    if d < 10 {
        s.push((48 + d) as char);
    } else {
        s.push((87 + d) as char);
    }
}

/// Appends the four hexadecimal digits of one group.
fn push_hex4(s: &mut String, g: u16)
    ensures
        final(s)@ == old(s)@ + hex4_chars(g),
{
    push_hex(s, (g / 0x1000) as u8);
    push_hex(s, ((g / 0x100) % 16) as u8);
    push_hex(s, ((g / 16) % 16) as u8);
    push_hex(s, (g % 16) as u8);
    proof {
        assert(final(s)@ =~= old(s)@ + hex4_chars(g));
    }
}

/// Renders an IPv6 address in its full form, eight four-digit groups
/// separated by colons.
pub fn ipv6_string(a: &[u8; IPV6_LEN]) -> (r: String)
    ensures
        r@ == ipv6_chars(a@),
{
    let mut s = String::new();
    let mut g: usize = 0;
    proof {
        assert(s@ =~= ipv6_prefix_chars(a@, 0));
    }
    while g < 8
        invariant
            0 <= g <= 8,
            s@ == ipv6_prefix_chars(a@, g as int),
        decreases 8 - g,
    {
        if g > 0 {
            s.push(':');
        }
        let group = (a[2 * g] as u16) * 256 + (a[2 * g + 1] as u16);
        proof {
            assert(group == ipv6_group(a@, g as int));
        }
        push_hex4(&mut s, group);
        proof {
            if g == 0 {
                assert(s@ =~= ipv6_prefix_chars(a@, 1));
            } else {
                assert(s@ =~= ipv6_prefix_chars(a@, g + 1));
            }
        }
        g += 1;
    }
    s
}

/// Renders a fixed byte string up to its first NUL, as comms and
/// container identifiers are stored.
pub fn bytes_string<const N: usize>(b: &[u8; N]) -> (r: String)
    ensures
        r@ == bytes_chars(b@),
{
    let mut s = String::new();
    let mut i: usize = 0;
    while i < N && b[i] != 0
        invariant
            0 <= i <= N,
            forall|j: int| 0 <= j < i ==> b@[j] != 0,
            s@ == Seq::new(i as nat, |j: int| b@[j] as char),
        decreases N - i,
    {
        s.push(b[i] as char);
        proof {
            assert(s@ =~= Seq::new((i + 1) as nat, |j: int| b@[j] as char));
        }
        i += 1;
    }
    proof {
        lemma_nul_len(b@, i as int);
        assert(s@ =~= bytes_chars(b@));
    }
    s
}

impl IngressEvent {
    pub fn src_addr(&self) -> (r: String)
        ensures
            r@ == ipv4_chars(self.saddr),
    {
        ipv4_string(self.saddr)
    }

    pub fn dst_addr(&self) -> (r: String)
        ensures
            r@ == ipv4_chars(self.daddr),
    {
        ipv4_string(self.daddr)
    }

    /// The container identifier as text.
    pub fn container_id(&self) -> (r: String)
        ensures
            r@ == bytes_chars(self.container_id@),
    {
        bytes_string(&self.container_id)
    }

    /// The owning process's comm as text.
    pub fn comm(&self) -> (r: String)
        ensures
            r@ == bytes_chars(self.comm@),
    {
        bytes_string(&self.comm)
    }
}

impl Ingress6Event {
    pub fn src_addr(&self) -> (r: String)
        ensures
            r@ == ipv6_chars(self.saddr@),
    {
        ipv6_string(&self.saddr)
    }

    pub fn dst_addr(&self) -> (r: String)
        ensures
            r@ == ipv6_chars(self.daddr@),
    {
        ipv6_string(&self.daddr)
    }

    /// The container identifier as text.
    pub fn container_id(&self) -> (r: String)
        ensures
            r@ == bytes_chars(self.container_id@),
    {
        bytes_string(&self.container_id)
    }

    /// The owning process's comm as text.
    pub fn comm(&self) -> (r: String)
        ensures
            r@ == bytes_chars(self.comm@),
    {
        bytes_string(&self.comm)
    }
}

impl IngressIcmpEvent {
    pub fn src_addr(&self) -> (r: String)
        ensures
            r@ == ipv4_chars(self.saddr),
    {
        ipv4_string(self.saddr)
    }

    pub fn dst_addr(&self) -> (r: String)
        ensures
            r@ == ipv4_chars(self.daddr),
    {
        ipv4_string(self.daddr)
    }

    /// The container identifier as text.
    pub fn container_id(&self) -> (r: String)
        ensures
            r@ == bytes_chars(self.container_id@),
    {
        bytes_string(&self.container_id)
    }
}

impl Ingress6IcmpEvent {
    pub fn src_addr(&self) -> (r: String)
        ensures
            r@ == ipv6_chars(self.saddr@),
    {
        ipv6_string(&self.saddr)
    }

    pub fn dst_addr(&self) -> (r: String)
        ensures
            r@ == ipv6_chars(self.daddr@),
    {
        ipv6_string(&self.daddr)
    }

    /// The container identifier as text.
    pub fn container_id(&self) -> (r: String)
        ensures
            r@ == bytes_chars(self.container_id@),
    {
        bytes_string(&self.container_id)
    }
}

impl EgressEvent {
    pub fn src_addr(&self) -> (r: String)
        ensures
            r@ == ipv4_chars(self.saddr),
    {
        ipv4_string(self.saddr)
    }

    pub fn dst_addr(&self) -> (r: String)
        ensures
            r@ == ipv4_chars(self.daddr),
    {
        ipv4_string(self.daddr)
    }

    /// The container identifier as text.
    pub fn container_id(&self) -> (r: String)
        ensures
            r@ == bytes_chars(self.container_id@),
    {
        bytes_string(&self.container_id)
    }

    /// The owning process's comm as text.
    pub fn comm(&self) -> (r: String)
        ensures
            r@ == bytes_chars(self.comm@),
    {
        bytes_string(&self.comm)
    }
}

impl Egress6Event {
    pub fn src_addr(&self) -> (r: String)
        ensures
            r@ == ipv6_chars(self.saddr@),
    {
        ipv6_string(&self.saddr)
    }

    pub fn dst_addr(&self) -> (r: String)
        ensures
            r@ == ipv6_chars(self.daddr@),
    {
        ipv6_string(&self.daddr)
    }

    /// The container identifier as text.
    pub fn container_id(&self) -> (r: String)
        ensures
            r@ == bytes_chars(self.container_id@),
    {
        bytes_string(&self.container_id)
    }

    /// The owning process's comm as text.
    pub fn comm(&self) -> (r: String)
        ensures
            r@ == bytes_chars(self.comm@),
    {
        bytes_string(&self.comm)
    }
}

impl EgressIcmpEvent {
    pub fn src_addr(&self) -> (r: String)
        ensures
            r@ == ipv4_chars(self.saddr),
    {
        ipv4_string(self.saddr)
    }

    pub fn dst_addr(&self) -> (r: String)
        ensures
            r@ == ipv4_chars(self.daddr),
    {
        ipv4_string(self.daddr)
    }

    /// The container identifier as text.
    pub fn container_id(&self) -> (r: String)
        ensures
            r@ == bytes_chars(self.container_id@),
    {
        bytes_string(&self.container_id)
    }
}

impl Egress6IcmpEvent {
    pub fn src_addr(&self) -> (r: String)
        ensures
            r@ == ipv6_chars(self.saddr@),
    {
        ipv6_string(&self.saddr)
    }

    pub fn dst_addr(&self) -> (r: String)
        ensures
            r@ == ipv6_chars(self.daddr@),
    {
        ipv6_string(&self.daddr)
    }

    /// The container identifier as text.
    pub fn container_id(&self) -> (r: String)
        ensures
            r@ == bytes_chars(self.container_id@),
    {
        bytes_string(&self.container_id)
    }
}

} // verus!
