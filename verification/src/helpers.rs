//! Frame decoding: network-to-host byte order and the Ethernet, IP and L4
//! header fields the classifier reads at fixed offsets.
//!
//! A frame that is not IP at all is not ours to police; a frame that
//! announces IP but is too short for the headers it promises is a decode
//! failure, which the classifier fails closed on.

use vstd::prelude::*;

use crate::types::{EthProtocol, IpProtocol, CONTAINER_ID_LEN, ETH_HDR_LEN, IPV6_HDR_LEN, IPV6_LEN,
    IP_HDR_LEN, TCP_HDR_LEN, TC_ACT_OK, TC_ACT_SHOT, UDP_HDR_LEN};

verus! {

/// A 16-bit value with its two bytes exchanged: network order read on a
/// little-endian machine.
pub open spec fn swap16(v: u16) -> u16 {
    (((v as int) % 256) * 256 + (v as int) / 256) as u16
}

/// A 32-bit value with its four bytes reversed.
pub open spec fn swap32(v: u32) -> u32 {
    (((v as int) % 256) * 16777216 + (((v as int) / 256) % 256) * 65536 + (((v as int) / 65536)
        % 256) * 256 + (v as int) / 16777216) as u32
}

/// Network-to-host conversion of a 16-bit field.
pub fn ntohs(value: u16) -> (r: u16)
    ensures
        r == swap16(value),
{
    (value % 256) * 256 + value / 256
}

/// Network-to-host conversion of a 32-bit field.
pub fn ntohl(value: u32) -> (r: u32)
    ensures
        r == swap32(value),
{
    (value % 256) * 16777216 + ((value / 256) % 256) * 65536 + ((value / 65536) % 256) * 256
        + value / 16777216
}

/// The big-endian 16-bit value at a byte offset.
pub open spec fn be16_at(f: Seq<u8>, i: int) -> u16 {
    ((f[i] as int) * 256 + (f[i + 1] as int)) as u16
}

/// The big-endian 32-bit value at a byte offset.
pub open spec fn be32_at(f: Seq<u8>, i: int) -> u32 {
    ((f[i] as int) * 16777216 + (f[i + 1] as int) * 65536 + (f[i + 2] as int) * 256 + (f[i
        + 3] as int)) as u32
}

/// Reads the big-endian 16-bit value at a byte offset.
pub fn read_be16(frame: &Vec<u8>, i: usize) -> (r: u16)
    requires
        i + 2 <= frame.len(),
    ensures
        r == be16_at(frame@, i as int),
{
    (frame[i] as u16) * 256 + (frame[i + 1] as u16)
}

/// Reads the big-endian 32-bit value at a byte offset.
pub fn read_be32(frame: &Vec<u8>, i: usize) -> (r: u32)
    requires
        i + 4 <= frame.len(),
    ensures
        r == be32_at(frame@, i as int),
{
    (frame[i] as u32) * 16777216 + (frame[i + 1] as u32) * 65536 + (frame[i + 2] as u32) * 256 + (
    frame[i + 3] as u32)
}

/// Copies the sixteen bytes at a byte offset, an IPv6 address.
pub fn read_addr16(frame: &Vec<u8>, i: usize) -> (r: [u8; IPV6_LEN])
    requires
        i + IPV6_LEN <= frame.len(),
    ensures
        r@ == frame@.subrange(i as int, i as int + IPV6_LEN),
{
    let mut r = [0u8; IPV6_LEN];
    let mut j: usize = 0;
    while j < IPV6_LEN
        invariant
            i + IPV6_LEN <= frame.len(),
            0 <= j <= IPV6_LEN,
            r@.len() == IPV6_LEN,
            forall|m: int| 0 <= m < j ==> r@[m] == frame@[i + m],
        decreases IPV6_LEN - j,
    {
        r[j] = frame[i + j];
        j += 1;
    }
    proof {
        assert(r@ =~= frame@.subrange(i as int, i as int + IPV6_LEN));
    }
    r
}

/// The L3 family a frame announces; too short for an Ethernet header
/// counts as not IP.
pub open spec fn eth_protocol_spec(f: Seq<u8>) -> EthProtocol {
    if f.len() < ETH_HDR_LEN {
        EthProtocol::Other
    } else {
        EthProtocol::from_eth_spec(be16_at(f, 12))
    }
}

/// Reads the EtherType and classifies the L3 family.
pub fn eth_protocol(frame: &Vec<u8>) -> (r: EthProtocol)
    ensures
        r == eth_protocol_spec(frame@),
{
    if frame.len() < ETH_HDR_LEN {
        EthProtocol::Other
    } else {
        EthProtocol::from_eth(read_be16(frame, 12))
    }
}

/// The L4 protocol of a frame, or the verdict to return: `TC_ACT_OK` for a
/// frame that is not IP, `TC_ACT_SHOT` for one too short for its IP header.
pub open spec fn ip_protocol_spec(f: Seq<u8>) -> Result<IpProtocol, i32> {
    match eth_protocol_spec(f) {
        EthProtocol::IP => {
            if f.len() < ETH_HDR_LEN + IP_HDR_LEN {
                Err(TC_ACT_SHOT)
            } else {
                Ok(IpProtocol::new_spec(f[ETH_HDR_LEN + 9]))
            }
        },
        EthProtocol::IPv6 => {
            if f.len() < ETH_HDR_LEN + IPV6_HDR_LEN {
                Err(TC_ACT_SHOT)
            } else {
                Ok(IpProtocol::new_spec(f[ETH_HDR_LEN + 6]))
            }
        },
        EthProtocol::Other => Err(TC_ACT_OK),
    }
}

/// Reads the IP `protocol` (v4) or `nexthdr` (v6) field.
pub fn ip_protocol(frame: &Vec<u8>) -> (r: Result<IpProtocol, i32>)
    ensures
        r == ip_protocol_spec(frame@),
{
    match eth_protocol(frame) {
        EthProtocol::IP => {
            if frame.len() < ETH_HDR_LEN + IP_HDR_LEN {
                Err(TC_ACT_SHOT)
            } else {
                Ok(IpProtocol::new(frame[ETH_HDR_LEN + 9]))
            }
        },
        EthProtocol::IPv6 => {
            if frame.len() < ETH_HDR_LEN + IPV6_HDR_LEN {
                Err(TC_ACT_SHOT)
            } else {
                Ok(IpProtocol::new(frame[ETH_HDR_LEN + 6]))
            }
        },
        EthProtocol::Other => Err(TC_ACT_OK),
    }
}

/// The source and destination L4 ports of a frame, or the verdict to
/// return: `TC_ACT_OK` when the frame carries neither TCP nor UDP,
/// `TC_ACT_SHOT` when it is too short for the header it promises.
pub open spec fn get_port_spec(f: Seq<u8>) -> Result<(u16, u16), i32> {
    let ip_hdr_len = if eth_protocol_spec(f) == EthProtocol::IP {
        IP_HDR_LEN
    } else {
        IPV6_HDR_LEN
    };
    if eth_protocol_spec(f) == EthProtocol::Other {
        Err(TC_ACT_OK)
    } else {
        match ip_protocol_spec(f) {
            Err(code) => Err(code),
            Ok(IpProtocol::TCP) => {
                if f.len() < ETH_HDR_LEN + ip_hdr_len + TCP_HDR_LEN {
                    Err(TC_ACT_SHOT)
                } else {
                    Ok(
                        (
                            be16_at(f, ETH_HDR_LEN + ip_hdr_len),
                            be16_at(f, ETH_HDR_LEN + ip_hdr_len + 2),
                        ),
                    )
                }
            },
            Ok(IpProtocol::UDP) => {
                if f.len() < ETH_HDR_LEN + ip_hdr_len + UDP_HDR_LEN {
                    Err(TC_ACT_SHOT)
                } else {
                    Ok(
                        (
                            be16_at(f, ETH_HDR_LEN + ip_hdr_len),
                            be16_at(f, ETH_HDR_LEN + ip_hdr_len + 2),
                        ),
                    )
                }
            },
            Ok(_) => Err(TC_ACT_OK),
        }
    }
}

/// Reads the L4 source and destination ports of a TCP or UDP frame.
pub fn get_port(frame: &Vec<u8>) -> (r: Result<(u16, u16), i32>)
    ensures
        r == get_port_spec(frame@),
{
    let ip_hdr_len: usize = match eth_protocol(frame) {
        EthProtocol::IP => IP_HDR_LEN,
        EthProtocol::IPv6 => IPV6_HDR_LEN,
        EthProtocol::Other => {
            return Err(TC_ACT_OK);
        },
    };
    match ip_protocol(frame) {
        Err(code) => Err(code),
        Ok(IpProtocol::TCP) => {
            if frame.len() < ETH_HDR_LEN + ip_hdr_len + TCP_HDR_LEN {
                Err(TC_ACT_SHOT)
            } else {
                Ok(
                    (
                        read_be16(frame, ETH_HDR_LEN + ip_hdr_len),
                        read_be16(frame, ETH_HDR_LEN + ip_hdr_len + 2),
                    ),
                )
            }
        },
        Ok(IpProtocol::UDP) => {
            if frame.len() < ETH_HDR_LEN + ip_hdr_len + UDP_HDR_LEN {
                Err(TC_ACT_SHOT)
            } else {
                Ok(
                    (
                        read_be16(frame, ETH_HDR_LEN + ip_hdr_len),
                        read_be16(frame, ETH_HDR_LEN + ip_hdr_len + 2),
                    ),
                )
            }
        },
        Ok(_) => Err(TC_ACT_OK),
    }
}

/// Some byte array has any given sixteen-byte sequence as its view.
pub proof fn lemma_arr16_exists(s: Seq<u8>)
    requires
        s.len() == IPV6_LEN,
    ensures
        exists|a: [u8; IPV6_LEN]| a@ == s,
{
    let a0: [u8; IPV6_LEN] = vstd::array::spec_array_fill_for_copy_type(0u8);
    let a1 = vstd::array::spec_array_update(a0, 0, s[0]);
    let a2 = vstd::array::spec_array_update(a1, 1, s[1]);
    let a3 = vstd::array::spec_array_update(a2, 2, s[2]);
    let a4 = vstd::array::spec_array_update(a3, 3, s[3]);
    let a5 = vstd::array::spec_array_update(a4, 4, s[4]);
    let a6 = vstd::array::spec_array_update(a5, 5, s[5]);
    let a7 = vstd::array::spec_array_update(a6, 6, s[6]);
    let a8 = vstd::array::spec_array_update(a7, 7, s[7]);
    let a9 = vstd::array::spec_array_update(a8, 8, s[8]);
    let a10 = vstd::array::spec_array_update(a9, 9, s[9]);
    let a11 = vstd::array::spec_array_update(a10, 10, s[10]);
    let a12 = vstd::array::spec_array_update(a11, 11, s[11]);
    let a13 = vstd::array::spec_array_update(a12, 12, s[12]);
    let a14 = vstd::array::spec_array_update(a13, 13, s[13]);
    let a15 = vstd::array::spec_array_update(a14, 14, s[14]);
    let a16 = vstd::array::spec_array_update(a15, 15, s[15]);
    assert(a16@ =~= s);
}

/// The byte array whose view is the given sixteen-byte sequence.
pub open spec fn seq_to_arr16(s: Seq<u8>) -> [u8; IPV6_LEN] {
    choose|a: [u8; IPV6_LEN]| a@ == s
}

/// For a sixteen-byte sequence the array exists, so the chosen one has
/// the sequence as its view.
pub proof fn lemma_seq_to_arr16(s: Seq<u8>)
    requires
        s.len() == IPV6_LEN,
    ensures
        seq_to_arr16(s)@ == s,
{
    lemma_arr16_exists(s);
}

/// Some byte array has any given twelve-byte sequence as its view.
pub proof fn lemma_arr12_exists(s: Seq<u8>)
    requires
        s.len() == CONTAINER_ID_LEN,
    ensures
        exists|a: [u8; CONTAINER_ID_LEN]| a@ == s,
{
    let a0: [u8; CONTAINER_ID_LEN] = vstd::array::spec_array_fill_for_copy_type(0u8);
    let a1 = vstd::array::spec_array_update(a0, 0, s[0]);
    let a2 = vstd::array::spec_array_update(a1, 1, s[1]);
    let a3 = vstd::array::spec_array_update(a2, 2, s[2]);
    let a4 = vstd::array::spec_array_update(a3, 3, s[3]);
    let a5 = vstd::array::spec_array_update(a4, 4, s[4]);
    let a6 = vstd::array::spec_array_update(a5, 5, s[5]);
    let a7 = vstd::array::spec_array_update(a6, 6, s[6]);
    let a8 = vstd::array::spec_array_update(a7, 7, s[7]);
    let a9 = vstd::array::spec_array_update(a8, 8, s[8]);
    let a10 = vstd::array::spec_array_update(a9, 9, s[9]);
    let a11 = vstd::array::spec_array_update(a10, 10, s[10]);
    let a12 = vstd::array::spec_array_update(a11, 11, s[11]);
    assert(a12@ =~= s);
}

/// The byte array whose view is the given twelve-byte sequence.
pub open spec fn seq_to_arr12(s: Seq<u8>) -> [u8; CONTAINER_ID_LEN] {
    choose|a: [u8; CONTAINER_ID_LEN]| a@ == s
}

/// For a twelve-byte sequence the array exists, so the chosen one has the
/// sequence as its view.
pub proof fn lemma_seq_to_arr12(s: Seq<u8>)
    requires
        s.len() == CONTAINER_ID_LEN,
    ensures
        seq_to_arr12(s)@ == s,
{
    lemma_arr12_exists(s);
}

} // verus!
