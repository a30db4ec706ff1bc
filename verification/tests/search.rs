//! The wildcard-aware key search on concrete policy sets.

use furui::maps::{IcmpPolicyKey, PolicyKey};
use furui::search::{search_icmp_policy_key, search_policy_key};
use furui::store::KeySet;
use furui::types::{IcmpVersion, IpProtocol};

const C1: [u8; 12] = *b"0123456789ab";
const C2: [u8; 12] = *b"ba9876543210";

fn comm(name: &str) -> [u8; 16] {
    let mut c = [0u8; 16];
    let b = name.as_bytes();
    c[..b.len()].copy_from_slice(b);
    c
}

fn key(
    cid: [u8; 12],
    comm_name: &str,
    remote_ip: u32,
    local_port: u16,
    remote_port: u16,
    protocol: IpProtocol,
) -> PolicyKey {
    PolicyKey {
        container_id: cid,
        comm: comm(comm_name),
        remote_ip,
        remote_ipv6: [0u8; 16],
        local_port,
        remote_port,
        protocol,
    }
}

fn flow(cid: [u8; 12], comm_name: &str, remote_ip: u32, local_port: u16, remote_port: u16) -> PolicyKey {
    key(cid, comm_name, remote_ip, local_port, remote_port, IpProtocol::TCP)
}

#[test]
fn exact_rule_matches_only_its_flow() {
    let mut set: KeySet<PolicyKey> = KeySet::new();
    set.insert(key(C1, "curl", 0x0101_0101, 33000, 443, IpProtocol::TCP));
    assert!(search_policy_key(&set, &flow(C1, "curl", 0x0101_0101, 33000, 443)));
    assert!(!search_policy_key(&set, &flow(C1, "curl", 0x0101_0101, 33000, 444)));
    assert!(!search_policy_key(&set, &flow(C1, "curl", 0x0101_0102, 33000, 443)));
    assert!(!search_policy_key(&set, &flow(C1, "wget", 0x0101_0101, 33000, 443)));
    assert!(!search_policy_key(&set, &flow(C2, "curl", 0x0101_0101, 33000, 443)));
}

#[test]
fn zero_fields_are_wildcards() {
    let mut set: KeySet<PolicyKey> = KeySet::new();
    // Only the local port is pinned.
    set.insert(key(C1, "nginx", 0, 80, 0, IpProtocol::TCP));
    assert!(search_policy_key(&set, &flow(C1, "nginx", 0x0101_0101, 80, 52000)));
    assert!(search_policy_key(&set, &flow(C1, "nginx", 0x7F00_0001, 80, 1)));
    assert!(!search_policy_key(&set, &flow(C1, "nginx", 0x0101_0101, 81, 52000)));
}

#[test]
fn comm_wildcard_matches_any_process() {
    let mut set: KeySet<PolicyKey> = KeySet::new();
    // A rule with a zero comm matches whatever process owns the port.
    set.insert(key(C1, "", 0, 80, 0, IpProtocol::TCP));
    assert!(search_policy_key(&set, &flow(C1, "nginx", 0x0101_0101, 80, 52000)));
    assert!(search_policy_key(&set, &flow(C1, "caddy", 0x0101_0101, 80, 52000)));
}

#[test]
fn protocol_wildcard_matches_tcp_and_udp() {
    let mut set: KeySet<PolicyKey> = KeySet::new();
    set.insert(key(C1, "dns", 0, 0, 53, IpProtocol::Default));
    let tcp = key(C1, "dns", 0x0101_0101, 40000, 53, IpProtocol::TCP);
    let udp = key(C1, "dns", 0x0101_0101, 40000, 53, IpProtocol::UDP);
    assert!(search_policy_key(&set, &tcp));
    assert!(search_policy_key(&set, &udp));
}

#[test]
fn two_matching_rules_still_allow() {
    let mut set: KeySet<PolicyKey> = KeySet::new();
    set.insert(key(C1, "curl", 0x0101_0101, 33000, 443, IpProtocol::TCP));
    set.insert(key(C1, "curl", 0, 0, 0, IpProtocol::Default));
    assert!(search_policy_key(&set, &flow(C1, "curl", 0x0101_0101, 33000, 443)));
    // Inserting the same key twice keeps the set a set.
    set.insert(key(C1, "curl", 0, 0, 0, IpProtocol::Default));
    assert!(search_policy_key(&set, &flow(C1, "curl", 0x0202_0202, 1, 2)));
}

#[test]
fn empty_set_matches_nothing() {
    let set: KeySet<PolicyKey> = KeySet::new();
    assert!(!search_policy_key(&set, &flow(C1, "curl", 0x0101_0101, 33000, 443)));
}

fn icmp_key(cid: [u8; 12], type_: u8, code: u8, remote_ip: u32) -> IcmpPolicyKey {
    IcmpPolicyKey {
        container_id: cid,
        version: IcmpVersion::V4,
        type_,
        code,
        remote_ip,
        remote_ipv6: [0u8; 16],
    }
}

#[test]
fn icmp_sentinels_mean_any() {
    let mut set: KeySet<IcmpPolicyKey> = KeySet::new();
    set.insert(icmp_key(C1, 8, 255, 0));
    assert!(search_icmp_policy_key(&set, &icmp_key(C1, 8, 0, 0x0101_0101)));
    assert!(search_icmp_policy_key(&set, &icmp_key(C1, 8, 7, 0x0202_0202)));
    assert!(!search_icmp_policy_key(&set, &icmp_key(C1, 0, 0, 0x0101_0101)));
}

#[test]
fn icmp_remote_pin_holds() {
    let mut set: KeySet<IcmpPolicyKey> = KeySet::new();
    set.insert(icmp_key(C1, 8, 0, 0x0101_0101));
    assert!(search_icmp_policy_key(&set, &icmp_key(C1, 8, 0, 0x0101_0101)));
    assert!(!search_icmp_policy_key(&set, &icmp_key(C1, 8, 0, 0x0101_0102)));
}

#[test]
fn removal_withdraws_the_rule() {
    let mut set: KeySet<PolicyKey> = KeySet::new();
    let k = key(C1, "curl", 0x0101_0101, 0, 0, IpProtocol::TCP);
    set.insert(k);
    assert!(search_policy_key(&set, &flow(C1, "curl", 0x0101_0101, 33000, 443)));
    set.remove(&k);
    assert!(!search_policy_key(&set, &flow(C1, "curl", 0x0101_0101, 33000, 443)));
}
