//! End-to-end classifier scenarios: frames built byte by byte, shared
//! maps filled as userspace would, verdicts and audit events checked.

use furui::classify::Maps;
use furui::maps::{ContainerID, ContainerIP, IcmpPolicyKey, PolicyKey, PortKey, PortVal};
use furui::types::{IcmpVersion, IpAddress, IpProtocol, TcAction, TC_ACT_OK, TC_ACT_SHOT};
use furui::{egress, ingress};

const C1: [u8; 12] = *b"0123456789ab";
const IP_C1: u32 = 0x0A00_0002; // 10.0.0.2
const IP_ONE: u32 = 0x0101_0101; // 1.1.1.1
const IP_TWO: u32 = 0x0101_0102; // 1.1.1.2

fn comm(name: &str) -> [u8; 16] {
    let mut c = [0u8; 16];
    let b = name.as_bytes();
    c[..b.len()].copy_from_slice(b);
    c
}

fn v4_tcp_frame(saddr: u32, daddr: u32, sport: u16, dport: u16) -> Vec<u8> {
    let mut f = vec![0u8; 54];
    f[12] = 0x08;
    f[13] = 0x00;
    f[23] = 6;
    f[26..30].copy_from_slice(&saddr.to_be_bytes());
    f[30..34].copy_from_slice(&daddr.to_be_bytes());
    f[34..36].copy_from_slice(&sport.to_be_bytes());
    f[36..38].copy_from_slice(&dport.to_be_bytes());
    f
}

fn v4_udp_frame(saddr: u32, daddr: u32, sport: u16, dport: u16) -> Vec<u8> {
    let mut f = vec![0u8; 42];
    f[12] = 0x08;
    f[13] = 0x00;
    f[23] = 17;
    f[26..30].copy_from_slice(&saddr.to_be_bytes());
    f[30..34].copy_from_slice(&daddr.to_be_bytes());
    f[34..36].copy_from_slice(&sport.to_be_bytes());
    f[36..38].copy_from_slice(&dport.to_be_bytes());
    f
}

fn v6_icmp_frame(saddr: [u8; 16], daddr: [u8; 16], type_: u8, code: u8) -> Vec<u8> {
    let mut f = vec![0u8; 62];
    f[12] = 0x86;
    f[13] = 0xDD;
    f[20] = 58;
    f[22..38].copy_from_slice(&saddr);
    f[38..54].copy_from_slice(&daddr);
    f[54] = type_;
    f[55] = code;
    f
}

fn maps_with_c1() -> Maps {
    let mut maps = Maps::new();
    maps.container
        .insert(ContainerIP::new(IpAddress::V4(IP_C1)), ContainerID::new(C1));
    maps
}

fn policy_key(
    comm_name: &str,
    remote_ip: u32,
    local_port: u16,
    remote_port: u16,
    protocol: IpProtocol,
) -> PolicyKey {
    PolicyKey {
        container_id: C1,
        comm: comm(comm_name),
        remote_ip,
        remote_ipv6: [0u8; 16],
        local_port,
        remote_port,
        protocol,
    }
}

#[test]
fn default_deny_egress() {
    // Empty policy: egress TCP 10.0.0.2:54321 -> 1.1.1.1:443 is dropped
    // with an audit event.
    let mut maps = maps_with_c1();
    maps.process.insert(
        PortKey { container_id: C1, port: 54321, proto: IpProtocol::TCP },
        PortVal { comm: comm("curl") },
    );
    let f = v4_tcp_frame(IP_C1, IP_ONE, 54321, 443);
    let (code, ev) = egress::tcp_udp(&f, &maps);
    assert_eq!(code, TC_ACT_SHOT);
    let ev = ev.expect("a drop event is emitted");
    assert_eq!(ev.action, TcAction::Drop);
    assert_eq!(ev.saddr, IP_C1);
    assert_eq!(ev.daddr, IP_ONE);
    assert_eq!(ev.sport, 54321);
    assert_eq!(ev.dport, 443);
}

#[test]
fn unknown_container_fails_closed() {
    // A source IP with no container entry returns SHOT without an event.
    let maps = Maps::new();
    let f = v4_tcp_frame(IP_C1, IP_ONE, 54321, 443);
    let (code, ev) = egress::tcp_udp(&f, &maps);
    assert_eq!(code, TC_ACT_SHOT);
    assert!(ev.is_none());
}

#[test]
fn unknown_port_drops_with_event() {
    // A known container without a listener on the port drops the packet.
    let maps = maps_with_c1();
    let f = v4_tcp_frame(IP_C1, IP_ONE, 54321, 443);
    let (code, ev) = egress::tcp_udp(&f, &maps);
    assert_eq!(code, TC_ACT_SHOT);
    let ev = ev.expect("a drop event is emitted");
    assert_eq!(ev.action, TcAction::Drop);
    assert_eq!(ev.comm, [0u8; 16]);
}

#[test]
fn port_only_rule_ingress() {
    // Policy {C1, nginx, TCP, local_port=80}; nginx listens on 80.
    let mut maps = maps_with_c1();
    maps.process.insert(
        PortKey { container_id: C1, port: 80, proto: IpProtocol::TCP },
        PortVal { comm: comm("nginx") },
    );
    maps.policy.insert(policy_key("nginx", 0, 80, 0, IpProtocol::TCP));
    let remote = 0xCB00_7109; // 203.0.113.9
    let pass = v4_tcp_frame(remote, IP_C1, 52000, 80);
    let (code, ev) = ingress::tcp_udp(&pass, &maps);
    assert_eq!(code, TC_ACT_OK);
    let ev = ev.expect("a pass event is emitted");
    assert_eq!(ev.action, TcAction::Pass);
    assert_eq!(ev.comm, comm("nginx"));

    // The same packet to port 81 is dropped.
    let drop = v4_tcp_frame(remote, IP_C1, 52000, 81);
    let (code, _) = ingress::tcp_udp(&drop, &maps);
    assert_eq!(code, TC_ACT_SHOT);
}

#[test]
fn remote_ip_wildcard_egress() {
    // Policy {C1, curl, TCP, remote_ip=1.1.1.1}: only that endpoint passes.
    let mut maps = maps_with_c1();
    maps.process.insert(
        PortKey { container_id: C1, port: 33000, proto: IpProtocol::TCP },
        PortVal { comm: comm("curl") },
    );
    maps.policy.insert(policy_key("curl", IP_ONE, 0, 0, IpProtocol::TCP));
    let pass = v4_tcp_frame(IP_C1, IP_ONE, 33000, 443);
    let (code, ev) = egress::tcp_udp(&pass, &maps);
    assert_eq!(code, TC_ACT_OK);
    assert_eq!(ev.unwrap().action, TcAction::Pass);

    let drop = v4_tcp_frame(IP_C1, IP_TWO, 33000, 443);
    let (code, ev) = egress::tcp_udp(&drop, &maps);
    assert_eq!(code, TC_ACT_SHOT);
    assert_eq!(ev.unwrap().action, TcAction::Drop);
}

#[test]
fn privileged_process_passes_everything() {
    // A policy item naming only the process lets it talk to anything.
    let mut maps = maps_with_c1();
    maps.process.insert(
        PortKey { container_id: C1, port: 5353, proto: IpProtocol::UDP },
        PortVal { comm: comm("dns") },
    );
    maps.process.insert(
        PortKey { container_id: C1, port: 9000, proto: IpProtocol::TCP },
        PortVal { comm: comm("dns") },
    );
    maps.policy.insert(policy_key("dns", 0, 0, 0, IpProtocol::Default));

    let udp = v4_udp_frame(IP_C1, IP_ONE, 5353, 53);
    let (code, ev) = egress::tcp_udp(&udp, &maps);
    assert_eq!(code, TC_ACT_OK);
    assert_eq!(ev.unwrap().action, TcAction::Pass);

    let tcp = v4_tcp_frame(IP_C1, IP_TWO, 9000, 443);
    let (code, ev) = egress::tcp_udp(&tcp, &maps);
    assert_eq!(code, TC_ACT_OK);
    assert_eq!(ev.unwrap().action, TcAction::Pass);
}

#[test]
fn icmpv6_neighbor_discovery_always_passes() {
    // Neighbor Solicitation and Advertisement pass whatever the policy.
    let maps = Maps::new(); // even with no containers and no rules
    let src = [0x11u8; 16];
    let dst = [0x22u8; 16];
    let (code, ev) = ingress::ipv6_icmp(&v6_icmp_frame(src, dst, 135, 0), &maps);
    assert_eq!(code, TC_ACT_OK);
    assert!(ev.is_none());
    let (code, _) = ingress::ipv6_icmp(&v6_icmp_frame(src, dst, 136, 0), &maps);
    assert_eq!(code, TC_ACT_OK);
    let (code, _) = egress::ipv6_icmp(&v6_icmp_frame(src, dst, 135, 0), &maps);
    assert_eq!(code, TC_ACT_OK);
}

#[test]
fn icmpv6_echo_without_rule_drops() {
    // An echo request (type 128) with no matching rule is dropped.
    let mut maps = Maps::new();
    let src = [0x11u8; 16];
    let dst = [0x22u8; 16];
    maps.container.insert(
        ContainerIP::new(IpAddress::V6(dst)),
        ContainerID::new(C1),
    );
    let (code, ev) = ingress::ipv6_icmp(&v6_icmp_frame(src, dst, 128, 0), &maps);
    assert_eq!(code, TC_ACT_SHOT);
    let ev = ev.expect("a drop event is emitted");
    assert_eq!(ev.action, TcAction::Drop);
    assert_eq!(ev.type_, 128);
    assert_eq!(ev.version, IcmpVersion::V6);
}

#[test]
fn icmpv6_rule_with_any_sentinels_passes() {
    // A rule with type and code 255 covers every echo.
    let mut maps = Maps::new();
    let src = [0x11u8; 16];
    let dst = [0x22u8; 16];
    maps.container.insert(
        ContainerIP::new(IpAddress::V6(dst)),
        ContainerID::new(C1),
    );
    maps.icmp_policy.insert(IcmpPolicyKey {
        container_id: C1,
        version: IcmpVersion::V6,
        type_: 255,
        code: 255,
        remote_ip: 0,
        remote_ipv6: [0u8; 16],
    });
    let (code, ev) = ingress::ipv6_icmp(&v6_icmp_frame(src, dst, 128, 0), &maps);
    assert_eq!(code, TC_ACT_OK);
    assert_eq!(ev.unwrap().action, TcAction::Pass);
}

#[test]
fn events_and_verdicts_agree() {
    // Every emitted event's action announces the returned code.
    let mut maps = maps_with_c1();
    maps.process.insert(
        PortKey { container_id: C1, port: 80, proto: IpProtocol::TCP },
        PortVal { comm: comm("nginx") },
    );
    maps.policy.insert(policy_key("nginx", 0, 80, 0, IpProtocol::TCP));
    let frames = [
        v4_tcp_frame(0xCB00_7109, IP_C1, 52000, 80),
        v4_tcp_frame(0xCB00_7109, IP_C1, 52000, 81),
        v4_tcp_frame(0xCB00_7109, IP_C1, 52000, 22),
    ];
    for f in frames.iter() {
        let (code, ev) = ingress::tcp_udp(f, &maps);
        if let Some(ev) = ev {
            assert_eq!(ev.action == TcAction::Pass, code == TC_ACT_OK);
            assert_eq!(ev.action == TcAction::Drop, code == TC_ACT_SHOT);
        }
    }
}

#[test]
fn non_ip_frames_are_not_ours() {
    // An ARP frame and a runt frame both pass untouched, with no event.
    let maps = Maps::new();
    let mut arp = vec![0u8; 60];
    arp[12] = 0x08;
    arp[13] = 0x06;
    let (code, ev) = egress::tcp_udp(&arp, &maps);
    assert_eq!(code, TC_ACT_OK);
    assert!(ev.is_none());
    let runt = vec![0u8; 6];
    let (code, ev) = ingress::tcp_udp(&runt, &maps);
    assert_eq!(code, TC_ACT_OK);
    assert!(ev.is_none());
}

#[test]
fn truncated_ip_frame_fails_closed() {
    // A frame that announces IPv4 but is too short for its headers drops.
    let maps = maps_with_c1();
    let mut f = v4_tcp_frame(IP_C1, IP_ONE, 54321, 443);
    f.truncate(40);
    let (code, ev) = egress::tcp_udp(&f, &maps);
    assert_eq!(code, TC_ACT_SHOT);
    assert!(ev.is_none());
}
