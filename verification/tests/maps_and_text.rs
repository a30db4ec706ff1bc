//! The shared-map writers, the loader's attachment state, the frame
//! helpers and the text rendering of events.

use furui::{cleanup, ContainerRuntime, LogFormat, LogLevel, Options};
use furui::domain::{Container, Containers};
use furui::ebpf::Loader;
use furui::event::{Egress6Event, EgressEvent};
use furui::helpers::{eth_protocol, get_port, ip_protocol, ntohl, ntohs};
use furui::maps::{ContainerID, ContainerIP};
use furui::text::{bytes_string, ipv4_string, ipv6_string};
use furui::types::{
    EthProtocol, IcmpVersion, IpAddress, IpProtocol, TcAction, TC_ACT_OK, TC_ACT_SHOT,
};
use furui::writer::ContainerMap;

const C1: [u8; 12] = *b"0123456789ab";

fn container(name: &str, id: &str, ips: Vec<IpAddress>) -> Container {
    Container {
        id: Some(id.to_string()),
        name: name.to_string(),
        ip_addresses: Some(ips),
    }
}

#[test]
fn options_carry_their_fields() {
    let opt = Options {
        container_engine: ContainerRuntime::Docker,
        policy_path: "/etc/furui/policy".to_string(),
        log_level: LogLevel::Info,
        log_fmt: LogFormat::Text,
    };
    assert_eq!(opt.container_engine, ContainerRuntime::Docker);
    assert_eq!(opt.log_level, LogLevel::Info);
    assert_eq!(opt.log_fmt, LogFormat::Text);
    assert_eq!(opt.policy_path, "/etc/furui/policy");
}

#[test]
fn ntohs_swaps_bytes() {
    assert_eq!(ntohs(0x1234), 0x3412);
    assert_eq!(ntohs(0x0050), 0x5000);
    assert_eq!(ntohs(0), 0);
    assert_eq!(ntohs(0xFFFF), 0xFFFF);
}

#[test]
fn ntohl_reverses_bytes() {
    assert_eq!(ntohl(0x12345678), 0x78563412);
    assert_eq!(ntohl(0), 0);
    assert_eq!(ntohl(0x0A000002), 0x0200000A);
}

#[test]
fn eth_protocol_reads_ethertype() {
    let mut f = vec![0u8; 14];
    f[12] = 0x08;
    f[13] = 0x00;
    assert_eq!(eth_protocol(&f), EthProtocol::IP);
    f[12] = 0x86;
    f[13] = 0xDD;
    assert_eq!(eth_protocol(&f), EthProtocol::IPv6);
    f[12] = 0x08;
    f[13] = 0x06;
    assert_eq!(eth_protocol(&f), EthProtocol::Other);
    assert_eq!(eth_protocol(&vec![0u8; 4]), EthProtocol::Other);
}

#[test]
fn ip_protocol_reads_l4() {
    let mut f = vec![0u8; 34];
    f[12] = 0x08;
    f[13] = 0x00;
    f[23] = 17;
    assert_eq!(ip_protocol(&f), Ok(IpProtocol::UDP));
    f[23] = 1;
    assert_eq!(ip_protocol(&f), Ok(IpProtocol::ICMP));
    f.truncate(20);
    assert_eq!(ip_protocol(&f), Err(TC_ACT_SHOT));
    let arp = {
        let mut a = vec![0u8; 20];
        a[12] = 0x08;
        a[13] = 0x06;
        a
    };
    assert_eq!(ip_protocol(&arp), Err(TC_ACT_OK));
}

#[test]
fn get_port_reads_tcp_ports() {
    let mut f = vec![0u8; 54];
    f[12] = 0x08;
    f[13] = 0x00;
    f[23] = 6;
    f[34..36].copy_from_slice(&443u16.to_be_bytes());
    f[36..38].copy_from_slice(&80u16.to_be_bytes());
    assert_eq!(get_port(&f), Ok((443, 80)));
    f[23] = 1;
    assert_eq!(get_port(&f), Err(TC_ACT_OK));
    f[23] = 6;
    f.truncate(50);
    assert_eq!(get_port(&f), Err(TC_ACT_SHOT));
}

#[test]
fn container_map_save_is_idempotent() {
    let mut cm = ContainerMap::new();
    let mut registry = Containers::new();
    registry.add(container(
        "web",
        "0123456789ab",
        vec![IpAddress::V4(0x0A00_0002), IpAddress::V6([7u8; 16])],
    ));
    cm.save_id_with_ips(&registry);
    cm.save_id_with_ips(&registry);
    let v4 = ContainerIP::new(IpAddress::V4(0x0A00_0002));
    let v6 = ContainerIP::new(IpAddress::V6([7u8; 16]));
    let got = cm.map.get(&v4).expect("v4 entry present");
    assert_eq!(got.container_id, C1);
    let got = cm.map.get(&v6).expect("v6 entry present");
    assert_eq!(got.container_id, C1);
}

#[test]
fn container_map_remove_clears_all_ips() {
    let mut cm = ContainerMap::new();
    let c = container(
        "web",
        "0123456789ab",
        vec![IpAddress::V4(0x0A00_0002), IpAddress::V6([7u8; 16])],
    );
    let mut registry = Containers::new();
    registry.add(c.clone());
    cm.save_id_with_ips(&registry);
    cm.remove_id_from_ips(&c);
    assert!(cm.map.get(&ContainerIP::new(IpAddress::V4(0x0A00_0002))).is_none());
    assert!(cm.map.get(&ContainerIP::new(IpAddress::V6([7u8; 16]))).is_none());
    // Removing again changes nothing.
    cm.remove_id_from_ips(&c);
    assert!(cm.map.get(&ContainerIP::new(IpAddress::V4(0x0A00_0002))).is_none());
}

#[test]
fn loader_attach_detach_cleanup() {
    let mut loader = Loader::new();
    let id = ContainerID::new(C1);
    assert!(!loader.is_attached(&id));
    loader.attach(id);
    assert!(loader.is_attached(&id));
    loader.attach(id);
    loader.detach(&id);
    assert!(!loader.is_attached(&id));
    loader.attach(id);
    cleanup(&mut loader);
    assert!(!loader.is_attached(&id));
}

#[test]
fn ipv4_rendering() {
    assert_eq!(ipv4_string(0x0102_0304), "1.2.3.4");
    assert_eq!(ipv4_string(0x0A00_0002), "10.0.0.2");
    assert_eq!(ipv4_string(0xFFFF_FFFF), "255.255.255.255");
    assert_eq!(ipv4_string(0), "0.0.0.0");
}

#[test]
fn ipv6_rendering() {
    let mut a = [0u8; 16];
    a[0] = 0x20;
    a[1] = 0x01;
    a[2] = 0x0D;
    a[3] = 0xB8;
    a[15] = 0x01;
    assert_eq!(
        ipv6_string(&a),
        "2001:0db8:0000:0000:0000:0000:0000:0001"
    );
}

#[test]
fn comm_rendering_stops_at_nul() {
    let mut c = [0u8; 16];
    c[..5].copy_from_slice(b"nginx");
    assert_eq!(bytes_string(&c), "nginx");
    assert_eq!(bytes_string(&[0u8; 16]), "");
    assert_eq!(bytes_string(&C1), "0123456789ab");
}

#[test]
fn event_accessors_render_flow_identity() {
    let ev = EgressEvent {
        container_id: C1,
        saddr: 0x0A00_0002,
        daddr: 0x0101_0101,
        sport: 33000,
        dport: 443,
        family: EthProtocol::IP,
        protocol: IpProtocol::TCP,
        action: TcAction::Pass,
        comm: {
            let mut c = [0u8; 16];
            c[..4].copy_from_slice(b"curl");
            c
        },
    };
    assert_eq!(ev.src_addr(), "10.0.0.2");
    assert_eq!(ev.dst_addr(), "1.1.1.1");
    assert_eq!(ev.container_id(), "0123456789ab");
    assert_eq!(ev.comm(), "curl");

    let ev6 = Egress6Event {
        container_id: C1,
        saddr: [0u8; 16],
        daddr: [0xFFu8; 16],
        sport: 1,
        dport: 2,
        family: EthProtocol::IPv6,
        protocol: IpProtocol::UDP,
        action: TcAction::Drop,
        comm: [0u8; 16],
    };
    assert_eq!(
        ev6.src_addr(),
        "0000:0000:0000:0000:0000:0000:0000:0000"
    );
    assert_eq!(
        ev6.dst_addr(),
        "ffff:ffff:ffff:ffff:ffff:ffff:ffff:ffff"
    );
    let _ = IcmpVersion::V4;
}
