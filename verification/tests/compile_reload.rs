//! The policy compiler and the transactional reload: documents become
//! exact key sets, and a reload never drops a flow that both documents
//! allow.

use furui::classify::Maps;
use furui::compile::compile_policies;
use furui::domain::{Communication, Container, Containers, Policies, Policy, Socket};
use furui::maps::{ContainerID, ContainerIP, PolicyKey, PortKey, PortVal};
use furui::reload::{apply_one, plan_reload, MapOp};
use furui::store::KeySet;
use furui::types::{IpAddress, IpProtocol, TcAction, TC_ACT_OK};
use furui::egress;

const C1: [u8; 12] = *b"0123456789ab";
const IP_C1: u32 = 0x0A00_0002;
const IP_ONE: u32 = 0x0101_0101;

fn comm(name: &str) -> [u8; 16] {
    let mut c = [0u8; 16];
    let b = name.as_bytes();
    c[..b.len()].copy_from_slice(b);
    c
}

fn container(name: &str, id: Option<&str>, ips: Vec<IpAddress>) -> Container {
    Container {
        id: id.map(|s| s.to_string()),
        name: name.to_string(),
        ip_addresses: Some(ips),
    }
}

fn one_socket_policy(process: &str, socket: Socket) -> Policies {
    Policies {
        policies: vec![Policy {
            container: container("web", Some("0123456789ab"), vec![]),
            communications: vec![Communication {
                process: Some(process.to_string()),
                sockets: vec![socket],
                icmp: vec![],
            }],
        }],
    }
}

fn contains_key(keys: &[PolicyKey], k: &PolicyKey) -> bool {
    keys.iter().any(|x| x.eq_key(k))
}

#[test]
fn compile_emits_socket_key() {
    let ps = one_socket_policy(
        "curl",
        Socket {
            protocol: IpProtocol::TCP,
            local_port: None,
            remote_ip: Some(IpAddress::V4(IP_ONE)),
            remote_port: None,
        },
    );
    let (keys, icmp_keys) = compile_policies(&ps);
    assert_eq!(keys.len(), 1);
    assert!(icmp_keys.is_empty());
    let expected = PolicyKey {
        container_id: C1,
        comm: comm("curl"),
        remote_ip: IP_ONE,
        remote_ipv6: [0u8; 16],
        local_port: 0,
        remote_port: 0,
        protocol: IpProtocol::TCP,
    };
    assert!(contains_key(&keys, &expected));
}

#[test]
fn compile_emits_privileged_key_for_unrestricted_communication() {
    let ps = Policies {
        policies: vec![Policy {
            container: container("web", Some("0123456789ab"), vec![]),
            communications: vec![Communication {
                process: Some("dns".to_string()),
                sockets: vec![],
                icmp: vec![],
            }],
        }],
    };
    let (keys, _) = compile_policies(&ps);
    assert_eq!(keys.len(), 1);
    let expected = PolicyKey {
        container_id: C1,
        comm: comm("dns"),
        remote_ip: 0,
        remote_ipv6: [0u8; 16],
        local_port: 0,
        remote_port: 0,
        protocol: IpProtocol::Default,
    };
    assert!(contains_key(&keys, &expected));
}

#[test]
fn compile_skips_unresolved_containers() {
    let ps = Policies {
        policies: vec![Policy {
            container: container("gone", None, vec![]),
            communications: vec![Communication {
                process: Some("curl".to_string()),
                sockets: vec![],
                icmp: vec![],
            }],
        }],
    };
    let (keys, icmp_keys) = compile_policies(&ps);
    assert!(keys.is_empty());
    assert!(icmp_keys.is_empty());
}

#[test]
fn set_container_id_resolves_names() {
    let mut containers = Containers::new();
    containers.add(container("web", Some("0123456789ab"), vec![]));
    let mut ps = Policies {
        policies: vec![
            Policy {
                container: container("web", None, vec![]),
                communications: vec![],
            },
            Policy {
                container: container("gone", Some("stale0000000"), vec![]),
                communications: vec![],
            },
        ],
    };
    ps.set_container_id(&containers);
    assert_eq!(ps.policies[0].container.id.as_deref(), Some("0123456789ab"));
    assert_eq!(ps.policies[1].container.id, None);
}

#[test]
fn compile_is_deterministic() {
    // Compiling the same in-memory document twice yields the same keys.
    let make = || {
        one_socket_policy(
            "curl",
            Socket {
                protocol: IpProtocol::TCP,
                local_port: Some(8080),
                remote_ip: None,
                remote_port: Some(443),
            },
        )
    };
    let (a, _) = compile_policies(&make());
    let (b, _) = compile_policies(&make());
    assert_eq!(a.len(), b.len());
    for k in &a {
        assert!(contains_key(&b, k));
    }
}

#[test]
fn reload_keeps_shared_flows_alive() {
    // Start with a policy allowing flow F; reload to one that allows F
    // and more.  At every step of the reload F still passes.
    let mut maps = Maps::new();
    maps.container
        .insert(ContainerIP::new(IpAddress::V4(IP_C1)), ContainerID::new(C1));
    maps.process.insert(
        PortKey { container_id: C1, port: 33000, proto: IpProtocol::TCP },
        PortVal { comm: comm("curl") },
    );

    let d1 = one_socket_policy(
        "curl",
        Socket {
            protocol: IpProtocol::TCP,
            local_port: None,
            remote_ip: Some(IpAddress::V4(IP_ONE)),
            remote_port: None,
        },
    );
    let (k1, _) = compile_policies(&d1);
    let (ops, _) = plan_reload(&KeySet::new(), &k1);
    // The initial load is itself a reload from the empty set.
    let mut fresh = Maps::new();
    std::mem::swap(&mut fresh.policy, &mut maps.policy);
    let mut policy = fresh.policy;
    for op in &ops {
        apply_one(&mut policy, op);
    }
    maps.policy = policy;

    let f = {
        let mut f = vec![0u8; 54];
        f[12] = 0x08;
        f[13] = 0x00;
        f[23] = 6;
        f[26..30].copy_from_slice(&IP_C1.to_be_bytes());
        f[30..34].copy_from_slice(&IP_ONE.to_be_bytes());
        f[34..36].copy_from_slice(&33000u16.to_be_bytes());
        f[36..38].copy_from_slice(&443u16.to_be_bytes());
        f
    };
    let (code, _) = egress::tcp_udp(&f, &maps);
    assert_eq!(code, TC_ACT_OK);

    // D2 allows F plus another local port rule.
    let mut d2 = d1;
    d2.policies[0].communications.push(Communication {
        process: Some("nginx".to_string()),
        sockets: vec![Socket {
            protocol: IpProtocol::TCP,
            local_port: Some(80),
            remote_ip: None,
            remote_port: None,
        }],
        icmp: vec![],
    });
    let (k2, _) = compile_policies(&d2);
    let (ops, split) = plan_reload(&maps.policy, &k2);
    assert!(split <= ops.len());
    for (step, op) in ops.iter().enumerate() {
        // Insertions come before removals, so the shared flow stays
        // allowed at every instant of the reload.
        if step < split {
            assert!(matches!(op, MapOp::Insert(_)));
        } else {
            assert!(matches!(op, MapOp::Remove(_)));
        }
        let mut policy = std::mem::replace(&mut maps.policy, KeySet::new());
        apply_one(&mut policy, op);
        maps.policy = policy;
        let (code, ev) = egress::tcp_udp(&f, &maps);
        assert_eq!(code, TC_ACT_OK);
        assert_eq!(ev.unwrap().action, TcAction::Pass);
    }

    // After the reload the new rule is live too.
    maps.process.insert(
        PortKey { container_id: C1, port: 80, proto: IpProtocol::TCP },
        PortVal { comm: comm("nginx") },
    );
    let mut g = vec![0u8; 54];
    g[12] = 0x08;
    g[13] = 0x00;
    g[23] = 6;
    g[26..30].copy_from_slice(&0xCB00_7109u32.to_be_bytes());
    g[30..34].copy_from_slice(&IP_C1.to_be_bytes());
    g[34..36].copy_from_slice(&52000u16.to_be_bytes());
    g[36..38].copy_from_slice(&80u16.to_be_bytes());
    let (code, _) = furui::ingress::tcp_udp(&g, &maps);
    assert_eq!(code, TC_ACT_OK);
}

#[test]
fn policy_map_save_replaces_rule_sets() {
    let d1 = one_socket_policy(
        "curl",
        Socket {
            protocol: IpProtocol::TCP,
            local_port: None,
            remote_ip: Some(IpAddress::V4(IP_ONE)),
            remote_port: None,
        },
    );
    let d2 = one_socket_policy(
        "nginx",
        Socket {
            protocol: IpProtocol::TCP,
            local_port: Some(80),
            remote_ip: None,
            remote_port: None,
        },
    );
    let mut pm = furui::writer::PolicyMap::new();
    pm.save(&d1);
    let (k1, _) = compile_policies(&d1);
    assert!(pm.map.contains(&k1[0]));
    pm.save(&d2);
    let (k2, _) = compile_policies(&d2);
    assert!(pm.map.contains(&k2[0]));
    assert!(!pm.map.contains(&k1[0]));
}

#[test]
fn reload_from_and_to_same_document_is_empty() {
    let d = one_socket_policy(
        "curl",
        Socket {
            protocol: IpProtocol::TCP,
            local_port: None,
            remote_ip: Some(IpAddress::V4(IP_ONE)),
            remote_port: None,
        },
    );
    let (k, _) = compile_policies(&d);
    let mut current = KeySet::new();
    let (ops, _) = plan_reload(&current, &k);
    for op in &ops {
        apply_one(&mut current, op);
    }
    let (ops, split) = plan_reload(&current, &k);
    assert_eq!(split, 0);
    assert!(ops.is_empty());
}
