//! Container-aware network policy enforcement, modelled and verified.
//!
//! The crate models the packet-classification pipeline of a per-container
//! firewall: raw frames are decoded into flow identity, the owning container
//! is resolved by IP, the local process by port, and an allow-list policy is
//! searched with wildcard-aware precedence before a pass/drop verdict is
//! emitted together with an audit event.

use vstd::prelude::*;

pub mod classify;
pub mod compile;
pub mod domain;
pub mod ebpf;
pub mod egress;
pub mod event;
pub mod helpers;
pub mod ingress;
pub mod maps;
pub mod reload;
pub mod search;
pub mod store;
pub mod text;
pub mod types;
pub mod writer;

verus! {

/// Container runtime backing the enforcer.
#[derive(PartialEq, Eq, Structural, Debug, Clone)]
pub enum ContainerRuntime {
    Docker,
    KubernetesCri,
}

/// Verbosity of the enforcer's structured logging.
#[derive(PartialEq, Eq, Structural, Debug, Clone)]
pub enum LogLevel {
    Error,
    Warn,
    Info,
    Debug,
    Trace,
}

/// Output format of the enforcer's structured logging.
#[derive(PartialEq, Eq, Structural, Debug, Clone)]
pub enum LogFormat {
    Json,
    Text,
}

/// Start-up options of the enforcer.
#[derive(Debug, Clone)]
pub struct Options {
    pub container_engine: ContainerRuntime,
    pub policy_path: String,
    pub log_level: LogLevel,
    pub log_fmt: LogFormat,
}

/// Detaches every classifier program that is still attached, the
/// entrypoint the host invokes before a restart.
pub fn cleanup(loader: &mut ebpf::Loader)
    ensures
        final(loader).attached@ == Set::<maps::ContainerID>::empty(),
{
    loader.detach_programs();
}

} // verus!
