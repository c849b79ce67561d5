//! Control-plane configuration and its defaults.

use crate::text::{is_blank, trim};
use vstd::prelude::*;

verus! {

/// Control-plane settings.
#[derive(Clone, Debug)]
pub struct ControlConfig {
    /// gRPC listen address.
    pub grpc_addr: String,
    /// HTTP console listen address.
    pub http_addr: String,
    /// Database URL (sqlite, mysql or postgres).
    pub database_url: String,
    /// Console superadmin user name.
    pub admin_username: String,
    /// Console superadmin password.
    pub admin_password: String,
    /// Directory holding the built console.
    pub web_dir: String,
    /// Log filter.
    pub log: String,
    /// Worker heartbeat timeout in seconds: a worker is unhealthy past it and
    /// reaped past twice it.
    pub heartbeat_timeout_secs: u64,
    /// Raft replication settings.
    pub raft: RaftConfig,
}

/// Raft replication settings. With no `addr` the node runs as a single-voter cluster.
#[derive(Clone, Debug)]
pub struct RaftConfig {
    /// This node's stable, unique Raft id.
    pub node_id: u64,
    /// Listen address for Raft traffic; empty for single-node mode.
    pub addr: String,
    /// Address peers use to reach this node; `addr` when empty.
    pub advertise_addr: String,
}

impl Default for RaftConfig {
    fn default() -> (r: Self)
        ensures
            r.node_id == 1,
            r.addr@ == Seq::<char>::empty(),
            r.advertise_addr@ == Seq::<char>::empty(),
    {
        RaftConfig { node_id: default_raft_node_id(), addr: String::new(), advertise_addr: String::new() }
    }
}

impl RaftConfig {
    /// Whether this node runs a Raft server: its address is not blank.
    pub fn is_cluster_mode(&self) -> (b: bool)
        ensures
            b == (trim(self.addr@).len() > 0),
    {
        !is_blank(self.addr.as_str())
    }

    /// The address advertised to peers: `advertise_addr`, or `addr` when that is blank.
    pub fn effective_advertise_addr(&self) -> (r: &str)
        ensures
            r@ == (if trim(self.advertise_addr@).len() == 0 { self.addr@ } else { self.advertise_addr@ }),
    {
        if is_blank(self.advertise_addr.as_str()) {
            self.addr.as_str()
        } else {
            self.advertise_addr.as_str()
        }
    }
}

impl Default for ControlConfig {
    fn default() -> (r: Self)
        ensures
            r.grpc_addr@ == "0.0.0.0:9090"@,
            r.http_addr@ == "0.0.0.0:9080"@,
            r.database_url@ == "sqlite://rustpbx-control.sqlite3"@,
            r.admin_username@ == "admin"@,
            r.admin_password@ == "admin"@,
            r.web_dir@ == "crates/rustpbx-control/web/dist"@,
            r.log@ == "info"@,
            r.heartbeat_timeout_secs == 30,
            r.raft.node_id == 1,
            r.raft.addr@ == Seq::<char>::empty(),
            r.raft.advertise_addr@ == Seq::<char>::empty(),
    {
        ControlConfig {
            grpc_addr: default_grpc_addr(),
            http_addr: default_http_addr(),
            database_url: default_database_url(),
            admin_username: default_admin_username(),
            admin_password: default_admin_password(),
            web_dir: default_web_dir(),
            log: default_log(),
            heartbeat_timeout_secs: default_heartbeat_timeout_secs(),
            raft: RaftConfig::default(),
        }
    }
}

pub fn default_grpc_addr() -> (r: String)
    ensures
        r@ == "0.0.0.0:9090"@,
{
    "0.0.0.0:9090".to_string()
}

pub fn default_http_addr() -> (r: String)
    ensures
        r@ == "0.0.0.0:9080"@,
{
    "0.0.0.0:9080".to_string()
}

pub fn default_database_url() -> (r: String)
    ensures
        r@ == "sqlite://rustpbx-control.sqlite3"@,
{
    "sqlite://rustpbx-control.sqlite3".to_string()
}

pub fn default_admin_username() -> (r: String)
    ensures
        r@ == "admin"@,
{
    "admin".to_string()
}

pub fn default_admin_password() -> (r: String)
    ensures
        r@ == "admin"@,
{
    "admin".to_string()
}

pub fn default_web_dir() -> (r: String)
    ensures
        r@ == "crates/rustpbx-control/web/dist"@,
{
    "crates/rustpbx-control/web/dist".to_string()
}

pub fn default_log() -> (r: String)
    ensures
        r@ == "info"@,
{
    "info".to_string()
}

pub fn default_heartbeat_timeout_secs() -> (r: u64)
    ensures
        r == 30,
{
    30
}

pub fn default_raft_node_id() -> (r: u64)
    ensures
        r == 1,
{
    1
}

} // verus!
