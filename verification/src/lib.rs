//! Verified core of a multi-tenant PBX control plane.

pub mod access;
pub mod audit;
pub mod auth;
pub mod cloud_api;
pub mod config;
pub mod control_plane;
pub mod dids;
pub mod internal;
pub mod json;
pub mod migration;
pub mod policy;
pub mod routing;
pub mod seqs;
pub mod sessions;
pub mod settings;
pub mod sorted_map;
pub mod store;
pub mod stun;
pub mod tenant;
pub mod tenant_users;
pub mod tenants;
pub mod text;
pub mod worker_registry;
pub mod raft;
