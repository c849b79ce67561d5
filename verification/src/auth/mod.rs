//! Admin-console principals: roles, the permission catalogue, and password hashing.

pub mod password;
pub mod permissions;
