//! Verified core of a node daemon that runs tenant JVMs inside cgroup v2
//! slices: tier sizing, identifier and request validation, cgroup file
//! contents, the tenant registry kept by the health watchdog, and the
//! text served by the HTTP API.

pub mod text;
pub mod error;
pub mod config;
pub mod paths;
pub mod cgroups;
pub mod jvm_forker;
pub mod table;
pub mod watchdog;
pub mod api;
