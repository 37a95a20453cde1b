//! Verified core of a DevOps integration hub: one error taxonomy, one retry
//! policy and one adapter contract over five outside services (a CI
//! platform, a build server, an identity server, a cluster and a
//! code-quality server).
//!
//! The library describes every request and reads every answer; sending and
//! receiving is left to its caller, which hands the answers back as plain
//! values.

pub mod adapter;
pub mod catalog;
pub mod errors;
pub mod gitlab;
pub mod http;
pub mod jenkins;
pub mod json;
pub mod keycloak;
pub mod kubernetes;
pub mod registry;
pub mod sonarqube;
pub mod text;
pub mod types;
