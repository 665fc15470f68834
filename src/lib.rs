//! Provisioning and teardown of per-challenge container instances: challenge
//! catalog, host keychains, deployment planning, record lifecycle and the
//! control surface's decisions.

pub mod text;
pub mod challenge;
pub mod keychain;
pub mod naming;
pub mod deploy;
pub mod lifecycle;
pub mod error;
pub mod scoring;
pub mod platform;
