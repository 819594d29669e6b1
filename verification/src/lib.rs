//! Verified core of a deployment dashboard: next-version inference from image
//! tags, compose-document patching, the signed request protocol of a remote
//! host-management API, and the ten-stage deployment pipeline that ties them
//! together. Network and container-engine I/O live outside this crate; the
//! library computes requests, decodes responses, and decides every step.

pub mod client;
pub mod compose;
pub mod deployments;
pub mod envelope;
pub mod models;
pub mod pipeline;
pub mod search;
pub mod signing;
pub mod text;
pub mod version;
