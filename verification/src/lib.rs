//! Capability-token authorization engine and profile-scoped content
//! resolution for a statically generated website.
//!
//! The crate verifies the decision logic of a gateway that fronts a
//! generated site with per-page, per-profile read authorization: tokens
//! carry `profile` grants, pages declare which profiles may read them,
//! and the gateway intersects the two for every request.

pub mod admin;
pub mod authz;
pub mod cache;
pub mod codec;
pub mod content;
pub mod matching;
pub mod pages;
pub mod refresh;
pub mod resolver;
pub mod sidecar;
pub mod source;
pub mod strings;
pub mod tokens;
pub mod website_id;
