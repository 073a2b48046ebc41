//! A small family-website backend library. Its centerpiece is a
//! single-use confirmation-token subsystem: an authenticated, encrypted
//! token format (PASETO v4.local) combined with a server-side registry of
//! one-time redemption markers with per-key expiry. Everything here is
//! verified; calls into outside crates stand behind trusted wrappers whose
//! contracts state what those crates' sources show.

pub mod text;

pub mod types;

pub mod utils;

pub mod auth;

pub mod endpoints;

pub mod registry;

pub mod rfc3339;

pub mod security;

pub mod settings;
