//! Core of a backend service that bridges an OIDC identity provider with a
//! platform issuing self-authenticating identities.  The library holds the
//! verified logic: JWT decoding and claim validation, principal derivation,
//! the delegation signature map, the certified certificate registry with its
//! two-level hash tree, the user directory with its uniqueness invariants,
//! and the persistent configuration.  Platform calls (time, randomness,
//! certified data, HTTPS fetches) are performed by the surrounding
//! application, which hands their results to the functions here as plain
//! values.

pub mod access_control;
pub mod cbor;
pub mod config;
pub mod api;
pub mod certificate;
pub mod certificate_service;
pub mod certificate_store;
pub mod crypto;
pub mod date_time;
pub mod delegation;
pub mod delegation_service;
pub mod hex;
pub mod jwk;
pub mod jwt;
pub mod laws;
pub mod principal;
pub mod strutil;
pub mod tree;
pub mod user;
pub mod uuid;
