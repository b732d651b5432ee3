//! Verified core of a cross-transport tunnel.
//!
//! The tunnel mirrors publish-subscribe services of a host-local transport
//! onto a network-wide overlay and vice versa.  This crate holds the
//! transport-independent logic: derivation of overlay keys, the discovery
//! reconciliation that pairs every service with one outbound and one inbound
//! data stream, the byte-exact forwarding engine, and the announcement
//! protocol that serves a service's static descriptor to overlay queries.
//! An unverified driver owns the actual transport endpoints; it feeds
//! tracker snapshots and received samples in and carries the returned
//! actions out.

pub mod announce;
pub mod data_stream;
pub mod keys;
pub mod lifetime;
pub mod service;
pub mod text;
pub mod tunnel;
