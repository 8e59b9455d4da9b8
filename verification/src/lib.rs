//! A verified core for a host reconnaissance engine: port-sweep planning and
//! aggregation, adaptive rate control, service-fingerprint matching, and
//! multi-signal operating-system estimation.
//!
//! Network probing itself (connecting, reading banners, sending datagrams) is
//! left to the caller; this crate holds the decisions and computations that
//! drive a scan, each with a proved contract.

pub mod os_detector;
pub mod pattern;
pub mod ping;
pub mod rate_controller;
pub mod scanner;
pub mod service_detector;
pub mod service_fingerprints;
pub mod text;
