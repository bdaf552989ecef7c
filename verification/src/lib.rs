//! A concurrent TCP port scanner's verified core: work distribution over a
//! port range, the per-worker probe state machine, service-name lookup, and
//! classification of a target host as an IP literal or a name for DNS.
//!
//! All networking, threading and presentation live outside this crate; the
//! logic here is pure and carries contracts.

pub mod distributor;
pub mod resolve;
pub mod scan;
pub mod service;
pub mod worker;
