//! Verified core of a periodic container-image vulnerability scanner.
//!
//! The library models the orchestration logic: image identity and
//! digest-based deduplication, multi-host inventory aggregation with
//! per-host failure isolation, scanner invocation setup and exit-code
//! classification, notification template rendering, and cron-driven
//! scheduling with serialized runs. The external collaborators (the
//! container runtime API, the scanner and sender subprocesses, the
//! clock) are driven by a thin unverified shell around this crate.

pub mod host;
pub mod image;
pub mod inventory;
pub mod notify;
pub mod scan;
pub mod sched;
pub mod text;
