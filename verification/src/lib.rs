//! A TCP port-availability probe, as a library of decisions.
//!
//! The crate holds everything about a scan that can be decided without
//! touching the network: which address is the target, which port may be
//! probed next under the admission limit, what a probe's ending means, which
//! ports count as open, and how the result is written down.  The caller
//! performs the connections and feeds their endings back.

pub mod decimal;
pub mod limiter;
pub mod report;
pub mod scan;
pub mod service;
pub mod target;
