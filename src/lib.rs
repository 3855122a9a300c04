//! Daily WAN-traffic accounting for a home router: session-cookie handling,
//! extraction of the router's traffic counters from its status page, the
//! reset-tolerant daily ledger rule, and the sequencing of one run.
pub mod chars;
pub mod numeral;
pub mod error;
pub mod types;
pub mod session;
pub mod overview;
pub mod ledger;
pub mod run;
pub mod configuration;
