use vstd::prelude::*;

verus! {

/// What a run needs to know: where the router is, how to log in, and where
/// the ledger is kept.
#[derive(Debug)]
pub struct Configuration {
    pub base_url: String,
    pub username: String,
    pub password: String,
    pub database: String,
}

/// The default log filter for a verbosity level: warnings at 0, information
/// at 1, debugging from 2 on.
pub fn default_log_filter(verbosity: u64) -> (r: &'static str)
    ensures
        verbosity == 0 ==> r@ == "traffic_tracker=warn"@,
        verbosity == 1 ==> r@ == "traffic_tracker=info"@,
        verbosity >= 2 ==> r@ == "traffic_tracker=debug"@,
{
    match verbosity {
        0 => "traffic_tracker=warn",
        1 => "traffic_tracker=info",
        _ => "traffic_tracker=debug",
    }
}

} // verus!
