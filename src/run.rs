use vstd::prelude::*;

use crate::error::{ErrorKind, TrafficError};
use crate::overview::{extract_overview, page_overview, Overview};

verus! {

/// Where a run stands between two steps.
pub enum Phase {
    /// Nothing done yet.
    Start,
    /// Logged in; the status page was asked for.
    AwaitPage { token: u64 },
    /// The counters were read; the ledger was asked to record them.
    AwaitRecord { token: u64, overview: Overview },
    /// The outcome is known; the session is being closed.
    AwaitLogout { outcome: Result<Overview, TrafficError> },
    /// The run is over.
    Done,
}

/// What the caller reports after doing an action.
pub enum Event {
    /// Login finished, with the session token or the failure.
    LoginDone(Result<u64, TrafficError>),
    /// The status page came back, as text, or its fetch failed.
    PageFetched(Result<String, TrafficError>),
    /// The ledger recorded the reading, or failed to.
    Recorded(Result<(), TrafficError>),
    /// Logout finished; a failure is only worth a log line.
    LoggedOut(Result<(), TrafficError>),
}

/// What the caller is to do next.
pub enum Action {
    Login,
    FetchOverview(u64),
    /// Record this cumulative reading in the ledger.
    Record(i64),
    Logout(u64),
    /// Stop, with the run's outcome.
    Finish(Result<Overview, TrafficError>),
}

/// A run: log in, fetch the status page, read the counters, record them,
/// log out. Logout follows every successful login, whatever came after it,
/// and its own failure does not change the outcome.
pub struct Run {
    pub phase: Phase,
}

/// Whether `event` is the report that `phase` waits for.
pub open spec fn expected(phase: Phase, event: Event) -> bool {
    match (phase, event) {
        (Phase::Start, Event::LoginDone(_)) => true,
        (Phase::AwaitPage { .. }, Event::PageFetched(_)) => true,
        (Phase::AwaitRecord { .. }, Event::Recorded(_)) => true,
        (Phase::AwaitLogout { .. }, Event::LoggedOut(_)) => true,
        _ => false,
    }
}

impl Run {
    /// A new run, and its first action: log in.
    pub fn start() -> (r: (Run, Action))
        ensures
            r.0.phase is Start,
            r.1 is Login,
    {
        (Run { phase: Phase::Start }, Action::Login)
    }

    /// The run after `event`, and the next action.
    pub fn advance(self, event: Event) -> (r: (Run, Action))
        ensures
            !expected(self.phase, event) ==> r.0.phase is Done,
            !expected(self.phase, event) ==> (r.1 matches Action::Finish(Err(e)) && e.kind
                == ErrorKind::Other),
            self.phase is Start ==> match event {
                Event::LoginDone(Ok(t)) => r.0.phase == (Phase::AwaitPage { token: t })
                    && r.1 == Action::FetchOverview(t),
                Event::LoginDone(Err(e)) => r.0.phase is Done && r.1 == Action::Finish(Err(e)),
                _ => true,
            },
            self.phase matches Phase::AwaitPage { token } ==> match event {
                Event::PageFetched(Ok(text)) => match page_overview(text@) {
                    Some(o) => r.0.phase == (Phase::AwaitRecord { token, overview: o })
                        && r.1 == Action::Record(o.cumulative_traffic),
                    None => r.1 == Action::Logout(token) && (r.0.phase matches Phase::AwaitLogout {
                        outcome: Err(e),
                    } && e.kind == ErrorKind::Parse),
                },
                Event::PageFetched(Err(e)) => r.0.phase == (Phase::AwaitLogout { outcome: Err(e) })
                    && r.1 == Action::Logout(token),
                _ => true,
            },
            self.phase matches Phase::AwaitRecord { token, overview } ==> match event {
                Event::Recorded(Ok(())) => r.0.phase == (Phase::AwaitLogout {
                    outcome: Ok(overview),
                }) && r.1 == Action::Logout(token),
                Event::Recorded(Err(e)) => r.0.phase == (Phase::AwaitLogout { outcome: Err(e) })
                    && r.1 == Action::Logout(token),
                _ => true,
            },
            self.phase matches Phase::AwaitLogout { outcome } ==> (event is LoggedOut ==> (
            r.0.phase is Done && r.1 == Action::Finish(outcome))),
    {
        match (self.phase, event) {
            (Phase::Start, Event::LoginDone(Ok(token))) => {
                (Run { phase: Phase::AwaitPage { token } }, Action::FetchOverview(token))
            },
            (Phase::Start, Event::LoginDone(Err(e))) => {
                (Run { phase: Phase::Done }, Action::Finish(Err(e)))
            },
            (Phase::AwaitPage { token }, Event::PageFetched(Ok(text))) => {
                match extract_overview(text.as_str()) {
                    Ok(overview) => (
                        Run { phase: Phase::AwaitRecord { token, overview } },
                        Action::Record(overview.cumulative_traffic),
                    ),
                    Err(e) => (
                        Run { phase: Phase::AwaitLogout { outcome: Err(e) } },
                        Action::Logout(token),
                    ),
                }
            },
            (Phase::AwaitPage { token }, Event::PageFetched(Err(e))) => {
                (Run { phase: Phase::AwaitLogout { outcome: Err(e) } }, Action::Logout(token))
            },
            (Phase::AwaitRecord { token, overview }, Event::Recorded(Ok(()))) => {
                (Run { phase: Phase::AwaitLogout { outcome: Ok(overview) } }, Action::Logout(token))
            },
            (Phase::AwaitRecord { token, .. }, Event::Recorded(Err(e))) => {
                (Run { phase: Phase::AwaitLogout { outcome: Err(e) } }, Action::Logout(token))
            },
            (Phase::AwaitLogout { outcome }, Event::LoggedOut(_)) => {
                (Run { phase: Phase::Done }, Action::Finish(outcome))
            },
            _ => (
                Run { phase: Phase::Done },
                Action::Finish(Err(TrafficError::with_kind(ErrorKind::Other, "unexpected step in a run"))),
            ),
        }
    }
}

} // verus!
