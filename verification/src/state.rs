//! The closed set of processing states a streamer record can be in, and the
//! validation of state names used to query the collection.

use crate::text::str_eq;
use vstd::prelude::*;

verus! {

/// The processing state of a streamer record. Every variant is a bare tag
/// except `Error`, which carries a numeric error code.
#[derive(Clone, Copy, PartialEq, Eq, Structural, Debug)]
pub enum StreamerState {
    Added,
    Waiting,
    Downloading,
    Stopped,
    Stopping,
    Error(u32),
}

/// A validated state name accepted by the query-by-state operation. `Added`
/// has no filter: records in that state are reachable only by name.
#[derive(Clone, Copy, PartialEq, Eq, Structural, Debug)]
pub enum StateFilter {
    Waiting,
    Downloading,
    Stopped,
    Stopping,
    Error,
}

/// The state name a filter was parsed from.
pub open spec fn filter_tag(f: StateFilter) -> Seq<char> {
    match f {
        StateFilter::Waiting => "waiting"@,
        StateFilter::Downloading => "downloading"@,
        StateFilter::Stopped => "stopped"@,
        StateFilter::Stopping => "stopping"@,
        StateFilter::Error => "error"@,
    }
}

/// Which filter, if any, a state name denotes: exactly the five accepted
/// literals parse, and anything else is rejected.
pub open spec fn spec_parse_state_filter(s: Seq<char>) -> Option<StateFilter> {
    if s == "waiting"@ {
        Some(StateFilter::Waiting)
    } else if s == "downloading"@ {
        Some(StateFilter::Downloading)
    } else if s == "stopped"@ {
        Some(StateFilter::Stopped)
    } else if s == "stopping"@ {
        Some(StateFilter::Stopping)
    } else if s == "error"@ {
        Some(StateFilter::Error)
    } else {
        None
    }
}

/// Whether a record in state `st` is selected by the filter `f`. The error
/// filter selects every error record, whatever its code.
pub open spec fn filter_matches(f: StateFilter, st: StreamerState) -> bool {
    match f {
        StateFilter::Waiting => st is Waiting,
        StateFilter::Downloading => st is Downloading,
        StateFilter::Stopped => st is Stopped,
        StateFilter::Stopping => st is Stopping,
        StateFilter::Error => st is Error,
    }
}

/// Law: each filter's own state name parses back to that filter, so the five
/// accepted literals and the filters correspond one to one.
pub proof fn lemma_filter_tag_parses(f: StateFilter)
    ensures
        spec_parse_state_filter(filter_tag(f)) == Some(f),
{
    reveal_strlit("waiting");
    reveal_strlit("downloading");
    reveal_strlit("stopped");
    reveal_strlit("stopping");
    reveal_strlit("error");
    assert("waiting"@.len() == 7);
    assert("downloading"@.len() == 11);
    assert("stopped"@.len() == 7);
    assert("stopping"@.len() == 8);
    assert("error"@.len() == 5);
    assert("waiting"@[0] == 'w');
    assert("stopped"@[0] == 's');
    assert("waiting"@ != "stopped"@);
}

/// Validates a state name: returns the filter it denotes, or `None` for any
/// name outside the five accepted literals.
pub fn parse_state_filter(s: &str) -> (r: Option<StateFilter>)
    ensures
        r == spec_parse_state_filter(s@),
{
    if str_eq(s, "waiting") {
        Some(StateFilter::Waiting)
    } else if str_eq(s, "downloading") {
        Some(StateFilter::Downloading)
    } else if str_eq(s, "stopped") {
        Some(StateFilter::Stopped)
    } else if str_eq(s, "stopping") {
        Some(StateFilter::Stopping)
    } else if str_eq(s, "error") {
        Some(StateFilter::Error)
    } else {
        None
    }
}

/// Decides `filter_matches` on concrete values.
pub fn state_satisfies_filter(f: StateFilter, st: StreamerState) -> (r: bool)
    ensures
        r == filter_matches(f, st),
{
    match (f, st) {
        (StateFilter::Waiting, StreamerState::Waiting) => true,
        (StateFilter::Downloading, StreamerState::Downloading) => true,
        (StateFilter::Stopped, StreamerState::Stopped) => true,
        (StateFilter::Stopping, StreamerState::Stopping) => true,
        (StateFilter::Error, StreamerState::Error(_)) => true,
        _ => false,
    }
}

} // verus!
