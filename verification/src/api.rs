//! The entry points: each starts one operation with the known policy
//! candidates.

use vstd::prelude::*;
use crate::operation::{acquire, initial, Action, Operation, Request, RequestView};
use crate::policy::{default_candidates, known_candidates};
use crate::selector::{CriterionView, MatchCriterion};

verus! {

/// Starts a listing of the active output endpoints.
pub fn list_devices() -> (start: (Operation, Action))
    ensures
        start.0@ == initial(RequestView::List, known_candidates()),
        start.1@ == acquire(),
{
    Operation::begin(Request::List, default_candidates())
}

/// Starts the selection of the endpoint with exactly this identifier.
pub fn set_default_output_by_id_str(device_id_match: &str) -> (start: (Operation, Action))
    ensures
        start.0@ == initial(
            RequestView::Select(CriterionView::ExactId(device_id_match@)),
            known_candidates(),
        ),
        start.1@ == acquire(),
{
    let criterion = MatchCriterion::ExactId(device_id_match.to_owned());
    Operation::begin(Request::Select(criterion), default_candidates())
}

/// Starts the selection of the first endpoint whose label or identifier
/// contains this text, whatever the case of the letters.
pub fn set_default_output_by_name(name_match: &str) -> (start: (Operation, Action))
    ensures
        start.0@ == initial(
            RequestView::Select(CriterionView::Substring(name_match@)),
            known_candidates(),
        ),
        start.1@ == acquire(),
{
    let criterion = MatchCriterion::Substring(name_match.to_owned());
    Operation::begin(Request::Select(criterion), default_candidates())
}

/// Starts making the endpoint with this identifier the default, without a
/// listing.
pub fn commit_default(endpoint_id: &str) -> (start: (Operation, Action))
    ensures
        start.0@ == initial(RequestView::Commit(endpoint_id@), known_candidates()),
        start.1@ == acquire(),
{
    Operation::begin(Request::Commit(endpoint_id.to_owned()), default_candidates())
}

} // verus!
