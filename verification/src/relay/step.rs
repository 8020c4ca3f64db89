//! How a request is decided when the decision needs answers from elsewhere.
//!
//! A handler is a function of the request, the settings and the answers it has so far.
//! It says what it needs to know next, or how the request ends. Whoever runs it finds the
//! answer out, adds it, and asks again; so the order in which things are looked at, and
//! what each of them decides, is stated in one place.

use crate::relay::error::{ApiError, Refusal};
use vstd::prelude::*;

verus! {

/// Where a request stands.
#[derive(Debug)]
pub enum Step<Q, T> {
    /// Find this out, and come back with the answer.
    Ask(Q),
    /// The request is refused.
    Refuse(ApiError),
    /// The request is granted.
    Done(T),
}

/// Where a request stands, over views.
pub enum StepModel<Q, T> {
    Ask(Q),
    Refuse(Refusal),
    Done(T),
}

/// Where a request stands, over views.
pub open spec fn step_view<Q: View, T: View>(step: Step<Q, T>) -> StepModel<Q::V, T::V> {
    match step {
        Step::Ask(question) => StepModel::Ask(question@),
        Step::Refuse(error) => StepModel::Refuse(error@),
        Step::Done(value) => StepModel::Done(value@),
    }
}

/// A request is refused with this.
pub open spec fn refuses<Q, T>(step: StepModel<Q, T>, refusal: Refusal) -> bool {
    step is Refuse && step->Refuse_0 == refusal
}

/// A request needs to know this.
pub open spec fn asks<Q, T>(step: StepModel<Q, T>, question: Q) -> bool {
    step is Ask && step->Ask_0 == question
}

} // verus!
