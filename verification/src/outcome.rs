//! What a provider yields: a value, nothing, or a failure with its
//! description.

use vstd::prelude::*;

verus! {

/// The outcome of one provider query.
#[derive(Clone, Debug, PartialEq, Eq)]
pub enum Outcome {
    /// The provider has a value.
    Present(String),
    /// There is nothing to report: no device of the expected kind, no data.
    Absent,
    /// The query failed; the text describes the error.
    Failed(String),
}

/// The mathematical value of an [`Outcome`].
pub enum OutcomeView {
    Present(Seq<char>),
    Absent,
    Failed(Seq<char>),
}

impl View for Outcome {
    type V = OutcomeView;

    open spec fn view(&self) -> OutcomeView {
        match self {
            Outcome::Present(text) => OutcomeView::Present(text@),
            Outcome::Absent => OutcomeView::Absent,
            Outcome::Failed(error) => OutcomeView::Failed(error@),
        }
    }
}

impl DeepView for Outcome {
    type V = OutcomeView;

    open spec fn deep_view(&self) -> OutcomeView {
        self@
    }
}

} // verus!
