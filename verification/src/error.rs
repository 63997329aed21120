//! The failures that the engine reports.

use vstd::prelude::*;

verus! {

/// Why a request to the engine failed. Nothing is retried: a failure of a
/// lower component is handed upward as it is.
#[derive(Debug, PartialEq)]
pub enum EngineError {
    /// The catalog store could not be reached or rejected a query.
    QueryFailure(String),
    /// The requested recipe does not exist.
    NotFound,
    /// The completion service could not be reached, failed, or returned no
    /// text.
    SynthesisCallFailure(String),
    /// The completion reply is not the expected JSON.
    SynthesisParseFailure(String),
    /// A child insert failed after the recipe row was written; the recipe row
    /// has been asked to be deleted again.
    PartialWriteFailure(String),
}

/// An [`EngineError`] with its message as a character sequence.
pub enum EngineErrorView {
    QueryFailure(Seq<char>),
    NotFound,
    SynthesisCallFailure(Seq<char>),
    SynthesisParseFailure(Seq<char>),
    PartialWriteFailure(Seq<char>),
}

impl View for EngineError {
    type V = EngineErrorView;

    open spec fn view(&self) -> EngineErrorView {
        match self {
            EngineError::QueryFailure(m) => EngineErrorView::QueryFailure(m@),
            EngineError::NotFound => EngineErrorView::NotFound,
            EngineError::SynthesisCallFailure(m) => EngineErrorView::SynthesisCallFailure(m@),
            EngineError::SynthesisParseFailure(m) => EngineErrorView::SynthesisParseFailure(m@),
            EngineError::PartialWriteFailure(m) => EngineErrorView::PartialWriteFailure(m@),
        }
    }
}

impl EngineErrorView {
    /// The status a caller answers with: 404 for a missing recipe, 500 for
    /// everything else.
    pub open spec fn status(self) -> u16 {
        match self {
            EngineErrorView::NotFound => 404,
            _ => 500,
        }
    }

    /// The human-readable message that goes with the failure.
    pub open spec fn message(self) -> Seq<char> {
        match self {
            EngineErrorView::QueryFailure(m) => m,
            EngineErrorView::NotFound => "Cocktail not found"@,
            EngineErrorView::SynthesisCallFailure(m) => m,
            EngineErrorView::SynthesisParseFailure(m) => m,
            EngineErrorView::PartialWriteFailure(m) => m,
        }
    }
}

impl EngineError {
    /// The status a caller answers with: 404 for a missing recipe, 500 for
    /// everything else.
    pub fn status(&self) -> (r: u16)
        ensures
            r == self@.status(),
    {
        match self {
            EngineError::NotFound => 404,
            _ => 500,
        }
    }

    /// The human-readable message that goes with the failure.
    pub fn message(&self) -> (r: String)
        ensures
            r@ == self@.message(),
    {
        match self {
            EngineError::QueryFailure(m) => m.clone(),
            EngineError::NotFound => "Cocktail not found".to_owned(),
            EngineError::SynthesisCallFailure(m) => m.clone(),
            EngineError::SynthesisParseFailure(m) => m.clone(),
            EngineError::PartialWriteFailure(m) => m.clone(),
        }
    }
}

} // verus!
