//! Errors of building a pipeline.
use vstd::prelude::*;

verus! {

/// Why a pipeline, stage or effect could not be built.
#[derive(Debug, PartialEq, Eq)]
pub enum Error {
    /// A stage names a target that the registry does not hold.
    NoSuchTarget(String),
    /// An effect declares a binding that its compiled program does not have.
    UnresolvedName(String),
    /// A compiled program uses a resource that its effect does not declare.
    UnboundName(String),
    /// No compiled program was supplied for the pass at this position.
    MissingProgram(usize),
}

pub enum ErrorView {
    NoSuchTarget(Seq<char>),
    UnresolvedName(Seq<char>),
    UnboundName(Seq<char>),
    MissingProgram(usize),
}

impl View for Error {
    type V = ErrorView;

    open spec fn view(&self) -> ErrorView {
        match self {
            Error::NoSuchTarget(s) => ErrorView::NoSuchTarget(s@),
            Error::UnresolvedName(s) => ErrorView::UnresolvedName(s@),
            Error::UnboundName(s) => ErrorView::UnboundName(s@),
            Error::MissingProgram(i) => ErrorView::MissingProgram(*i),
        }
    }
}

} // verus!
