//! The errors that the pipelines report: a kind, and one message meant for
//! a person.

use vstd::prelude::*;

verus! {

/// What went wrong, by family.
#[derive(Debug, Clone, Copy, PartialEq, Eq, Structural)]
pub enum ErrorKind {
    /// A required input is missing or out of range.
    Validation,
    /// A directory, a model or a matching file is not there.
    NotFound,
    /// The destination of a rename is taken.
    Collision,
    /// Audio data has a sample rate, a sample width or a channel layout
    /// that cannot be used.
    Format,
    /// An external program ended with a failure.
    ExternalTool,
    /// A download failed.
    Network,
}

/// An error of one of the pipelines.
#[derive(Debug, Clone)]
pub struct PipelineError {
    pub kind: ErrorKind,
    pub message: String,
}

/// An error as plain mathematical values.
pub struct ErrorModel {
    pub kind: ErrorKind,
    pub message: Seq<char>,
}

impl View for PipelineError {
    type V = ErrorModel;

    open spec fn view(&self) -> ErrorModel {
        ErrorModel { kind: self.kind, message: self.message@ }
    }
}

impl PipelineError {
    /// An error of the given kind with the given message.
    pub fn new(kind: ErrorKind, message: String) -> (error: PipelineError)
        ensures
            error.kind == kind,
            error.message == message,
    {
        PipelineError { kind, message }
    }

    /// The message, for display.
    pub fn to_text(&self) -> (text: String)
        ensures
            text@ == self.message@,
    {
        self.message.clone()
    }
}

} // verus!
