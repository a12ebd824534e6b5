//! The errors of a proving session.

use vstd::prelude::*;

verus! {

/// What went wrong. Every error ends the session that met it.
#[derive(Clone, Copy, Debug, PartialEq, Eq, Structural)]
pub enum ErrorKind {
    /// An artifact file is missing or cannot be read.
    Io,
    /// An artifact does not decode, or holds a program for another backend.
    Format,
    /// The arguments do not fit the program's declared parameters.
    AbiMismatch,
    /// The program stopped on arguments that fit its parameters.
    ExecutionFailure,
    /// The public parameters could not be generated.
    Setup,
    /// Folding or proof generation failed.
    Proof,
}

/// An error of a proving session: its kind, what it is about, and the
/// message for the caller.
#[derive(Clone, Debug, PartialEq, Eq)]
pub struct ProverError {
    pub kind: ErrorKind,
    /// The path of the artifact that the error is about, where it is about
    /// one.
    pub artifact: Option<String>,
    /// The step that the error belongs to, where it belongs to one.
    pub step: Option<usize>,
    pub message: String,
}

/// What a `ProverError` holds.
pub struct ErrorView {
    pub kind: ErrorKind,
    pub artifact: Option<Seq<char>>,
    pub step: Option<usize>,
    pub message: Seq<char>,
}

impl View for ProverError {
    type V = ErrorView;

    open spec fn view(&self) -> ErrorView {
        ErrorView {
            kind: self.kind,
            artifact: match self.artifact {
                Some(path) => Some(path@),
                None => None,
            },
            step: self.step,
            message: self.message@,
        }
    }
}

} // verus!
