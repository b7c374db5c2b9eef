use vstd::prelude::*;

verus! {

/// `std::io::Error`, carried by `AIError::IOError`.
#[verifier::external_type_specification]
#[verifier::external_body]
pub struct ExIoError(std::io::Error);

/// Why the model could not be used.
#[derive(Debug)]
pub enum AIError {
    RequestFailed(String),
    ParseError(String),
    NoApiKey,
    NoModel,
    InvalidResponseFormat(String),
    NoPossibleMoves,
    IOError(std::io::Error),
}

} // verus!
