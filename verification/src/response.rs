//! What comes back from the transport, and what the caller is given for it.

use vstd::prelude::*;

verus! {

/// Why an operation failed.
#[derive(Debug, PartialEq, Eq)]
pub enum ApiError {
    /// The call itself failed: the remote could not be reached (no status),
    /// or it answered with a status outside 200 to 299.
    Transport { status: Option<u16> },
    /// A body could not be written as JSON or read from it.
    Serialization,
}

/// How one network call ended.
#[derive(Debug)]
pub enum Outcome {
    /// No answer came.
    Unreachable,
    /// The remote answered.
    Answer { status: u16, body: Vec<u8> },
}

/// The statuses that count as success.
pub open spec fn is_success(status: u16) -> bool {
    200 <= status < 300
}

/// What an operation returns for an outcome: the body of a successful
/// answer, else the transport error with the status where there is one.
pub open spec fn payload_of(outcome: Outcome) -> Result<Vec<u8>, ApiError> {
    match outcome {
        Outcome::Unreachable => Err(ApiError::Transport { status: None }),
        Outcome::Answer { status, body } => if is_success(status) {
            Ok(body)
        } else {
            Err(ApiError::Transport { status: Some(status) })
        },
    }
}

/// The bytes to decode for an operation that returns a value.
pub fn payload(outcome: Outcome) -> (r: Result<Vec<u8>, ApiError>)
    ensures
        r == payload_of(outcome),
{
    match outcome {
        Outcome::Unreachable => Err(ApiError::Transport { status: None }),
        Outcome::Answer { status, body } => {
            if 200 <= status && status < 300 {
                Ok(body)
            } else {
                Err(ApiError::Transport { status: Some(status) })
            }
        },
    }
}

/// The result of an operation that returns nothing, such as a delete: the
/// body of a successful answer is not looked at.
pub fn acknowledge(outcome: Outcome) -> (r: Result<(), ApiError>)
    ensures
        r is Ok <==> payload_of(outcome) is Ok,
        r is Err ==> Err::<Vec<u8>, ApiError>(r->Err_0) == payload_of(outcome),
{
    match payload(outcome) {
        Ok(_) => Ok(()),
        Err(e) => Err(e),
    }
}

/// What a decoder's verdict on a successful answer becomes: the value, or
/// the serialization error when the body could not be read.
pub fn decoded<T>(value: Option<T>) -> (r: Result<T, ApiError>)
    ensures
        r == match value {
            Some(v) => Ok::<T, ApiError>(v),
            None => Err::<T, ApiError>(ApiError::Serialization),
        },
{
    match value {
        Some(v) => Ok(v),
        None => Err(ApiError::Serialization),
    }
}

/// A body that is answered back under a successful status reaches the
/// decoder byte for byte as it was sent.
pub proof fn lemma_echo_is_unchanged(status: u16, body: Vec<u8>)
    requires
        is_success(status),
    ensures
        payload_of(Outcome::Answer { status, body }) == Ok::<Vec<u8>, ApiError>(body),
{
}

/// An answer under any other status is a transport error that carries this
/// status, whatever its body holds.
pub proof fn lemma_failure_carries_status(status: u16, body: Vec<u8>)
    requires
        !is_success(status),
    ensures
        payload_of(Outcome::Answer { status, body }) == Err::<Vec<u8>, ApiError>(
            ApiError::Transport { status: Some(status) },
        ),
{
}

} // verus!
