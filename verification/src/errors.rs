use vstd::prelude::*;

verus! {

/// Failure taxonomy of the token subsystem.
#[derive(Clone, Copy, Debug, PartialEq, Eq, Structural)]
pub enum StoreError {
    /// Transport-level failure while talking to the token endpoint.
    NetworkError,
    /// The token endpoint's response does not match the expected shape.
    DecodeError,
    /// Durable storage could not be read or written.
    IoError,
    /// No durable record exists yet.
    FileNotFoundError,
    /// A durable record exists but does not split into the required fields.
    CorruptRecordError,
}

} // verus!
