//! The error taxonomy: validation failures the instruction itself reports,
//! and the runtime-side rejections that surround it.

use vstd::prelude::*;
use vstd::string::StringExecFns;

verus! {

/// A validation failure of the post instruction, surfaced to callers with a
/// stable numeric code and a fixed message.
#[derive(Clone, Copy, Debug, PartialEq, Eq, Structural)]
pub enum ErrorCode {
    /// The topic exceeds its bound of Unicode scalar values.
    TopicTooLong,
    /// The content exceeds its bound of Unicode scalar values.
    ContentTooLong,
}

impl ErrorCode {
    /// The stable numeric code: errors are numbered from zero in definition
    /// order.
    pub fn code(&self) -> (r: u32)
        ensures
            r == (match *self {
                ErrorCode::TopicTooLong => 0u32,
                ErrorCode::ContentTooLong => 1u32,
            }),
    {
        match *self {
            ErrorCode::TopicTooLong => 0,
            ErrorCode::ContentTooLong => 1,
        }
    }

    /// The human-readable message attached to the error.
    pub fn message(&self) -> (r: String)
        ensures
            *self is TopicTooLong ==> r@
                == "The provided topic should be 50 characters long maximum."@,
            *self is ContentTooLong ==> r@
                == "The provided content should be 280 characters long maximum."@,
    {
        match *self {
            ErrorCode::TopicTooLong => String::from_str(
                "The provided topic should be 50 characters long maximum.",
            ),
            ErrorCode::ContentTooLong => String::from_str(
                "The provided content should be 280 characters long maximum.",
            ),
        }
    }
}

/// A rejection on the way to the handler, produced by the surrounding runtime
/// framing rather than by the handler's own validation.  The verified
/// dispatch models these so its contract can name the exact cause of each
/// failure.
#[derive(Clone, Copy, Debug, PartialEq, Eq, Structural)]
pub enum ProgramError {
    /// The instruction data does not begin with a known instruction
    /// discriminator.
    UnknownInstruction,
    /// The instruction data carries a known discriminator but its argument
    /// bytes are malformed.
    InvalidInstructionData,
    /// The author account has not signed the transaction.
    MissingRequiredSignature,
    /// The handler ran and rejected its inputs.
    Custom(ErrorCode),
}

} // verus!
