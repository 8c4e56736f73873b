//! Failure kinds and the integer status that stands for them at the call boundary.

use vstd::prelude::*;

verus! {

/// Why a book could not be produced.
#[derive(Clone, Copy, Debug, PartialEq, Eq, Structural)]
pub enum Failure {
    /// A chapter's source could not be reached, or the connection broke.
    UnreachableSource,
    /// A chapter's source holds no audio stream that can be read.
    UnsupportedCodec,
    /// A chapter's source ended in the middle of a packet.
    Truncated,
    /// A later chapter's stream parameters differ from the declared audio stream.
    CodecMismatch,
    /// The destination container could not be created, written or
    /// finalized. A book without chapters fails so, having no audio stream to
    /// declare, and so does a book whose timeline outgrows the clock.
    OutputWriteFailure,
}

/// The side on which a failure arose.
#[derive(Clone, Copy, Debug, PartialEq, Eq, Structural)]
pub enum FailureClass {
    /// The network: a source was unreachable or the transfer was interrupted.
    Transport,
    /// The media: a codec is unsupported or mismatched, or a stream is cut short.
    Format,
    /// The destination file.
    Output,
}

/// What a source reader can report when opening or reading fails.
#[derive(Clone, Copy, Debug, PartialEq, Eq, Structural)]
pub enum SourceError {
    /// Connection or transport failure.
    Unreachable,
    /// No audio stream that can be read was found.
    UnsupportedCodec,
    /// The stream ended in the middle of a packet.
    Truncated,
}

/// The status of a run that produced its file.
pub const STATUS_OK: i32 = 0;

impl SourceError {
    /// The failure that a reader's error stands for.
    pub open spec fn spec_failure(self) -> Failure {
        match self {
            SourceError::Unreachable => Failure::UnreachableSource,
            SourceError::UnsupportedCodec => Failure::UnsupportedCodec,
            SourceError::Truncated => Failure::Truncated,
        }
    }

    /// The reader's error that a status stands for: the one whose failure
    /// has that status. `None` for every other number.
    pub open spec fn spec_from_code(code: i32) -> Option<SourceError> {
        if code == 1 {
            Some(SourceError::Unreachable)
        } else if code == 2 {
            Some(SourceError::UnsupportedCodec)
        } else if code == 3 {
            Some(SourceError::Truncated)
        } else {
            None
        }
    }

    /// The reader's error that a status stands for, if it stands for one.
    pub fn from_code(code: i32) -> (error: Option<SourceError>)
        ensures
            error == SourceError::spec_from_code(code),
    {
        match Failure::from_code(code) {
            Some(Failure::UnreachableSource) => Some(SourceError::Unreachable),
            Some(Failure::UnsupportedCodec) => Some(SourceError::UnsupportedCodec),
            Some(Failure::Truncated) => Some(SourceError::Truncated),
            _ => None,
        }
    }

    /// The failure that a reader's error stands for.
    pub fn failure(self) -> (failure: Failure)
        ensures
            failure == self.spec_failure(),
    {
        match self {
            SourceError::Unreachable => Failure::UnreachableSource,
            SourceError::UnsupportedCodec => Failure::UnsupportedCodec,
            SourceError::Truncated => Failure::Truncated,
        }
    }
}

impl Failure {
    /// The status that stands for this failure: one nonzero number per kind.
    pub open spec fn spec_code(self) -> i32 {
        match self {
            Failure::UnreachableSource => 1i32,
            Failure::UnsupportedCodec => 2i32,
            Failure::Truncated => 3i32,
            Failure::CodecMismatch => 4i32,
            Failure::OutputWriteFailure => 5i32,
        }
    }

    /// The side on which this failure arose.
    pub open spec fn spec_class(self) -> FailureClass {
        match self {
            Failure::UnreachableSource => FailureClass::Transport,
            Failure::UnsupportedCodec => FailureClass::Format,
            Failure::Truncated => FailureClass::Format,
            Failure::CodecMismatch => FailureClass::Format,
            Failure::OutputWriteFailure => FailureClass::Output,
        }
    }

    /// The status that stands for this failure.
    pub fn code(self) -> (code: i32)
        ensures
            code == self.spec_code(),
    {
        match self {
            Failure::UnreachableSource => 1,
            Failure::UnsupportedCodec => 2,
            Failure::Truncated => 3,
            Failure::CodecMismatch => 4,
            Failure::OutputWriteFailure => 5,
        }
    }

    /// The failure that a status stands for, if it stands for one.
    pub fn from_code(code: i32) -> (failure: Option<Failure>)
        ensures
            failure == spec_failure_of(code),
    {
        if code == 1 {
            Some(Failure::UnreachableSource)
        } else if code == 2 {
            Some(Failure::UnsupportedCodec)
        } else if code == 3 {
            Some(Failure::Truncated)
        } else if code == 4 {
            Some(Failure::CodecMismatch)
        } else if code == 5 {
            Some(Failure::OutputWriteFailure)
        } else {
            None
        }
    }

    /// The side on which this failure arose.
    pub fn class(self) -> (class: FailureClass)
        ensures
            class == self.spec_class(),
    {
        match self {
            Failure::UnreachableSource => FailureClass::Transport,
            Failure::UnsupportedCodec | Failure::Truncated | Failure::CodecMismatch => {
                FailureClass::Format
            },
            Failure::OutputWriteFailure => FailureClass::Output,
        }
    }
}

/// The failure whose status is `code`; `None` for zero and for every number
/// that no failure has.
pub open spec fn spec_failure_of(code: i32) -> Option<Failure> {
    if code == 1 {
        Some(Failure::UnreachableSource)
    } else if code == 2 {
        Some(Failure::UnsupportedCodec)
    } else if code == 3 {
        Some(Failure::Truncated)
    } else if code == 4 {
        Some(Failure::CodecMismatch)
    } else if code == 5 {
        Some(Failure::OutputWriteFailure)
    } else {
        None
    }
}

/// The status of a finished run: zero for a book that was produced, the
/// failure's own number otherwise.
pub open spec fn spec_status_of(outcome: Result<(), Failure>) -> i32 {
    match outcome {
        Ok(_) => STATUS_OK,
        Err(failure) => failure.spec_code(),
    }
}

/// The status of a finished run.
pub fn status_of(outcome: Result<(), Failure>) -> (status: i32)
    ensures
        status == spec_status_of(outcome),
        status == STATUS_OK <==> outcome.is_ok(),
{
    match outcome {
        Ok(_) => STATUS_OK,
        Err(failure) => failure.code(),
    }
}

/// No failure has the status of success.
pub proof fn lemma_failure_is_nonzero(failure: Failure)
    ensures
        failure.spec_code() != STATUS_OK,
{
}

/// Two failures with the same status are the same failure.
pub proof fn lemma_codes_are_distinct(a: Failure, b: Failure)
    requires
        a.spec_code() == b.spec_code(),
    ensures
        a == b,
{
}

/// A status is read back as the failure it was made from, and as nothing else.
pub proof fn lemma_code_round_trip(failure: Failure, code: i32)
    ensures
        spec_failure_of(failure.spec_code()) == Some(failure),
        spec_failure_of(code) == Some(failure) <==> code == failure.spec_code(),
{
}

/// A status is read back as a reader's error exactly when it is the status
/// of that error's failure. No reader's error is a failure of the output or
/// a codec mismatch.
pub proof fn lemma_source_error_round_trip(error: SourceError, code: i32)
    ensures
        SourceError::spec_from_code(error.spec_failure().spec_code()) == Some(error),
        SourceError::spec_from_code(code) == Some(error) <==> code
            == error.spec_failure().spec_code(),
        error.spec_failure().spec_class() != FailureClass::Output,
        error.spec_failure() != Failure::CodecMismatch,
{
}

} // verus!
