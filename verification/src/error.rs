//! Error taxonomy of the ingestion pipeline.
//!
//! Validation failures are fatal to the record they concern; under the
//! atomic batch policy they are fatal to the whole ingestion call, and no
//! partial catalog is ever exposed.  Failures of the surrounding process
//! (reading the source document) are not represented here: the program
//! around the library reports those separately.

use vstd::prelude::*;

verus! {

/// Validation failure of a single domain value.
#[derive(Debug, Clone, Copy, PartialEq, Eq, Structural)]
pub enum DomainError {
    DomainError,
    UnvalidPath,
    UnvalidTaskTitleFormat,
    UnvalidTaskTagFormat,
    UnvalidFormat,
    UnvalidTimeRange,
    UnvalidParsingUuid,
}

/// Failure of the ingestion pipeline: the first error met while a
/// document is deserialized and its records are validated.
#[derive(Debug, Clone, Copy, PartialEq, Eq, Structural)]
pub enum AppError {
    /// The source text is empty.
    EmptyFile,
    /// The composite date/time field does not match the expected shape.
    UnvalidFormat,
    /// The composite date/time field is empty or holds no alphanumeric
    /// character.
    UnvalidDateTimeFormat,
    /// The document does not parse as the expected array of records.
    SerdeError,
    /// A single field failed its domain validation.
    DomainError(DomainError),
}

} // verus!
