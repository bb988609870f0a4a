//! The errors that the library reports.

use vstd::prelude::*;

use crate::entrydata::EntryType;

verus! {

/// Why an operation was refused.
#[derive(Clone, Copy, Debug, PartialEq, Eq, Structural)]
pub enum Error {
    /// A value does not have the type that its column declares.
    WrongType { expected: EntryType, found: EntryType },
    /// The value at `column` of a record does not have the type that the
    /// column declares.
    WrongColumnType { column: usize, expected: EntryType, found: EntryType },
    /// A record does not have as many values as its table has columns.
    WrongLength { columns: usize, values: usize },
    /// The table is not part of the schema.
    UnknownTable,
    /// The table has no column of that name.
    UnknownColumn,
    /// The column index is past the end of the record or of the table.
    OutOfBounds { index: usize, len: usize },
    /// The lock that guards the current mod could not be taken: it is
    /// held, or it is poisoned.
    ConcurrencyFailure,
}

/// The broad class of an [`Error`].
#[derive(Clone, Copy, Debug, PartialEq, Eq, Structural)]
pub enum ErrorKind {
    SchemaViolation,
    UnknownTable,
    UnknownColumn,
    OutOfBounds,
    ConcurrencyFailure,
}

impl Error {
    /// The class of this error.
    pub open spec fn spec_kind(self) -> ErrorKind {
        match self {
            Error::WrongType { .. } => ErrorKind::SchemaViolation,
            Error::WrongColumnType { .. } => ErrorKind::SchemaViolation,
            Error::WrongLength { .. } => ErrorKind::SchemaViolation,
            Error::UnknownTable => ErrorKind::UnknownTable,
            Error::UnknownColumn => ErrorKind::UnknownColumn,
            Error::OutOfBounds { .. } => ErrorKind::OutOfBounds,
            Error::ConcurrencyFailure => ErrorKind::ConcurrencyFailure,
        }
    }

    /// The class of this error.
    #[verifier::when_used_as_spec(spec_kind)]
    pub fn kind(self) -> (k: ErrorKind)
        ensures
            k == self.spec_kind(),
    {
        match self {
            Error::WrongType { .. } => ErrorKind::SchemaViolation,
            Error::WrongColumnType { .. } => ErrorKind::SchemaViolation,
            Error::WrongLength { .. } => ErrorKind::SchemaViolation,
            Error::UnknownTable => ErrorKind::UnknownTable,
            Error::UnknownColumn => ErrorKind::UnknownColumn,
            Error::OutOfBounds { .. } => ErrorKind::OutOfBounds,
            Error::ConcurrencyFailure => ErrorKind::ConcurrencyFailure,
        }
    }
}

/// A place in a stack of mods: the current mod, the static mod at a place
/// counted from the front, or the mod of the game itself.
#[derive(Clone, Copy, Debug, PartialEq, Eq, Structural)]
pub enum Layer {
    Current,
    Static(usize),
    Game,
}

/// Why an operation on a stack of mods was refused: the mod that refused
/// it, and its reason. A lock that cannot be taken is a failure of the
/// current mod.
#[derive(Clone, Copy, Debug, PartialEq, Eq, Structural)]
pub struct StackError {
    pub layer: Layer,
    pub error: Error,
}

/// An answer of one mod as an answer of the stack: a failure is marked
/// with the place of the mod.
pub open spec fn located<T>(layer: Layer, r: Result<T, Error>) -> Result<T, StackError> {
    match r {
        Ok(t) => Ok(t),
        Err(error) => Err(StackError { layer, error }),
    }
}

impl StackError {
    /// The class of the reason.
    pub fn kind(self) -> (k: ErrorKind)
        ensures
            k == self.error.spec_kind(),
    {
        self.error.kind()
    }
}

} // verus!
