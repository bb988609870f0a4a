use yammy_core::EntryType;
use yammy_core::Error;
use yammy_core::ErrorKind;

#[test]
fn each_error_has_its_kind() {
    assert_eq!(
        Error::WrongType {
            expected: EntryType::String,
            found: EntryType::Boolean
        }
        .kind(),
        ErrorKind::SchemaViolation
    );
    assert_eq!(
        Error::WrongColumnType {
            column: 3,
            expected: EntryType::String,
            found: EntryType::Boolean
        }
        .kind(),
        ErrorKind::SchemaViolation
    );
    assert_eq!(
        Error::WrongLength {
            columns: 1,
            values: 2
        }
        .kind(),
        ErrorKind::SchemaViolation
    );
    assert_eq!(Error::UnknownTable.kind(), ErrorKind::UnknownTable);
    assert_eq!(Error::UnknownColumn.kind(), ErrorKind::UnknownColumn);
    assert_eq!(
        Error::OutOfBounds { index: 1, len: 0 }.kind(),
        ErrorKind::OutOfBounds
    );
    assert_eq!(
        Error::ConcurrencyFailure.kind(),
        ErrorKind::ConcurrencyFailure
    );
}
