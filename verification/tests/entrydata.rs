use yammy_core::EntryData;
use yammy_core::EntryType;
use yammy_core::EntryValue;
use yammy_core::Error;
use yammy_core::ErrorKind;

#[test]
fn test_entry_data_check() {
    assert!(EntryData::new(EntryType::String)
        .check(&EntryValue::String(String::from("hello")))
        .is_ok());
    assert!(EntryData::new(EntryType::Unsigned64)
        .check(&EntryValue::Unsigned64(42))
        .is_ok());
    assert!(EntryData::new(EntryType::Float64)
        .check(&EntryValue::Float64(f64::to_bits(3.14)))
        .is_ok());
    assert!(EntryData::new(EntryType::Boolean)
        .check(&EntryValue::Boolean(true))
        .is_ok());
    assert!(EntryData::new(EntryType::String)
        .check(&EntryValue::Float64(f64::to_bits(3.14)))
        .is_err());
}

#[test]
fn test_entry_data_default() {
    assert_eq!(
        EntryData::new(EntryType::Unsigned64)
            .get_default()
            .get_u64()
            .unwrap(),
        0
    );
    assert_eq!(
        f64::from_bits(
            EntryData::new(EntryType::Float64)
                .default(EntryValue::Float64(f64::to_bits(3.14)))
                .unwrap()
                .get_default()
                .get_f64()
                .unwrap()
        ),
        3.14
    );
}

#[test]
fn check_reports_both_types() {
    assert_eq!(
        EntryData::new(EntryType::String).check(&EntryValue::Float64(0)),
        Err(Error::WrongType {
            expected: EntryType::String,
            found: EntryType::Float64
        })
    );
    assert_eq!(
        EntryData::new(EntryType::Unsigned64).check(&EntryValue::Boolean(false)),
        Err(Error::WrongType {
            expected: EntryType::Unsigned64,
            found: EntryType::Boolean
        })
    );
    assert_eq!(
        EntryData::new(EntryType::Boolean).check(&EntryValue::Unsigned64(1)),
        Err(Error::WrongType {
            expected: EntryType::Boolean,
            found: EntryType::Unsigned64
        })
    );
    assert_eq!(
        EntryData::new(EntryType::Float64).check(&EntryValue::String(String::new())),
        Err(Error::WrongType {
            expected: EntryType::Float64,
            found: EntryType::String
        })
    );
}

#[test]
fn zero_values_by_type() {
    assert_eq!(
        EntryData::new(EntryType::String).get_default(),
        EntryValue::String(String::new())
    );
    assert_eq!(
        EntryData::new(EntryType::Unsigned64).get_default(),
        EntryValue::Unsigned64(0)
    );
    assert_eq!(
        EntryData::new(EntryType::Boolean).get_default(),
        EntryValue::Boolean(false)
    );
    let zero = EntryData::new(EntryType::Float64).get_default();
    assert_eq!(f64::from_bits(zero.get_f64().unwrap()), 0.0);
}

#[test]
fn default_of_another_type_is_refused() {
    let r = EntryData::new(EntryType::Unsigned64).default(EntryValue::String("3".into()));
    assert_eq!(
        r,
        Err(Error::WrongType {
            expected: EntryType::Unsigned64,
            found: EntryType::String
        })
    );
    assert_eq!(r.unwrap_err().kind(), ErrorKind::SchemaViolation);
}

#[test]
fn default_is_kept_and_type_stays() {
    let d = EntryData::new(EntryType::String)
        .default(EntryValue::String("nobody".into()))
        .unwrap();
    assert_eq!(d.get_type(), EntryType::String);
    assert_eq!(d.get_default(), EntryValue::String("nobody".into()));
    assert_eq!(d.clone(), d);
    assert_eq!(EntryValue::Boolean(true).entrytype(), EntryType::Boolean);
}
