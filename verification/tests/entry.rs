use yammy_core::Entry;
use yammy_core::EntryData;
use yammy_core::EntryType;
use yammy_core::EntryValue;
use yammy_core::Error;
use yammy_core::ErrorKind;
use yammy_core::TableData;

#[test]
fn test_entry() {
    let mut tabledata = TableData::new();
    tabledata.add_data(String::from("name"), EntryData::new(EntryType::String));
    tabledata.add_data(
        String::from("pv"),
        EntryData::new(EntryType::Float64)
            .default(EntryValue::Float64(f64::to_bits(10.0)))
            .unwrap(),
    );

    let name_id = tabledata.string_to_id(String::from("name")).unwrap();
    let pv_id = tabledata.string_to_id(String::from("pv")).unwrap();

    let mut entry = Entry::new(&tabledata);
    assert_eq!(
        entry.get_key(name_id).unwrap().get_string().unwrap(),
        &String::from("")
    );
    entry
        .set_key(
            &tabledata,
            name_id,
            EntryValue::String(String::from("Soren")),
        )
        .unwrap();
    assert_eq!(
        entry
            .get_key_by_string(&tabledata, String::from("name"))
            .unwrap()
            .get_string()
            .unwrap(),
        &String::from("Soren")
    );

    entry
        .set_key_by_string(
            &tabledata,
            String::from("pv"),
            EntryValue::Float64(f64::to_bits(3.14)),
        )
        .unwrap();
    assert_eq!(
        f64::from_bits(
            entry
                .get_key_by_string(&tabledata, String::from("pv"))
                .unwrap()
                .get_f64()
                .unwrap()
        ),
        3.14
    );

    entry
        .set_key(&tabledata, pv_id, EntryValue::Float64(f64::to_bits(45.0)))
        .unwrap();
    assert!(entry
        .set_key(&tabledata, pv_id, EntryValue::Boolean(false))
        .is_err());
}

fn schema() -> TableData {
    let mut tabledata = TableData::new();
    tabledata.add_data("name".into(), EntryData::new(EntryType::String));
    tabledata.add_data(
        "ratio".into(),
        EntryData::new(EntryType::Float64)
            .default(EntryValue::Float64(f64::to_bits(3.14)))
            .unwrap(),
    );
    tabledata.add_data("alive".into(), EntryData::new(EntryType::Boolean));
    tabledata
}

#[test]
fn a_fresh_record_holds_the_defaults() {
    let tabledata = schema();
    let entry = Entry::new(&tabledata);
    assert_eq!(entry.len(), 3);
    assert_eq!(entry.get_key(0).unwrap(), EntryValue::String(String::new()));
    assert_eq!(
        f64::from_bits(entry.get_key(1).unwrap().get_f64().unwrap()),
        3.14
    );
    assert_eq!(entry.get_key(2).unwrap(), EntryValue::Boolean(false));
    assert_eq!(tabledata.check(&entry), Ok(()));
}

#[test]
fn get_key_past_the_end() {
    let tabledata = schema();
    let entry = Entry::new(&tabledata);
    let e = entry.get_key(3).unwrap_err();
    assert_eq!(e, Error::OutOfBounds { index: 3, len: 3 });
    assert_eq!(e.kind(), ErrorKind::OutOfBounds);
}

#[test]
fn a_refused_set_key_changes_nothing() {
    let tabledata = schema();
    let mut entry = Entry::new(&tabledata);
    entry
        .set_key(&tabledata, 0, EntryValue::String("Soren".into()))
        .unwrap();
    let before = entry.clone();
    assert_eq!(
        entry.set_key(&tabledata, 0, EntryValue::Unsigned64(1)),
        Err(Error::WrongColumnType {
            column: 0,
            expected: EntryType::String,
            found: EntryType::Unsigned64
        })
    );
    assert_eq!(entry, before);
    assert_eq!(
        entry.set_key(&tabledata, 3, EntryValue::Boolean(true)),
        Err(Error::OutOfBounds { index: 3, len: 3 })
    );
    assert_eq!(entry, before);
    assert_eq!(
        entry.get_key(0).unwrap(),
        EntryValue::String("Soren".into())
    );
}

#[test]
fn set_key_with_a_shorter_schema() {
    let tabledata = schema();
    let mut entry = Entry::new(&tabledata);
    let mut short = TableData::new();
    short.add_data("name".into(), EntryData::new(EntryType::String));
    assert_eq!(
        entry.set_key(&short, 2, EntryValue::Boolean(true)),
        Err(Error::OutOfBounds { index: 2, len: 1 })
    );
    assert_eq!(entry, Entry::new(&tabledata));
}

#[test]
fn unknown_column_names() {
    let tabledata = schema();
    let mut entry = Entry::new(&tabledata);
    let e = entry
        .get_key_by_string(&tabledata, "age".into())
        .unwrap_err();
    assert_eq!(e, Error::UnknownColumn);
    assert_eq!(e.kind(), ErrorKind::UnknownColumn);
    assert_eq!(
        entry.set_key_by_string(&tabledata, "age".into(), EntryValue::Unsigned64(3)),
        Err(Error::UnknownColumn)
    );
    assert_eq!(entry, Entry::new(&tabledata));
    assert_eq!(
        entry.set_key_by_string(&tabledata, "alive".into(), EntryValue::Unsigned64(3)),
        Err(Error::WrongColumnType {
            column: 2,
            expected: EntryType::Boolean,
            found: EntryType::Unsigned64
        })
    );
    entry
        .set_key_by_string(&tabledata, "alive".into(), EntryValue::Boolean(true))
        .unwrap();
    assert_eq!(entry.get_key(2).unwrap(), EntryValue::Boolean(true));
}
