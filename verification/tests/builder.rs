use yammy_core::builder::DefaultModBuilder;
use yammy_core::builder::EntryBuilder;
use yammy_core::builder::TableDataBuilder;
use yammy_core::builder::TableDataMapBuilder;
use yammy_core::EntryData;
use yammy_core::EntryType;
use yammy_core::EntryValue;
use yammy_core::Error;
use yammy_core::Metadata;
use yammy_core::ModRead;
use yammy_core::ID;

#[test]
fn test_default_mod_builder() {
    let tabledatamap = TableDataMapBuilder::new()
        .insert(
            "chara".into(),
            TableDataBuilder::new()
                .add_data("name".into(), EntryData::new(EntryType::String))
                .add_data("pv".into(), EntryData::new(EntryType::Unsigned64))
                .get(),
        )
        .insert(
            "attack".into(),
            TableDataBuilder::new()
                .add_data("name".into(), EntryData::new(EntryType::String))
                .add_data("dmg".into(), EntryData::new(EntryType::Unsigned64))
                .get(),
        )
        .get();

    let chara_tabledata = &tabledatamap[String::from("chara")];
    let chara_name_id = chara_tabledata.string_to_id(String::from("name")).unwrap();
    let chara_pv_id = chara_tabledata.string_to_id(String::from("pv")).unwrap();
    //###########//

    let the_mod = DefaultModBuilder::new(Metadata::default(), tabledatamap.clone())
        .insert(
            "chara".into(),
            ID::String("hero".into()),
            EntryBuilder::new(&chara_tabledata)
                .set_key(chara_name_id, EntryValue::String(String::from("Soren")))
                .set_key(chara_pv_id, EntryValue::Unsigned64(300))
                .unwrap(),
        )
        .insert(
            "chara".into(),
            ID::Integer(100),
            EntryBuilder::new(&chara_tabledata)
                .set_key(chara_name_id, EntryValue::String(String::from("Twilight")))
                .set_key(chara_pv_id, EntryValue::Unsigned64(32))
                .unwrap(),
        )
        .remove("chara".into(), ID::String("Ezylryb".into()))
        .unwrap();

    let modified_chara_list = the_mod.get_modified_entry_list("chara".into()).unwrap();
    assert!(modified_chara_list.contains(&ID::Integer(100)));
    assert!(modified_chara_list.contains(&ID::String("hero".into())));
    assert!(the_mod
        .list_removed("chara".into())
        .unwrap()
        .contains(&ID::String("Ezylryb".into())));

    assert!(
        DefaultModBuilder::new(Metadata::default(), tabledatamap.clone())
            .insert(
                "unexistant".into(),
                ID::String("something".into()),
                EntryBuilder::new(&chara_tabledata).unwrap()
            )
            .get()
            .is_err()
    );
}

#[test]
fn end_to_end_chara() {
    let tabledatamap = TableDataMapBuilder::new()
        .insert(
            "chara".into(),
            TableDataBuilder::new()
                .add_data("name".into(), EntryData::new(EntryType::String))
                .add_data("pv".into(), EntryData::new(EntryType::Unsigned64))
                .get(),
        )
        .get();
    let chara = tabledatamap.get("chara").unwrap();
    let m = DefaultModBuilder::new(Metadata::default(), tabledatamap.clone())
        .insert(
            "chara".into(),
            ID::String("hero".into()),
            EntryBuilder::new(chara)
                .set_key_by_string("name".into(), EntryValue::String("Soren".into()))
                .set_key_by_string("pv".into(), EntryValue::Unsigned64(300))
                .unwrap(),
        )
        .insert(
            "chara".into(),
            ID::Integer(100),
            EntryBuilder::new(chara)
                .set_key_by_string("name".into(), EntryValue::String("Twilight".into()))
                .set_key_by_string("pv".into(), EntryValue::Unsigned64(32))
                .unwrap(),
        )
        .remove("chara".into(), ID::String("Ezylryb".into()))
        .get()
        .unwrap();
    let mut listed = m.get_modified_entry_list("chara").unwrap();
    listed.sort();
    assert_eq!(listed, vec![ID::String("hero".into()), ID::Integer(100)]);
    let removed = m.list_removed("chara").unwrap();
    assert_eq!(removed.len(), 1);
    assert_eq!(removed.get(0), Some(&ID::String("Ezylryb".into())));
    assert_eq!(
        m.get_entry("chara", &ID::Integer(100))
            .unwrap()
            .unwrap()
            .get_key(1)
            .unwrap()
            .get_u64(),
        Some(32)
    );
    let broken = DefaultModBuilder::new(Metadata::default(), tabledatamap.clone()).insert(
        "unexistant".into(),
        ID::Integer(1),
        EntryBuilder::new(chara).unwrap(),
    );
    assert!(matches!(broken.get(), Err(Error::UnknownTable)));
}

#[test]
fn the_first_failure_of_a_record_builder_wins() {
    let tabledata = TableDataBuilder::new()
        .add_data("name".into(), EntryData::new(EntryType::String))
        .add_data("pv".into(), EntryData::new(EntryType::Unsigned64))
        .get();
    let r = EntryBuilder::new(&tabledata)
        .set_key(0, EntryValue::String("Soren".into()))
        .set_key(5, EntryValue::Unsigned64(1))
        .set_key(0, EntryValue::Boolean(true))
        .set_key_by_string("nothing".into(), EntryValue::Boolean(true))
        .get();
    assert_eq!(r, Err(Error::OutOfBounds { index: 5, len: 2 }));
    let r = EntryBuilder::new(&tabledata)
        .set_key_by_string("nothing".into(), EntryValue::Boolean(true))
        .set_key(5, EntryValue::Unsigned64(1))
        .get();
    assert_eq!(r, Err(Error::UnknownColumn));
    let r = EntryBuilder::new(&tabledata)
        .set_key_by_string("pv".into(), EntryValue::Boolean(true))
        .set_key_by_string("pv".into(), EntryValue::Unsigned64(1))
        .get();
    assert_eq!(
        r,
        Err(Error::WrongColumnType {
            column: 1,
            expected: EntryType::Unsigned64,
            found: EntryType::Boolean
        })
    );
    let ok = EntryBuilder::new(&tabledata)
        .set_key(1, EntryValue::Unsigned64(9))
        .get()
        .unwrap();
    assert_eq!(ok.get_key(1).unwrap(), EntryValue::Unsigned64(9));
    assert_eq!(ok.get_key(0).unwrap(), EntryValue::String(String::new()));
}

#[test]
fn the_first_failure_of_a_mod_builder_wins() {
    let tabledatamap = TableDataMapBuilder::new()
        .insert(
            "chara".into(),
            TableDataBuilder::new()
                .add_data("name".into(), EntryData::new(EntryType::String))
                .get(),
        )
        .get();
    let chara = tabledatamap.get("chara").unwrap();
    let empty = TableDataBuilder::new().get();
    let r = DefaultModBuilder::new(Metadata::default(), tabledatamap.clone())
        .insert("chara".into(), ID::Integer(1), EntryBuilder::new(&empty).unwrap())
        .insert("nowhere".into(), ID::Integer(1), EntryBuilder::new(chara).unwrap())
        .remove("chara".into(), ID::Integer(1))
        .insert("chara".into(), ID::Integer(1), EntryBuilder::new(chara).unwrap())
        .get();
    assert!(matches!(
        r,
        Err(Error::WrongLength {
            columns: 1,
            values: 0
        })
    ));
}

#[test]
fn builders_build_what_the_steps_say() {
    let tabledata = TableDataBuilder::new().get();
    assert_eq!(tabledata.len(), 0);
    let tabledata = TableDataBuilder::new()
        .add_data("b".into(), EntryData::new(EntryType::Boolean))
        .add_data("a".into(), EntryData::new(EntryType::String))
        .get();
    assert_eq!(tabledata.id_to_string(0).unwrap(), "b");
    assert_eq!(tabledata.id_to_string(1).unwrap(), "a");
    let empty = TableDataMapBuilder::new().get();
    assert!(!empty.contains_key("x"));
    let tdm = TableDataMapBuilder::new()
        .insert("x".into(), tabledata)
        .insert("x".into(), TableDataBuilder::new().get())
        .get();
    assert_eq!(tdm.get("x").unwrap().len(), 0);
}
