use std::sync::Arc;

use yammy_core::builder::EntryBuilder;
use yammy_core::builder::TableDataBuilder;
use yammy_core::builder::TableDataMapBuilder;
use yammy_core::DefaultMod;
use yammy_core::Entry;
use yammy_core::EntryData;
use yammy_core::EntryType;
use yammy_core::EntryValue;
use yammy_core::Error;
use yammy_core::ErrorKind;
use yammy_core::Metadata;
use yammy_core::ModRead;
use yammy_core::ModWrite;
use yammy_core::TableDataMap;
use yammy_core::ID;

#[test]
fn test_defaultmod() {
    // const
    let partner_id = ID::String(String::from("partner"));
    // setup

    let tabledatamap = TableDataMapBuilder::new()
        .insert(
            String::from("chara"),
            TableDataBuilder::new()
                .add_data("name".into(), EntryData::new(EntryType::String))
                .add_data("pv".into(), EntryData::new(EntryType::Float64))
                .get(),
        )
        .insert(
            String::from("attack"),
            TableDataBuilder::new()
                .add_data("name".into(), EntryData::new(EntryType::String))
                .add_data("damage".into(), EntryData::new(EntryType::Unsigned64))
                .get(),
        )
        .get();

    let chara_table_data = &tabledatamap[String::from("chara")];
    let attack_table_data = &tabledatamap[String::from("attack")];

    // the test itself

    let mut metadata = Metadata::default();
    metadata.name = String::from("test_mod");

    let mut the_mod = DefaultMod::new(metadata, tabledatamap.clone());

    assert!(the_mod.is_writable());
    assert_eq!(the_mod.get_metadata().name, String::from("test_mod"));

    //test write
    let entry_soren = EntryBuilder::new(&chara_table_data)
        .set_key_by_string(
            String::from("name"),
            EntryValue::String(String::from("Soren")),
        )
        .unwrap();

    let entry_twilight = EntryBuilder::new(&chara_table_data)
        .set_key_by_string(
            String::from("name"),
            EntryValue::String(String::from("Twilight")),
        )
        .unwrap();

    assert_eq!(the_mod.get_modified_table_list().len(), 0);

    the_mod
        .insert(String::from("chara"), ID::Integer(1), entry_soren)
        .unwrap();
    the_mod
        .insert(
            String::from("chara"),
            partner_id.clone(),
            entry_twilight.clone(),
        )
        .unwrap();

    assert_eq!(the_mod.get_modified_table_list(), vec!["chara"]);

    let modified_entry = the_mod
        .get_modified_entry_list(&String::from("chara"))
        .unwrap();
    for should_contain in vec![ID::Integer(1), partner_id.clone()] {
        assert!(modified_entry.contains(&should_contain));
    }
    assert_eq!(modified_entry.len(), 2);
    assert!(the_mod
        .get_modified_entry_list(&String::from("unexisting"))
        .unwrap()
        .is_empty());

    // test an invalid insertion
    assert!(the_mod
        .insert(
            String::from("chara"),
            ID::String(String::from("battle claw")),
            EntryBuilder::new(&attack_table_data)
                .set_key_by_string(
                    String::from("name"),
                    EntryValue::String(String::from("battle claw")),
                )
                .set_key_by_string(String::from("damage"), EntryValue::Unsigned64(30))
                .unwrap()
        )
        .is_err());

    // test getting a value
    assert_eq!(
        the_mod
            .get_entry(&String::from("chara"), &partner_id)
            .unwrap()
            .unwrap()
            .get_key_by_string(&chara_table_data, String::from("name"))
            .unwrap()
            .get_string()
            .unwrap(),
        &String::from("Twilight")
    );

    // test removing a value
    the_mod
        .remove(String::from("chara"), partner_id.clone())
        .unwrap();
    assert!(the_mod
        .is_removed(&String::from("chara"), &partner_id)
        .unwrap());
    assert!(the_mod
        .list_removed(&String::from("chara"))
        .unwrap()
        .contains(&partner_id));
    assert!(the_mod
        .get_entry(&String::from("chara"), &partner_id)
        .unwrap()
        .is_none());
    // read
    the_mod
        .insert(
            String::from("chara"),
            partner_id.clone(),
            entry_twilight.clone(),
        )
        .unwrap();
    assert!(!the_mod
        .is_removed(&String::from("chara"), &partner_id)
        .unwrap());
    assert_eq!(the_mod.list_removed(&String::from("chara")).unwrap().len(), 0);
    assert!(the_mod
        .get_entry(&String::from("chara"), &partner_id)
        .unwrap()
        .is_some());
}

fn schema() -> Arc<TableDataMap> {
    TableDataMapBuilder::new()
        .insert(
            "chara".into(),
            TableDataBuilder::new()
                .add_data("name".into(), EntryData::new(EntryType::String))
                .add_data("pv".into(), EntryData::new(EntryType::Unsigned64))
                .get(),
        )
        .insert(
            "attack".into(),
            TableDataBuilder::new()
                .add_data("name".into(), EntryData::new(EntryType::String))
                .add_data("dmg".into(), EntryData::new(EntryType::Unsigned64))
                .get(),
        )
        .get()
}

fn chara(tabledatamap: &TableDataMap, name: &str, pv: u64) -> Entry {
    EntryBuilder::new(tabledatamap.get("chara").unwrap())
        .set_key(0, EntryValue::String(name.into()))
        .set_key(1, EntryValue::Unsigned64(pv))
        .unwrap()
}

#[test]
fn insert_into_an_unknown_table_changes_nothing() {
    let tdm = schema();
    let mut m = DefaultMod::new(Metadata::default(), tdm.clone());
    m.insert("chara".into(), ID::Integer(1), chara(&tdm, "Soren", 300))
        .unwrap();
    m.remove("chara".into(), ID::Integer(2)).unwrap();
    let e = m
        .insert("unexistant".into(), ID::Integer(1), chara(&tdm, "x", 1))
        .unwrap_err();
    assert_eq!(e, Error::UnknownTable);
    assert_eq!(e.kind(), ErrorKind::UnknownTable);
    assert_eq!(m.get_modified_table_list(), vec!["chara"]);
    assert!(m.get_modified_entry_list("unexistant").unwrap().is_empty());
    assert_eq!(m.list_removed("unexistant").unwrap().len(), 0);
    assert_eq!(m.get_modified_entry_list("chara").unwrap(), vec![ID::Integer(1)]);
    assert_eq!(m.list_removed("chara").unwrap().len(), 1);
    assert!(m.get_entry("unexistant", &ID::Integer(1)).unwrap().is_none());
}

#[test]
fn a_record_that_does_not_fit_is_refused_and_changes_nothing() {
    let tdm = schema();
    let mut m = DefaultMod::new(Metadata::default(), tdm.clone());
    m.remove("chara".into(), ID::Integer(1)).unwrap();
    let mut short = yammy_core::TableData::new();
    short.add_data("name".into(), EntryData::new(EntryType::String));
    assert_eq!(
        m.insert("chara".into(), ID::Integer(1), Entry::new(&short)),
        Err(Error::WrongLength {
            columns: 2,
            values: 1
        })
    );
    let mut other = yammy_core::TableData::new();
    other.add_data("name".into(), EntryData::new(EntryType::String));
    other.add_data("pv".into(), EntryData::new(EntryType::Boolean));
    assert_eq!(
        m.insert("chara".into(), ID::Integer(1), Entry::new(&other)),
        Err(Error::WrongColumnType {
            column: 1,
            expected: EntryType::Unsigned64,
            found: EntryType::Boolean
        })
    );
    assert!(m.is_removed("chara", &ID::Integer(1)).unwrap());
    assert!(m.get_modified_table_list().is_empty());
}

#[test]
fn insert_then_get_entry_gives_the_record_back() {
    let tdm = schema();
    let mut m = DefaultMod::new(Metadata::default(), tdm.clone());
    let soren = chara(&tdm, "Soren", 300);
    m.insert("chara".into(), ID::String("hero".into()), soren.clone())
        .unwrap();
    assert_eq!(
        m.get_entry("chara", &ID::String("hero".into())).unwrap(),
        Some(&soren)
    );
    let twilight = chara(&tdm, "Twilight", 32);
    m.insert("chara".into(), ID::String("hero".into()), twilight.clone())
        .unwrap();
    assert_eq!(
        m.get_entry("chara", &ID::String("hero".into())).unwrap(),
        Some(&twilight)
    );
    assert_eq!(m.get_modified_entry_list("chara").unwrap().len(), 1);
    assert!(m.get_entry("chara", &ID::Integer(0)).unwrap().is_none());
    assert!(m
        .get_entry("attack", &ID::String("hero".into()))
        .unwrap()
        .is_none());
}

#[test]
fn removing_twice_is_removing_once() {
    let tdm = schema();
    let mut m = DefaultMod::new(Metadata::default(), tdm.clone());
    m.insert("chara".into(), ID::Integer(7), chara(&tdm, "Soren", 300))
        .unwrap();
    assert_eq!(m.remove("chara".into(), ID::Integer(7)), Ok(()));
    assert_eq!(m.remove("chara".into(), ID::Integer(7)), Ok(()));
    let removed = m.list_removed("chara").unwrap();
    assert_eq!(removed.len(), 1);
    assert_eq!(removed.get(0), Some(&ID::Integer(7)));
    assert!(removed.get(1).is_none());
    assert!(m.get_entry("chara", &ID::Integer(7)).unwrap().is_none());
    assert!(m.get_modified_entry_list("chara").unwrap().is_empty());
}

#[test]
fn insert_after_remove_restores_visibility() {
    let tdm = schema();
    let mut m = DefaultMod::new(Metadata::default(), tdm.clone());
    let id = ID::String("hero".into());
    m.remove("chara".into(), id.clone()).unwrap();
    assert!(m.is_removed("chara", &id).unwrap());
    let e = chara(&tdm, "Soren", 300);
    m.insert("chara".into(), id.clone(), e.clone()).unwrap();
    assert_eq!(m.is_removed("chara", &id), Ok(false));
    assert_eq!(m.get_entry("chara", &id).unwrap(), Some(&e));
}

#[test]
fn restore_takes_the_mark_and_brings_no_record_back() {
    let tdm = schema();
    let mut m = DefaultMod::new(Metadata::default(), tdm.clone());
    let id = ID::Integer(3);
    m.insert("chara".into(), id.clone(), chara(&tdm, "Soren", 300))
        .unwrap();
    assert_eq!(m.restore("chara", &id), Ok(()));
    assert!(m.get_entry("chara", &id).unwrap().is_some());
    m.remove("chara".into(), id.clone()).unwrap();
    assert_eq!(m.restore("chara", &id), Ok(()));
    assert_eq!(m.is_removed("chara", &id), Ok(false));
    assert!(m.get_entry("chara", &id).unwrap().is_none());
    assert_eq!(m.restore("attack", &id), Ok(()));
    assert_eq!(m.restore("nowhere", &id), Ok(()));
}

#[test]
fn a_table_stays_listed_without_records() {
    let tdm = schema();
    let mut m = DefaultMod::new(Metadata::default(), tdm.clone());
    m.insert("attack".into(), ID::Integer(1), {
        EntryBuilder::new(tdm.get("attack").unwrap()).unwrap()
    })
    .unwrap();
    m.remove("attack".into(), ID::Integer(1)).unwrap();
    assert_eq!(m.get_modified_table_list(), vec!["attack"]);
    assert!(m.get_modified_entry_list("attack").unwrap().is_empty());
    m.remove("chara".into(), ID::Integer(1)).unwrap();
    assert_eq!(m.get_modified_table_list(), vec!["attack"]);
}

#[test]
fn marks_are_kept_by_table_and_listed_in_order() {
    let tdm = schema();
    let mut m = DefaultMod::new(Metadata::default(), tdm.clone());
    m.remove("chara".into(), ID::Integer(10)).unwrap();
    m.remove("chara".into(), ID::String("b".into())).unwrap();
    m.remove("chara".into(), ID::Integer(2)).unwrap();
    m.remove("chara".into(), ID::String("a".into())).unwrap();
    m.remove("attack".into(), ID::Integer(10)).unwrap();
    let removed = m.list_removed("chara").unwrap();
    assert_eq!(removed.len(), 4);
    assert_eq!(removed.get(0), Some(&ID::String("a".into())));
    assert_eq!(removed.get(1), Some(&ID::String("b".into())));
    assert_eq!(removed.get(2), Some(&ID::Integer(2)));
    assert_eq!(removed.get(3), Some(&ID::Integer(10)));
    assert_eq!(m.list_removed("attack").unwrap().len(), 1);
    assert!(!m.is_removed("attack", &ID::Integer(2)).unwrap());
    assert!(m.is_removed("attack", &ID::Integer(10)).unwrap());
}

#[test]
fn the_mod_hands_back_what_it_was_made_with() {
    let tdm = schema();
    let mut metadata = Metadata::default();
    assert_eq!(metadata.name, "");
    assert!(metadata.authors.is_empty());
    assert!(metadata.permission == yammy_core::LicensePermission::StandardCopyright);
    metadata.authors.push("marius".into());
    metadata.license = "MIT".into();
    let m = DefaultMod::new(metadata, tdm.clone());
    assert_eq!(m.get_metadata().authors, vec!["marius"]);
    assert_eq!(m.get_metadata().license, "MIT");
    assert!(Arc::ptr_eq(&m.get_tabledatamap(), &tdm));
}

#[test]
fn a_shared_mod_lists_what_the_mod_lists() {
    let tdm = schema();
    let mut m = DefaultMod::new(Metadata::default(), tdm.clone());
    m.insert("chara".into(), ID::Integer(1), chara(&tdm, "Soren", 300))
        .unwrap();
    m.insert("chara".into(), ID::Integer(2), chara(&tdm, "Gylfie", 80))
        .unwrap();
    m.remove("chara".into(), ID::String("Kludd".into())).unwrap();
    let shared = Arc::new(m);
    let listed = ModRead::get_modified_entry_list(&shared, "chara").unwrap();
    assert_eq!(listed, vec![ID::Integer(1), ID::Integer(2)]);
    assert!(ModRead::get_modified_entry_list(&shared, "attack")
        .unwrap()
        .is_empty());
    let removed = ModRead::list_removed(&shared, "chara").unwrap();
    assert_eq!(removed.len(), 1);
    assert_eq!(removed.get(0), Some(&ID::String("Kludd".into())));
    assert_eq!(ModRead::list_removed(&shared, "attack").unwrap().len(), 0);
}
