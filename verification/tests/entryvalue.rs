use yammy_core::EntryValue;

#[test]
fn test_entryvalue_get() {
    let s = EntryValue::String(String::from("Hello, World"));
    assert_eq!(s.get_string().unwrap(), &String::from("Hello, World"));

    let u64 = EntryValue::Unsigned64(42);
    assert_eq!(u64.get_u64().unwrap(), 42);

    for tested_boolean in [true, false].iter() {
        let b = EntryValue::Boolean(*tested_boolean);
        assert_eq!(b.get_bool().unwrap(), *tested_boolean);
    }

    let f64 = EntryValue::Float64(f64::to_bits(3.14));
    assert_eq!(f64::from_bits(f64.get_f64().unwrap()), 3.14);
}

#[test]
fn getters_refuse_other_variants() {
    let s = EntryValue::String(String::from("x"));
    assert!(s.get_u64().is_none());
    assert!(s.get_bool().is_none());
    assert!(s.get_f64().is_none());
    let n = EntryValue::Unsigned64(7);
    assert!(n.get_string().is_none());
    assert!(n.get_bool().is_none());
    assert!(n.get_f64().is_none());
    let b = EntryValue::Boolean(true);
    assert!(b.get_string().is_none());
    assert!(b.get_u64().is_none());
    let f = EntryValue::Float64(7);
    assert!(f.get_u64().is_none());
    assert_eq!(f.get_f64(), Some(7));
}

#[test]
fn clone_keeps_the_value() {
    let s = EntryValue::String(String::from("Soren"));
    assert_eq!(s.clone(), s);
    let f = EntryValue::Float64(f64::to_bits(-0.5));
    assert_eq!(f.clone(), f);
}
