// Scenarios for registration, values, cloning, extraction and lookup.

use rebind::error::Error;
use rebind::index::Index;
use rebind::payload::Payload;
use rebind::qualifier::Qualifier;
use rebind::registry::{initialize, Registry};
use rebind::table::Caps;

fn all_caps() -> Caps {
    Caps { copy: true, to_value: true, to_ref: true, assign_if: true, from_ref: true }
}

#[test]
fn register_int32_clone_and_extract_both() {
    let mut reg = initialize();
    let int32 = reg.register(1, "Int32");
    reg.install(int32, all_caps()).unwrap();
    let mut v = reg.make_value(int32, Payload::Int(5)).unwrap();
    let mut w = v.try_clone(&reg).unwrap();
    assert_eq!(v.extract(int32).unwrap(), Payload::Int(5));
    assert_eq!(w.extract(int32).unwrap(), Payload::Int(5));
}

#[test]
fn register_twice_returns_same_index() {
    let mut reg = initialize();
    let first = reg.register(7, "Foo");
    let second = reg.register(7, "ignored on repeat");
    assert_eq!(first, second);
    assert_eq!(first.name(&reg).unwrap().as_str(), "Foo");
    assert_eq!(second.name(&reg).unwrap().as_str(), "Foo");
}

#[test]
fn fetch_is_register_with_empty_name() {
    let mut reg = initialize();
    let a = reg.fetch(11);
    let b = reg.register(11, "named later");
    assert_eq!(a, b);
    assert_eq!(a.name(&reg).unwrap().as_str(), "");
}

#[test]
fn widget_without_copy_slot_is_not_copyable() {
    let mut reg = initialize();
    let widget = reg.register(2, "Widget");
    reg.install(
        widget,
        Caps { copy: false, to_value: true, to_ref: true, assign_if: false, from_ref: false },
    )
    .unwrap();
    let mut v = reg.make_value(widget, Payload::Words(vec![7])).unwrap();
    assert_eq!(v.try_clone(&reg).unwrap_err(), Error::NotCopyable);
    // The failed clone left the original intact: extraction still succeeds.
    assert_eq!(v.extract(widget).unwrap(), Payload::Words(vec![7]));
}

#[test]
fn uninstalled_table_is_not_copyable() {
    let mut reg = initialize();
    let t = reg.register(3, "Bare");
    let v = reg.make_value(t, Payload::Int(1)).unwrap();
    assert_eq!(v.try_clone(&reg).unwrap_err(), Error::NotCopyable);
}

#[test]
fn extract_with_wrong_index_is_type_mismatch_and_keeps_value() {
    let mut reg = initialize();
    let a = reg.register(1, "A");
    let b = reg.register(2, "B");
    let mut v = reg.make_value(a, Payload::Int(9)).unwrap();
    assert_eq!(v.extract(b).unwrap_err(), Error::TypeMismatch);
    // The failed extraction consumed nothing.
    assert!(v.holds(a));
    assert_eq!(v.extract(a).unwrap(), Payload::Int(9));
}

#[test]
fn extract_from_empty_value_is_type_mismatch() {
    let mut reg = initialize();
    let a = reg.register(1, "A");
    let mut v = rebind::value::Value::new();
    assert_eq!(v.extract(a).unwrap_err(), Error::TypeMismatch);
}

#[test]
fn lookup_of_unbound_name_fails() {
    let reg = initialize();
    assert_eq!(reg.lookup("does_not_exist").unwrap_err(), Error::LookupFailed);
}

#[test]
fn lookup_finds_bound_global() {
    let mut reg = initialize();
    let a = reg.register(1, "A");
    let v = reg.make_value(a, Payload::Int(30)).unwrap();
    reg.set_global("answer", v);
    let found = reg.lookup("answer").unwrap();
    assert!(found.holds(a));
}

#[test]
fn set_global_rebinds_in_place() {
    let mut reg = initialize();
    let a = reg.register(1, "A");
    reg.install(a, all_caps()).unwrap();
    let v1 = reg.make_value(a, Payload::Int(1)).unwrap();
    let v2 = reg.make_value(a, Payload::Int(2)).unwrap();
    reg.set_global("g", v1);
    reg.set_global("g", v2);
    let mut got = reg.lookup("g").unwrap().try_clone(&reg).unwrap();
    assert_eq!(got.extract(a).unwrap(), Payload::Int(2));
}

#[test]
fn install_twice_is_a_registration_conflict() {
    let mut reg = initialize();
    let a = reg.register(1, "A");
    reg.install(a, all_caps()).unwrap();
    assert_eq!(reg.install(a, all_caps()).unwrap_err(), Error::RegistrationConflict);
}

#[test]
fn forged_index_is_a_corruption() {
    let reg = initialize();
    let forged = Index { code: 99 };
    assert_eq!(reg.make_value(forged, Payload::Int(1)).unwrap_err(), Error::Corruption);
    assert_eq!(forged.name(&reg).unwrap_err(), Error::Corruption);
}

#[test]
fn null_index_operations_are_corruptions() {
    let mut reg = initialize();
    let null = Index::new();
    assert!(null.is_null());
    assert_eq!(reg.install(null, all_caps()).unwrap_err(), Error::Corruption);
    let a = reg.register(1, "A");
    assert_eq!(reg.add_base(a, null).unwrap_err(), Error::Corruption);
    assert_eq!(reg.add_base(null, a).unwrap_err(), Error::Corruption);
}

#[test]
fn qualifier_bytes_decode_and_reject() {
    assert!(matches!(Qualifier::decode(0), Ok(Qualifier::Const)));
    assert!(matches!(Qualifier::decode(1), Ok(Qualifier::Lvalue)));
    assert!(matches!(Qualifier::decode(2), Ok(Qualifier::Rvalue)));
    assert_eq!(Qualifier::decode(3).unwrap_err(), Error::Corruption);
    assert_eq!(Qualifier::decode(255).unwrap_err(), Error::Corruption);
    for q in [Qualifier::Const, Qualifier::Lvalue, Qualifier::Rvalue] {
        assert!(matches!(Qualifier::decode(q.encode()), Ok(back) if back == q));
    }
}

#[test]
fn empty_value_clones_to_empty_value() {
    let reg: Registry = initialize();
    let v = rebind::value::Value::new();
    let w = v.try_clone(&reg).unwrap();
    assert!(w.index().is_null());
    assert!(!v.holds(Index { code: 1 }));
}
