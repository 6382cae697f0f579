// Scenarios for invocation, method dispatch, base walking and the
// reference-side conversions.

use rebind::error::Error;
use rebind::payload::{Function, Op, Param, Payload};
use rebind::qualifier::Qualifier;
use rebind::registry::{initialize, Registry};
use rebind::table::{Cap, Caps};
use rebind::value::{Ref, Scope, Value};

fn all_caps() -> Caps {
    Caps { copy: true, to_value: true, to_ref: true, assign_if: true, from_ref: true }
}

fn int_arg(reg: &Registry, ind: rebind::index::Index, n: i64, qual: Qualifier) -> Ref {
    reg.make_value(ind, Payload::Int(n)).unwrap().to_ref(reg, qual).unwrap()
}

#[test]
fn invoke_add_of_two_and_three_is_five() {
    let mut reg = initialize();
    let int32 = reg.register(1, "Int32");
    reg.install(int32, all_caps()).unwrap();
    let callable = reg.register(2, "Callable");
    reg.install(callable, Caps { copy: false, ..all_caps() }).unwrap();
    let add_fn = Function::new(
        vec![
            Param { ind: int32, qual: Qualifier::Const },
            Param { ind: int32, qual: Qualifier::Const },
        ],
        int32,
        Op::Sum,
    );
    let bound = reg.make_value(callable, Payload::Func(add_fn)).unwrap();
    reg.set_global("add", bound);
    let args = vec![
        int_arg(&reg, int32, 2, Qualifier::Const),
        int_arg(&reg, int32, 3, Qualifier::Const),
    ];
    let mut result = reg.invoke("add", &args).unwrap();
    assert!(result.holds(int32));
    assert_eq!(result.extract(int32).unwrap(), Payload::Int(5));
}

#[test]
fn invoke_with_wrong_arity_fails_the_call() {
    let mut reg = initialize();
    let int32 = reg.register(1, "Int32");
    reg.install(int32, all_caps()).unwrap();
    let f = Function::new(vec![Param { ind: int32, qual: Qualifier::Const }], int32, Op::Sum);
    let bound = reg.make_value(int32, Payload::Func(f)).unwrap();
    reg.set_global("one_arg", bound);
    let args = vec![
        int_arg(&reg, int32, 2, Qualifier::Const),
        int_arg(&reg, int32, 3, Qualifier::Const),
    ];
    assert_eq!(reg.invoke("one_arg", &args).unwrap_err(), Error::CallFailed);
}

#[test]
fn invoke_of_a_non_callable_fails_the_call() {
    let mut reg = initialize();
    let int32 = reg.register(1, "Int32");
    reg.install(int32, all_caps()).unwrap();
    let plain = reg.make_value(int32, Payload::Int(4)).unwrap();
    reg.set_global("plain", plain);
    assert_eq!(reg.invoke("plain", &vec![]).unwrap_err(), Error::CallFailed);
}

#[test]
fn invoke_of_unbound_name_is_lookup_failed() {
    let reg = initialize();
    assert_eq!(reg.invoke("missing", &vec![]).unwrap_err(), Error::LookupFailed);
}

#[test]
fn lvalue_parameter_rejects_const_argument() {
    let mut reg = initialize();
    let int32 = reg.register(1, "Int32");
    reg.install(int32, all_caps()).unwrap();
    let f = Function::new(vec![Param { ind: int32, qual: Qualifier::Lvalue }], int32, Op::Sum);
    let bound = reg.make_value(int32, Payload::Func(f)).unwrap();
    reg.set_global("wants_lvalue", bound);
    let const_args = vec![int_arg(&reg, int32, 1, Qualifier::Const)];
    assert_eq!(reg.invoke("wants_lvalue", &const_args).unwrap_err(), Error::CallFailed);
    let lvalue_args = vec![int_arg(&reg, int32, 1, Qualifier::Lvalue)];
    let mut ok = reg.invoke("wants_lvalue", &lvalue_args).unwrap();
    assert_eq!(ok.extract(int32).unwrap(), Payload::Int(1));
}

#[test]
fn sum_overflow_fails_the_call() {
    let mut reg = initialize();
    let int32 = reg.register(1, "Int32");
    reg.install(int32, all_caps()).unwrap();
    let f = Function::new(
        vec![
            Param { ind: int32, qual: Qualifier::Const },
            Param { ind: int32, qual: Qualifier::Const },
        ],
        int32,
        Op::Sum,
    );
    let bound = reg.make_value(int32, Payload::Func(f)).unwrap();
    reg.set_global("add", bound);
    let args = vec![
        int_arg(&reg, int32, i64::MAX, Qualifier::Const),
        int_arg(&reg, int32, 1, Qualifier::Const),
    ];
    assert_eq!(reg.invoke("add", &args).unwrap_err(), Error::CallFailed);
}

#[test]
fn constant_callable_ignores_arguments() {
    let mut reg = initialize();
    let int32 = reg.register(1, "Int32");
    reg.install(int32, all_caps()).unwrap();
    let f = Function::new(vec![], int32, Op::Constant(30));
    let bound = reg.make_value(int32, Payload::Func(f)).unwrap();
    reg.set_global("easy", bound);
    let mut got = reg.invoke("easy", &vec![]).unwrap();
    assert_eq!(got.extract(int32).unwrap(), Payload::Int(30));
}

#[test]
fn call_ref_wraps_the_result_as_an_lvalue_view() {
    let mut reg = initialize();
    let int32 = reg.register(1, "Int32");
    reg.install(int32, all_caps()).unwrap();
    let f = Function::new(vec![], int32, Op::Constant(9));
    let bound = reg.make_value(int32, Payload::Func(f)).unwrap();
    let view = bound.call_ref(&reg, &vec![]).unwrap();
    assert!(view.has_value());
    assert_eq!(view.index(), int32);
    assert!(matches!(view.qualifier(), Qualifier::Lvalue));
}

#[test]
fn base_capability_serves_derived_value() {
    let mut reg = initialize();
    let base = reg.register(1, "Base");
    reg.install(base, all_caps()).unwrap();
    let derived = reg.register(2, "Derived");
    reg.install(
        derived,
        Caps { copy: false, to_value: false, to_ref: false, assign_if: false, from_ref: false },
    )
    .unwrap();
    reg.add_base(derived, base).unwrap();
    assert_eq!(reg.find_capability(derived, Cap::CopyInstance), Some(base));
    let mut v = reg.make_value(derived, Payload::Int(1)).unwrap();
    let mut w = v.try_clone(&reg).unwrap();
    assert_eq!(w.extract(derived).unwrap(), Payload::Int(1));
}

#[test]
fn capability_absent_everywhere_resolves_to_none() {
    let mut reg = initialize();
    let a = reg.register(1, "A");
    reg.install(
        a,
        Caps { copy: false, to_value: false, to_ref: false, assign_if: false, from_ref: false },
    )
    .unwrap();
    assert_eq!(reg.find_capability(a, Cap::CopyInstance), None);
}

#[test]
fn method_dispatch_projects_the_receiver() {
    let mut reg = initialize();
    let int32 = reg.register(1, "Int32");
    reg.install(int32, all_caps()).unwrap();
    let getter = Function::new(vec![Param { ind: int32, qual: Qualifier::Const }], int32, Op::Arg(0));
    reg.add_method(int32, "get", getter).unwrap();
    let v = reg.make_value(int32, Payload::Int(42)).unwrap();
    let mut got = v.method(&reg, "get", &vec![]).unwrap();
    assert_eq!(got.extract(int32).unwrap(), Payload::Int(42));
    assert_eq!(v.method(&reg, "absent", &vec![]).unwrap_err(), Error::CallFailed);
}

#[test]
fn method_dispatch_walks_bases_and_overloads() {
    let mut reg = initialize();
    let base = reg.register(1, "Base");
    reg.install(base, all_caps()).unwrap();
    let derived = reg.register(2, "Derived");
    reg.install(derived, all_caps()).unwrap();
    reg.add_base(derived, base).unwrap();
    // Two overloads of one name on the base: arity selects between them.
    let nullary = Function::new(
        vec![Param { ind: base, qual: Qualifier::Const }],
        base,
        Op::Constant(1),
    );
    let unary = Function::new(
        vec![
            Param { ind: base, qual: Qualifier::Const },
            Param { ind: base, qual: Qualifier::Const },
        ],
        base,
        Op::Constant(2),
    );
    reg.add_method(base, "f", nullary).unwrap();
    reg.add_method(base, "f", unary).unwrap();
    let v = reg.make_value(derived, Payload::Int(0)).unwrap();
    let mut r0 = v.method(&reg, "f", &vec![]).unwrap();
    assert_eq!(r0.extract(base).unwrap(), Payload::Int(1));
    let args = vec![int_arg(&reg, base, 7, Qualifier::Const)];
    let mut r1 = v.method(&reg, "f", &args).unwrap();
    assert_eq!(r1.extract(base).unwrap(), Payload::Int(2));
}

#[test]
fn assign_if_replaces_content_only_on_convertible_index() {
    let mut reg = initialize();
    let a = reg.register(1, "A");
    reg.install(a, all_caps()).unwrap();
    let b = reg.register(2, "B");
    reg.install(b, all_caps()).unwrap();
    let mut target = reg.make_value(a, Payload::Int(1)).unwrap();
    let same = int_arg(&reg, a, 9, Qualifier::Const);
    target.assign_if(&reg, &same).unwrap();
    let other = int_arg(&reg, b, 5, Qualifier::Const);
    assert_eq!(target.assign_if(&reg, &other).unwrap_err(), Error::TypeMismatch);
    assert_eq!(target.extract(a).unwrap(), Payload::Int(9));
}

#[test]
fn to_value_needs_the_to_value_slot() {
    let mut reg = initialize();
    let a = reg.register(1, "A");
    reg.install(
        a,
        Caps { copy: false, to_value: false, to_ref: true, assign_if: false, from_ref: false },
    )
    .unwrap();
    let v = reg.make_value(a, Payload::Int(3)).unwrap();
    let view = v.to_ref(&reg, Qualifier::Const).unwrap();
    assert_eq!(view.to_value(&reg).unwrap_err(), Error::CallFailed);
    let empty = Ref::new();
    assert!(!empty.has_value());
    assert_eq!(empty.to_value(&reg).unwrap_err(), Error::CallFailed);
}

#[test]
fn to_ref_needs_the_to_ref_slot() {
    let mut reg = initialize();
    let a = reg.register(1, "A");
    reg.install(
        a,
        Caps { copy: false, to_value: true, to_ref: false, assign_if: false, from_ref: false },
    )
    .unwrap();
    let v = reg.make_value(a, Payload::Int(3)).unwrap();
    assert_eq!(v.to_ref(&reg, Qualifier::Const).unwrap_err(), Error::CallFailed);
    let empty = Value::new();
    assert_eq!(empty.to_ref(&reg, Qualifier::Const).unwrap_err(), Error::CallFailed);
}

#[test]
fn from_ref_converts_exactly_or_through_scope() {
    let mut reg = initialize();
    let base = reg.register(1, "Base");
    reg.install(base, all_caps()).unwrap();
    let derived = reg.register(2, "Derived");
    reg.install(derived, all_caps()).unwrap();
    reg.add_base(derived, base).unwrap();
    let arg = int_arg(&reg, derived, 8, Qualifier::Const);
    let closed = Scope { implicit_bases: false };
    let open_scope = Scope { implicit_bases: true };
    // Exact match works under any scope.
    let mut exact = reg.from_ref(derived, &arg, &closed).unwrap();
    assert_eq!(exact.extract(derived).unwrap(), Payload::Int(8));
    // Derived-to-base conversion only where the scope allows it.
    assert_eq!(reg.from_ref(base, &arg, &closed).unwrap_err(), Error::TypeMismatch);
    let mut converted = reg.from_ref(base, &arg, &open_scope).unwrap();
    assert_eq!(converted.extract(base).unwrap(), Payload::Int(8));
}
