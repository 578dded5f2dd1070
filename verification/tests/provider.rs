use serialized_provider::Dict;
use serialized_provider::Error;
use serialized_provider::Metadata;
use serialized_provider::Num;
use serialized_provider::Profile;
use serialized_provider::Serialized;
use serialized_provider::Value;
use serialized_provider::serialized::value_from;

fn num(n: i64) -> Value {
    Value::Num(Num::I64(n))
}

fn numbers_dict() -> Dict {
    let mut d = Dict::new();
    d.insert(
        String::from("numbers"),
        Value::Array(vec![num(1), num(2), num(3)]),
    );
    d
}

#[test]
fn unkeyed_dict_under_default_profile() {
    let s = Serialized::defaults(Value::Dict(numbers_dict()));
    let m = s.data().unwrap();
    let expected = Profile::new("default").collect(numbers_dict());
    assert_eq!(m, expected);
    assert_eq!(m.len(), 1);
    let d = m.get("default").unwrap();
    assert_eq!(d.len(), 1);
    assert_eq!(
        d.get("numbers"),
        Some(&Value::Array(vec![num(1), num(2), num(3)]))
    );
}

#[test]
fn unkeyed_dict_under_custom_profile() {
    let s = Serialized::from(Value::Dict(numbers_dict()), Profile::new("debug"));
    let m = s.data().unwrap();
    assert_eq!(m, Profile::new("debug").collect(numbers_dict()));
    assert!(m.get("default").is_none());
}

#[test]
fn keyed_scalar_under_global_profile() {
    let s = Serialized::global("a.b", num(42));
    let m = s.data().unwrap();

    let mut inner = Dict::new();
    inner.insert(String::from("b"), num(42));
    let mut outer = Dict::new();
    outer.insert(String::from("a"), Value::Dict(inner));
    let expected = Profile::new("global").collect(outer);
    assert_eq!(m, expected);
}

#[test]
fn keyed_three_segments() {
    let s = Serialized::default("a.b.c", Value::Bool(true));
    let m = s.data().unwrap();

    let mut c = Dict::new();
    c.insert(String::from("c"), Value::Bool(true));
    let mut b = Dict::new();
    b.insert(String::from("b"), Value::Dict(c));
    let mut a = Dict::new();
    a.insert(String::from("a"), Value::Dict(b));
    assert_eq!(m, Profile::new("default").collect(a));
}

#[test]
fn empty_segment_contributes_no_nesting() {
    let with_gap = Serialized::default("a..b", num(7)).data().unwrap();
    let without_gap = Serialized::default("a.b", num(7)).data().unwrap();
    assert_eq!(with_gap, without_gap);
}

#[test]
fn leading_and_trailing_dots_are_ignored() {
    let plain = Serialized::default("a", num(7)).data().unwrap();
    assert_eq!(Serialized::default(".a", num(7)).data().unwrap(), plain);
    assert_eq!(Serialized::default("a.", num(7)).data().unwrap(), plain);
}

#[test]
fn duplicate_segments_nest_hierarchically() {
    let m = Serialized::default("a.a", num(1)).data().unwrap();
    let d = m.get("default").unwrap();
    assert_eq!(d.len(), 1);
    match d.get("a") {
        Some(Value::Dict(inner)) => assert_eq!(inner.get("a"), Some(&num(1))),
        other => panic!("expected a nested dictionary, got {:?}", other),
    }
}

#[test]
fn unkeyed_scalar_fails_with_type_mismatch() {
    let s = Serialized::defaults(num(42));
    match s.data() {
        Err(Error::TypeMismatch { actual, expected }) => {
            assert_eq!(actual, "integer");
            assert_eq!(expected, "map");
        }
        other => panic!("expected a type mismatch, got {:?}", other),
    }
}

#[test]
fn mismatch_reports_each_shape() {
    let cases = vec![
        (Value::Null, "null"),
        (Value::Bool(false), "boolean"),
        (Value::Str(String::from("x")), "string"),
        (Value::Array(vec![]), "array"),
    ];
    for (value, kind) in cases {
        match Serialized::defaults(value).data() {
            Err(Error::TypeMismatch { actual, expected }) => {
                assert_eq!(actual, kind);
                assert_eq!(expected, "map");
            }
            other => panic!("expected a type mismatch, got {:?}", other),
        }
    }
}

#[test]
fn degenerate_key_is_a_passthrough() {
    // A key of only delimiters adds no nesting: a dictionary still succeeds,
    // a scalar still fails with its own shape.
    let ok = Serialized::defaults(Value::Dict(numbers_dict()))
        .key("..")
        .data()
        .unwrap();
    assert_eq!(ok, Profile::new("default").collect(numbers_dict()));

    match Serialized::defaults(num(1)).key(".").data() {
        Err(Error::TypeMismatch { actual, .. }) => assert_eq!(actual, "integer"),
        other => panic!("expected a type mismatch, got {:?}", other),
    }
}

#[test]
fn empty_key_is_a_passthrough() {
    let ok = Serialized::defaults(Value::Dict(numbers_dict()))
        .key("")
        .data()
        .unwrap();
    assert_eq!(ok, Profile::new("default").collect(numbers_dict()));
}

#[test]
fn produce_is_idempotent() {
    let s = Serialized::global("a.b", num(42));
    assert_eq!(s.data().unwrap(), s.data().unwrap());

    let e = Serialized::defaults(num(1));
    assert_eq!(e.data(), e.data());
}

#[test]
fn with_profile_and_with_key_are_pure() {
    let s = Serialized::defaults(Value::Dict(numbers_dict()));
    let before = s.data().unwrap();

    let rescoped = s.clone().profile(Profile::new("debug"));
    let rekeyed = s.clone().key("nested");
    let after = s.data().unwrap();

    assert_eq!(before, after);
    assert_eq!(
        rescoped.data().unwrap(),
        Profile::new("debug").collect(numbers_dict())
    );
    let mut wrapped = Dict::new();
    wrapped.insert(String::from("nested"), Value::Dict(numbers_dict()));
    assert_eq!(
        rekeyed.data().unwrap(),
        Profile::new("default").collect(wrapped)
    );
}

#[test]
fn globals_uses_the_global_profile() {
    let m = Serialized::globals(Value::Dict(numbers_dict())).data().unwrap();
    assert_eq!(m, Profile::new("global").collect(numbers_dict()));
}

#[test]
fn value_from_wraps_each_segment() {
    let wrapped = value_from("a", num(5));
    let mut expected = Dict::new();
    expected.insert(String::from("a"), num(5));
    assert_eq!(wrapped, Value::Dict(expected));
    assert_ne!(wrapped, num(5));
}

#[test]
fn value_from_passes_through_without_segments() {
    assert_eq!(value_from("", num(5)), num(5));
    assert_eq!(value_from("...", num(5)), num(5));
}

#[test]
fn value_from_handles_multibyte_segments() {
    let wrapped = value_from("caf\u{e9}.b", num(1));
    let mut inner = Dict::new();
    inner.insert(String::from("b"), num(1));
    let mut outer = Dict::new();
    outer.insert(String::from("caf\u{e9}"), Value::Dict(inner));
    assert_eq!(wrapped, Value::Dict(outer));
}

#[test]
fn profiles_compare_by_name() {
    assert_eq!(Profile::new("default"), Profile::Default);
    assert_eq!(Profile::new("global"), Profile::Global);
    assert_eq!(Profile::Custom(String::from("default")), Profile::Default);
    assert_ne!(Profile::new("debug"), Profile::new("release"));
    // Identifiers are case-sensitive.
    assert_ne!(Profile::new("Default"), Profile::Default);
}

#[test]
fn dict_insert_replaces_in_place() {
    let mut d = Dict::new();
    d.insert(String::from("a"), num(1));
    d.insert(String::from("b"), num(2));
    d.insert(String::from("a"), num(3));
    assert_eq!(d.len(), 2);
    assert_eq!(d.get("a"), Some(&num(3)));
    assert_eq!(d.get("b"), Some(&num(2)));
    assert_eq!(d.get("c"), None);
}

#[test]
fn metadata_names_the_value_shape() {
    assert_eq!(
        Serialized::defaults(num(1)).metadata(),
        Metadata::from("integer")
    );
    assert_eq!(
        Serialized::defaults(Value::Dict(Dict::new())).metadata().name,
        "map"
    );
}

#[test]
fn clone_preserves_the_descriptor() {
    let s = Serialized::global("a.b", num(42));
    let c = s.clone();
    assert_eq!(s.data(), c.data());
}
