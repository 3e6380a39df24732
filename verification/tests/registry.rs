use serde_json::Value;
use slick::{RegistryError, TypedRegistryBuilder, TypedStruct};

// -- Helpers --

fn echo_factory(value: &Value) -> Result<String, String> {
    serde_json::from_value::<String>(value.clone()).map_err(|e| e.to_string())
}

fn int_factory(value: &Value) -> Result<String, String> {
    let n: i64 = serde_json::from_value(value.clone()).map_err(|e| e.to_string())?;
    Ok(format!("int:{n}"))
}

fn failing_factory(_value: &Value) -> Result<String, String> {
    Err("construction failed".to_owned())
}

fn json(text: &str) -> Value {
    serde_json::from_str(text).unwrap()
}

// -- Builder tests --

#[test]
fn register_adds_factory() {
    let registry = TypedRegistryBuilder::<String, String>::new()
        .register("test.echo.v1", echo_factory)
        .build();

    assert_eq!(registry.len(), 1);
    assert_eq!(registry.type_urls(), vec!["test.echo.v1"]);
}

#[test]
fn register_multiple() {
    let registry = TypedRegistryBuilder::<String, String>::new()
        .register("test.echo.v1", echo_factory)
        .register("test.int.v1", int_factory)
        .build();

    assert_eq!(registry.len(), 2);
    assert_eq!(registry.type_urls(), vec!["test.echo.v1", "test.int.v1"]);
}

#[test]
fn register_duplicate_last_wins() {
    let registry = TypedRegistryBuilder::<String, String>::new()
        .register("test.v1", echo_factory)
        .register("test.v1", int_factory)
        .build();

    assert_eq!(registry.len(), 1);
    let result = registry.create("test.v1", &Value::from(42)).unwrap();
    assert_eq!(result, "int:42");
}

#[test]
fn contains_checks_registration() {
    let builder = TypedRegistryBuilder::<String, String>::new().register("test.echo.v1", echo_factory);

    assert!(builder.contains("test.echo.v1"));
    assert!(!builder.contains("test.missing.v1"));
}

// -- Create tests --

#[test]
fn create_returns_instance() {
    let registry = TypedRegistryBuilder::<String, String>::new()
        .register("test.echo.v1", echo_factory)
        .build();

    let result = registry.create("test.echo.v1", &Value::from("hello")).unwrap();
    assert_eq!(result, "hello");
}

#[test]
fn create_unknown_type_url() {
    let registry = TypedRegistryBuilder::<String, String>::new()
        .register("test.echo.v1", echo_factory)
        .build();

    let err = registry.create("test.missing.v1", &Value::from("x")).unwrap_err();
    match err {
        RegistryError::UnknownTypeUrl { type_url, available } => {
            assert_eq!(type_url, "test.missing.v1");
            assert_eq!(available, vec!["test.echo.v1"]);
        }
        _ => panic!("expected UnknownTypeUrl"),
    }
}

#[test]
fn create_factory_error() {
    let registry = TypedRegistryBuilder::<String, String>::new()
        .register("test.fail.v1", failing_factory)
        .build();

    let err = registry.create("test.fail.v1", &Value::Null).unwrap_err();
    match err {
        RegistryError::Factory { type_url, source } => {
            assert_eq!(type_url, "test.fail.v1");
            assert_eq!(source, "construction failed");
        }
        _ => panic!("expected Factory error"),
    }
}

// -- Pipeline tests --

#[test]
fn create_all_success() {
    let registry = TypedRegistryBuilder::<String, String>::new()
        .register("test.echo.v1", echo_factory)
        .register("test.int.v1", int_factory)
        .build();

    let configs = vec![
        TypedStruct { type_url: "test.echo.v1".into(), value: Value::from("hi") },
        TypedStruct { type_url: "test.int.v1".into(), value: Value::from(42) },
    ];

    let pipeline = registry.create_all(&configs).unwrap();
    assert_eq!(pipeline, vec!["hi", "int:42"]);
}

#[test]
fn create_all_fails_on_unknown() {
    let registry = TypedRegistryBuilder::<String, String>::new()
        .register("test.echo.v1", echo_factory)
        .build();

    let configs = vec![
        TypedStruct { type_url: "test.echo.v1".into(), value: Value::from("hi") },
        TypedStruct { type_url: "test.missing.v1".into(), value: Value::Null },
    ];

    let err = registry.create_all(&configs).unwrap_err();
    assert!(matches!(err, RegistryError::UnknownTypeUrl { .. }));
}

// -- Empty registry --

#[test]
fn empty_registry() {
    let registry = TypedRegistryBuilder::<String, String>::new().build();
    assert!(registry.is_empty());
    assert_eq!(registry.len(), 0);
    assert!(registry.type_urls().is_empty());
}

// -- Display --

#[test]
fn registry_error_display() {
    let err: RegistryError<String> = RegistryError::UnknownTypeUrl {
        type_url: "x.v1".into(),
        available: vec!["a.v1".into(), "b.v1".into()],
    };
    assert_eq!(err.to_string(), "unknown type URL 'x.v1'. registered: [a.v1, b.v1]");

    let err: RegistryError<String> = RegistryError::Factory {
        type_url: "x.v1".into(),
        source: "boom".into(),
    };
    assert_eq!(err.to_string(), "factory error for 'x.v1': boom");
}

// -- Further cases --

#[test]
fn type_urls_sorted_whatever_the_registration_order() {
    let registry = TypedRegistryBuilder::<String, String>::new()
        .register("c.v1", echo_factory)
        .register("a.v2", echo_factory)
        .register("b.v1", echo_factory)
        .register("a.v1", echo_factory)
        .register("a", echo_factory)
        .build();
    assert_eq!(registry.type_urls(), vec!["a", "a.v1", "a.v2", "b.v1", "c.v1"]);
    assert_eq!(registry.len(), 5);
    assert!(!registry.is_empty());
}

#[test]
fn type_urls_sorted_by_bytes_like_str() {
    let urls = ["zeta.v1", "\u{e9}t\u{e9}.v1", "Zeta.v1", "\u{1f600}.v1", "e.v1"];
    let mut builder = TypedRegistryBuilder::<String, String>::new();
    for u in urls.iter() {
        builder = builder.register(u, echo_factory);
    }
    let registry = builder.build();
    let mut expected: Vec<&str> = urls.to_vec();
    expected.sort();
    assert_eq!(registry.type_urls(), expected);
}

#[test]
fn unknown_error_lists_exactly_type_urls() {
    let registry = TypedRegistryBuilder::<String, String>::new()
        .register("b.v1", echo_factory)
        .register("a.v1", int_factory)
        .register("c.v1", failing_factory)
        .build();
    let err = registry.create("d.v1", &Value::Null).unwrap_err();
    match err {
        RegistryError::UnknownTypeUrl { type_url, available } => {
            assert_eq!(type_url, "d.v1");
            assert_eq!(available, registry.type_urls());
            assert_eq!(available.len(), registry.len());
        }
        _ => panic!("expected UnknownTypeUrl"),
    }
}

#[test]
fn unknown_error_on_empty_registry_lists_nothing() {
    let registry = TypedRegistryBuilder::<u8, String>::new().build();
    match registry.create("a.v1", &Value::Null) {
        Err(RegistryError::UnknownTypeUrl { type_url, available }) => {
            assert_eq!(type_url, "a.v1");
            assert!(available.is_empty());
        }
        _ => panic!("expected UnknownTypeUrl"),
    }
}

#[test]
fn last_registration_leaves_other_urls_alone() {
    let registry = TypedRegistryBuilder::<String, String>::new()
        .register("echo.v1", echo_factory)
        .register("int.v1", echo_factory)
        .register("int.v1", int_factory)
        .build();
    assert_eq!(registry.create("echo.v1", &Value::from("same")).unwrap(), "same");
    assert_eq!(registry.create("int.v1", &Value::from(7)).unwrap(), "int:7");
    assert_eq!(registry.type_urls(), vec!["echo.v1", "int.v1"]);
}

#[test]
fn factory_error_carries_the_factory_message() {
    let registry = TypedRegistryBuilder::<String, String>::new()
        .register("int.v1", int_factory)
        .build();
    match registry.create("int.v1", &Value::from("not a number")) {
        Err(RegistryError::Factory { type_url, source }) => {
            assert_eq!(type_url, "int.v1");
            assert!(!source.is_empty());
        }
        _ => panic!("expected Factory error"),
    }
}

#[test]
fn create_all_of_nothing_succeeds() {
    let registry = TypedRegistryBuilder::<String, String>::new().build();
    let made = registry.create_all(&[]).unwrap();
    assert!(made.is_empty());
}

#[test]
fn create_all_of_one_is_create() {
    let registry = TypedRegistryBuilder::<String, String>::new()
        .register("int.v1", int_factory)
        .register("fail.v1", failing_factory)
        .build();
    let one = [TypedStruct { type_url: "int.v1".into(), value: Value::from(5) }];
    assert_eq!(registry.create_all(&one).unwrap(), vec![registry.create("int.v1", &Value::from(5)).unwrap()]);

    let failing = [TypedStruct { type_url: "fail.v1".into(), value: Value::Null }];
    match registry.create_all(&failing) {
        Err(RegistryError::Factory { type_url, source }) => {
            assert_eq!(type_url, "fail.v1");
            assert_eq!(source, "construction failed");
        }
        _ => panic!("expected Factory error"),
    }
}

#[test]
fn create_all_stops_at_first_error() {
    let registry = TypedRegistryBuilder::<String, String>::new()
        .register("echo.v1", echo_factory)
        .register("fail.v1", failing_factory)
        .build();
    let configs = vec![
        TypedStruct { type_url: "echo.v1".into(), value: Value::from("hi") },
        TypedStruct { type_url: "fail.v1".into(), value: Value::Null },
        TypedStruct { type_url: "missing.v1".into(), value: Value::Null },
    ];
    match registry.create_all(&configs) {
        Err(RegistryError::Factory { type_url, .. }) => assert_eq!(type_url, "fail.v1"),
        _ => panic!("expected the factory error of the second entry"),
    }
}

#[test]
fn create_all_keeps_entry_order() {
    let registry = TypedRegistryBuilder::<String, String>::new()
        .register("echo.v1", echo_factory)
        .register("int.v1", int_factory)
        .build();
    let configs = vec![
        TypedStruct { type_url: "int.v1".into(), value: Value::from(1) },
        TypedStruct { type_url: "echo.v1".into(), value: Value::from("two") },
        TypedStruct { type_url: "int.v1".into(), value: Value::from(3) },
    ];
    assert_eq!(registry.create_all(&configs).unwrap(), vec!["int:1", "two", "int:3"]);
}

#[test]
fn register_unique_adds_a_new_url() {
    let builder = TypedRegistryBuilder::<String, String>::new()
        .register_unique("a.v1", echo_factory)
        .register_unique("b.v1", int_factory);
    assert!(builder.contains("a.v1"));
    assert!(builder.contains("b.v1"));
    let registry = builder.build();
    assert_eq!(registry.len(), 2);
    assert_eq!(registry.create("b.v1", &Value::from(2)).unwrap(), "int:2");
}

#[test]
fn default_builder_is_empty() {
    let builder: TypedRegistryBuilder<String, String> = Default::default();
    assert!(!builder.contains("a.v1"));
    assert!(builder.build().is_empty());
}

#[test]
fn build_keeps_every_registration() {
    let builder = TypedRegistryBuilder::<String, String>::new()
        .register("a.v1", echo_factory)
        .register("b.v1", int_factory);
    assert!(builder.contains("a.v1"));
    let registry = builder.build();
    assert_eq!(registry.type_urls(), vec!["a.v1", "b.v1"]);
    assert_eq!(registry.create("a.v1", &json("\"x\"")).unwrap(), "x");
}

#[test]
fn closures_can_capture() {
    let prefix = String::from("made:");
    let registry = TypedRegistryBuilder::<String, String>::new()
        .register("p.v1", move |v: &Value| Ok(format!("{}{}", prefix, v)))
        .build();
    assert_eq!(registry.create("p.v1", &Value::from(3)).unwrap(), "made:3");
}

#[test]
fn wrap_factory_result_tags_errors() {
    let ok: Result<u8, RegistryError<String>> = slick::registry::wrap_factory_result("a.v1", Ok(3));
    assert!(matches!(ok, Ok(3)));
    let err = slick::registry::wrap_factory_result::<u8, String>("a.v1", Err("bad".into()));
    match err {
        Err(RegistryError::Factory { type_url, source }) => {
            assert_eq!(type_url, "a.v1");
            assert_eq!(source, "bad");
        }
        _ => panic!("expected Factory error"),
    }
}

#[test]
fn describe_uses_the_source_text_for_factory_errors() {
    let err: RegistryError<u32> = RegistryError::Factory { type_url: "n.v1".into(), source: 7 };
    assert_eq!(err.describe("seven"), "factory error for 'n.v1': seven");
    let err: RegistryError<u32> = RegistryError::UnknownTypeUrl { type_url: "n.v1".into(), available: vec![] };
    assert_eq!(err.describe("ignored"), "unknown type URL 'n.v1'. registered: []");
    let err: RegistryError<u32> =
        RegistryError::UnknownTypeUrl { type_url: "n.v1".into(), available: vec!["only.v1".into()] };
    assert_eq!(err.describe(""), "unknown type URL 'n.v1'. registered: [only.v1]");
}

#[test]
fn typed_struct_clone_keeps_url_and_value() {
    let ts = TypedStruct { type_url: "test.v1".into(), value: json(r#"{"a": 1}"#) };
    let copy = ts.clone();
    assert_eq!(copy.type_url, "test.v1");
    assert_eq!(copy.value, json(r#"{"a": 1}"#));
    assert_eq!(copy.value["a"], Value::from(1));
}
