use std::str::FromStr;

use tryphon::config_error::ConfigFieldError;
use tryphon::error_print_mode::ErrorPrintMode;
use tryphon::field_path::FieldPath;
use tryphon::env_overrides::EnvOverrides;
use tryphon::env_overrides::effective_source;
use tryphon::env_overrides::read_env;
use tryphon::key_source::KeySource;
use tryphon::key_source::LookupResult;
use tryphon::resolver::resolve_field;
use tryphon::resolver::resolve_schema;
use tryphon::resolver::run_decoder;
use tryphon::schema::ConfigValue;
use tryphon::schema::DecoderKind;
use tryphon::schema::FieldKind;
use tryphon::schema::FieldSpec;
use tryphon::schema::IntWidth;
use tryphon::schema::Schema;
use tryphon::schema::VariantSpec;

fn leaf(name: &str, keys: &[&str], decoder: DecoderKind) -> FieldSpec {
    FieldSpec {
        name: Some(name.to_string()),
        keys: keys.iter().map(|k| k.to_string()).collect(),
        optional: false,
        default: None,
        kind: FieldKind::Leaf(decoder),
    }
}

#[test]
fn test_fallback_stops_at_first_presence() {
    // With candidate keys [A, B] for an integer field, A="bad" and B="5":
    // resolution yields a parsing error on A's value; B is never consulted.
    let mut src = KeySource::new();
    src.set("A", "bad");
    src.set("B", "5");
    let field = leaf("n", &["A", "B"], DecoderKind::Unsigned(IntWidth::W32));

    let r = resolve_field(&field, 0, &src);

    match r {
        Err(ConfigFieldError::ParsingError {
            raw, env_var_name, ..
        }) => {
            assert_eq!(raw, "bad");
            assert_eq!(env_var_name, "A");
        }
        other => panic!("expected a parsing error on A, got {:?}", other),
    }
}

#[test]
fn test_fallback_environment_variables_primary() {
    let mut src = KeySource::new();
    src.set("PRIMARY_VALUE", "from_primary");
    let field = leaf(
        "value",
        &["PRIMARY_VALUE", "SECONDARY_VALUE", "TERTIARY_VALUE"],
        DecoderKind::Text,
    );

    let r = resolve_field(&field, 0, &src).expect("Failed to load config");
    assert!(matches!(r, ConfigValue::Str(s) if s == "from_primary"));
}

#[test]
fn test_fallback_environment_variables_secondary() {
    let mut src = KeySource::new();
    src.set("SECONDARY_VALUE", "from_secondary");
    let field = leaf(
        "value",
        &["PRIMARY_VALUE", "SECONDARY_VALUE", "TERTIARY_VALUE"],
        DecoderKind::Text,
    );

    let r = resolve_field(&field, 0, &src).expect("Failed to load config");
    assert!(matches!(r, ConfigValue::Str(s) if s == "from_secondary"));
}

#[test]
fn test_fallback_environment_variables_tertiary() {
    let mut src = KeySource::new();
    src.set("TERTIARY_VALUE", "from_tertiary");
    let field = leaf(
        "value",
        &["PRIMARY_VALUE", "SECONDARY_VALUE", "TERTIARY_VALUE"],
        DecoderKind::Text,
    );

    let r = resolve_field(&field, 0, &src).expect("Failed to load config");
    assert!(matches!(r, ConfigValue::Str(s) if s == "from_tertiary"));
}

#[test]
fn test_fallback_priority_order() {
    let field = leaf(
        "value",
        &["PRIMARY_VALUE", "SECONDARY_VALUE", "TERTIARY_VALUE"],
        DecoderKind::Text,
    );

    let mut src = KeySource::new();
    src.set("PRIMARY_VALUE", "primary");
    src.set("SECONDARY_VALUE", "secondary");
    src.set("TERTIARY_VALUE", "tertiary");
    let r = resolve_field(&field, 0, &src).expect("Failed to load config");
    assert!(matches!(r, ConfigValue::Str(s) if s == "primary"));

    let mut src = KeySource::new();
    src.set("SECONDARY_VALUE", "secondary");
    src.set("TERTIARY_VALUE", "tertiary");
    let r = resolve_field(&field, 0, &src).expect("Failed to load config");
    assert!(matches!(r, ConfigValue::Str(s) if s == "secondary"));
}

#[test]
fn test_missing_value_exactly_for_absent_fields() {
    // Three fields: one with a present key, one absent but with a default,
    // one absent with nothing: only the last is missing, with its whole
    // tried key list.
    let mut src = KeySource::new();
    src.set("HOST", "localhost");
    let schema = Schema::Record(vec![
        leaf("host", &["HOST"], DecoderKind::Text),
        FieldSpec {
            name: Some("port".to_string()),
            keys: vec!["PORT".to_string()],
            optional: false,
            default: Some(ConfigValue::Uint(8080)),
            kind: FieldKind::Leaf(DecoderKind::Unsigned(IntWidth::W16)),
        },
        leaf("database_url", &["DATABASE_URL", "DB_URL"], DecoderKind::Text),
    ]);

    let err = resolve_schema(&schema, &src).expect_err("expected one missing field");

    assert_eq!(err.field_errors.len(), 1);
    match &err.field_errors[0] {
        ConfigFieldError::MissingValue {
            field_name,
            field_idx,
            env_vars,
        } => {
            assert_eq!(field_name.as_deref(), Some("database_url"));
            assert_eq!(*field_idx, 2);
            assert_eq!(env_vars, &vec!["DATABASE_URL".to_string(), "DB_URL".to_string()]);
        }
        other => panic!("expected a missing value, got {:?}", other),
    }
}

#[test]
fn test_three_failing_fields_aggregate() {
    // Three independently failing fields and two succeeding ones: the tree
    // has exactly three leaves, each tagged with its own field, in
    // declaration order; the succeeding fields are absent from it.
    let mut src = KeySource::new();
    src.set("A", "not_a_number");
    src.set("C", "fine");
    src.set("D", "also_not_a_number");
    src.set("E", "true");
    let schema = Schema::Record(vec![
        leaf("a", &["A"], DecoderKind::Unsigned(IntWidth::W8)),
        leaf("b", &["B"], DecoderKind::Text),
        leaf("c", &["C"], DecoderKind::Text),
        leaf("d", &["D"], DecoderKind::Signed(IntWidth::W32)),
        leaf("e", &["E"], DecoderKind::Boolean),
    ]);

    let err = resolve_schema(&schema, &src).expect_err("expected three failures");

    assert_eq!(err.field_errors.len(), 3);
    let idxs: Vec<usize> = err
        .field_errors
        .iter()
        .map(|e| match e {
            ConfigFieldError::ParsingError { field_idx, .. } => *field_idx,
            ConfigFieldError::MissingValue { field_idx, .. } => *field_idx,
            ConfigFieldError::Other { field_idx, .. } => *field_idx,
            ConfigFieldError::Nested { field_idx, .. } => *field_idx,
        })
        .collect();
    assert_eq!(idxs, vec![0, 1, 3]);
}

#[test]
fn test_nested_failure_wrapped_unflattened() {
    // A record with one nested sub-record that fails yields exactly one
    // nested node at the parent level, wrapping the child's complete tree.
    let mut src = KeySource::new();
    src.set("APP_NAME", "demo");
    let schema = Schema::Record(vec![
        leaf("name", &["APP_NAME"], DecoderKind::Text),
        FieldSpec {
            name: Some("database".to_string()),
            keys: vec![],
            optional: false,
            default: None,
            kind: FieldKind::Nested(Schema::Record(vec![
                leaf("host", &["DB_HOST"], DecoderKind::Text),
                leaf("port", &["DB_PORT"], DecoderKind::Unsigned(IntWidth::W16)),
            ])),
        },
    ]);

    let err = resolve_schema(&schema, &src).expect_err("expected the nested record to fail");

    assert_eq!(err.field_errors.len(), 1);
    match &err.field_errors[0] {
        ConfigFieldError::Nested {
            field_name, error, ..
        } => {
            assert_eq!(field_name.as_deref(), Some("database"));
            assert_eq!(error.field_errors.len(), 2);
            assert!(matches!(
                &error.field_errors[0],
                ConfigFieldError::MissingValue { field_name, .. } if field_name.as_deref() == Some("host")
            ));
            assert!(matches!(
                &error.field_errors[1],
                ConfigFieldError::MissingValue { field_name, .. } if field_name.as_deref() == Some("port")
            ));
        }
        other => panic!("expected a nested error, got {:?}", other),
    }
}

fn messaging_schema() -> Schema {
    Schema::Sum(vec![
        VariantSpec {
            name: "Kafka".to_string(),
            fields: vec![leaf("broker", &["KAFKA_BROKER"], DecoderKind::Ipv4)],
        },
        VariantSpec {
            name: "Pulsar".to_string(),
            fields: vec![leaf("broker", &["PULSAR_BROKER"], DecoderKind::Ipv4)],
        },
    ])
}

#[test]
fn test_variant_first_success_wins() {
    // V1 fails, V2 succeeds: the constructed V2 value is returned.
    let mut src = KeySource::new();
    src.set("PULSAR_BROKER", "192.168.1.1");

    let v = resolve_schema(&messaging_schema(), &src).expect("Failed to load config");

    match v {
        ConfigValue::Variant(tag, fields) => {
            assert_eq!(tag, 1);
            assert!(matches!(
                fields[0],
                ConfigValue::V4(ip) if ip == tryphon::net_addr::Ipv4Value::new(192, 168, 1, 1)
            ));
        }
        other => panic!("expected a variant, got {:?}", other),
    }
}

#[test]
fn test_variant_declaration_order() {
    // With both variants able to resolve, the first declared wins.
    let mut src = KeySource::new();
    src.set("KAFKA_BROKER", "127.0.0.1");
    src.set("PULSAR_BROKER", "192.168.1.1");

    let v = resolve_schema(&messaging_schema(), &src).expect("Failed to load config");

    match v {
        ConfigValue::Variant(tag, fields) => {
            assert_eq!(tag, 0);
            assert!(matches!(
                fields[0],
                ConfigValue::V4(ip) if ip == tryphon::net_addr::Ipv4Value::new(127, 0, 0, 1)
            ));
        }
        other => panic!("expected a variant, got {:?}", other),
    }
}

#[test]
fn test_variant_last_failure_kept() {
    // With every variant failing, only the last attempted variant's error
    // tree is returned; the earlier diagnostics are discarded.
    let src = KeySource::new();

    let err = resolve_schema(&messaging_schema(), &src).expect_err("expected all variants to fail");

    assert_eq!(err.field_errors.len(), 1);
    match &err.field_errors[0] {
        ConfigFieldError::MissingValue { env_vars, .. } => {
            assert_eq!(env_vars, &vec!["PULSAR_BROKER".to_string()]);
        }
        other => panic!("expected the last variant's missing value, got {:?}", other),
    }
}

#[test]
fn test_optional_wins_over_default() {
    // A field both optional and with a default, with its key absent,
    // resolves to no value: the default is never used.
    let src = KeySource::new();
    let field = FieldSpec {
        name: Some("level".to_string()),
        keys: vec!["LOG_LEVEL".to_string()],
        optional: true,
        default: Some(ConfigValue::Str("info".to_string())),
        kind: FieldKind::Leaf(DecoderKind::Text),
    };

    let r = resolve_field(&field, 0, &src).expect("optional field cannot fail when absent");

    assert!(matches!(r, ConfigValue::Absent));
}

#[test]
fn test_optional_values_partially_set() {
    let mut src = KeySource::new();
    src.set("REQUIRED_FIELD", "required_value");
    src.set("OPTIONAL_NUMBER", "99");
    let optional_field = |name: &str, key: &str, d: DecoderKind| FieldSpec {
        name: Some(name.to_string()),
        keys: vec![key.to_string()],
        optional: true,
        default: None,
        kind: FieldKind::Leaf(DecoderKind::Optional(Box::new(d))),
    };
    let schema = Schema::Record(vec![
        leaf("required", &["REQUIRED_FIELD"], DecoderKind::Text),
        optional_field("optional_string", "OPTIONAL_STRING", DecoderKind::Text),
        optional_field(
            "optional_number",
            "OPTIONAL_NUMBER",
            DecoderKind::Signed(IntWidth::W32),
        ),
        optional_field("optional_bool", "OPTIONAL_BOOL", DecoderKind::Boolean),
    ]);

    let v = resolve_schema(&schema, &src).expect("Failed to load config");

    match v {
        ConfigValue::Record(fields) => {
            assert!(matches!(&fields[0], ConfigValue::Str(s) if s == "required_value"));
            assert!(matches!(fields[1], ConfigValue::Absent));
            match &fields[2] {
                ConfigValue::Present(inner) => {
                    assert!(matches!(**inner, ConfigValue::Int(99)))
                }
                other => panic!("expected a present value, got {:?}", other),
            }
            assert!(matches!(fields[3], ConfigValue::Absent));
        }
        other => panic!("expected a record, got {:?}", other),
    }
}

#[test]
fn test_enum_decoder_case_insensitive() {
    // "debug" and "DEBUG" both select the Debug level; a non-matching
    // input yields an error naming it.
    let levels = DecoderKind::Choice(vec![
        "Error".to_string(),
        "Warn".to_string(),
        "Info".to_string(),
        "Debug".to_string(),
    ]);

    let lower = run_decoder(&levels, "debug".to_string()).unwrap();
    let upper = run_decoder(&levels, "DEBUG".to_string()).unwrap();
    assert!(matches!(lower, ConfigValue::Choice(3)));
    assert!(matches!(upper, ConfigValue::Choice(3)));

    let err = run_decoder(&levels, "verbose".to_string()).unwrap_err();
    assert!(err.contains("verbose"));
}

#[test]
fn test_decoder_runs_identically_twice() {
    // No hidden state: a decoder run twice on identical input yields an
    // identical result.
    let d = DecoderKind::Unsigned(IntWidth::W16);
    let a = run_decoder(&d, "8080".to_string()).unwrap();
    let b = run_decoder(&d, "8080".to_string()).unwrap();
    assert!(matches!((a, b), (ConfigValue::Uint(8080), ConfigValue::Uint(8080))));

    let e1 = run_decoder(&d, "oops".to_string()).unwrap_err();
    let e2 = run_decoder(&d, "oops".to_string()).unwrap_err();
    assert_eq!(e1, e2);
}

#[test]
fn test_unreadable_value_yields_other() {
    let mut src = KeySource::new();
    src.set_unreadable("RAW", "environment variable was not valid unicode");
    let field = leaf("raw", &["RAW"], DecoderKind::Text);

    let r = resolve_field(&field, 0, &src);

    match r {
        Err(ConfigFieldError::Other { message, .. }) => {
            assert_eq!(message, "environment variable was not valid unicode");
        }
        other => panic!("expected an unreadable-value error, got {:?}", other),
    }
}

#[test]
fn test_explicit_overrides() {
    let mut env = KeySource::new();
    env.set("FOO", "bad");
    env.set("BAZ", "bad");

    let mut test_overrides = EnvOverrides::init();
    test_overrides.set("FOO", "bar");
    test_overrides.set("BAZ", "qux");

    let schema = Schema::Record(vec![
        leaf("foo", &["FOO"], DecoderKind::Text),
        leaf("baz", &["BAZ"], DecoderKind::Text),
    ]);

    let src = effective_source(&test_overrides, &env);
    let v = resolve_schema(&schema, &src).expect("Failed to load test config");
    match v {
        ConfigValue::Record(fields) => {
            assert!(matches!(&fields[0], ConfigValue::Str(s) if s == "bar"));
            assert!(matches!(&fields[1], ConfigValue::Str(s) if s == "qux"));
        }
        other => panic!("expected a record, got {:?}", other),
    }

    test_overrides.set("FOO", "baz");
    test_overrides.set("BAZ", "quux");
    let src = effective_source(&test_overrides, &env);
    let v = resolve_schema(&schema, &src).expect("Failed to load test config");
    match v {
        ConfigValue::Record(fields) => {
            assert!(matches!(&fields[0], ConfigValue::Str(s) if s == "baz"));
            assert!(matches!(&fields[1], ConfigValue::Str(s) if s == "quux"));
        }
        other => panic!("expected a record, got {:?}", other),
    }
}

#[test]
fn test_active_overrides_never_fall_back() {
    // An active override scope answers every lookup by itself: a key set
    // only in the underlying source reads as absent.
    let mut env = KeySource::new();
    env.set("ONLY_IN_ENV", "hidden");

    let overrides = EnvOverrides::init();
    assert!(overrides.is_initialized());
    assert!(matches!(
        read_env(&overrides, &env, "ONLY_IN_ENV"),
        LookupResult::NotPresent
    ));

    let inactive = EnvOverrides::default();
    assert!(!inactive.is_initialized());
    assert!(matches!(
        read_env(&inactive, &env, "ONLY_IN_ENV"),
        LookupResult::Found(v) if v == "hidden"
    ));
}

#[test]
fn test_override_get() {
    let mut overrides = EnvOverrides::init();
    overrides.set("KEY", "value");

    assert_eq!(overrides.get("KEY"), Some("value".to_string()));
    assert_eq!(overrides.get("OTHER"), None);
}

#[test]
fn test_default_values_used_when_no_env_set() {
    let mut src = KeySource::new();
    src.set("DB_PASSWORD", "pass");
    src.set("DB_NAME", "db");
    let with_default = |name: &str, key: &str, d: DecoderKind, default: ConfigValue| FieldSpec {
        name: Some(name.to_string()),
        keys: vec![key.to_string()],
        optional: false,
        default: Some(default),
        kind: FieldKind::Leaf(d),
    };
    let schema = Schema::Record(vec![
        with_default(
            "name",
            "APP_NAME",
            DecoderKind::Text,
            ConfigValue::Str("test-app".to_string()),
        ),
        with_default(
            "port",
            "APP_PORT",
            DecoderKind::Unsigned(IntWidth::W16),
            ConfigValue::Uint(8080),
        ),
        with_default(
            "debug",
            "DEBUG_MODE",
            DecoderKind::Boolean,
            ConfigValue::Bool(false),
        ),
        with_default(
            "host",
            "DB_HOST",
            DecoderKind::Text,
            ConfigValue::Str("localhost".to_string()),
        ),
        with_default(
            "db_port",
            "DB_PORT",
            DecoderKind::Unsigned(IntWidth::W16),
            ConfigValue::Uint(5432),
        ),
        FieldSpec {
            name: Some("password".to_string()),
            keys: vec!["DB_PASSWORD".to_string()],
            optional: false,
            default: None,
            kind: FieldKind::Leaf(DecoderKind::Secret(Box::new(DecoderKind::Text))),
        },
        leaf("database", &["DB_NAME"], DecoderKind::Text),
    ]);

    let v = resolve_schema(&schema, &src).expect("Failed to load config");

    match v {
        ConfigValue::Record(fields) => {
            assert!(matches!(&fields[0], ConfigValue::Str(s) if s == "test-app"));
            assert!(matches!(fields[1], ConfigValue::Uint(8080)));
            assert!(matches!(fields[2], ConfigValue::Bool(false)));
            assert!(matches!(&fields[3], ConfigValue::Str(s) if s == "localhost"));
            assert!(matches!(fields[4], ConfigValue::Uint(5432)));
            match &fields[5] {
                ConfigValue::Secret(inner) => {
                    assert!(matches!(&**inner, ConfigValue::Str(s) if s == "pass"))
                }
                other => panic!("expected a secret, got {:?}", other),
            }
            assert!(matches!(&fields[6], ConfigValue::Str(s) if s == "db"));
        }
        other => panic!("expected a record, got {:?}", other),
    }
}

#[test]
fn test_boolean_parsing() {
    let schema = Schema::Record(vec![
        leaf("debug", &["DEBUG_MODE"], DecoderKind::Boolean),
    ]);

    let mut src = KeySource::new();
    src.set("DEBUG_MODE", "false");
    let v = resolve_schema(&schema, &src).expect("Failed to load config");
    assert!(matches!(v, ConfigValue::Record(ref f) if matches!(f[0], ConfigValue::Bool(false))));

    let mut src = KeySource::new();
    src.set("DEBUG_MODE", "true");
    let v = resolve_schema(&schema, &src).expect("Failed to load config");
    assert!(matches!(v, ConfigValue::Record(ref f) if matches!(f[0], ConfigValue::Bool(true))));

    let mut src = KeySource::new();
    src.set("DEBUG_MODE", "xyz");
    let config = resolve_schema(&schema, &src).expect_err("Expected to fail config");
    assert!(matches!(
        config.field_errors.first().expect("Expected 1 error"),
        ConfigFieldError::ParsingError { raw, .. } if raw == "xyz"
    ));
}

#[test]
fn test_optional_values_all_set() {
    let mut src = KeySource::new();
    src.set("REQUIRED_FIELD", "required_value");
    src.set("OPTIONAL_STRING", "optional_value");
    src.set("OPTIONAL_NUMBER", "42");
    src.set("OPTIONAL_BOOL", "true");
    let optional_field = |name: &str, key: &str, d: DecoderKind| FieldSpec {
        name: Some(name.to_string()),
        keys: vec![key.to_string()],
        optional: true,
        default: None,
        kind: FieldKind::Leaf(DecoderKind::Optional(Box::new(d))),
    };
    let schema = Schema::Record(vec![
        leaf("required", &["REQUIRED_FIELD"], DecoderKind::Text),
        optional_field("optional_string", "OPTIONAL_STRING", DecoderKind::Text),
        optional_field(
            "optional_number",
            "OPTIONAL_NUMBER",
            DecoderKind::Signed(IntWidth::W32),
        ),
        optional_field("optional_bool", "OPTIONAL_BOOL", DecoderKind::Boolean),
    ]);

    let v = resolve_schema(&schema, &src).expect("Failed to load config");

    match v {
        ConfigValue::Record(fields) => {
            assert!(matches!(&fields[0], ConfigValue::Str(s) if s == "required_value"));
            match &fields[1] {
                ConfigValue::Present(inner) => {
                    assert!(matches!(&**inner, ConfigValue::Str(s) if s == "optional_value"))
                }
                other => panic!("expected a present value, got {:?}", other),
            }
            match &fields[2] {
                ConfigValue::Present(inner) => {
                    assert!(matches!(**inner, ConfigValue::Int(42)))
                }
                other => panic!("expected a present value, got {:?}", other),
            }
            match &fields[3] {
                ConfigValue::Present(inner) => {
                    assert!(matches!(**inner, ConfigValue::Bool(true)))
                }
                other => panic!("expected a present value, got {:?}", other),
            }
        }
        other => panic!("expected a record, got {:?}", other),
    }
}

#[test]
fn test_optional_values_none_set() {
    let mut src = KeySource::new();
    src.set("REQUIRED_FIELD", "required_value");
    let optional_field = |name: &str, key: &str, d: DecoderKind| FieldSpec {
        name: Some(name.to_string()),
        keys: vec![key.to_string()],
        optional: true,
        default: None,
        kind: FieldKind::Leaf(DecoderKind::Optional(Box::new(d))),
    };
    let schema = Schema::Record(vec![
        leaf("required", &["REQUIRED_FIELD"], DecoderKind::Text),
        optional_field("optional_string", "OPTIONAL_STRING", DecoderKind::Text),
        optional_field(
            "optional_number",
            "OPTIONAL_NUMBER",
            DecoderKind::Signed(IntWidth::W32),
        ),
        optional_field("optional_bool", "OPTIONAL_BOOL", DecoderKind::Boolean),
    ]);

    let v = resolve_schema(&schema, &src).expect("Failed to load config");

    match v {
        ConfigValue::Record(fields) => {
            assert!(matches!(&fields[0], ConfigValue::Str(s) if s == "required_value"));
            assert!(matches!(fields[1], ConfigValue::Absent));
            assert!(matches!(fields[2], ConfigValue::Absent));
            assert!(matches!(fields[3], ConfigValue::Absent));
        }
        other => panic!("expected a record, got {:?}", other),
    }
}

#[test]
fn test_nested_config_loading() {
    let mut src = KeySource::new();
    src.set("DB_PASSWORD", "nested_pass");
    src.set("DB_NAME", "nested_db");
    let schema = Schema::Record(vec![FieldSpec {
        name: Some("database".to_string()),
        keys: vec![],
        optional: false,
        default: None,
        kind: FieldKind::Nested(Schema::Record(vec![
            FieldSpec {
                name: Some("host".to_string()),
                keys: vec!["DB_HOST".to_string()],
                optional: false,
                default: Some(ConfigValue::Str("localhost".to_string())),
                kind: FieldKind::Leaf(DecoderKind::Text),
            },
            FieldSpec {
                name: Some("password".to_string()),
                keys: vec!["DB_PASSWORD".to_string()],
                optional: false,
                default: None,
                kind: FieldKind::Leaf(DecoderKind::Secret(Box::new(DecoderKind::Text))),
            },
            FieldSpec {
                name: Some("port".to_string()),
                keys: vec!["DB_PORT".to_string()],
                optional: false,
                default: Some(ConfigValue::Uint(5432)),
                kind: FieldKind::Leaf(DecoderKind::Unsigned(IntWidth::W16)),
            },
            leaf("database", &["DB_NAME"], DecoderKind::Text),
        ])),
    }]);

    let v = resolve_schema(&schema, &src).expect("Failed to load nested config");

    match v {
        ConfigValue::Record(fields) => match &fields[0] {
            ConfigValue::Record(db) => {
                assert!(matches!(&db[0], ConfigValue::Str(s) if s == "localhost"));
                match &db[1] {
                    ConfigValue::Secret(inner) => {
                        assert!(matches!(&**inner, ConfigValue::Str(s) if s == "nested_pass"))
                    }
                    other => panic!("expected a secret, got {:?}", other),
                }
                assert!(matches!(db[2], ConfigValue::Uint(5432)));
                assert!(matches!(&db[3], ConfigValue::Str(s) if s == "nested_db"));
            }
            other => panic!("expected a nested record, got {:?}", other),
        },
        other => panic!("expected a record, got {:?}", other),
    }
}

#[test]
fn test_type_parsing_errors() {
    let mut src = KeySource::new();
    src.set("DEBUG_MODE", "false");
    src.set("OPTIONAL_NUMBER", "not_a_number");
    let schema = Schema::Record(vec![
        leaf("debug", &["DEBUG_MODE"], DecoderKind::Boolean),
        FieldSpec {
            name: Some("optional_number".to_string()),
            keys: vec!["OPTIONAL_NUMBER".to_string()],
            optional: true,
            default: None,
            kind: FieldKind::Leaf(DecoderKind::Optional(Box::new(DecoderKind::Signed(
                IntWidth::W32,
            )))),
        },
    ]);

    let config = resolve_schema(&schema, &src).expect_err("Expected to fail config");

    assert!(matches!(
        config.field_errors.first().expect("Expected 1 error"),
        ConfigFieldError::ParsingError { raw, .. } if raw == "not_a_number"
    ));
}

#[test]
fn test_enum() {
    let schema = || Schema::Sum(vec![
        VariantSpec {
            name: "Kafka".to_string(),
            fields: vec![leaf("broker", &["KAFKA_BROKER"], DecoderKind::Ipv4)],
        },
        VariantSpec {
            name: "Pulsar".to_string(),
            fields: vec![leaf("broker", &["PULSAR_BROKER"], DecoderKind::Ipv4)],
        },
        VariantSpec {
            name: "Mock".to_string(),
            fields: vec![FieldSpec {
                name: Some("broker".to_string()),
                keys: vec!["MOCK_BROKER".to_string()],
                optional: false,
                default: Some(ConfigValue::V4(tryphon::net_addr::Ipv4Value::new(1, 1, 1, 1))),
                kind: FieldKind::Leaf(DecoderKind::Ipv4),
            }],
        },
    ]);

    let mut src = KeySource::new();
    src.set("KAFKA_BROKER", "127.0.0.1");
    let v = resolve_schema(&schema(), &src).unwrap();
    assert!(matches!(
        v,
        ConfigValue::Variant(0, ref f)
            if matches!(f[0], ConfigValue::V4(ip) if ip == tryphon::net_addr::Ipv4Value::new(127, 0, 0, 1))
    ));

    let mut src = KeySource::new();
    src.set("PULSAR_BROKER", "192.168.1.1");
    let v = resolve_schema(&schema(), &src).unwrap();
    assert!(matches!(
        v,
        ConfigValue::Variant(1, ref f)
            if matches!(f[0], ConfigValue::V4(ip) if ip == tryphon::net_addr::Ipv4Value::new(192, 168, 1, 1))
    ));

    let src = KeySource::new();
    let v = resolve_schema(&schema(), &src).unwrap();
    assert!(matches!(
        v,
        ConfigValue::Variant(2, ref f)
            if matches!(f[0], ConfigValue::V4(ip) if ip == tryphon::net_addr::Ipv4Value::new(1, 1, 1, 1))
    ));
}

#[test]
fn test_empty_record_resolves() {
    let src = KeySource::new();
    let schema = Schema::Record(vec![]);

    let v = resolve_schema(&schema, &src).expect("an empty record always resolves");

    assert!(matches!(v, ConfigValue::Record(f) if f.is_empty()));
}

#[test]
fn test_schema_well_formedness() {
    // A leaf field has candidate keys exactly when it is a leaf.
    let good = Schema::Record(vec![
        leaf("host", &["HOST"], DecoderKind::Text),
        FieldSpec {
            name: Some("database".to_string()),
            keys: vec![],
            optional: false,
            default: None,
            kind: FieldKind::Nested(Schema::Record(vec![leaf(
                "port",
                &["PORT"],
                DecoderKind::Unsigned(IntWidth::W16),
            )])),
        },
    ]);
    assert!(good.is_well_formed());

    // A leaf without candidate keys breaks the invariant.
    let keyless_leaf = Schema::Record(vec![FieldSpec {
        name: Some("host".to_string()),
        keys: vec![],
        optional: false,
        default: None,
        kind: FieldKind::Leaf(DecoderKind::Text),
    }]);
    assert!(!keyless_leaf.is_well_formed());

    // A nested field with candidate keys breaks it too.
    let keyed_nested = Schema::Record(vec![FieldSpec {
        name: Some("database".to_string()),
        keys: vec!["DB".to_string()],
        optional: false,
        default: None,
        kind: FieldKind::Nested(Schema::Record(vec![])),
    }]);
    assert!(!keyed_nested.is_well_formed());
}

#[test]
fn test_pretty_print_modes() {
    let src = KeySource::new();
    let schema = Schema::Record(vec![leaf("value", &["MISSING_VAR"], DecoderKind::Text)]);
    let err = resolve_schema(&schema, &src).expect_err("expected a missing field");

    let list = err.pretty_print(ErrorPrintMode::List);
    assert_eq!(
        list,
        "Found 1 configuration error(s):\nMissing value for field 'value', tried env vars: MISSING_VAR"
    );

    let table = err.pretty_print(ErrorPrintMode::Table);
    assert!(table.contains("value"));
    assert!(table.contains("MISSING_VAR"));
    assert!(table.contains("Required variable not set"));
}

#[test]
fn test_field_path_round_trip() {
    let path = FieldPath::root()
        .with_segment("app")
        .with_segment("database")
        .with_segment("host");
    assert_eq!(path.dotted_path(), "app.database.host");

    let parsed = FieldPath::from_str("app.database.host").unwrap();
    assert_eq!(parsed.dotted_path(), "app.database.host");

    assert_eq!(FieldPath::root().dotted_path(), "");
}
