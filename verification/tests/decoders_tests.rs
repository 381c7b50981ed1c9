use tryphon::config::Config;
use tryphon::config::resolve_leaf;
use tryphon::config_error::ConfigError;
use tryphon::config_error::ConfigFieldError;
use tryphon::config_value_decoder::ConfigValueDecoder;
use tryphon::env_overrides::EnvOverrides;
use tryphon::env_overrides::effective_source;
use tryphon::key_source::KeySource;
use tryphon::resolver::resolve_schema;
use tryphon::schema::ConfigValue;
use tryphon::schema::DecoderKind;
use tryphon::schema::FieldKind;
use tryphon::schema::FieldSpec;
use tryphon::schema::IntWidth;
use tryphon::schema::Schema;

#[derive(Debug)]
struct Point {
    x: i32,
    y: i32,
}

impl ConfigValueDecoder for Point {
    fn decode(raw: String) -> Result<Self, String> {
        let parts = raw.split('/').collect::<Vec<_>>();
        if parts.len() != 2 {
            return Err(format!("Invalid format for Point: {}", raw));
        }
        let x = parts[0].trim().parse::<i32>().map_err(|e| e.to_string())?;
        let y = parts[1].trim().parse::<i32>().map_err(|e| e.to_string())?;
        Ok(Point { x, y })
    }
}

#[derive(Debug)]
struct Rectangle {
    top_left: Point,
    bottom_right: Point,
}

impl Config for Rectangle {
    fn load(source: &KeySource) -> Result<Rectangle, ConfigError> {
        load_rectangle(source)
    }
}

fn load_rectangle(src: &KeySource) -> Result<Rectangle, ConfigError> {
    let top_left = resolve_leaf::<Point>(
        &Some("top_left".to_string()),
        0,
        &vec!["TOP_LEFT".to_string()],
        false,
        Some(Point { x: 0, y: 0 }),
        src,
    );
    let bottom_right = resolve_leaf::<Point>(
        &Some("bottom_right".to_string()),
        1,
        &vec!["BOTTOM_RIGHT".to_string()],
        false,
        None,
        src,
    );
    match (top_left, bottom_right) {
        (Ok(Some(tl)), Ok(Some(br))) => Ok(Rectangle {
            top_left: tl,
            bottom_right: br,
        }),
        (tl, br) => {
            let mut field_errors = Vec::new();
            if let Err(e) = tl {
                field_errors.push(e);
            }
            if let Err(e) = br {
                field_errors.push(e);
            }
            Err(ConfigError { field_errors })
        }
    }
}

// The record of one boolean flag, one port number and one two-state
// switch, each with a default.
fn app_config_schema() -> Schema {
    Schema::Record(vec![
        FieldSpec {
            name: Some("flag".to_string()),
            keys: vec!["FLAG".to_string()],
            optional: false,
            default: Some(ConfigValue::Bool(false)),
            kind: FieldKind::Leaf(DecoderKind::Boolean),
        },
        FieldSpec {
            name: Some("port".to_string()),
            keys: vec!["SYSTEM_PORT".to_string()],
            optional: false,
            default: Some(ConfigValue::Uint(80)),
            kind: FieldKind::Leaf(DecoderKind::Unsigned(IntWidth::W16)),
        },
        FieldSpec {
            name: Some("switch".to_string()),
            keys: vec!["SWITCH_STATE".to_string()],
            optional: false,
            default: Some(ConfigValue::Choice(1)),
            kind: FieldKind::Leaf(DecoderKind::Choice(vec![
                "On".to_string(),
                "Off".to_string(),
            ])),
        },
    ])
}

#[test]
fn test_derived_decoders() {
    let mut overrides = EnvOverrides::init();
    overrides.set("FLAG", "true");
    overrides.set("SYSTEM_PORT", "8080");
    overrides.set("SWITCH_STATE", "on");
    let src = effective_source(&overrides, &KeySource::new());

    let config = resolve_schema(&app_config_schema(), &src)
        .expect("Failed to load config with custom decoders");

    match config {
        ConfigValue::Record(fields) => {
            assert!(matches!(fields[0], ConfigValue::Bool(true)));
            assert!(matches!(fields[1], ConfigValue::Uint(8080)));
            // "on" selects the first declared state
            assert!(matches!(fields[2], ConfigValue::Choice(0)));
        }
        other => panic!("expected a record, got {:?}", other),
    }
}

#[test]
fn test_derived_decoders_failure() {
    let mut overrides = EnvOverrides::init();
    overrides.set("FLAG", "not_bool");
    overrides.set("SYSTEM_PORT", "not_a_number");
    overrides.set("SWITCH_STATE", "bad");
    let src = effective_source(&overrides, &KeySource::new());

    let error = resolve_schema(&app_config_schema(), &src)
        .expect_err("Should have failed to load config with bad values");

    assert_eq!(error.field_errors.len(), 3);

    if let [
        ConfigFieldError::ParsingError { raw: raw_flag, .. },
        ConfigFieldError::ParsingError { raw: raw_port, .. },
        ConfigFieldError::ParsingError {
            raw: raw_switch, ..
        },
    ] = &error.field_errors[..]
    {
        assert_eq!(raw_flag, "not_bool");
        assert_eq!(raw_port, "not_a_number");
        assert_eq!(raw_switch, "bad");
    } else {
        panic!("Expected parsing errors for all fields");
    }
}

#[test]
fn test_derived_decoders_defaults() {
    let src = KeySource::new();

    let config = resolve_schema(&app_config_schema(), &src)
        .expect("Failed to load config with custom decoders");

    match config {
        ConfigValue::Record(fields) => {
            assert!(matches!(fields[0], ConfigValue::Bool(false)));
            assert!(matches!(fields[1], ConfigValue::Uint(80)));
            // the default selects the second declared state
            assert!(matches!(fields[2], ConfigValue::Choice(1)));
        }
        other => panic!("expected a record, got {:?}", other),
    }
}

#[test]
fn test_custom_decoder() {
    let mut overrides = EnvOverrides::init();
    overrides.set("BOTTOM_RIGHT", "30/40");
    let src = effective_source(&overrides, &KeySource::new());

    let config = Rectangle::load(&src).expect("Failed to load config with custom decoders");

    assert_eq!(config.top_left.x, 0);
    assert_eq!(config.top_left.y, 0);
    assert_eq!(config.bottom_right.x, 30);
    assert_eq!(config.bottom_right.y, 40);
}

#[test]
fn test_custom_decoder_fail() {
    let mut overrides = EnvOverrides::init();
    overrides.set("BOTTOM_RIGHT", "30x40");
    let src = effective_source(&overrides, &KeySource::new());

    let error = Rectangle::load(&src).expect_err("Should have failed to load config with bad values");

    matches!(&error.field_errors[..], [ConfigFieldError::ParsingError { message, .. }] if message.contains("Invalid format for Point"));
}
