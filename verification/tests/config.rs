use cfddns::config::CfddnsConfig;
use cfddns::{ConfigError, ConfigField};

const FULL: &str = r#"{"api_token": "s3cr3t-token", "zone_id": "zone-1", "record_name": "home.example.org"}"#;

#[test]
fn loads_a_full_document() {
    let config = CfddnsConfig::new(FULL).unwrap();
    assert_eq!(config.api_token, "s3cr3t-token");
    assert_eq!(config.zone_id, "zone-1");
    assert_eq!(config.record_name, "home.example.org");
}

#[test]
fn loads_with_other_members_and_any_order() {
    let text = r#"{"extra": 1, "record_name": "n", "zone_id": "z", "nested": {"api_token": "no"}, "api_token": "t"}"#;
    let config = CfddnsConfig::new(text).unwrap();
    assert_eq!(config.api_token, "t");
    assert_eq!(config.zone_id, "z");
    assert_eq!(config.record_name, "n");
}

#[test]
fn loads_long_and_escaped_strings() {
    let token = "x".repeat(100);
    let text = format!(
        r#"{{"api_token": "{}", "zone_id": "a\"b", "record_name": "café"}}"#,
        token
    );
    let config = CfddnsConfig::new(&text).unwrap();
    assert_eq!(config.api_token, token);
    assert_eq!(config.zone_id, "a\"b");
    assert_eq!(config.record_name, "caf\u{e9}");
}

#[test]
fn missing_api_token_is_reported() {
    let r = CfddnsConfig::new(r#"{"zone_id": "z", "record_name": "n"}"#);
    assert_eq!(r.err(), Some(ConfigError::MissingField(ConfigField::ApiToken)));
}

#[test]
fn missing_zone_id_is_reported() {
    let r = CfddnsConfig::new(r#"{"api_token": "t", "record_name": "n"}"#);
    assert_eq!(r.err(), Some(ConfigError::MissingField(ConfigField::ZoneId)));
}

#[test]
fn missing_record_name_is_reported() {
    let r = CfddnsConfig::new(r#"{"api_token": "t", "zone_id": "z"}"#);
    assert_eq!(r.err(), Some(ConfigError::MissingField(ConfigField::RecordName)));
}

#[test]
fn first_missing_field_is_reported() {
    let r = CfddnsConfig::new("{}");
    assert_eq!(r.err(), Some(ConfigError::MissingField(ConfigField::ApiToken)));
    let r = CfddnsConfig::new(r#"{"api_token": "t"}"#);
    assert_eq!(r.err(), Some(ConfigError::MissingField(ConfigField::ZoneId)));
}

#[test]
fn member_that_is_no_string_counts_as_missing() {
    let r = CfddnsConfig::new(r#"{"api_token": "t", "zone_id": 17, "record_name": "n"}"#);
    assert_eq!(r.err(), Some(ConfigError::MissingField(ConfigField::ZoneId)));
    let r = CfddnsConfig::new(r#"{"api_token": null, "zone_id": "z", "record_name": "n"}"#);
    assert_eq!(r.err(), Some(ConfigError::MissingField(ConfigField::ApiToken)));
    let r = CfddnsConfig::new(r#"{"api_token": "t", "zone_id": "z", "record_name": ["n"]}"#);
    assert_eq!(r.err(), Some(ConfigError::MissingField(ConfigField::RecordName)));
}

#[test]
fn document_that_is_no_object_has_no_fields() {
    for text in ["[]", "\"api_token\"", "42", "null", "true"] {
        let r = CfddnsConfig::new(text);
        assert_eq!(r.err(), Some(ConfigError::MissingField(ConfigField::ApiToken)));
    }
}

#[test]
fn invalid_json_is_malformed() {
    for text in ["", "{", "{\"api_token\": }", "not json", "{\"a\": \"b\",}"] {
        let r = CfddnsConfig::new(text);
        assert_eq!(r.err(), Some(ConfigError::Malformed));
    }
}

#[test]
fn from_fields_takes_all_three() {
    let config = CfddnsConfig::from_fields(
        Some("t".to_string()),
        Some("z".to_string()),
        Some("n".to_string()),
    )
    .unwrap();
    assert_eq!(config.api_token, "t");
    assert_eq!(config.zone_id, "z");
    assert_eq!(config.record_name, "n");
}

#[test]
fn from_fields_names_the_first_missing() {
    let t = || Some("t".to_string());
    assert_eq!(
        CfddnsConfig::from_fields(None, None, None).err(),
        Some(ConfigError::MissingField(ConfigField::ApiToken))
    );
    assert_eq!(
        CfddnsConfig::from_fields(None, t(), t()).err(),
        Some(ConfigError::MissingField(ConfigField::ApiToken))
    );
    assert_eq!(
        CfddnsConfig::from_fields(t(), None, None).err(),
        Some(ConfigError::MissingField(ConfigField::ZoneId))
    );
    assert_eq!(
        CfddnsConfig::from_fields(t(), t(), None).err(),
        Some(ConfigError::MissingField(ConfigField::RecordName))
    );
}

#[test]
fn render_hides_the_credential() {
    let config = CfddnsConfig::new(FULL).unwrap();
    let text = config.render();
    assert_eq!(
        text,
        "{zone_id=zone-1, record_name=home.example.org, api_token=*****}"
    );
    assert!(!text.contains("s3cr3t-token"));
}

#[test]
fn render_is_the_same_for_any_credential() {
    let a = CfddnsConfig::from_fields(
        Some("first".to_string()),
        Some("z".to_string()),
        Some("n".to_string()),
    )
    .unwrap();
    let b = CfddnsConfig::from_fields(
        Some("second".to_string()),
        Some("z".to_string()),
        Some("n".to_string()),
    )
    .unwrap();
    assert_eq!(a.render(), b.render());
    assert_eq!(a.render(), "{zone_id=z, record_name=n, api_token=*****}");
}

#[test]
fn field_keys() {
    assert_eq!(ConfigField::ApiToken.key(), "api_token");
    assert_eq!(ConfigField::ZoneId.key(), "zone_id");
    assert_eq!(ConfigField::RecordName.key(), "record_name");
}

#[test]
fn config_error_messages() {
    assert_eq!(
        ConfigError::MissingField(ConfigField::ApiToken).message(),
        "api_token is not set in configuration file"
    );
    assert_eq!(
        ConfigError::MissingField(ConfigField::ZoneId).message(),
        "zone_id is not set in configuration file"
    );
    assert_eq!(
        ConfigError::MissingField(ConfigField::RecordName).message(),
        "record_name is not set in configuration file"
    );
    assert_eq!(
        ConfigError::Malformed.message(),
        "failed to parse configuration file as JSON"
    );
    assert_eq!(
        ConfigError::Unreadable.message(),
        "error reading configuration file"
    );
}

#[test]
fn long_text_is_loaded() {
    let mut text = FULL.to_string();
    text.push_str(&" ".repeat(40000));
    assert!(text.chars().count() > 32768);
    let config = CfddnsConfig::new(&text).unwrap();
    assert_eq!(config.api_token, "s3cr3t-token");
    assert_eq!(config.zone_id, "zone-1");
    assert_eq!(config.record_name, "home.example.org");
    assert_eq!(CfddnsConfig::parse_failure(&text), None);
}

#[test]
fn long_text_with_a_missing_field_names_the_field() {
    let text = format!(r#"{{"api_token": "t", "filler": "{}", "record_name": "n"}}"#, "x".repeat(50000));
    assert_eq!(
        CfddnsConfig::new(&text).err(),
        Some(ConfigError::MissingField(ConfigField::ZoneId))
    );
}

#[test]
fn long_text_with_many_short_numbers_is_loaded() {
    let numbers = vec!["0.12345"; 10000].join(", ");
    let text = format!(
        r#"{{"n": [{}], "api_token": "t", "zone_id": "z", "record_name": "r"}}"#,
        numbers
    );
    assert!(text.len() > 32768);
    let config = CfddnsConfig::new(&text).unwrap();
    assert_eq!(config.zone_id, "z");
}

#[test]
fn long_digits_inside_a_string_are_not_read() {
    let text = format!(
        r#"{{"api_token": "{}", "zone_id": "z", "record_name": "r"}}"#,
        "7".repeat(32768)
    );
    assert_eq!(CfddnsConfig::new(&text).err(), Some(ConfigError::Malformed));
    let text = format!(
        r#"{{"api_token": "{}", "zone_id": "z", "record_name": "r"}}"#,
        "7".repeat(32767)
    );
    assert_eq!(CfddnsConfig::new(&text).unwrap().api_token, "7".repeat(32767));
}

#[test]
fn number_with_too_many_digits_is_not_read() {
    let text = format!("0.{}", "0".repeat(32769));
    assert_eq!(CfddnsConfig::new(&text).err(), Some(ConfigError::Malformed));
    assert!(CfddnsConfig::parse_failure(&text).is_some());
    let text = format!("0.{}", "0".repeat(32768));
    assert_eq!(CfddnsConfig::new(&text).err(), Some(ConfigError::Malformed));
    let text = format!(
        r#"{{"n": 1.{}, "api_token": "t", "zone_id": "z", "record_name": "r"}}"#,
        "0".repeat(40000)
    );
    assert_eq!(CfddnsConfig::new(&text).err(), Some(ConfigError::Malformed));
}

#[test]
fn number_with_the_most_digits_is_read() {
    let text = format!("0.{}", "0".repeat(32767));
    assert_eq!(
        CfddnsConfig::new(&text).err(),
        Some(ConfigError::MissingField(ConfigField::ApiToken))
    );
    assert_eq!(CfddnsConfig::parse_failure(&text), None);
    let text = format!(
        r#"{{"n": 7.{}, "m": 0.{}, "api_token": "t", "zone_id": "z", "record_name": "r"}}"#,
        "0".repeat(32767),
        "9".repeat(32767)
    );
    let config = CfddnsConfig::new(&text).unwrap();
    assert_eq!(config.record_name, "r");
}

#[test]
fn parse_failure_tells_of_invalid_json_only() {
    assert!(CfddnsConfig::parse_failure("{").is_some());
    assert!(CfddnsConfig::parse_failure("not json").is_some());
    assert!(!CfddnsConfig::parse_failure("{\"a\": }").unwrap().is_empty());
    assert_eq!(CfddnsConfig::parse_failure(FULL), None);
    assert_eq!(CfddnsConfig::parse_failure("{}"), None);
    assert_eq!(CfddnsConfig::parse_failure("[1, 2]"), None);
}

#[test]
fn render_lacks_a_credential_with_a_character_of_its_own() {
    let config = CfddnsConfig::from_fields(
        Some("tok#en".to_string()),
        Some("token".to_string()),
        Some("tok.en".to_string()),
    )
    .unwrap();
    let text = config.render();
    assert_eq!(text, "{zone_id=token, record_name=tok.en, api_token=*****}");
    assert!(!text.contains("tok#en"));
}
