use pexer::config::{Config, ConfigError};

#[test]
fn config_reads_rules_key_and_yara() {
    let text = r#"
vt = "SECRET-REDACTED"

[Rules]
url = "https?://"
odd = 5

[YARA]
rules = ["/rules/a.yar", 7, "/rules/dir"]
"#;
    let config = Config::from_toml(text).expect("valid TOML");
    assert_eq!(
        config.rules,
        Some(vec![("odd".to_string(), "".to_string()), ("url".to_string(), "https?://".to_string())])
    );
    assert_eq!(config.vt.as_deref(), Some("SECRET-REDACTED"));
    let yara = config.yara.expect("a YARA table");
    assert_eq!(yara.rules, Some(vec!["/rules/a.yar".to_string(), "/rules/dir".to_string()]));
}

#[test]
fn config_without_sections() {
    let config = Config::from_toml("vt = 3\n[YARA]\nother = 1\n").expect("valid TOML");
    assert!(config.rules.is_none());
    assert!(config.vt.is_none());
    assert!(config.yara.expect("a YARA table").rules.is_none());
    let empty = Config::from_toml("").expect("valid TOML");
    assert!(empty.rules.is_none() && empty.vt.is_none() && empty.yara.is_none());
}

#[test]
fn config_refuses_invalid_toml() {
    match Config::from_toml("[Rules\nx = ") {
        Err(ConfigError::Parse(m)) => assert!(!m.is_empty()),
        Ok(_) => panic!("accepted invalid TOML"),
    }
}
