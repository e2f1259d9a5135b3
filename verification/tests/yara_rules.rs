use pexer::yara::{compile_rule_sources, is_rule_file_extension, scan, RuleSource, YaraConfig};
use pexer::yara_engine::YaraRules;

fn compiled(sources: &Vec<RuleSource>) -> YaraRules {
    match compile_rule_sources(sources) {
        Ok(rules) => rules,
        Err(e) => panic!("rules do not compile: {}", e.message),
    }
}

#[test]
fn rule_file_extensions() {
    assert!(is_rule_file_extension("yar"));
    assert!(is_rule_file_extension("yara"));
    assert!(!is_rule_file_extension("YAR"));
    assert!(!is_rule_file_extension("txt"));
}

#[test]
fn compiled_rules_scan_data() {
    let sources = vec![
        RuleSource::File {
            path: "a.yar".to_string(),
            text: "rule has_magic { strings: $m = \"MAGIC\" condition: $m }".to_string(),
        },
        RuleSource::File { path: "b.yar".to_string(), text: "rule never { condition: false }".to_string() },
    ];
    let rules = compiled(&sources);
    assert_eq!(scan(&rules, b"xxMAGICxx").unwrap(), vec!["has_magic".to_string()]);
    assert!(scan(&rules, b"nothing").unwrap().is_empty());
}

#[test]
fn first_failure_ends_compilation() {
    let sources = vec![
        RuleSource::Failure("YARA path does not exist: /nowhere".to_string()),
        RuleSource::File { path: "bad.yar".to_string(), text: "rule {".to_string() },
    ];
    match compile_rule_sources(&sources) {
        Err(e) => assert_eq!(e.message, "YARA path does not exist: /nowhere"),
        Ok(_) => panic!("compiled"),
    }
    let bad = vec![RuleSource::File { path: "bad.yar".to_string(), text: "rule {".to_string() }];
    match compile_rule_sources(&bad) {
        Err(e) => assert!(e.message.starts_with("Failed to read bad.yar: ")),
        Ok(_) => panic!("compiled"),
    }
}

#[test]
fn yara_config_defaults_to_no_rules() {
    assert!(YaraConfig::default().rules.is_none());
}

#[test]
fn no_sources_give_an_empty_rule_set() {
    let rules = compiled(&Vec::new());
    assert!(scan(&rules, b"anything at all").unwrap().is_empty());
}

#[test]
fn every_matching_rule_is_reported_once() {
    let sources = vec![
        RuleSource::File { path: "a.yar".to_string(), text: "rule one { condition: true }".to_string() },
        RuleSource::File { path: "b.yar".to_string(), text: "rule two { condition: true }".to_string() },
    ];
    let rules = compiled(&sources);
    let mut found = scan(&rules, b"x").unwrap();
    found.sort();
    assert_eq!(found, vec!["one".to_string(), "two".to_string()]);
}

#[test]
fn a_rejected_file_after_a_good_one_ends_compilation() {
    let sources = vec![
        RuleSource::File { path: "a.yar".to_string(), text: "rule one { condition: true }".to_string() },
        RuleSource::File { path: "b.yar".to_string(), text: "rule one { condition: true }".to_string() },
        RuleSource::Failure("YARA path does not exist: /later".to_string()),
    ];
    match compile_rule_sources(&sources) {
        Err(e) => assert!(e.message.starts_with("Failed to read b.yar: ")),
        Ok(_) => panic!("compiled"),
    }
}

#[test]
fn scan_of_a_set_from_no_source_matches_nothing() {
    let rules = compiled(&Vec::new());
    assert_eq!(scan(&rules, b"MZ\x90\x00 anything"), Ok(Vec::new()));
}
