use pgcrab::config::{
    config_search_step, version_control_root_relative_paths, Config, ConfigFileFind, ConfigSearchStep,
    unmatched_concession_warnings, SchemaConfig, CONFIG_RELATIVE_PATH,
};
use pgcrab::lint::schema::{schema_rules, SchemaDiagnosticRule};
use pgcrab::name_map::NameMap;

fn config_with(concessions: &[(&str, &[&str])]) -> Config {
    let mut map = NameMap::new();
    for (rule, objects) in concessions {
        map.insert(rule.to_string(), objects.iter().map(|o| o.to_string()).collect::<Vec<String>>());
    }
    Config { schema: SchemaConfig { concessions: map } }
}

#[test]
fn config_lives_under_dot_config() {
    assert_eq!(CONFIG_RELATIVE_PATH, ".config/pgcrab.toml");
    assert_eq!(version_control_root_relative_paths(), vec![".git", ".svn", ".hg", ".bzr", "_darcs", ".pijul"]);
}

#[test]
fn search_finds_the_config_first() {
    let step = config_search_step(
        "/repo".to_owned(),
        "/repo/.config/pgcrab.toml".to_owned(),
        true,
        true,
        true,
        Some("/".to_owned()),
    );
    match step {
        ConfigSearchStep::Done(ConfigFileFind::Found { config_path }) => {
            assert_eq!(config_path, "/repo/.config/pgcrab.toml")
        }
        _ => panic!("expected the config to be found"),
    }
}

#[test]
fn search_stops_at_a_repository_root() {
    let step = config_search_step(
        "/repo".to_owned(),
        "/repo/.config/pgcrab.toml".to_owned(),
        false,
        true,
        false,
        Some("/".to_owned()),
    );
    match step {
        ConfigSearchStep::Done(ConfigFileFind::StoppedAtVersionControl { repository_root }) => {
            assert_eq!(repository_root, "/repo")
        }
        _ => panic!("expected to stop at the repository"),
    }
}

#[test]
fn search_stops_at_home_and_at_the_root() {
    let at_home = config_search_step("/home/me".to_owned(), "x".to_owned(), false, false, true, Some("/home".to_owned()));
    assert!(matches!(at_home, ConfigSearchStep::Done(ConfigFileFind::StoppedAtHardBoundary)));
    let at_root = config_search_step("/".to_owned(), "x".to_owned(), false, false, false, None);
    assert!(matches!(at_root, ConfigSearchStep::Done(ConfigFileFind::StoppedAtHardBoundary)));
}

#[test]
fn search_ascends_otherwise() {
    let step = config_search_step("/a/b".to_owned(), "x".to_owned(), false, false, false, Some("/a".to_owned()));
    match step {
        ConfigSearchStep::Ascend(parent) => assert_eq!(parent, "/a"),
        _ => panic!("expected to ascend"),
    }
}

#[test]
fn known_rules_give_no_warning() {
    let config = config_with(&[("dont_use_money", &["public.accounts"]), ("dont_use_*", &[])]);
    assert!(config.check_for_warnings().is_empty());
    assert!(Config::new().check_for_warnings().is_empty());
}

#[test]
fn unknown_rules_are_warned_of() {
    let config = config_with(&[("bogus", &["x"]), ("dont_use_money", &[]), ("zzz_*", &[])]);
    let warnings = config.check_for_warnings();
    assert_eq!(warnings.len(), 2);
    assert_eq!(warnings[0].key, "schema.concessions.\"bogus\"");
    assert_eq!(warnings[1].key, "schema.concessions.\"zzz_*\"");
    assert_eq!(
        warnings[0].message,
        "Concession rule does not match any schema rules in this version of pgCrab."
    );
}

#[test]
fn concessions_cover_matching_rules_and_objects() {
    let config = config_with(&[("dont_use_*", &["public.accounts.*"]), ("duplicate_indexes", &["**"])]);
    let s = &config.schema;
    assert!(s.concedes(SchemaDiagnosticRule::DontUseMoney, "public/accounts/balance"));
    assert!(!s.concedes(SchemaDiagnosticRule::DontUseMoney, "public/orders/total"));
    // `*` does not cross a dot, which became a slash.
    assert!(!s.concedes(SchemaDiagnosticRule::DontUseSerial, "public/accounts/a/b"));
    assert!(s.concedes(SchemaDiagnosticRule::DuplicateIndexes, "public/orders/idx"));
    assert!(!s.concedes(SchemaDiagnosticRule::TableWithoutPrimaryKey, "public/accounts/balance"));
}

#[test]
fn every_schema_rule_is_listed_with_its_name() {
    let rules = schema_rules();
    assert_eq!(rules.len(), 18);
    assert_eq!(rules[0].name(), "dont_use_timestamp_without_time_zone");
    assert_eq!(SchemaDiagnosticRule::IndexWithBoolean.name(), "index_with_boolean");
}

#[test]
fn warnings_from_given_match_results() {
    let warnings = unmatched_concession_warnings(
        &vec![true, false, false],
        &vec!["\"a\"".to_owned(), "\"b\"".to_owned(), "\"c\\\"d\"".to_owned()],
    );
    assert_eq!(warnings.len(), 2);
    assert_eq!(warnings[0].key, "schema.concessions.\"b\"");
    assert_eq!(warnings[1].key, "schema.concessions.\"c\\\"d\"");
}
