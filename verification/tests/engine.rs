use archmap::{
    Rule, RuleCategory, RuleContext, SCHEMA_VERSION, SchemaError, SchemaRegistry, glob_match,
    glob_pattern_is_valid, invalid_glob_patterns, resolve, resolve_names, rule_is_dead,
    rule_matches,
};

fn ctx(path: Option<&str>, triggers: &[&str]) -> RuleContext {
    RuleContext::new(
        path.map(|p| p.to_string()),
        triggers.iter().map(|t| t.to_string()).collect(),
    )
}

#[test]
fn test_glob_matching() {
    assert!(glob_match("**/*.rs", "src/auth/login.rs"));
    assert!(glob_match("src/*.rs", "src/main.rs"));
    // `*` does not cross path separators.
    assert!(!glob_match("src/*.rs", "src/auth/login.rs"));
    // Matching is anchored to the whole path, not a substring.
    assert!(!glob_match("auth", "src/auth"));
    assert!(glob_match("src/auth", "src/auth"));
    // Matching is case-sensitive.
    assert!(!glob_match("SRC/*", "src/main.rs"));
    assert!(glob_match("**", "anything/at/all"));
}

#[test]
fn test_glob_pattern_validity() {
    assert!(glob_pattern_is_valid("**/*.rs"));
    assert!(glob_pattern_is_valid("src/**"));
    assert!(!glob_pattern_is_valid("***"));
    assert!(!glob_pattern_is_valid("src/****/x"));
}

#[test]
fn test_invalid_glob_patterns_reported() {
    let rules = vec![
        Rule::tech(
            "ok".to_string(),
            vec!["**/*.rs".to_string()],
            vec![],
        ),
        Rule::tech(
            "bad".to_string(),
            vec!["***".to_string(), "src/**".to_string()],
            vec![],
        ),
    ];
    let bad = invalid_glob_patterns(&rules);
    assert_eq!(bad, vec![(1, 0)]);
}

#[test]
fn test_invalid_pattern_never_matches() {
    let rule = Rule::tech("bad".to_string(), vec!["***".to_string()], vec![]);
    assert!(!rule_matches(&rule, &ctx(Some("src/main.rs"), &[])));
}

#[test]
fn test_rule_matches_paths_and_triggers() {
    let by_path = Rule::tech("rust".to_string(), vec!["**/*.rs".to_string()], vec![]);
    assert!(rule_matches(&by_path, &ctx(Some("src/main.rs"), &[])));
    assert!(!rule_matches(&by_path, &ctx(Some("README.md"), &[])));
    assert!(!rule_matches(&by_path, &ctx(None, &[])));

    let by_trigger = Rule::domain(
        "security".to_string(),
        vec!["auth".to_string(), "crypto".to_string()],
        vec![],
    );
    assert!(rule_matches(&by_trigger, &ctx(None, &["crypto"])));
    assert!(!rule_matches(&by_trigger, &ctx(None, &["storage"])));
}

#[test]
fn test_always_inject_matches_every_context() {
    let rule = Rule::new("base".to_string(), vec![]).with_priority(10);
    let mut always = rule.clone();
    always.always_inject = true;
    // Including the empty context: no path, no triggers.
    assert!(rule_matches(&always, &RuleContext::empty()));
    assert!(rule_matches(&always, &ctx(Some("any/path"), &["any"])));
}

#[test]
fn test_dead_rule_never_resolved() {
    let dead = Rule::new("dead".to_string(), vec![]);
    assert!(rule_is_dead(&dead));
    assert!(!rule_matches(&dead, &RuleContext::empty()));
    assert!(!rule_matches(&dead, &ctx(Some("src/main.rs"), &["auth"])));

    let rules = vec![dead, Rule::project("proj".to_string(), vec![])];
    let out = resolve(&rules, &ctx(Some("src/main.rs"), &["auth"]));
    assert_eq!(out, vec![1]);
}

#[test]
fn test_resolution_priority_ordering() {
    let rules = vec![
        Rule::domain("low".to_string(), vec!["auth".to_string()], vec![]),
        Rule::project("high".to_string(), vec![]),
        Rule::tech("mid".to_string(), vec!["**/*.rs".to_string()], vec![]),
    ];
    let names = resolve_names(&rules, &ctx(Some("src/main.rs"), &["auth"]));
    assert_eq!(names, vec!["high", "mid", "low"]);
}

#[test]
fn test_resolution_category_tie_break() {
    // Equal explicit priority; tech outranks domain.
    let rules = vec![
        Rule::domain("d".to_string(), vec!["auth".to_string()], vec![]).with_priority(75),
        Rule::tech("t".to_string(), vec!["**/*.rs".to_string()], vec![]).with_priority(75),
    ];
    let names = resolve_names(&rules, &ctx(Some("src/main.rs"), &["auth"]));
    assert_eq!(names, vec!["t", "d"]);
}

#[test]
fn test_resolution_name_tie_break() {
    let rules = vec![
        Rule::tech("zeta".to_string(), vec!["**/*.rs".to_string()], vec![]),
        Rule::tech("alpha".to_string(), vec!["**/*.rs".to_string()], vec![]),
    ];
    let names = resolve_names(&rules, &ctx(Some("src/main.rs"), &[]));
    assert_eq!(names, vec!["alpha", "zeta"]);
}

#[test]
fn test_resolution_deterministic() {
    let rules = vec![
        Rule::domain("d".to_string(), vec!["auth".to_string()], vec![]),
        Rule::project("p".to_string(), vec![]),
        Rule::tech("t".to_string(), vec!["**/*.rs".to_string()], vec![]),
        Rule::new("dead".to_string(), vec![]),
    ];
    let context = ctx(Some("src/main.rs"), &["auth"]);
    let first = resolve(&rules, &context);
    let second = resolve(&rules, &context);
    assert_eq!(first, second);
}


#[test]
fn test_resolve_empty_rule_set() {
    let rules: Vec<Rule> = vec![];
    assert!(resolve(&rules, &RuleContext::empty()).is_empty());
}

#[test]
fn test_glob_double_star_spans_separators() {
    assert!(glob_match("src/**", "src/a/b/c.rs"));
    assert!(glob_match("**", ""));
    assert!(!glob_match("*", "a/b"));
    assert!(glob_match("*", "file.rs"));
}

fn sample_manifest_json(schema_version: &str) -> String {
    format!(
        r#"{{
            "version": "2.0.0",
            "created_at": "2026-01-29T00:00:00Z",
            "generator": "archgen",
            "project": {{
                "schema_version": "{}",
                "generator": {{"name": "test", "version": "1.0.0"}},
                "project": {{
                    "name": "test",
                    "workspace": {{}},
                    "tech_stack": {{"primary_language": "rust"}},
                    "languages": [],
                    "total_files": 0
                }},
                "modules": [],
                "generated_at": "2026-01-29T00:00:00Z"
            }}
        }}"#,
        schema_version
    )
}

#[test]
fn test_registry_creation() {
    let registry = SchemaRegistry::new();
    assert_eq!(registry.version().major, 1);
}

#[test]
fn test_schema_version_constant() {
    semver::Version::parse(SCHEMA_VERSION).expect("SCHEMA_VERSION must be valid semver");
}

#[test]
fn test_gate_accepts_current_version() {
    let registry = SchemaRegistry::new();
    let json = sample_manifest_json("1.0.0");
    assert!(registry.validate_version(&json).is_ok());
}

#[test]
fn test_gate_accepts_compatible_minor_version() {
    let registry = SchemaRegistry::new();
    let json = sample_manifest_json("1.5.0");
    assert!(registry.validate_version(&json).is_ok());
    let json = sample_manifest_json("1.7.3");
    assert!(registry.validate_version(&json).is_ok());
}

#[test]
fn test_gate_rejects_incompatible_major_version() {
    let registry = SchemaRegistry::new();
    let json = sample_manifest_json("2.0.0");
    match registry.validate_version(&json) {
        Err(SchemaError::IncompatibleVersion {
            found,
            required_major,
        }) => {
            assert_eq!(found, "2.0.0");
            assert_eq!(required_major, 1);
        }
        other => panic!("expected an incompatible version error, got {:?}", other),
    }
}

#[test]
fn test_gate_missing_version() {
    let registry = SchemaRegistry::new();
    // A syntactically valid document with no schema_version field fails
    // with MissingVersion, not a generic parse error.
    let json = r#"{"version": "2.0.0", "project": {"modules": []}}"#;
    assert!(matches!(
        registry.validate_version(json),
        Err(SchemaError::MissingVersion)
    ));
    let json = r#"{"version": "2.0.0"}"#;
    assert!(matches!(
        registry.validate_version(json),
        Err(SchemaError::MissingVersion)
    ));
}

#[test]
fn test_gate_malformed_version() {
    let registry = SchemaRegistry::new();
    let json = sample_manifest_json("not-a-version");
    assert!(matches!(
        registry.validate_version(&json),
        Err(SchemaError::VersionParse(_))
    ));
}

#[test]
fn test_gate_malformed_json() {
    let registry = SchemaRegistry::new();
    assert!(matches!(
        registry.validate_version("{not json"),
        Err(SchemaError::JsonParse(_))
    ));
}

#[test]
fn test_gate_on_extracted_tags() {
    let registry = SchemaRegistry::new();
    assert!(registry.validate_version_tag(Some("1.7.3")).is_ok());
    assert!(matches!(
        registry.validate_version_tag(None),
        Err(SchemaError::MissingVersion)
    ));
    assert!(matches!(
        registry.validate_version_tag(Some("2.0.0")),
        Err(SchemaError::IncompatibleVersion { .. })
    ));
}

#[test]
fn test_category_rank_order() {
    assert!(RuleCategory::Project.rank() < RuleCategory::Tech.rank());
    assert!(RuleCategory::Tech.rank() < RuleCategory::Framework.rank());
    assert!(RuleCategory::Framework.rank() < RuleCategory::Module.rank());
    assert!(RuleCategory::Module.rank() < RuleCategory::Group.rank());
    assert!(RuleCategory::Group.rank() < RuleCategory::Domain.rank());
}
