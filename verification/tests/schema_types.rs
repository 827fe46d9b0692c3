use archmap::{
    AgentColor, AgentModel, ContextMode, Convention, DependencyType, EvidenceLocation,
    FrameworkInfo, IssueCategory, IssueSeverity, KnownIssue, LibraryInfo, ModuleDependency,
    PermissionMode, Rule, RuleCategory, Skill, TechStack, is_path_in_scope,
};

#[test]
fn test_evidence_location_reference() {
    let loc = EvidenceLocation::new("src/main.rs".to_string(), 42);
    assert_eq!(loc.to_reference(), "src/main.rs:42");

    let loc = EvidenceLocation::new_range("src/lib.rs".to_string(), 10, 20);
    assert_eq!(loc.to_reference(), "src/lib.rs:10-20");
}

#[test]
fn test_convention_builder() {
    let conv = Convention::new(
        "error-handling".to_string(),
        "Use ? operator for propagation".to_string(),
    )
    .with_rationale("Rust idiom for error handling".to_string())
    .with_evidence(vec![EvidenceLocation::new("src/lib.rs".to_string(), 42)]);

    assert_eq!(conv.name, "error-handling");
    assert!(conv.rationale.is_some());
    assert_eq!(conv.evidence.len(), 1);
}

#[test]
fn test_known_issue_builder() {
    let issue = KnownIssue::new(
        "race-condition".to_string(),
        "Race condition in session refresh".to_string(),
        IssueSeverity::High,
        IssueCategory::Concurrency,
    )
    .with_prevention("Use atomic CAS operations".to_string())
    .with_evidence(vec![EvidenceLocation::new("src/auth/session.rs".to_string(), 128)]);

    assert_eq!(issue.id, "race-condition");
    assert_eq!(issue.severity, IssueSeverity::High);
    assert!(issue.prevention.is_some());
}

#[test]
fn test_tech_stack_builder() {
    let stack = TechStack::new("rust".to_string())
        .with_version("1.92".to_string())
        .with_framework(FrameworkInfo::new(
            "tokio".to_string(),
            "async runtime".to_string(),
        ))
        .with_build_tool("cargo".to_string())
        .with_test_framework("built-in".to_string())
        .with_library(LibraryInfo::new(
            "serde".to_string(),
            "serialization".to_string(),
        ));

    assert_eq!(stack.primary_language, "rust");
    assert_eq!(stack.language_version, Some("1.92".into()));
    assert_eq!(stack.frameworks.len(), 1);
    assert_eq!(stack.build_tools, vec!["cargo"]);
}

#[test]
fn test_issue_severity_ordering() {
    assert!(IssueSeverity::Critical < IssueSeverity::High);
    assert!(IssueSeverity::High < IssueSeverity::Medium);
    assert!(IssueSeverity::Medium < IssueSeverity::Low);
}

#[test]
fn test_path_in_scope() {
    let allowed = vec!["src/auth".to_string()];
    assert!(is_path_in_scope("src/auth/login.rs", &allowed));
    assert!(!is_path_in_scope("src/api/routes.rs", &allowed));
}

#[test]
fn test_path_in_scope_segment_boundaries() {
    let allowed = vec!["src/auth".to_string()];
    // A prefix must end on a whole path segment.
    assert!(!is_path_in_scope("src/authx/login.rs", &allowed));
    assert!(is_path_in_scope("src/auth", &allowed));
    let trailing = vec!["src/auth/".to_string()];
    assert!(is_path_in_scope("src/auth/login.rs", &trailing));
}

#[test]
fn test_module_dependency_factories() {
    let dep = ModuleDependency::runtime("database".to_string());
    assert_eq!(dep.dependency_type, DependencyType::Runtime);

    let dep = ModuleDependency::build("codegen".to_string());
    assert_eq!(dep.dependency_type, DependencyType::Build);

    let dep = ModuleDependency::test("fixtures".to_string());
    assert_eq!(dep.dependency_type, DependencyType::Test);

    let dep = ModuleDependency::optional("cache".to_string());
    assert_eq!(dep.dependency_type, DependencyType::Optional);
}

#[test]
fn test_issue_severity_labels() {
    assert_eq!(IssueSeverity::Critical.label(), "CRITICAL");
    assert_eq!(IssueSeverity::Low.label(), "LOW");
}

#[test]
fn test_display_strings() {
    let conv = Convention::new("naming".to_string(), "snake_case".to_string());
    assert_eq!(conv.display_string(), "naming: snake_case");

    let issue = KnownIssue::new(
        "leak".to_string(),
        "unbounded growth".to_string(),
        IssueSeverity::Medium,
        IssueCategory::Performance,
    );
    assert_eq!(issue.display_string(), "[MEDIUM] leak: unbounded growth");
}

#[test]
fn test_category_priorities() {
    assert_eq!(RuleCategory::Project.default_priority(), 100);
    assert_eq!(RuleCategory::Tech.default_priority(), 90);
    assert_eq!(RuleCategory::Framework.default_priority(), 85);
    assert_eq!(RuleCategory::Module.default_priority(), 80);
    assert_eq!(RuleCategory::Group.default_priority(), 70);
    assert_eq!(RuleCategory::Domain.default_priority(), 60);
}

#[test]
fn test_category_subdirectories() {
    assert_eq!(RuleCategory::Project.subdirectory(), "");
    assert_eq!(RuleCategory::Tech.subdirectory(), "tech");
    assert_eq!(RuleCategory::Module.subdirectory(), "modules");
    assert_eq!(RuleCategory::Domain.subdirectory(), "domains");
}

#[test]
fn test_rule_output_paths() {
    assert_eq!(
        Rule::project("proj".to_string(), vec![]).output_path(),
        "proj.md"
    );
    assert_eq!(
        Rule::tech("rust".to_string(), vec![], vec![]).output_path(),
        "tech/rust.md"
    );
    assert_eq!(
        Rule::module("auth".to_string(), vec![], vec![]).output_path(),
        "modules/auth.md"
    );
    assert_eq!(
        Rule::domain("security".to_string(), vec![], vec![]).output_path(),
        "domains/security.md"
    );
}

#[test]
fn test_project_rule_always_injects() {
    let rule = Rule::project("project".to_string(), vec!["content".to_string()]);
    assert!(rule.always_inject);
    assert_eq!(rule.priority, 100);
    assert_eq!(rule.category, RuleCategory::Project);
}

#[test]
fn test_with_category_resets_priority() {
    let rule = Rule::new("custom".to_string(), vec![])
        .with_priority(97)
        .with_category(RuleCategory::Domain);
    assert_eq!(rule.priority, 60);
    assert_eq!(rule.category, RuleCategory::Domain);
}

#[test]
fn test_skill_creation() {
    let skill = Skill::new(
        "code-audit".to_string(),
        "Audit code for issues".to_string(),
        "# Code Audit\n...".to_string(),
    );
    assert_eq!(skill.name, "code-audit");
    assert_eq!(skill.version, "1.0.0");
}

#[test]
fn test_skill_builder() {
    let skill = Skill::new("test".to_string(), "desc".to_string(), "body".to_string())
        .with_tools(vec!["Read".to_string(), "Grep".to_string()])
        .with_user_invocable(true)
        .with_model("sonnet".to_string());

    assert_eq!(skill.allowed_tools, vec!["Read", "Grep"]);
    assert_eq!(skill.user_invocable, Some(true));
    assert_eq!(skill.model, Some("sonnet".into()));
}

#[test]
fn test_context_mode_display() {
    assert_eq!(ContextMode::Fork.as_str(), "fork");
}

#[test]
fn test_context_mode_parse() {
    assert_eq!("fork".parse::<ContextMode>().unwrap(), ContextMode::Fork);
    assert!("invalid".parse::<ContextMode>().is_err());
}

#[test]
fn test_agent_color_parse() {
    assert_eq!("blue".parse::<AgentColor>().unwrap(), AgentColor::Blue);
    assert_eq!("GREEN".parse::<AgentColor>().unwrap(), AgentColor::Green);
    assert_eq!("unknown".parse::<AgentColor>().unwrap(), AgentColor::Blue);
}

#[test]
fn test_agent_model_parse() {
    assert_eq!("sonnet".parse::<AgentModel>().unwrap(), AgentModel::Sonnet);
    assert_eq!("OPUS".parse::<AgentModel>().unwrap(), AgentModel::Opus);
    assert_eq!(
        "unknown".parse::<AgentModel>().unwrap(),
        AgentModel::Inherit
    );
}

#[test]
fn test_permission_mode_parse() {
    assert_eq!(
        "acceptedits".parse::<PermissionMode>().unwrap(),
        PermissionMode::AcceptEdits
    );
    assert_eq!(
        "dontask".parse::<PermissionMode>().unwrap(),
        PermissionMode::DontAsk
    );
}

#[test]
fn test_permission_mode_parse_with_underscores() {
    assert_eq!(
        "accept_edits".parse::<PermissionMode>().unwrap(),
        PermissionMode::AcceptEdits
    );
    assert_eq!(
        "BYPASS_PERMISSIONS".parse::<PermissionMode>().unwrap(),
        PermissionMode::BypassPermissions
    );
    assert_eq!(
        "something_else".parse::<PermissionMode>().unwrap(),
        PermissionMode::Default
    );
}
