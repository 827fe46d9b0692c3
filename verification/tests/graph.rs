use archmap::{
    AgentExample, ArchitectureLayer, ConsensusRole, Agent, AgentColor, AgentModel, Convention,
    DependencyEdge, DependencyGraph, DependencyType, Domain, DomainContext, DomainInterface,
    EvidenceLocation, GeneratorInfo, GroupContext, GraphIntegrityError, InterfaceType,
    IssueCategory, IssueSeverity, KnownIssue, Module, ModuleContext, ModuleDependency,
    ModuleGroup, ModuleMap, ModuleMetrics, ProjectCommands, ProjectManifest, ProjectMetadata,
    ProjectType, SCHEMA_VERSION, TechStack, TrackedFile, WorkspaceInfo, WorkspaceType,
};

fn sample_module(id: &str) -> Module {
    Module {
        id: id.to_string(),
        name: id.to_string(),
        paths: vec![format!("src/{}/", id)],
        key_files: vec![],
        dependencies: vec![],
        dependents: vec![],
        responsibility: format!("{} module", id),
        primary_language: "rust".to_string(),
        metrics: ModuleMetrics::new(8000, 7000, 3000),
        conventions: vec![],
        known_issues: vec![],
        evidence: vec![],
    }
}

fn sample_module_with_conventions(id: &str) -> Module {
    Module {
        id: id.to_string(),
        name: id.to_string(),
        paths: vec![format!("src/{}/", id)],
        key_files: vec![format!("src/{}/mod.rs", id)],
        dependencies: vec![ModuleDependency::runtime("types".to_string())],
        dependents: vec!["cli".to_string()],
        responsibility: format!("{} module", id),
        primary_language: "rust".to_string(),
        metrics: ModuleMetrics::new(8000, 7000, 3000),
        conventions: vec![Convention::new(
            "error-handling".to_string(),
            "Use ? operator for propagation".to_string(),
        )],
        known_issues: vec![KnownIssue::new(
            "memory-leak".to_string(),
            "Unbounded cache growth".to_string(),
            IssueSeverity::Medium,
            IssueCategory::Performance,
        )
        .with_prevention("Add TTL or max size limit".to_string())],
        evidence: vec![EvidenceLocation::new("src/pipeline/mod.rs".to_string(), 1)],
    }
}

fn sample_project() -> ProjectMetadata {
    ProjectMetadata::new(
        "test-project".to_string(),
        TechStack::new("rust".to_string()).with_version("1.92".to_string()),
    )
    .with_type(ProjectType::Cli)
    .with_description("A test project".to_string())
    .with_workspace(WorkspaceInfo {
        workspace_type: WorkspaceType::SinglePackage,
        root: Some(".".to_string()),
    })
    .with_total_files(100)
    .with_commands(
        ProjectCommands::new("cargo build".to_string(), "cargo test".to_string())
            .with_lint("cargo clippy".to_string())
            .with_format("cargo fmt".to_string()),
    )
}

#[test]
fn test_module_map_creation() {
    let project = sample_project();
    let modules = vec![sample_module("auth"), sample_module("api")];
    let groups = vec![ModuleGroup::new(
        "core".to_string(),
        "Core".to_string(),
        vec!["auth".to_string(), "api".to_string()],
    )
    .with_responsibility("Core processing".to_string())
    .with_boundary_rules(vec!["No direct CLI dependency".to_string()])];

    let generator = GeneratorInfo::new("test".to_string(), "1.0.0".to_string());
    let map = ModuleMap::new(generator, project, modules, groups);

    assert_eq!(map.schema_version, SCHEMA_VERSION);
    assert!(map.find_module("auth").is_some());
    assert!(map.find_module("nonexistent").is_none());
    assert!(map.find_group_containing("auth").is_some());
}

#[test]
fn test_domain_creation() {
    let domain = Domain::new(
        "identity".to_string(),
        "Identity Management".to_string(),
        vec!["auth-group".to_string(), "user-group".to_string()],
    )
    .with_responsibility("Handles all identity operations".to_string())
    .with_boundary_rules(vec!["External access through API gateway only".to_string()])
    .with_interfaces(vec![
        DomainInterface::new("IdentityAPI".to_string(), InterfaceType::Api)
            .with_consumers(vec!["commerce".to_string()]),
        DomainInterface::new("UserEvents".to_string(), InterfaceType::Event),
    ])
    .with_owner("identity-team".to_string());

    assert_eq!(domain.id, "identity");
    assert_eq!(domain.group_ids.len(), 2);
    assert_eq!(domain.interfaces.len(), 2);
    assert_eq!(domain.owner, Some("identity-team".into()));
}

#[test]
fn test_hierarchical_grouping() {
    let project = sample_project();
    let modules = vec![
        sample_module("auth-core"),
        sample_module("oauth"),
        sample_module("rbac"),
    ];
    let groups = vec![
        ModuleGroup::new(
            "authentication".to_string(),
            "Authentication".to_string(),
            vec!["auth-core".to_string(), "oauth".to_string()],
        )
        .with_domain("identity".to_string()),
        ModuleGroup::new(
            "authorization".to_string(),
            "Authorization".to_string(),
            vec!["rbac".to_string()],
        )
        .with_domain("identity".to_string()),
    ];
    let domains = vec![Domain::new(
        "identity".to_string(),
        "Identity".to_string(),
        vec!["authentication".to_string(), "authorization".to_string()],
    )];

    let generator = GeneratorInfo::new("test".to_string(), "1.0.0".to_string());
    let map = ModuleMap::new(generator, project, modules, groups).with_domains(domains);

    assert_eq!(map.domains.len(), 1);
    assert!(map.find_domain("identity").is_some());
    assert_eq!(map.find_groups_in_domain("identity").len(), 2);
    assert!(map.find_domain_containing_group("authentication").is_some());
}

#[test]
fn test_nested_groups() {
    let child_group = ModuleGroup::new(
        "oauth-providers".to_string(),
        "OAuth Providers".to_string(),
        vec!["google".to_string()],
    )
    .with_parent("authentication".to_string(), 1);

    assert_eq!(child_group.parent_group_id, Some("authentication".into()));
    assert_eq!(child_group.depth, 1);
}

#[test]
fn test_module_with_conventions_and_issues() {
    let module = sample_module_with_conventions("pipeline");

    assert_eq!(module.conventions.len(), 1);
    assert_eq!(module.conventions[0].name, "error-handling");

    assert_eq!(module.known_issues.len(), 1);
    assert_eq!(module.known_issues[0].severity, IssueSeverity::Medium);
    assert!(module.known_issues[0].prevention.is_some());
}

#[test]
fn test_module_contains_file() {
    let module = sample_module("auth");
    assert!(module.contains_file("src/auth/login.rs"));
    assert!(!module.contains_file("src/api/routes.rs"));
}

#[test]
fn test_priority_score() {
    let metrics = ModuleMetrics::new(8000, 8000, 5000);
    let expected = (8000 * 6 + 5000 * 4) / 10;
    assert_eq!(metrics.priority_score(), expected);
    assert_eq!(metrics.priority_score(), 6800);
}

#[test]
fn test_dependency_graph() {
    let project = sample_project();
    let modules = vec![sample_module("auth"), sample_module("api")];
    let groups = vec![];

    let graph = DependencyGraph {
        edges: vec![DependencyEdge {
            from: "api".to_string(),
            to: "auth".to_string(),
            edge_type: DependencyType::Runtime,
        }],
        layers: vec![
            ArchitectureLayer {
                name: "presentation".to_string(),
                modules: vec!["cli".to_string()],
            },
            ArchitectureLayer {
                name: "domain".to_string(),
                modules: vec!["auth".to_string(), "api".to_string()],
            },
        ],
    };

    let generator = GeneratorInfo::new("test".to_string(), "1.0.0".to_string());
    let map = ModuleMap::new(generator, project, modules, groups).with_dependency_graph(graph);

    assert!(map.dependency_graph.is_some());
    let graph = map.dependency_graph.unwrap();
    assert_eq!(graph.edges.len(), 1);
    assert_eq!(graph.layers.len(), 2);
}

fn map_with(
    modules: Vec<Module>,
    groups: Vec<ModuleGroup>,
    domains: Vec<Domain>,
    graph: Option<DependencyGraph>,
) -> ModuleMap {
    let generator = GeneratorInfo::new("test".to_string(), "1.0.0".to_string());
    let mut map = ModuleMap::new(generator, sample_project(), modules, groups)
        .with_domains(domains);
    if let Some(g) = graph {
        map = map.with_dependency_graph(g);
    }
    map
}

#[test]
fn test_validate_referential_integrity_positive() {
    let map = map_with(
        vec![sample_module("auth"), sample_module("api")],
        vec![ModuleGroup::new(
            "core".to_string(),
            "Core".to_string(),
            vec!["auth".to_string(), "api".to_string()],
        )
        .with_domain("identity".to_string())],
        vec![Domain::new(
            "identity".to_string(),
            "Identity".to_string(),
            vec!["core".to_string()],
        )],
        None,
    );
    assert!(map.validate().is_ok());
}

#[test]
fn test_validate_dangling_module_reference() {
    let map = map_with(
        vec![sample_module("auth")],
        vec![ModuleGroup::new(
            "core".to_string(),
            "Core".to_string(),
            vec!["auth".to_string(), "ghost".to_string()],
        )],
        vec![],
        None,
    );
    let errors = map.validate().unwrap_err();
    assert!(errors.iter().any(|e| matches!(
        e,
        GraphIntegrityError::DanglingModuleReference { from, missing_id }
            if from == "core" && missing_id == "ghost"
    )));
}

#[test]
fn test_validate_dangling_group_and_domain_references() {
    let map = map_with(
        vec![sample_module("auth")],
        vec![ModuleGroup::new(
            "core".to_string(),
            "Core".to_string(),
            vec!["auth".to_string()],
        )
        .with_parent("missing-parent".to_string(), 1)
        .with_domain("missing-domain".to_string())],
        vec![Domain::new(
            "identity".to_string(),
            "Identity".to_string(),
            vec!["missing-group".to_string()],
        )],
        None,
    );
    let errors = map.validate().unwrap_err();
    assert!(errors.iter().any(|e| matches!(
        e,
        GraphIntegrityError::DanglingGroupReference { missing_id, .. }
            if missing_id == "missing-parent"
    )));
    assert!(errors.iter().any(|e| matches!(
        e,
        GraphIntegrityError::DanglingDomainReference { missing_id, .. }
            if missing_id == "missing-domain"
    )));
    assert!(errors.iter().any(|e| matches!(
        e,
        GraphIntegrityError::DanglingGroupReference { from, missing_id }
            if from == "identity" && missing_id == "missing-group"
    )));
}

fn runtime_edge(from: &str, to: &str) -> DependencyEdge {
    DependencyEdge {
        from: from.to_string(),
        to: to.to_string(),
        edge_type: DependencyType::Runtime,
    }
}

fn test_edge(from: &str, to: &str) -> DependencyEdge {
    DependencyEdge {
        from: from.to_string(),
        to: to.to_string(),
        edge_type: DependencyType::Test,
    }
}

#[test]
fn test_validate_runtime_cycle_detected() {
    let map = map_with(
        vec![sample_module("a"), sample_module("b"), sample_module("c")],
        vec![],
        vec![],
        Some(DependencyGraph {
            edges: vec![
                runtime_edge("a", "b"),
                runtime_edge("b", "c"),
                runtime_edge("c", "a"),
            ],
            layers: vec![],
        }),
    );
    let errors = map.validate().unwrap_err();
    let chain = errors
        .iter()
        .find_map(|e| match e {
            GraphIntegrityError::DependencyCycle { chain } => Some(chain.clone()),
            _ => None,
        })
        .expect("a dependency cycle must be reported");
    assert!(chain.contains(&"a".to_string()));
    assert!(chain.contains(&"b".to_string()));
    assert!(chain.contains(&"c".to_string()));
}

#[test]
fn test_validate_test_edges_do_not_cycle() {
    let map = map_with(
        vec![sample_module("a"), sample_module("b"), sample_module("c")],
        vec![],
        vec![],
        Some(DependencyGraph {
            edges: vec![test_edge("a", "b"), test_edge("b", "c"), test_edge("c", "a")],
            layers: vec![],
        }),
    );
    assert!(map.validate().is_ok());
}

#[test]
fn test_validate_acyclic_runtime_edges() {
    let map = map_with(
        vec![sample_module("a"), sample_module("b"), sample_module("c")],
        vec![],
        vec![],
        Some(DependencyGraph {
            edges: vec![runtime_edge("a", "b"), runtime_edge("b", "c")],
            layers: vec![],
        }),
    );
    assert!(map.validate().is_ok());
}


#[test]
fn test_validate_dangling_dependency_reference() {
    let mut m = sample_module("auth");
    m.dependencies = vec![ModuleDependency::runtime("phantom".to_string())];
    let map = map_with(vec![m], vec![], vec![], None);
    let errors = map.validate().unwrap_err();
    assert!(errors.iter().any(|e| matches!(
        e,
        GraphIntegrityError::DanglingModuleReference { from, missing_id }
            if from == "auth" && missing_id == "phantom"
    )));
}

#[test]
fn test_validate_dangling_edge_endpoint() {
    let map = map_with(
        vec![sample_module("auth")],
        vec![],
        vec![],
        Some(DependencyGraph {
            edges: vec![runtime_edge("auth", "gone")],
            layers: vec![],
        }),
    );
    let errors = map.validate().unwrap_err();
    assert!(errors.iter().any(|e| matches!(
        e,
        GraphIntegrityError::DanglingModuleReference { missing_id, .. }
            if missing_id == "gone"
    )));
}

#[test]
fn test_validate_cyclic_group_nesting() {
    let map = map_with(
        vec![],
        vec![
            ModuleGroup::new("g1".to_string(), "G1".to_string(), vec![])
                .with_parent("g2".to_string(), 1),
            ModuleGroup::new("g2".to_string(), "G2".to_string(), vec![])
                .with_parent("g1".to_string(), 1),
        ],
        vec![],
        None,
    );
    let errors = map.validate().unwrap_err();
    assert!(errors
        .iter()
        .any(|e| matches!(e, GraphIntegrityError::CyclicGroupNesting { .. })));
}

#[test]
fn test_validate_nested_groups_terminate() {
    let map = map_with(
        vec![],
        vec![
            ModuleGroup::new("root".to_string(), "Root".to_string(), vec![]),
            ModuleGroup::new("child".to_string(), "Child".to_string(), vec![])
                .with_parent("root".to_string(), 1),
        ],
        vec![],
        None,
    );
    assert!(map.validate().is_ok());
}


#[test]
fn test_find_modules_in_group_skips_unresolved() {
    let map = map_with(
        vec![sample_module("auth")],
        vec![ModuleGroup::new(
            "core".to_string(),
            "Core".to_string(),
            vec!["auth".to_string(), "ghost".to_string()],
        )],
        vec![],
        None,
    );
    let members = map.find_modules_in_group("core");
    assert_eq!(members.len(), 1);
    assert_eq!(members[0].id, "auth");
    assert!(map.find_modules_in_group("absent").is_empty());
}

#[test]
fn test_find_child_groups() {
    let map = map_with(
        vec![],
        vec![
            ModuleGroup::new("root".to_string(), "Root".to_string(), vec![]),
            ModuleGroup::new("a".to_string(), "A".to_string(), vec![])
                .with_parent("root".to_string(), 1),
            ModuleGroup::new("b".to_string(), "B".to_string(), vec![])
                .with_parent("root".to_string(), 1),
            ModuleGroup::new("c".to_string(), "C".to_string(), vec![])
                .with_parent("a".to_string(), 2),
        ],
        vec![],
        None,
    );
    let children = map.find_child_groups("root");
    assert_eq!(children.len(), 2);
    assert_eq!(children[0].id, "a");
    assert_eq!(children[1].id, "b");
    assert!(map.find_child_groups("c").is_empty());
}

fn sample_module_map() -> ModuleMap {
    let generator = GeneratorInfo::new("archgen".to_string(), "1.0.0".to_string());
    let project = ProjectMetadata::new("test-project".to_string(), TechStack::new("rust".to_string()));
    ModuleMap::new(generator, project, vec![], vec![])
}

#[test]
fn test_manifest_creation() {
    let manifest = ProjectManifest::new(sample_module_map());

    assert_eq!(manifest.version, "1.0.0");
    assert_eq!(manifest.generator, "archgen");
    assert!(manifest.modules.is_empty());
    assert!(manifest.groups.is_empty());
    assert!(manifest.domains.is_empty());
    assert!(manifest.tracked_files.is_empty());
}

#[test]
fn test_flat_resource_lists() {
    let manifest = ProjectManifest::new(sample_module_map())
        .with_rules(vec![
            "rules/project.md".to_string(),
            "rules/tech/rust.md".to_string(),
        ])
        .with_skills(vec!["skills/code-audit/SKILL.md".to_string()])
        .with_agents(vec!["agents/auditor.md".to_string()]);

    assert_eq!(manifest.rules.len(), 2);
    assert_eq!(manifest.skills.len(), 1);
    assert_eq!(manifest.agents.len(), 1);
}

#[test]
fn test_module_context() {
    let ctx = ModuleContext::new()
        .with_rules(vec!["rules/modules/auth.md".to_string()])
        .with_skills(vec!["code-audit".to_string(), "implement".to_string()])
        .with_conventions(vec!["bcrypt: Use cost factor 12".to_string()])
        .with_issues(vec!["[MEDIUM] token-refresh: May fail under load".to_string()])
        .with_group("authentication".to_string())
        .with_domain("identity".to_string());

    assert_eq!(ctx.rules.len(), 1);
    assert_eq!(ctx.skills.len(), 2);
    assert_eq!(ctx.conventions.len(), 1);
    assert_eq!(ctx.issues.len(), 1);
    assert_eq!(ctx.group_id, Some("authentication".into()));
    assert_eq!(ctx.domain_id, Some("identity".into()));
    assert!(!ctx.is_empty());
}

#[test]
fn test_group_context() {
    let ctx = GroupContext::new()
        .with_rules(vec!["rules/groups/auth-group.md".to_string()])
        .with_constraints(vec!["Must use bcrypt for passwords".to_string()])
        .with_members(vec!["auth-core".to_string(), "oauth".to_string()])
        .with_domain("identity".to_string());

    assert_eq!(ctx.rules.len(), 1);
    assert_eq!(ctx.constraints.len(), 1);
    assert_eq!(ctx.member_modules.len(), 2);
    assert_eq!(ctx.domain_id, Some("identity".into()));
    assert!(!ctx.is_empty());
}

#[test]
fn test_domain_context() {
    let ctx = DomainContext::new()
        .with_rules(vec!["rules/domains/identity.md".to_string()])
        .with_constraints(vec!["External access through gateway only".to_string()])
        .with_groups(vec!["authentication".to_string(), "authorization".to_string()])
        .with_interfaces(vec!["IdentityAPI".to_string(), "UserEvents".to_string()]);

    assert_eq!(ctx.rules.len(), 1);
    assert_eq!(ctx.constraints.len(), 1);
    assert_eq!(ctx.member_groups.len(), 2);
    assert_eq!(ctx.interfaces.len(), 2);
    assert!(!ctx.is_empty());
}

#[test]
fn test_manifest_with_hierarchical_contexts() {
    let modules = vec![(
        "auth-core".to_string(),
        ModuleContext::new()
            .with_rules(vec!["rules/modules/auth-core.md".to_string()])
            .with_group("authentication".to_string())
            .with_domain("identity".to_string()),
    )];

    let groups = vec![(
        "authentication".to_string(),
        GroupContext::new()
            .with_rules(vec!["rules/groups/authentication.md".to_string()])
            .with_members(vec!["auth-core".to_string()])
            .with_domain("identity".to_string()),
    )];

    let domains = vec![(
        "identity".to_string(),
        DomainContext::new()
            .with_rules(vec!["rules/domains/identity.md".to_string()])
            .with_groups(vec!["authentication".to_string()]),
    )];

    let manifest = ProjectManifest::new(sample_module_map())
        .with_modules(modules)
        .with_groups(groups)
        .with_domains(domains);

    assert!(manifest.get_module_context("auth-core").is_some());
    assert!(manifest.get_group_context("authentication").is_some());
    assert!(manifest.get_domain_context("identity").is_some());
    assert!(manifest.get_module_context("absent").is_none());
}

#[test]
fn test_tracked_file() {
    let file = TrackedFile::new(
        "src/auth/mod.rs".to_string(),
        "abc123def456".to_string(),
        1706529600,
    );

    assert_eq!(file.path, "src/auth/mod.rs");
    assert_eq!(file.hash, "abc123def456");
    assert_eq!(file.modified, 1706529600);
}

#[test]
fn test_manifest_with_tracked_files() {
    let files = vec![
        TrackedFile::new("src/auth/mod.rs".to_string(), "abc123".to_string(), 1706529600),
        TrackedFile::new(
            "src/auth/session.rs".to_string(),
            "def456".to_string(),
            1706529700,
        ),
    ];

    let manifest = ProjectManifest::new(sample_module_map()).with_tracked_files(files);

    assert_eq!(manifest.tracked_files.len(), 2);
    assert_eq!(manifest.tracked_files[0].path, "src/auth/mod.rs");
}

#[test]
fn test_agent_creation() {
    let agent = Agent::new(
        "auditor".to_string(),
        "Code audit agent".to_string(),
        "You audit code.".to_string(),
    );
    assert_eq!(agent.name, "auditor");
    assert!(agent.tools.is_empty());
}

#[test]
fn test_agent_builder() {
    let agent = Agent::new("test".to_string(), "desc".to_string(), "prompt".to_string())
        .with_color(AgentColor::Green)
        .with_tools(vec!["Read".to_string(), "Grep".to_string()])
        .with_model(AgentModel::Sonnet)
        .with_skills(vec!["code-audit".to_string()]);

    assert_eq!(agent.color, Some(AgentColor::Green));
    assert_eq!(agent.tools, vec!["Read", "Grep"]);
    assert_eq!(agent.model, Some(AgentModel::Sonnet));
    assert_eq!(agent.skills, vec!["code-audit"]);
}

#[test]
fn test_consensus_role() {
    let role = ConsensusRole::new(80).with_veto().with_threshold(7500);
    assert_eq!(role.priority, 80);
    assert!(role.can_veto);
    assert_eq!(role.vote_threshold, 7500);
}

#[test]
fn test_agent_example() {
    let example = AgentExample::new(
        "context".to_string(),
        "user input".to_string(),
        "assistant response".to_string(),
    )
    .with_commentary("This shows proper handling".to_string());

    assert_eq!(example.context, "context");
    assert_eq!(example.commentary, Some("This shows proper handling".into()));
}
