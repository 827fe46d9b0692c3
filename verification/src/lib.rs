//! An in-memory model of a project's architecture: modules, module groups,
//! domains and a dependency graph, together with referential-integrity
//! validation, a context-aware rule resolution engine, and a schema version
//! gate for persisted documents.

pub mod agent;
pub mod clock;
pub mod manifest;
pub mod module_map;
pub mod registry;
pub mod resolve;
pub mod rule;
pub mod skill;
pub mod strutil;
pub mod types;
pub mod validate;

pub use agent::{Agent, AgentColor, AgentExample, AgentModel, ConsensusRole, PermissionMode};
pub use manifest::{DomainContext, GroupContext, ModuleContext, ProjectManifest, TrackedFile};
pub use module_map::{
    ArchitectureLayer, DependencyEdge, DependencyGraph, Domain, DomainInterface, InterfaceType,
    Module, ModuleGroup, ModuleMap, ModuleMetrics, ProjectCommands, ProjectMetadata, SCORE_SCALE,
    WorkspaceInfo,
};
pub use registry::{SCHEMA_VERSION, SchemaError, SchemaRegistry, SemVer};
pub use resolve::{
    RuleContext, glob_match, glob_pattern_is_valid, invalid_glob_patterns, resolve, resolve_names,
    rule_is_dead, rule_matches,
};
pub use rule::{Rule, RuleCategory, default_priority};
pub use skill::{ContextMode, Skill, SkillFile, default_version};
pub use strutil::str_eq;
pub use validate::GraphIntegrityError;
pub use types::{
    Convention, DependencyType, DetectedLanguage, EvidenceLocation, FrameworkInfo, GeneratorInfo,
    IssueCategory, IssueSeverity, KnownIssue, LibraryInfo, ModuleDependency, ProjectType,
    TechStack, WorkspaceType, is_path_in_scope,
};
