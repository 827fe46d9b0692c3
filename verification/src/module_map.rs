//! The entity graph document: project metadata, modules, module groups,
//! domains and the dependency graph, with the lookup queries over them.

use vstd::prelude::*;

use crate::clock::now_epoch_seconds;
use crate::registry::SCHEMA_VERSION;
use crate::strutil::{is_char_prefix, str_eq, str_starts_with};
use crate::types::{
    Convention, DetectedLanguage, EvidenceLocation, GeneratorInfo, KnownIssue, ModuleDependency,
    ProjectType, TechStack, WorkspaceType,
};

verus! {

/// The denominator of the fixed-point scores: a score of `SCORE_SCALE`
/// stands for 1.0, so scores range over 0 to `SCORE_SCALE`.
pub const SCORE_SCALE: u32 = 10000;

/// Per-module metrics as fixed-point fractions of `SCORE_SCALE`.
#[derive(Debug, Clone, Copy, PartialEq, Eq, Structural)]
pub struct ModuleMetrics {
    pub coverage_ratio: u32,
    pub value_score: u32,
    pub risk_score: u32,
}

impl ModuleMetrics {
    /// All scores lie in the unit interval.
    pub open spec fn valid(self) -> bool {
        self.coverage_ratio <= SCORE_SCALE && self.value_score <= SCORE_SCALE
            && self.risk_score <= SCORE_SCALE
    }

    pub fn new(coverage_ratio: u32, value_score: u32, risk_score: u32) -> (r: Self)
        ensures
            r.coverage_ratio == coverage_ratio,
            r.value_score == value_score,
            r.risk_score == risk_score,
    {
        ModuleMetrics { coverage_ratio, value_score, risk_score }
    }

    /// The derived priority score: 0.6 times the value score plus 0.4 times
    /// the risk score, in the same fixed-point scale, computed on demand.
    pub fn priority_score(&self) -> (r: u32)
        requires
            self.valid(),
        ensures
            r == (6 * self.value_score + 4 * self.risk_score) / 10,
    {
        (6 * self.value_score + 4 * self.risk_score) / 10
    }
}

impl Default for ModuleMetrics {
    fn default() -> (r: Self)
        ensures
            r.coverage_ratio == 0u32,
            r.value_score == 0u32,
            r.risk_score == 0u32,
    {
        ModuleMetrics { coverage_ratio: 0, value_score: 0, risk_score: 0 }
    }
}

/// A unit of code ownership.
#[derive(Debug, Clone, PartialEq)]
pub struct Module {
    pub id: String,
    pub name: String,
    pub paths: Vec<String>,
    pub key_files: Vec<String>,
    pub dependencies: Vec<ModuleDependency>,
    pub dependents: Vec<String>,
    pub responsibility: String,
    pub primary_language: String,
    pub metrics: ModuleMetrics,
    pub conventions: Vec<Convention>,
    pub known_issues: Vec<KnownIssue>,
    pub evidence: Vec<EvidenceLocation>,
}

impl Module {
    /// Whether the module owns `path`: the path starts, character for
    /// character, with one of the module's registered path prefixes.
    pub fn contains_file(&self, path: &str) -> (r: bool)
        ensures
            r == exists|i: int|
                0 <= i < self.paths@.len() && is_char_prefix(self.paths@[i]@, path@),
    {
        let n = self.paths.len();
        let mut i: usize = 0;
        while i < n
            invariant
                i <= n,
                n == self.paths@.len(),
                forall|j: int| 0 <= j < i ==> !is_char_prefix(self.paths@[j]@, path@),
            decreases n - i,
        {
            if str_starts_with(path, self.paths[i].as_str()) {
                return true;
            }
            i = i + 1;
        }
        false
    }
}

/// A named cluster of module ids, optionally nested under a parent group.
#[derive(Debug, Clone, PartialEq)]
pub struct ModuleGroup {
    pub id: String,
    pub name: String,
    pub module_ids: Vec<String>,
    pub responsibility: String,
    pub boundary_rules: Vec<String>,
    pub leader_module: Option<String>,
    pub parent_group_id: Option<String>,
    pub domain_id: Option<String>,
    pub depth: u8,
}

impl ModuleGroup {
    pub fn new(id: String, name: String, module_ids: Vec<String>) -> (r: Self)
        ensures
            r.id == id,
            r.name == name,
            r.module_ids == module_ids,
            r.responsibility@ == Seq::<char>::empty(),
            r.boundary_rules@ == Seq::<String>::empty(),
            r.leader_module is None,
            r.parent_group_id is None,
            r.domain_id is None,
            r.depth == 0u8,
    {
        ModuleGroup {
            id,
            name,
            module_ids,
            responsibility: String::new(),
            boundary_rules: Vec::new(),
            leader_module: None,
            parent_group_id: None,
            domain_id: None,
            depth: 0,
        }
    }

    pub fn with_responsibility(self, responsibility: String) -> (r: Self)
        ensures
            r == (ModuleGroup { responsibility, ..self }),
    {
        ModuleGroup { responsibility, ..self }
    }

    pub fn with_boundary_rules(self, rules: Vec<String>) -> (r: Self)
        ensures
            r == (ModuleGroup { boundary_rules: rules, ..self }),
    {
        ModuleGroup { boundary_rules: rules, ..self }
    }

    pub fn with_domain(self, domain_id: String) -> (r: Self)
        ensures
            r == (ModuleGroup { domain_id: Some(domain_id), ..self }),
    {
        ModuleGroup { domain_id: Some(domain_id), ..self }
    }

    pub fn with_parent(self, parent_group_id: String, depth: u8) -> (r: Self)
        ensures
            r == (ModuleGroup { parent_group_id: Some(parent_group_id), depth, ..self }),
    {
        ModuleGroup { parent_group_id: Some(parent_group_id), depth, ..self }
    }
}

#[derive(Debug, Clone, Copy, PartialEq, Eq, Structural)]
pub enum InterfaceType {
    Api,
    Event,
    SharedLibrary,
    Database,
}

impl Default for InterfaceType {
    fn default() -> (r: Self)
        ensures
            r == InterfaceType::Api,
    {
        InterfaceType::Api
    }
}

/// An interface a domain exposes to its consumers.
#[derive(Debug, Clone, PartialEq)]
pub struct DomainInterface {
    pub name: String,
    pub interface_type: InterfaceType,
    pub consumers: Vec<String>,
}

impl DomainInterface {
    pub fn new(name: String, interface_type: InterfaceType) -> (r: Self)
        ensures
            r.name == name,
            r.interface_type == interface_type,
            r.consumers@ == Seq::<String>::empty(),
    {
        DomainInterface { name, interface_type, consumers: Vec::new() }
    }

    pub fn with_consumers(self, consumers: Vec<String>) -> (r: Self)
        ensures
            r == (DomainInterface { consumers, ..self }),
    {
        DomainInterface { consumers, ..self }
    }
}

/// A named cluster of group ids: a bounded business or technical capability.
#[derive(Debug, Clone, PartialEq)]
pub struct Domain {
    pub id: String,
    pub name: String,
    pub group_ids: Vec<String>,
    pub responsibility: String,
    pub boundary_rules: Vec<String>,
    pub interfaces: Vec<DomainInterface>,
    pub owner: Option<String>,
}

impl Domain {
    pub fn new(id: String, name: String, group_ids: Vec<String>) -> (r: Self)
        ensures
            r.id == id,
            r.name == name,
            r.group_ids == group_ids,
            r.responsibility@ == Seq::<char>::empty(),
            r.boundary_rules@ == Seq::<String>::empty(),
            r.interfaces@ == Seq::<DomainInterface>::empty(),
            r.owner is None,
    {
        Domain {
            id,
            name,
            group_ids,
            responsibility: String::new(),
            boundary_rules: Vec::new(),
            interfaces: Vec::new(),
            owner: None,
        }
    }

    pub fn with_responsibility(self, responsibility: String) -> (r: Self)
        ensures
            r == (Domain { responsibility, ..self }),
    {
        Domain { responsibility, ..self }
    }

    pub fn with_boundary_rules(self, rules: Vec<String>) -> (r: Self)
        ensures
            r == (Domain { boundary_rules: rules, ..self }),
    {
        Domain { boundary_rules: rules, ..self }
    }

    pub fn with_interfaces(self, interfaces: Vec<DomainInterface>) -> (r: Self)
        ensures
            r == (Domain { interfaces, ..self }),
    {
        Domain { interfaces, ..self }
    }

    pub fn with_owner(self, owner: String) -> (r: Self)
        ensures
            r == (Domain { owner: Some(owner), ..self }),
    {
        Domain { owner: Some(owner), ..self }
    }
}

/// A directed, typed dependency edge between two modules.
#[derive(Debug, Clone, PartialEq)]
pub struct DependencyEdge {
    pub from: String,
    pub to: String,
    pub edge_type: crate::types::DependencyType,
}

/// A named architecture layer with the modules assigned to it.
#[derive(Debug, Clone, PartialEq)]
pub struct ArchitectureLayer {
    pub name: String,
    pub modules: Vec<String>,
}

/// The dependency graph: directed typed edges plus an optional assignment
/// of modules into named layers.
#[derive(Debug, Clone, PartialEq)]
pub struct DependencyGraph {
    pub edges: Vec<DependencyEdge>,
    pub layers: Vec<ArchitectureLayer>,
}

impl Default for DependencyGraph {
    fn default() -> (r: Self)
        ensures
            r.edges@ == Seq::<DependencyEdge>::empty(),
            r.layers@ == Seq::<ArchitectureLayer>::empty(),
    {
        DependencyGraph { edges: Vec::new(), layers: Vec::new() }
    }
}

#[derive(Debug, Clone, PartialEq)]
pub struct WorkspaceInfo {
    pub workspace_type: WorkspaceType,
    pub root: Option<String>,
}

impl Default for WorkspaceInfo {
    fn default() -> (r: Self)
        ensures
            r.workspace_type == WorkspaceType::SinglePackage,
            r.root is None,
    {
        WorkspaceInfo { workspace_type: WorkspaceType::SinglePackage, root: None }
    }
}

#[derive(Debug, Clone, PartialEq)]
pub struct ProjectCommands {
    pub build: String,
    pub test: String,
    pub lint: Option<String>,
    pub format: Option<String>,
}

impl ProjectCommands {
    pub fn new(build: String, test: String) -> (r: Self)
        ensures
            r.build == build,
            r.test == test,
            r.lint is None,
            r.format is None,
    {
        ProjectCommands { build, test, lint: None, format: None }
    }

    pub fn with_lint(self, lint: String) -> (r: Self)
        ensures
            r == (ProjectCommands { lint: Some(lint), ..self }),
    {
        ProjectCommands { lint: Some(lint), ..self }
    }

    pub fn with_format(self, format: String) -> (r: Self)
        ensures
            r == (ProjectCommands { format: Some(format), ..self }),
    {
        ProjectCommands { format: Some(format), ..self }
    }
}

/// Project-level metadata of an entity graph document.
#[derive(Debug, Clone, PartialEq)]
pub struct ProjectMetadata {
    pub name: String,
    pub project_type: ProjectType,
    pub description: Option<String>,
    pub repository: Option<String>,
    pub workspace: WorkspaceInfo,
    pub tech_stack: TechStack,
    pub languages: Vec<DetectedLanguage>,
    pub total_files: usize,
    pub commands: Option<ProjectCommands>,
}

impl ProjectMetadata {
    pub fn new(name: String, tech_stack: TechStack) -> (r: Self)
        ensures
            r.name == name,
            r.project_type == ProjectType::Application,
            r.description is None,
            r.repository is None,
            r.workspace.workspace_type == WorkspaceType::SinglePackage,
            r.workspace.root is None,
            r.tech_stack == tech_stack,
            r.languages@ == Seq::<DetectedLanguage>::empty(),
            r.total_files == 0usize,
            r.commands is None,
    {
        ProjectMetadata {
            name,
            project_type: ProjectType::Application,
            description: None,
            repository: None,
            workspace: WorkspaceInfo { workspace_type: WorkspaceType::SinglePackage, root: None },
            tech_stack,
            languages: Vec::new(),
            total_files: 0,
            commands: None,
        }
    }

    pub fn with_type(self, project_type: ProjectType) -> (r: Self)
        ensures
            r == (ProjectMetadata { project_type, ..self }),
    {
        ProjectMetadata { project_type, ..self }
    }

    pub fn with_description(self, description: String) -> (r: Self)
        ensures
            r == (ProjectMetadata { description: Some(description), ..self }),
    {
        ProjectMetadata { description: Some(description), ..self }
    }

    pub fn with_workspace(self, workspace: WorkspaceInfo) -> (r: Self)
        ensures
            r == (ProjectMetadata { workspace, ..self }),
    {
        ProjectMetadata { workspace, ..self }
    }

    pub fn with_languages(self, languages: Vec<DetectedLanguage>) -> (r: Self)
        ensures
            r == (ProjectMetadata { languages, ..self }),
    {
        ProjectMetadata { languages, ..self }
    }

    pub fn with_total_files(self, total_files: usize) -> (r: Self)
        ensures
            r == (ProjectMetadata { total_files, ..self }),
    {
        ProjectMetadata { total_files, ..self }
    }

    pub fn with_commands(self, commands: ProjectCommands) -> (r: Self)
        ensures
            r == (ProjectMetadata { commands: Some(commands), ..self }),
    {
        ProjectMetadata { commands: Some(commands), ..self }
    }
}

/// The entity graph document: project metadata, modules, groups, domains
/// and the optional dependency graph, under a schema version tag.
#[derive(Debug, Clone, PartialEq)]
pub struct ModuleMap {
    pub schema_version: String,
    pub generator: GeneratorInfo,
    pub project: ProjectMetadata,
    pub modules: Vec<Module>,
    pub groups: Vec<ModuleGroup>,
    pub domains: Vec<Domain>,
    pub dependency_graph: Option<DependencyGraph>,
    /// When the document was generated, in Unix epoch seconds.
    pub generated_at: i64,
}

/// The first module with the given id, scanning in document order.
pub open spec fn spec_find_module(modules: Seq<Module>, id: Seq<char>) -> Option<Module>
    decreases modules.len(),
{
    if modules.len() == 0 {
        None
    } else if modules[0].id@ == id {
        Some(modules[0])
    } else {
        spec_find_module(modules.drop_first(), id)
    }
}

/// The first group with the given id, scanning in document order.
pub open spec fn spec_find_group(groups: Seq<ModuleGroup>, id: Seq<char>) -> Option<ModuleGroup>
    decreases groups.len(),
{
    if groups.len() == 0 {
        None
    } else if groups[0].id@ == id {
        Some(groups[0])
    } else {
        spec_find_group(groups.drop_first(), id)
    }
}

/// The first domain with the given id, scanning in document order.
pub open spec fn spec_find_domain(domains: Seq<Domain>, id: Seq<char>) -> Option<Domain>
    decreases domains.len(),
{
    if domains.len() == 0 {
        None
    } else if domains[0].id@ == id {
        Some(domains[0])
    } else {
        spec_find_domain(domains.drop_first(), id)
    }
}

/// Whether a list of ids mentions `id`.
pub open spec fn spec_id_list_contains(ids: Seq<String>, id: Seq<char>) -> bool {
    exists|i: int| 0 <= i < ids.len() && ids[i]@ == id
}

/// The first group whose member list mentions the module id.
pub open spec fn spec_find_group_containing(groups: Seq<ModuleGroup>, module_id: Seq<char>) -> Option<ModuleGroup>
    decreases groups.len(),
{
    if groups.len() == 0 {
        None
    } else if spec_id_list_contains(groups[0].module_ids@, module_id) {
        Some(groups[0])
    } else {
        spec_find_group_containing(groups.drop_first(), module_id)
    }
}

/// The first domain whose group list mentions the group id.
pub open spec fn spec_find_domain_containing_group(domains: Seq<Domain>, group_id: Seq<char>) -> Option<Domain>
    decreases domains.len(),
{
    if domains.len() == 0 {
        None
    } else if spec_id_list_contains(domains[0].group_ids@, group_id) {
        Some(domains[0])
    } else {
        spec_find_domain_containing_group(domains.drop_first(), group_id)
    }
}

/// The modules that a list of ids resolves to, in list order, skipping ids
/// that resolve to nothing.
pub open spec fn spec_resolve_modules(modules: Seq<Module>, ids: Seq<String>) -> Seq<Module>
    decreases ids.len(),
{
    if ids.len() == 0 {
        Seq::empty()
    } else {
        let rest = spec_resolve_modules(modules, ids.drop_first());
        match spec_find_module(modules, ids[0]@) {
            Some(m) => seq![m] + rest,
            None => rest,
        }
    }
}

/// The groups that a list of ids resolves to, in list order, skipping ids
/// that resolve to nothing.
pub open spec fn spec_resolve_groups(groups: Seq<ModuleGroup>, ids: Seq<String>) -> Seq<ModuleGroup>
    decreases ids.len(),
{
    if ids.len() == 0 {
        Seq::empty()
    } else {
        let rest = spec_resolve_groups(groups, ids.drop_first());
        match spec_find_group(groups, ids[0]@) {
            Some(g) => seq![g] + rest,
            None => rest,
        }
    }
}

/// The groups whose parent is the given group id, in document order.
pub open spec fn spec_child_groups(groups: Seq<ModuleGroup>, parent_id: Seq<char>) -> Seq<ModuleGroup>
    decreases groups.len(),
{
    if groups.len() == 0 {
        Seq::empty()
    } else {
        let rest = spec_child_groups(groups.drop_first(), parent_id);
        if groups[0].parent_group_id matches Some(p) && p@ == parent_id {
            seq![groups[0]] + rest
        } else {
            rest
        }
    }
}

impl ModuleMap {
    /// A fresh document at the current schema version. The generation
    /// timestamp is read from the clock.
    pub fn new(
        generator: GeneratorInfo,
        project: ProjectMetadata,
        modules: Vec<Module>,
        groups: Vec<ModuleGroup>,
    ) -> (r: Self)
        ensures
            r.schema_version@ == SCHEMA_VERSION@,
            r.generator == generator,
            r.project == project,
            r.modules == modules,
            r.groups == groups,
            r.domains@ == Seq::<Domain>::empty(),
            r.dependency_graph is None,
    {
        ModuleMap {
            schema_version: SCHEMA_VERSION.to_owned(),
            generator,
            project,
            modules,
            groups,
            domains: Vec::new(),
            dependency_graph: None,
            generated_at: now_epoch_seconds(),
        }
    }

    pub fn with_domains(self, domains: Vec<Domain>) -> (r: Self)
        ensures
            r == (ModuleMap { domains, ..self }),
    {
        ModuleMap { domains, ..self }
    }

    pub fn with_dependency_graph(self, graph: DependencyGraph) -> (r: Self)
        ensures
            r == (ModuleMap { dependency_graph: Some(graph), ..self }),
    {
        ModuleMap { dependency_graph: Some(graph), ..self }
    }

    /// The first module with the given id, or absent. Absence is a normal
    /// outcome, not an error.
    pub fn find_module(&self, module_id: &str) -> (r: Option<&Module>)
        ensures
            r matches Some(m) ==> spec_find_module(self.modules@, module_id@) == Some(*m),
            r is None ==> spec_find_module(self.modules@, module_id@) is None,
    {
        let n = self.modules.len();
        let mut i: usize = 0;
        proof {
            assert(self.modules@.skip(0) =~= self.modules@);
        }
        while i < n
            invariant
                i <= n,
                n == self.modules@.len(),
                spec_find_module(self.modules@, module_id@) == spec_find_module(
                    self.modules@.skip(i as int),
                    module_id@,
                ),
            decreases n - i,
        {
            proof {
                assert(self.modules@.skip(i as int)[0] == self.modules@[i as int]);
                assert(self.modules@.skip(i as int).drop_first() =~= self.modules@.skip(i + 1));
            }
            if str_eq(self.modules[i].id.as_str(), module_id) {
                return Some(&self.modules[i]);
            }
            i = i + 1;
        }
        None
    }

    /// The first group with the given id, or absent.
    pub fn find_group(&self, group_id: &str) -> (r: Option<&ModuleGroup>)
        ensures
            r matches Some(g) ==> spec_find_group(self.groups@, group_id@) == Some(*g),
            r is None ==> spec_find_group(self.groups@, group_id@) is None,
    {
        let n = self.groups.len();
        let mut i: usize = 0;
        proof {
            assert(self.groups@.skip(0) =~= self.groups@);
        }
        while i < n
            invariant
                i <= n,
                n == self.groups@.len(),
                spec_find_group(self.groups@, group_id@) == spec_find_group(
                    self.groups@.skip(i as int),
                    group_id@,
                ),
            decreases n - i,
        {
            proof {
                assert(self.groups@.skip(i as int)[0] == self.groups@[i as int]);
                assert(self.groups@.skip(i as int).drop_first() =~= self.groups@.skip(i + 1));
            }
            if str_eq(self.groups[i].id.as_str(), group_id) {
                return Some(&self.groups[i]);
            }
            i = i + 1;
        }
        None
    }

    /// The first domain with the given id, or absent.
    pub fn find_domain(&self, domain_id: &str) -> (r: Option<&Domain>)
        ensures
            r matches Some(d) ==> spec_find_domain(self.domains@, domain_id@) == Some(*d),
            r is None ==> spec_find_domain(self.domains@, domain_id@) is None,
    {
        let n = self.domains.len();
        let mut i: usize = 0;
        proof {
            assert(self.domains@.skip(0) =~= self.domains@);
        }
        while i < n
            invariant
                i <= n,
                n == self.domains@.len(),
                spec_find_domain(self.domains@, domain_id@) == spec_find_domain(
                    self.domains@.skip(i as int),
                    domain_id@,
                ),
            decreases n - i,
        {
            proof {
                assert(self.domains@.skip(i as int)[0] == self.domains@[i as int]);
                assert(self.domains@.skip(i as int).drop_first() =~= self.domains@.skip(i + 1));
            }
            if str_eq(self.domains[i].id.as_str(), domain_id) {
                return Some(&self.domains[i]);
            }
            i = i + 1;
        }
        None
    }

    /// The first group whose member list mentions the module id. When
    /// validation holds, at most one group contains each module.
    pub fn find_group_containing(&self, module_id: &str) -> (r: Option<&ModuleGroup>)
        ensures
            r matches Some(g) ==> spec_find_group_containing(self.groups@, module_id@) == Some(
                *g,
            ),
            r is None ==> spec_find_group_containing(self.groups@, module_id@) is None,
    {
        let n = self.groups.len();
        let mut i: usize = 0;
        proof {
            assert(self.groups@.skip(0) =~= self.groups@);
        }
        while i < n
            invariant
                i <= n,
                n == self.groups@.len(),
                spec_find_group_containing(self.groups@, module_id@)
                    == spec_find_group_containing(self.groups@.skip(i as int), module_id@),
            decreases n - i,
        {
            proof {
                assert(self.groups@.skip(i as int)[0] == self.groups@[i as int]);
                assert(self.groups@.skip(i as int).drop_first() =~= self.groups@.skip(i + 1));
            }
            if id_list_contains(&self.groups[i].module_ids, module_id) {
                return Some(&self.groups[i]);
            }
            i = i + 1;
        }
        None
    }

    /// The first domain whose group list mentions the group id.
    pub fn find_domain_containing_group(&self, group_id: &str) -> (r: Option<&Domain>)
        ensures
            r matches Some(d) ==> spec_find_domain_containing_group(self.domains@, group_id@)
                == Some(*d),
            r is None ==> spec_find_domain_containing_group(self.domains@, group_id@) is None,
    {
        let n = self.domains.len();
        let mut i: usize = 0;
        proof {
            assert(self.domains@.skip(0) =~= self.domains@);
        }
        while i < n
            invariant
                i <= n,
                n == self.domains@.len(),
                spec_find_domain_containing_group(self.domains@, group_id@)
                    == spec_find_domain_containing_group(self.domains@.skip(i as int), group_id@),
            decreases n - i,
        {
            proof {
                assert(self.domains@.skip(i as int)[0] == self.domains@[i as int]);
                assert(self.domains@.skip(i as int).drop_first() =~= self.domains@.skip(i + 1));
            }
            if id_list_contains(&self.domains[i].group_ids, group_id) {
                return Some(&self.domains[i]);
            }
            i = i + 1;
        }
        None
    }

    /// The member modules of a group, in member-list order; empty when the
    /// group is absent or no member resolves.
    pub fn find_modules_in_group(&self, group_id: &str) -> (r: Vec<&Module>)
        ensures
            ({
                let expected = match spec_find_group(self.groups@, group_id@) {
                    Some(g) => spec_resolve_modules(self.modules@, g.module_ids@),
                    None => Seq::empty(),
                };
                r@.len() == expected.len() && (forall|k: int|
                    0 <= k < r@.len() ==> *r@[k] == expected[k])
            }),
    {
        let group = match self.find_group(group_id) {
            Some(g) => g,
            None => {
                return Vec::new();
            },
        };
        let n = group.module_ids.len();
        let mut out: Vec<&Module> = Vec::new();
        let mut i: usize = 0;
        proof {
            assert(group.module_ids@.skip(0) =~= group.module_ids@);
        }
        while i < n
            invariant
                i <= n,
                n == group.module_ids@.len(),
                spec_find_group(self.groups@, group_id@) == Some(*group),
                ({
                    let full = spec_resolve_modules(self.modules@, group.module_ids@);
                    let rest = spec_resolve_modules(
                        self.modules@,
                        group.module_ids@.skip(i as int),
                    );
                    full.len() == out@.len() + rest.len() && (forall|k: int|
                        0 <= k < out@.len() ==> *out@[k] == full[k]) && (forall|k: int|
                        0 <= k < rest.len() ==> rest[k] == full[out@.len() + k])
                }),
            decreases n - i,
        {
            let ghost full = spec_resolve_modules(self.modules@, group.module_ids@);
            let ghost rest = spec_resolve_modules(self.modules@, group.module_ids@.skip(i as int));
            let ghost rest_next = spec_resolve_modules(
                self.modules@,
                group.module_ids@.skip(i + 1),
            );
            proof {
                assert(group.module_ids@.skip(i as int)[0] == group.module_ids@[i as int]);
                assert(group.module_ids@.skip(i as int).drop_first() =~= group.module_ids@.skip(
                    i + 1,
                ));
            }
            let ghost prev = out@;
            match self.find_module(group.module_ids[i].as_str()) {
                Some(m) => {
                    proof {
                        assert(rest == seq![*m] + rest_next);
                        assert(rest[0] == *m);
                        assert forall|k: int| 0 <= k < rest_next.len() implies rest_next[k]
                            == rest[k + 1] by {
                            assert((seq![*m] + rest_next)[k + 1] == rest_next[k]);
                        }
                        assert(full[out@.len() as int] == *m);
                    }
                    out.push(m);
                    proof {
                        assert forall|k: int| 0 <= k < prev.len() implies out@[k] == prev[k] by {
                            assert(prev.push(m)[k] == prev[k]);
                        }
                        assert(out@[prev.len() as int] == m) by {
                            assert(prev.push(m)[prev.len() as int] == m);
                        }
                    }
                },
                None => {
                    proof {
                        assert(rest == rest_next);
                    }
                },
            }
            i = i + 1;
        }
        out
    }

    /// The member groups of a domain, in list order; empty when the domain
    /// is absent or no member resolves.
    pub fn find_groups_in_domain(&self, domain_id: &str) -> (r: Vec<&ModuleGroup>)
        ensures
            ({
                let expected = match spec_find_domain(self.domains@, domain_id@) {
                    Some(d) => spec_resolve_groups(self.groups@, d.group_ids@),
                    None => Seq::empty(),
                };
                r@.len() == expected.len() && (forall|k: int|
                    0 <= k < r@.len() ==> *r@[k] == expected[k])
            }),
    {
        let domain = match self.find_domain(domain_id) {
            Some(d) => d,
            None => {
                return Vec::new();
            },
        };
        let n = domain.group_ids.len();
        let mut out: Vec<&ModuleGroup> = Vec::new();
        let mut i: usize = 0;
        proof {
            assert(domain.group_ids@.skip(0) =~= domain.group_ids@);
        }
        while i < n
            invariant
                i <= n,
                n == domain.group_ids@.len(),
                spec_find_domain(self.domains@, domain_id@) == Some(*domain),
                ({
                    let full = spec_resolve_groups(self.groups@, domain.group_ids@);
                    let rest = spec_resolve_groups(self.groups@, domain.group_ids@.skip(i as int));
                    full.len() == out@.len() + rest.len() && (forall|k: int|
                        0 <= k < out@.len() ==> *out@[k] == full[k]) && (forall|k: int|
                        0 <= k < rest.len() ==> rest[k] == full[out@.len() + k])
                }),
            decreases n - i,
        {
            let ghost full = spec_resolve_groups(self.groups@, domain.group_ids@);
            let ghost rest = spec_resolve_groups(self.groups@, domain.group_ids@.skip(i as int));
            let ghost rest_next = spec_resolve_groups(self.groups@, domain.group_ids@.skip(i + 1));
            proof {
                assert(domain.group_ids@.skip(i as int)[0] == domain.group_ids@[i as int]);
                assert(domain.group_ids@.skip(i as int).drop_first() =~= domain.group_ids@.skip(
                    i + 1,
                ));
            }
            let ghost prev = out@;
            match self.find_group(domain.group_ids[i].as_str()) {
                Some(g) => {
                    proof {
                        assert(rest == seq![*g] + rest_next);
                        assert(rest[0] == *g);
                        assert forall|k: int| 0 <= k < rest_next.len() implies rest_next[k]
                            == rest[k + 1] by {
                            assert((seq![*g] + rest_next)[k + 1] == rest_next[k]);
                        }
                        assert(full[out@.len() as int] == *g);
                    }
                    out.push(g);
                    proof {
                        assert forall|k: int| 0 <= k < prev.len() implies out@[k] == prev[k] by {
                            assert(prev.push(g)[k] == prev[k]);
                        }
                        assert(out@[prev.len() as int] == g) by {
                            assert(prev.push(g)[prev.len() as int] == g);
                        }
                    }
                },
                None => {
                    proof {
                        assert(rest == rest_next);
                    }
                },
            }
            i = i + 1;
        }
        out
    }

    /// The groups nested directly under the given parent group id.
    pub fn find_child_groups(&self, parent_group_id: &str) -> (r: Vec<&ModuleGroup>)
        ensures
            ({
                let expected = spec_child_groups(self.groups@, parent_group_id@);
                r@.len() == expected.len() && (forall|k: int|
                    0 <= k < r@.len() ==> *r@[k] == expected[k])
            }),
    {
        let n = self.groups.len();
        let mut out: Vec<&ModuleGroup> = Vec::new();
        let mut i: usize = 0;
        proof {
            assert(self.groups@.skip(0) =~= self.groups@);
        }
        while i < n
            invariant
                i <= n,
                n == self.groups@.len(),
                ({
                    let full = spec_child_groups(self.groups@, parent_group_id@);
                    let rest = spec_child_groups(self.groups@.skip(i as int), parent_group_id@);
                    full.len() == out@.len() + rest.len() && (forall|k: int|
                        0 <= k < out@.len() ==> *out@[k] == full[k]) && (forall|k: int|
                        0 <= k < rest.len() ==> rest[k] == full[out@.len() + k])
                }),
            decreases n - i,
        {
            let ghost full = spec_child_groups(self.groups@, parent_group_id@);
            let ghost rest = spec_child_groups(self.groups@.skip(i as int), parent_group_id@);
            let ghost rest_next = spec_child_groups(self.groups@.skip(i + 1), parent_group_id@);
            proof {
                assert(self.groups@.skip(i as int)[0] == self.groups@[i as int]);
                assert(self.groups@.skip(i as int).drop_first() =~= self.groups@.skip(i + 1));
            }
            let is_child = match &self.groups[i].parent_group_id {
                Some(p) => str_eq(p.as_str(), parent_group_id),
                None => false,
            };
            let ghost prev = out@;
            if is_child {
                let g = &self.groups[i];
                proof {
                    assert(rest == seq![*g] + rest_next);
                    assert(rest[0] == *g);
                    assert forall|k: int| 0 <= k < rest_next.len() implies rest_next[k] == rest[k
                        + 1] by {
                        assert((seq![*g] + rest_next)[k + 1] == rest_next[k]);
                    }
                    assert(full[out@.len() as int] == *g);
                }
                out.push(g);
                proof {
                    assert forall|k: int| 0 <= k < prev.len() implies out@[k] == prev[k] by {
                        assert(prev.push(g)[k] == prev[k]);
                    }
                    assert(out@[prev.len() as int] == g) by {
                        assert(prev.push(g)[prev.len() as int] == g);
                    }
                }
            } else {
                proof {
                    assert(rest == rest_next);
                }
            }
            i = i + 1;
        }
        out
    }
}

/// Whether one of the strings in `ids` equals `id`.
pub fn id_list_contains(ids: &Vec<String>, id: &str) -> (r: bool)
    ensures
        r == spec_id_list_contains(ids@, id@),
{
    let n = ids.len();
    let mut i: usize = 0;
    while i < n
        invariant
            i <= n,
            n == ids@.len(),
            forall|j: int| 0 <= j < i ==> ids@[j]@ != id@,
        decreases n - i,
    {
        if str_eq(ids[i].as_str(), id) {
            return true;
        }
        i = i + 1;
    }
    false
}

} // verus!
