//! Shared schema types: workspace and project classification, module
//! dependencies, evidence locations, conventions, known issues and the
//! technology stack, together with path-scope attribution.

use vstd::prelude::*;

use crate::strutil::{is_char_prefix, str_starts_with, u32_to_string, decimal_repr};

verus! {

#[derive(Debug, Clone, PartialEq, Eq, Structural)]
pub enum WorkspaceType {
    SinglePackage,
    Monorepo,
    Microservices,
    MultiPackage,
}

impl Default for WorkspaceType {
    fn default() -> (r: Self)
        ensures
            r == WorkspaceType::SinglePackage,
    {
        WorkspaceType::SinglePackage
    }
}

#[derive(Debug, Clone, PartialEq, Eq, Structural)]
pub enum ProjectType {
    Application,
    Library,
    Service,
    Cli,
}

impl Default for ProjectType {
    fn default() -> (r: Self)
        ensures
            r == ProjectType::Application,
    {
        ProjectType::Application
    }
}

#[derive(Debug, Clone, Copy, PartialEq, Eq, Structural, Hash)]
pub enum DependencyType {
    Runtime,
    Build,
    Test,
    Optional,
}

impl Default for DependencyType {
    fn default() -> (r: Self)
        ensures
            r == DependencyType::Runtime,
    {
        DependencyType::Runtime
    }
}

/// A typed dependency of one module on another, by module id.
#[derive(Debug, Clone, PartialEq, Eq, Hash)]
pub struct ModuleDependency {
    pub module_id: String,
    pub dependency_type: DependencyType,
}

impl ModuleDependency {
    pub fn new(module_id: String) -> (r: Self)
        ensures
            r.module_id == module_id,
            r.dependency_type == DependencyType::Runtime,
    {
        ModuleDependency { module_id, dependency_type: DependencyType::Runtime }
    }

    pub fn runtime(module_id: String) -> (r: Self)
        ensures
            r.module_id == module_id,
            r.dependency_type == DependencyType::Runtime,
    {
        ModuleDependency { module_id, dependency_type: DependencyType::Runtime }
    }

    pub fn build(module_id: String) -> (r: Self)
        ensures
            r.module_id == module_id,
            r.dependency_type == DependencyType::Build,
    {
        ModuleDependency { module_id, dependency_type: DependencyType::Build }
    }

    pub fn test(module_id: String) -> (r: Self)
        ensures
            r.module_id == module_id,
            r.dependency_type == DependencyType::Test,
    {
        ModuleDependency { module_id, dependency_type: DependencyType::Test }
    }

    pub fn optional(module_id: String) -> (r: Self)
        ensures
            r.module_id == module_id,
            r.dependency_type == DependencyType::Optional,
    {
        ModuleDependency { module_id, dependency_type: DependencyType::Optional }
    }
}

/// A location in a source file, used as evidence for a convention or issue.
#[derive(Debug, Clone, PartialEq)]
pub struct EvidenceLocation {
    pub file: String,
    pub start_line: u32,
    pub end_line: u32,
    pub start_column: Option<u32>,
    pub end_column: Option<u32>,
}

/// The rendered reference for an evidence location: `file:start` for a single
/// line, `file:start-end` for a range with a distinct positive end line.
pub open spec fn spec_reference(loc: EvidenceLocation) -> Seq<char> {
    if loc.end_line != loc.start_line && loc.end_line > 0 {
        loc.file@ + seq![':'] + decimal_repr(loc.start_line as int) + seq!['-'] + decimal_repr(
            loc.end_line as int,
        )
    } else {
        loc.file@ + seq![':'] + decimal_repr(loc.start_line as int)
    }
}

impl EvidenceLocation {
    pub fn new(file: String, line: u32) -> (r: Self)
        ensures
            r.file == file,
            r.start_line == line,
            r.end_line == line,
            r.start_column is None,
            r.end_column is None,
    {
        EvidenceLocation {
            file,
            start_line: line,
            end_line: line,
            start_column: None,
            end_column: None,
        }
    }

    pub fn new_range(file: String, start_line: u32, end_line: u32) -> (r: Self)
        ensures
            r.file == file,
            r.start_line == start_line,
            r.end_line == end_line,
            r.start_column is None,
            r.end_column is None,
    {
        EvidenceLocation { file, start_line, end_line, start_column: None, end_column: None }
    }

    pub fn to_reference(&self) -> (r: String)
        ensures
            r@ == spec_reference(*self),
    {
        proof {
            reveal_strlit(":");
            reveal_strlit("-");
            assert(":"@ =~= seq![':']);
            assert("-"@ =~= seq!['-']);
        }
        let mut out = self.file.clone();
        out.append(":");
        let start = u32_to_string(self.start_line);
        out.append(start.as_str());
        if self.end_line != self.start_line && self.end_line > 0 {
            out.append("-");
            let end = u32_to_string(self.end_line);
            out.append(end.as_str());
        }
        out
    }
}

impl Default for EvidenceLocation {
    fn default() -> (r: Self)
        ensures
            r.file@ == Seq::<char>::empty(),
            r.start_line == 0,
            r.end_line == 0,
            r.start_column is None,
            r.end_column is None,
    {
        EvidenceLocation {
            file: String::new(),
            start_line: 0,
            end_line: 0,
            start_column: None,
            end_column: None,
        }
    }
}

/// The tool that produced a document, with its version.
#[derive(Debug, Clone, PartialEq)]
pub struct GeneratorInfo {
    pub name: String,
    pub version: String,
}

impl GeneratorInfo {
    pub fn new(name: String, version: String) -> (r: Self)
        ensures
            r.name == name,
            r.version == version,
    {
        GeneratorInfo { name, version }
    }
}

#[derive(Debug, Clone, Copy, PartialEq, Eq, Structural, PartialOrd, Ord)]
pub enum IssueSeverity {
    Critical,
    High,
    Medium,
    Low,
}

impl IssueSeverity {
    /// The label used when an issue is rendered.
    pub fn label(&self) -> (r: &'static str)
        ensures
            r@ == spec_severity_label(*self),
    {
        proof {
            reveal_strlit("CRITICAL");
            reveal_strlit("HIGH");
            reveal_strlit("MEDIUM");
            reveal_strlit("LOW");
        }
        match self {
            IssueSeverity::Critical => "CRITICAL",
            IssueSeverity::High => "HIGH",
            IssueSeverity::Medium => "MEDIUM",
            IssueSeverity::Low => "LOW",
        }
    }
}

pub open spec fn spec_severity_label(s: IssueSeverity) -> Seq<char> {
    match s {
        IssueSeverity::Critical => "CRITICAL"@,
        IssueSeverity::High => "HIGH"@,
        IssueSeverity::Medium => "MEDIUM"@,
        IssueSeverity::Low => "LOW"@,
    }
}

#[derive(Debug, Clone, Copy, PartialEq, Eq, Structural)]
pub enum IssueCategory {
    Security,
    Performance,
    Correctness,
    Maintainability,
    Concurrency,
    Compatibility,
}

/// A coding convention observed in the project.
#[derive(Debug, Clone, PartialEq)]
pub struct Convention {
    pub name: String,
    pub pattern: String,
    pub rationale: Option<String>,
    pub evidence: Vec<EvidenceLocation>,
}

impl Convention {
    pub fn new(name: String, pattern: String) -> (r: Self)
        ensures
            r.name == name,
            r.pattern == pattern,
            r.rationale is None,
            r.evidence@ == Seq::<EvidenceLocation>::empty(),
    {
        Convention { name, pattern, rationale: None, evidence: Vec::new() }
    }

    pub fn with_rationale(self, rationale: String) -> (r: Self)
        ensures
            r == (Convention { rationale: Some(rationale), ..self }),
    {
        Convention { rationale: Some(rationale), ..self }
    }

    pub fn with_evidence(self, evidence: Vec<EvidenceLocation>) -> (r: Self)
        ensures
            r == (Convention { evidence, ..self }),
    {
        Convention { evidence, ..self }
    }

    /// The rendered form: `name: pattern`.
    pub fn display_string(&self) -> (r: String)
        ensures
            r@ == self.name@ + ": "@ + self.pattern@,
    {
        let mut out = self.name.clone();
        out.append(": ");
        out.append(self.pattern.as_str());
        out
    }
}

/// A known issue recorded against a module.
#[derive(Debug, Clone, PartialEq)]
pub struct KnownIssue {
    pub id: String,
    pub description: String,
    pub severity: IssueSeverity,
    pub category: IssueCategory,
    pub prevention: Option<String>,
    pub evidence: Vec<EvidenceLocation>,
}

impl KnownIssue {
    pub fn new(id: String, description: String, severity: IssueSeverity, category: IssueCategory) -> (r: Self)
        ensures
            r.id == id,
            r.description == description,
            r.severity == severity,
            r.category == category,
            r.prevention is None,
            r.evidence@ == Seq::<EvidenceLocation>::empty(),
    {
        KnownIssue { id, description, severity, category, prevention: None, evidence: Vec::new() }
    }

    pub fn with_prevention(self, prevention: String) -> (r: Self)
        ensures
            r == (KnownIssue { prevention: Some(prevention), ..self }),
    {
        KnownIssue { prevention: Some(prevention), ..self }
    }

    pub fn with_evidence(self, evidence: Vec<EvidenceLocation>) -> (r: Self)
        ensures
            r == (KnownIssue { evidence, ..self }),
    {
        KnownIssue { evidence, ..self }
    }

    /// The rendered form: `[SEVERITY] id: description`.
    pub fn display_string(&self) -> (r: String)
        ensures
            r@ == "["@ + spec_severity_label(self.severity) + "] "@ + self.id@ + ": "@
                + self.description@,
    {
        let mut out = String::new();
        out.append("[");
        out.append(self.severity.label());
        out.append("] ");
        out.append(self.id.as_str());
        out.append(": ");
        out.append(self.description.as_str());
        out
    }
}

/// The detected technology stack of a project.
#[derive(Debug, Clone, PartialEq)]
pub struct TechStack {
    pub primary_language: String,
    pub language_version: Option<String>,
    pub frameworks: Vec<FrameworkInfo>,
    pub build_tools: Vec<String>,
    pub test_frameworks: Vec<String>,
    pub key_libraries: Vec<LibraryInfo>,
}

impl TechStack {
    pub fn new(primary_language: String) -> (r: Self)
        ensures
            r.primary_language == primary_language,
            r.language_version is None,
            r.frameworks@ == Seq::<FrameworkInfo>::empty(),
            r.build_tools@ == Seq::<String>::empty(),
            r.test_frameworks@ == Seq::<String>::empty(),
            r.key_libraries@ == Seq::<LibraryInfo>::empty(),
    {
        TechStack {
            primary_language,
            language_version: None,
            frameworks: Vec::new(),
            build_tools: Vec::new(),
            test_frameworks: Vec::new(),
            key_libraries: Vec::new(),
        }
    }

    pub fn with_version(self, version: String) -> (r: Self)
        ensures
            r == (TechStack { language_version: Some(version), ..self }),
    {
        TechStack { language_version: Some(version), ..self }
    }

    pub fn with_framework(self, framework: FrameworkInfo) -> (r: Self)
        ensures
            r.frameworks@ == self.frameworks@.push(framework),
            r.primary_language == self.primary_language,
            r.language_version == self.language_version,
            r.build_tools == self.build_tools,
            r.test_frameworks == self.test_frameworks,
            r.key_libraries == self.key_libraries,
    {
        let mut s = self;
        s.frameworks.push(framework);
        s
    }

    pub fn with_build_tool(self, tool: String) -> (r: Self)
        ensures
            r.build_tools@ == self.build_tools@.push(tool),
            r.primary_language == self.primary_language,
            r.language_version == self.language_version,
            r.frameworks == self.frameworks,
            r.test_frameworks == self.test_frameworks,
            r.key_libraries == self.key_libraries,
    {
        let mut s = self;
        s.build_tools.push(tool);
        s
    }

    pub fn with_test_framework(self, framework: String) -> (r: Self)
        ensures
            r.test_frameworks@ == self.test_frameworks@.push(framework),
            r.primary_language == self.primary_language,
            r.language_version == self.language_version,
            r.frameworks == self.frameworks,
            r.build_tools == self.build_tools,
            r.key_libraries == self.key_libraries,
    {
        let mut s = self;
        s.test_frameworks.push(framework);
        s
    }

    pub fn with_library(self, library: LibraryInfo) -> (r: Self)
        ensures
            r.key_libraries@ == self.key_libraries@.push(library),
            r.primary_language == self.primary_language,
            r.language_version == self.language_version,
            r.frameworks == self.frameworks,
            r.build_tools == self.build_tools,
            r.test_frameworks == self.test_frameworks,
    {
        let mut s = self;
        s.key_libraries.push(library);
        s
    }
}

impl Default for TechStack {
    fn default() -> (r: Self)
        ensures
            r.primary_language@ == Seq::<char>::empty(),
            r.language_version is None,
            r.frameworks@ == Seq::<FrameworkInfo>::empty(),
            r.build_tools@ == Seq::<String>::empty(),
            r.test_frameworks@ == Seq::<String>::empty(),
            r.key_libraries@ == Seq::<LibraryInfo>::empty(),
    {
        TechStack {
            primary_language: String::new(),
            language_version: None,
            frameworks: Vec::new(),
            build_tools: Vec::new(),
            test_frameworks: Vec::new(),
            key_libraries: Vec::new(),
        }
    }
}

/// A framework in use, with where it appears.
#[derive(Debug, Clone, PartialEq)]
pub struct FrameworkInfo {
    pub name: String,
    pub version: Option<String>,
    pub purpose: String,
    pub paths: Vec<String>,
}

impl FrameworkInfo {
    pub fn new(name: String, purpose: String) -> (r: Self)
        ensures
            r.name == name,
            r.purpose == purpose,
            r.version is None,
            r.paths@ == Seq::<String>::empty(),
    {
        FrameworkInfo { name, version: None, purpose, paths: Vec::new() }
    }

    pub fn with_version(self, version: String) -> (r: Self)
        ensures
            r == (FrameworkInfo { version: Some(version), ..self }),
    {
        FrameworkInfo { version: Some(version), ..self }
    }

    pub fn with_paths(self, paths: Vec<String>) -> (r: Self)
        ensures
            r == (FrameworkInfo { paths, ..self }),
    {
        FrameworkInfo { paths, ..self }
    }
}

/// A key library in use.
#[derive(Debug, Clone, PartialEq)]
pub struct LibraryInfo {
    pub name: String,
    pub purpose: String,
}

impl LibraryInfo {
    pub fn new(name: String, purpose: String) -> (r: Self)
        ensures
            r.name == name,
            r.purpose == purpose,
    {
        LibraryInfo { name, purpose }
    }
}

/// A language detected in the project. `percentage` is a fixed-point share
/// of the codebase in hundredths of a percent (10000 = 100%).
#[derive(Debug, Clone, PartialEq)]
pub struct DetectedLanguage {
    pub name: String,
    pub percentage: u32,
    pub frameworks: Vec<String>,
    pub build_tools: Vec<String>,
    pub marker_files: Vec<String>,
}

impl DetectedLanguage {
    pub fn new(name: String) -> (r: Self)
        ensures
            r.name == name,
            r.percentage == 0u32,
            r.frameworks@ == Seq::<String>::empty(),
            r.build_tools@ == Seq::<String>::empty(),
            r.marker_files@ == Seq::<String>::empty(),
    {
        DetectedLanguage {
            name,
            percentage: 0,
            frameworks: Vec::new(),
            build_tools: Vec::new(),
            marker_files: Vec::new(),
        }
    }

    pub fn with_percentage(self, percentage: u32) -> (r: Self)
        ensures
            r == (DetectedLanguage { percentage, ..self }),
    {
        DetectedLanguage { percentage, ..self }
    }

    pub fn with_frameworks(self, frameworks: Vec<String>) -> (r: Self)
        ensures
            r == (DetectedLanguage { frameworks, ..self }),
    {
        DetectedLanguage { frameworks, ..self }
    }

    pub fn with_build_tools(self, build_tools: Vec<String>) -> (r: Self)
        ensures
            r == (DetectedLanguage { build_tools, ..self }),
    {
        DetectedLanguage { build_tools, ..self }
    }

    pub fn with_marker_files(self, marker_files: Vec<String>) -> (r: Self)
        ensures
            r == (DetectedLanguage { marker_files, ..self }),
    {
        DetectedLanguage { marker_files, ..self }
    }
}

/// `prefix` with any trailing separators removed.
pub open spec fn trim_trailing_slashes(p: Seq<char>) -> Seq<char>
    decreases p.len(),
{
    if p.len() > 0 && p[p.len() - 1] == '/' {
        trim_trailing_slashes(p.drop_last())
    } else {
        p
    }
}

/// A path prefix owns a path when it is a leading run of whole path segments:
/// the prefix (ignoring trailing separators) is a character prefix of the
/// path and ends at a segment boundary. An empty prefix owns every path.
pub open spec fn owns_path(prefix: Seq<char>, path: Seq<char>) -> bool {
    let t = trim_trailing_slashes(prefix);
    is_char_prefix(t, path) && (t.len() == 0 || path.len() == t.len() || path[t.len() as int]
        == '/')
}

/// Whether `path` falls under one of the allowed path prefixes, segment-wise.
pub fn is_path_in_scope(path: &str, allowed_paths: &[String]) -> (r: bool)
    ensures
        r == exists|i: int|
            0 <= i < allowed_paths@.len() && owns_path(allowed_paths@[i]@, path@),
{
    let n = allowed_paths.len();
    let mut i: usize = 0;
    while i < n
        invariant
            i <= n,
            n == allowed_paths@.len(),
            forall|j: int| 0 <= j < i ==> !owns_path(allowed_paths@[j]@, path@),
        decreases n - i,
    {
        if path_has_prefix(path, allowed_paths[i].as_str()) {
            return true;
        }
        i = i + 1;
    }
    false
}

/// Segment-boundary prefix test used for module path attribution.
pub fn path_has_prefix(path: &str, prefix: &str) -> (r: bool)
    ensures
        r == owns_path(prefix@, path@),
{
    let plen = prefix.unicode_len();
    let mut end: usize = plen;
    proof {
        assert(prefix@.subrange(0, plen as int) =~= prefix@);
    }
    while end > 0 && prefix.get_char(end - 1) == '/'
        invariant
            end <= plen,
            plen == prefix@.len(),
            trim_trailing_slashes(prefix@) == trim_trailing_slashes(prefix@.subrange(0, end as int)),
        decreases end,
    {
        proof {
            assert(prefix@.subrange(0, end as int).drop_last() =~= prefix@.subrange(
                0,
                end - 1,
            ));
        }
        end = end - 1;
    }
    proof {
        assert(trim_trailing_slashes(prefix@.subrange(0, end as int)) == prefix@.subrange(
            0,
            end as int,
        ));
    }
    let trimmed = prefix.substring_char(0, end);
    if !str_starts_with(path, trimmed) {
        return false;
    }
    if end == 0 {
        return true;
    }
    let path_len = path.unicode_len();
    if path_len == end {
        return true;
    }
    path.get_char(end) == '/'
}

} // verus!
