//! The project manifest: the entity graph document plus resolved resource
//! lists, per-entity context overlays and tracked-file fingerprints.

use vstd::prelude::*;

use crate::clock::now_epoch_seconds;
use crate::module_map::ModuleMap;
use crate::strutil::str_eq;

verus! {

/// Contextual resources attached to one module.
#[derive(Debug, Clone, PartialEq, Eq)]
pub struct ModuleContext {
    pub rules: Vec<String>,
    pub skills: Vec<String>,
    pub conventions: Vec<String>,
    pub issues: Vec<String>,
    pub group_id: Option<String>,
    pub domain_id: Option<String>,
}

impl ModuleContext {
    pub fn new() -> (r: Self)
        ensures
            r.rules@ == Seq::<String>::empty(),
            r.skills@ == Seq::<String>::empty(),
            r.conventions@ == Seq::<String>::empty(),
            r.issues@ == Seq::<String>::empty(),
            r.group_id is None,
            r.domain_id is None,
    {
        ModuleContext {
            rules: Vec::new(),
            skills: Vec::new(),
            conventions: Vec::new(),
            issues: Vec::new(),
            group_id: None,
            domain_id: None,
        }
    }

    pub fn with_rules(self, rules: Vec<String>) -> (r: Self)
        ensures
            r == (ModuleContext { rules, ..self }),
    {
        ModuleContext { rules, ..self }
    }

    pub fn with_skills(self, skills: Vec<String>) -> (r: Self)
        ensures
            r == (ModuleContext { skills, ..self }),
    {
        ModuleContext { skills, ..self }
    }

    pub fn with_conventions(self, conventions: Vec<String>) -> (r: Self)
        ensures
            r == (ModuleContext { conventions, ..self }),
    {
        ModuleContext { conventions, ..self }
    }

    pub fn with_issues(self, issues: Vec<String>) -> (r: Self)
        ensures
            r == (ModuleContext { issues, ..self }),
    {
        ModuleContext { issues, ..self }
    }

    pub fn with_group(self, group_id: String) -> (r: Self)
        ensures
            r == (ModuleContext { group_id: Some(group_id), ..self }),
    {
        ModuleContext { group_id: Some(group_id), ..self }
    }

    pub fn with_domain(self, domain_id: String) -> (r: Self)
        ensures
            r == (ModuleContext { domain_id: Some(domain_id), ..self }),
    {
        ModuleContext { domain_id: Some(domain_id), ..self }
    }

    /// Whether the context carries nothing at all.
    pub fn is_empty(&self) -> (r: bool)
        ensures
            r == (self.rules@.len() == 0 && self.skills@.len() == 0 && self.conventions@.len()
                == 0 && self.issues@.len() == 0 && self.group_id is None && self.domain_id
                is None),
    {
        self.rules.len() == 0 && self.skills.len() == 0 && self.conventions.len() == 0
            && self.issues.len() == 0 && self.group_id.is_none() && self.domain_id.is_none()
    }
}

impl Default for ModuleContext {
    fn default() -> (r: Self)
        ensures
            r.rules@ == Seq::<String>::empty(),
            r.skills@ == Seq::<String>::empty(),
            r.conventions@ == Seq::<String>::empty(),
            r.issues@ == Seq::<String>::empty(),
            r.group_id is None,
            r.domain_id is None,
    {
        ModuleContext::new()
    }
}

/// Contextual resources attached to one module group.
#[derive(Debug, Clone, PartialEq, Eq)]
pub struct GroupContext {
    pub rules: Vec<String>,
    pub constraints: Vec<String>,
    pub member_modules: Vec<String>,
    pub domain_id: Option<String>,
}

impl GroupContext {
    pub fn new() -> (r: Self)
        ensures
            r.rules@ == Seq::<String>::empty(),
            r.constraints@ == Seq::<String>::empty(),
            r.member_modules@ == Seq::<String>::empty(),
            r.domain_id is None,
    {
        GroupContext {
            rules: Vec::new(),
            constraints: Vec::new(),
            member_modules: Vec::new(),
            domain_id: None,
        }
    }

    pub fn with_rules(self, rules: Vec<String>) -> (r: Self)
        ensures
            r == (GroupContext { rules, ..self }),
    {
        GroupContext { rules, ..self }
    }

    pub fn with_constraints(self, constraints: Vec<String>) -> (r: Self)
        ensures
            r == (GroupContext { constraints, ..self }),
    {
        GroupContext { constraints, ..self }
    }

    pub fn with_members(self, member_modules: Vec<String>) -> (r: Self)
        ensures
            r == (GroupContext { member_modules, ..self }),
    {
        GroupContext { member_modules, ..self }
    }

    pub fn with_domain(self, domain_id: String) -> (r: Self)
        ensures
            r == (GroupContext { domain_id: Some(domain_id), ..self }),
    {
        GroupContext { domain_id: Some(domain_id), ..self }
    }

    /// Whether the context carries nothing at all.
    pub fn is_empty(&self) -> (r: bool)
        ensures
            r == (self.rules@.len() == 0 && self.constraints@.len() == 0
                && self.member_modules@.len() == 0 && self.domain_id is None),
    {
        self.rules.len() == 0 && self.constraints.len() == 0 && self.member_modules.len() == 0
            && self.domain_id.is_none()
    }
}

impl Default for GroupContext {
    fn default() -> (r: Self)
        ensures
            r.rules@ == Seq::<String>::empty(),
            r.constraints@ == Seq::<String>::empty(),
            r.member_modules@ == Seq::<String>::empty(),
            r.domain_id is None,
    {
        GroupContext::new()
    }
}

/// Contextual resources attached to one domain.
#[derive(Debug, Clone, PartialEq, Eq)]
pub struct DomainContext {
    pub rules: Vec<String>,
    pub constraints: Vec<String>,
    pub member_groups: Vec<String>,
    pub interfaces: Vec<String>,
}

impl DomainContext {
    pub fn new() -> (r: Self)
        ensures
            r.rules@ == Seq::<String>::empty(),
            r.constraints@ == Seq::<String>::empty(),
            r.member_groups@ == Seq::<String>::empty(),
            r.interfaces@ == Seq::<String>::empty(),
    {
        DomainContext {
            rules: Vec::new(),
            constraints: Vec::new(),
            member_groups: Vec::new(),
            interfaces: Vec::new(),
        }
    }

    pub fn with_rules(self, rules: Vec<String>) -> (r: Self)
        ensures
            r == (DomainContext { rules, ..self }),
    {
        DomainContext { rules, ..self }
    }

    pub fn with_constraints(self, constraints: Vec<String>) -> (r: Self)
        ensures
            r == (DomainContext { constraints, ..self }),
    {
        DomainContext { constraints, ..self }
    }

    pub fn with_groups(self, member_groups: Vec<String>) -> (r: Self)
        ensures
            r == (DomainContext { member_groups, ..self }),
    {
        DomainContext { member_groups, ..self }
    }

    pub fn with_interfaces(self, interfaces: Vec<String>) -> (r: Self)
        ensures
            r == (DomainContext { interfaces, ..self }),
    {
        DomainContext { interfaces, ..self }
    }

    /// Whether the context carries nothing at all.
    pub fn is_empty(&self) -> (r: bool)
        ensures
            r == (self.rules@.len() == 0 && self.constraints@.len() == 0
                && self.member_groups@.len() == 0 && self.interfaces@.len() == 0),
    {
        self.rules.len() == 0 && self.constraints.len() == 0 && self.member_groups.len() == 0
            && self.interfaces.len() == 0
    }
}

impl Default for DomainContext {
    fn default() -> (r: Self)
        ensures
            r.rules@ == Seq::<String>::empty(),
            r.constraints@ == Seq::<String>::empty(),
            r.member_groups@ == Seq::<String>::empty(),
            r.interfaces@ == Seq::<String>::empty(),
    {
        DomainContext::new()
    }
}

/// A tracked file fingerprint: path, content hash, and modification time
/// in Unix epoch seconds.
#[derive(Debug, Clone, PartialEq, Eq)]
pub struct TrackedFile {
    pub path: String,
    pub hash: String,
    pub modified: i64,
}

impl TrackedFile {
    pub fn new(path: String, hash: String, modified: i64) -> (r: Self)
        ensures
            r.path == path,
            r.hash == hash,
            r.modified == modified,
    {
        TrackedFile { path, hash, modified }
    }
}

/// The first context keyed by `id` in an association list.
pub open spec fn spec_lookup_module_context(
    entries: Seq<(String, ModuleContext)>,
    id: Seq<char>,
) -> Option<ModuleContext>
    decreases entries.len(),
{
    if entries.len() == 0 {
        None
    } else if entries[0].0@ == id {
        Some(entries[0].1)
    } else {
        spec_lookup_module_context(entries.drop_first(), id)
    }
}

pub open spec fn spec_lookup_group_context(
    entries: Seq<(String, GroupContext)>,
    id: Seq<char>,
) -> Option<GroupContext>
    decreases entries.len(),
{
    if entries.len() == 0 {
        None
    } else if entries[0].0@ == id {
        Some(entries[0].1)
    } else {
        spec_lookup_group_context(entries.drop_first(), id)
    }
}

pub open spec fn spec_lookup_domain_context(
    entries: Seq<(String, DomainContext)>,
    id: Seq<char>,
) -> Option<DomainContext>
    decreases entries.len(),
{
    if entries.len() == 0 {
        None
    } else if entries[0].0@ == id {
        Some(entries[0].1)
    } else {
        spec_lookup_domain_context(entries.drop_first(), id)
    }
}

/// The persisted manifest document: version, timestamps, the embedded
/// entity graph, flat resource path lists, per-entity context overlays
/// keyed by id, and tracked-file fingerprints.
#[derive(Debug, Clone, PartialEq)]
pub struct ProjectManifest {
    pub version: String,
    /// When the manifest was created, in Unix epoch seconds.
    pub created_at: i64,
    pub generator: String,
    pub project: ModuleMap,
    pub rules: Vec<String>,
    pub skills: Vec<String>,
    pub agents: Vec<String>,
    pub modules: Vec<(String, ModuleContext)>,
    pub groups: Vec<(String, GroupContext)>,
    pub domains: Vec<(String, DomainContext)>,
    pub tracked_files: Vec<TrackedFile>,
}

impl ProjectManifest {
    /// A fresh manifest around an entity graph. The creation timestamp is
    /// read from the clock.
    pub fn new(project: ModuleMap) -> (r: Self)
        ensures
            r.version@ == "1.0.0"@,
            r.generator@ == "archgen"@,
            r.project == project,
            r.rules@ == Seq::<String>::empty(),
            r.skills@ == Seq::<String>::empty(),
            r.agents@ == Seq::<String>::empty(),
            r.modules@ == Seq::<(String, ModuleContext)>::empty(),
            r.groups@ == Seq::<(String, GroupContext)>::empty(),
            r.domains@ == Seq::<(String, DomainContext)>::empty(),
            r.tracked_files@ == Seq::<TrackedFile>::empty(),
    {
        ProjectManifest {
            version: "1.0.0".to_owned(),
            created_at: now_epoch_seconds(),
            generator: "archgen".to_owned(),
            project,
            rules: Vec::new(),
            skills: Vec::new(),
            agents: Vec::new(),
            modules: Vec::new(),
            groups: Vec::new(),
            domains: Vec::new(),
            tracked_files: Vec::new(),
        }
    }

    pub fn with_generator(self, generator: String) -> (r: Self)
        ensures
            r == (ProjectManifest { generator, ..self }),
    {
        ProjectManifest { generator, ..self }
    }

    pub fn with_rules(self, rules: Vec<String>) -> (r: Self)
        ensures
            r == (ProjectManifest { rules, ..self }),
    {
        ProjectManifest { rules, ..self }
    }

    pub fn with_skills(self, skills: Vec<String>) -> (r: Self)
        ensures
            r == (ProjectManifest { skills, ..self }),
    {
        ProjectManifest { skills, ..self }
    }

    pub fn with_agents(self, agents: Vec<String>) -> (r: Self)
        ensures
            r == (ProjectManifest { agents, ..self }),
    {
        ProjectManifest { agents, ..self }
    }

    pub fn with_modules(self, modules: Vec<(String, ModuleContext)>) -> (r: Self)
        ensures
            r == (ProjectManifest { modules, ..self }),
    {
        ProjectManifest { modules, ..self }
    }

    pub fn with_groups(self, groups: Vec<(String, GroupContext)>) -> (r: Self)
        ensures
            r == (ProjectManifest { groups, ..self }),
    {
        ProjectManifest { groups, ..self }
    }

    pub fn with_domains(self, domains: Vec<(String, DomainContext)>) -> (r: Self)
        ensures
            r == (ProjectManifest { domains, ..self }),
    {
        ProjectManifest { domains, ..self }
    }

    pub fn with_tracked_files(self, tracked_files: Vec<TrackedFile>) -> (r: Self)
        ensures
            r == (ProjectManifest { tracked_files, ..self }),
    {
        ProjectManifest { tracked_files, ..self }
    }

    /// The context overlay of a module, by id; first match wins.
    pub fn get_module_context(&self, module_id: &str) -> (r: Option<&ModuleContext>)
        ensures
            r matches Some(c) ==> spec_lookup_module_context(self.modules@, module_id@) == Some(
                *c,
            ),
            r is None ==> spec_lookup_module_context(self.modules@, module_id@) is None,
    {
        let n = self.modules.len();
        let mut i: usize = 0;
        proof {
            assert(self.modules@.skip(0) =~= self.modules@);
        }
        while i < n
            invariant
                i <= n,
                n == self.modules@.len(),
                spec_lookup_module_context(self.modules@, module_id@)
                    == spec_lookup_module_context(self.modules@.skip(i as int), module_id@),
            decreases n - i,
        {
            proof {
                assert(self.modules@.skip(i as int)[0] == self.modules@[i as int]);
                assert(self.modules@.skip(i as int).drop_first() =~= self.modules@.skip(i + 1));
            }
            if str_eq(self.modules[i].0.as_str(), module_id) {
                return Some(&self.modules[i].1);
            }
            i = i + 1;
        }
        None
    }

    /// The context overlay of a group, by id; first match wins.
    pub fn get_group_context(&self, group_id: &str) -> (r: Option<&GroupContext>)
        ensures
            r matches Some(c) ==> spec_lookup_group_context(self.groups@, group_id@) == Some(*c),
            r is None ==> spec_lookup_group_context(self.groups@, group_id@) is None,
    {
        let n = self.groups.len();
        let mut i: usize = 0;
        proof {
            assert(self.groups@.skip(0) =~= self.groups@);
        }
        while i < n
            invariant
                i <= n,
                n == self.groups@.len(),
                spec_lookup_group_context(self.groups@, group_id@) == spec_lookup_group_context(
                    self.groups@.skip(i as int),
                    group_id@,
                ),
            decreases n - i,
        {
            proof {
                assert(self.groups@.skip(i as int)[0] == self.groups@[i as int]);
                assert(self.groups@.skip(i as int).drop_first() =~= self.groups@.skip(i + 1));
            }
            if str_eq(self.groups[i].0.as_str(), group_id) {
                return Some(&self.groups[i].1);
            }
            i = i + 1;
        }
        None
    }

    /// The context overlay of a domain, by id; first match wins.
    pub fn get_domain_context(&self, domain_id: &str) -> (r: Option<&DomainContext>)
        ensures
            r matches Some(c) ==> spec_lookup_domain_context(self.domains@, domain_id@) == Some(
                *c,
            ),
            r is None ==> spec_lookup_domain_context(self.domains@, domain_id@) is None,
    {
        let n = self.domains.len();
        let mut i: usize = 0;
        proof {
            assert(self.domains@.skip(0) =~= self.domains@);
        }
        while i < n
            invariant
                i <= n,
                n == self.domains@.len(),
                spec_lookup_domain_context(self.domains@, domain_id@)
                    == spec_lookup_domain_context(self.domains@.skip(i as int), domain_id@),
            decreases n - i,
        {
            proof {
                assert(self.domains@.skip(i as int)[0] == self.domains@[i as int]);
                assert(self.domains@.skip(i as int).drop_first() =~= self.domains@.skip(i + 1));
            }
            if str_eq(self.domains[i].0.as_str(), domain_id) {
                return Some(&self.domains[i].1);
            }
            i = i + 1;
        }
        None
    }
}

} // verus!
