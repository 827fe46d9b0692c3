//! Rules: units of injectable guidance with matching metadata and a
//! category-driven priority scheme.

use vstd::prelude::*;

verus! {

/// Rule category for hierarchical organization. Each category carries a
/// fixed default priority and a canonical output subdirectory.
#[derive(Debug, Clone, Copy, PartialEq, Eq, Structural, Hash)]
pub enum RuleCategory {
    Project,
    Tech,
    Framework,
    Module,
    Group,
    Domain,
}

impl Default for RuleCategory {
    fn default() -> (r: Self)
        ensures
            r == RuleCategory::Project,
    {
        RuleCategory::Project
    }
}

/// The fixed default priority of each category.
pub open spec fn spec_default_priority(c: RuleCategory) -> u8 {
    match c {
        RuleCategory::Project => 100u8,
        RuleCategory::Tech => 90u8,
        RuleCategory::Framework => 85u8,
        RuleCategory::Module => 80u8,
        RuleCategory::Group => 70u8,
        RuleCategory::Domain => 60u8,
    }
}

/// The fixed rank of each category for tie-breaking: a lower rank wins.
/// The order is project, tech, framework, module, group, domain.
pub open spec fn spec_category_rank(c: RuleCategory) -> u8 {
    match c {
        RuleCategory::Project => 0u8,
        RuleCategory::Tech => 1u8,
        RuleCategory::Framework => 2u8,
        RuleCategory::Module => 3u8,
        RuleCategory::Group => 4u8,
        RuleCategory::Domain => 5u8,
    }
}

pub open spec fn spec_subdirectory(c: RuleCategory) -> Seq<char> {
    match c {
        RuleCategory::Project => ""@,
        RuleCategory::Tech => "tech"@,
        RuleCategory::Framework => "frameworks"@,
        RuleCategory::Module => "modules"@,
        RuleCategory::Group => "groups"@,
        RuleCategory::Domain => "domains"@,
    }
}

pub open spec fn spec_category_label(c: RuleCategory) -> Seq<char> {
    match c {
        RuleCategory::Project => "project"@,
        RuleCategory::Tech => "tech"@,
        RuleCategory::Framework => "framework"@,
        RuleCategory::Module => "module"@,
        RuleCategory::Group => "group"@,
        RuleCategory::Domain => "domain"@,
    }
}

impl RuleCategory {
    pub fn default_priority(self) -> (r: u8)
        ensures
            r == spec_default_priority(self),
    {
        match self {
            RuleCategory::Project => 100,
            RuleCategory::Tech => 90,
            RuleCategory::Framework => 85,
            RuleCategory::Module => 80,
            RuleCategory::Group => 70,
            RuleCategory::Domain => 60,
        }
    }

    /// Rank used to break priority ties; a lower rank is ordered first.
    pub fn rank(self) -> (r: u8)
        ensures
            r == spec_category_rank(self),
    {
        match self {
            RuleCategory::Project => 0,
            RuleCategory::Tech => 1,
            RuleCategory::Framework => 2,
            RuleCategory::Module => 3,
            RuleCategory::Group => 4,
            RuleCategory::Domain => 5,
        }
    }

    pub fn subdirectory(self) -> (r: &'static str)
        ensures
            r@ == spec_subdirectory(self),
    {
        match self {
            RuleCategory::Project => "",
            RuleCategory::Tech => "tech",
            RuleCategory::Framework => "frameworks",
            RuleCategory::Module => "modules",
            RuleCategory::Group => "groups",
            RuleCategory::Domain => "domains",
        }
    }

    /// The lower-case name of the category.
    pub fn label(self) -> (r: &'static str)
        ensures
            r@ == spec_category_label(self),
    {
        match self {
            RuleCategory::Project => "project",
            RuleCategory::Tech => "tech",
            RuleCategory::Framework => "framework",
            RuleCategory::Module => "module",
            RuleCategory::Group => "group",
            RuleCategory::Domain => "domain",
        }
    }
}

/// The default priority of a rule constructed without a category override.
pub fn default_priority() -> (r: u8)
    ensures
        r == 50u8,
{
    50
}

/// A unit of injectable guidance. A rule matches a context through its
/// path glob patterns, keyword triggers, or unconditionally when
/// `always_inject` is set.
#[derive(Debug, Clone, PartialEq, Eq)]
pub struct Rule {
    pub name: String,
    pub paths: Vec<String>,
    pub triggers: Vec<String>,
    pub priority: u8,
    pub category: RuleCategory,
    pub always_inject: bool,
    pub content: Vec<String>,
}

/// The canonical on-disk location of a rule: `<subdirectory>/<name>.md`,
/// with no subdirectory for the project category.
pub open spec fn spec_output_path(r: Rule) -> Seq<char> {
    if r.category == RuleCategory::Project {
        r.name@ + ".md"@
    } else {
        spec_subdirectory(r.category) + "/"@ + r.name@ + ".md"@
    }
}

impl Rule {
    pub fn new(name: String, content: Vec<String>) -> (r: Self)
        ensures
            r.name == name,
            r.paths@ == Seq::<String>::empty(),
            r.triggers@ == Seq::<String>::empty(),
            r.priority == 50u8,
            r.category == RuleCategory::Project,
            r.always_inject == false,
            r.content == content,
    {
        Rule {
            name,
            paths: Vec::new(),
            triggers: Vec::new(),
            priority: default_priority(),
            category: RuleCategory::Project,
            always_inject: false,
            content,
        }
    }

    /// A project-wide rule: always injected, at the project default priority.
    pub fn project(name: String, content: Vec<String>) -> (r: Self)
        ensures
            r.name == name,
            r.paths@.len() == 1 && r.paths@[0]@ == "**/*"@,
            r.triggers@ == Seq::<String>::empty(),
            r.priority == spec_default_priority(RuleCategory::Project),
            r.category == RuleCategory::Project,
            r.always_inject == true,
            r.content == content,
    {
        let mut paths: Vec<String> = Vec::new();
        paths.push("**/*".to_owned());
        Rule {
            name,
            paths,
            triggers: Vec::new(),
            priority: RuleCategory::Project.default_priority(),
            category: RuleCategory::Project,
            always_inject: true,
            content,
        }
    }

    pub fn tech(name: String, paths: Vec<String>, content: Vec<String>) -> (r: Self)
        ensures
            r.name == name,
            r.paths == paths,
            r.triggers@ == Seq::<String>::empty(),
            r.priority == spec_default_priority(RuleCategory::Tech),
            r.category == RuleCategory::Tech,
            r.always_inject == false,
            r.content == content,
    {
        Rule {
            name,
            paths,
            triggers: Vec::new(),
            priority: RuleCategory::Tech.default_priority(),
            category: RuleCategory::Tech,
            always_inject: false,
            content,
        }
    }

    pub fn framework(name: String, paths: Vec<String>, triggers: Vec<String>, content: Vec<String>) -> (r: Self)
        ensures
            r.name == name,
            r.paths == paths,
            r.triggers == triggers,
            r.priority == spec_default_priority(RuleCategory::Framework),
            r.category == RuleCategory::Framework,
            r.always_inject == false,
            r.content == content,
    {
        Rule {
            name,
            paths,
            triggers,
            priority: RuleCategory::Framework.default_priority(),
            category: RuleCategory::Framework,
            always_inject: false,
            content,
        }
    }

    pub fn module(name: String, paths: Vec<String>, content: Vec<String>) -> (r: Self)
        ensures
            r.name == name,
            r.paths == paths,
            r.triggers@ == Seq::<String>::empty(),
            r.priority == spec_default_priority(RuleCategory::Module),
            r.category == RuleCategory::Module,
            r.always_inject == false,
            r.content == content,
    {
        Rule {
            name,
            paths,
            triggers: Vec::new(),
            priority: RuleCategory::Module.default_priority(),
            category: RuleCategory::Module,
            always_inject: false,
            content,
        }
    }

    pub fn group(name: String, paths: Vec<String>, content: Vec<String>) -> (r: Self)
        ensures
            r.name == name,
            r.paths == paths,
            r.triggers@ == Seq::<String>::empty(),
            r.priority == spec_default_priority(RuleCategory::Group),
            r.category == RuleCategory::Group,
            r.always_inject == false,
            r.content == content,
    {
        Rule {
            name,
            paths,
            triggers: Vec::new(),
            priority: RuleCategory::Group.default_priority(),
            category: RuleCategory::Group,
            always_inject: false,
            content,
        }
    }

    pub fn domain(name: String, triggers: Vec<String>, content: Vec<String>) -> (r: Self)
        ensures
            r.name == name,
            r.paths@ == Seq::<String>::empty(),
            r.triggers == triggers,
            r.priority == spec_default_priority(RuleCategory::Domain),
            r.category == RuleCategory::Domain,
            r.always_inject == false,
            r.content == content,
    {
        Rule {
            name,
            paths: Vec::new(),
            triggers,
            priority: RuleCategory::Domain.default_priority(),
            category: RuleCategory::Domain,
            always_inject: false,
            content,
        }
    }

    pub fn with_paths(self, paths: Vec<String>) -> (r: Self)
        ensures
            r == (Rule { paths, ..self }),
    {
        Rule { paths, ..self }
    }

    pub fn with_triggers(self, triggers: Vec<String>) -> (r: Self)
        ensures
            r == (Rule { triggers, ..self }),
    {
        Rule { triggers, ..self }
    }

    /// Overrides the priority explicitly.
    pub fn with_priority(self, priority: u8) -> (r: Self)
        ensures
            r == (Rule { priority, ..self }),
    {
        Rule { priority, ..self }
    }

    /// Assigns a category. Assigning a category resets the priority to that
    /// category's fixed default; an earlier explicit override does not
    /// survive a category change.
    pub fn with_category(self, category: RuleCategory) -> (r: Self)
        ensures
            r == (Rule { category, priority: spec_default_priority(category), ..self }),
    {
        let priority = category.default_priority();
        Rule { category, priority, ..self }
    }

    pub fn output_path(&self) -> (r: String)
        ensures
            r@ == spec_output_path(*self),
    {
        proof {
            reveal_strlit("");
        }
        let subdir = self.category.subdirectory();
        if subdir.is_empty() {
            proof {
                assert(self.category == RuleCategory::Project) by {
                    reveal_strlit("tech");
                    reveal_strlit("frameworks");
                    reveal_strlit("modules");
                    reveal_strlit("groups");
                    reveal_strlit("domains");
                }
            }
            let mut out = self.name.clone();
            out.append(".md");
            out
        } else {
            proof {
                assert(self.category != RuleCategory::Project) by {
                    reveal_strlit("");
                }
            }
            let mut out = subdir.to_owned();
            out.append("/");
            out.append(self.name.as_str());
            out.append(".md");
            out
        }
    }
}

} // verus!
