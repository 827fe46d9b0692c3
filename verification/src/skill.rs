//! Skills: named units of delegated capability with tool and model
//! constraints and a Markdown body.

use vstd::prelude::*;

use crate::strutil::{lower_of, lowercase, str_eq};

verus! {

/// Context mode for skill execution.
#[derive(Debug, Clone, Copy, PartialEq, Eq, Structural)]
pub enum ContextMode {
    Fork,
}

impl ContextMode {
    /// The canonical name of the mode.
    pub fn as_str(&self) -> (r: &'static str)
        ensures
            r@ == "fork"@,
    {
        "fork"
    }

    /// Parses a mode name, case-insensitively; anything but `fork` is
    /// rejected with a message naming the unknown mode.
    pub fn parse(s: &str) -> (r: Result<ContextMode, String>)
        ensures
            lower_of(s@) == "fork"@ ==> r == Ok::<ContextMode, String>(ContextMode::Fork),
            lower_of(s@) != "fork"@ ==> r is Err,
    {
        let lower = lowercase(s);
        if str_eq(lower.as_str(), "fork") {
            Ok(ContextMode::Fork)
        } else {
            let mut msg = "unknown context mode: ".to_owned();
            msg.append(s);
            Err(msg)
        }
    }
}

impl core::str::FromStr for ContextMode {
    type Err = String;

    fn from_str(s: &str) -> Result<Self, String> {
        ContextMode::parse(s)
    }
}

/// An additional file bundled with a skill.
#[derive(Debug, Clone, PartialEq, Eq)]
pub struct SkillFile {
    pub name: String,
    pub content: String,
}

impl SkillFile {
    pub fn new(name: String, content: String) -> (r: Self)
        ensures
            r.name == name,
            r.content == content,
    {
        SkillFile { name, content }
    }
}

/// The version given to a skill constructed without one.
pub fn default_version() -> (r: String)
    ensures
        r@ == "1.0.0"@,
{
    "1.0.0".to_owned()
}

/// A skill definition: a named, versioned unit of guidance with optional
/// tool, model and invocation constraints.
#[derive(Debug, Clone, PartialEq, Eq)]
pub struct Skill {
    pub name: String,
    pub description: String,
    pub version: String,
    pub allowed_tools: Vec<String>,
    pub model: Option<String>,
    pub context: Option<ContextMode>,
    pub agent: Option<String>,
    pub user_invocable: Option<bool>,
    pub argument_hint: Option<String>,
    pub disable_model_invocation: Option<bool>,
    pub body: String,
    pub additional_files: Vec<SkillFile>,
}

impl Skill {
    pub fn new(name: String, description: String, body: String) -> (r: Self)
        ensures
            r.name == name,
            r.description == description,
            r.version@ == "1.0.0"@,
            r.allowed_tools@ == Seq::<String>::empty(),
            r.model is None,
            r.context is None,
            r.agent is None,
            r.user_invocable is None,
            r.argument_hint is None,
            r.disable_model_invocation is None,
            r.body == body,
            r.additional_files@ == Seq::<SkillFile>::empty(),
    {
        Skill {
            name,
            description,
            version: default_version(),
            allowed_tools: Vec::new(),
            model: None,
            context: None,
            agent: None,
            user_invocable: None,
            argument_hint: None,
            disable_model_invocation: None,
            body,
            additional_files: Vec::new(),
        }
    }

    pub fn with_version(self, version: String) -> (r: Self)
        ensures
            r == (Skill { version, ..self }),
    {
        Skill { version, ..self }
    }

    pub fn with_tools(self, tools: Vec<String>) -> (r: Self)
        ensures
            r == (Skill { allowed_tools: tools, ..self }),
    {
        Skill { allowed_tools: tools, ..self }
    }

    pub fn with_model(self, model: String) -> (r: Self)
        ensures
            r == (Skill { model: Some(model), ..self }),
    {
        Skill { model: Some(model), ..self }
    }

    pub fn with_context(self, context: ContextMode) -> (r: Self)
        ensures
            r == (Skill { context: Some(context), ..self }),
    {
        Skill { context: Some(context), ..self }
    }

    pub fn with_agent(self, agent: String) -> (r: Self)
        ensures
            r == (Skill { agent: Some(agent), ..self }),
    {
        Skill { agent: Some(agent), ..self }
    }

    pub fn with_user_invocable(self, invocable: bool) -> (r: Self)
        ensures
            r == (Skill { user_invocable: Some(invocable), ..self }),
    {
        Skill { user_invocable: Some(invocable), ..self }
    }

    pub fn with_argument_hint(self, hint: String) -> (r: Self)
        ensures
            r == (Skill { argument_hint: Some(hint), ..self }),
    {
        Skill { argument_hint: Some(hint), ..self }
    }

    pub fn with_disable_model_invocation(self, disable: bool) -> (r: Self)
        ensures
            r == (Skill { disable_model_invocation: Some(disable), ..self }),
    {
        Skill { disable_model_invocation: Some(disable), ..self }
    }

    pub fn with_additional_file(self, file: SkillFile) -> (r: Self)
        ensures
            r.additional_files@ == self.additional_files@.push(file),
            r.name == self.name,
            r.description == self.description,
            r.version == self.version,
            r.allowed_tools == self.allowed_tools,
            r.model == self.model,
            r.context == self.context,
            r.agent == self.agent,
            r.user_invocable == self.user_invocable,
            r.argument_hint == self.argument_hint,
            r.disable_model_invocation == self.disable_model_invocation,
            r.body == self.body,
    {
        let mut s = self;
        s.additional_files.push(file);
        s
    }
}

} // verus!
