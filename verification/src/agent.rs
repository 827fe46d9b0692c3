//! Agents: named actors with tool, model, permission and consensus
//! configuration, plus example interactions.

use vstd::prelude::*;

use crate::strutil::{chars_eq_str, chars_without, keeps_char, lower_of, lowercase, str_eq};

verus! {

/// Agent color for display.
#[derive(Debug, Clone, Copy, PartialEq, Eq, Structural)]
pub enum AgentColor {
    Blue,
    Green,
    Purple,
    Orange,
    Red,
}

impl Default for AgentColor {
    fn default() -> (r: Self)
        ensures
            r == AgentColor::Blue,
    {
        AgentColor::Blue
    }
}

pub open spec fn spec_color_label(c: AgentColor) -> Seq<char> {
    match c {
        AgentColor::Blue => "blue"@,
        AgentColor::Green => "green"@,
        AgentColor::Purple => "purple"@,
        AgentColor::Orange => "orange"@,
        AgentColor::Red => "red"@,
    }
}

/// The color a lower-cased name denotes; unknown names fall back to blue.
pub open spec fn spec_color_from(lower: Seq<char>) -> AgentColor {
    if lower == "blue"@ {
        AgentColor::Blue
    } else if lower == "green"@ {
        AgentColor::Green
    } else if lower == "purple"@ {
        AgentColor::Purple
    } else if lower == "orange"@ {
        AgentColor::Orange
    } else if lower == "red"@ {
        AgentColor::Red
    } else {
        AgentColor::Blue
    }
}

impl AgentColor {
    /// The lower-case name of the color.
    pub fn label(&self) -> (r: &'static str)
        ensures
            r@ == spec_color_label(*self),
    {
        match self {
            AgentColor::Blue => "blue",
            AgentColor::Green => "green",
            AgentColor::Purple => "purple",
            AgentColor::Orange => "orange",
            AgentColor::Red => "red",
        }
    }

    /// Parses a color name case-insensitively; unknown names fall back to
    /// blue.
    pub fn parse(s: &str) -> (r: AgentColor)
        ensures
            r == spec_color_from(lower_of(s@)),
    {
        let lower = lowercase(s);
        if str_eq(lower.as_str(), "blue") {
            AgentColor::Blue
        } else if str_eq(lower.as_str(), "green") {
            AgentColor::Green
        } else if str_eq(lower.as_str(), "purple") {
            AgentColor::Purple
        } else if str_eq(lower.as_str(), "orange") {
            AgentColor::Orange
        } else if str_eq(lower.as_str(), "red") {
            AgentColor::Red
        } else {
            AgentColor::Blue
        }
    }
}

impl core::str::FromStr for AgentColor {
    type Err = String;

    fn from_str(s: &str) -> Result<Self, String> {
        Ok(AgentColor::parse(s))
    }
}

/// Model selection for an agent.
#[derive(Debug, Clone, Copy, PartialEq, Eq, Structural)]
pub enum AgentModel {
    Sonnet,
    Opus,
    Haiku,
    Inherit,
}

impl Default for AgentModel {
    fn default() -> (r: Self)
        ensures
            r == AgentModel::Inherit,
    {
        AgentModel::Inherit
    }
}

pub open spec fn spec_model_label(m: AgentModel) -> Seq<char> {
    match m {
        AgentModel::Sonnet => "sonnet"@,
        AgentModel::Opus => "opus"@,
        AgentModel::Haiku => "haiku"@,
        AgentModel::Inherit => "inherit"@,
    }
}

/// The model a lower-cased name denotes; unknown names fall back to
/// inherit.
pub open spec fn spec_model_from(lower: Seq<char>) -> AgentModel {
    if lower == "sonnet"@ {
        AgentModel::Sonnet
    } else if lower == "opus"@ {
        AgentModel::Opus
    } else if lower == "haiku"@ {
        AgentModel::Haiku
    } else {
        AgentModel::Inherit
    }
}

impl AgentModel {
    /// The lower-case name of the model selection.
    pub fn label(&self) -> (r: &'static str)
        ensures
            r@ == spec_model_label(*self),
    {
        match self {
            AgentModel::Sonnet => "sonnet",
            AgentModel::Opus => "opus",
            AgentModel::Haiku => "haiku",
            AgentModel::Inherit => "inherit",
        }
    }

    /// Parses a model name case-insensitively; unknown names fall back to
    /// inherit.
    pub fn parse(s: &str) -> (r: AgentModel)
        ensures
            r == spec_model_from(lower_of(s@)),
    {
        let lower = lowercase(s);
        if str_eq(lower.as_str(), "sonnet") {
            AgentModel::Sonnet
        } else if str_eq(lower.as_str(), "opus") {
            AgentModel::Opus
        } else if str_eq(lower.as_str(), "haiku") {
            AgentModel::Haiku
        } else {
            AgentModel::Inherit
        }
    }
}

impl core::str::FromStr for AgentModel {
    type Err = String;

    fn from_str(s: &str) -> Result<Self, String> {
        Ok(AgentModel::parse(s))
    }
}

/// Permission mode for agent operations.
#[derive(Debug, Clone, Copy, PartialEq, Eq, Structural)]
pub enum PermissionMode {
    Default,
    AcceptEdits,
    DontAsk,
    BypassPermissions,
    Plan,
}

impl Default for PermissionMode {
    fn default() -> (r: Self)
        ensures
            r == PermissionMode::Default,
    {
        PermissionMode::Default
    }
}

pub open spec fn spec_permission_mode_label(m: PermissionMode) -> Seq<char> {
    match m {
        PermissionMode::Default => "default"@,
        PermissionMode::AcceptEdits => "acceptEdits"@,
        PermissionMode::DontAsk => "dontAsk"@,
        PermissionMode::BypassPermissions => "bypassPermissions"@,
        PermissionMode::Plan => "plan"@,
    }
}

/// The mode a normalized name (lower-cased, underscores removed) denotes;
/// unknown names fall back to the default mode.
pub open spec fn spec_permission_mode_from(norm: Seq<char>) -> PermissionMode {
    if norm == "acceptedits"@ {
        PermissionMode::AcceptEdits
    } else if norm == "dontask"@ {
        PermissionMode::DontAsk
    } else if norm == "bypasspermissions"@ {
        PermissionMode::BypassPermissions
    } else if norm == "plan"@ {
        PermissionMode::Plan
    } else {
        PermissionMode::Default
    }
}

impl PermissionMode {
    /// The camel-case name of the mode.
    pub fn label(&self) -> (r: &'static str)
        ensures
            r@ == spec_permission_mode_label(*self),
    {
        match self {
            PermissionMode::Default => "default",
            PermissionMode::AcceptEdits => "acceptEdits",
            PermissionMode::DontAsk => "dontAsk",
            PermissionMode::BypassPermissions => "bypassPermissions",
            PermissionMode::Plan => "plan",
        }
    }

    /// Parses a mode name case-insensitively, ignoring underscores; unknown
    /// names fall back to the default mode.
    pub fn parse(s: &str) -> (r: PermissionMode)
        ensures
            r == spec_permission_mode_from(lower_of(s@).filter(keeps_char('_'))),
    {
        let lower = lowercase(s);
        let stripped = chars_without(lower.as_str(), '_');
        if chars_eq_str(&stripped, "acceptedits") {
            PermissionMode::AcceptEdits
        } else if chars_eq_str(&stripped, "dontask") {
            PermissionMode::DontAsk
        } else if chars_eq_str(&stripped, "bypasspermissions") {
            PermissionMode::BypassPermissions
        } else if chars_eq_str(&stripped, "plan") {
            PermissionMode::Plan
        } else {
            PermissionMode::Default
        }
    }
}

impl core::str::FromStr for PermissionMode {
    type Err = String;

    fn from_str(s: &str) -> Result<Self, String> {
        Ok(PermissionMode::parse(s))
    }
}

/// Consensus role configuration for multi-agent coordination. The vote
/// threshold is a fixed-point fraction of `crate::module_map::SCORE_SCALE`.
#[derive(Debug, Clone, Copy, PartialEq, Eq, Structural)]
pub struct ConsensusRole {
    pub priority: u8,
    pub can_veto: bool,
    pub vote_threshold: u32,
}

impl ConsensusRole {
    pub fn new(priority: u8) -> (r: Self)
        ensures
            r.priority == priority,
            r.can_veto == false,
            r.vote_threshold == 6700u32,
    {
        ConsensusRole { priority, can_veto: false, vote_threshold: 6700 }
    }

    pub fn with_veto(self) -> (r: Self)
        ensures
            r == (ConsensusRole { can_veto: true, ..self }),
    {
        ConsensusRole { can_veto: true, ..self }
    }

    pub fn with_threshold(self, threshold: u32) -> (r: Self)
        ensures
            r == (ConsensusRole { vote_threshold: threshold, ..self }),
    {
        ConsensusRole { vote_threshold: threshold, ..self }
    }
}

impl Default for ConsensusRole {
    fn default() -> (r: Self)
        ensures
            r.priority == 50u8,
            r.can_veto == false,
            r.vote_threshold == 6700u32,
    {
        ConsensusRole { priority: 50, can_veto: false, vote_threshold: 6700 }
    }
}

/// An example interaction for an agent prompt.
#[derive(Debug, Clone, PartialEq, Eq)]
pub struct AgentExample {
    pub context: String,
    pub user: String,
    pub assistant: String,
    pub commentary: Option<String>,
}

impl AgentExample {
    pub fn new(context: String, user: String, assistant: String) -> (r: Self)
        ensures
            r.context == context,
            r.user == user,
            r.assistant == assistant,
            r.commentary is None,
    {
        AgentExample { context, user, assistant, commentary: None }
    }

    pub fn with_commentary(self, commentary: String) -> (r: Self)
        ensures
            r == (AgentExample { commentary: Some(commentary), ..self }),
    {
        AgentExample { commentary: Some(commentary), ..self }
    }
}

/// An agent definition: a named actor with its prompt and constraints.
#[derive(Debug, Clone, PartialEq)]
pub struct Agent {
    pub name: String,
    pub description: String,
    pub color: Option<AgentColor>,
    pub tools: Vec<String>,
    pub disallowed_tools: Vec<String>,
    pub model: Option<AgentModel>,
    pub permission_mode: Option<PermissionMode>,
    pub skills: Vec<String>,
    pub consensus: Option<ConsensusRole>,
    pub prompt: String,
    pub examples: Vec<AgentExample>,
}

impl Agent {
    pub fn new(name: String, description: String, prompt: String) -> (r: Self)
        ensures
            r.name == name,
            r.description == description,
            r.color is None,
            r.tools@ == Seq::<String>::empty(),
            r.disallowed_tools@ == Seq::<String>::empty(),
            r.model is None,
            r.permission_mode is None,
            r.skills@ == Seq::<String>::empty(),
            r.consensus is None,
            r.prompt == prompt,
            r.examples@ == Seq::<AgentExample>::empty(),
    {
        Agent {
            name,
            description,
            color: None,
            tools: Vec::new(),
            disallowed_tools: Vec::new(),
            model: None,
            permission_mode: None,
            skills: Vec::new(),
            consensus: None,
            prompt,
            examples: Vec::new(),
        }
    }

    pub fn with_color(self, color: AgentColor) -> (r: Self)
        ensures
            r == (Agent { color: Some(color), ..self }),
    {
        Agent { color: Some(color), ..self }
    }

    pub fn with_tools(self, tools: Vec<String>) -> (r: Self)
        ensures
            r == (Agent { tools, ..self }),
    {
        Agent { tools, ..self }
    }

    pub fn with_disallowed_tools(self, tools: Vec<String>) -> (r: Self)
        ensures
            r == (Agent { disallowed_tools: tools, ..self }),
    {
        Agent { disallowed_tools: tools, ..self }
    }

    pub fn with_model(self, model: AgentModel) -> (r: Self)
        ensures
            r == (Agent { model: Some(model), ..self }),
    {
        Agent { model: Some(model), ..self }
    }

    pub fn with_permission_mode(self, mode: PermissionMode) -> (r: Self)
        ensures
            r == (Agent { permission_mode: Some(mode), ..self }),
    {
        Agent { permission_mode: Some(mode), ..self }
    }

    pub fn with_skills(self, skills: Vec<String>) -> (r: Self)
        ensures
            r == (Agent { skills, ..self }),
    {
        Agent { skills, ..self }
    }

    pub fn with_consensus(self, consensus: ConsensusRole) -> (r: Self)
        ensures
            r == (Agent { consensus: Some(consensus), ..self }),
    {
        Agent { consensus: Some(consensus), ..self }
    }

    pub fn with_example(self, example: AgentExample) -> (r: Self)
        ensures
            r.examples@ == self.examples@.push(example),
            r.name == self.name,
            r.description == self.description,
            r.color == self.color,
            r.tools == self.tools,
            r.disallowed_tools == self.disallowed_tools,
            r.model == self.model,
            r.permission_mode == self.permission_mode,
            r.skills == self.skills,
            r.consensus == self.consensus,
            r.prompt == self.prompt,
    {
        let mut s = self;
        s.examples.push(example);
        s
    }
}

} // verus!
