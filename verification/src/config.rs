//! The configuration of a project, as `abcb.toml` gives it.
use vstd::prelude::*;

use crate::data::{read_toml, Data, DataView};
use crate::decode::{
    failure, field, first_misfit, message_of, optional_text_result, text_misfit, wrong_kind,
    wrong_value, Fields, Form, Shape,
};
use crate::external::toml_of_text;
use crate::models::OpenAiCompatProvider;
use crate::provider::optional;
use crate::text::same_text;

verus! {

/// Where the notes of a project are kept.
pub const NOTES_PATH: &'static str = ".abcb/notes.jsonl";

/// Where sessions are kept, unless the configuration says otherwise.
pub const DEFAULT_MEMORY_DIR: &'static str = ".abcb/sessions";

/// How many steps a run may take, unless the configuration says otherwise.
pub const DEFAULT_MAX_STEPS: usize = 5;

/// How many times an evaluation runs each case, unless it is told otherwise.
pub const DEFAULT_EVAL_RUNS: usize = 5;

/// The configuration of a project. A section is present only where it is
/// configured.
#[derive(Debug, PartialEq, Eq)]
pub struct Config {
    pub project: Option<ProjectConfig>,
    pub model: Option<ModelConfig>,
    pub agent: Option<AgentConfig>,
    pub memory: Option<MemoryConfig>,
}

/// The section of the project.
#[derive(Debug, PartialEq, Eq)]
pub struct ProjectConfig {
    pub name: Option<String>,
}

/// The section of the model's endpoint.
#[derive(Debug, PartialEq, Eq)]
pub struct ModelConfig {
    /// The base of the endpoint's address, as in `http://localhost:8083/v1`.
    pub base_url: String,
    /// The model that requests name.
    pub model: String,
    /// Where the health of the endpoint is asked for.
    pub health_url: Option<String>,
}

/// The section of the agent loop.
#[derive(Debug, PartialEq, Eq)]
pub struct AgentConfig {
    /// How many steps a run may take.
    pub max_steps: Option<usize>,
}

/// The section of what is kept of sessions.
#[derive(Debug, PartialEq, Eq)]
pub struct MemoryConfig {
    /// Where sessions are kept.
    pub dir: Option<String>,
}

/// What a [`Config`] says.
pub struct ConfigView {
    pub project: Option<ProjectView>,
    pub model: Option<ModelConfigView>,
    pub agent: Option<AgentView>,
    pub memory: Option<MemoryView>,
}

/// What a [`ProjectConfig`] says.
pub struct ProjectView {
    pub name: Option<Seq<char>>,
}

/// What a [`ModelConfig`] says.
pub struct ModelConfigView {
    pub base_url: Seq<char>,
    pub model: Seq<char>,
    pub health_url: Option<Seq<char>>,
}

/// What an [`AgentConfig`] says.
pub struct AgentView {
    pub max_steps: Option<usize>,
}

/// What a [`MemoryConfig`] says.
pub struct MemoryView {
    pub dir: Option<Seq<char>>,
}

impl View for ProjectConfig {
    type V = ProjectView;

    open spec fn view(&self) -> ProjectView {
        ProjectView { name: optional(self.name) }
    }
}

impl View for ModelConfig {
    type V = ModelConfigView;

    open spec fn view(&self) -> ModelConfigView {
        ModelConfigView {
            base_url: self.base_url@,
            model: self.model@,
            health_url: optional(self.health_url),
        }
    }
}

impl View for AgentConfig {
    type V = AgentView;

    open spec fn view(&self) -> AgentView {
        AgentView { max_steps: self.max_steps }
    }
}

impl View for MemoryConfig {
    type V = MemoryView;

    open spec fn view(&self) -> MemoryView {
        MemoryView { dir: optional(self.dir) }
    }
}

impl View for Config {
    type V = ConfigView;

    open spec fn view(&self) -> ConfigView {
        ConfigView {
            project: match self.project {
                Some(section) => Some(section@),
                None => None,
            },
            model: match self.model {
                Some(section) => Some(section@),
                None => None,
            },
            agent: match self.agent {
                Some(section) => Some(section@),
                None => None,
            },
            memory: match self.memory {
                Some(section) => Some(section@),
                None => None,
            },
        }
    }
}

impl ConfigView {
    /// The name of the project.
    pub open spec fn project_name(self) -> Option<Seq<char>> {
        match self.project {
            Some(section) => section.name,
            None => None,
        }
    }

    /// How many steps a run may take.
    pub open spec fn max_steps(self) -> usize {
        match self.agent {
            Some(AgentView { max_steps: Some(n) }) => n,
            _ => DEFAULT_MAX_STEPS,
        }
    }

    /// Where sessions are kept.
    pub open spec fn memory_dir(self) -> Seq<char> {
        match self.memory {
            Some(MemoryView { dir: Some(dir) }) => dir,
            _ => DEFAULT_MEMORY_DIR@,
        }
    }

    /// How a summary names the endpoint.
    pub open spec fn endpoint(self) -> Seq<char> {
        match self.model {
            Some(section) => section.base_url + " ("@ + section.model + ")"@,
            None => "unknown"@,
        }
    }
}

/// The text behind an optional reference.
pub open spec fn optional_str(t: Option<&str>) -> Option<Seq<char>> {
    match t {
        Some(text) => Some(text@),
        None => None,
    }
}

impl Config {
    /// The name of the project.
    pub fn project_name(&self) -> (r: Option<&str>)
        ensures
            optional_str(r) == self@.project_name(),
    {
        match &self.project {
            Some(section) => match &section.name {
                Some(name) => Some(name.as_str()),
                None => None,
            },
            None => None,
        }
    }

    /// How many steps a run may take.
    pub fn max_steps(&self) -> (r: usize)
        ensures
            r == self@.max_steps(),
    {
        match &self.agent {
            Some(AgentConfig { max_steps: Some(n) }) => *n,
            _ => DEFAULT_MAX_STEPS,
        }
    }

    /// Where sessions are kept.
    pub fn memory_dir(&self) -> (r: &str)
        ensures
            r@ == self@.memory_dir(),
    {
        match &self.memory {
            Some(MemoryConfig { dir: Some(dir) }) => dir.as_str(),
            _ => DEFAULT_MEMORY_DIR,
        }
    }
}

/// How a summary names the configured endpoint.
pub fn endpoint_label(config: &Config) -> (r: String)
    ensures
        r@ == config@.endpoint(),
{
    match &config.model {
        Some(section) => {
            let mut text = section.base_url.clone();
            text.append(" (");
            text.append(section.model.as_str());
            text.append(")");
            text
        },
        None => "unknown".to_owned(),
    }
}

/// What a command is told that needs a configuration where there is none.
pub open spec fn no_config() -> Seq<char> {
    "no abcb.toml found; add a [model] section or pass --mock"@
}

/// What a command is told that needs a model where none is configured.
pub open spec fn no_model() -> Seq<char> {
    "abcb.toml has no [model] section; add one or pass --mock"@
}

/// The configuration that was loaded, which a command without a mock needs.
pub fn required_config(loaded: Option<&Config>) -> (r: Result<&Config, String>)
    ensures
        match r {
            Ok(config) => loaded == Some(config),
            Err(message) => loaded is None && message@ == no_config(),
        },
{
    match loaded {
        Some(config) => Ok(config),
        None => Err("no abcb.toml found; add a [model] section or pass --mock".to_owned()),
    }
}

/// The provider for the configured endpoint.
pub fn build_provider(config: &Config) -> (r: Result<OpenAiCompatProvider, String>)
    ensures
        match r {
            Ok(provider) => config@.model matches Some(section) && provider.base_url@
                == section.base_url && provider.model@ == section.model,
            Err(message) => config@.model is None && message@ == no_model(),
        },
{
    match &config.model {
        Some(section) => Ok(
            OpenAiCompatProvider::new(section.base_url.as_str(), section.model.as_str()),
        ),
        None => Err("abcb.toml has no [model] section; add one or pass --mock".to_owned()),
    }
}

// ---------------------------------------------------------------------------
// Reading
// ---------------------------------------------------------------------------
/// A section as a record: what it is called, and how many settings it has.
pub open spec fn section_shape(name: &'static str, fields: u8) -> Shape {
    Shape { name, fields, form: Form::Document }
}

/// Why a value can be no section.
pub open spec fn section_error(shape: Shape, v: DataView) -> Option<Seq<char>> {
    match v {
        DataView::Object(_) | DataView::Array(_) => None,
        _ => Some(wrong_kind(v, shape.name@)),
    }
}

/// A setting of a section that may be left out where settings have names.
pub open spec fn setting(shape: Shape, section: DataView, position: nat, name: Seq<char>) -> Result<
    Option<DataView>,
    Seq<char>,
> {
    match shape.field(section, position, name) {
        Some(v) => Ok(Some(v)),
        None => if section is Array {
            Err(shape.absent(section, position, name))
        } else {
            Ok(None)
        },
    }
}

/// A setting that is a text; `expected` says what it has to be.
pub open spec fn text_setting(
    shape: Shape,
    section: DataView,
    position: nat,
    name: Seq<char>,
    expected: Seq<char>,
) -> Result<Option<Seq<char>>, Seq<char>> {
    match setting(shape, section, position, name) {
        Err(message) => Err(message),
        Ok(None) => Ok(None),
        Ok(Some(DataView::Text(t))) => Ok(Some(t)),
        Ok(Some(v)) => Err(wrong_kind(v, expected)),
    }
}

/// The section of the project that a value says.
pub open spec fn project_of(v: DataView) -> Result<ProjectView, Seq<char>> {
    let shape = section_shape("struct ProjectConfig", 1);
    match section_error(shape, v) {
        Some(message) => Err(message),
        None => match text_setting(shape, v, 0, "name"@, "a string"@) {
            Err(message) => Err(message),
            Ok(name) => Ok(ProjectView { name }),
        },
    }
}

/// The section of the model that a value says.
pub open spec fn model_of(v: DataView) -> Result<ModelConfigView, Seq<char>> {
    let shape = section_shape("struct ModelConfig", 3);
    match (section_error(shape, v), first_misfit(ModelFields, v)) {
        (Some(message), _) => Err(message),
        (None, Some(message)) => Err(message),
        (None, None) => match shape.text(v, 0, "base_url"@) {
            Err(message) => Err(message),
            Ok(base_url) => match shape.text(v, 1, "model"@) {
                Err(message) => Err(message),
                Ok(model) => match text_setting(shape, v, 2, "health_url"@, "a string"@) {
                    Err(message) => Err(message),
                    Ok(health_url) => Ok(ModelConfigView { base_url, model, health_url }),
                },
            },
        },
    }
}

/// What the settings of the model have to be.
pub struct ModelFields;

impl Fields for ModelFields {
    open spec fn misfit(&self, name: Seq<char>, v: DataView) -> Option<Seq<char>> {
        if name == "base_url"@ || name == "model"@ || name == "health_url"@ {
            text_misfit(v)
        } else {
            None
        }
    }

    fn check(&self, name: &str, v: &Data) -> (r: Option<String>) {
        if same_text(name, "base_url") || same_text(name, "model") || same_text(
            name,
            "health_url",
        ) {
            v.text_misfit()
        } else {
            None
        }
    }
}

/// A number of steps that a value says.
pub open spec fn steps_of(v: DataView) -> Result<usize, Seq<char>> {
    match v {
        DataView::Unsigned(n) => if n <= usize::MAX {
            Ok(n as usize)
        } else {
            Err(wrong_value(v, "usize"@))
        },
        DataView::Negative(_) => Err(wrong_value(v, "usize"@)),
        _ => Err(wrong_kind(v, "usize"@)),
    }
}

/// The section of the agent that a value says.
pub open spec fn agent_of(v: DataView) -> Result<AgentView, Seq<char>> {
    let shape = section_shape("struct AgentConfig", 1);
    match section_error(shape, v) {
        Some(message) => Err(message),
        None => match setting(shape, v, 0, "max_steps"@) {
            Err(message) => Err(message),
            Ok(None) => Ok(AgentView { max_steps: None }),
            Ok(Some(steps)) => match steps_of(steps) {
                Err(message) => Err(message),
                Ok(n) => Ok(AgentView { max_steps: Some(n) }),
            },
        },
    }
}

/// The section of what is kept that a value says.
pub open spec fn memory_of(v: DataView) -> Result<MemoryView, Seq<char>> {
    let shape = section_shape("struct MemoryConfig", 1);
    match section_error(shape, v) {
        Some(message) => Err(message),
        None => match text_setting(shape, v, 0, "dir"@, "path string"@) {
            Err(message) => Err(message),
            Ok(dir) => Ok(MemoryView { dir }),
        },
    }
}

/// A section of the document that may be left out.
pub open spec fn section<A>(
    document: DataView,
    name: Seq<char>,
    of: spec_fn(DataView) -> Result<A, Seq<char>>,
) -> Result<Option<A>, Seq<char>> {
    match field(document, 0, name) {
        None => Ok(None),
        Some(v) => match of(v) {
            Err(message) => Err(message),
            Ok(a) => Ok(Some(a)),
        },
    }
}

/// The configuration that a document says.
pub open spec fn config_of(v: DataView) -> Result<ConfigView, Seq<char>> {
    if !(v is Object) {
        Err(wrong_kind(v, "struct Config"@))
    } else if let Some(message) = first_misfit(ConfigFields, v) {
        Err(message)
    } else {
        match section(v, "project"@, |s: DataView| project_of(s)) {
            Err(message) => Err(message),
            Ok(project) => match section(v, "model"@, |s: DataView| model_of(s)) {
                Err(message) => Err(message),
                Ok(model) => match section(v, "agent"@, |s: DataView| agent_of(s)) {
                    Err(message) => Err(message),
                    Ok(agent) => match section(v, "memory"@, |s: DataView| memory_of(s)) {
                        Err(message) => Err(message),
                        Ok(memory) => Ok(ConfigView { project, model, agent, memory }),
                    },
                },
            },
        }
    }
}

/// What the sections of a configuration have to be.
pub struct ConfigFields;

impl Fields for ConfigFields {
    open spec fn misfit(&self, name: Seq<char>, v: DataView) -> Option<Seq<char>> {
        if name == "project"@ {
            failure(project_of(v))
        } else if name == "model"@ {
            failure(model_of(v))
        } else if name == "agent"@ {
            failure(agent_of(v))
        } else if name == "memory"@ {
            failure(memory_of(v))
        } else {
            None
        }
    }

    fn check(&self, name: &str, v: &Data) -> (r: Option<String>) {
        if same_text(name, "project") {
            match ProjectConfig::from_data(v) {
                Ok(_) => None,
                Err(message) => Some(message),
            }
        } else if same_text(name, "model") {
            match ModelConfig::from_data(v) {
                Ok(_) => None,
                Err(message) => Some(message),
            }
        } else if same_text(name, "agent") {
            match AgentConfig::from_data(v) {
                Ok(_) => None,
                Err(message) => Some(message),
            }
        } else if same_text(name, "memory") {
            match MemoryConfig::from_data(v) {
                Ok(_) => None,
                Err(message) => Some(message),
            }
        } else {
            None
        }
    }
}

/// What a reading gives, where the text holds a document.
pub open spec fn then_config(r: Result<DataView, Seq<char>>) -> Result<ConfigView, Seq<char>> {
    match r {
        Ok(v) => config_of(v),
        Err(message) => Err(message),
    }
}

/// A configuration, or a message, that was decoded.
pub open spec fn config_result(r: Result<Config, String>) -> Result<ConfigView, Seq<char>> {
    match r {
        Ok(config) => Ok(config@),
        Err(message) => Err(message@),
    }
}

fn section_message(shape: Shape, v: &Data) -> (r: Option<String>)
    ensures
        message_of(r) == section_error(shape, v@),
{
    match v {
        Data::Object(_) => None,
        Data::Array(_) => None,
        _ => Some(v.wrong_kind(shape.name)),
    }
}

fn read_text_setting(
    shape: Shape,
    v: &Data,
    position: u8,
    name: &str,
    expected: &str,
) -> (r: Result<Option<String>, String>)
    ensures
        optional_text_result(r) == text_setting(shape, v@, position as nat, name@, expected@),
{
    match shape.field_of(v, position, name) {
        Some(Data::Text(t)) => Ok(Some(t.clone())),
        Some(other) => Err(other.wrong_kind(expected)),
        None => match v {
            Data::Array(_) => Err(shape.absent_message(v, position, name)),
            _ => Ok(None),
        },
    }
}

impl ProjectConfig {
    fn from_data(v: &Data) -> (r: Result<ProjectConfig, String>)
        ensures
            match r {
                Ok(section) => project_of(v@) == Ok::<ProjectView, Seq<char>>(section@),
                Err(message) => project_of(v@) == Err::<ProjectView, Seq<char>>(message@),
            },
    {
        let shape = Shape { name: "struct ProjectConfig", fields: 1, form: Form::Document };
        if let Some(message) = section_message(shape, v) {
            return Err(message);
        }
        match read_text_setting(shape, v, 0, "name", "a string") {
            Err(message) => Err(message),
            Ok(name) => Ok(ProjectConfig { name }),
        }
    }
}

impl ModelConfig {
    fn from_data(v: &Data) -> (r: Result<ModelConfig, String>)
        ensures
            match r {
                Ok(section) => model_of(v@) == Ok::<ModelConfigView, Seq<char>>(section@),
                Err(message) => model_of(v@) == Err::<ModelConfigView, Seq<char>>(message@),
            },
    {
        let shape = Shape { name: "struct ModelConfig", fields: 3, form: Form::Document };
        if let Some(message) = section_message(shape, v) {
            return Err(message);
        }
        if let Some(message) = v.first_misfit(ModelFields) {
            return Err(message);
        }
        let base_url = match shape.text_of(v, 0, "base_url") {
            Err(message) => return Err(message),
            Ok(base_url) => base_url,
        };
        let model = match shape.text_of(v, 1, "model") {
            Err(message) => return Err(message),
            Ok(model) => model,
        };
        match read_text_setting(shape, v, 2, "health_url", "a string") {
            Err(message) => Err(message),
            Ok(health_url) => Ok(ModelConfig { base_url, model, health_url }),
        }
    }
}

impl AgentConfig {
    fn from_data(v: &Data) -> (r: Result<AgentConfig, String>)
        ensures
            match r {
                Ok(section) => agent_of(v@) == Ok::<AgentView, Seq<char>>(section@),
                Err(message) => agent_of(v@) == Err::<AgentView, Seq<char>>(message@),
            },
    {
        let shape = Shape { name: "struct AgentConfig", fields: 1, form: Form::Document };
        if let Some(message) = section_message(shape, v) {
            return Err(message);
        }
        match shape.field_of(v, 0, "max_steps") {
            Some(value) => match value {
                Data::Unsigned(n) => if *n <= usize::MAX as u64 {
                    Ok(AgentConfig { max_steps: Some(*n as usize) })
                } else {
                    Err(value.wrong_value("usize"))
                },
                Data::Negative(_) => Err(value.wrong_value("usize")),
                _ => Err(value.wrong_kind("usize")),
            },
            None => match v {
                Data::Array(_) => Err(shape.absent_message(v, 0, "max_steps")),
                _ => Ok(AgentConfig { max_steps: None }),
            },
        }
    }
}

impl MemoryConfig {
    fn from_data(v: &Data) -> (r: Result<MemoryConfig, String>)
        ensures
            match r {
                Ok(section) => memory_of(v@) == Ok::<MemoryView, Seq<char>>(section@),
                Err(message) => memory_of(v@) == Err::<MemoryView, Seq<char>>(message@),
            },
    {
        let shape = Shape { name: "struct MemoryConfig", fields: 1, form: Form::Document };
        if let Some(message) = section_message(shape, v) {
            return Err(message);
        }
        match read_text_setting(shape, v, 0, "dir", "path string") {
            Err(message) => Err(message),
            Ok(dir) => Ok(MemoryConfig { dir }),
        }
    }
}

impl Config {
    /// The configuration that a document says.
    pub fn from_data(v: &Data) -> (r: Result<Config, String>)
        ensures
            config_result(r) == config_of(v@),
    {
        match v {
            Data::Object(_) => {},
            _ => return Err(v.wrong_kind("struct Config")),
        }
        if let Some(message) = v.first_misfit(ConfigFields) {
            return Err(message);
        }
        let project = match v.field(0, "project") {
            None => None,
            Some(section) => match ProjectConfig::from_data(section) {
                Err(message) => return Err(message),
                Ok(project) => Some(project),
            },
        };
        let model = match v.field(0, "model") {
            None => None,
            Some(section) => match ModelConfig::from_data(section) {
                Err(message) => return Err(message),
                Ok(model) => Some(model),
            },
        };
        let agent = match v.field(0, "agent") {
            None => None,
            Some(section) => match AgentConfig::from_data(section) {
                Err(message) => return Err(message),
                Ok(agent) => Some(agent),
            },
        };
        let memory = match v.field(0, "memory") {
            None => None,
            Some(section) => match MemoryConfig::from_data(section) {
                Err(message) => return Err(message),
                Ok(memory) => Some(memory),
            },
        };
        Ok(Config { project, model, agent, memory })
    }
}

/// Read a configuration.
pub fn parse_config(source: &str) -> (r: Result<Config, String>)
    ensures
        config_result(r) == then_config(toml_of_text(source@)),
{
    match read_toml(source) {
        Ok(document) => Config::from_data(&document),
        Err(message) => Err(message),
    }
}

} // verus!
