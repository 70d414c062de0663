use std::collections::HashMap;
use vstd::prelude::*;
use vstd::string::*;

verus! {

/// One run profile. The restart fields are stored for the dashboard; nothing
/// in this library acts on them.
#[derive(Debug, Clone)]
pub struct RunConfig {
    pub id: String,
    pub name: String,
    pub config_type: String,
    pub command: Option<String>,
    pub working_dir: Option<String>,
    pub env: HashMap<String, String>,
    pub args: Vec<String>,
    pub folder_id: Option<String>,
    pub color: Option<String>,
    pub auto_restart: bool,
    pub restart_delay: u32,
    pub max_retries: u32,
}

/// A folder that groups run profiles in the dashboard.
#[derive(Debug, Clone)]
pub struct Folder {
    pub id: String,
    pub name: String,
    pub color: Option<String>,
    pub expanded: bool,
}

/// Everything that is persisted: the run profiles, the folders, and the
/// order in which the profiles are shown.
#[derive(Debug, Clone)]
pub struct AppConfig {
    pub configs: Vec<RunConfig>,
    pub folders: Vec<Folder>,
    pub config_order: Vec<String>,
}

/// Why the persisted structure could not be read or replaced, with the cause
/// as the file system or the JSON codec worded it.
#[derive(Debug, Clone)]
pub enum ConfigError {
    Read(String),
    Parse(String),
    CreateDir(String),
    Serialize(String),
    Write(String),
    Rename(String),
}

impl AppConfig {
    /// Whether the structure holds no profile, no folder and no order.
    pub open spec fn is_empty(&self) -> bool {
        &&& self.configs@.len() == 0
        &&& self.folders@.len() == 0
        &&& self.config_order@.len() == 0
    }
}

impl Default for AppConfig {
    /// The empty structure.
    fn default() -> (config: AppConfig)
        ensures
            config.is_empty(),
    {
        AppConfig { configs: Vec::new(), folders: Vec::new(), config_order: Vec::new() }
    }
}

impl ConfigError {
    /// The failure string, as the interface shows it.
    pub open spec fn text(&self) -> Seq<char> {
        match self {
            ConfigError::Read(cause) => "Failed to read config: "@ + cause@,
            ConfigError::Parse(cause) => "Failed to parse config: "@ + cause@,
            ConfigError::CreateDir(cause) => "Failed to create config directory: "@ + cause@,
            ConfigError::Serialize(cause) => "Failed to serialize config: "@ + cause@,
            ConfigError::Write(cause) => "Failed to write config: "@ + cause@,
            ConfigError::Rename(cause) => "Failed to rename config file: "@ + cause@,
        }
    }

    /// Renders the failure string.
    pub fn message(&self) -> (message: String)
        ensures
            message@ == self.text(),
    {
        let (prefix, cause) = match self {
            ConfigError::Read(cause) => ("Failed to read config: ", cause),
            ConfigError::Parse(cause) => ("Failed to parse config: ", cause),
            ConfigError::CreateDir(cause) => ("Failed to create config directory: ", cause),
            ConfigError::Serialize(cause) => ("Failed to serialize config: ", cause),
            ConfigError::Write(cause) => ("Failed to write config: ", cause),
            ConfigError::Rename(cause) => ("Failed to rename config file: ", cause),
        };
        let mut message = prefix.to_owned();
        message.append(cause.as_str());
        message
    }
}

/// What a load yields, given what the store held: `None` where there is no
/// file, and else the outcome of reading and parsing it. A missing file is no
/// error; it reads back as the empty structure.
pub fn load_config(stored: Option<Result<AppConfig, ConfigError>>) -> (loaded: Result<
    AppConfig,
    ConfigError,
>)
    ensures
        stored matches Some(outcome) ==> loaded == outcome,
        stored is None ==> (loaded matches Ok(config) && config.is_empty()),
{
    match stored {
        Some(outcome) => outcome,
        None => Ok(AppConfig::default()),
    }
}

} // verus!
