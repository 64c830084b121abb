//! Pulling tool configurations back into the manifest.

use vstd::prelude::*;
use crate::json::{
    json_document, json_to_toml, parse_json, parse_yaml, spec_json_to_toml, yaml_document,
};
use crate::schema::{ConfigFormat, SchemaError, ToolSchema};
use crate::text::{path_join, spec_path_join};
use crate::value::{toml_document, Config, ConfigView};

verus! {

/// Result of pulling a tool config.
#[derive(Debug)]
pub struct PulledConfig {
    /// Tool name.
    pub tool: String,
    /// Path config was read from.
    pub path: String,
    /// Parsed config.
    pub config: Config,
}

/// Errors that can occur during pull.
#[derive(Debug)]
pub enum PullError {
    /// The tool's schema could not be fetched.
    SchemaFetch(String, SchemaError),
    /// The tool has no configuration where its schema says.
    ConfigNotFound { tool: String, path: String },
    /// The configuration could not be read.
    ReadConfig(String, String),
    /// The configuration is not in the format that the schema names.
    ParseConfig(String, String),
}

/// What a configuration file holds, read in its format; what JSON and YAML
/// documents hold is made fit for TOML.
pub open spec fn spec_parsed(contents: Seq<char>, format: ConfigFormat) -> Result<
    ConfigView,
    Seq<char>,
> {
    match format {
        ConfigFormat::Toml => toml_document(contents),
        ConfigFormat::Json => match json_document(contents) {
            Ok(value) => Ok(spec_json_to_toml(value)),
            Err(cause) => Err(cause),
        },
        ConfigFormat::Yaml => match yaml_document(contents) {
            Ok(value) => Ok(spec_json_to_toml(value)),
            Err(cause) => Err(cause),
        },
    }
}

/// Parse config from string based on format.
pub fn parse_config(contents: &str, format: ConfigFormat, tool: &str) -> (config: Result<
    Config,
    PullError,
>)
    ensures
        match config {
            Ok(c) => spec_parsed(contents@, format) == Ok::<ConfigView, Seq<char>>(c@),
            Err(PullError::ParseConfig(t, cause)) => t@ == tool@ && spec_parsed(contents@, format)
                == Err::<ConfigView, Seq<char>>(cause@),
            Err(_) => false,
        },
{
    let parsed = match format {
        ConfigFormat::Toml => Config::parse(contents),
        ConfigFormat::Json => match parse_json(contents) {
            Ok(value) => Ok(json_to_toml(&value)),
            Err(cause) => Err(cause),
        },
        ConfigFormat::Yaml => match parse_yaml(contents) {
            Ok(value) => Ok(json_to_toml(&value)),
            Err(cause) => Err(cause),
        },
    };
    match parsed {
        Ok(config) => Ok(config),
        Err(cause) => Err(PullError::ParseConfig(tool.to_owned(), cause)),
    }
}

/// What was found where a tool's configuration should lie.
#[derive(Debug)]
pub enum Found {
    /// There is no such file.
    Nothing,
    /// There is one, and it cannot be read.
    Unreadable(String),
    /// There is one, with these contents.
    Contents(String),
}

/// Where a tool's configuration lies below `base_dir`.
pub fn config_path(schema: &ToolSchema, base_dir: &str) -> (path: String)
    ensures
        path@ == spec_path_join(base_dir@, schema.config_path@),
{
    path_join(base_dir, schema.config_path.as_str())
}

/// Pull config for a single tool, given what was found where the tool's
/// schema says that its configuration lies.
pub fn pull_tool_config(tool: &str, schema: &ToolSchema, base_dir: &str, found: Found) -> (pulled:
    Result<PulledConfig, PullError>)
    ensures
        match pulled {
            Ok(p) => p.tool@ == tool@ && p.path@ == spec_path_join(base_dir@, schema.config_path@) && (
            found matches Found::Contents(text) && spec_parsed(text@, schema.format) == Ok::<
                ConfigView,
                Seq<char>,
            >(p.config@)),
            Err(PullError::ConfigNotFound { tool: t, path }) => found is Nothing && t@ == tool@
                && path@ == spec_path_join(base_dir@, schema.config_path@),
            Err(PullError::ReadConfig(t, cause)) => t@ == tool@ && (
            found matches Found::Unreadable(c) && c@ == cause@),
            Err(PullError::ParseConfig(t, cause)) => t@ == tool@ && (
            found matches Found::Contents(text) && spec_parsed(text@, schema.format) == Err::<
                ConfigView,
                Seq<char>,
            >(cause@)),
            Err(PullError::SchemaFetch(_, _)) => false,
        },
{
    let path = config_path(schema, base_dir);
    match found {
        Found::Nothing => Err(PullError::ConfigNotFound { tool: tool.to_owned(), path }),
        Found::Unreadable(cause) => Err(PullError::ReadConfig(tool.to_owned(), cause)),
        Found::Contents(text) => match parse_config(text.as_str(), schema.format, tool) {
            Ok(config) => Ok(PulledConfig { tool: tool.to_owned(), path, config }),
            Err(e) => Err(e),
        },
    }
}

/// What an error says, in words.
pub open spec fn spec_message(e: PullError) -> Seq<char> {
    match e {
        PullError::SchemaFetch(tool, cause) => "failed to fetch schema for '"@
            + tool@
            + "': "@
            + crate::schema::spec_message(cause),
        PullError::ConfigNotFound { tool, path } => "config file not found for '"@
            + tool@
            + "': "@
            + path@,
        PullError::ReadConfig(tool, cause) => "failed to read config for '"@
            + tool@
            + "': "@
            + cause@,
        PullError::ParseConfig(tool, cause) => "failed to parse config for '"@
            + tool@
            + "': "@
            + cause@,
    }
}

impl PullError {
    /// What the error says, in words.
    pub fn message(&self) -> (text: String)
        ensures
            text@ == spec_message(*self),
    {
        match self {
            PullError::SchemaFetch(tool, cause) => {
                let mut text = "failed to fetch schema for '".to_owned();
                text.append(tool.as_str());
                text.append("': ");
                text.append(cause.message().as_str());
                text
            },
            PullError::ConfigNotFound { tool, path } => {
                let mut text = "config file not found for '".to_owned();
                text.append(tool.as_str());
                text.append("': ");
                text.append(path.as_str());
                text
            },
            PullError::ReadConfig(tool, cause) => {
                let mut text = "failed to read config for '".to_owned();
                text.append(tool.as_str());
                text.append("': ");
                text.append(cause.as_str());
                text
            },
            PullError::ParseConfig(tool, cause) => {
                let mut text = "failed to parse config for '".to_owned();
                text.append(tool.as_str());
                text.append("': ");
                text.append(cause.as_str());
                text
            },
        }
    }
}

} // verus!
