//! Config file formats that tools declare for their configuration.

use vstd::prelude::*;
use crate::json::{json_document, parse_json};
use crate::text::str_eq;
use crate::value::{
    get, get_str, spec_as_str, spec_decimal, spec_get, to_decimal, Config, ConfigView,
};

verus! {

/// Supported config file formats.
#[derive(Debug, Clone, Copy, PartialEq, Eq, Structural)]
pub enum ConfigFormat {
    Toml,
    Json,
    Yaml,
}

/// Fetches schemas by invoking `<tool> --schema`.
#[derive(Debug, Clone, Copy, PartialEq, Eq, Structural)]
pub struct CliSchemaProvider;

/// The word by which a schema names a format.
pub open spec fn spec_format_name(format: ConfigFormat) -> Seq<char> {
    match format {
        ConfigFormat::Toml => "toml"@,
        ConfigFormat::Json => "json"@,
        ConfigFormat::Yaml => "yaml"@,
    }
}

/// The format that a word names.
pub open spec fn spec_parse_format(name: Seq<char>) -> Option<ConfigFormat> {
    if name == "toml"@ {
        Some(ConfigFormat::Toml)
    } else if name == "json"@ {
        Some(ConfigFormat::Json)
    } else if name == "yaml"@ {
        Some(ConfigFormat::Yaml)
    } else {
        None
    }
}

impl ConfigFormat {
    /// The word by which a schema names this format.
    pub fn name(&self) -> (name: &'static str)
        ensures
            name@ == spec_format_name(*self),
    {
        match self {
            ConfigFormat::Toml => "toml",
            ConfigFormat::Json => "json",
            ConfigFormat::Yaml => "yaml",
        }
    }

    /// Reads a format from the word that names it.
    pub fn parse(name: &str) -> (format: Option<ConfigFormat>)
        ensures
            format == spec_parse_format(name@),
    {
        if str_eq(name, "toml") {
            Some(ConfigFormat::Toml)
        } else if str_eq(name, "json") {
            Some(ConfigFormat::Json)
        } else if str_eq(name, "yaml") {
            Some(ConfigFormat::Yaml)
        } else {
            None
        }
    }
}

impl CliSchemaProvider {
    /// The command that asks a tool for its schema: the tool itself, with
    /// the flag `--schema`.
    pub fn command(&self, tool: &str) -> (cmd: Vec<String>)
        ensures
            cmd@.len() == 2,
            cmd@[0]@ == tool@,
            cmd@[1]@ == "--schema"@,
    {
        let mut cmd: Vec<String> = Vec::new();
        cmd.push(tool.to_owned());
        cmd.push("--schema".to_owned());
        cmd
    }
}

/// A format is read back from its name.
pub proof fn law_format_round_trip(format: ConfigFormat)
    ensures
        spec_parse_format(spec_format_name(format)) == Some(format),
{
    reveal_strlit("toml");
    reveal_strlit("json");
    reveal_strlit("yaml");
    assert("toml"@[0] == 't' && "json"@[0] == 'j' && "yaml"@[0] == 'y');
}

/// Tool schema response from `<tool> --schema`.
#[derive(Debug)]
pub struct ToolSchema {
    /// Path where the tool expects its config file.
    pub config_path: String,
    /// Config file format.
    pub format: ConfigFormat,
    /// JSON Schema for validation.
    pub schema: Config,
}

/// What the contracts say of a [`ToolSchema`].
pub struct ToolSchemaView {
    pub config_path: Seq<char>,
    pub format: ConfigFormat,
    pub schema: ConfigView,
}

impl View for ToolSchema {
    type V = ToolSchemaView;

    open spec fn view(&self) -> ToolSchemaView {
        ToolSchemaView {
            config_path: self.config_path@,
            format: self.format,
            schema: self.schema@,
        }
    }
}

/// Errors that can occur when fetching a schema.
#[derive(Debug)]
pub enum SchemaError {
    /// The tool is not in the search path.
    ToolNotFound(String),
    /// The tool ran and failed.
    ToolFailed { tool: String, code: i32, stderr: String },
    /// What the tool put out is no schema response.
    InvalidResponse(String, String),
    /// The tool could not be run.
    Exec(String, String),
}

/// How running `<tool> --schema` ended.
#[derive(Debug)]
pub enum Run {
    /// There is no such program.
    NotFound,
    /// The program could not be started, for another reason.
    NotStarted(String),
    /// The program ran and exited: whether with success, with which code if
    /// it gave one, and what it put out; no output where it is no text.
    Exited { success: bool, code: Option<i32>, stdout: Option<String>, stderr: String },
}

/// The format that a schema response names.
pub open spec fn spec_format_of(value: Option<ConfigView>) -> Option<ConfigFormat> {
    match spec_as_str(value) {
        Some(name) => spec_parse_format(name),
        None => None,
    }
}

/// The schema response that a value is: a table with a `config_path`, which
/// is a string, a `format`, which names one, and a `schema`.
pub open spec fn spec_tool_schema(value: ConfigView) -> Option<ToolSchemaView> {
    match value {
        ConfigView::Table(fields) => match (
            spec_as_str(spec_get(fields, "config_path"@)),
            spec_format_of(spec_get(fields, "format"@)),
            spec_get(fields, "schema"@),
        ) {
            (Some(config_path), Some(format), Some(schema)) => Some(
                ToolSchemaView { config_path, format, schema },
            ),
            _ => None,
        },
        _ => None,
    }
}

/// The schema response that a text holds.
pub open spec fn spec_schema_response(text: Seq<char>) -> Option<ToolSchemaView> {
    match json_document(text) {
        Ok(value) => spec_tool_schema(value),
        Err(_) => None,
    }
}

/// What fetching a schema gives, by how running the tool ended.
pub enum Fetched {
    Schema(ToolSchemaView),
    ToolNotFound,
    ToolFailed { code: i32, stderr: Seq<char> },
    InvalidResponse,
    Exec(Seq<char>),
}

/// What fetching a schema gives: an error if the tool is not there, could
/// not be started or failed, with `-1` for a code where it gave none; else
/// the schema response that it put out, if it is one.
pub open spec fn spec_fetch(run: Run) -> Fetched {
    match run {
        Run::NotFound => Fetched::ToolNotFound,
        Run::NotStarted(cause) => Fetched::Exec(cause@),
        Run::Exited { success, code, stdout, stderr } => if !success {
            Fetched::ToolFailed {
                code: match code {
                    Some(c) => c,
                    None => -1i32,
                },
                stderr: stderr@,
            }
        } else {
            match stdout {
                Some(text) => match spec_schema_response(text@) {
                    Some(schema) => Fetched::Schema(schema),
                    None => Fetched::InvalidResponse,
                },
                None => Fetched::InvalidResponse,
            }
        },
    }
}

impl ToolSchema {
    /// Reads a schema response from a value.
    pub fn from_json(value: &Config) -> (schema: Option<ToolSchema>)
        ensures
            match schema {
                Some(s) => spec_tool_schema(value@) == Some(s@),
                None => spec_tool_schema(value@) is None,
            },
    {
        match value {
            Config::Table(fields) => {
                let config_path = match get_str(fields, "config_path") {
                    Some(p) => p,
                    None => {
                        return None;
                    },
                };
                let format = match get_str(fields, "format") {
                    Some(name) => match ConfigFormat::parse(name) {
                        Some(f) => f,
                        None => {
                            return None;
                        },
                    },
                    None => {
                        return None;
                    },
                };
                let schema = match get(fields, "schema") {
                    Some(s) => s.copy(),
                    None => {
                        return None;
                    },
                };
                Some(ToolSchema { config_path: config_path.to_owned(), format, schema })
            },
            _ => None,
        }
    }

    /// Parses a schema response.
    pub fn parse(text: &str) -> (schema: Result<ToolSchema, String>)
        ensures
            match schema {
                Ok(s) => spec_schema_response(text@) == Some(s@),
                Err(_) => spec_schema_response(text@) is None,
            },
    {
        match parse_json(text) {
            Ok(value) => match ToolSchema::from_json(&value) {
                Some(schema) => Ok(schema),
                None => Err("the response is no schema response".to_owned()),
            },
            Err(message) => Err(message),
        }
    }
}

impl CliSchemaProvider {
    /// Fetches the schema of a tool, given how running the tool for it
    /// ended.
    pub fn fetch(&self, tool: &str, run: Run) -> (schema: Result<ToolSchema, SchemaError>)
        ensures
            match schema {
                Ok(s) => spec_fetch(run) == Fetched::Schema(s@),
                Err(SchemaError::ToolNotFound(t)) => spec_fetch(run) == Fetched::ToolNotFound
                    && t@ == tool@,
                Err(SchemaError::ToolFailed { tool: t, code, stderr }) => spec_fetch(run) == (
                Fetched::ToolFailed { code, stderr: stderr@ }) && t@ == tool@,
                Err(SchemaError::InvalidResponse(t, _)) => spec_fetch(run)
                    == Fetched::InvalidResponse && t@ == tool@,
                Err(SchemaError::Exec(t, cause)) => spec_fetch(run) == Fetched::Exec(cause@)
                    && t@ == tool@,
            },
    {
        match run {
            Run::NotFound => Err(SchemaError::ToolNotFound(tool.to_owned())),
            Run::NotStarted(cause) => Err(SchemaError::Exec(tool.to_owned(), cause)),
            Run::Exited { success, code, stdout, stderr } => {
                if !success {
                    let code = match code {
                        Some(c) => c,
                        None => -1,
                    };
                    return Err(SchemaError::ToolFailed { tool: tool.to_owned(), code, stderr });
                }
                match stdout {
                    Some(text) => match ToolSchema::parse(text.as_str()) {
                        Ok(schema) => Ok(schema),
                        Err(message) => Err(SchemaError::InvalidResponse(tool.to_owned(), message)),
                    },
                    None => Err(
                        SchemaError::InvalidResponse(
                            tool.to_owned(),
                            "the output is no text".to_owned(),
                        ),
                    ),
                }
            },
        }
    }
}

/// What an error says, in words.
pub open spec fn spec_message(e: SchemaError) -> Seq<char> {
    match e {
        SchemaError::ToolNotFound(tool) => "tool '"@ + tool@ + "' not found in PATH"@,
        SchemaError::ToolFailed { tool, code, stderr } => "tool '"@
            + tool@
            + "' exited with "@
            + spec_decimal(code as int)
            + ": "@
            + stderr@,
        SchemaError::InvalidResponse(tool, cause) => "tool '"@
            + tool@
            + "' did not output valid schema response: "@
            + cause@,
        SchemaError::Exec(tool, cause) => "failed to execute tool '"@ + tool@ + "': "@ + cause@,
    }
}

impl SchemaError {
    /// What the error says, in words.
    pub fn message(&self) -> (text: String)
        ensures
            text@ == spec_message(*self),
    {
        match self {
            SchemaError::ToolNotFound(tool) => {
                let mut text = "tool '".to_owned();
                text.append(tool.as_str());
                text.append("' not found in PATH");
                text
            },
            SchemaError::ToolFailed { tool, code, stderr } => {
                let mut text = "tool '".to_owned();
                text.append(tool.as_str());
                text.append("' exited with ");
                text.append(to_decimal(*code as i64).as_str());
                text.append(": ");
                text.append(stderr.as_str());
                text
            },
            SchemaError::InvalidResponse(tool, cause) => {
                let mut text = "tool '".to_owned();
                text.append(tool.as_str());
                text.append("' did not output valid schema response: ");
                text.append(cause.as_str());
                text
            },
            SchemaError::Exec(tool, cause) => {
                let mut text = "failed to execute tool '".to_owned();
                text.append(tool.as_str());
                text.append("': ");
                text.append(cause.as_str());
                text
            },
        }
    }
}

} // verus!
