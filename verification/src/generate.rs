//! What config generation reports: the files it wrote, or would write.

use vstd::prelude::*;
use crate::manifest::{spec_variable_text, Manifest, ManifestView};
use crate::schema::ConfigFormat;
use crate::strmap::StrMap;
use crate::text::{contains_str, str_eq, strs};
use crate::json::{
    json_text, spec_toml_to_json, to_json, to_json_text, to_yaml_text, toml_to_json, yaml_text,
};
use crate::rewrite::{rewrite, spec_rewrite, spec_settled, Rule};
use crate::schema::{SchemaError, ToolSchema};
use crate::text::{path_join, spec_path_join};
use crate::value::{spec_fit_for_toml, to_document, toml_text, Config, ConfigView};

verus! {

/// Result of generating a tool config.
#[derive(Debug)]
pub struct GeneratedConfig {
    /// Tool name.
    pub tool: String,
    /// Path where config was written.
    pub path: String,
    /// Format used.
    pub format: ConfigFormat,
}

/// Preview of what would be generated (for diff mode).
#[derive(Debug)]
pub struct ConfigPreview {
    /// Tool name.
    pub tool: String,
    /// Path where config would be written.
    pub path: String,
    /// Content that would be written.
    pub content: String,
    /// Existing content (if file exists).
    pub existing: Option<String>,
}

impl ConfigPreview {
    /// Whether writing the config would change what is on disk: there is
    /// no file yet, or it holds something else.
    pub fn changes(&self) -> (changed: bool)
        ensures
            changed == match self.existing {
                Some(old) => old@ != self.content@,
                None => true,
            },
    {
        match &self.existing {
            Some(old) => !str_eq(old.as_str(), self.content.as_str()),
            None => true,
        }
    }
}

/// The variables that a manifest offers for substitution: its own, as far
/// as they have a text, and the project's `name` and `version`, which come
/// out on top.
pub open spec fn spec_template_variables(manifest: ManifestView) -> Map<Seq<char>, Seq<char>> {
    Map::new(
        |k: Seq<char>|
            k == "name"@ || k == "version"@ || (manifest.variables.contains_key(k)
                && spec_variable_text(manifest.variables[k]) is Some),
        |k: Seq<char>|
            if k == "version"@ {
                manifest.version
            } else if k == "name"@ {
                manifest.name
            } else {
                spec_variable_text(manifest.variables[k]).unwrap()
            },
    )
}

/// The variables that a manifest offers for substitution.
pub fn template_variables(manifest: &Manifest) -> (vars: StrMap<String>)
    ensures
        vars@ == spec_template_variables(manifest@),
{
    let mut vars: StrMap<String> = StrMap::new();
    let n = manifest.variables.len();
    let ghost keys = manifest.variables.keys();
    let ghost own = manifest.variables@;
    let mut i: usize = 0;
    assert(vars@ =~= Map::new(
        |k: Seq<char>|
            keys.subrange(0, 0).contains(k) && spec_variable_text(own[k]) is Some,
        |k: Seq<char>| spec_variable_text(own[k]).unwrap(),
    ));
    while i < n
        invariant
            i <= n,
            n == keys.len(),
            keys == manifest.variables.keys(),
            own == manifest.variables@,
            vars@ == Map::new(
                |k: Seq<char>|
                    keys.subrange(0, i as int).contains(k) && spec_variable_text(own[k]) is Some,
                |k: Seq<char>| spec_variable_text(own[k]).unwrap(),
            ),
        decreases n - i,
    {
        let key = manifest.variables.key_at(i);
        proof {
            let upto = keys.subrange(0, i as int + 1);
            assert(upto =~= keys.subrange(0, i as int).push(keys[i as int]));
            assert forall|m: Seq<char>|
                upto.contains(m) <==> (keys.subrange(0, i as int).contains(m) || m
                    == keys[i as int]) by {
                crate::text::lemma_contains_push(keys.subrange(0, i as int), keys[i as int], m);
            }
        }
        match manifest.get_variable(key.as_str()) {
            Some(text) => {
                vars.insert(key.clone(), text);
            },
            None => {},
        }
        assert(vars@ =~= Map::new(
            |k: Seq<char>|
                keys.subrange(0, i as int + 1).contains(k) && spec_variable_text(own[k]) is Some,
            |k: Seq<char>| spec_variable_text(own[k]).unwrap(),
        ));
        i += 1;
    }
    assert(keys.subrange(0, n as int) =~= keys);
    vars.insert("name".to_owned(), manifest.project.name.clone());
    vars.insert("version".to_owned(), manifest.project.version.clone());
    assert(vars@ =~= spec_template_variables(manifest@));
    vars
}

/// A value with the placeholders in all its strings replaced, however deep
/// they lie.
pub open spec fn spec_expand(
    value: ConfigView,
    keys: Seq<Seq<char>>,
    vars: Map<Seq<char>, Seq<char>>,
) -> ConfigView {
    spec_rewrite(value, 0, Rule::Substitute, keys, vars)
}

/// Expand {{variable}} placeholders in all string values.
pub fn expand_variables(value: &Config, vars: &StrMap<String>) -> (expanded: Config)
    ensures
        expanded@ == spec_expand(value@, vars.keys(), vars@),
{
    rewrite(value, Rule::Substitute, vars)
}

/// The lines of a change, as they are shown: for a new file, a heading and
/// every line with a plus sign; else the old lines that are gone, each
/// with a minus sign, and then the new lines that were not there, each
/// with a plus sign.
pub open spec fn spec_diff(old: Option<Seq<Seq<char>>>, new: Seq<Seq<char>>) -> Seq<Seq<char>> {
    match old {
        None => seq!["+++ (new file)"@] + spec_marked(new, Seq::empty(), new.len(), '+'),
        Some(before) => spec_marked(before, new, before.len(), '-') + spec_marked(
            new,
            before,
            new.len(),
            '+',
        ),
    }
}

/// Those of the first `n` of `lines` that are not among `others`, each
/// with `mark` before it.
pub open spec fn spec_marked(
    lines: Seq<Seq<char>>,
    others: Seq<Seq<char>>,
    n: nat,
    mark: char,
) -> Seq<Seq<char>>
    decreases n,
{
    if n == 0 || n > lines.len() {
        Seq::empty()
    } else if others.contains(lines[n - 1]) {
        spec_marked(lines, others, (n - 1) as nat, mark)
    } else {
        spec_marked(lines, others, (n - 1) as nat, mark).push(seq![mark] + lines[n - 1])
    }
}

fn marked(lines: &Vec<String>, others: &Vec<String>, mark: char, out: &mut Vec<String>)
    ensures
        strs(final(out)@) == strs(old(out)@) + spec_marked(
            strs(lines@),
            strs(others@),
            lines@.len(),
            mark,
        ),
{
    let ghost start = strs(out@);
    let mut i: usize = 0;
    assert(strs(out@) =~= start + spec_marked(strs(lines@), strs(others@), 0, mark));
    while i < lines.len()
        invariant
            i <= lines.len(),
            strs(out@) == start + spec_marked(strs(lines@), strs(others@), i as nat, mark),
        decreases lines.len() - i,
    {
        assert(strs(lines@)[i as int] == lines@[i as int]@);
        if !contains_str(others, lines[i].as_str()) {
            let ghost before = strs(out@);
            let mut line = String::new();
            crate::text::push_char(&mut line, mark);
            line.append(lines[i].as_str());
            assert(line@ =~= seq![mark] + lines@[i as int]@);
            out.push(line);
            assert(strs(out@) =~= before.push(seq![mark] + lines@[i as int]@));
            assert(strs(out@) =~= start + spec_marked(
                strs(lines@),
                strs(others@),
                (i + 1) as nat,
                mark,
            ));
        }
        i += 1;
    }
}

/// A simple line-based diff: what to show of a change from `old` to `new`.
pub fn diff_lines(old: Option<&Vec<String>>, new: &Vec<String>) -> (shown: Vec<String>)
    ensures
        strs(shown@) == spec_diff(
            match old {
                Some(lines) => Some(strs(lines@)),
                None => None,
            },
            strs(new@),
        ),
{
    let mut shown: Vec<String> = Vec::new();
    match old {
        None => {
            shown.push("+++ (new file)".to_owned());
            assert(strs(shown@) =~= seq!["+++ (new file)"@]);
            let none: Vec<String> = Vec::new();
            assert(strs(none@) =~= Seq::<Seq<char>>::empty());
            marked(new, &none, '+', &mut shown);
        },
        Some(before) => {
            assert(strs(shown@) =~= Seq::<Seq<char>>::empty());
            marked(before, new, '-', &mut shown);
            marked(new, before, '+', &mut shown);
        },
    }
    shown
}

/// Errors that can occur during generation.
#[derive(Debug)]
pub enum GenerateError {
    /// The tool's schema could not be fetched.
    SchemaFetch(String, SchemaError),
    /// The tool's configuration does not fit its schema.
    ValidationFailed { tool: String, errors: String },
    /// A directory could not be created.
    CreateDir(String, String),
    /// The configuration could not be written.
    WriteConfig(String, String),
    /// The configuration could not be put into its format.
    Serialize(String, String),
}

/// One way in which a value does not fit a schema: where in the value, and
/// what is wrong there.
#[derive(Debug)]
pub struct Violation {
    pub at: String,
    pub what: String,
}

/// Checks a value against a JSON schema.  Both are fit for JSON.
///
/// Trusted: calls `jsonschema::validator_for` and `Validator::iter_errors`.
/// Nothing is promised of what comes back: an error says that the schema
/// itself is none, and the list holds what the validator found, in the
/// order in which it found it.
#[verifier::external_body]
fn violations(schema: &Config, instance: &Config) -> (found: Result<Vec<Violation>, String>)
    requires
        spec_settled(schema@, Rule::ForJson),
        spec_settled(instance@, Rule::ForJson),
{
    let validator = jsonschema::validator_for(&to_json(schema)).map_err(|e| e.to_string())?;
    let instance = to_json(instance);
    Ok(
        validator.iter_errors(&instance).map(
            |e| Violation { at: e.instance_path().to_string(), what: e.to_string() },
        ).collect(),
    )
}

/// The line that reports a violation.
pub open spec fn spec_violation_line(at: Seq<char>, what: Seq<char>) -> Seq<char> {
    "  - "@ + at + ": "@ + what
}

/// The lines that report the first `n` violations, one below the other.
pub open spec fn spec_violation_lines(found: Seq<Violation>, n: nat) -> Seq<char>
    decreases n,
{
    if n == 0 || n > found.len() {
        Seq::empty()
    } else if n == 1 {
        spec_violation_line(found[0].at@, found[0].what@)
    } else {
        spec_violation_lines(found, (n - 1) as nat) + "\n"@ + spec_violation_line(
            found[n - 1].at@,
            found[n - 1].what@,
        )
    }
}

/// What a check against a schema means: nothing, if nothing was found; else
/// what is reported.
pub open spec fn spec_validation_report(found: Result<Vec<Violation>, String>) -> Option<
    Seq<char>,
> {
    match found {
        Err(cause) => Some("invalid schema: "@ + cause@),
        Ok(list) => if list@.len() == 0 {
            None
        } else {
            Some(spec_violation_lines(list@, list@.len()))
        },
    }
}

/// Says what a check of `tool`'s configuration against its schema means.
pub fn validation_outcome(tool: &str, found: Result<Vec<Violation>, String>) -> (outcome: Result<
    (),
    GenerateError,
>)
    ensures
        match outcome {
            Ok(_) => spec_validation_report(found) is None,
            Err(GenerateError::ValidationFailed { tool: t, errors }) => t@ == tool@ && Some(
                errors@,
            ) == spec_validation_report(found),
            Err(_) => false,
        },
{
    match found {
        Err(cause) => {
            let mut errors = "invalid schema: ".to_owned();
            errors.append(cause.as_str());
            Err(GenerateError::ValidationFailed { tool: tool.to_owned(), errors })
        },
        Ok(list) => {
            if list.len() == 0 {
                return Ok(());
            }
            let mut errors = String::new();
            let mut i: usize = 0;
            assert(errors@ =~= spec_violation_lines(list@, 0));
            while i < list.len()
                invariant
                    i <= list.len(),
                    errors@ == spec_violation_lines(list@, i as nat),
                decreases list.len() - i,
            {
                let ghost before = errors@;
                if i > 0 {
                    errors.append("\n");
                }
                errors.append("  - ");
                errors.append(list[i].at.as_str());
                errors.append(": ");
                errors.append(list[i].what.as_str());
                proof {
                    let line = spec_violation_line(list@[i as int].at@, list@[i as int].what@);
                    if i == 0 {
                        assert(before =~= Seq::<char>::empty());
                        assert(errors@ =~= line);
                    } else {
                        assert(errors@ =~= before + "\n"@ + line);
                    }
                }
                i += 1;
            }
            Err(GenerateError::ValidationFailed { tool: tool.to_owned(), errors })
        },
    }
}

/// Validate config against schema, both made fit for JSON.
pub fn validate_config(tool: &str, config: &Config, schema: &ToolSchema) -> (outcome: Result<
    (),
    GenerateError,
>)
    ensures
        match outcome {
            Ok(_) => true,
            Err(GenerateError::ValidationFailed { tool: t, .. }) => t@ == tool@,
            Err(_) => false,
        },
{
    validation_outcome(tool, violations(&toml_to_json(&schema.schema), &toml_to_json(config)))
}

/// What a configuration is written as in a format: the TOML document of
/// its table, or what it says as JSON or YAML once it is made fit for
/// JSON.  A configuration that is no table is no TOML document.
pub open spec fn spec_serialized(config: ConfigView, format: ConfigFormat) -> Result<
    Seq<char>,
    Seq<char>,
> {
    match format {
        ConfigFormat::Toml => match config {
            ConfigView::Table(fields) => toml_text(spec_fit_for_toml(fields)),
            _ => Err("the configuration is no table"@),
        },
        ConfigFormat::Json => json_text(spec_toml_to_json(config)),
        ConfigFormat::Yaml => yaml_text(spec_toml_to_json(config)),
    }
}

/// Serialize config to string in the specified format.
pub fn serialize_config(tool: &str, config: &Config, format: ConfigFormat) -> (text: Result<
    String,
    GenerateError,
>)
    ensures
        match text {
            Ok(t) => spec_serialized(config@, format) == Ok::<Seq<char>, Seq<char>>(t@),
            Err(GenerateError::Serialize(t, cause)) => t@ == tool@ && spec_serialized(
                config@,
                format,
            ) == Err::<Seq<char>, Seq<char>>(cause@),
            Err(_) => false,
        },
{
    let written = match format {
        ConfigFormat::Toml => match config {
            Config::Table(fields) => to_document(fields),
            _ => Err("the configuration is no table".to_owned()),
        },
        ConfigFormat::Json => to_json_text(config),
        ConfigFormat::Yaml => to_yaml_text(config),
    };
    match written {
        Ok(text) => Ok(text),
        Err(cause) => Err(GenerateError::Serialize(tool.to_owned(), cause)),
    }
}

/// A tool's configuration, made ready to be written.
#[derive(Debug)]
pub struct Prepared {
    /// Where it is written.
    pub path: String,
    /// What is written.
    pub content: String,
    /// In which format.
    pub format: ConfigFormat,
}

/// Makes a tool's configuration ready to be written: the variables are
/// expanded, the outcome is checked against the tool's schema, and what
/// passes is put into the schema's format, for the schema's path below
/// `base_dir`.
pub fn prepare_config(
    tool: &str,
    config: &Config,
    vars: &StrMap<String>,
    schema: &ToolSchema,
    base_dir: &str,
) -> (prepared: Result<Prepared, GenerateError>)
    ensures
        match prepared {
            Ok(p) => p.path@ == spec_path_join(base_dir@, schema.config_path@) && p.format
                == schema.format && spec_serialized(
                spec_expand(config@, vars.keys(), vars@),
                schema.format,
            ) == Ok::<Seq<char>, Seq<char>>(p.content@),
            Err(GenerateError::ValidationFailed { tool: t, .. }) => t@ == tool@,
            Err(GenerateError::Serialize(t, cause)) => t@ == tool@ && spec_serialized(
                spec_expand(config@, vars.keys(), vars@),
                schema.format,
            ) == Err::<Seq<char>, Seq<char>>(cause@),
            Err(_) => false,
        },
{
    let expanded = expand_variables(config, vars);
    match validate_config(tool, &expanded, schema) {
        Ok(_) => {},
        Err(e) => {
            return Err(e);
        },
    }
    let content = match serialize_config(tool, &expanded, schema.format) {
        Ok(content) => content,
        Err(e) => {
            return Err(e);
        },
    };
    Ok(
        Prepared {
            path: path_join(base_dir, schema.config_path.as_str()),
            content,
            format: schema.format,
        },
    )
}

/// What an error says, in words.
pub open spec fn spec_message(e: GenerateError) -> Seq<char> {
    match e {
        GenerateError::SchemaFetch(tool, cause) => "failed to fetch schema for '"@
            + tool@
            + "': "@
            + crate::schema::spec_message(cause),
        GenerateError::ValidationFailed { tool, errors } => "tool '"@
            + tool@
            + "' config is invalid:\n"@
            + errors@,
        GenerateError::CreateDir(tool, cause) => "failed to create directory for '"@
            + tool@
            + "': "@
            + cause@,
        GenerateError::WriteConfig(tool, cause) => "failed to write config for '"@
            + tool@
            + "': "@
            + cause@,
        GenerateError::Serialize(tool, cause) => "failed to serialize config for '"@
            + tool@
            + "': "@
            + cause@,
    }
}

impl GenerateError {
    /// What the error says, in words.
    pub fn message(&self) -> (text: String)
        ensures
            text@ == spec_message(*self),
    {
        match self {
            GenerateError::SchemaFetch(tool, cause) => {
                let mut text = "failed to fetch schema for '".to_owned();
                text.append(tool.as_str());
                text.append("': ");
                text.append(cause.message().as_str());
                text
            },
            GenerateError::ValidationFailed { tool, errors } => {
                let mut text = "tool '".to_owned();
                text.append(tool.as_str());
                text.append("' config is invalid:\n");
                text.append(errors.as_str());
                text
            },
            GenerateError::CreateDir(tool, cause) => {
                let mut text = "failed to create directory for '".to_owned();
                text.append(tool.as_str());
                text.append("': ");
                text.append(cause.as_str());
                text
            },
            GenerateError::WriteConfig(tool, cause) => {
                let mut text = "failed to write config for '".to_owned();
                text.append(tool.as_str());
                text.append("': ");
                text.append(cause.as_str());
                text
            },
            GenerateError::Serialize(tool, cause) => {
                let mut text = "failed to serialize config for '".to_owned();
                text.append(tool.as_str());
                text.append("': ");
                text.append(cause.as_str());
                text
            },
        }
    }
}

} // verus!
