//! User configuration: where tools are installed from.

use vstd::prelude::*;
use crate::text::{join, spec_join, str_eq};
use crate::userdirs;
use crate::value::{
    fields_view, get, spec_get, toml_document, Config, ConfigView, Field, FieldView,
};

verus! {

/// Where to install tools from.
#[derive(Debug, Clone, Copy, PartialEq, Eq, Structural)]
pub enum ToolSource {
    /// Always use system package manager.
    System,
    /// Always use local store.
    Store,
    /// Prefer system, fall back to store.
    PreferSystem,
    /// Prefer store, fall back to system.
    PreferStore,
}

/// Tool installation preferences.
#[derive(Debug, Clone, Copy, PartialEq, Eq, Structural)]
pub struct ToolsConfig {
    /// Default source for tool installation.
    pub source: ToolSource,
}

/// User configuration.
#[derive(Debug, Clone, Copy, PartialEq, Eq, Structural)]
pub struct UserConfig {
    /// Tool installation preferences.
    pub tools: ToolsConfig,
}

impl Default for ToolSource {
    fn default() -> (source: ToolSource)
        ensures
            source == ToolSource::PreferSystem,
    {
        ToolSource::PreferSystem
    }
}

impl Default for ToolsConfig {
    fn default() -> (tools: ToolsConfig)
        ensures
            tools.source == ToolSource::PreferSystem,
    {
        ToolsConfig { source: ToolSource::PreferSystem }
    }
}

impl Default for UserConfig {
    fn default() -> (config: UserConfig)
        ensures
            config.tools.source == ToolSource::PreferSystem,
    {
        UserConfig { tools: ToolsConfig { source: ToolSource::PreferSystem } }
    }
}

/// Where the configuration lies in a configuration directory.
pub open spec fn spec_config_path(config_dir: Seq<char>) -> Seq<char> {
    spec_join(spec_join(config_dir, "nursery"@), "config.toml"@)
}

/// The source that a word of the configuration names.
pub open spec fn spec_parse_tool_source(s: Seq<char>) -> Option<ToolSource> {
    if s == "system"@ {
        Some(ToolSource::System)
    } else if s == "store"@ {
        Some(ToolSource::Store)
    } else if s == "prefer-system"@ {
        Some(ToolSource::PreferSystem)
    } else if s == "prefer-store"@ {
        Some(ToolSource::PreferStore)
    } else {
        None
    }
}

/// The word by which the configuration names a source.
pub open spec fn spec_tool_source_name(source: ToolSource) -> Seq<char> {
    match source {
        ToolSource::System => "system"@,
        ToolSource::Store => "store"@,
        ToolSource::PreferSystem => "prefer-system"@,
        ToolSource::PreferStore => "prefer-store"@,
    }
}

/// Reads a source from the word that names it.
pub fn parse_tool_source(s: &str) -> (source: Option<ToolSource>)
    ensures
        source == spec_parse_tool_source(s@),
{
    if str_eq(s, "system") {
        Some(ToolSource::System)
    } else if str_eq(s, "store") {
        Some(ToolSource::Store)
    } else if str_eq(s, "prefer-system") {
        Some(ToolSource::PreferSystem)
    } else if str_eq(s, "prefer-store") {
        Some(ToolSource::PreferStore)
    } else {
        None
    }
}

impl ToolSource {
    /// The word by which the configuration names this source.
    pub fn name(&self) -> (name: &'static str)
        ensures
            name@ == spec_tool_source_name(*self),
    {
        match self {
            ToolSource::System => "system",
            ToolSource::Store => "store",
            ToolSource::PreferSystem => "prefer-system",
            ToolSource::PreferStore => "prefer-store",
        }
    }
}

/// A source is read back from its name.
pub proof fn law_tool_source_round_trip(source: ToolSource)
    ensures
        spec_parse_tool_source(spec_tool_source_name(source)) == Some(source),
{
    reveal_strlit("system");
    reveal_strlit("store");
    reveal_strlit("prefer-system");
    reveal_strlit("prefer-store");
    assert("system"@.len() == 6 && "store"@.len() == 5 && "prefer-system"@.len() == 13
        && "prefer-store"@.len() == 12);
}

impl UserConfig {
    /// The configuration that was loaded, or the default one if none was.
    pub fn load(loaded: Option<UserConfig>) -> (config: UserConfig)
        ensures
            config == match loaded {
                Some(c) => c,
                None => UserConfig { tools: ToolsConfig { source: ToolSource::PreferSystem } },
            },
    {
        match loaded {
            Some(config) => config,
            None => UserConfig { tools: ToolsConfig { source: ToolSource::PreferSystem } },
        }
    }

    /// The configuration that names `source`, and the default one if it
    /// names none or a source that is not known.
    pub fn from_source(source: Option<&str>) -> (config: UserConfig)
        ensures
            config.tools.source == match source {
                Some(s) => match spec_parse_tool_source(s@) {
                    Some(found) => found,
                    None => ToolSource::PreferSystem,
                },
                None => ToolSource::PreferSystem,
            },
    {
        let chosen = match source {
            Some(s) => match parse_tool_source(s) {
                Some(found) => found,
                None => ToolSource::PreferSystem,
            },
            None => ToolSource::PreferSystem,
        };
        UserConfig { tools: ToolsConfig { source: chosen } }
    }

    /// Where the configuration lies in the user's configuration directory.
    pub fn path_in(config_dir: &str) -> (path: String)
        ensures
            path@ == spec_config_path(config_dir@),
    {
        join(join(config_dir, "nursery").as_str(), "config.toml")
    }

    /// Where the configuration lies, given the user's configuration
    /// directory as the platform reports it: in that directory, and nowhere
    /// if the platform has none.
    pub fn default_path_in(config_dir: Option<String>) -> (path: Option<String>)
        ensures
            path is Some == config_dir is Some,
            path matches Some(p) ==> p@ == spec_config_path(config_dir.unwrap()@),
    {
        match config_dir {
            Some(dir) => Some(UserConfig::path_in(dir.as_str())),
            None => None,
        }
    }

    /// Get the default config path, if the platform has a place for it: in
    /// the user's configuration directory, whichever that is.
    pub fn default_path() -> (path: Option<String>)
        ensures
            path matches Some(p) ==> exists|dir: Seq<char>|
                p@ == #[trigger] spec_config_path(dir),
    {
        let config_dir = userdirs::config_dir();
        let ghost reported = config_dir;
        let path = UserConfig::default_path_in(config_dir);
        proof {
            if path is Some {
                assert(path->Some_0@ == spec_config_path(reported->Some_0@));
            }
        }
        path
    }
}

/// The source that a section's `source` names: the default if there is
/// none, and no sense if it is no string or names no source.
pub open spec fn spec_source_of(section: Seq<FieldView>) -> Option<ToolSource> {
    match spec_get(section, "source"@) {
        None => Some(ToolSource::PreferSystem),
        Some(ConfigView::String(s)) => spec_parse_tool_source(s),
        Some(_) => None,
    }
}

/// The configuration that the fields of a document describe: the default
/// one if there is no `[tools]` section, and none if that is no table or
/// makes no sense.
pub open spec fn spec_user_config(fields: Seq<FieldView>) -> Option<UserConfig> {
    match spec_get(fields, "tools"@) {
        None => Some(UserConfig { tools: ToolsConfig { source: ToolSource::PreferSystem } }),
        Some(ConfigView::Table(section)) => match spec_source_of(section) {
            Some(source) => Some(UserConfig { tools: ToolsConfig { source } }),
            None => None,
        },
        Some(_) => None,
    }
}

impl UserConfig {
    /// Reads the configuration from the fields of a document.
    pub fn from_fields(fields: &Vec<Field>) -> (config: Option<UserConfig>)
        ensures
            config == spec_user_config(fields_view(fields@)),
    {
        match get(fields, "tools") {
            None => Some(UserConfig { tools: ToolsConfig { source: ToolSource::PreferSystem } }),
            Some(Config::Table(section)) => {
                let source = match get(section, "source") {
                    None => Some(ToolSource::PreferSystem),
                    Some(Config::String(s)) => parse_tool_source(s.as_str()),
                    Some(_) => None,
                };
                match source {
                    Some(source) => Some(UserConfig { tools: ToolsConfig { source } }),
                    None => None,
                }
            },
            Some(_) => None,
        }
    }

    /// Reads the configuration from a TOML string.
    pub fn parse(text: &str) -> (config: Option<UserConfig>)
        ensures
            config == match toml_document(text@) {
                Ok(ConfigView::Table(fields)) => spec_user_config(fields),
                _ => None,
            },
    {
        match Config::parse(text) {
            Ok(Config::Table(fields)) => UserConfig::from_fields(&fields),
            _ => None,
        }
    }
}

} // verus!
