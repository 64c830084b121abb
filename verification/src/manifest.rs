//! The parts of a project manifest that name tools and where they come
//! from.

use vstd::prelude::*;
use crate::config::{parse_tool_source, spec_parse_tool_source, ToolSource};
use crate::ecosystem::{spec_from_id, Ecosystem};
use crate::strmap::StrMap;
use crate::text::{opt_view, push_char, str_eq, strs, to_chars};
use crate::value::spec_fit_for_toml;
use crate::value::{
    fields_view, get, get_str, lemma_fields, lemma_values, spec_as_str, spec_as_table, spec_decimal,
    spec_get, spec_lookup, spec_values, to_decimal, to_document, toml_document, toml_text,
    written_view, Config, ConfigView, Field, FieldView,
};

verus! {

/// Project metadata from the `[project]` section.
#[derive(Debug)]
pub struct Project {
    /// Project name.
    pub name: String,
    /// Project version.
    pub version: String,
}

/// A tool dependency specification.
pub struct ToolDep {
    /// Version constraint (e.g., ">=14", "*", "=1.7").
    pub version: String,
    /// Whether this tool is optional.
    pub optional: bool,
    /// Override source for this tool.
    pub source: Option<ToolSource>,
    /// Ecosystem-specific package name overrides.
    pub overrides: StrMap<String>,
}

/// What the contracts say of a [`ToolDep`].
pub struct ToolDepView {
    pub version: Seq<char>,
    pub optional: bool,
    pub source: Option<ToolSource>,
    pub overrides: Map<Seq<char>, Seq<char>>,
}

impl View for ToolDep {
    type V = ToolDepView;

    open spec fn view(&self) -> ToolDepView {
        ToolDepView {
            version: self.version@,
            optional: self.optional,
            source: self.source,
            overrides: self.overrides@,
        }
    }
}

/// The overrides among the string entries of a dependency's table: those
/// whose key names an ecosystem.
pub open spec fn spec_overrides(strings: Map<Seq<char>, Seq<char>>) -> Map<Seq<char>, Seq<char>> {
    Map::new(
        |k: Seq<char>| strings.contains_key(k) && spec_from_id(k) is Some,
        |k: Seq<char>| strings[k],
    )
}

/// The source that a dependency names, if it names one that is known.
pub open spec fn spec_named_source(source: Option<&str>) -> Option<ToolSource> {
    match source {
        Some(s) => spec_parse_tool_source(s@),
        None => None,
    }
}

impl ToolDep {
    /// The dependency that a bare version constraint stands for.
    pub fn simple(version: &str) -> (dep: ToolDep)
        ensures
            dep.version@ == version@,
            !dep.optional,
            dep.source is None,
            dep.overrides@ == Map::<Seq<char>, Seq<char>>::empty(),
    {
        ToolDep {
            version: version.to_owned(),
            optional: false,
            source: None,
            overrides: StrMap::new(),
        }
    }

    /// The dependency that a table stands for, given its `version`,
    /// `optional` and `source` entries and all its entries that are strings.
    /// A table without a version is no dependency.
    pub fn from_table(
        version: Option<&str>,
        optional: Option<bool>,
        source: Option<&str>,
        strings: &StrMap<String>,
    ) -> (dep: Option<ToolDep>)
        ensures
            dep is Some == version is Some,
            dep matches Some(d) ==> {
                &&& d.version@ == version.unwrap()@
                &&& d.optional == (optional == Some(true))
                &&& d.source == spec_named_source(source)
                &&& d.overrides@ == spec_overrides(strings@)
            },
    {
        let version = match version {
            Some(v) => v,
            None => {
                return None;
            },
        };
        let optional = match optional {
            Some(o) => o,
            None => false,
        };
        let source = match source {
            Some(s) => parse_tool_source(s),
            None => None,
        };
        let mut overrides: StrMap<String> = StrMap::new();
        let n = strings.len();
        let ghost keys = strings.keys();
        let mut i: usize = 0;
        assert(overrides@ =~= Map::new(
            |k: Seq<char>| keys.subrange(0, 0).contains(k) && spec_from_id(k) is Some,
            |k: Seq<char>| strings@[k],
        ));
        while i < n
            invariant
                i <= n,
                n == keys.len(),
                keys == strings.keys(),
                overrides@ == Map::new(
                    |k: Seq<char>| keys.subrange(0, i as int).contains(k) && spec_from_id(k) is Some,
                    |k: Seq<char>| strings@[k],
                ),
            decreases n - i,
        {
            let key = strings.key_at(i);
            proof {
                let upto = keys.subrange(0, i as int + 1);
                assert(upto =~= keys.subrange(0, i as int).push(keys[i as int]));
                assert forall|m: Seq<char>|
                    upto.contains(m) <==> (keys.subrange(0, i as int).contains(m) || m
                        == keys[i as int]) by {
                    crate::text::lemma_contains_push(
                        keys.subrange(0, i as int),
                        keys[i as int],
                        m,
                    );
                }
            }
            if Ecosystem::from_id(key.as_str()).is_some() {
                overrides.insert(key.clone(), strings.value_at(i).clone());
            }
            assert(overrides@ =~= Map::new(
                |k: Seq<char>|
                    keys.subrange(0, i as int + 1).contains(k) && spec_from_id(k) is Some,
                |k: Seq<char>| strings@[k],
            ));
            i += 1;
        }
        proof {
            assert(keys.subrange(0, n as int) =~= keys);
            assert(overrides@ =~= spec_overrides(strings@));
        }
        Some(ToolDep { version: version.to_owned(), optional, source, overrides })
    }

    /// Get the package name for a given ecosystem, using override if present.
    pub fn package_name(&self, ecosystem: &str, default: &str) -> (name: String)
        ensures
            name@ == if self.overrides@.contains_key(ecosystem@) {
                self.overrides@[ecosystem@]
            } else {
                default@
            },
    {
        match self.overrides.get(ecosystem) {
            Some(name) => name.clone(),
            None => default.to_owned(),
        }
    }
}

/// Where the first `=` of `text` stands, from `from` on; the length of
/// `text` if there is none.
pub open spec fn spec_find_equals(text: Seq<char>, from: int) -> int
    decreases text.len() - from,
{
    if from >= text.len() {
        text.len() as int
    } else if text[from] == '=' {
        from
    } else {
        spec_find_equals(text, from + 1)
    }
}

/// Splits `KEY=VALUE` at its first `=`.  Without one, there is nothing to
/// split.
pub fn parse_var(s: &str) -> (parsed: Result<(String, String), String>)
    ensures
        match parsed {
            Ok((key, value)) => {
                let at = spec_find_equals(s@, 0);
                at < s@.len() && key@ == s@.subrange(0, at) && value@ == s@.subrange(
                    at + 1,
                    s@.len() as int,
                )
            },
            Err(message) => spec_find_equals(s@, 0) == s@.len() && message@
                == "invalid KEY=VALUE: no '=' found in '"@ + s@ + "'"@,
        },
{
    let chars = to_chars(s);
    let mut at: usize = 0;
    while at < chars.len() && chars[at] != '='
        invariant
            at <= chars.len(),
            spec_find_equals(chars@, 0) == spec_find_equals(chars@, at as int),
        decreases chars.len() - at,
    {
        at += 1;
    }
    if at == chars.len() {
        let mut message = "invalid KEY=VALUE: no '=' found in '".to_owned();
        message.append(s);
        message.append("'");
        return Err(message);
    }
    let mut key = String::new();
    let mut i: usize = 0;
    assert(key@ =~= chars@.subrange(0, 0));
    while i < at
        invariant
            i <= at,
            at < chars.len(),
            key@ == chars@.subrange(0, i as int),
        decreases at - i,
    {
        push_char(&mut key, chars[i]);
        assert(key@ =~= chars@.subrange(0, i as int + 1));
        i += 1;
    }
    let mut value = String::new();
    let mut j: usize = at + 1;
    assert(value@ =~= chars@.subrange(at + 1, j as int));
    while j < chars.len()
        invariant
            at < j <= chars.len(),
            value@ == chars@.subrange(at + 1, j as int),
        decreases chars.len() - j,
    {
        push_char(&mut value, chars[j]);
        assert(value@ =~= chars@.subrange(at + 1, j as int + 1));
        j += 1;
    }
    Ok((key, value))
}

/// The fields among the first `n` whose value is a string, by key.
pub open spec fn spec_strings(fields: Seq<FieldView>, n: nat) -> Map<Seq<char>, Seq<char>> {
    Map::new(
        |k: Seq<char>| spec_as_str(spec_lookup(fields, n, k)) is Some,
        |k: Seq<char>| spec_as_str(spec_lookup(fields, n, k)).unwrap(),
    )
}

/// The dependency that a value stands for: a string is a bare version
/// constraint; a table needs a `version` that is a string, and may say
/// whether the tool is `optional`, name a `source`, and override the
/// package's name for some ecosystems.  Any other value is no dependency.
pub open spec fn spec_tool_dep(value: ConfigView) -> Option<ToolDepView> {
    match value {
        ConfigView::String(version) => Some(
            ToolDepView { version, optional: false, source: None, overrides: Map::empty() },
        ),
        ConfigView::Table(fields) => match spec_as_str(spec_get(fields, "version"@)) {
            Some(version) => Some(
                ToolDepView {
                    version,
                    optional: spec_get(fields, "optional"@) == Some(ConfigView::Boolean(true)),
                    source: match spec_as_str(spec_get(fields, "source"@)) {
                        Some(s) => spec_parse_tool_source(s),
                        None => None,
                    },
                    overrides: spec_overrides(spec_strings(fields, fields.len())),
                },
            ),
            None => None,
        },
        _ => None,
    }
}

/// Whether a key of the `[tools]` section is no tool: `ecosystems` and
/// `source` are settings of the section.
pub open spec fn spec_is_setting(key: Seq<char>) -> bool {
    key == "ecosystems"@ || key == "source"@
}

/// The dependencies among the first `n` fields of a section, by tool.  In
/// the `[tools]` section the settings are left out.
pub open spec fn spec_deps(fields: Seq<FieldView>, n: nat, tools: bool) -> Map<
    Seq<char>,
    ToolDepView,
> {
    Map::new(
        |k: Seq<char>|
            !(tools && spec_is_setting(k)) && spec_lookup(fields, n, k) is Some && spec_tool_dep(
                spec_lookup(fields, n, k).unwrap(),
            ) is Some,
        |k: Seq<char>| spec_tool_dep(spec_lookup(fields, n, k).unwrap()).unwrap(),
    )
}

/// Whether a key of the manifest names a section of its own, and so no
/// tool's configuration.
pub open spec fn spec_is_section(key: Seq<char>) -> bool {
    key == "project"@ || key == "variables"@ || key == "tools"@ || key == "dev-tools"@ || key
        == "build-deps"@
}

/// The values among the first `n` fields, by key.  Of the manifest itself
/// only the keys that name no section count.
pub open spec fn spec_values_by_key(fields: Seq<FieldView>, n: nat, top: bool) -> Map<
    Seq<char>,
    ConfigView,
> {
    Map::new(
        |k: Seq<char>| !(top && spec_is_section(k)) && spec_lookup(fields, n, k) is Some,
        |k: Seq<char>| spec_lookup(fields, n, k).unwrap(),
    )
}

/// The strings among the first `n` values of a list, in order.
pub open spec fn spec_strings_of(values: Seq<ConfigView>, n: nat) -> Seq<Seq<char>>
    decreases n,
{
    if n == 0 || n > values.len() {
        Seq::empty()
    } else {
        match values[n - 1] {
            ConfigView::String(s) => spec_strings_of(values, (n - 1) as nat).push(s),
            _ => spec_strings_of(values, (n - 1) as nat),
        }
    }
}

/// The ecosystems that the `[tools]` section lists: the strings of its
/// `ecosystems`, if that is a list.
pub open spec fn spec_listed_ecosystems(tools: Seq<FieldView>) -> Option<Seq<Seq<char>>> {
    match spec_get(tools, "ecosystems"@) {
        Some(ConfigView::Array(values)) => Some(spec_strings_of(values, values.len())),
        _ => None,
    }
}

/// The project that a `[project]` section describes: it needs a `name`
/// and a `version`, both strings.
pub open spec fn spec_project(value: ConfigView) -> Option<(Seq<char>, Seq<char>)> {
    match value {
        ConfigView::Table(fields) => match (
            spec_as_str(spec_get(fields, "name"@)),
            spec_as_str(spec_get(fields, "version"@)),
        ) {
            (Some(name), Some(version)) => Some((name, version)),
            _ => None,
        },
        _ => None,
    }
}

/// A parsed manifest.
pub struct Manifest {
    /// Project metadata.
    pub project: Project,
    /// Shared variables for templating.
    pub variables: StrMap<Config>,
    /// Tool dependencies from `[tools]` section.
    pub tool_deps: StrMap<ToolDep>,
    /// Dev tool dependencies from `[dev-tools]` section.
    pub dev_tool_deps: StrMap<ToolDep>,
    /// Build dependencies from `[build-deps]` section (libraries, headers).
    pub build_deps: StrMap<ToolDep>,
    /// Default tool source for this project.
    pub tool_source: Option<ToolSource>,
    /// Ecosystems to include in lockfile (optional).
    pub ecosystems: Option<Vec<String>>,
    /// Tool configurations (e.g., `[siphon]`, `[dew]`).
    pub tool_configs: StrMap<Config>,
}

/// What the contracts say of a [`Manifest`].
pub struct ManifestView {
    pub name: Seq<char>,
    pub version: Seq<char>,
    pub variables: Map<Seq<char>, ConfigView>,
    pub tool_deps: Map<Seq<char>, ToolDepView>,
    pub dev_tool_deps: Map<Seq<char>, ToolDepView>,
    pub build_deps: Map<Seq<char>, ToolDepView>,
    pub tool_source: Option<ToolSource>,
    pub ecosystems: Option<Seq<Seq<char>>>,
    pub tool_configs: Map<Seq<char>, ConfigView>,
}

impl View for Manifest {
    type V = ManifestView;

    open spec fn view(&self) -> ManifestView {
        ManifestView {
            name: self.project.name@,
            version: self.project.version@,
            variables: self.variables@,
            tool_deps: self.tool_deps@,
            dev_tool_deps: self.dev_tool_deps@,
            build_deps: self.build_deps@,
            tool_source: self.tool_source,
            ecosystems: match self.ecosystems {
                Some(list) => Some(strs(list@)),
                None => None,
            },
            tool_configs: self.tool_configs@,
        }
    }
}

/// Errors that can occur when loading a manifest.
#[derive(Debug)]
pub enum ManifestError {
    /// The manifest could not be read.
    Io(String),
    /// The manifest is not what a manifest looks like.
    Parse(String),
    /// The manifest has no `[project]` section.
    MissingProject,
}

/// The manifest that the fields of a document describe, given its project.
pub open spec fn spec_manifest(fields: Seq<FieldView>, project: (Seq<char>, Seq<char>)) -> ManifestView {
    let tools = spec_as_table(spec_get(fields, "tools"@));
    ManifestView {
        name: project.0,
        version: project.1,
        variables: spec_values_by_key(
            spec_as_table(spec_get(fields, "variables"@)),
            spec_as_table(spec_get(fields, "variables"@)).len(),
            false,
        ),
        tool_deps: spec_deps(tools, tools.len(), true),
        dev_tool_deps: spec_deps(
            spec_as_table(spec_get(fields, "dev-tools"@)),
            spec_as_table(spec_get(fields, "dev-tools"@)).len(),
            false,
        ),
        build_deps: spec_deps(
            spec_as_table(spec_get(fields, "build-deps"@)),
            spec_as_table(spec_get(fields, "build-deps"@)).len(),
            false,
        ),
        tool_source: match spec_as_str(spec_get(tools, "source"@)) {
            Some(s) => spec_parse_tool_source(s),
            None => None,
        },
        ecosystems: spec_listed_ecosystems(tools),
        tool_configs: spec_values_by_key(fields, fields.len(), true),
    }
}

/// What loading a manifest from the fields of a document gives.
pub enum Loaded {
    /// The manifest.
    Manifest(ManifestView),
    /// There is no `[project]` section.
    MissingProject,
    /// The `[project]` section is not what one looks like.
    BadProject,
}

/// What loading a manifest from the fields of a document gives.
pub open spec fn spec_load(fields: Seq<FieldView>) -> Loaded {
    match spec_get(fields, "project"@) {
        None => Loaded::MissingProject,
        Some(section) => match spec_project(section) {
            None => Loaded::BadProject,
            Some(project) => Loaded::Manifest(spec_manifest(fields, project)),
        },
    }
}

fn is_setting(key: &str) -> (setting: bool)
    ensures
        setting == spec_is_setting(key@),
{
    str_eq(key, "ecosystems") || str_eq(key, "source")
}

fn is_section(key: &str) -> (section: bool)
    ensures
        section == spec_is_section(key@),
{
    str_eq(key, "project") || str_eq(key, "variables") || str_eq(key, "tools") || str_eq(
        key,
        "dev-tools",
    ) || str_eq(key, "build-deps")
}

/// The fields of a value that is a table; none for any other value.
fn as_table(value: Option<&Config>) -> (fields: Vec<Field>)
    ensures
        fields_view(fields@) == spec_as_table(
            match value {
                Some(v) => Some(v@),
                None => None,
            },
        ),
{
    match value {
        Some(Config::Table(fields)) => {
            let mut out: Vec<Field> = Vec::new();
            let mut i: usize = 0;
            while i < fields.len()
                invariant
                    i <= fields.len(),
                    out@.len() == i,
                    forall|k: int| 0 <= k < i ==> (#[trigger] out@[k])@ == fields@[k]@,
                decreases fields.len() - i,
            {
                out.push(Field { key: fields[i].key.clone(), value: fields[i].value.copy() });
                i += 1;
            }
            proof {
                lemma_fields(fields@, fields@.len());
                lemma_fields(out@, out@.len());
                assert(fields_view(out@) =~= fields_view(fields@));
            }
            out
        },
        _ => {
            let out: Vec<Field> = Vec::new();
            out
        },
    }
}

/// The string-valued fields of a table, by key.
fn strings_of(fields: &Vec<Field>) -> (strings: StrMap<String>)
    ensures
        strings@ == spec_strings(fields_view(fields@), fields_view(fields@).len()),
{
    let ghost views = fields_view(fields@);
    proof {
        lemma_fields(fields@, fields@.len());
    }
    let mut strings: StrMap<String> = StrMap::new();
    let mut i: usize = 0;
    assert(strings@ =~= spec_strings(views, 0));
    while i < fields.len()
        invariant
            i <= fields.len(),
            views == fields_view(fields@),
            views.len() == fields@.len(),
            forall|k: int| 0 <= k < views.len() ==> #[trigger] views[k] == fields@[k]@,
            strings@ == spec_strings(views, i as nat),
        decreases fields.len() - i,
    {
        let field = &fields[i];
        assert(views[i as int] == field@);
        match &field.value {
            Config::String(s) => {
                strings.insert(field.key.clone(), s.clone());
            },
            _ => {
                strings.remove(field.key.as_str());
            },
        }
        assert(strings@ =~= spec_strings(views, (i + 1) as nat));
        i += 1;
    }
    strings
}

/// The dependencies of a section, by tool.
fn deps_of(fields: &Vec<Field>, tools: bool) -> (deps: StrMap<ToolDep>)
    ensures
        deps@ == spec_deps(fields_view(fields@), fields_view(fields@).len(), tools),
{
    let ghost views = fields_view(fields@);
    proof {
        lemma_fields(fields@, fields@.len());
    }
    let mut deps: StrMap<ToolDep> = StrMap::new();
    let mut i: usize = 0;
    assert(deps@ =~= spec_deps(views, 0, tools));
    while i < fields.len()
        invariant
            i <= fields.len(),
            views == fields_view(fields@),
            views.len() == fields@.len(),
            forall|k: int| 0 <= k < views.len() ==> #[trigger] views[k] == fields@[k]@,
            deps@ == spec_deps(views, i as nat, tools),
        decreases fields.len() - i,
    {
        let field = &fields[i];
        assert(views[i as int] == field@);
        if !(tools && is_setting(field.key.as_str())) {
            match ToolDep::from_toml(&field.value) {
                Some(dep) => {
                    deps.insert(field.key.clone(), dep);
                },
                None => {
                    deps.remove(field.key.as_str());
                },
            }
        }
        assert(deps@ =~= spec_deps(views, (i + 1) as nat, tools));
        i += 1;
    }
    deps
}

/// The values of a table, by key.
fn values_of(fields: &Vec<Field>, top: bool) -> (values: StrMap<Config>)
    ensures
        values@ == spec_values_by_key(fields_view(fields@), fields_view(fields@).len(), top),
{
    let ghost views = fields_view(fields@);
    proof {
        lemma_fields(fields@, fields@.len());
    }
    let mut values: StrMap<Config> = StrMap::new();
    let mut i: usize = 0;
    assert(values@ =~= spec_values_by_key(views, 0, top));
    while i < fields.len()
        invariant
            i <= fields.len(),
            views == fields_view(fields@),
            views.len() == fields@.len(),
            forall|k: int| 0 <= k < views.len() ==> #[trigger] views[k] == fields@[k]@,
            values@ == spec_values_by_key(views, i as nat, top),
        decreases fields.len() - i,
    {
        let field = &fields[i];
        assert(views[i as int] == field@);
        if !(top && is_section(field.key.as_str())) {
            values.insert(field.key.clone(), field.value.copy());
        }
        assert(values@ =~= spec_values_by_key(views, (i + 1) as nat, top));
        i += 1;
    }
    values
}

/// The ecosystems that the `[tools]` section lists.
fn listed_ecosystems(tools: &Vec<Field>) -> (listed: Option<Vec<String>>)
    ensures
        match listed {
            Some(list) => spec_listed_ecosystems(fields_view(tools@)) == Some(strs(list@)),
            None => spec_listed_ecosystems(fields_view(tools@)) is None,
        },
{
    match get(tools, "ecosystems") {
        Some(Config::Array(values)) => {
            let ghost views = spec_values(values@, values@.len());
            proof {
                lemma_values(values@, values@.len());
            }
            let mut list: Vec<String> = Vec::new();
            let mut i: usize = 0;
            assert(strs(list@) =~= spec_strings_of(views, 0));
            while i < values.len()
                invariant
                    i <= values.len(),
                    views.len() == values@.len(),
                    forall|k: int| 0 <= k < views.len() ==> #[trigger] views[k] == values@[k]@,
                    strs(list@) == spec_strings_of(views, i as nat),
                decreases values.len() - i,
            {
                let ghost before = strs(list@);
                assert(views[i as int] == values@[i as int]@);
                match &values[i] {
                    Config::String(s) => {
                        list.push(s.clone());
                        assert(strs(list@) =~= before.push(s@));
                    },
                    _ => {},
                }
                i += 1;
            }
            Some(list)
        },
        _ => None,
    }
}

impl ToolDep {
    /// Parse from a value (either string or table).
    pub fn from_toml(value: &Config) -> (dep: Option<ToolDep>)
        ensures
            match dep {
                Some(d) => spec_tool_dep(value@) == Some(d@),
                None => spec_tool_dep(value@) is None,
            },
    {
        match value {
            Config::String(version) => Some(ToolDep::simple(version.as_str())),
            Config::Table(fields) => {
                let optional = match get(fields, "optional") {
                    Some(Config::Boolean(b)) => Some(*b),
                    _ => None,
                };
                let strings = strings_of(fields);
                ToolDep::from_table(
                    get_str(fields, "version"),
                    optional,
                    get_str(fields, "source"),
                    &strings,
                )
            },
            _ => None,
        }
    }
}

/// What a variable's value is as a string: a string as it is, numbers and
/// truth values as they are written.  Dates, lists and tables have none.
pub open spec fn spec_variable_text(value: ConfigView) -> Option<Seq<char>> {
    match value {
        ConfigView::String(s) => Some(s),
        ConfigView::Integer(i) => Some(spec_decimal(i as int)),
        ConfigView::Float(f) => Some(f),
        ConfigView::Boolean(b) => Some(
            if b {
                "true"@
            } else {
                "false"@
            },
        ),
        _ => None,
    }
}

impl Manifest {
    /// The `[project]` section as a project.
    fn project_of(section: &Config) -> (project: Option<Project>)
        ensures
            match project {
                Some(p) => spec_project(section@) == Some((p.name@, p.version@)),
                None => spec_project(section@) is None,
            },
    {
        match section {
            Config::Table(fields) => match (get_str(fields, "name"), get_str(fields, "version")) {
                (Some(name), Some(version)) => Some(
                    Project { name: name.to_owned(), version: version.to_owned() },
                ),
                _ => None,
            },
            _ => None,
        }
    }

    /// Reads a manifest from the fields of a document.  The `[project]`
    /// section is required; `[variables]`, `[tools]`, `[dev-tools]` and
    /// `[build-deps]` are read if they are there; every other key is the
    /// configuration of the tool of that name.
    pub fn from_fields(fields: &Vec<Field>) -> (manifest: Result<Manifest, ManifestError>)
        ensures
            match manifest {
                Ok(m) => spec_load(fields_view(fields@)) == Loaded::Manifest(m@),
                Err(ManifestError::MissingProject) => spec_load(fields_view(fields@))
                    == Loaded::MissingProject,
                Err(ManifestError::Parse(_)) => spec_load(fields_view(fields@))
                    == Loaded::BadProject,
                Err(ManifestError::Io(_)) => false,
            },
    {
        let section = match get(fields, "project") {
            Some(section) => section,
            None => {
                return Err(ManifestError::MissingProject);
            },
        };
        let project = match Manifest::project_of(section) {
            Some(project) => project,
            None => {
                return Err(
                    ManifestError::Parse(
                        "the [project] section needs a name and a version".to_owned(),
                    ),
                );
            },
        };
        let variables = as_table(get(fields, "variables"));
        let tools = as_table(get(fields, "tools"));
        let dev_tools = as_table(get(fields, "dev-tools"));
        let build_deps = as_table(get(fields, "build-deps"));
        let tool_source = match get_str(&tools, "source") {
            Some(s) => parse_tool_source(s),
            None => None,
        };
        Ok(
            Manifest {
                project,
                variables: values_of(&variables, false),
                tool_deps: deps_of(&tools, true),
                dev_tool_deps: deps_of(&dev_tools, false),
                build_deps: deps_of(&build_deps, false),
                tool_source,
                ecosystems: listed_ecosystems(&tools),
                tool_configs: values_of(fields, true),
            },
        )
    }

    /// Parse a manifest from a TOML string.
    pub fn from_str(s: &str) -> (manifest: Result<Manifest, ManifestError>)
        ensures
            match manifest {
                Ok(m) => toml_document(s@) matches Ok(ConfigView::Table(fields)) && spec_load(
                    fields,
                ) == Loaded::Manifest(m@),
                Err(ManifestError::MissingProject) => toml_document(s@) matches Ok(
                    ConfigView::Table(fields),
                ) && spec_load(fields) == Loaded::MissingProject,
                Err(ManifestError::Parse(_)) => match toml_document(s@) {
                    Ok(ConfigView::Table(fields)) => spec_load(fields) == Loaded::BadProject,
                    _ => true,
                },
                Err(ManifestError::Io(_)) => false,
            },
    {
        match Config::parse(s) {
            Ok(Config::Table(fields)) => Manifest::from_fields(&fields),
            Ok(_) => Err(ManifestError::Parse("the document is no table".to_owned())),
            Err(message) => Err(ManifestError::Parse(message)),
        }
    }

    /// Get a variable value as a string.
    pub fn get_variable(&self, name: &str) -> (text: Option<String>)
        ensures
            opt_view(text) == if self.variables@.contains_key(name@) {
                spec_variable_text(self.variables@[name@])
            } else {
                None
            },
    {
        match self.variables.get(name) {
            Some(Config::String(s)) => Some(s.clone()),
            Some(Config::Integer(i)) => Some(to_decimal(*i)),
            Some(Config::Float(f)) => Some(f.clone()),
            Some(Config::Boolean(b)) => Some(
                if *b {
                    "true".to_owned()
                } else {
                    "false".to_owned()
                },
            ),
            _ => None,
        }
    }
}

/// The `[project]` section that a manifest gets if it has none.
pub open spec fn spec_default_project() -> FieldView {
    FieldView {
        key: "project"@,
        value: ConfigView::Table(
            seq![
                FieldView { key: "name"@, value: ConfigView::String("my-project"@) },
                FieldView { key: "version"@, value: ConfigView::String("0.1.0"@) },
            ],
        ),
    }
}

/// The fields of a manifest after tool configurations were pulled into
/// it: what it held, a `[project]` section if it had none, and then each
/// tool's configuration, which stands for whatever the manifest held under
/// that tool's name.
pub open spec fn spec_merge(existing: Seq<FieldView>, pulled: Seq<FieldView>) -> Seq<FieldView> {
    if spec_get(existing, "project"@) is Some {
        existing + pulled
    } else {
        existing.push(spec_default_project()) + pulled
    }
}

/// The fields that a manifest's text holds; none if it is no document.
pub open spec fn spec_existing(text: Option<&str>) -> Seq<FieldView> {
    match text {
        Some(t) => match toml_document(t@) {
            Ok(ConfigView::Table(fields)) => fields,
            _ => Seq::empty(),
        },
        None => Seq::empty(),
    }
}

/// Merges pulled tool configurations into the fields of a manifest.
pub fn merge_fields(existing: Vec<Field>, pulled: &Vec<Field>) -> (merged: Vec<Field>)
    ensures
        fields_view(merged@) == spec_merge(fields_view(existing@), fields_view(pulled@)),
{
    let ghost before = fields_view(existing@);
    let ghost added = fields_view(pulled@);
    proof {
        lemma_fields(existing@, existing@.len());
        lemma_fields(pulled@, pulled@.len());
    }
    let mut merged = existing;
    if get(&merged, "project").is_none() {
        let mut project: Vec<Field> = Vec::new();
        project.push(Field { key: "name".to_owned(), value: Config::String("my-project".to_owned()) });
        project.push(Field { key: "version".to_owned(), value: Config::String("0.1.0".to_owned()) });
        proof {
            lemma_fields(project@, 2);
            assert(fields_view(project@) =~= spec_default_project().value->Table_0);
        }
        merged.push(Field { key: "project".to_owned(), value: Config::Table(project) });
    }
    let ghost base = merged@;
    let mut i: usize = 0;
    while i < pulled.len()
        invariant
            i <= pulled.len(),
            merged@.len() == base.len() + i,
            forall|k: int| 0 <= k < base.len() ==> #[trigger] merged@[k] == base[k],
            forall|k: int| 0 <= k < i ==> (#[trigger] merged@[base.len() + k])@ == pulled@[k]@,
        decreases pulled.len() - i,
    {
        merged.push(Field { key: pulled[i].key.clone(), value: pulled[i].value.copy() });
        i += 1;
    }
    proof {
        lemma_fields(merged@, merged@.len());
        lemma_fields(base, base.len());
        assert forall|k: int| 0 <= k < merged@.len() implies #[trigger] fields_view(merged@)[k]
            == (fields_view(base) + added)[k] by {
            if k >= base.len() {
                let j = k - base.len();
                assert(merged@[base.len() + j]@ == pulled@[j]@);
            } else {
                assert(merged@[k] == base[k]);
            }
        }
        assert(fields_view(merged@) =~= fields_view(base) + added);
        if spec_get(before, "project"@) is Some {
            assert(fields_view(base) =~= before);
        } else {
            assert(fields_view(base) =~= before.push(spec_default_project()));
        }
    }
    merged
}

/// Merge pulled configs into a manifest's text.  A manifest that is no
/// document counts as empty.
pub fn merge_to_manifest(pulled: &Vec<Field>, existing: Option<&str>) -> (merged: Result<
    String,
    String,
>)
    ensures
        written_view(merged) == toml_text(
            spec_fit_for_toml(spec_merge(spec_existing(existing), fields_view(pulled@))),
        ),
{
    let fields = match existing {
        Some(text) => match Config::parse(text) {
            Ok(Config::Table(fields)) => fields,
            _ => Vec::new(),
        },
        None => Vec::new(),
    };
    let merged = merge_fields(fields, pulled);
    to_document(&merged)
}

/// What an error says, in words.
pub open spec fn spec_message(e: ManifestError) -> Seq<char> {
    match e {
        ManifestError::Io(cause) => "failed to read manifest: "@ + cause@,
        ManifestError::Parse(cause) => "failed to parse manifest: "@ + cause@,
        ManifestError::MissingProject => "missing required [project] section"@,
    }
}

impl ManifestError {
    /// What the error says, in words.
    pub fn message(&self) -> (text: String)
        ensures
            text@ == spec_message(*self),
    {
        match self {
            ManifestError::Io(cause) => {
                let mut text = "failed to read manifest: ".to_owned();
                text.append(cause.as_str());
                text
            },
            ManifestError::Parse(cause) => {
                let mut text = "failed to parse manifest: ".to_owned();
                text.append(cause.as_str());
                text
            },
            ManifestError::MissingProject => {
                let mut text = "missing required [project] section".to_owned();
                text
            },
        }
    }
}

} // verus!
