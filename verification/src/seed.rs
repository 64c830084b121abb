//! Seeds: templates from which new projects are scaffolded.

use vstd::prelude::*;
use crate::order::{ascending_place, lemma_insert_contains, spec_ascending};
use crate::strmap::StrMap;
use crate::text::strs;
use crate::text::{join, opt_view, replace_all, spec_join, spec_replace, str_eq};
use crate::userdirs;
use crate::value::{
    fields_view, get, get_str, lemma_fields, lemma_lookup_among, spec_as_str, spec_get, spec_lookup,
    toml_document, Config, ConfigView, Field, FieldView,
};

verus! {

/// The manifest of a project made from scratch.
pub const CREATION_MANIFEST: &'static str =
    "[project]\nname = \"{{name}}\"\nversion = \"{{version}}\"\n\n[lotus]\ntarget = \"web-wasm\"\nport = 8080\n";

/// The manifest of a project that lifts a legacy game.
pub const ARCHAEOLOGY_MANIFEST: &'static str =
    "[project]\nname = \"{{name}}\"\nversion = \"{{version}}\"\n\n[siphon]\nsource = \"./dump/game.exe\"\nstrategy = \"gms2\"\nassets = \"./assets/raw\"\n\n[dew]\npipeline = \"src/pipelines/assets.dew\"\n\n[lotus]\ntarget = \"web-wasm\"\nport = 8080\n";

/// The manifest of a project that tries the whole ecosystem.
pub const LAB_MANIFEST: &'static str =
    "[project]\nname = \"{{name}}\"\nversion = \"{{version}}\"\n\n[siphon]\nsource = \"./dump/game.exe\"\nstrategy = \"gms2\"\nassets = \"./assets/raw\"\n\n[dew]\npipeline = \"src/pipelines/assets.dew\"\n\n[resin]\nassets = \"./assets/generated\"\n\n[lotus]\ntarget = \"web-wasm\"\nport = 8080\n";

/// One file of a seed: its path below the project, and its contents.
#[derive(Debug)]
pub struct SeedFile {
    pub path: String,
    pub contents: String,
}

/// What the contracts say of a [`SeedFile`].
pub struct SeedFileView {
    pub path: Seq<char>,
    pub contents: Seq<char>,
}

impl View for SeedFile {
    type V = SeedFileView;

    open spec fn view(&self) -> SeedFileView {
        SeedFileView { path: self.path@, contents: self.contents@ }
    }
}

/// The views of a list of files, in order.
pub open spec fn files_view(files: Seq<SeedFile>) -> Seq<SeedFileView> {
    Seq::new(files.len(), |i: int| files[i]@)
}

/// Where a seed's files come from.
#[derive(Debug)]
pub enum SeedSource {
    /// Built-in seed with fixed file contents.
    Builtin(Vec<SeedFile>),
    /// File-based seed in a directory.
    Directory(String),
}

/// A seed template for scaffolding new projects.
pub struct Seed {
    /// Seed name.
    pub name: String,
    /// Short description.
    pub description: String,
    /// Variable definitions (name -> default value, None if required).
    pub variables: StrMap<Option<String>>,
    /// Where this seed came from.
    pub source: SeedSource,
}

/// What can go wrong with seeds.
#[derive(Debug)]
pub enum SeedError {
    /// No seed has this name.
    UnknownSeed(String),
    /// The directory to scaffold into exists already.
    AlreadyExists(String),
    /// A directory could not be created.
    CreateDir(String),
    /// A file could not be written.
    WriteFile(String),
    /// The seed could not be read.
    ReadSeed(String),
    /// The seed's manifest is not what one looks like.
    ParseSeed(String),
    /// A required variable has no value.
    MissingVariable(String),
}

/// What scaffolding has to write.
#[derive(Debug)]
pub enum Scaffold {
    /// These files, with these contents.
    Files(Vec<SeedFile>),
    /// A copy of the directory `template`, each file's contents substituted
    /// unless `raw` is set.
    CopyTemplate { template: String, raw: bool },
}

/// The placeholder for a variable: its name in double braces.
pub open spec fn spec_placeholder(key: Seq<char>) -> Seq<char> {
    "{{"@ + key + "}}"@
}

/// `template` with the placeholders of `keys` replaced by their values,
/// one key after the other.
pub open spec fn spec_substitute(
    template: Seq<char>,
    keys: Seq<Seq<char>>,
    vars: Map<Seq<char>, Seq<char>>,
) -> Seq<char>
    decreases keys.len(),
{
    if keys.len() == 0 {
        template
    } else {
        spec_replace(
            spec_substitute(template, keys.drop_last(), vars),
            spec_placeholder(keys.last()),
            vars[keys.last()],
        )
    }
}

/// Simple variable substitution: replaces `{{key}}` with value, for each
/// variable in turn.
pub fn substitute(template: &str, vars: &StrMap<String>) -> (out: String)
    ensures
        out@ == spec_substitute(template@, vars.keys(), vars@),
{
    let mut out = template.to_owned();
    let n = vars.len();
    let ghost keys = vars.keys();
    let mut i: usize = 0;
    assert(keys.subrange(0, 0) =~= Seq::<Seq<char>>::empty());
    while i < n
        invariant
            i <= n,
            n == keys.len(),
            keys == vars.keys(),
            out@ == spec_substitute(template@, keys.subrange(0, i as int), vars@),
        decreases n - i,
    {
        let key = vars.key_at(i);
        let value = vars.value_at(i);
        let mut pattern = "{{".to_owned();
        pattern.append(key.as_str());
        pattern.append("}}");
        proof {
            let upto = keys.subrange(0, i as int + 1);
            assert(upto.drop_last() =~= keys.subrange(0, i as int));
            assert(upto.last() == key@);
        }
        out = replace_all(out.as_str(), pattern.as_str(), value.as_str());
        i += 1;
    }
    assert(keys.subrange(0, n as int) =~= keys);
    out
}

/// The variables of the built-in seeds: `name`, which is required, and
/// `version`, which defaults to `0.1.0`.
pub open spec fn spec_default_variables() -> Map<Seq<char>, Option<Seq<char>>> {
    Map::<Seq<char>, Option<Seq<char>>>::empty().insert("name"@, None).insert(
        "version"@,
        Some("0.1.0"@),
    )
}

/// What the contracts say of a seed's variables: for each its default, if
/// it has one.
pub open spec fn spec_defaults(variables: Map<Seq<char>, Option<String>>) -> Map<
    Seq<char>,
    Option<Seq<char>>,
> {
    Map::new(
        |n: Seq<char>| variables.contains_key(n),
        |n: Seq<char>|
            match variables[n] {
                Some(s) => Some(s@),
                None => None,
            },
    )
}

fn default_variables() -> (vars: StrMap<Option<String>>)
    ensures
        spec_defaults(vars@) == spec_default_variables(),
        vars.keys() == seq!["name"@, "version"@],
{
    let mut vars: StrMap<Option<String>> = StrMap::new();
    vars.insert("name".to_owned(), None);
    vars.insert("version".to_owned(), Some("0.1.0".to_owned()));
    proof {
        reveal_strlit("name");
        reveal_strlit("version");
        assert("name"@.len() != "version"@.len());
        assert(spec_defaults(vars@) =~= spec_default_variables());
        assert(vars.keys() =~= seq!["name"@, "version"@]);
    }
    vars
}

fn seed_file(path: &str, contents: &str) -> (file: SeedFile)
    ensures
        file@ == (SeedFileView { path: path@, contents: contents@ }),
{
    SeedFile { path: path.to_owned(), contents: contents.to_owned() }
}

/// The files of the seed `creation`.
pub open spec fn spec_creation_files() -> Seq<SeedFileView> {
    seq![
        SeedFileView { path: "nursery.toml"@, contents: CREATION_MANIFEST@ },
        SeedFileView { path: ".gitignore"@, contents: "/target\n"@ },
    ]
}

/// The files of the seed `archaeology`.
pub open spec fn spec_archaeology_files() -> Seq<SeedFileView> {
    seq![
        SeedFileView { path: "nursery.toml"@, contents: ARCHAEOLOGY_MANIFEST@ },
        SeedFileView { path: "dump/.gitkeep"@, contents: ""@ },
        SeedFileView { path: "assets/raw/.gitkeep"@, contents: ""@ },
        SeedFileView {
            path: "src/pipelines/assets.dew"@,
            contents: "; Asset processing pipeline\n"@,
        },
        SeedFileView { path: ".gitignore"@, contents: "/target\n"@ },
    ]
}

/// The files of the seed `lab`.
pub open spec fn spec_lab_files() -> Seq<SeedFileView> {
    seq![
        SeedFileView { path: "nursery.toml"@, contents: LAB_MANIFEST@ },
        SeedFileView { path: "dump/.gitkeep"@, contents: ""@ },
        SeedFileView { path: "assets/raw/.gitkeep"@, contents: ""@ },
        SeedFileView { path: "assets/generated/.gitkeep"@, contents: ""@ },
        SeedFileView {
            path: "src/pipelines/assets.dew"@,
            contents: "; Asset processing pipeline\n"@,
        },
        SeedFileView { path: ".gitignore"@, contents: "/target\n"@ },
    ]
}

impl Seed {
    /// The files of a built-in seed; none for a seed in a directory.
    pub open spec fn files(self) -> Seq<SeedFileView> {
        match self.source {
            SeedSource::Builtin(files) => files_view(files@),
            SeedSource::Directory(_) => Seq::empty(),
        }
    }

    /// Whether this is the built-in seed of this name, description and
    /// files.
    pub open spec fn is_builtin(
        self,
        name: Seq<char>,
        description: Seq<char>,
        files: Seq<SeedFileView>,
    ) -> bool {
        &&& self.name@ == name
        &&& self.description@ == description
        &&& spec_defaults(self.variables@) == spec_default_variables()
        &&& self.source is Builtin
        &&& self.files() == files
    }
}

/// Get all built-in seeds.
pub fn builtins() -> (seeds: Vec<Seed>)
    ensures
        seeds@.len() == 3,
        seeds@[0].is_builtin("creation"@, "New project from scratch"@, spec_creation_files()),
        seeds@[1].is_builtin("archaeology"@, "Lift a legacy game"@, spec_archaeology_files()),
        seeds@[2].is_builtin("lab"@, "Full ecosystem sandbox"@, spec_lab_files()),
{
    let mut creation: Vec<SeedFile> = Vec::new();
    creation.push(seed_file("nursery.toml", CREATION_MANIFEST));
    creation.push(seed_file(".gitignore", "/target\n"));
    assert(files_view(creation@) =~= spec_creation_files());

    let mut archaeology: Vec<SeedFile> = Vec::new();
    archaeology.push(seed_file("nursery.toml", ARCHAEOLOGY_MANIFEST));
    archaeology.push(seed_file("dump/.gitkeep", ""));
    archaeology.push(seed_file("assets/raw/.gitkeep", ""));
    archaeology.push(seed_file("src/pipelines/assets.dew", "; Asset processing pipeline\n"));
    archaeology.push(seed_file(".gitignore", "/target\n"));
    assert(files_view(archaeology@) =~= spec_archaeology_files());

    let mut lab: Vec<SeedFile> = Vec::new();
    lab.push(seed_file("nursery.toml", LAB_MANIFEST));
    lab.push(seed_file("dump/.gitkeep", ""));
    lab.push(seed_file("assets/raw/.gitkeep", ""));
    lab.push(seed_file("assets/generated/.gitkeep", ""));
    lab.push(seed_file("src/pipelines/assets.dew", "; Asset processing pipeline\n"));
    lab.push(seed_file(".gitignore", "/target\n"));
    assert(files_view(lab@) =~= spec_lab_files());

    let mut seeds: Vec<Seed> = Vec::new();
    seeds.push(
        Seed {
            name: "creation".to_owned(),
            description: "New project from scratch".to_owned(),
            variables: default_variables(),
            source: SeedSource::Builtin(creation),
        },
    );
    seeds.push(
        Seed {
            name: "archaeology".to_owned(),
            description: "Lift a legacy game".to_owned(),
            variables: default_variables(),
            source: SeedSource::Builtin(archaeology),
        },
    );
    seeds.push(
        Seed {
            name: "lab".to_owned(),
            description: "Full ecosystem sandbox".to_owned(),
            variables: default_variables(),
            source: SeedSource::Builtin(lab),
        },
    );
    seeds
}

/// Whether the variable `name` of a seed is required and has no value.
pub open spec fn spec_is_missing(
    variables: Map<Seq<char>, Option<String>>,
    vars: Map<Seq<char>, Seq<char>>,
    name: Seq<char>,
) -> bool {
    variables.contains_key(name) && variables[name] is None && !vars.contains_key(name)
}

/// The first of `keys`, from `from` on, that is required and has no value.
pub open spec fn spec_first_missing(
    keys: Seq<Seq<char>>,
    variables: Map<Seq<char>, Option<String>>,
    vars: Map<Seq<char>, Seq<char>>,
    from: nat,
) -> Option<Seq<char>>
    decreases keys.len() - from,
{
    if from >= keys.len() {
        None
    } else if spec_is_missing(variables, vars, keys[from as int]) {
        Some(keys[from as int])
    } else {
        spec_first_missing(keys, variables, vars, from + 1)
    }
}

/// The files of a seed as they are written: substituted, unless `raw`.
pub open spec fn spec_rendered(
    files: Seq<SeedFileView>,
    keys: Seq<Seq<char>>,
    vars: Map<Seq<char>, Seq<char>>,
    raw: bool,
) -> Seq<SeedFileView> {
    Seq::new(
        files.len(),
        |i: int|
            SeedFileView {
                path: files[i].path,
                contents: if raw {
                    files[i].contents
                } else {
                    spec_substitute(files[i].contents, keys, vars)
                },
            },
    )
}

impl Seed {
    /// The first variable of the seed that is required and that `vars`
    /// gives no value.
    pub fn missing_variable(&self, vars: &StrMap<String>) -> (missing: Option<String>)
        ensures
            opt_view(missing) == spec_first_missing(
                self.variables.keys(),
                self.variables@,
                vars@,
                0,
            ),
    {
        let n = self.variables.len();
        let mut i: usize = 0;
        while i < n
            invariant
                i <= n,
                n == self.variables.keys().len(),
                spec_first_missing(self.variables.keys(), self.variables@, vars@, 0)
                    == spec_first_missing(self.variables.keys(), self.variables@, vars@, i as nat),
            decreases n - i,
        {
            let key = self.variables.key_at(i);
            if self.variables.value_at(i).is_none() && !vars.contains_key(key.as_str()) {
                return Some(key.clone());
            }
            i += 1;
        }
        None
    }

    /// Plans a new project in `dest`.  A directory that exists already is
    /// refused; so is, unless `raw` is set, a required variable without a
    /// value.  If `raw` is set, no variable is substituted.
    pub fn scaffold(&self, dest: &str, dest_exists: bool, vars: &StrMap<String>, raw: bool) -> (plan:
        Result<Scaffold, SeedError>)
        ensures
            match plan {
                Err(SeedError::AlreadyExists(d)) => dest_exists && d@ == dest@,
                Err(SeedError::MissingVariable(n)) => !dest_exists && !raw && Some(n@)
                    == spec_first_missing(self.variables.keys(), self.variables@, vars@, 0),
                Err(_) => false,
                Ok(wanted) => !dest_exists && (raw || spec_first_missing(
                    self.variables.keys(),
                    self.variables@,
                    vars@,
                    0,
                ) is None) && match wanted {
                    Scaffold::Files(files) => self.source is Builtin && files_view(files@)
                        == spec_rendered(self.files(), vars.keys(), vars@, raw),
                    Scaffold::CopyTemplate { template, raw: as_is } => self.source is Directory
                        && template@ == spec_join(self.source->Directory_0@, "template"@) && as_is
                        == raw,
                },
            },
    {
        if dest_exists {
            return Err(SeedError::AlreadyExists(dest.to_owned()));
        }
        if !raw {
            match self.missing_variable(vars) {
                Some(name) => {
                    return Err(SeedError::MissingVariable(name));
                },
                None => {},
            }
        }
        match &self.source {
            SeedSource::Builtin(files) => {
                let mut out: Vec<SeedFile> = Vec::new();
                let mut i: usize = 0;
                while i < files.len()
                    invariant
                        i <= files.len(),
                        out@.len() == i,
                        forall|k: int|
                            0 <= k < i ==> (#[trigger] out@[k])@ == spec_rendered(
                                files_view(files@),
                                vars.keys(),
                                vars@,
                                raw,
                            )[k],
                    decreases files.len() - i,
                {
                    let file = &files[i];
                    let contents = if raw {
                        file.contents.clone()
                    } else {
                        substitute(file.contents.as_str(), vars)
                    };
                    out.push(SeedFile { path: file.path.clone(), contents });
                    i += 1;
                }
                assert(files_view(out@) =~= spec_rendered(
                    files_view(files@),
                    vars.keys(),
                    vars@,
                    raw,
                ));
                Ok(Scaffold::Files(out))
            },
            SeedSource::Directory(dir) => Ok(
                Scaffold::CopyTemplate { template: join(dir.as_str(), "template"), raw },
            ),
        }
    }
}

/// Resolves seeds from multiple locations.
#[derive(Debug)]
pub struct SeedResolver {
    /// User seeds directory.
    user_dir: Option<String>,
}

impl SeedResolver {
    /// The directory in which the user's seeds are looked for.
    pub closed spec fn spec_user_dir(&self) -> Option<Seq<char>> {
        opt_view(self.user_dir)
    }

    /// Where the user's seeds lie in the configuration directory.
    pub fn seeds_in(config_dir: &str) -> (dir: String)
        ensures
            dir@ == spec_join(spec_join(config_dir@, "nursery"@), "seeds"@),
    {
        join(join(config_dir, "nursery").as_str(), "seeds")
    }

    /// Create a resolver for the user's configuration directory as the
    /// platform reports it: the user's seeds are looked for in that
    /// directory, and nowhere if the platform has none.
    pub fn with_config_dir(config_dir: Option<String>) -> (resolver: Self)
        ensures
            resolver.spec_user_dir() == match config_dir {
                Some(dir) => Some(spec_join(spec_join(dir@, "nursery"@), "seeds"@)),
                None => None,
            },
    {
        match config_dir {
            Some(dir) => SeedResolver { user_dir: Some(SeedResolver::seeds_in(dir.as_str())) },
            None => SeedResolver { user_dir: None },
        }
    }

    /// Create a resolver with the default user seeds directory, if the
    /// platform has a place for it.
    pub fn new() -> (resolver: Self)
        ensures
            resolver.spec_user_dir() is Some ==> exists|dir: Seq<char>|
                resolver.spec_user_dir() == Some(
                    #[trigger] spec_join(spec_join(dir, "nursery"@), "seeds"@),
                ),
    {
        let config_dir = userdirs::config_dir();
        let ghost reported = config_dir;
        let resolver = SeedResolver::with_config_dir(config_dir);
        proof {
            if resolver.spec_user_dir() is Some {
                assert(resolver.spec_user_dir() == Some(
                    spec_join(spec_join(reported->Some_0@, "nursery"@), "seeds"@),
                ));
            }
        }
        resolver
    }

    /// Create a resolver with a custom user seeds directory.
    pub fn with_user_dir(user_dir: Option<String>) -> (resolver: Self)
        ensures
            resolver.spec_user_dir() == opt_view(user_dir),
    {
        SeedResolver { user_dir }
    }

    /// Where the user's seed of this name would lie.
    pub fn user_seed_dir(&self, name: &str) -> (dir: Option<String>)
        ensures
            opt_view(dir) == match self.spec_user_dir() {
                Some(d) => Some(spec_join(d, name@)),
                None => None,
            },
    {
        match &self.user_dir {
            Some(d) => Some(join(d.as_str(), name)),
            None => None,
        }
    }

    /// Get a seed by name: the user's seed of that name, if one was
    /// loaded, else the built-in one.
    pub fn get(&self, name: &str, user_seed: Option<Seed>) -> (found: Result<Seed, SeedError>)
        ensures
            match user_seed {
                Some(seed) => found == Ok::<Seed, SeedError>(seed),
                None => if name@ == "creation"@ {
                    found is Ok && found->Ok_0.is_builtin(
                        "creation"@,
                        "New project from scratch"@,
                        spec_creation_files(),
                    )
                } else if name@ == "archaeology"@ {
                    found is Ok && found->Ok_0.is_builtin(
                        "archaeology"@,
                        "Lift a legacy game"@,
                        spec_archaeology_files(),
                    )
                } else if name@ == "lab"@ {
                    found is Ok && found->Ok_0.is_builtin(
                        "lab"@,
                        "Full ecosystem sandbox"@,
                        spec_lab_files(),
                    )
                } else {
                    found matches Err(SeedError::UnknownSeed(n)) && n@ == name@
                },
            },
    {
        match user_seed {
            Some(seed) => Ok(seed),
            None => {
                let mut seeds = builtins();
                let lab = seeds.pop().unwrap();
                let archaeology = seeds.pop().unwrap();
                let creation = seeds.pop().unwrap();
                if str_eq(creation.name.as_str(), name) {
                    Ok(creation)
                } else if str_eq(archaeology.name.as_str(), name) {
                    Ok(archaeology)
                } else if str_eq(lab.name.as_str(), name) {
                    Ok(lab)
                } else {
                    Err(SeedError::UnknownSeed(name.to_owned()))
                }
            },
        }
    }
}

/// What a variable's definition says of its default: a string is the
/// default; a table may give one under `default`, which must be a string;
/// anything else makes no sense.
pub open spec fn spec_variable_def(value: ConfigView) -> Option<Option<Seq<char>>> {
    match value {
        ConfigView::String(s) => Some(Some(s)),
        ConfigView::Table(fields) => match spec_get(fields, "default"@) {
            None => Some(None),
            Some(ConfigView::String(s)) => Some(Some(s)),
            Some(_) => None,
        },
        _ => None,
    }
}

/// Whether each of the first `n` definitions makes sense.
pub open spec fn spec_defs_ok(fields: Seq<FieldView>, n: nat) -> bool {
    forall|i: int|
        0 <= i < n && i < fields.len() ==> spec_variable_def((#[trigger] fields[i]).value) is Some
}

/// The defaults that the first `n` definitions give, by variable.
pub open spec fn spec_defs(fields: Seq<FieldView>, n: nat) -> Map<Seq<char>, Option<Seq<char>>> {
    Map::new(
        |k: Seq<char>| spec_lookup(fields, n, k) is Some,
        |k: Seq<char>| spec_variable_def(spec_lookup(fields, n, k).unwrap()).unwrap(),
    )
}

/// What a seed's manifest describes.
pub struct SeedManifestView {
    pub name: Seq<char>,
    pub description: Seq<char>,
    pub variables: Map<Seq<char>, Option<Seq<char>>>,
}

/// The description that a seed's manifest gives: nothing if it gives
/// none, and no sense if it is no string.
pub open spec fn spec_description(fields: Seq<FieldView>) -> Option<Seq<char>> {
    match spec_get(fields, "description"@) {
        None => Some(Seq::empty()),
        Some(ConfigView::String(s)) => Some(s),
        Some(_) => None,
    }
}

/// The definitions that a seed's manifest holds: none if it has no
/// `[variables]`, and no sense if that is no table.
pub open spec fn spec_def_fields(fields: Seq<FieldView>) -> Option<Seq<FieldView>> {
    match spec_get(fields, "variables"@) {
        None => Some(Seq::empty()),
        Some(ConfigView::Table(defs)) => Some(defs),
        Some(_) => None,
    }
}

/// The seed that the fields of a seed's manifest describe: it needs a
/// `name`; it may have a `description` and `[variables]`.
pub open spec fn spec_seed_manifest(fields: Seq<FieldView>) -> Option<SeedManifestView> {
    match (spec_as_str(spec_get(fields, "name"@)), spec_description(fields), spec_def_fields(
        fields,
    )) {
        (Some(name), Some(description), Some(defs)) => if spec_defs_ok(defs, defs.len()) {
            Some(SeedManifestView { name, description, variables: spec_defs(defs, defs.len()) })
        } else {
            None
        },
        _ => None,
    }
}

fn variable_def(value: &Config) -> (def: Option<Option<String>>)
    ensures
        match def {
            Some(d) => spec_variable_def(value@) == Some(opt_view(d)),
            None => spec_variable_def(value@) is None,
        },
{
    match value {
        Config::String(s) => Some(Some(s.clone())),
        Config::Table(fields) => match get(fields, "default") {
            None => Some(None),
            Some(Config::String(s)) => Some(Some(s.clone())),
            Some(_) => None,
        },
        _ => None,
    }
}

fn variable_defs(fields: &Vec<Field>) -> (defs: Option<StrMap<Option<String>>>)
    ensures
        match defs {
            Some(d) => spec_defs_ok(fields_view(fields@), fields_view(fields@).len())
                && spec_defaults(d@) == spec_defs(
                fields_view(fields@),
                fields_view(fields@).len(),
            ),
            None => !spec_defs_ok(fields_view(fields@), fields_view(fields@).len()),
        },
{
    let ghost views = fields_view(fields@);
    proof {
        lemma_fields(fields@, fields@.len());
    }
    let mut defs: StrMap<Option<String>> = StrMap::new();
    let mut i: usize = 0;
    assert(spec_defaults(defs@) =~= spec_defs(views, 0));
    while i < fields.len()
        invariant
            i <= fields.len(),
            views == fields_view(fields@),
            views.len() == fields@.len(),
            forall|k: int| 0 <= k < views.len() ==> #[trigger] views[k] == fields@[k]@,
            spec_defs_ok(views, i as nat),
            spec_defaults(defs@) == spec_defs(views, i as nat),
        decreases fields.len() - i,
    {
        let field = &fields[i];
        assert(views[i as int] == field@);
        let ghost before = spec_defaults(defs@);
        let ghost held = defs@;
        match variable_def(&field.value) {
            Some(def) => {
                let ghost given = opt_view(def);
                defs.insert(field.key.clone(), def);
                proof {
                    assert(spec_defaults(defs@) =~= before.insert(field.key@, given)) by {
                        assert forall|k: Seq<char>| #[trigger]
                            spec_defaults(defs@).contains_key(k) implies spec_defaults(defs@)[k]
                            == before.insert(field.key@, given)[k] by {
                            if k != field.key@ {
                                assert(defs@[k] == held[k]);
                                assert(before.contains_key(k));
                            }
                        }
                    }
                }
            },
            None => {
                assert(!spec_defs_ok(views, views.len()));
                return None;
            },
        }
        proof {
            assert forall|k: Seq<char>|
                spec_lookup(views, i as nat, k) is Some implies spec_variable_def(
                spec_lookup(views, i as nat, k).unwrap(),
            ) is Some by {
                lemma_lookup_among(views, i as nat, k);
            }
            assert(spec_defaults(defs@) =~= spec_defs(views, (i + 1) as nat));
        }
        i += 1;
    }
    Some(defs)
}

impl Seed {
    /// Reads the seed that lies in `dir` from the fields of its manifest.
    pub fn from_fields(fields: &Vec<Field>, dir: &str) -> (seed: Option<Seed>)
        ensures
            match seed {
                Some(s) => spec_seed_manifest(fields_view(fields@)) == Some(
                    SeedManifestView {
                        name: s.name@,
                        description: s.description@,
                        variables: spec_defaults(s.variables@),
                    },
                ) && (s.source matches SeedSource::Directory(d) && d@ == dir@),
                None => spec_seed_manifest(fields_view(fields@)) is None,
            },
    {
        let name = match get_str(fields, "name") {
            Some(n) => n,
            None => {
                return None;
            },
        };
        let description = match get(fields, "description") {
            None => String::new(),
            Some(Config::String(s)) => s.clone(),
            Some(_) => {
                return None;
            },
        };
        let variables = match get(fields, "variables") {
            None => {
                let none: StrMap<Option<String>> = StrMap::new();
                assert(spec_defaults(none@) =~= spec_defs(Seq::empty(), 0));
                none
            },
            Some(Config::Table(defs)) => match variable_defs(defs) {
                Some(v) => v,
                None => {
                    return None;
                },
            },
            Some(_) => {
                return None;
            },
        };
        Some(
            Seed {
                name: name.to_owned(),
                description,
                variables,
                source: SeedSource::Directory(dir.to_owned()),
            },
        )
    }

    /// Reads the seed that lies in `dir` from the text of its manifest.
    pub fn parse(text: &str, dir: &str) -> (seed: Result<Seed, SeedError>)
        ensures
            match seed {
                Ok(s) => toml_document(text@) matches Ok(ConfigView::Table(fields))
                    && spec_seed_manifest(fields) == Some(
                    SeedManifestView {
                        name: s.name@,
                        description: s.description@,
                        variables: spec_defaults(s.variables@),
                    },
                ),
                Err(SeedError::ParseSeed(_)) => match toml_document(text@) {
                    Ok(ConfigView::Table(fields)) => spec_seed_manifest(fields) is None,
                    _ => true,
                },
                Err(_) => false,
            },
    {
        match Config::parse(text) {
            Ok(Config::Table(fields)) => match Seed::from_fields(&fields, dir) {
                Some(seed) => Ok(seed),
                None => Err(SeedError::ParseSeed("the manifest describes no seed".to_owned())),
            },
            Ok(_) => Err(SeedError::ParseSeed("the document is no table".to_owned())),
            Err(message) => Err(SeedError::ParseSeed(message)),
        }
    }
}

/// The names of a list of seeds, in order.
pub open spec fn seed_names(seeds: Seq<Seed>) -> Seq<Seq<char>> {
    Seq::new(seeds.len(), |i: int| seeds[i].name@)
}

/// Whether the seed at `k` is the last of its name in the list.
pub open spec fn spec_is_last_of_name(seeds: Seq<Seed>, k: int) -> bool {
    forall|m: int| k < m < seeds.len() ==> (#[trigger] seeds[m]).name@ != seeds[k].name@
}

/// Whether `seed` is one of `seeds[from..]` and the last of its name in
/// `seeds`.
pub open spec fn spec_stands(seed: Seed, seeds: Seq<Seed>, from: int) -> bool {
    exists|k: int|
        from <= k < seeds.len() && #[trigger] seeds[k] == seed && spec_is_last_of_name(seeds, k)
}

/// Whether `listed` is the list of `seeds` by name: its names ascend, and
/// it holds the seeds that are the last of their name, and no other.
pub open spec fn spec_lists_seeds(listed: Seq<Seed>, seeds: Seq<Seed>) -> bool {
    &&& spec_ascending(seed_names(listed))
    &&& forall|j: int| 0 <= j < listed.len() ==> spec_stands(#[trigger] listed[j], seeds, 0)
    &&& forall|k: int|
        0 <= k < seeds.len() ==> seed_names(listed).contains((#[trigger] seeds[k]).name@)
}

/// Lists seeds by name, a later seed standing for the earlier ones of its
/// name.
pub fn list_seeds(seeds: Vec<Seed>) -> (listed: Vec<Seed>)
    ensures
        spec_lists_seeds(listed@, seeds@),
{
    let ghost all = seeds@;
    let mut rest = seeds;
    let mut listed: Vec<Seed> = Vec::new();
    let mut names: Vec<String> = Vec::new();
    while rest.len() > 0
        invariant
            rest@ == all.subrange(0, rest@.len() as int),
            rest@.len() <= all.len(),
            names@.len() == listed@.len(),
            strs(names@) == seed_names(listed@),
            spec_ascending(strs(names@)),
            forall|j: int|
                0 <= j < listed@.len() ==> spec_stands(
                    #[trigger] listed@[j],
                    all,
                    rest@.len() as int,
                ),
            forall|k: int|
                rest@.len() <= k < all.len() ==> strs(names@).contains((#[trigger] all[k]).name@),
        decreases rest@.len(),
    {
        let ghost from = rest@.len() as int;
        let ghost held = listed@;
        let ghost known = strs(names@);
        let seed = rest.pop().unwrap();
        assert(seed == all[from - 1]);
        assert(rest@ =~= all.subrange(0, from - 1));
        proof {
            assert forall|j: int| 0 <= j < held.len() implies spec_stands(
                #[trigger] held[j],
                all,
                from - 1,
            ) by {
                assert(spec_stands(held[j], all, from));
                let k = choose|k: int|
                    from <= k < all.len() && #[trigger] all[k] == held[j] && spec_is_last_of_name(
                        all,
                        k,
                    );
                assert(from - 1 <= k && all[k] == held[j]);
            }
        }
        match ascending_place(&names, seed.name.as_str()) {
            Some(p) => {
                names.insert(p, seed.name.clone());
                listed.insert(p, seed);
                proof {
                    assert(strs(names@) =~= known.insert(p as int, all[from - 1].name@));
                    assert(seed_names(listed@) =~= strs(names@));
                    assert(spec_is_last_of_name(all, from - 1)) by {
                        assert forall|m: int| from - 1 < m < all.len() implies (
                        #[trigger] all[m]).name@ != all[from - 1].name@ by {
                            assert(known.contains(all[m].name@));
                        }
                    }
                    assert(spec_stands(all[from - 1], all, from - 1));
                    assert forall|j: int| 0 <= j < listed@.len() implies spec_stands(
                        #[trigger] listed@[j],
                        all,
                        from - 1,
                    ) by {
                        if j < p {
                            assert(listed@[j] == held[j]);
                        } else if j == p {
                            assert(listed@[j] == all[from - 1]);
                        } else {
                            assert(listed@[j] == held[j - 1]);
                        }
                    }
                    assert forall|k: int| from - 1 <= k < all.len() implies strs(names@).contains(
                        (#[trigger] all[k]).name@,
                    ) by {
                        lemma_insert_contains(known, p as int, all[from - 1].name@, all[k].name@);
                    }
                }
            },
            None => {},
        }
    }
    proof {
        assert forall|k: int| 0 <= k < all.len() implies seed_names(listed@).contains(
            (#[trigger] all[k]).name@,
        ) by {
            assert(strs(names@).contains(all[k].name@));
        }
    }
    listed
}

impl SeedResolver {
    /// List all available seeds by name: the built-in ones and the user's,
    /// a user's seed standing for the built-in one of its name.
    pub fn list(&self, user_seeds: Vec<Seed>) -> (listed: Vec<Seed>)
        ensures
            exists|all: Seq<Seed>|
                #![trigger spec_lists_seeds(listed@, all)]
                spec_lists_seeds(listed@, all) && all.len() == 3 + user_seeds@.len()
                    && all.subrange(3, all.len() as int) == user_seeds@ && all[0].is_builtin(
                    "creation"@,
                    "New project from scratch"@,
                    spec_creation_files(),
                ) && all[1].is_builtin(
                    "archaeology"@,
                    "Lift a legacy game"@,
                    spec_archaeology_files(),
                ) && all[2].is_builtin("lab"@, "Full ecosystem sandbox"@, spec_lab_files()),
    {
        let mut all = builtins();
        let mut user_seeds = user_seeds;
        let ghost given = user_seeds@;
        all.append(&mut user_seeds);
        proof {
            assert(all@.subrange(3, all@.len() as int) =~= given);
        }
        let ghost combined = all@;
        let listed = list_seeds(all);
        assert(spec_lists_seeds(listed@, combined));
        listed
    }
}

/// What an error says, in words.
pub open spec fn spec_message(e: SeedError) -> Seq<char> {
    match e {
        SeedError::UnknownSeed(name) => "unknown seed: "@ + name@,
        SeedError::AlreadyExists(path) => "directory already exists: "@ + path@,
        SeedError::CreateDir(cause) => "failed to create directory: "@ + cause@,
        SeedError::WriteFile(cause) => "failed to write file: "@ + cause@,
        SeedError::ReadSeed(cause) => "failed to read seed: "@ + cause@,
        SeedError::ParseSeed(cause) => "failed to parse seed.toml: "@ + cause@,
        SeedError::MissingVariable(name) => "missing required variable: "@ + name@,
    }
}

impl SeedError {
    /// What the error says, in words.
    pub fn message(&self) -> (text: String)
        ensures
            text@ == spec_message(*self),
    {
        match self {
            SeedError::UnknownSeed(name) => {
                let mut text = "unknown seed: ".to_owned();
                text.append(name.as_str());
                text
            },
            SeedError::AlreadyExists(path) => {
                let mut text = "directory already exists: ".to_owned();
                text.append(path.as_str());
                text
            },
            SeedError::CreateDir(cause) => {
                let mut text = "failed to create directory: ".to_owned();
                text.append(cause.as_str());
                text
            },
            SeedError::WriteFile(cause) => {
                let mut text = "failed to write file: ".to_owned();
                text.append(cause.as_str());
                text
            },
            SeedError::ReadSeed(cause) => {
                let mut text = "failed to read seed: ".to_owned();
                text.append(cause.as_str());
                text
            },
            SeedError::ParseSeed(cause) => {
                let mut text = "failed to parse seed.toml: ".to_owned();
                text.append(cause.as_str());
                text
            },
            SeedError::MissingVariable(name) => {
                let mut text = "missing required variable: ".to_owned();
                text.append(name.as_str());
                text
            },
        }
    }
}

} // verus!
