//! Variable resolution from several sources, in a fixed order of
//! precedence: the command line, the global configuration, the seed's
//! defaults, and what was inferred.

use vstd::prelude::*;
use crate::order::{insert_ascending, spec_ascending, spec_str_le, str_le};
use crate::strmap::StrMap;
use crate::text::{join, opt_view, spec_join, strs};
use crate::userdirs;
use crate::value::{
    get, spec_all_strings, spec_get, spec_string_table, string_table, toml_document, Config,
    ConfigView, FieldView,
};

verus! {

/// Source of variable values.
#[derive(Debug, Clone, Copy, PartialEq, Eq, Structural)]
pub enum VariableSource {
    /// From CLI --var flag.
    Cli,
    /// From global config file.
    Config,
    /// From seed defaults.
    SeedDefault,
    /// Inferred from environment.
    Inferred,
}

/// Resolves variables from multiple sources with precedence.
pub struct VariableResolver {
    cli: StrMap<String>,
    config: StrMap<String>,
    seed_defaults: StrMap<String>,
    inferred: StrMap<String>,
}

/// What the contracts say of a [`VariableResolver`]: the values of each
/// source by name.
pub struct ResolverView {
    pub cli: Map<Seq<char>, Seq<char>>,
    pub config: Map<Seq<char>, Seq<char>>,
    pub seed_defaults: Map<Seq<char>, Seq<char>>,
    pub inferred: Map<Seq<char>, Seq<char>>,
}

/// A resolved variable: its name, its value and where the value is from.
#[derive(Debug)]
pub struct Resolved {
    pub name: String,
    pub value: String,
    pub source: VariableSource,
}

impl ResolverView {
    /// The value of a variable and its source: the first of the command
    /// line, the configuration, the seed's defaults and what was inferred
    /// that has one.
    pub open spec fn get(self, name: Seq<char>) -> Option<(Seq<char>, VariableSource)> {
        if self.cli.contains_key(name) {
            Some((self.cli[name], VariableSource::Cli))
        } else if self.config.contains_key(name) {
            Some((self.config[name], VariableSource::Config))
        } else if self.seed_defaults.contains_key(name) {
            Some((self.seed_defaults[name], VariableSource::SeedDefault))
        } else if self.inferred.contains_key(name) {
            Some((self.inferred[name], VariableSource::Inferred))
        } else {
            None
        }
    }

    /// Whether any source has a value for the variable.
    pub open spec fn known(self, name: Seq<char>) -> bool {
        self.get(name) is Some
    }

    /// Every variable that has a value, with its value.
    pub open spec fn resolved(self) -> Map<Seq<char>, Seq<char>> {
        Map::new(|n: Seq<char>| self.known(n), |n: Seq<char>| self.get(n).unwrap().0)
    }

    /// Whether `name` is a required variable without a value.
    pub open spec fn missing(self, required: Seq<Seq<char>>, name: Seq<char>) -> bool {
        required.contains(name) && !self.known(name)
    }
}

/// Where the global configuration lies in a configuration directory.
pub open spec fn spec_config_path(config_dir: Seq<char>) -> Seq<char> {
    spec_join(spec_join(config_dir, "nursery"@), "config.toml"@)
}

/// Where the global configuration lies, given the user's configuration
/// directory, if the platform has one.
pub open spec fn spec_config_path_in(config_dir: Option<Seq<char>>) -> Option<Seq<char>> {
    match config_dir {
        Some(dir) => Some(spec_config_path(dir)),
        None => None,
    }
}

/// The defaults that are given: the variables of a seed that have one.
pub open spec fn spec_given(defaults: Map<Seq<char>, Option<String>>) -> Map<Seq<char>, Seq<char>> {
    Map::new(
        |n: Seq<char>| defaults.contains_key(n) && defaults[n] is Some,
        |n: Seq<char>| defaults[n].unwrap()@,
    )
}

/// What `onto` holds after everything in `from` was put into it.
pub open spec fn spec_merged(
    onto: Map<Seq<char>, Seq<char>>,
    from: Map<Seq<char>, Seq<char>>,
) -> Map<Seq<char>, Seq<char>> {
    Map::new(
        |n: Seq<char>| onto.contains_key(n) || from.contains_key(n),
        |n: Seq<char>|
            if from.contains_key(n) {
                from[n]
            } else {
                onto[n]
            },
    )
}

/// The names of a list of resolved variables, in order.
pub open spec fn spec_names(list: Seq<Resolved>) -> Seq<Seq<char>> {
    Seq::new(list.len(), |i: int| list[i].name@)
}

/// Puts everything in `from` into `onto`, in place of what is there.
fn merge_into(onto: &mut StrMap<String>, from: &StrMap<String>)
    ensures
        final(onto)@ == spec_merged(old(onto)@, from@),
{
    let ghost start = onto@;
    let n = from.len();
    let ghost keys = from.keys();
    let mut i: usize = 0;
    assert(onto@ =~= Map::new(
        |n: Seq<char>| start.contains_key(n) || keys.subrange(0, 0).contains(n),
        |n: Seq<char>|
            if keys.subrange(0, 0).contains(n) {
                from@[n]
            } else {
                start[n]
            },
    ));
    while i < n
        invariant
            i <= n,
            n == keys.len(),
            keys == from.keys(),
            onto@ == Map::new(
                |n: Seq<char>| start.contains_key(n) || keys.subrange(0, i as int).contains(n),
                |n: Seq<char>|
                    if keys.subrange(0, i as int).contains(n) {
                        from@[n]
                    } else {
                        start[n]
                    },
            ),
        decreases n - i,
    {
        let key = from.key_at(i);
        let value = from.value_at(i);
        onto.insert(key.clone(), value.clone());
        proof {
            let upto = keys.subrange(0, i as int + 1);
            assert(upto =~= keys.subrange(0, i as int).push(keys[i as int]));
            assert forall|m: Seq<char>|
                upto.contains(m) <==> (keys.subrange(0, i as int).contains(m) || m
                    == keys[i as int]) by {
                crate::text::lemma_contains_push(keys.subrange(0, i as int), keys[i as int], m);
            }
            assert(onto@ =~= Map::new(
                |n: Seq<char>| start.contains_key(n) || upto.contains(n),
                |n: Seq<char>|
                    if upto.contains(n) {
                        from@[n]
                    } else {
                        start[n]
                    },
            ));
        }
        i += 1;
    }
    proof {
        assert(keys.subrange(0, n as int) =~= keys);
        assert(onto@ =~= spec_merged(start, from@));
    }
}

/// Puts the keys of `from` into the ascending list `names`.
fn collect_names(names: &mut Vec<String>, from: &StrMap<String>)
    requires
        spec_ascending(strs(old(names)@)),
    ensures
        spec_ascending(strs(final(names)@)),
        forall|n: Seq<char>|
            #![trigger strs(final(names)@).contains(n)]
            strs(final(names)@).contains(n) <==> (strs(old(names)@).contains(n)
                || from@.contains_key(n)),
{
    let ghost start = strs(names@);
    let n = from.len();
    let ghost keys = from.keys();
    let mut i: usize = 0;
    assert(keys.subrange(0, 0) =~= Seq::<Seq<char>>::empty());
    while i < n
        invariant
            i <= n,
            n == keys.len(),
            keys == from.keys(),
            spec_ascending(strs(names@)),
            forall|m: Seq<char>|
                #![trigger strs(names@).contains(m)]
                strs(names@).contains(m) <==> (start.contains(m) || keys.subrange(
                    0,
                    i as int,
                ).contains(m)),
        decreases n - i,
    {
        let ghost before = strs(names@);
        insert_ascending(names, from.key_at(i).as_str());
        proof {
            let upto = keys.subrange(0, i as int + 1);
            assert(upto =~= keys.subrange(0, i as int).push(keys[i as int]));
            assert forall|m: Seq<char>|
                #![trigger strs(names@).contains(m)]
                strs(names@).contains(m) <==> (start.contains(m) || upto.contains(m)) by {
                crate::text::lemma_contains_push(keys.subrange(0, i as int), keys[i as int], m);
                assert(before.contains(m) <==> (start.contains(m) || keys.subrange(
                    0,
                    i as int,
                ).contains(m)));
            }
        }
        i += 1;
    }
    proof {
        assert(keys.subrange(0, n as int) =~= keys);
    }
}

impl View for VariableResolver {
    type V = ResolverView;

    closed spec fn view(&self) -> ResolverView {
        ResolverView {
            cli: self.cli@,
            config: self.config@,
            seed_defaults: self.seed_defaults@,
            inferred: self.inferred@,
        }
    }
}

impl VariableResolver {
    /// Create a new resolver.
    pub fn new() -> (resolver: Self)
        ensures
            resolver@.cli == Map::<Seq<char>, Seq<char>>::empty(),
            resolver@.config == Map::<Seq<char>, Seq<char>>::empty(),
            resolver@.seed_defaults == Map::<Seq<char>, Seq<char>>::empty(),
            resolver@.inferred == Map::<Seq<char>, Seq<char>>::empty(),
    {
        VariableResolver {
            cli: StrMap::new(),
            config: StrMap::new(),
            seed_defaults: StrMap::new(),
            inferred: StrMap::new(),
        }
    }

    /// Add CLI variable overrides.
    pub fn with_cli(self, vars: StrMap<String>) -> (resolver: Self)
        ensures
            resolver@ == (ResolverView { cli: vars@, ..self@ }),
    {
        let mut resolver = self;
        resolver.cli = vars;
        resolver
    }

    /// Add the variables of the global configuration, as they were read
    /// from its file; a file that could not be loaded changes nothing.
    pub fn with_config_file(self, variables: Option<StrMap<String>>) -> (resolver: Self)
        ensures
            resolver@ == match variables {
                Some(vars) => ResolverView { config: vars@, ..self@ },
                None => self@,
            },
    {
        let mut resolver = self;
        match variables {
            Some(vars) => {
                resolver.config = vars;
            },
            None => {},
        }
        resolver
    }

    /// Add the variables of the global configuration, given its text; a
    /// configuration that is not there, or that is none, changes nothing.
    pub fn with_global_config(self, text: Option<&str>) -> (resolver: Self)
        ensures
            resolver@ == match text {
                Some(t) => match spec_global_variables(t@) {
                    Some(vars) => ResolverView { config: vars, ..self@ },
                    None => self@,
                },
                None => self@,
            },
    {
        match text {
            Some(t) => self.with_config_file(config_variables(t)),
            None => self,
        }
    }

    /// Where the global configuration lies in the user's configuration
    /// directory.
    pub fn config_path_in(config_dir: &str) -> (path: String)
        ensures
            path@ == spec_config_path(config_dir@),
    {
        join(join(config_dir, "nursery").as_str(), "config.toml")
    }

    /// Where the global configuration lies, given the user's configuration
    /// directory as the platform reports it: in that directory, and nowhere
    /// if the platform has none.
    pub fn global_config_path_in(config_dir: Option<String>) -> (path: Option<String>)
        ensures
            opt_view(path) == spec_config_path_in(opt_view(config_dir)),
    {
        match config_dir {
            Some(dir) => Some(VariableResolver::config_path_in(dir.as_str())),
            None => None,
        }
    }

    /// Where the global configuration lies, if the platform has a place
    /// for it: in the user's configuration directory, whichever that is.
    pub fn global_config_path() -> (path: Option<String>)
        ensures
            path matches Some(p) ==> exists|dir: Seq<char>|
                p@ == #[trigger] spec_config_path(dir),
    {
        let config_dir = userdirs::config_dir();
        let ghost reported = opt_view(config_dir);
        let path = VariableResolver::global_config_path_in(config_dir);
        proof {
            if path is Some {
                assert(path->Some_0@ == spec_config_path(reported->Some_0));
            }
        }
        path
    }

    /// Add seed default values: of the variables of a seed, those that
    /// have a default.
    pub fn with_seed_defaults(self, defaults: StrMap<Option<String>>) -> (resolver: Self)
        ensures
            resolver@ == (ResolverView { seed_defaults: spec_given(defaults@), ..self@ }),
    {
        let mut given: StrMap<String> = StrMap::new();
        let n = defaults.len();
        let ghost keys = defaults.keys();
        let mut i: usize = 0;
        assert(given@ =~= Map::new(
            |m: Seq<char>| keys.subrange(0, 0).contains(m) && defaults@[m] is Some,
            |m: Seq<char>| defaults@[m].unwrap()@,
        ));
        while i < n
            invariant
                i <= n,
                n == keys.len(),
                keys == defaults.keys(),
                given@ == Map::new(
                    |m: Seq<char>| keys.subrange(0, i as int).contains(m) && defaults@[m] is Some,
                    |m: Seq<char>| defaults@[m].unwrap()@,
                ),
            decreases n - i,
        {
            let key = defaults.key_at(i);
            proof {
                let upto = keys.subrange(0, i as int + 1);
                assert(upto =~= keys.subrange(0, i as int).push(keys[i as int]));
                assert forall|m: Seq<char>|
                    upto.contains(m) <==> (keys.subrange(0, i as int).contains(m) || m
                        == keys[i as int]) by {
                    crate::text::lemma_contains_push(
                        keys.subrange(0, i as int),
                        keys[i as int],
                        m,
                    );
                }
            }
            match defaults.value_at(i) {
                Some(value) => {
                    given.insert(key.clone(), value.clone());
                },
                None => {},
            }
            assert(given@ =~= Map::new(
                |m: Seq<char>|
                    keys.subrange(0, i as int + 1).contains(m) && defaults@[m] is Some,
                |m: Seq<char>| defaults@[m].unwrap()@,
            ));
            i += 1;
        }
        proof {
            assert(keys.subrange(0, n as int) =~= keys);
            assert(given@ =~= spec_given(defaults@));
        }
        let mut resolver = self;
        resolver.seed_defaults = given;
        resolver
    }

    /// Add inferred values.
    pub fn with_inferred(self, inferred: StrMap<String>) -> (resolver: Self)
        ensures
            resolver@ == (ResolverView { inferred: inferred@, ..self@ }),
    {
        let mut resolver = self;
        resolver.inferred = inferred;
        resolver
    }

    /// Resolve a variable value.
    pub fn get(&self, name: &str) -> (found: Option<(&str, VariableSource)>)
        ensures
            match found {
                Some((value, source)) => self@.get(name@) == Some((value@, source)),
                None => self@.get(name@) is None,
            },
    {
        if let Some(v) = self.cli.get(name) {
            return Some((v.as_str(), VariableSource::Cli));
        }
        if let Some(v) = self.config.get(name) {
            return Some((v.as_str(), VariableSource::Config));
        }
        if let Some(v) = self.seed_defaults.get(name) {
            return Some((v.as_str(), VariableSource::SeedDefault));
        }
        if let Some(v) = self.inferred.get(name) {
            return Some((v.as_str(), VariableSource::Inferred));
        }
        None
    }

    /// Resolve all variables, returning the final values.  Where a required
    /// variable has no value, the first such variable in the order of
    /// strings is the error.
    pub fn resolve_all(&self, required: &[String]) -> (all: Result<StrMap<String>, String>)
        ensures
            match all {
                Ok(values) => values@ == self@.resolved() && forall|n: Seq<char>|
                    !self@.missing(strs(required@), n),
                Err(name) => self@.missing(strs(required@), name@) && forall|n: Seq<char>|
                    self@.missing(strs(required@), n) ==> spec_str_le(name@, n),
            },
    {
        let ghost names = strs(required@);
        let mut least: Option<usize> = None;
        let mut i: usize = 0;
        while i < required.len()
            invariant
                i <= required.len(),
                names == strs(required@),
                match least {
                    Some(at) => at < i && self@.missing(names, names[at as int]) && forall|k: int|
                        0 <= k < i && !self@.known(#[trigger] names[k]) ==> spec_str_le(
                            names[at as int],
                            names[k],
                        ),
                    None => forall|k: int| 0 <= k < i ==> self@.known(#[trigger] names[k]),
                },
            decreases required.len() - i,
        {
            let name = &required[i];
            assert(names[i as int] == name@);
            if self.get(name.as_str()).is_none() {
                let better = match least {
                    Some(at) => !str_le(required[at].as_str(), name.as_str()),
                    None => true,
                };
                proof {
                    assert(names.contains(names[i as int]));
                    crate::order::lemma_bytes_le_total(
                        vstd::utf8::encode_utf8(name@),
                        vstd::utf8::encode_utf8(name@),
                    );
                    if let Some(at) = least {
                        if better {
                            crate::order::lemma_bytes_le_total(
                                vstd::utf8::encode_utf8(names[at as int]),
                                vstd::utf8::encode_utf8(name@),
                            );
                            assert forall|k: int|
                                0 <= k < i && !self@.known(
                                    #[trigger] names[k],
                                ) implies spec_str_le(name@, names[k]) by {
                                crate::order::lemma_bytes_le_transitive(
                                    vstd::utf8::encode_utf8(name@),
                                    vstd::utf8::encode_utf8(names[at as int]),
                                    vstd::utf8::encode_utf8(names[k]),
                                );
                            }
                        }
                    }
                }
                if better {
                    least = Some(i);
                }
            }
            i += 1;
        }
        match least {
            Some(at) => {
                proof {
                    assert forall|n: Seq<char>| self@.missing(names, n) implies spec_str_le(
                        names[at as int],
                        n,
                    ) by {
                        let k = choose|k: int| 0 <= k < names.len() && names[k] == n;
                        assert(!self@.known(names[k]));
                    }
                }
                Err(required[at].clone())
            },
            None => {
                let mut values: StrMap<String> = StrMap::new();
                merge_into(&mut values, &self.inferred);
                merge_into(&mut values, &self.seed_defaults);
                merge_into(&mut values, &self.config);
                merge_into(&mut values, &self.cli);
                proof {
                    assert(values@ =~= self@.resolved());
                    assert forall|n: Seq<char>| !self@.missing(names, n) by {
                        if names.contains(n) {
                            let k = choose|k: int| 0 <= k < names.len() && names[k] == n;
                            assert(self@.known(names[k]));
                        }
                    }
                }
                Ok(values)
            },
        }
    }

    /// Get all resolved variables with their sources, in the order of
    /// their names.
    pub fn all_with_sources(&self) -> (all: Vec<Resolved>)
        ensures
            spec_ascending(spec_names(all@)),
            forall|n: Seq<char>| spec_names(all@).contains(n) <==> self@.known(n),
            forall|i: int|
                0 <= i < all@.len() ==> self@.get((#[trigger] all@[i]).name@) == Some(
                    (all@[i].value@, all@[i].source),
                ),
    {
        let mut names: Vec<String> = Vec::new();
        assert(spec_ascending(strs(names@)));
        let ghost n0 = strs(names@);
        collect_names(&mut names, &self.cli);
        let ghost n1 = strs(names@);
        collect_names(&mut names, &self.config);
        let ghost n2 = strs(names@);
        collect_names(&mut names, &self.seed_defaults);
        let ghost n3 = strs(names@);
        collect_names(&mut names, &self.inferred);
        assert forall|n: Seq<char>| strs(names@).contains(n) <==> self@.known(n) by {
            assert(!n0.contains(n));
            assert(n1.contains(n) <==> (n0.contains(n) || self.cli@.contains_key(n)));
            assert(n2.contains(n) <==> (n1.contains(n) || self.config@.contains_key(n)));
            assert(n3.contains(n) <==> (n2.contains(n) || self.seed_defaults@.contains_key(n)));
            assert(strs(names@).contains(n) <==> (n3.contains(n) || self.inferred@.contains_key(
                n,
            )));
        }
        let mut all: Vec<Resolved> = Vec::new();
        let mut i: usize = 0;
        while i < names.len()
            invariant
                i <= names.len(),
                all@.len() == i,
                forall|n: Seq<char>| strs(names@).contains(n) <==> self@.known(n),
                forall|k: int| 0 <= k < i ==> (#[trigger] all@[k]).name@ == names@[k]@,
                forall|k: int|
                    0 <= k < i ==> self@.get((#[trigger] all@[k]).name@) == Some(
                        (all@[k].value@, all@[k].source),
                    ),
            decreases names.len() - i,
        {
            let name = &names[i];
            assert(strs(names@)[i as int] == name@);
            assert(strs(names@).contains(name@));
            assert(self@.known(name@));
            match self.get(name.as_str()) {
                Some((value, source)) => {
                    all.push(Resolved { name: name.clone(), value: value.to_owned(), source });
                },
                None => {},
            }
            i += 1;
        }
        assert(spec_names(all@) =~= strs(names@));
        all
    }
}

/// What can be inferred of the author: the name and mail address that git
/// is configured with, and failing a name there, the user's login name.
pub open spec fn spec_inferred(
    git_name: Option<Seq<char>>,
    git_email: Option<Seq<char>>,
    user: Option<Seq<char>>,
) -> Map<Seq<char>, Seq<char>> {
    let author = match git_name {
        Some(name) => Some(name),
        None => user,
    };
    let with_author = match author {
        Some(a) => Map::<Seq<char>, Seq<char>>::empty().insert("author"@, a),
        None => Map::<Seq<char>, Seq<char>>::empty(),
    };
    match git_email {
        Some(mail) => with_author.insert("email"@, mail),
        None => with_author,
    }
}

/// Infers variables from what git and the environment say.
pub fn infer_variables(
    git_name: Option<String>,
    git_email: Option<String>,
    user: Option<String>,
) -> (vars: StrMap<String>)
    ensures
        vars@ == spec_inferred(opt_view(git_name), opt_view(git_email), opt_view(user)),
{
    let mut vars: StrMap<String> = StrMap::new();
    match git_name {
        Some(name) => {
            vars.insert("author".to_owned(), name);
        },
        None => match user {
            Some(login) => {
                vars.insert("author".to_owned(), login);
            },
            None => {},
        },
    }
    match git_email {
        Some(mail) => {
            vars.insert("email".to_owned(), mail);
        },
        None => {},
    }
    vars
}

/// The variables that the fields of a global configuration give: those of
/// its `[variables]` section, which must hold nothing but strings; none at
/// all without such a section.
pub open spec fn spec_config_variables(fields: Seq<FieldView>) -> Option<
    Map<Seq<char>, Seq<char>>,
> {
    match spec_get(fields, "variables"@) {
        None => Some(Map::empty()),
        Some(ConfigView::Table(section)) => if spec_all_strings(section, section.len()) {
            Some(spec_string_table(section, section.len()))
        } else {
            None
        },
        Some(_) => None,
    }
}

/// The variables that the text of a global configuration gives; none if
/// it is no configuration.
pub open spec fn spec_global_variables(text: Seq<char>) -> Option<Map<Seq<char>, Seq<char>>> {
    match toml_document(text) {
        Ok(ConfigView::Table(fields)) => spec_config_variables(fields),
        _ => None,
    }
}

/// Reads the variables of a global configuration from its text.  A text
/// that is no configuration gives none.
pub fn config_variables(text: &str) -> (variables: Option<StrMap<String>>)
    ensures
        match variables {
            Some(vars) => spec_global_variables(text@) == Some(vars@),
            None => spec_global_variables(text@) is None,
        },
{
    match Config::parse(text) {
        Ok(Config::Table(fields)) => match get(&fields, "variables") {
            None => Some(StrMap::new()),
            Some(Config::Table(section)) => string_table(section),
            Some(_) => None,
        },
        _ => None,
    }
}

/// The variables that the first `n` of `given` give, a later one standing
/// for an earlier one of its name.
pub open spec fn spec_given_pairs(given: Seq<(String, String)>, n: nat) -> Map<
    Seq<char>,
    Seq<char>,
>
    decreases n,
{
    if n == 0 || n > given.len() {
        Map::empty()
    } else {
        spec_given_pairs(given, (n - 1) as nat).insert(given[n - 1].0@, given[n - 1].1@)
    }
}

/// The variables of the command line for a new project: those given with
/// it, and the project's name as `name`, which stands for any `name` given.
pub fn cli_variables(name: &str, given: &Vec<(String, String)>) -> (vars: StrMap<String>)
    ensures
        vars@ == spec_given_pairs(given@, given@.len()).insert("name"@, name@),
{
    let mut vars: StrMap<String> = StrMap::new();
    let mut i: usize = 0;
    while i < given.len()
        invariant
            i <= given.len(),
            vars@ == spec_given_pairs(given@, i as nat),
        decreases given.len() - i,
    {
        vars.insert(given[i].0.clone(), given[i].1.clone());
        i += 1;
    }
    vars.insert("name".to_owned(), name.to_owned());
    vars
}

/// The variables of the command line after the user was asked for the one
/// that was missing: the project's name, and the answer.
pub fn prompted_variables(name: &str, missing: String, answer: String) -> (vars: StrMap<String>)
    ensures
        vars@ == Map::<Seq<char>, Seq<char>>::empty().insert("name"@, name@).insert(
            missing@,
            answer@,
        ),
{
    let mut vars: StrMap<String> = StrMap::new();
    vars.insert("name".to_owned(), name.to_owned());
    vars.insert(missing, answer);
    vars
}

} // verus!
