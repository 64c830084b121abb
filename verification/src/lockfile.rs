//! The lockfile: for each tool, the package that was resolved for it in
//! each ecosystem.

use vstd::prelude::*;
use crate::strmap::StrMap;
use crate::text::{opt_view, str_eq};
use crate::value::spec_fit_for_toml;
use crate::value::{
    fields_view, get, get_str, lemma_fields, lemma_lookup_among, lemma_lookup_last, spec_as_str,
    spec_get, spec_lookup, to_document, toml_document, toml_text, Config, ConfigView, Field,
    FieldView,
};

verus! {

/// A locked package for a specific ecosystem.
#[derive(Debug)]
pub struct LockedPackage {
    /// Package name in this ecosystem.
    pub package: String,
    /// Resolved version.
    pub version: String,
    /// Hash if available (nix, etc.).
    pub hash: Option<String>,
    /// Archive URL for historical versions.
    pub archive: Option<String>,
    /// Nixpkgs revision for nix.
    pub nixpkgs: Option<String>,
}

/// What the contracts say of a [`LockedPackage`].
pub struct LockedPackageView {
    pub package: Seq<char>,
    pub version: Seq<char>,
    pub hash: Option<Seq<char>>,
    pub archive: Option<Seq<char>>,
    pub nixpkgs: Option<Seq<char>>,
}

impl View for LockedPackage {
    type V = LockedPackageView;

    open spec fn view(&self) -> LockedPackageView {
        LockedPackageView {
            package: self.package@,
            version: self.version@,
            hash: opt_view(self.hash),
            archive: opt_view(self.archive),
            nixpkgs: opt_view(self.nixpkgs),
        }
    }
}

/// A locked tool with resolved packages per ecosystem.
pub struct LockedTool {
    /// Canonical source (e.g., "github:BurntSushi/ripgrep").
    pub source: String,
    /// The version constraint that was asked for.
    pub constraint: String,
    /// Resolved packages per ecosystem.
    pub ecosystems: StrMap<LockedPackage>,
}

/// What the contracts say of a [`LockedTool`].
pub struct LockedToolView {
    pub source: Seq<char>,
    pub constraint: Seq<char>,
    pub ecosystems: Map<Seq<char>, LockedPackageView>,
}

impl View for LockedTool {
    type V = LockedToolView;

    open spec fn view(&self) -> LockedToolView {
        LockedToolView {
            source: self.source@,
            constraint: self.constraint@,
            ecosystems: self.ecosystems@,
        }
    }
}

/// A parsed lockfile.
pub struct Lockfile {
    /// Locked tool entries.
    pub tools: StrMap<LockedTool>,
}

impl View for Lockfile {
    type V = Map<Seq<char>, LockedToolView>;

    open spec fn view(&self) -> Map<Seq<char>, LockedToolView> {
        self.tools@
    }
}

/// Errors that can occur with lockfiles.
#[derive(Debug)]
pub enum LockfileError {
    /// The lockfile could not be read or written.
    Io(String),
    /// The lockfile is not what a lockfile looks like.
    Parse(String),
    /// The lockfile could not be written down.
    Serialize(String),
}

/// The package locked for a tool in an ecosystem, if both are there.
pub open spec fn spec_locked(
    lockfile: Map<Seq<char>, LockedToolView>,
    tool: Seq<char>,
    ecosystem: Seq<char>,
) -> Option<LockedPackageView> {
    if lockfile.contains_key(tool) && lockfile[tool].ecosystems.contains_key(ecosystem) {
        Some(lockfile[tool].ecosystems[ecosystem])
    } else {
        None
    }
}

impl Default for Lockfile {
    fn default() -> (lockfile: Lockfile)
        ensures
            lockfile@ == Map::<Seq<char>, LockedToolView>::empty(),
    {
        Lockfile { tools: StrMap::new() }
    }
}

impl Lockfile {
    /// The lockfile that was loaded, or an empty one if none could be.
    pub fn load_or_default(loaded: Result<Lockfile, LockfileError>) -> (lockfile: Lockfile)
        ensures
            lockfile@ == match loaded {
                Ok(l) => l@,
                Err(_) => Map::<Seq<char>, LockedToolView>::empty(),
            },
    {
        match loaded {
            Ok(lockfile) => lockfile,
            Err(_) => Lockfile { tools: StrMap::new() },
        }
    }

    /// Get the locked package for a tool in a specific ecosystem.
    pub fn get(&self, tool: &str, ecosystem: &str) -> (locked: Option<&LockedPackage>)
        ensures
            match locked {
                Some(package) => spec_locked(self@, tool@, ecosystem@) == Some(package@),
                None => spec_locked(self@, tool@, ecosystem@) is None,
            },
    {
        match self.tools.get(tool) {
            Some(entry) => entry.ecosystems.get(ecosystem),
            None => None,
        }
    }

    /// Check if a tool is locked.
    pub fn has_tool(&self, tool: &str) -> (locked: bool)
        ensures
            locked == self@.contains_key(tool@),
    {
        self.tools.contains_key(tool)
    }
}

/// What an entry that may be left out says: nothing if it is left out, a
/// string if it is one, and no sense otherwise.
pub open spec fn spec_optional(value: Option<ConfigView>) -> Option<Option<Seq<char>>> {
    match value {
        None => Some(None),
        Some(ConfigView::String(s)) => Some(Some(s)),
        Some(_) => None,
    }
}

/// The locked package that a value describes: a table with a `package`
/// and a `version`, both strings, and perhaps a `hash`, an `archive` and a
/// `nixpkgs`, strings too.
pub open spec fn spec_locked_package(value: ConfigView) -> Option<LockedPackageView> {
    match value {
        ConfigView::Table(fields) => match (
            spec_as_str(spec_get(fields, "package"@)),
            spec_as_str(spec_get(fields, "version"@)),
            spec_optional(spec_get(fields, "hash"@)),
            spec_optional(spec_get(fields, "archive"@)),
            spec_optional(spec_get(fields, "nixpkgs"@)),
        ) {
            (Some(package), Some(version), Some(hash), Some(archive), Some(nixpkgs)) => Some(
                LockedPackageView { package, version, hash, archive, nixpkgs },
            ),
            _ => None,
        },
        _ => None,
    }
}

/// Whether a key of a locked tool is one of its own entries, and so no
/// ecosystem.
pub open spec fn spec_is_tool_entry(key: Seq<char>) -> bool {
    key == "source"@ || key == "constraint"@
}

/// Whether each of the first `n` fields of a locked tool, but for its own
/// entries, describes a locked package.
pub open spec fn spec_packages_ok(fields: Seq<FieldView>, n: nat) -> bool {
    forall|i: int|
        0 <= i < n && i < fields.len() && !spec_is_tool_entry((#[trigger] fields[i]).key)
            ==> spec_locked_package(fields[i].value) is Some
}

/// The locked packages among the first `n` fields of a locked tool, by
/// ecosystem.
pub open spec fn spec_packages(fields: Seq<FieldView>, n: nat) -> Map<Seq<char>, LockedPackageView> {
    Map::new(
        |k: Seq<char>| !spec_is_tool_entry(k) && spec_lookup(fields, n, k) is Some,
        |k: Seq<char>| spec_locked_package(spec_lookup(fields, n, k).unwrap()).unwrap(),
    )
}

/// The locked tool that a value describes: a table with a `source` and a
/// `constraint`, both strings, in which every other key is an ecosystem
/// with its locked package.
pub open spec fn spec_locked_tool(value: ConfigView) -> Option<LockedToolView> {
    match value {
        ConfigView::Table(fields) => match (
            spec_as_str(spec_get(fields, "source"@)),
            spec_as_str(spec_get(fields, "constraint"@)),
        ) {
            (Some(source), Some(constraint)) => if spec_packages_ok(fields, fields.len()) {
                Some(
                    LockedToolView {
                        source,
                        constraint,
                        ecosystems: spec_packages(fields, fields.len()),
                    },
                )
            } else {
                None
            },
            _ => None,
        },
        _ => None,
    }
}

/// Whether each of the first `n` fields of a lockfile describes a locked
/// tool.
pub open spec fn spec_tools_ok(fields: Seq<FieldView>, n: nat) -> bool {
    forall|i: int|
        0 <= i < n && i < fields.len() ==> spec_locked_tool((#[trigger] fields[i]).value) is Some
}

/// The locked tools among the first `n` fields of a lockfile, by name.
pub open spec fn spec_tools(fields: Seq<FieldView>, n: nat) -> Map<Seq<char>, LockedToolView> {
    Map::new(
        |k: Seq<char>| spec_lookup(fields, n, k) is Some,
        |k: Seq<char>| spec_locked_tool(spec_lookup(fields, n, k).unwrap()).unwrap(),
    )
}

/// The lockfile that the fields of a document describe, if each of them
/// describes a locked tool.
pub open spec fn spec_lockfile(fields: Seq<FieldView>) -> Option<Map<Seq<char>, LockedToolView>> {
    if spec_tools_ok(fields, fields.len()) {
        Some(spec_tools(fields, fields.len()))
    } else {
        None
    }
}

/// An entry that may be left out: a string, nothing, or no sense.
fn optional(fields: &Vec<Field>, key: &str) -> (entry: Option<Option<String>>)
    ensures
        match entry {
            Some(e) => spec_optional(spec_get(fields_view(fields@), key@)) == Some(opt_view(e)),
            None => spec_optional(spec_get(fields_view(fields@), key@)) is None,
        },
{
    match get(fields, key) {
        None => Some(None),
        Some(Config::String(s)) => Some(Some(s.clone())),
        Some(_) => None,
    }
}

fn is_tool_entry(key: &str) -> (own: bool)
    ensures
        own == spec_is_tool_entry(key@),
{
    str_eq(key, "source") || str_eq(key, "constraint")
}

impl LockedPackage {
    /// Reads a locked package from a value.
    pub fn from_toml(value: &Config) -> (package: Option<LockedPackage>)
        ensures
            match package {
                Some(p) => spec_locked_package(value@) == Some(p@),
                None => spec_locked_package(value@) is None,
            },
    {
        match value {
            Config::Table(fields) => {
                let package = match get_str(fields, "package") {
                    Some(p) => p,
                    None => {
                        return None;
                    },
                };
                let version = match get_str(fields, "version") {
                    Some(v) => v,
                    None => {
                        return None;
                    },
                };
                let hash = match optional(fields, "hash") {
                    Some(h) => h,
                    None => {
                        return None;
                    },
                };
                let archive = match optional(fields, "archive") {
                    Some(a) => a,
                    None => {
                        return None;
                    },
                };
                let nixpkgs = match optional(fields, "nixpkgs") {
                    Some(n) => n,
                    None => {
                        return None;
                    },
                };
                Some(
                    LockedPackage {
                        package: package.to_owned(),
                        version: version.to_owned(),
                        hash,
                        archive,
                        nixpkgs,
                    },
                )
            },
            _ => None,
        }
    }

    /// The fields that describe the package.
    pub fn to_fields(&self) -> (fields: Vec<Field>)
        ensures
            spec_locked_package(ConfigView::Table(fields_view(fields@))) == Some(self@),
    {
        let mut fields: Vec<Field> = Vec::new();
        match &self.hash {
            Some(h) => {
                fields.push(Field { key: "hash".to_owned(), value: Config::String(h.clone()) });
            },
            None => {},
        }
        match &self.archive {
            Some(a) => {
                fields.push(Field { key: "archive".to_owned(), value: Config::String(a.clone()) });
            },
            None => {},
        }
        match &self.nixpkgs {
            Some(n) => {
                fields.push(Field { key: "nixpkgs".to_owned(), value: Config::String(n.clone()) });
            },
            None => {},
        }
        fields.push(
            Field { key: "version".to_owned(), value: Config::String(self.version.clone()) },
        );
        fields.push(
            Field { key: "package".to_owned(), value: Config::String(self.package.clone()) },
        );
        proof {
            lemma_fields(fields@, fields@.len());
            reveal_with_fuel(spec_lookup, 6);
            reveal_strlit("hash");
            reveal_strlit("archive");
            reveal_strlit("nixpkgs");
            reveal_strlit("version");
            reveal_strlit("package");
            assert("hash"@.len() == 4 && "archive"@.len() == 7 && "nixpkgs"@.len() == 7
                && "version"@.len() == 7 && "package"@.len() == 7);
            assert("archive"@[0] == 'a' && "nixpkgs"@[0] == 'n' && "version"@[0] == 'v'
                && "package"@[0] == 'p');
        }
        fields
    }
}

impl LockedTool {
    /// Reads a locked tool from a value.
    pub fn from_toml(value: &Config) -> (tool: Option<LockedTool>)
        ensures
            match tool {
                Some(t) => spec_locked_tool(value@) == Some(t@),
                None => spec_locked_tool(value@) is None,
            },
    {
        match value {
            Config::Table(fields) => {
                let source = match get_str(fields, "source") {
                    Some(s) => s,
                    None => {
                        return None;
                    },
                };
                let constraint = match get_str(fields, "constraint") {
                    Some(c) => c,
                    None => {
                        return None;
                    },
                };
                let ghost views = fields_view(fields@);
                proof {
                    lemma_fields(fields@, fields@.len());
                }
                let mut ecosystems: StrMap<LockedPackage> = StrMap::new();
                let mut i: usize = 0;
                assert(ecosystems@ =~= spec_packages(views, 0));
                while i < fields.len()
                    invariant
                        i <= fields.len(),
                        views == fields_view(fields@),
                        views.len() == fields@.len(),
                        forall|k: int| 0 <= k < views.len() ==> #[trigger] views[k] == fields@[k]@,
                        value@ == ConfigView::Table(views),
                        spec_packages_ok(views, i as nat),
                        ecosystems@ == spec_packages(views, i as nat),
                    decreases fields.len() - i,
                {
                    let field = &fields[i];
                    assert(views[i as int] == field@);
                    if !is_tool_entry(field.key.as_str()) {
                        match LockedPackage::from_toml(&field.value) {
                            Some(package) => {
                                ecosystems.insert(field.key.clone(), package);
                            },
                            None => {
                                assert(!spec_packages_ok(views, views.len()));
                                return None;
                            },
                        }
                    }
                    proof {
                        assert forall|k: Seq<char>|
                            !spec_is_tool_entry(k) && spec_lookup(
                                views,
                                i as nat,
                                k,
                            ) is Some implies spec_locked_package(
                            spec_lookup(views, i as nat, k).unwrap(),
                        ) is Some by {
                            lemma_lookup_among(views, i as nat, k);
                        }
                        assert(ecosystems@ =~= spec_packages(views, (i + 1) as nat));
                    }
                    i += 1;
                }
                Some(
                    LockedTool {
                        source: source.to_owned(),
                        constraint: constraint.to_owned(),
                        ecosystems,
                    },
                )
            },
            _ => None,
        }
    }
}

impl Lockfile {
    /// Reads a lockfile from the fields of a document: each is a tool with
    /// what is locked for it.
    pub fn from_fields(fields: &Vec<Field>) -> (lockfile: Option<Lockfile>)
        ensures
            match lockfile {
                Some(l) => spec_lockfile(fields_view(fields@)) == Some(l@),
                None => spec_lockfile(fields_view(fields@)) is None,
            },
    {
        let ghost views = fields_view(fields@);
        proof {
            lemma_fields(fields@, fields@.len());
        }
        let mut tools: StrMap<LockedTool> = StrMap::new();
        let mut i: usize = 0;
        assert(tools@ =~= spec_tools(views, 0));
        while i < fields.len()
            invariant
                i <= fields.len(),
                views == fields_view(fields@),
                views.len() == fields@.len(),
                forall|k: int| 0 <= k < views.len() ==> #[trigger] views[k] == fields@[k]@,
                spec_tools_ok(views, i as nat),
                tools@ == spec_tools(views, i as nat),
            decreases fields.len() - i,
        {
            let field = &fields[i];
            assert(views[i as int] == field@);
            match LockedTool::from_toml(&field.value) {
                Some(tool) => {
                    tools.insert(field.key.clone(), tool);
                },
                None => {
                    assert(!spec_tools_ok(views, views.len()));
                    return None;
                },
            }
            proof {
                assert forall|k: Seq<char>|
                    spec_lookup(views, i as nat, k) is Some implies spec_locked_tool(
                    spec_lookup(views, i as nat, k).unwrap(),
                ) is Some by {
                    lemma_lookup_among(views, i as nat, k);
                }
                assert(tools@ =~= spec_tools(views, (i + 1) as nat));
            }
            i += 1;
        }
        Some(Lockfile { tools })
    }

    /// Parse a lockfile from a TOML string.
    pub fn parse(s: &str) -> (lockfile: Result<Lockfile, LockfileError>)
        ensures
            match lockfile {
                Ok(l) => toml_document(s@) matches Ok(ConfigView::Table(fields)) && spec_lockfile(
                    fields,
                ) == Some(l@),
                Err(LockfileError::Parse(_)) => match toml_document(s@) {
                    Ok(ConfigView::Table(fields)) => spec_lockfile(fields) is None,
                    _ => true,
                },
                Err(_) => false,
            },
    {
        match Config::parse(s) {
            Ok(Config::Table(fields)) => match Lockfile::from_fields(&fields) {
                Some(lockfile) => Ok(lockfile),
                None => Err(
                    LockfileError::Parse("an entry does not describe a locked tool".to_owned()),
                ),
            },
            Ok(_) => Err(LockfileError::Parse("the document is no table".to_owned())),
            Err(message) => Err(LockfileError::Parse(message)),
        }
    }

    /// The fields that describe the lockfile: for each tool a table with
    /// its source, its constraint and a table for each ecosystem.  Read
    /// back, they give the lockfile again, unless an ecosystem is called like
    /// one of a tool's own entries.
    pub fn to_fields(&self) -> (fields: Vec<Field>)
        ensures
            spec_writable(self@) ==> spec_lockfile(fields_view(fields@)) == Some(self@),
    {
        let mut fields: Vec<Field> = Vec::new();
        let n = self.tools.len();
        let ghost keys = self.tools.keys();
        let mut i: usize = 0;
        while i < n
            invariant
                i <= n,
                n == keys.len(),
                keys == self.tools.keys(),
                fields@.len() == i,
                forall|k: int|
                    0 <= k < i ==> (#[trigger] fields@[k]).key@ == keys[k] && (spec_writable_tool(
                        self@[keys[k]],
                    ) ==> spec_locked_tool(fields@[k].value@) == Some(self@[keys[k]])),
            decreases n - i,
        {
            let tool = self.tools.value_at(i);
            fields.push(
                Field { key: self.tools.key_at(i).clone(), value: Config::Table(tool.to_fields()) },
            );
            i += 1;
        }
        proof {
            if spec_writable(self@) {
                let views = fields_view(fields@);
                lemma_fields(fields@, fields@.len());
                assert forall|k: Seq<char>| #[trigger]
                    spec_tools(views, views.len()).contains_key(k) <==> self@.contains_key(k) by {
                    if self@.contains_key(k) {
                        assert(keys.contains(k));
                        let j = choose|j: int| 0 <= j < keys.len() && keys[j] == k;
                        lemma_lookup_last(views, views.len(), j);
                    }
                    if spec_lookup(views, views.len(), k) is Some {
                        lemma_lookup_among(views, views.len(), k);
                        let j = choose|j: int|
                            0 <= j < views.len() && (#[trigger] views[j]).key == k
                                && views[j].value == spec_lookup(views, views.len(), k).unwrap();
                        assert(keys.contains(keys[j]));
                    }
                }
                assert forall|k: Seq<char>| #[trigger]
                    self@.contains_key(k) implies spec_tools(views, views.len())[k] == self@[k] by {
                    assert(keys.contains(k));
                    let j = choose|j: int| 0 <= j < keys.len() && keys[j] == k;
                    lemma_lookup_last(views, views.len(), j);
                }
                assert forall|j: int| 0 <= j < views.len() implies spec_locked_tool(
                    (#[trigger] views[j]).value,
                ) is Some by {
                    assert(keys.contains(keys[j]));
                    assert(fields@[j].key@ == keys[j]);
                }
                assert(spec_tools(views, views.len()) =~= self@);
            }
        }
        fields
    }

    /// Serialize to TOML string: the document of fields that, read back,
    /// give the lockfile again, made fit for TOML; or the reason why those
    /// fields make no document.
    pub fn to_string(&self) -> (text: Result<String, LockfileError>)
        ensures
            exists|fields: Seq<FieldView>|
                #![trigger spec_fit_for_toml(fields)]
                (spec_writable(self@) ==> spec_lockfile(fields) == Some(self@)) && match text {
                    Ok(t) => toml_text(spec_fit_for_toml(fields)) == Ok::<Seq<char>, Seq<char>>(
                        t@,
                    ),
                    Err(LockfileError::Serialize(cause)) => toml_text(spec_fit_for_toml(fields))
                        == Err::<Seq<char>, Seq<char>>(cause@),
                    Err(_) => false,
                },
    {
        let fields = self.to_fields();
        let ghost views = fields_view(fields@);
        match to_document(&fields) {
            Ok(text) => {
                assert(toml_text(spec_fit_for_toml(views)) == Ok::<Seq<char>, Seq<char>>(text@));
                Ok(text)
            },
            Err(message) => {
                assert(toml_text(spec_fit_for_toml(views)) == Err::<Seq<char>, Seq<char>>(
                    message@,
                ));
                Err(LockfileError::Serialize(message))
            },
        }
    }
}

/// Whether a locked tool can be written down and read back: no ecosystem
/// of its is called like one of its own entries.
pub open spec fn spec_writable_tool(tool: LockedToolView) -> bool {
    !tool.ecosystems.contains_key("source"@) && !tool.ecosystems.contains_key("constraint"@)
}

/// Whether every tool of a lockfile can be written down and read back.
pub open spec fn spec_writable(lockfile: Map<Seq<char>, LockedToolView>) -> bool {
    forall|k: Seq<char>| #[trigger] lockfile.contains_key(k) ==> spec_writable_tool(lockfile[k])
}

impl LockedTool {
    /// The fields that describe the tool: its source, its constraint and a
    /// table for each ecosystem.
    pub fn to_fields(&self) -> (fields: Vec<Field>)
        ensures
            spec_writable_tool(self@) ==> spec_locked_tool(
                ConfigView::Table(fields_view(fields@)),
            ) == Some(self@),
    {
        let mut fields: Vec<Field> = Vec::new();
        fields.push(Field { key: "source".to_owned(), value: Config::String(self.source.clone()) });
        fields.push(
            Field { key: "constraint".to_owned(), value: Config::String(self.constraint.clone()) },
        );
        let m = self.ecosystems.len();
        let ghost keys = self.ecosystems.keys();
        let ghost held = self.ecosystems@;
        let mut j: usize = 0;
        while j < m
            invariant
                j <= m,
                m == keys.len(),
                keys == self.ecosystems.keys(),
                held == self.ecosystems@,
                fields@.len() == 2 + j,
                fields@[0]@ == (FieldView {
                    key: "source"@,
                    value: ConfigView::String(self.source@),
                }),
                fields@[1]@ == (FieldView {
                    key: "constraint"@,
                    value: ConfigView::String(self.constraint@),
                }),
                forall|k: int|
                    0 <= k < j ==> (#[trigger] fields@[2 + k]).key@ == keys[k]
                        && spec_locked_package(fields@[2 + k].value@) == Some(held[keys[k]]),
            decreases m - j,
        {
            let ghost before = fields@;
            fields.push(
                Field {
                    key: self.ecosystems.key_at(j).clone(),
                    value: Config::Table(self.ecosystems.value_at(j).to_fields()),
                },
            );
            proof {
                assert forall|k: int| 0 <= k < j + 1 implies (#[trigger] fields@[2 + k]).key@
                    == keys[k] && spec_locked_package(fields@[2 + k].value@) == Some(
                    held[keys[k]],
                ) by {
                    if k < j {
                        assert(fields@[2 + k] == before[2 + k]);
                    }
                }
            }
            j += 1;
        }
        proof {
            if spec_writable_tool(self@) {
                let views = fields_view(fields@);
                lemma_fields(fields@, fields@.len());
                reveal_strlit("source");
                reveal_strlit("constraint");
                assert("source"@.len() == 6 && "constraint"@.len() == 10);
                assert forall|i: int| 2 <= i < views.len() implies !spec_is_tool_entry(
                    (#[trigger] views[i]).key,
                ) && held.contains_key(views[i].key) && spec_locked_package(views[i].value)
                    == Some(held[views[i].key]) by {
                    let k = i - 2;
                    assert(fields@[2 + k].key@ == keys[k]);
                    assert(keys.contains(keys[k]));
                }
                lemma_lookup_last(views, views.len(), 0);
                lemma_lookup_last(views, views.len(), 1);
                assert forall|k: Seq<char>| #[trigger]
                    spec_packages(views, views.len()).contains_key(k) <==> held.contains_key(
                        k,
                    ) by {
                    if held.contains_key(k) {
                        assert(keys.contains(k));
                        let j = choose|j: int| 0 <= j < keys.len() && keys[j] == k;
                        assert(fields@[2 + j].key@ == keys[j]);
                        assert forall|q: int| 2 + j < q < views.len() implies (
                        #[trigger] views[q]).key != views[2 + j].key by {
                            let r = q - 2;
                            assert(fields@[2 + r].key@ == keys[r]);
                        }
                        lemma_lookup_last(views, views.len(), 2 + j);
                    }
                    if !spec_is_tool_entry(k) && spec_lookup(views, views.len(), k) is Some {
                        lemma_lookup_among(views, views.len(), k);
                    }
                }
                assert forall|k: Seq<char>| #[trigger]
                    held.contains_key(k) implies spec_packages(views, views.len())[k]
                    == held[k] by {
                    assert(keys.contains(k));
                    let j = choose|j: int| 0 <= j < keys.len() && keys[j] == k;
                    assert(fields@[2 + j].key@ == keys[j]);
                    assert forall|q: int| 2 + j < q < views.len() implies (
                    #[trigger] views[q]).key != views[2 + j].key by {
                        let r = q - 2;
                        assert(fields@[2 + r].key@ == keys[r]);
                    }
                    lemma_lookup_last(views, views.len(), 2 + j);
                }
                assert(spec_packages(views, views.len()) =~= held);
                assert(spec_packages_ok(views, views.len()));
            }
        }
        fields
    }
}

/// What an error says, in words.
pub open spec fn spec_message(e: LockfileError) -> Seq<char> {
    match e {
        LockfileError::Io(cause) => "failed to read lockfile: "@ + cause@,
        LockfileError::Parse(cause) => "failed to parse lockfile: "@ + cause@,
        LockfileError::Serialize(cause) => "failed to serialize lockfile: "@ + cause@,
    }
}

impl LockfileError {
    /// What the error says, in words.
    pub fn message(&self) -> (text: String)
        ensures
            text@ == spec_message(*self),
    {
        match self {
            LockfileError::Io(cause) => {
                let mut text = "failed to read lockfile: ".to_owned();
                text.append(cause.as_str());
                text
            },
            LockfileError::Parse(cause) => {
                let mut text = "failed to parse lockfile: ".to_owned();
                text.append(cause.as_str());
                text
            },
            LockfileError::Serialize(cause) => {
                let mut text = "failed to serialize lockfile: ".to_owned();
                text.append(cause.as_str());
                text
            },
        }
    }
}

} // verus!
