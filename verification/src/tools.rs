//! What the tool commands decide: under which name a tool is installed,
//! and what is written into the lockfile for it.

use vstd::prelude::*;
use crate::ecosystem::{spec_from_id, spec_id, Ecosystem};
use crate::lockfile::{
    spec_locked, LockedPackage, LockedPackageView, LockedTool, LockedToolView, Lockfile,
};
use crate::manifest::ToolDep;
use crate::repology::{PackageInfoView, ToolInfo};
use crate::strmap::StrMap;
use crate::text::{str_eq, strs};

verus! {

/// The name of the package that provides a tool in an ecosystem: the
/// dependency's override for that ecosystem, else what the lockfile holds,
/// else the tool's own name.
pub open spec fn spec_package_name(
    tool: Seq<char>,
    overrides: Map<Seq<char>, Seq<char>>,
    lockfile: Map<Seq<char>, LockedToolView>,
    ecosystem: Ecosystem,
) -> Seq<char> {
    if overrides.contains_key(spec_id(ecosystem)) {
        overrides[spec_id(ecosystem)]
    } else {
        match spec_locked(lockfile, tool, spec_id(ecosystem)) {
            Some(package) => package.package,
            None => tool,
        }
    }
}

/// The name of the package that provides `tool` in `ecosystem`.
pub fn package_name(tool: &str, dep: &ToolDep, lockfile: &Lockfile, ecosystem: Ecosystem) -> (name:
    String)
    ensures
        name@ == spec_package_name(tool@, dep.overrides@, lockfile@, ecosystem),
{
    match dep.overrides.get(ecosystem.id()) {
        Some(name) => name.clone(),
        None => match lockfile.get(tool, ecosystem.id()) {
            Some(package) => package.package.clone(),
            None => tool.to_owned(),
        },
    }
}

/// Whether a tool that was looked for has to be installed: it has if it is
/// neither installed nor optional.
pub fn needs_install(dep: &ToolDep, installed: bool) -> (needed: bool)
    ensures
        needed == (!installed && !dep.optional),
{
    !installed && !dep.optional
}

/// Whether an answer, trimmed and in lower case, agrees: nothing, `y` and
/// `yes` do.
pub fn confirmed(answer: &str) -> (yes: bool)
    ensures
        yes == (answer@ == ""@ || answer@ == "y"@ || answer@ == "yes"@),
{
    str_eq(answer, "") || str_eq(answer, "y") || str_eq(answer, "yes")
}

/// Those of the first `n` identifiers that name an ecosystem, as
/// ecosystems.
pub open spec fn spec_named_ecosystems(ids: Seq<Seq<char>>, n: nat) -> Seq<Ecosystem>
    decreases n,
{
    if n == 0 || n > ids.len() {
        Seq::empty()
    } else {
        let before = spec_named_ecosystems(ids, (n - 1) as nat);
        match spec_from_id(ids[n - 1]) {
            Some(e) => before.push(e),
            None => before,
        }
    }
}

/// The ecosystems to lock for: those that the manifest lists, as far as
/// they are known, or else those that were detected.
pub fn lock_ecosystems(listed: Option<&Vec<String>>, detected: &Vec<Ecosystem>) -> (ecosystems:
    Vec<Ecosystem>)
    ensures
        ecosystems@ == match listed {
            Some(ids) => spec_named_ecosystems(strs(ids@), ids@.len()),
            None => detected@,
        },
{
    let mut ecosystems: Vec<Ecosystem> = Vec::new();
    match listed {
        Some(ids) => {
            let mut i: usize = 0;
            while i < ids.len()
                invariant
                    i <= ids.len(),
                    ecosystems@ == spec_named_ecosystems(strs(ids@), i as nat),
                decreases ids.len() - i,
            {
                assert(strs(ids@)[i as int] == ids@[i as int]@);
                match Ecosystem::from_id(ids[i].as_str()) {
                    Some(e) => {
                        ecosystems.push(e);
                    },
                    None => {},
                }
                i += 1;
            }
        },
        None => {
            let mut i: usize = 0;
            while i < detected.len()
                invariant
                    i <= detected.len(),
                    ecosystems@ == detected@.subrange(0, i as int),
                decreases detected.len() - i,
            {
                ecosystems.push(detected[i]);
                assert(ecosystems@ =~= detected@.subrange(0, i as int + 1));
                i += 1;
            }
            assert(detected@.subrange(0, detected.len() as int) =~= detected@);
        },
    }
    ecosystems
}

/// Whether an identifier is that of one of `ecosystems`.
pub open spec fn spec_among(ecosystems: Seq<Ecosystem>, id: Seq<char>) -> bool {
    exists|i: int| 0 <= i < ecosystems.len() && spec_id(#[trigger] ecosystems[i]) == id
}

/// The package that is locked for a tool in the ecosystem `id`: the
/// override, with `override` for a version, or else what was looked up.
pub open spec fn spec_lock_entry(
    overrides: Map<Seq<char>, Seq<char>>,
    found: Map<Seq<char>, PackageInfoView>,
    id: Seq<char>,
) -> LockedPackageView {
    if overrides.contains_key(id) {
        LockedPackageView {
            package: overrides[id],
            version: "override"@,
            hash: None,
            archive: None,
            nixpkgs: None,
        }
    } else {
        LockedPackageView {
            package: found[id].name,
            version: found[id].version,
            hash: None,
            archive: None,
            nixpkgs: None,
        }
    }
}

/// The packages that are locked for a tool: one for each of `ecosystems`
/// for which there is an override or a package was looked up.
pub open spec fn spec_lock_packages(
    overrides: Map<Seq<char>, Seq<char>>,
    found: Map<Seq<char>, PackageInfoView>,
    ecosystems: Seq<Ecosystem>,
) -> Map<Seq<char>, LockedPackageView> {
    Map::new(
        |id: Seq<char>|
            spec_among(ecosystems, id) && (overrides.contains_key(id) || found.contains_key(id)),
        |id: Seq<char>| spec_lock_entry(overrides, found, id),
    )
}

/// What was looked up for a tool, by ecosystem; nothing where the lookup
/// failed.
pub open spec fn spec_found(info: Option<&ToolInfo>) -> Map<Seq<char>, PackageInfoView> {
    match info {
        Some(i) => i.packages@,
        None => Map::empty(),
    }
}

/// Where a lock entry says it is from: the lookup, or the overrides alone.
pub open spec fn spec_lock_source(tool: Seq<char>, info: Option<&ToolInfo>) -> Seq<char> {
    match info {
        Some(_) => "repology:"@ + tool,
        None => "override"@,
    }
}

/// The lock entry of a tool, given what was looked up for it (nothing, if
/// the lookup failed) and the ecosystems to lock for.  A tool for which no
/// ecosystem has a package gets no entry.
pub fn lock_tool(
    tool: &str,
    dep: &ToolDep,
    info: Option<&ToolInfo>,
    ecosystems: &Vec<Ecosystem>,
) -> (locked: Option<LockedTool>)
    ensures
        locked is Some == (spec_lock_packages(
            dep.overrides@,
            spec_found(info),
            ecosystems@,
        ).dom().len() > 0),
        locked matches Some(entry) ==> {
            &&& entry.source@ == spec_lock_source(tool@, info)
            &&& entry.constraint@ == dep.version@
            &&& entry.ecosystems@ == spec_lock_packages(
                dep.overrides@,
                spec_found(info),
                ecosystems@,
            )
        },
{
    let ghost found = spec_found(info);
    let mut packages: StrMap<LockedPackage> = StrMap::new();
    let mut i: usize = 0;
    assert(packages@ =~= spec_lock_packages(dep.overrides@, found, ecosystems@.subrange(0, 0)));
    while i < ecosystems.len()
        invariant
            i <= ecosystems.len(),
            found == spec_found(info),
            packages@ == spec_lock_packages(
                dep.overrides@,
                found,
                ecosystems@.subrange(0, i as int),
            ),
        decreases ecosystems.len() - i,
    {
        let eco = ecosystems[i];
        let ghost before = ecosystems@.subrange(0, i as int);
        let ghost upto = ecosystems@.subrange(0, i as int + 1);
        proof {
            assert forall|id: Seq<char>|
                spec_among(upto, id) <==> (spec_among(before, id) || id == spec_id(eco)) by {
                if spec_among(upto, id) {
                    let k = choose|k: int|
                        0 <= k < upto.len() && spec_id(#[trigger] upto[k]) == id;
                    if k < i {
                        assert(before[k] == upto[k]);
                    }
                }
                if spec_among(before, id) {
                    let k = choose|k: int|
                        0 <= k < before.len() && spec_id(#[trigger] before[k]) == id;
                    assert(upto[k] == before[k]);
                }
                if id == spec_id(eco) {
                    assert(upto[i as int] == eco);
                }
            }
        }
        match dep.overrides.get(eco.id()) {
            Some(name) => {
                packages.insert(
                    eco.id().to_owned(),
                    LockedPackage {
                        package: name.clone(),
                        version: "override".to_owned(),
                        hash: None,
                        archive: None,
                        nixpkgs: None,
                    },
                );
            },
            None => {
                let looked_up = match info {
                    Some(known) => known.packages.get(eco.id()),
                    None => None,
                };
                match looked_up {
                    Some(package) => {
                        packages.insert(
                            eco.id().to_owned(),
                            LockedPackage {
                                package: package.name.clone(),
                                version: package.version.clone(),
                                hash: None,
                                archive: None,
                                nixpkgs: None,
                            },
                        );
                    },
                    None => {},
                }
            },
        }
        assert(packages@ =~= spec_lock_packages(dep.overrides@, found, upto));
        i += 1;
    }
    assert(ecosystems@.subrange(0, ecosystems.len() as int) =~= ecosystems@);
    if packages.len() == 0 {
        return None;
    }
    let source = match info {
        Some(_) => {
            let mut source = "repology:".to_owned();
            source.append(tool);
            source
        },
        None => "override".to_owned(),
    };
    Some(LockedTool { source, constraint: dep.version.clone(), ecosystems: packages })
}

/// The variables of a seed that have no default, in the seed's order.
pub open spec fn spec_required(
    keys: Seq<Seq<char>>,
    variables: Map<Seq<char>, Option<String>>,
    n: nat,
) -> Seq<Seq<char>>
    decreases n,
{
    if n == 0 || n > keys.len() {
        Seq::empty()
    } else {
        let before = spec_required(keys, variables, (n - 1) as nat);
        if variables[keys[n - 1]] is None {
            before.push(keys[n - 1])
        } else {
            before
        }
    }
}

/// The variables of a seed that need a value: those without a default.
pub fn required_variables(variables: &StrMap<Option<String>>) -> (required: Vec<String>)
    ensures
        strs(required@) == spec_required(variables.keys(), variables@, variables.keys().len()),
{
    let n = variables.len();
    let mut required: Vec<String> = Vec::new();
    let mut i: usize = 0;
    assert(strs(required@) =~= spec_required(variables.keys(), variables@, 0));
    while i < n
        invariant
            i <= n,
            n == variables.keys().len(),
            strs(required@) == spec_required(variables.keys(), variables@, i as nat),
        decreases n - i,
    {
        let ghost before = strs(required@);
        if variables.value_at(i).is_none() {
            required.push(variables.key_at(i).clone());
            assert(strs(required@) =~= before.push(variables.keys()[i as int]));
        }
        i += 1;
    }
    required
}

} // verus!
