//! Package names across ecosystems, as the Repology service reports them:
//! which of the packages it lists for a project is the one to install in
//! each ecosystem.

use vstd::prelude::*;
use vstd::utf8::encode_utf8;
use crate::ecosystem::{spec_from_id, spec_id, Ecosystem};
use crate::strmap::StrMap;
use crate::text::{
    contains, has_prefix, has_suffix, join, opt_view, spec_contains, spec_has_prefix,
    spec_has_suffix, spec_join, str_eq,
};
use crate::userdirs;
use crate::json::{json_document, json_text, parse_json, spec_toml_to_json, text_view, to_json_text};
use crate::value::{
    fields_view, get, get_str, lemma_fields, lemma_lookup_among, lemma_lookup_last,
    lemma_values, spec_as_str,
    spec_get, spec_lookup, spec_values, Config, ConfigView, Field, FieldView,
};

verus! {

/// A package entry from Repology.
#[derive(Debug)]
pub struct RepologyPackage {
    /// Repository name (e.g., "arch", "debian_12").
    pub repo: String,
    /// Visible package name (what to install).
    pub visiblename: Option<String>,
    /// Binary name (what executable to look for).
    pub binname: Option<String>,
    /// Source package name (for reference).
    pub srcname: Option<String>,
    /// Version string.
    pub version: Option<String>,
    /// Version status (newest, outdated, etc.).
    pub status: Option<String>,
    /// Summary/description.
    pub summary: Option<String>,
}

/// What the contracts say of a [`RepologyPackage`].
pub struct RepologyPackageView {
    pub repo: Seq<char>,
    pub visiblename: Option<Seq<char>>,
    pub binname: Option<Seq<char>>,
    pub srcname: Option<Seq<char>>,
    pub version: Option<Seq<char>>,
    pub status: Option<Seq<char>>,
    pub summary: Option<Seq<char>>,
}

impl View for RepologyPackage {
    type V = RepologyPackageView;

    open spec fn view(&self) -> RepologyPackageView {
        RepologyPackageView {
            repo: self.repo@,
            visiblename: opt_view(self.visiblename),
            binname: opt_view(self.binname),
            srcname: opt_view(self.srcname),
            version: opt_view(self.version),
            status: opt_view(self.status),
            summary: opt_view(self.summary),
        }
    }
}

/// The views of a list of packages, in order.
pub open spec fn packages_view(v: Seq<RepologyPackage>) -> Seq<RepologyPackageView> {
    Seq::new(v.len(), |i: int| v[i]@)
}

/// Package info for a specific ecosystem.
#[derive(Debug)]
pub struct PackageInfo {
    /// Package name in this ecosystem.
    pub name: String,
    /// Latest version available.
    pub version: String,
}

/// What the contracts say of a [`PackageInfo`].
pub struct PackageInfoView {
    pub name: Seq<char>,
    pub version: Seq<char>,
}

impl View for PackageInfo {
    type V = PackageInfoView;

    open spec fn view(&self) -> PackageInfoView {
        PackageInfoView { name: self.name@, version: self.version@ }
    }
}

/// Resolved tool information from Repology.
pub struct ToolInfo {
    /// Package per ecosystem, by the ecosystem's identifier.
    pub packages: StrMap<PackageInfo>,
    /// Binary name to look for (if different from tool name).
    pub binname: Option<String>,
}

/// Errors from the Repology client.
#[derive(Debug)]
pub enum RepologyError {
    /// The request failed.
    Http(String),
    /// The response is not what a response looks like.
    Parse(String),
    /// The cache could not be read or written.
    Cache(String),
    /// The service knows no project of this name.
    NotFound(String),
}

/// The ecosystem that a Repology repository belongs to.
pub open spec fn spec_repo_to_ecosystem(repo: Seq<char>) -> Option<Ecosystem> {
    if repo == "arch"@ || repo == "aur"@ {
        Some(Ecosystem::Pacman)
    } else if spec_has_prefix(repo, "debian"@) || spec_has_prefix(repo, "ubuntu"@) {
        Some(Ecosystem::Apt)
    } else if spec_has_prefix(repo, "fedora"@) || spec_has_prefix(repo, "centos"@)
        || spec_has_prefix(repo, "epel"@) {
        Some(Ecosystem::Dnf)
    } else if spec_has_prefix(repo, "alpine"@) {
        Some(Ecosystem::Apk)
    } else if repo == "homebrew"@ || repo == "homebrew_casks"@ {
        Some(Ecosystem::Brew)
    } else if spec_has_prefix(repo, "nix"@) {
        Some(Ecosystem::Nix)
    } else if repo == "scoop"@ {
        Some(Ecosystem::Scoop)
    } else if repo == "winget"@ {
        Some(Ecosystem::Winget)
    } else if repo == "crates_io"@ {
        Some(Ecosystem::Cargo)
    } else {
        None
    }
}

/// Map a Repology repo name to an ecosystem.
pub fn repo_to_ecosystem(repo: &str) -> (e: Option<Ecosystem>)
    ensures
        e == spec_repo_to_ecosystem(repo@),
{
    if str_eq(repo, "arch") || str_eq(repo, "aur") {
        Some(Ecosystem::Pacman)
    } else if has_prefix(repo, "debian") || has_prefix(repo, "ubuntu") {
        Some(Ecosystem::Apt)
    } else if has_prefix(repo, "fedora") || has_prefix(repo, "centos") || has_prefix(
        repo,
        "epel",
    ) {
        Some(Ecosystem::Dnf)
    } else if has_prefix(repo, "alpine") {
        Some(Ecosystem::Apk)
    } else if str_eq(repo, "homebrew") || str_eq(repo, "homebrew_casks") {
        Some(Ecosystem::Brew)
    } else if has_prefix(repo, "nix") {
        Some(Ecosystem::Nix)
    } else if str_eq(repo, "scoop") {
        Some(Ecosystem::Scoop)
    } else if str_eq(repo, "winget") {
        Some(Ecosystem::Winget)
    } else if str_eq(repo, "crates_io") {
        Some(Ecosystem::Cargo)
    } else {
        None
    }
}

/// The preferred Repology repository of an ecosystem.
pub open spec fn spec_ecosystem_to_repo(e: Ecosystem) -> Seq<char> {
    match e {
        Ecosystem::Pacman => "arch"@,
        Ecosystem::Apt => "debian_12"@,
        Ecosystem::Dnf => "fedora_40"@,
        Ecosystem::Apk => "alpine_edge"@,
        Ecosystem::Brew => "homebrew"@,
        Ecosystem::Nix => "nix_unstable"@,
        Ecosystem::Scoop => "scoop"@,
        Ecosystem::Winget => "winget"@,
        Ecosystem::Cargo => "crates_io"@,
    }
}

/// Get the preferred Repology repo for an ecosystem.
pub fn ecosystem_to_repo(ecosystem: Ecosystem) -> (repo: &'static str)
    ensures
        repo@ == spec_ecosystem_to_repo(ecosystem),
{
    match ecosystem {
        Ecosystem::Pacman => "arch",
        Ecosystem::Apt => "debian_12",
        Ecosystem::Dnf => "fedora_40",
        Ecosystem::Apk => "alpine_edge",
        Ecosystem::Brew => "homebrew",
        Ecosystem::Nix => "nix_unstable",
        Ecosystem::Scoop => "scoop",
        Ecosystem::Winget => "winget",
        Ecosystem::Cargo => "crates_io",
    }
}

/// Whether a package name is that of documentation, completions, a
/// development or debug package, or a build from source control: such
/// packages are passed over.
pub open spec fn spec_is_auxiliary(name: Seq<char>) -> bool {
    ||| spec_has_suffix(name, "-doc"@)
    ||| spec_has_suffix(name, "-docs"@)
    ||| spec_has_suffix(name, "-git"@)
    ||| spec_has_suffix(name, "-bin"@)
    ||| spec_has_suffix(name, "-dev"@)
    ||| spec_has_suffix(name, "-devel"@)
    ||| spec_has_suffix(name, "-dbg"@)
    ||| spec_contains(name, "-completion"@)
    ||| spec_contains(name, "-debug"@)
}

/// The name under which a package is judged: its visible name, or nothing.
pub open spec fn spec_judged_name(p: RepologyPackageView) -> Seq<char> {
    match p.visiblename {
        Some(n) => n,
        None => Seq::empty(),
    }
}

/// Whether a package's version is the newest.
pub open spec fn spec_is_newest(p: RepologyPackageView) -> bool {
    p.status == Some("newest"@)
}

/// The length in bytes of a visible name; a package without one counts as
/// having the longest name there is.
pub open spec fn spec_name_len(name: Option<Seq<char>>) -> usize {
    match name {
        Some(n) => encode_utf8(n).len() as usize,
        None => usize::MAX,
    }
}

/// Whether, of two packages of one repository, the one seen first stays:
/// it does if it is the newest and the other is not, or if neither the
/// other is the newest nor its name shorter.
pub open spec fn spec_keeps_existing(
    existing: RepologyPackageView,
    pkg: RepologyPackageView,
) -> bool {
    !spec_is_newest(pkg) && (spec_is_newest(existing) || spec_name_len(
        Some(spec_judged_name(pkg)),
    ) >= spec_name_len(existing.visiblename))
}

/// For each repository, where among the first `n` packages its best
/// package stands.
pub open spec fn spec_chosen(packages: Seq<RepologyPackageView>, n: nat) -> Map<Seq<char>, usize>
    decreases n,
{
    if n == 0 || n > packages.len() {
        Map::empty()
    } else {
        let before = spec_chosen(packages, (n - 1) as nat);
        let p = packages[n - 1];
        if spec_is_auxiliary(spec_judged_name(p)) {
            before
        } else if before.contains_key(p.repo) && spec_keeps_existing(
            packages[before[p.repo] as int],
            p,
        ) {
            before
        } else {
            before.insert(p.repo, (n - 1) as usize)
        }
    }
}

/// The repositories of the first `n` packages that have a best package,
/// in the order in which they were first seen.
pub open spec fn spec_repos(packages: Seq<RepologyPackageView>, n: nat) -> Seq<Seq<char>>
    decreases n,
{
    if n == 0 || n > packages.len() {
        Seq::empty()
    } else {
        let before = spec_repos(packages, (n - 1) as nat);
        let p = packages[n - 1];
        if spec_chosen(packages, n).contains_key(p.repo) && !spec_chosen(
            packages,
            (n - 1) as nat,
        ).contains_key(p.repo) {
            before.push(p.repo)
        } else {
            before
        }
    }
}

/// The name by which a package is installed: its visible name, else its
/// binary's name, else nothing.
pub open spec fn spec_install_name(p: RepologyPackageView) -> Seq<char> {
    match p.visiblename {
        Some(n) => n,
        None => match p.binname {
            Some(b) => b,
            None => Seq::empty(),
        },
    }
}

/// A package's version, or nothing.
pub open spec fn spec_version(p: RepologyPackageView) -> Seq<char> {
    match p.version {
        Some(v) => v,
        None => Seq::empty(),
    }
}

/// Whether a binary name is good to look for: not one of completions or
/// documentation.
pub open spec fn spec_good_binname(b: Seq<char>) -> bool {
    !spec_has_suffix(b, "-completion"@) && !spec_has_suffix(b, "-doc"@) && !spec_contains(
        b,
        "completion"@,
    )
}

/// The packages per ecosystem after the first `k` of `repos` were taken:
/// each repository that belongs to an ecosystem gives that ecosystem its
/// best package, if it has a name, in place of what a repository before
/// it gave.
pub open spec fn spec_tool_packages(
    packages: Seq<RepologyPackageView>,
    repos: Seq<Seq<char>>,
    chosen: Map<Seq<char>, usize>,
    k: nat,
) -> Map<Seq<char>, PackageInfoView>
    decreases k,
{
    if k == 0 || k > repos.len() {
        Map::empty()
    } else {
        let before = spec_tool_packages(packages, repos, chosen, (k - 1) as nat);
        let repo = repos[k - 1];
        let p = packages[chosen[repo] as int];
        match spec_repo_to_ecosystem(repo) {
            Some(e) => if spec_install_name(p).len() > 0 {
                before.insert(
                    spec_id(e),
                    PackageInfoView { name: spec_install_name(p), version: spec_version(p) },
                )
            } else {
                before
            },
            None => before,
        }
    }
}

/// The binary name after the first `k` of `repos` were taken: that of
/// the first repository that belongs to an ecosystem and whose best package
/// has a good one.
pub open spec fn spec_tool_binname(
    packages: Seq<RepologyPackageView>,
    repos: Seq<Seq<char>>,
    chosen: Map<Seq<char>, usize>,
    k: nat,
) -> Option<Seq<char>>
    decreases k,
{
    if k == 0 || k > repos.len() {
        None
    } else {
        let before = spec_tool_binname(packages, repos, chosen, (k - 1) as nat);
        let repo = repos[k - 1];
        let p = packages[chosen[repo] as int];
        if before is None && spec_repo_to_ecosystem(repo) is Some && p.binname is Some
            && spec_good_binname(p.binname.unwrap()) {
            p.binname
        } else {
            before
        }
    }
}

/// The packages per ecosystem that a project's listing resolves to.
pub open spec fn spec_resolved_packages(packages: Seq<RepologyPackageView>) -> Map<
    Seq<char>,
    PackageInfoView,
> {
    let repos = spec_repos(packages, packages.len());
    spec_tool_packages(packages, repos, spec_chosen(packages, packages.len()), repos.len())
}

/// The binary name that a project's listing resolves to.
pub open spec fn spec_resolved_binname(packages: Seq<RepologyPackageView>) -> Option<Seq<char>> {
    let repos = spec_repos(packages, packages.len());
    spec_tool_binname(packages, repos, spec_chosen(packages, packages.len()), repos.len())
}

fn is_auxiliary(name: &str) -> (aux: bool)
    ensures
        aux == spec_is_auxiliary(name@),
{
    has_suffix(name, "-doc") || has_suffix(name, "-docs") || has_suffix(name, "-git")
        || has_suffix(name, "-bin") || has_suffix(name, "-dev") || has_suffix(name, "-devel")
        || has_suffix(name, "-dbg") || contains(name, "-completion") || contains(name, "-debug")
}

fn is_newest(p: &RepologyPackage) -> (newest: bool)
    ensures
        newest == spec_is_newest(p@),
{
    match &p.status {
        Some(s) => str_eq(s.as_str(), "newest"),
        None => false,
    }
}

fn judged_name(p: &RepologyPackage) -> (name: &str)
    ensures
        name@ == spec_judged_name(p@),
{
    match &p.visiblename {
        Some(n) => n.as_str(),
        None => {
            proof {
                reveal_strlit("");
                assert(""@ =~= Seq::<char>::empty());
            }
            ""
        },
    }
}

fn keeps_existing(existing: &RepologyPackage, pkg: &RepologyPackage) -> (keep: bool)
    ensures
        keep == spec_keeps_existing(existing@, pkg@),
{
    if is_newest(pkg) {
        return false;
    }
    if is_newest(existing) {
        return true;
    }
    let existing_len = match &existing.visiblename {
        Some(n) => n.as_str().len(),
        None => usize::MAX,
    };
    judged_name(pkg).len() >= existing_len
}

fn good_binname(b: &str) -> (good: bool)
    ensures
        good == spec_good_binname(b@),
{
    !has_suffix(b, "-completion") && !has_suffix(b, "-doc") && !contains(b, "completion")
}

/// Processes a project's listing into the package to install in each
/// ecosystem and the binary to look for.
pub fn process_packages(packages: &Vec<RepologyPackage>) -> (info: ToolInfo)
    ensures
        info.packages@ == spec_resolved_packages(packages_view(packages@)),
        opt_view(info.binname) == spec_resolved_binname(packages_view(packages@)),
{
    let ghost views = packages_view(packages@);
    let mut chosen: StrMap<usize> = StrMap::new();
    let mut i: usize = 0;
    while i < packages.len()
        invariant
            i <= packages.len(),
            views == packages_view(packages@),
            chosen@ == spec_chosen(views, i as nat),
            chosen.keys() == spec_repos(views, i as nat),
            forall|r: Seq<char>| chosen@.contains_key(r) ==> #[trigger] chosen@[r] < i,
        decreases packages.len() - i,
    {
        let pkg = &packages[i];
        assert(views[i as int] == pkg@);
        if !is_auxiliary(judged_name(pkg)) {
            let keep = match chosen.get(pkg.repo.as_str()) {
                Some(at) => keeps_existing(&packages[*at], pkg),
                None => false,
            };
            if !keep {
                chosen.insert(pkg.repo.clone(), i);
            }
        }
        i += 1;
    }
    let n = chosen.len();
    let ghost repos = chosen.keys();
    let mut found: StrMap<PackageInfo> = StrMap::new();
    let mut binname: Option<String> = None;
    let mut k: usize = 0;
    while k < n
        invariant
            k <= n,
            n == repos.len(),
            repos == chosen.keys(),
            views == packages_view(packages@),
            forall|r: Seq<char>| chosen@.contains_key(r) ==> #[trigger] chosen@[r] < packages.len(),
            found@ == spec_tool_packages(views, repos, chosen@, k as nat),
            opt_view(binname) == spec_tool_binname(views, repos, chosen@, k as nat),
        decreases n - k,
    {
        let repo = chosen.key_at(k);
        let at = *chosen.value_at(k);
        let pkg = &packages[at];
        assert(views[at as int] == pkg@);
        match repo_to_ecosystem(repo.as_str()) {
            Some(e) => {
                let name = match &pkg.visiblename {
                    Some(n) => n.clone(),
                    None => match &pkg.binname {
                        Some(b) => b.clone(),
                        None => String::new(),
                    },
                };
                if name.as_str().unicode_len() > 0 {
                    let version = match &pkg.version {
                        Some(v) => v.clone(),
                        None => String::new(),
                    };
                    found.insert(e.id().to_owned(), PackageInfo { name, version });
                }
                if binname.is_none() {
                    match &pkg.binname {
                        Some(b) => {
                            if good_binname(b.as_str()) {
                                binname = Some(b.clone());
                            }
                        },
                        None => {},
                    }
                }
            },
            None => {},
        }
        k += 1;
    }
    ToolInfo { packages: found, binname }
}

impl ToolInfo {
    /// The package to install in an ecosystem, if one is known.
    pub fn package_for(&self, ecosystem: Ecosystem) -> (package: Option<&PackageInfo>)
        ensures
            package is Some == self.packages@.contains_key(spec_id(ecosystem)),
            package matches Some(p) ==> p@ == self.packages@[spec_id(ecosystem)],
    {
        self.packages.get(ecosystem.id())
    }

    /// The tool information that a cache entry holds: its packages, but for
    /// those that no known ecosystem is named for.
    pub fn from_cached(packages: &StrMap<PackageInfo>, binname: Option<String>) -> (info: ToolInfo)
        ensures
            info.packages@ == spec_known_packages(packages@),
            opt_view(info.binname) == opt_view(binname),
    {
        let mut kept: StrMap<PackageInfo> = StrMap::new();
        let n = packages.len();
        let ghost keys = packages.keys();
        let mut i: usize = 0;
        assert(kept@ =~= Map::new(
            |k: Seq<char>| keys.subrange(0, 0).contains(k) && spec_from_id(k) is Some,
            |k: Seq<char>| packages@[k],
        ));
        while i < n
            invariant
                i <= n,
                n == keys.len(),
                keys == packages.keys(),
                kept@ == Map::new(
                    |k: Seq<char>| keys.subrange(0, i as int).contains(k) && spec_from_id(k) is Some,
                    |k: Seq<char>| packages@[k],
                ),
            decreases n - i,
        {
            let key = packages.key_at(i);
            proof {
                let upto = keys.subrange(0, i as int + 1);
                assert(upto =~= keys.subrange(0, i as int).push(keys[i as int]));
                assert forall|m: Seq<char>|
                    upto.contains(m) <==> (keys.subrange(0, i as int).contains(m) || m
                        == keys[i as int]) by {
                    crate::text::lemma_contains_push(
                        keys.subrange(0, i as int),
                        keys[i as int],
                        m,
                    );
                }
            }
            if Ecosystem::from_id(key.as_str()).is_some() {
                let p = packages.value_at(i);
                kept.insert(key.clone(), PackageInfo { name: p.name.clone(), version: p.version.clone() });
            }
            assert(kept@ =~= Map::new(
                |k: Seq<char>|
                    keys.subrange(0, i as int + 1).contains(k) && spec_from_id(k) is Some,
                |k: Seq<char>| packages@[k],
            ));
            i += 1;
        }
        proof {
            assert(keys.subrange(0, n as int) =~= keys);
            assert(kept@ =~= spec_known_packages(packages@));
        }
        ToolInfo { packages: kept, binname }
    }
}

/// Where the cache lies below the user's cache directory, and where if
/// there is none.
pub open spec fn spec_cache_dir_in(cache_dir: Option<Seq<char>>) -> Seq<char> {
    spec_join(
        spec_join(
            match cache_dir {
                Some(d) => d,
                None => ".cache"@,
            },
            "nursery"@,
        ),
        "repology"@,
    )
}

/// How long a cache entry stays good, in seconds: a day.
pub open spec fn spec_cache_ttl() -> u64 {
    86400
}

/// A Repology API client with local caching.
#[derive(Debug)]
pub struct RepologyClient {
    cache_dir: String,
    cache_ttl: u64,
}

/// What a lookup has to do next.
pub enum Lookup {
    /// The cache holds the answer.
    Cached(ToolInfo),
    /// The project has to be asked for at `url`, and the answer, once
    /// processed, written to `cache_path`.
    Fetch { url: String, cache_path: String },
}

impl RepologyClient {
    /// The directory of the cache.
    pub closed spec fn spec_cache_dir(&self) -> Seq<char> {
        self.cache_dir@
    }

    /// How long an entry stays good, in seconds.
    pub closed spec fn spec_ttl(&self) -> u64 {
        self.cache_ttl
    }

    /// Where the cache lies below the user's cache directory, and where if
    /// there is none.
    pub fn cache_dir_in(cache_dir: Option<String>) -> (dir: String)
        ensures
            dir@ == spec_cache_dir_in(opt_view(cache_dir)),
    {
        let base = match cache_dir {
            Some(d) => d,
            None => ".cache".to_owned(),
        };
        join(join(base.as_str(), "nursery").as_str(), "repology")
    }

    /// Create a new client with default cache settings: the cache lies
    /// below the user's cache directory, whichever that is.
    pub fn new() -> (client: Self)
        ensures
            client.spec_ttl() == spec_cache_ttl(),
            exists|dir: Option<Seq<char>>|
                client.spec_cache_dir() == #[trigger] spec_cache_dir_in(dir),
    {
        let dir = userdirs::cache_dir();
        let ghost given = opt_view(dir);
        let client = RepologyClient {
            cache_dir: RepologyClient::cache_dir_in(dir),
            cache_ttl: 86400,
        };
        assert(client.spec_cache_dir() == spec_cache_dir_in(given));
        client
    }

    /// Create a client with a custom cache directory.
    pub fn with_cache_dir(cache_dir: String) -> (client: Self)
        ensures
            client.spec_cache_dir() == cache_dir@,
            client.spec_ttl() == spec_cache_ttl(),
    {
        RepologyClient { cache_dir, cache_ttl: 86400 }
    }

    /// The cache directory.
    pub fn cache_dir(&self) -> (dir: &str)
        ensures
            dir@ == self.spec_cache_dir(),
    {
        self.cache_dir.as_str()
    }

    /// Get the cache file path for a project.
    pub fn cache_path(&self, project: &str) -> (path: String)
        ensures
            path@ == spec_join(self.spec_cache_dir(), project@ + ".json"@),
    {
        let mut file = project.to_owned();
        file.append(".json");
        join(self.cache_dir.as_str(), file.as_str())
    }

    /// The address at which a project is asked for.
    pub fn project_url(project: &str) -> (url: String)
        ensures
            url@ == "https://repology.org/api/v1/project/"@ + project@,
    {
        let mut url = "https://repology.org/api/v1/project/".to_owned();
        url.append(project);
        url
    }

    /// Whether a cache entry of this age, in whole seconds and the
    /// nanoseconds beyond them, is still good: it is unless it is older than
    /// the time that entries stay good.  An entry whose age is not known is
    /// not.
    pub fn cache_is_fresh(&self, age: Option<(u64, u32)>) -> (fresh: bool)
        ensures
            fresh == match age {
                Some((secs, nanos)) => secs < self.spec_ttl() || (secs == self.spec_ttl()
                    && nanos == 0),
                None => false,
            },
    {
        match age {
            Some((secs, nanos)) => secs < self.cache_ttl || (secs == self.cache_ttl && nanos
                == 0),
            None => false,
        }
    }

    /// Look up a project by name: the cache's answer if it has a good one,
    /// else what to ask the service.
    pub fn lookup(&self, project: &str, cached: Option<ToolInfo>) -> (next: Lookup)
        ensures
            match cached {
                Some(info) => next == Lookup::Cached(info),
                None => next matches Lookup::Fetch { url, cache_path } && url@
                    == "https://repology.org/api/v1/project/"@ + project@ && cache_path@
                    == spec_join(self.spec_cache_dir(), project@ + ".json"@),
            },
    {
        match cached {
            Some(info) => Lookup::Cached(info),
            None => Lookup::Fetch {
                url: RepologyClient::project_url(project),
                cache_path: self.cache_path(project),
            },
        }
    }

    /// Process Repology packages into a ToolInfo.
    pub fn process_packages(&self, packages: Vec<RepologyPackage>) -> (info: ToolInfo)
        ensures
            info.packages@ == spec_resolved_packages(packages_view(packages@)),
            opt_view(info.binname) == spec_resolved_binname(packages_view(packages@)),
    {
        process_packages(&packages)
    }

    /// What the status of the service's answer means: a project that it
    /// does not know is an error, anything else is for the body to tell.
    pub fn check_status(status: u16, project: &str) -> (outcome: Result<(), RepologyError>)
        ensures
            match outcome {
                Ok(_) => status != 404,
                Err(RepologyError::NotFound(p)) => status == 404 && p@ == project@,
                Err(_) => false,
            },
    {
        if status == 404 {
            Err(RepologyError::NotFound(project.to_owned()))
        } else {
            Ok(())
        }
    }
}

/// What an entry of a listing says that may be left out or be nothing: a
/// string, nothing, or no sense.
pub open spec fn spec_maybe(value: Option<ConfigView>) -> Option<Option<Seq<char>>> {
    match value {
        None => Some(None),
        Some(ConfigView::Null) => Some(None),
        Some(ConfigView::String(s)) => Some(Some(s)),
        Some(_) => None,
    }
}

/// The package that a value of a listing describes: a table with a `repo`,
/// which is a string, in which the other entries, if they are there, are
/// strings or nothing.
pub open spec fn spec_package(value: ConfigView) -> Option<RepologyPackageView> {
    match value {
        ConfigView::Table(fields) => match (
            spec_as_str(spec_get(fields, "repo"@)),
            spec_maybe(spec_get(fields, "visiblename"@)),
            spec_maybe(spec_get(fields, "binname"@)),
            spec_maybe(spec_get(fields, "srcname"@)),
            spec_maybe(spec_get(fields, "version"@)),
            spec_maybe(spec_get(fields, "status"@)),
            spec_maybe(spec_get(fields, "summary"@)),
        ) {
            (
                Some(repo),
                Some(visiblename),
                Some(binname),
                Some(srcname),
                Some(version),
                Some(status),
                Some(summary),
            ) => Some(
                RepologyPackageView {
                    repo,
                    visiblename,
                    binname,
                    srcname,
                    version,
                    status,
                    summary,
                },
            ),
            _ => None,
        },
        _ => None,
    }
}

/// Whether each of the first `n` values describes a package.
pub open spec fn spec_packages_ok(values: Seq<ConfigView>, n: nat) -> bool {
    forall|i: int| 0 <= i < n && i < values.len() ==> spec_package(#[trigger] values[i]) is Some
}

/// The packages that the values of a listing describe.
pub open spec fn spec_listing(values: Seq<ConfigView>) -> Seq<RepologyPackageView> {
    Seq::new(values.len(), |i: int| spec_package(values[i]).unwrap())
}

/// The listing that the service's answer holds: a list of packages.
pub open spec fn spec_answer(body: Seq<char>) -> Option<Seq<RepologyPackageView>> {
    match json_document(body) {
        Ok(ConfigView::Array(values)) => if spec_packages_ok(values, values.len()) {
            Some(spec_listing(values))
        } else {
            None
        },
        _ => None,
    }
}

/// An entry that may be left out or be nothing: a string, nothing, or no
/// sense.
fn maybe(fields: &Vec<Field>, key: &str) -> (entry: Option<Option<String>>)
    ensures
        match entry {
            Some(e) => spec_maybe(spec_get(fields_view(fields@), key@)) == Some(opt_view(e)),
            None => spec_maybe(spec_get(fields_view(fields@), key@)) is None,
        },
{
    match get(fields, key) {
        None => Some(None),
        Some(Config::Null) => Some(None),
        Some(Config::String(s)) => Some(Some(s.clone())),
        Some(_) => None,
    }
}

impl RepologyPackage {
    /// Reads a package from a value of the service's answer.
    pub fn from_json(value: &Config) -> (package: Option<RepologyPackage>)
        ensures
            match package {
                Some(p) => spec_package(value@) == Some(p@),
                None => spec_package(value@) is None,
            },
    {
        match value {
            Config::Table(fields) => {
                let repo = match get_str(fields, "repo") {
                    Some(r) => r,
                    None => {
                        return None;
                    },
                };
                let visiblename = match maybe(fields, "visiblename") {
                    Some(v) => v,
                    None => {
                        return None;
                    },
                };
                let binname = match maybe(fields, "binname") {
                    Some(v) => v,
                    None => {
                        return None;
                    },
                };
                let srcname = match maybe(fields, "srcname") {
                    Some(v) => v,
                    None => {
                        return None;
                    },
                };
                let version = match maybe(fields, "version") {
                    Some(v) => v,
                    None => {
                        return None;
                    },
                };
                let status = match maybe(fields, "status") {
                    Some(v) => v,
                    None => {
                        return None;
                    },
                };
                let summary = match maybe(fields, "summary") {
                    Some(v) => v,
                    None => {
                        return None;
                    },
                };
                Some(
                    RepologyPackage {
                        repo: repo.to_owned(),
                        visiblename,
                        binname,
                        srcname,
                        version,
                        status,
                        summary,
                    },
                )
            },
            _ => None,
        }
    }
}

/// Reads the service's answer: the packages that it lists for a project.
pub fn parse_packages(body: &str) -> (listing: Result<Vec<RepologyPackage>, RepologyError>)
    ensures
        match listing {
            Ok(packages) => spec_answer(body@) == Some(packages_view(packages@)),
            Err(RepologyError::Parse(_)) => spec_answer(body@) is None,
            Err(_) => false,
        },
{
    let values = match parse_json(body) {
        Ok(Config::Array(values)) => values,
        Ok(_) => {
            return Err(RepologyError::Parse("the answer is no list".to_owned()));
        },
        Err(cause) => {
            return Err(RepologyError::Parse(cause));
        },
    };
    let ghost views = spec_values(values@, values@.len());
    proof {
        lemma_values(values@, values@.len());
    }
    let mut packages: Vec<RepologyPackage> = Vec::new();
    let mut i: usize = 0;
    while i < values.len()
        invariant
            i <= values.len(),
            views == spec_values(values@, values@.len()),
            views.len() == values@.len(),
            json_document(body@) == Ok::<ConfigView, Seq<char>>(ConfigView::Array(views)),
            forall|k: int| 0 <= k < views.len() ==> #[trigger] views[k] == values@[k]@,
            spec_packages_ok(views, i as nat),
            packages@.len() == i,
            forall|k: int| 0 <= k < i ==> Some((#[trigger] packages@[k])@) == spec_package(views[k]),
        decreases values.len() - i,
    {
        assert(views[i as int] == values@[i as int]@);
        match RepologyPackage::from_json(&values[i]) {
            Some(package) => {
                packages.push(package);
            },
            None => {
                assert(!spec_packages_ok(views, views.len()));
                return Err(
                    RepologyError::Parse("an entry of the answer is no package".to_owned()),
                );
            },
        }
        i += 1;
    }
    assert(packages_view(packages@) =~= spec_listing(views));
    Ok(packages)
}

/// The package that an entry of the cache describes: a table with a `name`
/// and a `version`, both strings.
pub open spec fn spec_cached_package(value: ConfigView) -> Option<PackageInfoView> {
    match value {
        ConfigView::Table(fields) => match (
            spec_as_str(spec_get(fields, "name"@)),
            spec_as_str(spec_get(fields, "version"@)),
        ) {
            (Some(name), Some(version)) => Some(PackageInfoView { name, version }),
            _ => None,
        },
        _ => None,
    }
}

/// Whether each of the first `n` fields describes a package.
pub open spec fn spec_cached_ok(fields: Seq<FieldView>, n: nat) -> bool {
    forall|i: int|
        0 <= i < n && i < fields.len() ==> spec_cached_package((#[trigger] fields[i]).value) is Some
}

/// The packages among the first `n` fields of the cache that are named
/// for a known ecosystem, by that name.
pub open spec fn spec_cached_packages(fields: Seq<FieldView>, n: nat) -> Map<
    Seq<char>,
    PackageInfoView,
> {
    Map::new(
        |k: Seq<char>| spec_from_id(k) is Some && spec_lookup(fields, n, k) is Some,
        |k: Seq<char>| spec_cached_package(spec_lookup(fields, n, k).unwrap()).unwrap(),
    )
}

/// The packages that are named for a known ecosystem.
pub open spec fn spec_known_packages(packages: Map<Seq<char>, PackageInfoView>) -> Map<
    Seq<char>,
    PackageInfoView,
> {
    Map::new(
        |k: Seq<char>| packages.contains_key(k) && spec_from_id(k) is Some,
        |k: Seq<char>| packages[k],
    )
}

/// What an entry of the cache holds.
pub struct CachedView {
    pub packages: Map<Seq<char>, PackageInfoView>,
    pub binname: Option<Seq<char>>,
}

/// The tool information that a value of the cache holds: a table with
/// `packages`, a table of packages, and perhaps a `binname`.  Packages that
/// are named for no known ecosystem are left out.
pub open spec fn spec_cached(value: ConfigView) -> Option<CachedView> {
    match value {
        ConfigView::Table(fields) => match (
            spec_get(fields, "packages"@),
            spec_maybe(spec_get(fields, "binname"@)),
        ) {
            (Some(ConfigView::Table(packages)), Some(binname)) => if spec_cached_ok(
                packages,
                packages.len(),
            ) {
                Some(
                    CachedView { packages: spec_cached_packages(packages, packages.len()), binname },
                )
            } else {
                None
            },
            _ => None,
        },
        _ => None,
    }
}

/// The tool information that the text of a cache entry holds.
pub open spec fn spec_cache_entry(text: Seq<char>) -> Option<CachedView> {
    match json_document(text) {
        Ok(value) => spec_cached(value),
        Err(_) => None,
    }
}

fn cached_package(value: &Config) -> (package: Option<PackageInfo>)
    ensures
        match package {
            Some(p) => spec_cached_package(value@) == Some(p@),
            None => spec_cached_package(value@) is None,
        },
{
    match value {
        Config::Table(fields) => match (get_str(fields, "name"), get_str(fields, "version")) {
            (Some(name), Some(version)) => Some(
                PackageInfo { name: name.to_owned(), version: version.to_owned() },
            ),
            _ => None,
        },
        _ => None,
    }
}

impl ToolInfo {
    /// Reads tool information from a value of the cache.
    pub fn from_cache(value: &Config) -> (info: Option<ToolInfo>)
        ensures
            match info {
                Some(i) => spec_cached(value@) == Some(
                    CachedView { packages: i.packages@, binname: opt_view(i.binname) },
                ),
                None => spec_cached(value@) is None,
            },
    {
        let fields = match value {
            Config::Table(fields) => fields,
            _ => {
                return None;
            },
        };
        let entries = match get(fields, "packages") {
            Some(Config::Table(entries)) => entries,
            _ => {
                return None;
            },
        };
        let binname = match maybe(fields, "binname") {
            Some(b) => b,
            None => {
                return None;
            },
        };
        let ghost views = fields_view(entries@);
        proof {
            lemma_fields(entries@, entries@.len());
        }
        let mut packages: StrMap<PackageInfo> = StrMap::new();
        let mut i: usize = 0;
        assert(packages@ =~= spec_cached_packages(views, 0));
        while i < entries.len()
            invariant
                i <= entries.len(),
                views == fields_view(entries@),
                views.len() == entries@.len(),
                spec_cached(value@) == if spec_cached_ok(views, views.len()) {
                    Some(
                        CachedView {
                            packages: spec_cached_packages(views, views.len()),
                            binname: opt_view(binname),
                        },
                    )
                } else {
                    None
                },
                forall|k: int| 0 <= k < views.len() ==> #[trigger] views[k] == entries@[k]@,
                spec_cached_ok(views, i as nat),
                packages@ == spec_cached_packages(views, i as nat),
            decreases entries.len() - i,
        {
            let entry = &entries[i];
            assert(views[i as int] == entry@);
            match cached_package(&entry.value) {
                Some(package) => {
                    if Ecosystem::from_id(entry.key.as_str()).is_some() {
                        packages.insert(entry.key.clone(), package);
                    }
                },
                None => {
                    assert(!spec_cached_ok(views, views.len()));
                    return None;
                },
            }
            proof {
                assert forall|k: Seq<char>|
                    spec_lookup(views, i as nat, k) is Some implies spec_cached_package(
                    spec_lookup(views, i as nat, k).unwrap(),
                ) is Some by {
                    lemma_lookup_among(views, i as nat, k);
                }
                assert(packages@ =~= spec_cached_packages(views, (i + 1) as nat));
            }
            i += 1;
        }
        Some(ToolInfo { packages, binname })
    }

    /// Reads tool information from the text of a cache entry.
    pub fn parse_cache(text: &str) -> (info: Result<ToolInfo, RepologyError>)
        ensures
            match info {
                Ok(i) => spec_cache_entry(text@) == Some(
                    CachedView { packages: i.packages@, binname: opt_view(i.binname) },
                ),
                Err(RepologyError::Parse(_)) => spec_cache_entry(text@) is None,
                Err(_) => false,
            },
    {
        match parse_json(text) {
            Ok(value) => match ToolInfo::from_cache(&value) {
                Some(info) => Ok(info),
                None => Err(RepologyError::Parse("the entry holds no tool information".to_owned())),
            },
            Err(cause) => Err(RepologyError::Parse(cause)),
        }
    }

    /// The value that the cache holds for the tool information: its
    /// packages by ecosystem, and the binary's name or nothing.  Read back,
    /// it gives the tool information again, but for the packages that are
    /// named for no known ecosystem.
    pub fn to_cache(&self) -> (value: Config)
        ensures
            spec_cached(value@) == Some(
                CachedView {
                    packages: spec_known_packages(self.packages@),
                    binname: opt_view(self.binname),
                },
            ),
    {
        let n = self.packages.len();
        let ghost keys = self.packages.keys();
        let ghost held = self.packages@;
        let mut entries: Vec<Field> = Vec::new();
        let mut i: usize = 0;
        while i < n
            invariant
                i <= n,
                n == keys.len(),
                keys == self.packages.keys(),
                held == self.packages@,
                entries@.len() == i,
                forall|k: int|
                    0 <= k < i ==> (#[trigger] entries@[k]).key@ == keys[k] && spec_cached_package(
                        entries@[k].value@,
                    ) == Some(held[keys[k]]),
            decreases n - i,
        {
            let package = self.packages.value_at(i);
            let mut entry: Vec<Field> = Vec::new();
            entry.push(
                Field { key: "version".to_owned(), value: Config::String(package.version.clone()) },
            );
            entry.push(
                Field { key: "name".to_owned(), value: Config::String(package.name.clone()) },
            );
            proof {
                lemma_fields(entry@, 2);
                reveal_with_fuel(spec_lookup, 3);
                reveal_strlit("name");
                reveal_strlit("version");
                assert("name"@.len() == 4 && "version"@.len() == 7);
            }
            entries.push(
                Field { key: self.packages.key_at(i).clone(), value: Config::Table(entry) },
            );
            i += 1;
        }
        let binname = match &self.binname {
            Some(b) => Config::String(b.clone()),
            None => Config::Null,
        };
        let ghost views = fields_view(entries@);
        proof {
            lemma_fields(entries@, entries@.len());
            assert forall|j: int| 0 <= j < views.len() implies (#[trigger] views[j]).key == keys[j]
                && spec_cached_package(views[j].value) == Some(held[keys[j]]) by {
                assert(entries@[j].key@ == keys[j]);
            }
            assert forall|k: Seq<char>| #[trigger]
                spec_cached_packages(views, views.len()).contains_key(k)
                    <==> spec_known_packages(held).contains_key(k) by {
                if held.contains_key(k) {
                    assert(keys.contains(k));
                    let j = choose|j: int| 0 <= j < keys.len() && keys[j] == k;
                    assert(views[j].key == keys[j]);
                    lemma_lookup_last(views, views.len(), j);
                }
                if spec_lookup(views, views.len(), k) is Some {
                    lemma_lookup_among(views, views.len(), k);
                    let j = choose|j: int|
                        0 <= j < views.len() && (#[trigger] views[j]).key == k && views[j].value
                            == spec_lookup(views, views.len(), k).unwrap();
                    assert(keys.contains(keys[j]));
                }
            }
            assert forall|k: Seq<char>| #[trigger]
                spec_known_packages(held).contains_key(k) implies spec_cached_packages(
                views,
                views.len(),
            )[k] == held[k] by {
                assert(keys.contains(k));
                let j = choose|j: int| 0 <= j < keys.len() && keys[j] == k;
                assert(views[j].key == keys[j]);
                lemma_lookup_last(views, views.len(), j);
            }
            assert(spec_cached_packages(views, views.len()) =~= spec_known_packages(held));
        }
        let mut fields: Vec<Field> = Vec::new();
        fields.push(Field { key: "packages".to_owned(), value: Config::Table(entries) });
        fields.push(Field { key: "binname".to_owned(), value: binname });
        proof {
            lemma_fields(fields@, 2);
            reveal_with_fuel(spec_lookup, 3);
            reveal_strlit("packages");
            reveal_strlit("binname");
            assert("packages"@.len() == 8 && "binname"@.len() == 7);
        }
        Config::Table(fields)
    }

    /// What is written into the cache for the tool information: the value
    /// that, read back, gives it again, made fit for JSON; or the reason why
    /// that value cannot be written.
    pub fn cache_text(&self) -> (text: Result<String, RepologyError>)
        ensures
            exists|value: ConfigView|
                #![trigger spec_toml_to_json(value)]
                spec_cached(value) == Some(
                    CachedView {
                        packages: spec_known_packages(self.packages@),
                        binname: opt_view(self.binname),
                    },
                ) && match text {
                    Ok(t) => json_text(spec_toml_to_json(value)) == Ok::<Seq<char>, Seq<char>>(
                        t@,
                    ),
                    Err(RepologyError::Parse(cause)) => json_text(spec_toml_to_json(value))
                        == Err::<Seq<char>, Seq<char>>(cause@),
                    Err(_) => false,
                },
    {
        let value = self.to_cache();
        match to_json_text(&value) {
            Ok(text) => {
                assert(json_text(spec_toml_to_json(value@)) == Ok::<Seq<char>, Seq<char>>(text@));
                Ok(text)
            },
            Err(cause) => {
                assert(json_text(spec_toml_to_json(value@)) == Err::<Seq<char>, Seq<char>>(
                    cause@,
                ));
                Err(RepologyError::Parse(cause))
            },
        }
    }
}

/// What an error says, in words.
pub open spec fn spec_message(e: RepologyError) -> Seq<char> {
    match e {
        RepologyError::Http(cause) => "HTTP request failed: "@ + cause@,
        RepologyError::Parse(cause) => "failed to parse response: "@ + cause@,
        RepologyError::Cache(cause) => "cache error: "@ + cause@,
        RepologyError::NotFound(project) => "project not found: "@ + project@,
    }
}

impl RepologyError {
    /// What the error says, in words.
    pub fn message(&self) -> (text: String)
        ensures
            text@ == spec_message(*self),
    {
        match self {
            RepologyError::Http(cause) => {
                let mut text = "HTTP request failed: ".to_owned();
                text.append(cause.as_str());
                text
            },
            RepologyError::Parse(cause) => {
                let mut text = "failed to parse response: ".to_owned();
                text.append(cause.as_str());
                text
            },
            RepologyError::Cache(cause) => {
                let mut text = "cache error: ".to_owned();
                text.append(cause.as_str());
                text
            },
            RepologyError::NotFound(project) => {
                let mut text = "project not found: ".to_owned();
                text.append(project.as_str());
                text
            },
        }
    }
}

} // verus!
