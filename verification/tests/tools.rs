use nursery::ecosystem::Ecosystem;
use nursery::lockfile::{LockedPackage, LockedTool, Lockfile};
use nursery::manifest::ToolDep;
use nursery::repology::{PackageInfo, RepologyError, ToolInfo};
use nursery::seed::{list_seeds, Seed, SeedError, SeedResolver, SeedSource};
use nursery::strmap::StrMap;
use nursery::tools::{confirmed, lock_ecosystems, lock_tool, needs_install, package_name, required_variables};

fn map(pairs: &[(&str, &str)]) -> StrMap<String> {
    let mut m = StrMap::new();
    for (k, v) in pairs {
        m.insert(k.to_string(), v.to_string());
    }
    m
}

fn dep(version: &str, optional: bool, overrides: &[(&str, &str)]) -> ToolDep {
    ToolDep { version: version.to_string(), optional, source: None, overrides: map(overrides) }
}

fn info(packages: &[(&str, &str, &str)]) -> ToolInfo {
    let mut found = StrMap::new();
    for (eco, name, version) in packages {
        found.insert(eco.to_string(), PackageInfo { name: name.to_string(), version: version.to_string() });
    }
    ToolInfo { packages: found, binname: None }
}

#[test]
fn package_names_prefer_overrides_then_the_lockfile() {
    let mut ecosystems = StrMap::new();
    ecosystems.insert(
        "apt".to_string(),
        LockedPackage { package: "rust-ripgrep".to_string(), version: "1".to_string(), hash: None, archive: None, nixpkgs: None },
    );
    let mut lockfile = Lockfile::default();
    lockfile.tools.insert(
        "ripgrep".to_string(),
        LockedTool { source: "s".to_string(), constraint: "*".to_string(), ecosystems },
    );
    let plain = dep("*", false, &[]);
    let overridden = dep("*", false, &[("apt", "rg-custom")]);
    assert_eq!(package_name("ripgrep", &overridden, &lockfile, Ecosystem::Apt), "rg-custom");
    assert_eq!(package_name("ripgrep", &plain, &lockfile, Ecosystem::Apt), "rust-ripgrep");
    assert_eq!(package_name("ripgrep", &plain, &lockfile, Ecosystem::Brew), "ripgrep");
    assert_eq!(package_name("fd", &plain, &lockfile, Ecosystem::Apt), "fd");
    assert!(needs_install(&plain, false));
    assert!(!needs_install(&plain, true));
    assert!(!needs_install(&dep("*", true, &[]), false));
}

#[test]
fn answers() {
    assert!(confirmed(""));
    assert!(confirmed("y"));
    assert!(confirmed("yes"));
    assert!(!confirmed("n"));
    assert!(!confirmed("no"));
    assert!(!confirmed("yes please"));
}

#[test]
fn ecosystems_to_lock_for() {
    let detected = vec![Ecosystem::Brew, Ecosystem::Cargo];
    let listed = vec!["pacman".to_string(), "guix".to_string(), "nix".to_string()];
    assert_eq!(lock_ecosystems(Some(&listed), &detected), vec![Ecosystem::Pacman, Ecosystem::Nix]);
    assert_eq!(lock_ecosystems(None, &detected), detected);
    assert_eq!(lock_ecosystems(Some(&Vec::new()), &detected), Vec::new());
}

#[test]
fn lock_entries() {
    let ecosystems = vec![Ecosystem::Apt, Ecosystem::Nix, Ecosystem::Brew];
    let found = info(&[("apt", "ripgrep", "14.0"), ("nix", "ripgrep", "14.1"), ("pacman", "ripgrep", "14.2")]);
    let entry = lock_tool("ripgrep", &dep(">=14", false, &[("nix", "rg-nix"), ("cargo", "rg-cargo")]), Some(&found), &ecosystems).unwrap();
    assert_eq!(entry.source, "repology:ripgrep");
    assert_eq!(entry.constraint, ">=14");
    assert_eq!(entry.ecosystems.len(), 2);
    let apt = entry.ecosystems.get("apt").unwrap();
    assert_eq!((apt.package.as_str(), apt.version.as_str()), ("ripgrep", "14.0"));
    let nix = entry.ecosystems.get("nix").unwrap();
    assert_eq!((nix.package.as_str(), nix.version.as_str()), ("rg-nix", "override"));
    assert!(nix.hash.is_none() && nix.archive.is_none() && nix.nixpkgs.is_none());

    // Nothing found anywhere: no entry.
    assert!(lock_tool("x", &dep("*", false, &[]), Some(&info(&[])), &ecosystems).is_none());
    assert!(lock_tool("x", &dep("*", false, &[]), None, &ecosystems).is_none());
    assert!(lock_tool("x", &dep("*", false, &[("cargo", "c")]), None, &ecosystems).is_none());
    assert!(lock_tool("x", &dep("*", false, &[("apt", "a")]), Some(&found), &Vec::new()).is_none());

    // The lookup failed, but there is an override.
    let entry = lock_tool("x", &dep("1", false, &[("brew", "x-brew")]), None, &ecosystems).unwrap();
    assert_eq!(entry.source, "override");
    assert_eq!(entry.constraint, "1");
    assert_eq!(entry.ecosystems.len(), 1);
    assert_eq!(entry.ecosystems.get("brew").unwrap().package, "x-brew");
}

#[test]
fn required_variables_have_no_default() {
    let mut variables: StrMap<Option<String>> = StrMap::new();
    variables.insert("name".to_string(), None);
    variables.insert("version".to_string(), Some("0.1.0".to_string()));
    variables.insert("author".to_string(), None);
    assert_eq!(required_variables(&variables), vec!["name", "author"]);
    assert!(required_variables(&StrMap::new()).is_empty());
}

fn seed(name: &str, description: &str) -> Seed {
    Seed {
        name: name.to_string(),
        description: description.to_string(),
        variables: StrMap::new(),
        source: SeedSource::Directory(format!("/seeds/{name}")),
    }
}

#[test]
fn seeds_are_listed_by_name() {
    let resolver = SeedResolver::with_user_dir(Some("/seeds".to_string()));
    let listed = resolver.list(Vec::new());
    let names: Vec<&str> = listed.iter().map(|s| s.name.as_str()).collect();
    assert_eq!(names, vec!["archaeology", "creation", "lab"]);

    let listed = resolver.list(vec![seed("zeta", "z"), seed("lab", "first"), seed("alpha", "a"), seed("lab", "second")]);
    let names: Vec<&str> = listed.iter().map(|s| s.name.as_str()).collect();
    assert_eq!(names, vec!["alpha", "archaeology", "creation", "lab", "zeta"]);
    assert_eq!(listed[3].description, "second");
    assert!(list_seeds(Vec::new()).is_empty());
}

#[test]
fn seeds_are_read_from_their_manifest() {
    let text = "name = \"mine\"\ndescription = \"my seed\"\n[variables]\nname = {}\nversion = \"0.1.0\"\nlicense = { default = \"MIT\" }\n";
    let seed = Seed::parse(text, "/seeds/mine").unwrap();
    assert_eq!(seed.name, "mine");
    assert_eq!(seed.description, "my seed");
    assert_eq!(seed.variables.len(), 3);
    assert_eq!(seed.variables.get("name"), Some(&None));
    assert_eq!(seed.variables.get("version"), Some(&Some("0.1.0".to_string())));
    assert_eq!(seed.variables.get("license"), Some(&Some("MIT".to_string())));
    assert!(matches!(&seed.source, SeedSource::Directory(d) if d == "/seeds/mine"));

    let bare = Seed::parse("name = \"bare\"", "/seeds/bare").unwrap();
    assert_eq!(bare.description, "");
    assert_eq!(bare.variables.len(), 0);

    assert!(matches!(Seed::parse("description = \"no name\"", "/d"), Err(SeedError::ParseSeed(_))));
    assert!(matches!(Seed::parse("name = 3", "/d"), Err(SeedError::ParseSeed(_))));
    assert!(matches!(Seed::parse("name = \"x\"\ndescription = 3", "/d"), Err(SeedError::ParseSeed(_))));
    assert!(matches!(Seed::parse("name = \"x\"\nvariables = 3", "/d"), Err(SeedError::ParseSeed(_))));
    assert!(matches!(Seed::parse("name = \"x\"\n[variables]\nv = 3", "/d"), Err(SeedError::ParseSeed(_))));
    assert!(matches!(Seed::parse("name = \"x\"\n[variables]\nv = { default = 3 }", "/d"), Err(SeedError::ParseSeed(_))));
    assert!(matches!(Seed::parse("[[[", "/d"), Err(SeedError::ParseSeed(_))));
}

#[test]
fn seed_errors_say_what_went_wrong() {
    assert_eq!(SeedError::UnknownSeed("x".to_string()).message(), "unknown seed: x");
    assert_eq!(SeedError::AlreadyExists("/d".to_string()).message(), "directory already exists: /d");
    assert_eq!(SeedError::CreateDir("c".to_string()).message(), "failed to create directory: c");
    assert_eq!(SeedError::WriteFile("c".to_string()).message(), "failed to write file: c");
    assert_eq!(SeedError::ReadSeed("c".to_string()).message(), "failed to read seed: c");
    assert_eq!(SeedError::ParseSeed("c".to_string()).message(), "failed to parse seed.toml: c");
    assert_eq!(SeedError::MissingVariable("name".to_string()).message(), "missing required variable: name");
    assert_eq!(RepologyError::Http("c".to_string()).message(), "HTTP request failed: c");
    assert_eq!(RepologyError::Parse("c".to_string()).message(), "failed to parse response: c");
    assert_eq!(RepologyError::Cache("c".to_string()).message(), "cache error: c");
    assert_eq!(RepologyError::NotFound("p".to_string()).message(), "project not found: p");
}
