use nursery::config::{ToolSource, UserConfig};
use nursery::generate::{diff_lines, expand_variables, template_variables};
use nursery::lockfile::{LockedPackage, LockedTool, Lockfile, LockfileError};
use nursery::manifest::{merge_fields, merge_to_manifest, Manifest, ManifestError, ToolDep};
use nursery::strmap::StrMap;
use nursery::value::{get, get_str, to_decimal, to_document, Config, Field};
use nursery::variables::config_variables;

fn map(pairs: &[(&str, &str)]) -> StrMap<String> {
    let mut m = StrMap::new();
    for (k, v) in pairs {
        m.insert(k.to_string(), v.to_string());
    }
    m
}

#[test]
fn parse_minimal_manifest() {
    let toml = r#"
        [project]
        name = "test"
        version = "0.1.0"
    "#;

    let manifest = Manifest::from_str(toml).unwrap();
    assert_eq!(manifest.project.name, "test");
    assert_eq!(manifest.project.version, "0.1.0");
    assert!(manifest.variables.len() == 0);
    assert!(manifest.tool_deps.len() == 0);
    assert!(manifest.tool_configs.len() == 0);
}

#[test]
fn parse_manifest_with_variables() {
    let toml = r#"
        [project]
        name = "test"
        version = "0.1.0"

        [variables]
        assets = "./assets"
        debug = true
        count = 42
    "#;

    let manifest = Manifest::from_str(toml).unwrap();
    assert_eq!(manifest.get_variable("assets"), Some("./assets".to_string()));
    assert_eq!(manifest.get_variable("debug"), Some("true".to_string()));
    assert_eq!(manifest.get_variable("count"), Some("42".to_string()));
}

#[test]
fn parse_manifest_with_tool_configs() {
    let toml = r#"
        [project]
        name = "test"
        version = "0.1.0"

        [siphon]
        source = "./game.exe"
        strategy = "gms2"

        [dew]
        pipeline = "assets.dew"
    "#;

    let manifest = Manifest::from_str(toml).unwrap();
    assert_eq!(manifest.tool_configs.len(), 2);
    assert!(manifest.tool_configs.contains_key("siphon"));
    assert!(manifest.tool_configs.contains_key("dew"));
}

#[test]
fn parse_manifest_with_tool_deps() {
    let toml = r#"
        [project]
        name = "test"
        version = "0.1.0"

        [tools]
        ripgrep = ">=14"
        fd = "*"
        jq = { version = "=1.7", optional = true }
    "#;

    let manifest = Manifest::from_str(toml).unwrap();
    assert_eq!(manifest.tool_deps.len(), 3);

    let rg = manifest.tool_deps.get("ripgrep").unwrap();
    assert_eq!(rg.version, ">=14");
    assert!(!rg.optional);

    let fd = manifest.tool_deps.get("fd").unwrap();
    assert_eq!(fd.version, "*");

    let jq = manifest.tool_deps.get("jq").unwrap();
    assert_eq!(jq.version, "=1.7");
    assert!(jq.optional);
}

#[test]
fn parse_manifest_with_ecosystems() {
    let toml = r#"
        [project]
        name = "test"
        version = "0.1.0"

        [tools]
        ecosystems = ["pacman", "nix"]
        ripgrep = ">=14"
    "#;

    let manifest = Manifest::from_str(toml).unwrap();
    assert_eq!(manifest.ecosystems, Some(vec!["pacman".to_string(), "nix".to_string()]));
    assert_eq!(manifest.tool_deps.len(), 1);
}

#[test]
fn missing_project_section() {
    let toml = r#"
        [siphon]
        source = "./game.exe"
    "#;

    let err = Manifest::from_str(toml).err().unwrap();
    assert!(matches!(err, ManifestError::MissingProject));
}

#[test]
fn parse_dev_tools() {
    let toml = r#"
        [project]
        name = "test"
        version = "0.1.0"

        [tools]
        ripgrep = ">=14"

        [dev-tools]
        fd-find = "*"
        tokei = ">=12"
    "#;

    let manifest = Manifest::from_str(toml).unwrap();
    assert_eq!(manifest.tool_deps.len(), 1);
    assert_eq!(manifest.dev_tool_deps.len(), 2);
    assert!(manifest.dev_tool_deps.contains_key("fd-find"));
    assert!(manifest.dev_tool_deps.contains_key("tokei"));
}

#[test]
fn parse_build_deps() {
    let toml = r#"
        [project]
        name = "test"
        version = "0.1.0"

        [build-deps]
        openssl = { version = "*", apt = "libssl-dev" }
        cmake = ">=3.20"
    "#;

    let manifest = Manifest::from_str(toml).unwrap();
    assert_eq!(manifest.build_deps.len(), 2);

    let openssl = manifest.build_deps.get("openssl").unwrap();
    assert_eq!(openssl.version, "*");
    assert_eq!(openssl.overrides.get("apt"), Some(&"libssl-dev".to_string()));

    let cmake = manifest.build_deps.get("cmake").unwrap();
    assert_eq!(cmake.version, ">=3.20");
    assert!(cmake.overrides.len() == 0);
}

#[test]
fn tool_dep_package_name() {
    let toml = r#"
        [project]
        name = "test"
        version = "0.1.0"

        [build-deps]
        openssl = { version = "*", apt = "libssl-dev", pacman = "openssl" }
    "#;

    let manifest = Manifest::from_str(toml).unwrap();
    let openssl = manifest.build_deps.get("openssl").unwrap();

    // Uses override when present
    assert_eq!(openssl.package_name("apt", "openssl"), "libssl-dev");
    assert_eq!(openssl.package_name("pacman", "openssl"), "openssl");

    // Falls back to default when no override
    assert_eq!(openssl.package_name("brew", "openssl"), "openssl");
}

#[test]
fn manifests_that_make_no_sense_are_refused() {
    assert!(matches!(Manifest::from_str("not toml at all ["), Err(ManifestError::Parse(_))));
    assert!(matches!(Manifest::from_str("project = 3"), Err(ManifestError::Parse(_))));
    assert!(matches!(
        Manifest::from_str("[project]\nname = \"x\""),
        Err(ManifestError::Parse(_))
    ));
    assert!(matches!(
        Manifest::from_str("[project]\nname = \"x\"\nversion = 1"),
        Err(ManifestError::Parse(_))
    ));
    assert!(matches!(Manifest::from_str(""), Err(ManifestError::MissingProject)));
}

#[test]
fn tools_section_settings_are_no_tools() {
    let toml = r#"
        variables = "not a table"
        dev-tools = 7

        [project]
        name = "test"
        version = "0.1.0"
        extra = "ignored"

        [tools]
        source = "prefer-store"
        ecosystems = ["apt", 3, "brew"]
        good = "1"
        bad = 3
        worse = { optional = true }
        fine = { version = "2", source = "store", optional = false, nix = "fine-nix", apt = 3, other = "x" }
    "#;
    let manifest = Manifest::from_str(toml).unwrap();
    assert_eq!(manifest.tool_source, Some(ToolSource::PreferStore));
    assert_eq!(manifest.ecosystems, Some(vec!["apt".to_string(), "brew".to_string()]));
    assert_eq!(manifest.tool_deps.len(), 2);
    assert!(manifest.tool_deps.contains_key("good"));
    let fine = manifest.tool_deps.get("fine").unwrap();
    assert_eq!(fine.source, Some(ToolSource::Store));
    assert!(!fine.optional);
    assert_eq!(fine.overrides.len(), 1);
    assert_eq!(fine.overrides.get("nix"), Some(&"fine-nix".to_string()));
    assert_eq!(manifest.variables.len(), 0);
    assert_eq!(manifest.dev_tool_deps.len(), 0);
    assert_eq!(manifest.tool_configs.len(), 0);
    assert_eq!(manifest.get_variable("absent"), None);
}

#[test]
fn variables_as_text() {
    let toml = "[project]\nname = \"n\"\nversion = \"v\"\n[variables]\nneg = -17\nzero = 0\nbig = 9223372036854775807\nsmall = -9223372036854775808\nratio = 1.5\noff = false\nlist = [1]\nwhen = 1979-05-27\n";
    let manifest = Manifest::from_str(toml).unwrap();
    assert_eq!(manifest.get_variable("neg"), Some("-17".to_string()));
    assert_eq!(manifest.get_variable("zero"), Some("0".to_string()));
    assert_eq!(manifest.get_variable("big"), Some("9223372036854775807".to_string()));
    assert_eq!(manifest.get_variable("small"), Some("-9223372036854775808".to_string()));
    assert_eq!(manifest.get_variable("ratio"), Some("1.5".to_string()));
    assert_eq!(manifest.get_variable("off"), Some("false".to_string()));
    assert_eq!(manifest.get_variable("list"), None);
    assert_eq!(manifest.get_variable("when"), None);
    assert_eq!(to_decimal(1000), "1000");
    assert_eq!(to_decimal(-5), "-5");

    let vars = template_variables(&manifest);
    assert_eq!(vars.get("name"), Some(&"n".to_string()));
    assert_eq!(vars.get("version"), Some(&"v".to_string()));
    assert_eq!(vars.get("neg"), Some(&"-17".to_string()));
    assert_eq!(vars.get("list"), None);
    assert_eq!(vars.len(), 8);
}

#[test]
fn project_name_and_version_come_out_on_top() {
    let toml = "[project]\nname = \"real\"\nversion = \"1\"\n[variables]\nname = \"shadow\"\n";
    let manifest = Manifest::from_str(toml).unwrap();
    let vars = template_variables(&manifest);
    assert_eq!(vars.get("name"), Some(&"real".to_string()));
    assert_eq!(vars.len(), 2);
}

#[test]
fn expand_simple_variable() {
    let vars = map(&[("name", "my-project")]);

    let input = Config::Table(vec![Field {
        key: "title".to_string(),
        value: Config::String("{{name}}".to_string()),
    }]);
    let output = expand_variables(&input, &vars);

    match output {
        Config::Table(fields) => assert_eq!(get_str(&fields, "title"), Some("my-project")),
        _ => panic!("a table stays a table"),
    }
}

#[test]
fn expand_nested_variables() {
    let vars = map(&[("dir", "./assets")]);

    let input = Config::Table(vec![Field {
        key: "paths".to_string(),
        value: Config::Array(vec![
            Config::String("{{dir}}/a".to_string()),
            Config::String("{{dir}}/b".to_string()),
            Config::Integer(3),
        ]),
    }]);
    let output = expand_variables(&input, &vars);

    match output {
        Config::Table(fields) => match get(&fields, "paths") {
            Some(Config::Array(paths)) => {
                assert!(matches!(&paths[0], Config::String(s) if s == "./assets/a"));
                assert!(matches!(&paths[1], Config::String(s) if s == "./assets/b"));
                assert!(matches!(&paths[2], Config::Integer(3)));
            }
            _ => panic!("a list stays a list"),
        },
        _ => panic!("a table stays a table"),
    }
}

fn pulled_mytool() -> Vec<Field> {
    vec![Field {
        key: "mytool".to_string(),
        value: Config::Table(vec![Field {
            key: "source".to_string(),
            value: Config::String("./input".to_string()),
        }]),
    }]
}

#[test]
fn merge_creates_project() {
    let pulled = pulled_mytool();

    let result = merge_to_manifest(&pulled, None).unwrap();
    assert!(result.contains("[project]"));
    assert!(result.contains("[mytool]"));
    assert!(result.contains("source = \"./input\""));
}

#[test]
fn merge_preserves_existing() {
    let existing = r#"
[project]
name = "existing"
version = "1.0.0"

[variables]
foo = "bar"
"#;

    let pulled = pulled_mytool();

    let result = merge_to_manifest(&pulled, Some(existing)).unwrap();
    assert!(result.contains("name = \"existing\""));
    assert!(result.contains("foo = \"bar\""));
    assert!(result.contains("[mytool]"));
}

#[test]
fn merging_gives_a_default_project_and_replaces_tools() {
    let pulled = vec![Field {
        key: "siphon".to_string(),
        value: Config::Table(vec![Field {
            key: "source".to_string(),
            value: Config::String("new".to_string()),
        }]),
    }];
    let merged = merge_to_manifest(&pulled, None).unwrap();
    let manifest = Manifest::from_str(&merged).unwrap();
    assert_eq!(manifest.project.name, "my-project");
    assert_eq!(manifest.project.version, "0.1.0");
    assert!(manifest.tool_configs.contains_key("siphon"));

    let existing = "[project]\nname = \"kept\"\nversion = \"2.0.0\"\n\n[siphon]\nsource = \"old\"\n\n[dew]\npipeline = \"p\"\n";
    let merged = merge_to_manifest(&pulled, Some(existing)).unwrap();
    let manifest = Manifest::from_str(&merged).unwrap();
    assert_eq!(manifest.project.name, "kept");
    assert_eq!(manifest.project.version, "2.0.0");
    assert_eq!(manifest.tool_configs.len(), 2);
    match manifest.tool_configs.get("siphon") {
        Some(Config::Table(fields)) => assert_eq!(get_str(fields, "source"), Some("new")),
        _ => panic!("the tool's configuration is a table"),
    }
    // A manifest that is no document counts as empty.
    let fresh = merge_to_manifest(&pulled, Some("[[[")).unwrap();
    assert_eq!(Manifest::from_str(&fresh).unwrap().project.name, "my-project");
    assert_eq!(merge_fields(Vec::new(), &Vec::new()).len(), 1);
}

#[test]
fn documents_are_read_and_written() {
    let parsed = Config::parse("a = 1\nb = \"two\"\n[c]\nd = [true, 2.5]\n").unwrap();
    let fields = match parsed {
        Config::Table(fields) => fields,
        _ => panic!("a document is a table"),
    };
    assert_eq!(fields.len(), 3);
    assert!(matches!(get(&fields, "a"), Some(Config::Integer(1))));
    assert_eq!(get_str(&fields, "b"), Some("two"));
    assert_eq!(get_str(&fields, "a"), None);
    assert!(get(&fields, "z").is_none());
    match get(&fields, "c") {
        Some(Config::Table(c)) => match get(c, "d") {
            Some(Config::Array(d)) => {
                assert!(matches!(&d[0], Config::Boolean(true)));
                assert!(matches!(&d[1], Config::Float(f) if f == "2.5"));
            }
            _ => panic!("d is a list"),
        },
        _ => panic!("c is a table"),
    }
    let text = to_document(&fields).unwrap();
    let again = Config::parse(&text).unwrap();
    assert!(matches!(&again, Config::Table(f) if f.len() == 3));
    assert!(Config::parse("a = ").is_err());
    assert!(matches!(parsed_copy(&again), Config::Table(f) if f.len() == 3));
}

fn parsed_copy(value: &Config) -> Config {
    value.copy()
}

#[test]
fn parse_lockfile() {
    let toml = r#"
        [ripgrep]
        source = "github:BurntSushi/ripgrep"
        constraint = ">=14"

        [ripgrep.pacman]
        package = "ripgrep"
        version = "14.1.0-1"
        archive = "https://archive.archlinux.org/packages/r/ripgrep/ripgrep-14.1.0-1-x86_64.pkg.tar.zst"

        [ripgrep.nix]
        package = "ripgrep"
        version = "14.1.0"
        hash = "sha256-abc123"
        nixpkgs = "github:NixOS/nixpkgs/abc123"
    "#;

    let lockfile = Lockfile::parse(toml).unwrap();
    assert!(lockfile.has_tool("ripgrep"));

    let pacman = lockfile.get("ripgrep", "pacman").unwrap();
    assert_eq!(pacman.package, "ripgrep");
    assert_eq!(pacman.version, "14.1.0-1");
    assert!(pacman.archive.is_some());

    let nix = lockfile.get("ripgrep", "nix").unwrap();
    assert_eq!(nix.version, "14.1.0");
    assert!(nix.hash.is_some());
    assert!(nix.nixpkgs.is_some());
}

#[test]
fn roundtrip_lockfile() {
    let mut lockfile = Lockfile::default();

    let mut ecosystems = StrMap::new();
    ecosystems.insert(
        "apt".to_string(),
        LockedPackage {
            package: "ripgrep".to_string(),
            version: "14.0.0".to_string(),
            hash: None,
            archive: None,
            nixpkgs: None,
        },
    );

    lockfile.tools.insert(
        "ripgrep".to_string(),
        LockedTool {
            source: "github:BurntSushi/ripgrep".to_string(),
            constraint: ">=14".to_string(),
            ecosystems,
        },
    );

    let serialized = lockfile.to_string().unwrap();
    let parsed = Lockfile::parse(&serialized).unwrap();

    assert!(parsed.has_tool("ripgrep"));
    let apt = parsed.get("ripgrep", "apt").unwrap();
    assert_eq!(apt.version, "14.0.0");
}

#[test]
fn lockfiles_that_make_no_sense_are_refused() {
    assert!(matches!(Lockfile::parse("[[["), Err(LockfileError::Parse(_))));
    assert!(matches!(Lockfile::parse("tool = 3"), Err(LockfileError::Parse(_))));
    assert!(matches!(
        Lockfile::parse("[tool]\nsource = \"s\""),
        Err(LockfileError::Parse(_))
    ));
    assert!(matches!(
        Lockfile::parse("[tool]\nsource = \"s\"\nconstraint = \"c\"\napt = 3"),
        Err(LockfileError::Parse(_))
    ));
    assert!(matches!(
        Lockfile::parse("[tool]\nsource = \"s\"\nconstraint = \"c\"\n[tool.apt]\npackage = \"p\"\nversion = \"v\"\nhash = 3"),
        Err(LockfileError::Parse(_))
    ));
    let empty = Lockfile::parse("").unwrap();
    assert_eq!(empty.tools.len(), 0);
    let package = LockedPackage {
        package: "p".to_string(),
        version: "v".to_string(),
        hash: Some("h".to_string()),
        archive: None,
        nixpkgs: Some("n".to_string()),
    };
    let back = LockedPackage::from_toml(&Config::Table(package.to_fields())).unwrap();
    assert_eq!(back.package, "p");
    assert_eq!(back.hash, Some("h".to_string()));
    assert_eq!(back.archive, None);
    assert_eq!(back.nixpkgs, Some("n".to_string()));
}

#[test]
fn parse_config() {
    let toml = r#"
        [tools]
        source = "prefer-store"
    "#;

    let config = UserConfig::parse(toml).unwrap();
    assert_eq!(config.tools.source, ToolSource::PreferStore);
}

#[test]
fn user_configs_that_make_no_sense_are_refused() {
    assert_eq!(UserConfig::parse("").unwrap().tools.source, ToolSource::PreferSystem);
    assert_eq!(UserConfig::parse("[tools]").unwrap().tools.source, ToolSource::PreferSystem);
    assert_eq!(UserConfig::parse("[tools]\nsource = \"system\"").unwrap().tools.source, ToolSource::System);
    assert!(UserConfig::parse("[tools]\nsource = \"nowhere\"").is_none());
    assert!(UserConfig::parse("[tools]\nsource = 3").is_none());
    assert!(UserConfig::parse("tools = 3").is_none());
    assert!(UserConfig::parse("[[[").is_none());
    assert_eq!(UserConfig::load(UserConfig::parse("[[[")).tools.source, ToolSource::PreferSystem);
}

#[test]
fn global_config_variables() {
    let vars = config_variables("[variables]\nauthor = \"Ada\"\nlicense = \"MIT\"\n").unwrap();
    assert_eq!(vars.len(), 2);
    assert_eq!(vars.get("author"), Some(&"Ada".to_string()));
    assert_eq!(config_variables("").unwrap().len(), 0);
    assert!(config_variables("[variables]\nn = 3").is_none());
    assert!(config_variables("variables = 3").is_none());
    assert!(config_variables("[[[").is_none());
}

#[test]
fn diffs_show_what_goes_and_what_comes() {
    let old = vec!["a = 1".to_string(), "b = 2".to_string(), "c = 3".to_string()];
    let new = vec!["a = 1".to_string(), "b = 5".to_string(), "d = 4".to_string()];
    assert_eq!(
        diff_lines(Some(&old), &new),
        vec!["-b = 2", "-c = 3", "+b = 5", "+d = 4"]
    );
    assert_eq!(diff_lines(None, &new), vec!["+++ (new file)", "+a = 1", "+b = 5", "+d = 4"]);
    assert!(diff_lines(Some(&old), &old).is_empty());
    assert_eq!(diff_lines(Some(&Vec::new()), &Vec::new()), Vec::<String>::new());
    let _ = ToolDep::from_toml(&Config::Integer(3)).is_none();
}

#[test]
fn manifest_errors_say_what_went_wrong() {
    assert_eq!(ManifestError::Io("gone".to_string()).message(), "failed to read manifest: gone");
    assert_eq!(ManifestError::Parse("bad".to_string()).message(), "failed to parse manifest: bad");
    assert_eq!(ManifestError::MissingProject.message(), "missing required [project] section");
    assert_eq!(LockfileError::Io("gone".to_string()).message(), "failed to read lockfile: gone");
    assert_eq!(LockfileError::Parse("bad".to_string()).message(), "failed to parse lockfile: bad");
    assert_eq!(
        LockfileError::Serialize("odd".to_string()).message(),
        "failed to serialize lockfile: odd"
    );
}
