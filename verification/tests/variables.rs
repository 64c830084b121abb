use nursery::lockfile::{LockedPackage, LockedTool, Lockfile, LockfileError};
use nursery::strmap::StrMap;
use nursery::variables::{infer_variables, VariableResolver, VariableSource};

fn map(pairs: &[(&str, &str)]) -> StrMap<String> {
    let mut m = StrMap::new();
    for (k, v) in pairs {
        m.insert(k.to_string(), v.to_string());
    }
    m
}

#[test]
fn cli_takes_precedence() {
    let cli = map(&[("name", "from-cli")]);

    let mut defaults = StrMap::new();
    defaults.insert("name".to_string(), Some("from-default".to_string()));

    let resolver = VariableResolver::new()
        .with_cli(cli)
        .with_seed_defaults(defaults);

    let (value, source) = resolver.get("name").unwrap();
    assert_eq!(value, "from-cli");
    assert_eq!(source, VariableSource::Cli);
}

#[test]
fn falls_back_to_defaults() {
    let mut defaults = StrMap::new();
    defaults.insert("version".to_string(), Some("1.0.0".to_string()));

    let resolver = VariableResolver::new().with_seed_defaults(defaults);

    let (value, source) = resolver.get("version").unwrap();
    assert_eq!(value, "1.0.0");
    assert_eq!(source, VariableSource::SeedDefault);
}

#[test]
fn missing_variable() {
    let resolver = VariableResolver::new();
    assert!(resolver.get("nonexistent").is_none());
}

#[test]
fn resolve_all_missing_required() {
    let resolver = VariableResolver::new();
    let required = vec!["name".to_string()];
    let err = resolver.resolve_all(&required).err().unwrap();
    assert_eq!(err, "name");
}

#[test]
fn sources_are_tried_in_order() {
    let mut defaults = StrMap::new();
    defaults.insert("c".to_string(), Some("default-c".to_string()));
    defaults.insert("d".to_string(), Some("default-d".to_string()));
    defaults.insert("required".to_string(), None);
    let resolver = VariableResolver::new()
        .with_cli(map(&[("a", "cli-a")]))
        .with_config_file(Some(map(&[("a", "config-a"), ("b", "config-b"), ("c", "config-c")])))
        .with_config_file(None)
        .with_seed_defaults(defaults)
        .with_inferred(map(&[("d", "inferred-d"), ("e", "inferred-e")]));
    assert_eq!(resolver.get("a"), Some(("cli-a", VariableSource::Cli)));
    assert_eq!(resolver.get("b"), Some(("config-b", VariableSource::Config)));
    assert_eq!(resolver.get("c"), Some(("config-c", VariableSource::Config)));
    assert_eq!(resolver.get("d"), Some(("default-d", VariableSource::SeedDefault)));
    assert_eq!(resolver.get("e"), Some(("inferred-e", VariableSource::Inferred)));
    assert_eq!(resolver.get("required"), None);

    let all = resolver.all_with_sources();
    let names: Vec<&str> = all.iter().map(|r| r.name.as_str()).collect();
    assert_eq!(names, vec!["a", "b", "c", "d", "e"]);
    assert_eq!(all[3].value, "default-d");
    assert_eq!(all[3].source, VariableSource::SeedDefault);

    let values = resolver.resolve_all(&["a".to_string(), "e".to_string()]).ok().unwrap();
    assert_eq!(values.len(), 5);
    assert_eq!(values.get("a"), Some(&"cli-a".to_string()));
    assert_eq!(values.get("c"), Some(&"config-c".to_string()));
    assert_eq!(values.get("e"), Some(&"inferred-e".to_string()));

    let missing = resolver
        .resolve_all(&["zeta".to_string(), "a".to_string(), "required".to_string(), "alpha".to_string()])
        .err()
        .unwrap();
    assert_eq!(missing, "alpha");
}

#[test]
fn inference_prefers_git_over_the_login_name() {
    let vars = infer_variables(Some("Ada".to_string()), Some("ada@example.org".to_string()), Some("al".to_string()));
    assert_eq!(vars.get("author"), Some(&"Ada".to_string()));
    assert_eq!(vars.get("email"), Some(&"ada@example.org".to_string()));
    let vars = infer_variables(None, None, Some("al".to_string()));
    assert_eq!(vars.get("author"), Some(&"al".to_string()));
    assert_eq!(vars.get("email"), None);
    assert_eq!(infer_variables(None, None, None).len(), 0);
    assert_eq!(VariableResolver::config_path_in("/cfg"), "/cfg/nursery/config.toml");
}

#[test]
fn string_map_holds_each_key_once() {
    let mut m: StrMap<String> = StrMap::new();
    assert_eq!(m.len(), 0);
    m.insert("a".to_string(), "1".to_string());
    m.insert("b".to_string(), "2".to_string());
    m.insert("a".to_string(), "3".to_string());
    assert_eq!(m.len(), 2);
    assert_eq!(m.get("a"), Some(&"3".to_string()));
    assert_eq!(m.key_at(0), "a");
    assert_eq!(m.value_at(1), "2");
    assert!(m.contains_key("b"));
    assert!(m.remove("a"));
    assert!(!m.remove("a"));
    assert!(!m.contains_key("a"));
    assert_eq!(m.len(), 1);
    assert_eq!(m.key_at(0), "b");
}

#[test]
fn locked_packages_are_found_by_tool_and_ecosystem() {
    let mut ecosystems = StrMap::new();
    ecosystems.insert(
        "apt".to_string(),
        LockedPackage {
            package: "ripgrep".to_string(),
            version: "14.0.0".to_string(),
            hash: None,
            archive: None,
            nixpkgs: None,
        },
    );
    let mut lockfile = Lockfile::default();
    assert!(!lockfile.has_tool("ripgrep"));
    lockfile.tools.insert(
        "ripgrep".to_string(),
        LockedTool {
            source: "github:BurntSushi/ripgrep".to_string(),
            constraint: ">=14".to_string(),
            ecosystems,
        },
    );
    assert!(lockfile.has_tool("ripgrep"));
    let apt = lockfile.get("ripgrep", "apt").unwrap();
    assert_eq!(apt.version, "14.0.0");
    assert!(lockfile.get("ripgrep", "nix").is_none());
    assert!(lockfile.get("fd", "apt").is_none());

    let kept = Lockfile::load_or_default(Ok(lockfile));
    assert!(kept.has_tool("ripgrep"));
    let empty = Lockfile::load_or_default(Err(LockfileError::Io("no such file".to_string())));
    assert!(!empty.has_tool("ripgrep"));
}

#[test]
fn command_line_variables_for_a_new_project() {
    let given = vec![
        ("license".to_string(), "MIT".to_string()),
        ("name".to_string(), "shadowed".to_string()),
        ("license".to_string(), "Apache-2.0".to_string()),
    ];
    let vars = nursery::variables::cli_variables("demo", &given);
    assert_eq!(vars.len(), 2);
    assert_eq!(vars.get("name"), Some(&"demo".to_string()));
    assert_eq!(vars.get("license"), Some(&"Apache-2.0".to_string()));
    let vars = nursery::variables::prompted_variables("demo", "author".to_string(), "Ada".to_string());
    assert_eq!(vars.len(), 2);
    assert_eq!(vars.get("author"), Some(&"Ada".to_string()));
    let vars = nursery::variables::prompted_variables("demo", "name".to_string(), "other".to_string());
    assert_eq!(vars.get("name"), Some(&"other".to_string()));
}

#[test]
fn global_configuration_gives_variables() {
    let resolver = VariableResolver::new()
        .with_global_config(Some("[variables]\nauthor = \"Ada\"\n"))
        .with_global_config(None)
        .with_global_config(Some("[[["))
        .with_global_config(Some("[variables]\nn = 3\n"));
    assert_eq!(resolver.get("author"), Some(("Ada", VariableSource::Config)));
    let resolver = resolver.with_global_config(Some("[variables]\nlicense = \"MIT\"\n"));
    assert_eq!(resolver.get("author"), None);
    assert_eq!(resolver.get("license"), Some(("MIT", VariableSource::Config)));
}

#[test]
fn global_configuration_lies_in_the_configuration_directory() {
    assert_eq!(
        VariableResolver::global_config_path_in(Some("/home/me/.config".to_string())),
        Some("/home/me/.config/nursery/config.toml".to_string())
    );
    assert_eq!(VariableResolver::global_config_path_in(None), None);
    if let Some(path) = VariableResolver::global_config_path() {
        assert!(path.ends_with("/nursery/config.toml"));
    }
}
