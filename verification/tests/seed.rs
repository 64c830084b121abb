use nursery::generate::ConfigPreview;
use nursery::manifest::{parse_var, ToolDep};
use nursery::config::ToolSource;
use nursery::schema::{CliSchemaProvider, ConfigFormat};
use nursery::seed::{builtins, substitute, Scaffold, Seed, SeedError, SeedResolver, SeedSource};
use nursery::strmap::StrMap;
use nursery::text::{contains, has_prefix, has_suffix, join, replace_all};

fn map(pairs: &[(&str, &str)]) -> StrMap<String> {
    let mut m = StrMap::new();
    for (k, v) in pairs {
        m.insert(k.to_string(), v.to_string());
    }
    m
}

#[test]
fn substitute_vars() {
    let vars = map(&[("name", "my-project"), ("version", "1.0.0")]);

    let result = substitute("name = \"{{name}}\"\nversion = \"{{version}}\"", &vars);
    assert_eq!(result, "name = \"my-project\"\nversion = \"1.0.0\"");
}

#[test]
fn get_builtin_seed() {
    let resolver = SeedResolver::with_user_dir(None);
    let seed = resolver.get("creation", None).unwrap();
    assert_eq!(seed.name, "creation");
}

#[test]
fn unknown_seed() {
    let resolver = SeedResolver::with_user_dir(None);
    let err = resolver.get("nonexistent", None).err().unwrap();
    assert!(matches!(err, SeedError::UnknownSeed(_)));
}

#[test]
fn list_builtins() {
    let resolver = SeedResolver::with_user_dir(None);
    let seeds = resolver.list(Vec::new());
    assert_eq!(seeds.len(), 3);
}

#[test]
fn builtin_seeds_have_their_files() {
    let seeds = builtins();
    let names: Vec<&str> = seeds.iter().map(|s| s.name.as_str()).collect();
    assert_eq!(names, vec!["creation", "archaeology", "lab"]);
    assert_eq!(seeds[1].description, "Lift a legacy game");
    for seed in &seeds {
        assert_eq!(seed.variables.len(), 2);
        assert_eq!(seed.variables.get("name"), Some(&None));
        assert_eq!(seed.variables.get("version"), Some(&Some("0.1.0".to_string())));
    }
    let counts: Vec<usize> = seeds
        .iter()
        .map(|s| match &s.source {
            SeedSource::Builtin(files) => files.len(),
            SeedSource::Directory(_) => 0,
        })
        .collect();
    assert_eq!(counts, vec![2, 5, 6]);
    match &seeds[0].source {
        SeedSource::Builtin(files) => {
            assert_eq!(files[0].path, "nursery.toml");
            assert_eq!(
                files[0].contents,
                "[project]\nname = \"{{name}}\"\nversion = \"{{version}}\"\n\n[lotus]\ntarget = \"web-wasm\"\nport = 8080\n"
            );
            assert_eq!(files[1].path, ".gitignore");
            assert_eq!(files[1].contents, "/target\n");
        }
        SeedSource::Directory(_) => panic!("built-in seeds hold their files"),
    }
}

#[test]
fn user_seeds_come_first() {
    let resolver = SeedResolver::with_user_dir(Some("/home/me/seeds".to_string()));
    assert_eq!(resolver.user_seed_dir("lab"), Some("/home/me/seeds/lab".to_string()));
    assert_eq!(SeedResolver::with_user_dir(None).user_seed_dir("lab"), None);
    assert_eq!(SeedResolver::seeds_in("/cfg"), "/cfg/nursery/seeds");
    let mine = Seed {
        name: "lab".to_string(),
        description: "my own lab".to_string(),
        variables: StrMap::new(),
        source: SeedSource::Directory("/home/me/seeds/lab".to_string()),
    };
    let found = resolver.get("lab", Some(mine)).unwrap();
    assert_eq!(found.description, "my own lab");
    assert_eq!(resolver.get("lab", None).unwrap().description, "Full ecosystem sandbox");
    assert_eq!(resolver.get("archaeology", None).unwrap().name, "archaeology");
    let _ = SeedResolver::new();
}

#[test]
fn scaffolding_checks_before_it_plans() {
    let seed = SeedResolver::with_user_dir(None).get("creation", None).unwrap();
    let vars = map(&[("name", "demo"), ("version", "2.0")]);

    match seed.scaffold("/work/demo", true, &vars, false) {
        Err(SeedError::AlreadyExists(dest)) => assert_eq!(dest, "/work/demo"),
        _ => panic!("a directory that exists is refused"),
    }
    match seed.scaffold("/work/demo", false, &map(&[("version", "2.0")]), false) {
        Err(SeedError::MissingVariable(name)) => assert_eq!(name, "name"),
        _ => panic!("a required variable without a value is refused"),
    }
    assert_eq!(seed.missing_variable(&vars), None);
    assert_eq!(seed.missing_variable(&StrMap::new()), Some("name".to_string()));

    match seed.scaffold("/work/demo", false, &vars, false) {
        Ok(Scaffold::Files(files)) => {
            assert_eq!(files.len(), 2);
            assert_eq!(files[0].path, "nursery.toml");
            assert_eq!(
                files[0].contents,
                "[project]\nname = \"demo\"\nversion = \"2.0\"\n\n[lotus]\ntarget = \"web-wasm\"\nport = 8080\n"
            );
            assert_eq!(files[1].contents, "/target\n");
        }
        _ => panic!("a built-in seed is written from its files"),
    }
    match seed.scaffold("/work/demo", false, &StrMap::new(), true) {
        Ok(Scaffold::Files(files)) => assert!(files[0].contents.contains("{{name}}")),
        _ => panic!("raw scaffolding needs no variables"),
    }
    let mine = Seed {
        name: "mine".to_string(),
        description: String::new(),
        variables: StrMap::new(),
        source: SeedSource::Directory("/seeds/mine".to_string()),
    };
    match mine.scaffold("/work/demo", false, &vars, true) {
        Ok(Scaffold::CopyTemplate { template, raw }) => {
            assert_eq!(template, "/seeds/mine/template");
            assert!(raw);
        }
        _ => panic!("a seed in a directory is copied from its template"),
    }
}

#[test]
fn replacing_takes_occurrences_from_the_left() {
    assert_eq!(replace_all("aaa", "aa", "b"), "ba");
    assert_eq!(replace_all("a-b-c", "-", "+"), "a+b+c");
    assert_eq!(replace_all("abc", "", "x"), "abc");
    assert_eq!(replace_all("", "a", "x"), "");
    assert_eq!(replace_all("{{a}}{{a}}", "{{a}}", "{{a}}!"), "{{a}}!{{a}}!");
    assert_eq!(replace_all("héllo wörld", "ö", "o"), "héllo world");
    assert_eq!(substitute("{{a}}", &map(&[("a", "{{b}}"), ("b", "c")])), "c");
    assert_eq!(substitute("{{b}}", &map(&[("a", "{{b}}"), ("b", "c")])), "c");
    assert_eq!(substitute("{{x}} stays", &map(&[("a", "1")])), "{{x}} stays");
}

#[test]
fn text_helpers() {
    assert!(has_prefix("debian_12", "debian"));
    assert!(!has_prefix("deb", "debian"));
    assert!(has_prefix("x", ""));
    assert!(has_suffix("ripgrep-doc", "-doc"));
    assert!(!has_suffix("doc", "-doc"));
    assert!(contains("bash-completion-extras", "-completion"));
    assert!(!contains("complete", "completion"));
    assert!(contains("abc", ""));
    assert!(contains("abc", "c"));
    assert_eq!(join("/a", "b"), "/a/b");
}

#[test]
fn package_names_use_overrides() {
    let strings = map(&[("version", "*"), ("apt", "libssl-dev"), ("pacman", "openssl"), ("note", "unrelated")]);
    let openssl = ToolDep::from_table(Some("*"), None, None, &strings).unwrap();

    // Uses override when present
    assert_eq!(openssl.package_name("apt", "openssl"), "libssl-dev");
    assert_eq!(openssl.package_name("pacman", "openssl"), "openssl");

    // Falls back to default when no override
    assert_eq!(openssl.package_name("brew", "openssl"), "openssl");
    assert_eq!(openssl.package_name("note", "openssl"), "openssl");
}

#[test]
fn tool_deps_from_their_two_forms() {
    let rg = ToolDep::simple(">=14");
    assert_eq!(rg.version, ">=14");
    assert!(!rg.optional);
    assert!(rg.source.is_none());
    assert_eq!(rg.overrides.len(), 0);

    let jq = ToolDep::from_table(Some("=1.7"), Some(true), Some("prefer-store"), &StrMap::new()).unwrap();
    assert_eq!(jq.version, "=1.7");
    assert!(jq.optional);
    assert_eq!(jq.source, Some(ToolSource::PreferStore));
    let odd = ToolDep::from_table(Some("1"), Some(false), Some("somewhere"), &StrMap::new()).unwrap();
    assert!(!odd.optional);
    assert_eq!(odd.source, None);
    assert!(ToolDep::from_table(None, Some(true), None, &StrMap::new()).is_none());
}

#[test]
fn variables_are_split_at_the_first_equals() {
    assert_eq!(parse_var("name=demo"), Ok(("name".to_string(), "demo".to_string())));
    assert_eq!(parse_var("a=b=c"), Ok(("a".to_string(), "b=c".to_string())));
    assert_eq!(parse_var("=x"), Ok((String::new(), "x".to_string())));
    assert_eq!(parse_var("x="), Ok(("x".to_string(), String::new())));
    assert_eq!(
        parse_var("novalue"),
        Err("invalid KEY=VALUE: no '=' found in 'novalue'".to_string())
    );
}

#[test]
fn formats_and_previews() {
    assert_eq!(ConfigFormat::parse("toml"), Some(ConfigFormat::Toml));
    assert_eq!(ConfigFormat::parse("json"), Some(ConfigFormat::Json));
    assert_eq!(ConfigFormat::parse("yaml"), Some(ConfigFormat::Yaml));
    assert_eq!(ConfigFormat::parse("ini"), None);
    assert_eq!(ConfigFormat::Yaml.name(), "yaml");
    assert_eq!(CliSchemaProvider.command("siphon"), vec!["siphon", "--schema"]);
    let mut preview = ConfigPreview {
        tool: "siphon".to_string(),
        path: ".siphon/config.toml".to_string(),
        content: "a = 1\n".to_string(),
        existing: None,
    };
    assert!(preview.changes());
    preview.existing = Some("a = 1\n".to_string());
    assert!(!preview.changes());
    preview.existing = Some("a = 2\n".to_string());
    assert!(preview.changes());
}

#[test]
fn user_seeds_lie_in_the_configuration_directory() {
    let resolver = SeedResolver::with_config_dir(Some("/home/me/.config".to_string()));
    assert_eq!(
        resolver.user_seed_dir("lab"),
        Some("/home/me/.config/nursery/seeds/lab".to_string())
    );
    assert_eq!(SeedResolver::with_config_dir(None).user_seed_dir("lab"), None);
    if let Some(dir) = SeedResolver::new().user_seed_dir("lab") {
        assert!(dir.ends_with("/nursery/seeds/lab"));
    }
}
