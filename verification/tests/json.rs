use nursery::generate::{
    prepare_config, serialize_config, validate_config, validation_outcome, GenerateError, Violation,
};
use nursery::json::{json_to_toml, parse_json, parse_yaml, to_json_text, to_yaml_text, toml_to_json};
use nursery::pull::{config_path, parse_config, pull_tool_config, Found, PullError};
use nursery::schema::{CliSchemaProvider, ConfigFormat, Run, SchemaError, ToolSchema};
use nursery::strmap::StrMap;
use nursery::text::path_join;
use nursery::value::{get, get_str, Config, Field};

fn table(value: &Config) -> &Vec<Field> {
    match value {
        Config::Table(fields) => fields,
        _ => panic!("a table was expected"),
    }
}

#[test]
fn parse_schema_response() {
    let json = r#"{
        "config_path": ".mytool/config.toml",
        "format": "toml",
        "schema": {
            "type": "object",
            "properties": {
                "source": { "type": "string" }
            }
        }
    }"#;

    let schema = ToolSchema::parse(json).unwrap();
    assert_eq!(schema.config_path, ".mytool/config.toml");
    assert_eq!(schema.format, ConfigFormat::Toml);
}

#[test]
fn parse_json_format() {
    let json = r#"{
        "config_path": "config.json",
        "format": "json",
        "schema": {}
    }"#;

    let schema = ToolSchema::parse(json).unwrap();
    assert_eq!(schema.format, ConfigFormat::Json);
}

#[test]
fn parse_yaml_format() {
    let json = r#"{
        "config_path": "config.yaml",
        "format": "yaml",
        "schema": {}
    }"#;

    let schema = ToolSchema::parse(json).unwrap();
    assert_eq!(schema.format, ConfigFormat::Yaml);
}

#[test]
fn json_to_toml_basic() {
    let json = parse_json(r#"{"name": "test", "count": 42, "enabled": true}"#).unwrap();

    let toml_val = json_to_toml(&json);
    let fields = table(&toml_val);

    assert_eq!(get_str(fields, "name"), Some("test"));
    assert_eq!(get(fields, "count"), Some(&Config::Integer(42)));
    assert_eq!(get(fields, "enabled"), Some(&Config::Boolean(true)));
}

#[test]
fn toml_json_roundtrip() {
    let toml_str = r#"
        name = "test"
        count = 42
        enabled = true
        tags = ["a", "b"]
    "#;
    let toml_value = Config::parse(toml_str).unwrap();
    let json = toml_to_json(&toml_value);
    let back = json_to_toml(&json);

    assert_eq!(toml_value, back);
}

#[test]
fn schema_responses_that_make_no_sense_are_refused() {
    assert!(ToolSchema::parse("not json").is_err());
    assert!(ToolSchema::parse("[1, 2]").is_err());
    assert!(ToolSchema::parse(r#"{"format": "toml", "schema": {}}"#).is_err());
    assert!(ToolSchema::parse(r#"{"config_path": 3, "format": "toml", "schema": {}}"#).is_err());
    assert!(ToolSchema::parse(r#"{"config_path": "c", "format": "ini", "schema": {}}"#).is_err());
    assert!(ToolSchema::parse(r#"{"config_path": "c", "format": "TOML", "schema": {}}"#).is_err());
    assert!(ToolSchema::parse(r#"{"config_path": "c", "format": "toml"}"#).is_err());
    let schema = ToolSchema::parse(r#"{"config_path": "c", "format": "toml", "schema": null, "more": 1}"#).unwrap();
    assert_eq!(schema.schema, Config::Null);
}

#[test]
fn fetching_goes_by_how_the_tool_ran() {
    let provider = CliSchemaProvider;
    assert!(matches!(
        provider.fetch("siphon", Run::NotFound),
        Err(SchemaError::ToolNotFound(tool)) if tool == "siphon"
    ));
    assert!(matches!(
        provider.fetch("siphon", Run::NotStarted("denied".to_string())),
        Err(SchemaError::Exec(tool, cause)) if tool == "siphon" && cause == "denied"
    ));
    let failed = Run::Exited { success: false, code: Some(2), stdout: Some("{}".to_string()), stderr: "bad flag".to_string() };
    assert!(matches!(
        provider.fetch("siphon", failed),
        Err(SchemaError::ToolFailed { tool, code: 2, stderr }) if tool == "siphon" && stderr == "bad flag"
    ));
    let killed = Run::Exited { success: false, code: None, stdout: None, stderr: String::new() };
    assert!(matches!(provider.fetch("siphon", killed), Err(SchemaError::ToolFailed { code: -1, .. })));
    let garbage = Run::Exited { success: true, code: Some(0), stdout: Some("hello".to_string()), stderr: String::new() };
    assert!(matches!(provider.fetch("siphon", garbage), Err(SchemaError::InvalidResponse(tool, _)) if tool == "siphon"));
    let binary = Run::Exited { success: true, code: Some(0), stdout: None, stderr: String::new() };
    assert!(matches!(provider.fetch("siphon", binary), Err(SchemaError::InvalidResponse(_, _))));
    let good = Run::Exited {
        success: true,
        code: Some(0),
        stdout: Some(r#"{"config_path": ".siphon.toml", "format": "toml", "schema": {}}"#.to_string()),
        stderr: "a warning".to_string(),
    };
    let schema = provider.fetch("siphon", good).unwrap();
    assert_eq!(schema.config_path, ".siphon.toml");
}

#[test]
fn json_and_toml_say_different_things() {
    let json = parse_json(r#"{"nothing": null, "list": [null, 1.5, {"deep": null}], "big": 18446744073709551615}"#).unwrap();
    let fields = table(&json);
    assert_eq!(get(fields, "nothing"), Some(&Config::Null));
    assert_eq!(get(fields, "big"), Some(&Config::Float("18446744073709552000".to_string())));
    let toml = json_to_toml(&json);
    let fields = table(&toml);
    assert_eq!(get(fields, "nothing"), Some(&Config::String("null".to_string())));
    match get(fields, "list") {
        Some(Config::Array(items)) => {
            assert_eq!(items[0], Config::String("null".to_string()));
            assert_eq!(items[1], Config::Float("1.5".to_string()));
            assert_eq!(get(table(&items[2]), "deep"), Some(&Config::String("null".to_string())));
        }
        _ => panic!("a list stays a list"),
    }

    let toml = Config::parse("when = 1979-05-27T07:32:00Z\nnan = nan\nup = inf\ndown = -inf\nhalf = 0.5\n").unwrap();
    let json = toml_to_json(&toml);
    let fields = table(&json);
    assert_eq!(get(fields, "when"), Some(&Config::String("1979-05-27T07:32:00Z".to_string())));
    assert_eq!(get(fields, "nan"), Some(&Config::Null));
    assert_eq!(get(fields, "up"), Some(&Config::Null));
    assert_eq!(get(fields, "down"), Some(&Config::Null));
    assert_eq!(get(fields, "half"), Some(&Config::Float("0.5".to_string())));
}

#[test]
fn documents_in_three_formats() {
    let value = parse_json(r#"{"a": 1, "b": ["x", true]}"#).unwrap();
    assert_eq!(to_json_text(&value).unwrap(), "{\n  \"a\": 1,\n  \"b\": [\n    \"x\",\n    true\n  ]\n}");
    assert_eq!(to_yaml_text(&value).unwrap(), "a: 1\nb:\n- x\n- true\n");
    assert_eq!(parse_yaml("a: 1\nb:\n- x\n- true\n").unwrap(), value);
    assert!(parse_json("{").is_err());
    assert!(parse_yaml("a: [").is_err());

    assert_eq!(parse_config("a = 1", ConfigFormat::Toml, "t").unwrap(), Config::Table(vec![Field { key: "a".to_string(), value: Config::Integer(1) }]));
    assert_eq!(parse_config("{\"a\": null}", ConfigFormat::Json, "t").unwrap(), Config::Table(vec![Field { key: "a".to_string(), value: Config::String("null".to_string()) }]));
    assert_eq!(parse_config("a: ~", ConfigFormat::Yaml, "t").unwrap(), Config::Table(vec![Field { key: "a".to_string(), value: Config::String("null".to_string()) }]));
    assert!(matches!(parse_config("a = ", ConfigFormat::Toml, "t"), Err(PullError::ParseConfig(tool, _)) if tool == "t"));
    assert!(matches!(parse_config("{", ConfigFormat::Json, "t"), Err(PullError::ParseConfig(_, _))));
    assert!(matches!(parse_config("a: [", ConfigFormat::Yaml, "t"), Err(PullError::ParseConfig(_, _))));

    let config = Config::parse("name = \"x\"\ncount = 2\n").unwrap();
    assert_eq!(serialize_config("t", &config, ConfigFormat::Toml).unwrap(), "count = 2\nname = \"x\"\n");
    assert_eq!(serialize_config("t", &config, ConfigFormat::Json).unwrap(), "{\n  \"count\": 2,\n  \"name\": \"x\"\n}");
    assert_eq!(serialize_config("t", &config, ConfigFormat::Yaml).unwrap(), "count: 2\nname: x\n");
    assert!(matches!(
        serialize_config("t", &Config::Integer(1), ConfigFormat::Toml),
        Err(GenerateError::Serialize(tool, _)) if tool == "t"
    ));
}

fn schema(text: &str, format: &str) -> ToolSchema {
    ToolSchema::parse(&format!(
        "{{\"config_path\": \".tool/config\", \"format\": \"{format}\", \"schema\": {text}}}"
    ))
    .unwrap()
}

#[test]
fn configurations_are_checked_against_the_schema() {
    let wants_string = schema(r#"{"type": "object", "properties": {"source": {"type": "string"}}, "required": ["source"]}"#, "toml");
    let good = Config::parse("source = \"./game.exe\"").unwrap();
    assert!(validate_config("siphon", &good, &wants_string).is_ok());
    let bad = Config::parse("source = 3").unwrap();
    match validate_config("siphon", &bad, &wants_string) {
        Err(GenerateError::ValidationFailed { tool, errors }) => {
            assert_eq!(tool, "siphon");
            assert!(errors.starts_with("  - /source: "));
        }
        _ => panic!("a number is no string"),
    }
    let no_schema = schema(r#"{"type": 3}"#, "toml");
    match validate_config("siphon", &good, &no_schema) {
        Err(GenerateError::ValidationFailed { errors, .. }) => {
            assert!(errors.starts_with("invalid schema: "));
        }
        _ => panic!("the schema is none"),
    }
}

#[test]
fn violations_are_reported_line_by_line() {
    assert!(validation_outcome("t", Ok(Vec::new())).is_ok());
    let found = vec![
        Violation { at: "/a".to_string(), what: "is wrong".to_string() },
        Violation { at: "".to_string(), what: "is missing".to_string() },
    ];
    match validation_outcome("t", Ok(found)) {
        Err(GenerateError::ValidationFailed { tool, errors }) => {
            assert_eq!(tool, "t");
            assert_eq!(errors, "  - /a: is wrong\n  - : is missing");
        }
        _ => panic!("two violations make a failure"),
    }
    match validation_outcome("t", Err("no schema".to_string())) {
        Err(GenerateError::ValidationFailed { errors, .. }) => {
            assert_eq!(errors, "invalid schema: no schema");
        }
        _ => panic!("a bad schema makes a failure"),
    }
}

#[test]
fn configurations_are_made_ready() {
    let mut vars = StrMap::new();
    vars.insert("name".to_string(), "demo".to_string());
    let config = Config::parse("title = \"{{name}}\"").unwrap();
    let any = schema("{}", "json");
    let prepared = prepare_config("siphon", &config, &vars, &any, "/work").unwrap();
    assert_eq!(prepared.path, "/work/.tool/config");
    assert_eq!(prepared.format, ConfigFormat::Json);
    assert_eq!(prepared.content, "{\n  \"title\": \"demo\"\n}");
    let strict = schema(r#"{"properties": {"title": {"const": "{{name}}"}}}"#, "toml");
    assert!(matches!(
        prepare_config("siphon", &config, &vars, &strict, "/work"),
        Err(GenerateError::ValidationFailed { .. })
    ));
}

#[test]
fn configurations_are_pulled_from_where_the_schema_says() {
    let yaml = schema("{}", "yaml");
    assert_eq!(config_path(&yaml, "/work"), "/work/.tool/config");
    let pulled = pull_tool_config("siphon", &yaml, "/work", Found::Contents("a: 1".to_string())).unwrap();
    assert_eq!(pulled.tool, "siphon");
    assert_eq!(pulled.path, "/work/.tool/config");
    assert_eq!(pulled.config, Config::Table(vec![Field { key: "a".to_string(), value: Config::Integer(1) }]));
    assert!(matches!(
        pull_tool_config("siphon", &yaml, "/work", Found::Nothing),
        Err(PullError::ConfigNotFound { tool, path }) if tool == "siphon" && path == "/work/.tool/config"
    ));
    assert!(matches!(
        pull_tool_config("siphon", &yaml, "/work", Found::Unreadable("denied".to_string())),
        Err(PullError::ReadConfig(tool, cause)) if tool == "siphon" && cause == "denied"
    ));
    assert!(matches!(
        pull_tool_config("siphon", &yaml, "/work", Found::Contents("a: [".to_string())),
        Err(PullError::ParseConfig(_, _))
    ));
}

#[test]
fn paths_are_joined_as_paths_are() {
    assert_eq!(path_join("/work", "a/b"), "/work/a/b");
    assert_eq!(path_join("/work/", "a"), "/work/a");
    assert_eq!(path_join("/work", "/etc/a"), "/etc/a");
    assert_eq!(path_join("", "a"), "a");
    assert_eq!(path_join("/work", ""), "/work/");
    assert_eq!(path_join(".", "a"), "./a");
}

#[test]
fn schema_errors_say_what_went_wrong() {
    assert_eq!(SchemaError::ToolNotFound("siphon".to_string()).message(), "tool 'siphon' not found in PATH");
    assert_eq!(
        SchemaError::ToolFailed { tool: "siphon".to_string(), code: -1, stderr: "boom".to_string() }.message(),
        "tool 'siphon' exited with -1: boom"
    );
    assert_eq!(
        SchemaError::ToolFailed { tool: "siphon".to_string(), code: 127, stderr: String::new() }.message(),
        "tool 'siphon' exited with 127: "
    );
    assert_eq!(
        SchemaError::InvalidResponse("siphon".to_string(), "eof".to_string()).message(),
        "tool 'siphon' did not output valid schema response: eof"
    );
    assert_eq!(
        SchemaError::Exec("siphon".to_string(), "denied".to_string()).message(),
        "failed to execute tool 'siphon': denied"
    );
    assert_eq!(
        GenerateError::SchemaFetch("siphon".to_string(), SchemaError::ToolNotFound("siphon".to_string())).message(),
        "failed to fetch schema for 'siphon': tool 'siphon' not found in PATH"
    );
    assert_eq!(
        GenerateError::ValidationFailed { tool: "siphon".to_string(), errors: "  - /a: bad".to_string() }.message(),
        "tool 'siphon' config is invalid:\n  - /a: bad"
    );
    assert_eq!(
        GenerateError::CreateDir("siphon".to_string(), "denied".to_string()).message(),
        "failed to create directory for 'siphon': denied"
    );
    assert_eq!(
        GenerateError::WriteConfig("siphon".to_string(), "full".to_string()).message(),
        "failed to write config for 'siphon': full"
    );
    assert_eq!(
        GenerateError::Serialize("siphon".to_string(), "odd".to_string()).message(),
        "failed to serialize config for 'siphon': odd"
    );
    assert_eq!(
        PullError::SchemaFetch("siphon".to_string(), SchemaError::Exec("siphon".to_string(), "x".to_string())).message(),
        "failed to fetch schema for 'siphon': failed to execute tool 'siphon': x"
    );
    assert_eq!(
        PullError::ConfigNotFound { tool: "siphon".to_string(), path: "/p".to_string() }.message(),
        "config file not found for 'siphon': /p"
    );
    assert_eq!(
        PullError::ReadConfig("siphon".to_string(), "denied".to_string()).message(),
        "failed to read config for 'siphon': denied"
    );
    assert_eq!(
        PullError::ParseConfig("siphon".to_string(), "eof".to_string()).message(),
        "failed to parse config for 'siphon': eof"
    );
}
