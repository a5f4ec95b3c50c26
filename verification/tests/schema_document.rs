use openarchieven::error::ErrorKind;
use openarchieven::json::Json;
use openarchieven::json_text::to_pretty;
use openarchieven::schema_cmd::{build, commands, errors, global_args};
use serde_json::Value;

fn back(v: &Json) -> Value {
    match v {
        Json::Null => Value::Null,
        Json::Bool(b) => Value::Bool(*b),
        Json::Number(n) => serde_json::from_str(&n.text).unwrap(),
        Json::Str(s) => Value::String(s.clone()),
        Json::Array(a) => Value::Array(a.iter().map(back).collect()),
        Json::Object(m) => Value::Object(m.iter().map(|(k, v)| (k.clone(), back(v))).collect()),
    }
}

#[test]
fn errors_block_lists_eight_kinds() {
    assert_eq!(errors().len(), 8);
}

#[test]
fn error_entries_follow_the_error_kinds() {
    let kinds = [
        ErrorKind::Validation,
        ErrorKind::NotFound,
        ErrorKind::RateLimit,
        ErrorKind::Timeout,
        ErrorKind::Network,
        ErrorKind::Server,
        ErrorKind::Parse,
        ErrorKind::Conflict,
    ];
    for (e, k) in errors().iter().zip(kinds) {
        assert_eq!(e.kind, k.as_str());
        assert_eq!(e.retryable, k.retryable());
        assert_eq!(e.exit_code, k.exit_code());
    }
}

#[test]
fn build_emits_five_output_formats() {
    let s = build("0.1.0");
    assert_eq!(s.output_formats, vec!["json", "ndjson", "table", "text", "markdown"]);
}

#[test]
fn build_emits_twentyseven_commands() {
    assert_eq!(build("0.1.0").commands.len(), 27);
}

#[test]
fn archives_is_first_command() {
    let s = build("0.1.0");
    assert_eq!(s.commands[0].name, "archives");
}

#[test]
fn global_args_declared() {
    let s = build("0.1.0");
    assert!(!s.global_args.is_empty());
    assert!(s.global_args.iter().any(|a| a.name == "--output"));
    assert!(s.global_args.iter().any(|a| a.name == "--quiet"));
    assert_eq!(global_args().len(), 13);
}

#[test]
fn schema_error_kinds_match_runtime_enum() {
    let s = build("0.1.0");
    let kinds: Vec<&str> = s.errors.iter().map(|e| e.kind).collect();
    assert_eq!(kinds, vec!["validation", "not_found", "rate_limit", "timeout", "network", "server", "parse", "conflict"]);
}

#[test]
fn command_names_are_unique() {
    let names: Vec<&str> = commands().iter().map(|c| c.name).collect();
    let mut sorted = names.clone();
    sorted.sort();
    sorted.dedup();
    assert_eq!(sorted.len(), names.len());
}

#[test]
fn schema_json_has_expected_members() {
    let s = build("9.9.9");
    let v = back(&s.to_json());
    assert_eq!(v["name"], "openarchieven");
    assert_eq!(v["version"], "9.9.9");
    assert_eq!(v["rate_limit"]["requests_per_second"], 4);
    assert_eq!(v["commands"][0]["name"], "archives");
    let search = v["commands"].as_array().unwrap().iter().find(|c| c["name"] == "search").unwrap();
    let sort = search["args"].as_array().unwrap().iter().find(|a| a["name"] == "--sort").unwrap();
    assert_eq!(sort["enum"].as_array().unwrap().len(), 12);
    assert_eq!(sort["enum"][0]["value"], -6);
    assert_eq!(sort["enum"][0]["label"], "source_desc");
    assert_eq!(sort["type"], "integer");
    let show = v["commands"].as_array().unwrap().iter().find(|c| c["name"] == "show").unwrap();
    assert_eq!(show["response_shape"], "single-nested");
    assert_eq!(show["paginated"], false);
    assert!(v["commands"][1]["cache_ttl_seconds"].is_null());
    let text = to_pretty(&s.to_json());
    assert!(text.starts_with("{\n  \"name\": \"openarchieven\",\n  \"version\": \"9.9.9\""));
}

#[test]
fn familynames_schema_returns_correct_command_name() {
    let cmd = openarchieven::commands::stats::familynames::schema();
    assert_eq!(cmd.name, "stats familynames");
    let et = cmd.args.iter().find(|a| a.name == "--event-type").unwrap();
    assert!(et.enum_values.is_some());
    assert_eq!(et.enum_values.as_ref().unwrap().len(), 5);
}

#[test]
fn weather_schema_returns_correct_command_name() {
    let cmd = openarchieven::commands::weather::schema();
    assert_eq!(cmd.name, "weather");
    assert_eq!(cmd.response_shape, "list");
    let date_arg = cmd.args.iter().find(|a| a.name == "--date").unwrap();
    assert!(date_arg.required);
}

#[test]
fn show_schema_returns_correct_shape() {
    let cmd = openarchieven::commands::show::schema();
    assert_eq!(cmd.name, "show");
    assert_eq!(cmd.response_shape, "single-nested");
    assert!(!cmd.paginated);
    let archive = cmd.args.iter().find(|a| a.name == "archive").unwrap();
    assert!(archive.required);
    assert!(archive.positional);
    let lang = cmd.args.iter().find(|a| a.name == "--lang").unwrap();
    assert!(!lang.required);
    assert!(!lang.positional);
    assert!(lang.enum_values.is_some());
}
