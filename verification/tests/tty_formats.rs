use openarchieven::tty::{resolve_format, Format};

#[test]
fn format_parse_all_variants() {
    assert_eq!(Format::parse("json"), Some(Format::Json));
    assert_eq!(Format::parse("ndjson"), Some(Format::Ndjson));
    assert_eq!(Format::parse("table"), Some(Format::Table));
    assert_eq!(Format::parse("markdown"), Some(Format::Markdown));
    assert_eq!(Format::parse("xml"), None);
    assert_eq!(Format::parse(""), None);
}

#[test]
fn format_as_str_round_trips() {
    assert_eq!(Format::Json.as_str(), "json");
    assert_eq!(Format::Ndjson.as_str(), "ndjson");
    assert_eq!(Format::Table.as_str(), "table");
    assert_eq!(Format::Markdown.as_str(), "markdown");
}

#[test]
fn format_display_matches_as_str() {
    for f in [Format::Json, Format::Ndjson, Format::Table, Format::Markdown] {
        assert_eq!(f.to_string(), f.as_str());
    }
}

#[test]
fn format_name_parses_back() {
    for f in [Format::Json, Format::Ndjson, Format::Table, Format::Markdown] {
        assert_eq!(Format::parse(f.as_str()), Some(f));
        assert_eq!(Format::parse(&f.as_str().to_uppercase()), Some(f));
    }
}

#[test]
fn explicit_wins() {
    assert_eq!(resolve_format(Some(Format::Markdown), Some("table"), true), Format::Markdown);
}

#[test]
fn env_overrides_default() {
    assert_eq!(resolve_format(None, Some("markdown"), true), Format::Markdown);
    assert_eq!(resolve_format(None, Some("json"), true), Format::Json);
    assert_eq!(resolve_format(None, Some("table"), false), Format::Table);
}

#[test]
fn env_is_case_insensitive() {
    assert_eq!(resolve_format(None, Some("JSON"), true), Format::Json);
    assert_eq!(resolve_format(None, Some("Table"), false), Format::Table);
    assert_eq!(resolve_format(None, Some("MarkDown"), true), Format::Markdown);
}

#[test]
fn invalid_env_is_ignored() {
    assert_eq!(resolve_format(None, Some("xml"), true), Format::Table);
    assert_eq!(resolve_format(None, Some("xml"), false), Format::Json);
}

#[test]
fn tty_default_is_table() {
    assert_eq!(resolve_format(None, None, true), Format::Table);
}

#[test]
fn pipe_default_is_json() {
    assert_eq!(resolve_format(None, None, false), Format::Json);
}
