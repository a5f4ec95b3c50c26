use openarchieven::error::ErrorKind;
use openarchieven::json::{Json, JsonNumber};
use openarchieven::output::{
    apply_fields, apply_fields_auto, ensure_format_compatible, render, truncate, Renderable, Shape,
};
use openarchieven::render::render_at_width;
use openarchieven::tty::Format;
use serde_json::Value;

fn lib(v: &Value) -> Json {
    match v {
        Value::Null => Json::Null,
        Value::Bool(b) => Json::Bool(*b),
        Value::Number(n) => Json::Number(JsonNumber { text: n.to_string(), as_i64: n.as_i64(), as_u64: n.as_u64() }),
        Value::String(s) => Json::Str(s.clone()),
        Value::Array(a) => Json::Array(a.iter().map(lib).collect()),
        Value::Object(m) => Json::Object(m.iter().map(|(k, v)| (k.clone(), lib(v))).collect()),
    }
}

fn j(text: &str) -> Json {
    lib(&serde_json::from_str::<Value>(text).unwrap())
}

fn back(v: &Json) -> Value {
    match v {
        Json::Null => Value::Null,
        Json::Bool(b) => Value::Bool(*b),
        Json::Number(n) => serde_json::from_str(&n.text).unwrap(),
        Json::Str(s) => Value::String(s.clone()),
        Json::Array(a) => Value::Array(a.iter().map(back).collect()),
        Json::Object(m) => Value::Object(m.iter().map(|(k, v)| (k.clone(), back(v))).collect()),
    }
}

fn sv(text: &str) -> Value {
    serde_json::from_str(text).unwrap()
}

fn strings(items: &[&str]) -> Vec<String> {
    items.iter().map(|s| s.to_string()).collect()
}

#[test]
fn shape_as_str_returns_stable_strings() {
    assert_eq!(Shape::List.as_str(), "list");
    assert_eq!(Shape::SingleFlat.as_str(), "single-flat");
    assert_eq!(Shape::SingleNested.as_str(), "single-nested");
}

#[test]
fn with_total_sets_total_field() {
    let r = Renderable::list(j("[]"), false, None, None).with_total(Some(42));
    assert_eq!(r.total, Some(42));
}

#[test]
fn with_total_none_leaves_total_as_none() {
    let r = Renderable::list(j("[]"), false, None, None).with_total(None);
    assert_eq!(r.total, None);
}

#[test]
fn list_envelope_includes_pagination_metadata() {
    let r = Renderable::list(j(r#"[{"a": 1}, {"a": 2}]"#), true, Some(10), Some(0));
    let v = back(&r.list_envelope(Some(123)));
    assert_eq!(v["total"], 123);
    assert_eq!(v["limit"], 10);
    assert_eq!(v["offset"], 0);
    assert_eq!(v["paginated"], true);
    assert_eq!(v["items"].as_array().unwrap().len(), 2);
}

#[test]
fn list_envelope_falls_back_to_len_when_no_total() {
    let r = Renderable::list(j(r#"[{"a": 1}]"#), false, None, None);
    let v = back(&r.list_envelope(None));
    assert_eq!(v["total"], 1);
    assert_eq!(v["paginated"], false);
    assert!(v["limit"].is_null());
}

#[test]
fn fields_filter_keeps_only_named_keys() {
    let r = Renderable::list(j(r#"[{"a":1,"b":2,"c":3}]"#), false, None, None);
    let r = apply_fields(r, &strings(&["a", "c"]), &["a", "b", "c"]).unwrap();
    assert_eq!(back(&r.body), sv(r#"[{"a":1,"c":3}]"#));
}

#[test]
fn fields_filter_rejects_unknown() {
    let r = Renderable::list(j(r#"[{"a":1}]"#), false, None, None);
    let err = apply_fields(r, &strings(&["zzz"]), &["a"]).unwrap_err();
    assert_eq!(err.kind(), ErrorKind::Validation);
    assert!(err.message().contains("zzz"));
}

#[test]
fn fields_filter_projects_single_nested_top_level() {
    let r = Renderable::single_nested(j(r#"{"a": {"b": 1}, "c": 9}"#));
    let r = apply_fields(r, &strings(&["a"]), &["a", "c"]).unwrap();
    assert_eq!(back(&r.body), sv(r#"{"a": {"b": 1}}"#));
}

#[test]
fn fields_filter_projects_dot_path_into_nested_object() {
    let r = Renderable::single_nested(j(r#"{"a": {"b": 1, "c": 2}, "d": 9}"#));
    let r = apply_fields(r, &strings(&["a.b"]), &["a", "d"]).unwrap();
    assert_eq!(back(&r.body), sv(r#"{"a": {"b": 1}}"#));
}

#[test]
fn fields_filter_projects_dot_path_into_array_of_objects() {
    let r = Renderable::list(
        j(r#"[
            {"archive_code": "a", "personname": "Alice", "eventdate": {"year": 1900, "month": 1}},
            {"archive_code": "b", "personname": "Bob",   "eventdate": {"year": 1950, "month": 2}}
        ]"#),
        false,
        None,
        None,
    );
    let r = apply_fields(
        r,
        &strings(&["archive_code", "eventdate.year"]),
        &["archive_code", "personname", "eventdate"],
    )
    .unwrap();
    let items = back(&r.body);
    assert_eq!(items[0], sv(r#"{"archive_code": "a", "eventdate": {"year": 1900}}"#));
    assert_eq!(items[1], sv(r#"{"archive_code": "b", "eventdate": {"year": 1950}}"#));
}

#[test]
fn fields_filter_collapses_explicit_subpath_under_explicit_leaf() {
    let r = Renderable::list(j(r#"[{"docs": {"year": 1900, "place": "NL"}, "extra": 1}]"#), false, None, None);
    let r = apply_fields(r, &strings(&["docs", "docs.year"]), &["docs", "extra"]).unwrap();
    assert_eq!(back(&r.body)[0], sv(r#"{"docs": {"year": 1900, "place": "NL"}}"#));
}

#[test]
fn fields_filter_validation_only_checks_first_segment() {
    let r = Renderable::list(j(r#"[{"a": {"b": 1}}]"#), false, None, None);
    let r = apply_fields(r, &strings(&["a.zzz"]), &["a"]).unwrap();
    assert_eq!(back(&r.body)[0], sv(r#"{"a": {}}"#));
}

#[test]
fn fields_filter_on_single_flat_keeps_named_keys() {
    let r = Renderable::single_flat(j(r#"{"a": 1, "b": 2}"#));
    let r = apply_fields(r, &strings(&["a"]), &["a", "b"]).unwrap();
    assert_eq!(back(&r.body), sv(r#"{"a": 1}"#));
}

#[test]
fn fields_filter_list_non_object_items_pass_through_unchanged() {
    let r = Renderable::list(j(r#"["hello", "world"]"#), false, None, None);
    let r = apply_fields(r, &[], &["anything"]).unwrap();
    assert_eq!(back(&r.body)[0], sv(r#""hello""#));
}

#[test]
fn fields_filter_passthrough_for_non_array_non_object_body() {
    let r = Renderable { shape: Shape::List, body: j("42"), paginated: false, limit: None, offset: None, total: None };
    let r = apply_fields(r, &[], &["x"]).unwrap();
    assert_eq!(back(&r.body), sv("42"));
}

#[test]
fn projection_is_idempotent_on_a_sample() {
    let r = Renderable::list(j(r#"[{"a": {"b": 1, "c": 2}, "d": 3}]"#), false, None, None);
    let once = apply_fields(r, &strings(&["a.b", "d"]), &["a", "d"]).unwrap();
    let first = back(&once.body);
    let twice = apply_fields(once, &strings(&["a.b", "d"]), &["a", "d"]).unwrap();
    assert_eq!(back(&twice.body), first);
}

#[test]
fn projection_ignores_order_and_repetition_of_paths() {
    let body = r#"[{"docs": {"year": 1900, "place": "NL"}, "extra": 1, "id": 7}]"#;
    let known = ["docs", "extra", "id"];
    let orders: [&[&str]; 4] = [
        &["docs.year", "docs", "id"],
        &["docs", "docs.year", "id"],
        &["id", "docs", "id", "docs.year", "docs"],
        &["id", "docs.year", "docs"],
    ];
    for paths in orders {
        let r = Renderable::list(j(body), false, None, None);
        let r = apply_fields(r, &strings(paths), &known).unwrap();
        assert_eq!(back(&r.body)[0], sv(r#"{"docs": {"year": 1900, "place": "NL"}, "id": 7}"#));
    }
}

#[test]
fn fields_auto_derives_known_set_from_list_items() {
    let r = Renderable::list(j(r#"[{"a": 1, "b": 2}, {"a": 3, "c": 4}]"#), false, None, None);
    let r = apply_fields_auto(r, &strings(&["a"])).unwrap();
    assert_eq!(back(&r.body), sv(r#"[{"a": 1}, {"a": 3}]"#));
}

#[test]
fn fields_auto_rejects_unknown_against_observed_keys() {
    let r = Renderable::list(j(r#"[{"a": 1}]"#), false, None, None);
    let err = apply_fields_auto(r, &strings(&["zzz"])).unwrap_err();
    assert_eq!(err.kind(), ErrorKind::Validation);
    assert!(err.message().contains("zzz"));
}

#[test]
fn fields_auto_filters_single_flat() {
    let r = Renderable::single_flat(j(r#"{"x": 1, "y": 2}"#));
    let r = apply_fields_auto(r, &strings(&["x"])).unwrap();
    assert_eq!(back(&r.body), sv(r#"{"x": 1}"#));
}

#[test]
fn fields_auto_projects_single_nested_dot_paths() {
    let r = Renderable::single_nested(j(r#"{"a": {"b": 1, "c": 2}, "d": 9}"#));
    let r = apply_fields_auto(r, &strings(&["a.b"])).unwrap();
    assert_eq!(back(&r.body), sv(r#"{"a": {"b": 1}}"#));
}

#[test]
fn fields_auto_rejects_unknown_first_segment_on_nested() {
    let r = Renderable::single_nested(j(r#"{"a": {"b": 1}}"#));
    let err = apply_fields_auto(r, &strings(&["zzz.b"])).unwrap_err();
    assert_eq!(err.kind(), ErrorKind::Validation);
    assert!(err.message().contains("zzz"));
}

#[test]
fn fields_auto_is_noop_for_empty_list() {
    let r = Renderable::list(j("[]"), false, None, None);
    let r = apply_fields_auto(r, &strings(&["anything"])).unwrap();
    assert_eq!(back(&r.body), sv("[]"));
}

#[test]
fn fields_auto_passthrough_for_non_array_list_body() {
    let r = Renderable { shape: Shape::List, body: Json::Null, paginated: false, limit: None, offset: None, total: None };
    let r = apply_fields_auto(r, &strings(&["x"])).unwrap();
    assert_eq!(back(&r.body), Value::Null);
}

#[test]
fn ensure_format_compatible_allows_ndjson_on_list() {
    let r = Renderable::list(j(r#"[{"x": 1}]"#), false, None, None);
    assert!(ensure_format_compatible(&r, Format::Ndjson).is_ok());
}

#[test]
fn ensure_format_compatible_rejects_ndjson_on_single_flat() {
    let r = Renderable::single_flat(j(r#"{"x": 1}"#));
    let err = ensure_format_compatible(&r, Format::Ndjson).unwrap_err();
    assert_eq!(err.kind(), ErrorKind::Validation);
    assert!(err.message().contains("ndjson"));
    assert!(err.message().contains("single-flat"));
}

#[test]
fn ensure_format_compatible_rejects_ndjson_on_single_nested() {
    let r = Renderable::single_nested(j(r#"{"a": {"b": 1}}"#));
    let err = ensure_format_compatible(&r, Format::Ndjson).unwrap_err();
    assert_eq!(err.kind(), ErrorKind::Validation);
    assert!(err.message().contains("single-nested"));
}

#[test]
fn ensure_format_compatible_allows_other_formats_on_any_shape() {
    let single = Renderable::single_flat(j(r#"{"x": 1}"#));
    for fmt in [Format::Json, Format::Table, Format::Markdown] {
        assert!(ensure_format_compatible(&single, fmt).is_ok());
    }
}

#[test]
fn ndjson_render_list_emits_one_doc_per_line() {
    let r = Renderable::list(j(r#"[{"a": 1}, {"a": 2}, {"a": 3}]"#), true, Some(50), Some(0));
    let s = render(&r, Format::Ndjson, false);
    let lines: Vec<&str> = s.lines().collect();
    assert_eq!(lines.len(), 3);
    assert_eq!(sv(lines[0]), sv(r#"{"a": 1}"#));
    assert_eq!(sv(lines[1]), sv(r#"{"a": 2}"#));
    assert_eq!(sv(lines[2]), sv(r#"{"a": 3}"#));
    assert!(!s.contains("items"));
    assert!(!s.contains("total"));
    assert!(!s.contains("paginated"));
}

#[test]
fn ndjson_render_empty_list_emits_no_output() {
    let r = Renderable::list(j("[]"), false, None, None);
    assert!(render(&r, Format::Ndjson, false).is_empty());
}

#[test]
fn ndjson_each_line_is_compact() {
    let r = Renderable::list(j(r#"[{"a": 1, "b": "x"}]"#), false, None, None);
    let s = render(&r, Format::Ndjson, true);
    assert_eq!(s.trim_end(), r#"{"a":1,"b":"x"}"#);
}

#[test]
fn json_render_list_writes_envelope() {
    let r = Renderable::list(j(r#"[{"x": 1}]"#), true, Some(5), Some(0));
    let v = sv(render(&r, Format::Json, false).trim());
    assert_eq!(v["items"][0]["x"], 1);
    assert_eq!(v["paginated"], true);
}

#[test]
fn json_render_list_pretty() {
    let r = Renderable::list(j(r#"[{"x": 1}]"#), false, None, None);
    let pretty = render(&r, Format::Json, true);
    let compact = render(&r, Format::Json, false);
    assert!(pretty.contains("\n  \"items\": ["));
    assert!(pretty.contains("\n      \"x\": 1"));
    assert!(!compact.contains("\n  "));
    assert!(pretty.len() > compact.len());
    let v = sv(pretty.trim());
    assert_eq!(v["items"][0]["x"], 1);
}

#[test]
fn json_render_single_writes_object_directly() {
    let r = Renderable::single_flat(j(r#"{"k": "v"}"#));
    let v = sv(&render(&r, Format::Json, false));
    assert_eq!(v["k"], "v");
    assert!(v.get("items").is_none());
}

#[test]
fn json_render_single_nested_pretty() {
    let r = Renderable::single_nested(j(r#"{"a": {"b": 2}}"#));
    let s = render(&r, Format::Json, true);
    assert_eq!(s.trim_end(), "{\n  \"a\": {\n    \"b\": 2\n  }\n}");
    assert!(s.ends_with('\n'));
}

#[test]
fn json_render_single_flat_pretty() {
    let r = Renderable::single_flat(j(r#"{"foo": "bar"}"#));
    assert_eq!(render(&r, Format::Json, true).trim_end(), "{\n  \"foo\": \"bar\"\n}");
    assert_eq!(render(&r, Format::Json, false).trim_end(), "{\"foo\":\"bar\"}");
}

#[test]
fn json_render_matches_serde_json_text() {
    let text = r#"{"a": [1, -2, "x\ny", null, true], "b": {"c": "é\u0001"}}"#;
    let r = Renderable::single_nested(j(text));
    let value = sv(text);
    assert_eq!(render(&r, Format::Json, false).trim_end(), serde_json::to_string(&value).unwrap());
    assert_eq!(render(&r, Format::Json, true).trim_end(), serde_json::to_string_pretty(&value).unwrap());
}

#[test]
fn table_render_empty_list_prints_no_results() {
    let r = Renderable::list(j("[]"), false, None, None);
    assert!(render(&r, Format::Table, false).contains("(no results)"));
}

#[test]
fn table_render_list_with_objects() {
    let r = Renderable::list(j(r#"[{"name": "alice", "age": 30}]"#), false, None, None);
    let s = render(&r, Format::Table, false);
    assert!(s.contains("name"));
    assert!(s.contains("alice"));
    assert!(s.contains("age"));
    assert!(s.contains("30"));
}

#[test]
fn table_render_list_null_item_shows_empty_row() {
    let r = Renderable::list(j("[null, null]"), false, None, None);
    let s = render(&r, Format::Table, false);
    let rows: Vec<&str> = s.lines().filter(|l| l.starts_with('│')).collect();
    assert_eq!(rows.len(), 3);
    assert!(rows[0].contains("value"));
    for row in &rows[1..] {
        let cell = row.trim_matches('│').trim();
        assert!(cell.is_empty(), "expected empty cell, got {row:?}");
    }
}

#[test]
fn table_render_list_scalar_item() {
    let r = Renderable::list(j("[42, 99]"), false, None, None);
    let s = render(&r, Format::Table, false);
    let data_rows: Vec<&str> = s.lines().filter(|l| l.starts_with('│') && !l.contains("value")).collect();
    assert_eq!(data_rows.len(), 2);
    assert!(data_rows[0].contains("42"));
    assert!(data_rows[1].contains("99"));
}

#[test]
fn table_render_list_object_with_nested_value_serialized() {
    let r = Renderable::list(j(r#"[{"meta": {"x": 1}}]"#), false, None, None);
    let s = render(&r, Format::Table, false);
    assert!(s.contains(r#"{"x":1}"#), "expected serialized JSON in cell, got:\n{s}");
}

#[test]
fn table_render_list_missing_key_renders_null() {
    let r = Renderable::list(j(r#"[{"a": 1, "b": 2}, {"a": 3}]"#), false, None, None);
    let s = render(&r, Format::Table, false);
    let second_row = s.lines().find(|l| l.starts_with('│') && l.contains(" 3 ")).expect("second data row present");
    assert!(second_row.contains("null"), "expected 'null' in row, got: {second_row:?}");
}

#[test]
fn table_render_single_flat() {
    let r = Renderable::single_flat(j(r#"{"city": "Amsterdam", "pop": 900000}"#));
    let s = render(&r, Format::Table, false);
    assert!(s.contains("key"));
    assert!(s.contains("value"));
    assert!(s.contains("city"));
    assert!(s.contains("Amsterdam"));
}

#[test]
fn table_render_single_nested_with_object_value_serialized() {
    let r = Renderable::single_nested(j(r#"{"addr": {"city": "AMS"}}"#));
    let s = render(&r, Format::Table, false);
    assert!(s.contains(r#"{"city":"AMS"}"#), "got:\n{s}");
}

#[test]
fn table_render_single_nested_with_array_value_serialized() {
    let r = Renderable::single_nested(j(r#"{"tags": ["a", "b"]}"#));
    let s = render(&r, Format::Table, false);
    assert!(s.contains(r#"["a","b"]"#), "got:\n{s}");
}

#[test]
fn table_render_single_flat_scalar_values() {
    let r = Renderable::single_flat(j(r#"{"count": 42, "active": true}"#));
    let s = render(&r, Format::Table, false);
    assert!(s.contains("42"));
    assert!(s.contains("true"));
}

#[test]
fn markdown_renders_list_table() {
    let r = Renderable::list(j(r#"[{"a": 1, "b": "x"}]"#), false, None, None);
    let s = render(&r, Format::Markdown, false);
    assert!(s.contains("| a | b |"));
    assert!(s.contains("| --- | --- |"));
}

#[test]
fn markdown_renders_empty_list() {
    let r = Renderable::list(j("[]"), false, None, None);
    assert!(render(&r, Format::Markdown, false).contains("_(no results)_"));
}

#[test]
fn markdown_renders_list_non_object_items() {
    let r = Renderable::list(j(r#"["hello", "world"]"#), false, None, None);
    let s = render(&r, Format::Markdown, false);
    assert!(s.contains("| value |"));
    assert!(s.contains("hello"));
}

#[test]
fn markdown_renders_list_null_cells_as_empty() {
    let r = Renderable::list(j(r#"[{"a": 1, "b": null}]"#), false, None, None);
    let s = render(&r, Format::Markdown, false);
    let lines: Vec<&str> = s.lines().collect();
    assert_eq!(lines[0], "| a | b |");
    assert_eq!(lines[1], "| --- | --- |");
    assert_eq!(lines[2], "| 1 |  |");
}

#[test]
fn markdown_escapes_pipes_in_strings() {
    let r = Renderable::list(j(r#"[{"name": "a|b"}]"#), false, None, None);
    assert!(render(&r, Format::Markdown, false).contains("a\\|b"));
}

#[test]
fn markdown_replaces_newlines_in_cells() {
    let r = Renderable::list(j(r#"[{"text": "line1\nline2"}]"#), false, None, None);
    assert!(render(&r, Format::Markdown, false).contains("line1 line2"));
}

#[test]
fn markdown_renders_single_flat() {
    let r = Renderable::single_flat(j(r#"{"name": "alice", "age": 30}"#));
    let s = render(&r, Format::Markdown, false);
    assert!(s.contains("- **name**: alice"));
    assert!(s.contains("- **age**: 30"));
}

#[test]
fn markdown_renders_single_flat_null_value_as_empty() {
    let r = Renderable::single_flat(j(r#"{"key": null}"#));
    assert!(render(&r, Format::Markdown, false).contains("- **key**: "));
}

#[test]
fn markdown_renders_nested_as_fenced_json() {
    let r = Renderable::single_nested(j(r#"{"name": "alice", "addr": {"city": "AMS"}}"#));
    let s = render(&r, Format::Markdown, false);
    assert!(s.contains("- **name**: alice"));
    assert!(s.contains("- **addr**:"));
    assert!(s.contains("```json"));
}

#[test]
fn markdown_renders_nested_array_as_fenced_json() {
    let r = Renderable::single_nested(j(r#"{"tags": ["a", "b"]}"#));
    let s = render(&r, Format::Markdown, false);
    assert!(s.contains("- **tags**:"));
    assert!(s.contains("```json"));
    assert!(s.contains("\"a\""));
}

#[test]
fn markdown_renders_nested_scalar() {
    let r = Renderable::single_nested(j(r#"{"count": 7}"#));
    assert!(render(&r, Format::Markdown, false).contains("- **count**: 7"));
}

#[test]
fn markdown_object_cell_escapes_pipes_in_serialized_json() {
    let r = Renderable::list(j(r#"[{"meta": {"key": "a|b"}}]"#), false, None, None);
    let s = render(&r, Format::Markdown, false);
    let lines: Vec<&str> = s.lines().collect();
    assert_eq!(lines[0], "| meta |");
    assert_eq!(lines[1], "| --- |");
    assert_eq!(lines[2], r#"| {"key":"a\|b"} |"#);
}

#[test]
fn truncate_short_string_unchanged() {
    assert_eq!(truncate("hello", 10), "hello");
}

#[test]
fn truncate_exact_length_unchanged() {
    assert_eq!(truncate("hello", 5), "hello");
}

#[test]
fn truncate_long_string_appends_ellipsis() {
    let result = truncate("abcdef", 5);
    assert!(result.ends_with('…'));
    assert_eq!(result.chars().count(), 5);
    assert_eq!(result, "abcd…");
}

#[test]
fn truncate_multibyte_chars_counted_correctly() {
    let s: String = "αβγδε".to_string();
    assert_eq!(truncate(&s, 5), "αβγδε");
    let result = truncate(&s, 4);
    assert!(result.ends_with('…'));
}

#[test]
fn table_renders_eventdate_as_iso_dmy() {
    let r = Renderable::list(
        j(r##"[{"eventdate": {"day": 31, "month": 5, "year": 1895}, "personname": "# Jansen"}]"##),
        false,
        None,
        None,
    );
    let s = render(&r, Format::Table, false);
    assert!(s.contains("31-05-1895"), "table:\n{s}");
    assert!(!s.contains("\"day\""), "raw json leaked: {s}");
    assert!(s.contains(" Jansen"), "personname not stripped: {s}");
    assert!(!s.contains("# Jansen"), "personname header leaked: {s}");
}

#[test]
fn markdown_strips_personname_heading() {
    let r = Renderable::list(j(r##"[{"personname": "# Jansen-Walet"}]"##), false, None, None);
    let s = render(&r, Format::Markdown, false);
    assert!(!s.contains("| # Jansen"), "markdown:\n{s}");
    assert!(s.contains("| Jansen-Walet |"), "markdown:\n{s}");
}

#[test]
fn table_renders_single_nested_eventdate_as_iso_dmy() {
    let r = Renderable::single_nested(j(r#"{"eventdate": {"day": 7, "month": 8, "year": 1923}}"#));
    let s = render(&r, Format::Table, false);
    assert!(s.contains("07-08-1923"), "table:\n{s}");
    assert!(!s.contains("\"day\""), "raw json leaked: {s}");
}

#[test]
fn table_renders_single_flat_eventdate_as_iso_dmy() {
    let r = Renderable::single_flat(j(r#"{"eventdate": {"day": 15, "month": 3, "year": 1888}}"#));
    let s = render(&r, Format::Table, false);
    assert!(s.contains("15-03-1888"), "table:\n{s}");
    assert!(!s.contains("\"day\""), "raw json leaked: {s}");
}

fn comfy(headers: &[&str], rows: &[&[&str]], width: Option<u16>) -> String {
    let mut t = comfy_table::Table::new();
    t.load_preset(comfy_table::presets::UTF8_FULL).set_content_arrangement(comfy_table::ContentArrangement::Dynamic);
    t.force_no_tty();
    if let Some(w) = width {
        t.set_width(w);
    }
    t.set_header(headers.iter());
    for row in rows {
        t.add_row(row.iter());
    }
    format!("{t}\n")
}

#[test]
fn table_render_at_width_is_the_comfy_layout_of_the_cells() {
    let r = Renderable::list(j(r#"[{"age": 30, "name": "alice"}, {"name": "bob"}]"#), false, None, None);
    let s = render_at_width(&r, Format::Table, false, Some(120));
    assert_eq!(s, comfy(&["age", "name"], &[&["30", "alice"], &["null", "bob"]], Some(120)));
    let narrow = render_at_width(&r, Format::Table, false, Some(12));
    assert_eq!(narrow, comfy(&["age", "name"], &[&["30", "alice"], &["null", "bob"]], Some(12)));
    let free = render_at_width(&r, Format::Table, false, None);
    assert_eq!(free, comfy(&["age", "name"], &[&["30", "alice"], &["null", "bob"]], None));
}

#[test]
fn table_render_at_width_single_flat_rows_are_key_value() {
    let r = Renderable::single_flat(j(r#"{"city": "Amsterdam", "pop": 900000}"#));
    let s = render_at_width(&r, Format::Table, false, Some(80));
    assert_eq!(s, comfy(&["key", "value"], &[&["city", "Amsterdam"], &["pop", "900000"]], Some(80)));
}
