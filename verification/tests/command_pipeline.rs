//! Commands run through the library the way the program runs them: the
//! settings, the request, the response, the shaping, `--fields`, and the
//! rendered output or the error payload.
#![allow(dead_code, unused_imports)]
use openarchieven::client::{attempt_outcome, CacheMode};
use openarchieven::commands::ApiRequest;
use openarchieven::error::{Error, ErrorKind};
use openarchieven::json::{Json, JsonNumber};
use openarchieven::output::{Renderable, Shape};
use openarchieven::runtime::ApiContext;
use openarchieven::span::TimeSpan;
use serde_json::Value;

fn lib(v: &Value) -> Json {
    match v {
        Value::Null => Json::Null,
        Value::Bool(b) => Json::Bool(*b),
        Value::Number(n) => Json::Number(JsonNumber { text: n.to_string(), as_i64: n.as_i64(), as_u64: n.as_u64() }),
        Value::String(s) => Json::Str(s.clone()),
        Value::Array(a) => Json::Array(a.iter().map(lib).collect()),
        Value::Object(m) => Json::Object(m.iter().map(|(k, v)| (k.clone(), lib(v))).collect()),
    }
}

fn back(v: &Json) -> Value {
    match v {
        Json::Null => Value::Null,
        Json::Bool(b) => Value::Bool(*b),
        Json::Number(n) => serde_json::from_str(&n.text).unwrap(),
        Json::Str(s) => Value::String(s.clone()),
        Json::Array(a) => Value::Array(a.iter().map(back).collect()),
        Json::Object(m) => Value::Object(m.iter().map(|(k, v)| (k.clone(), back(v))).collect()),
    }
}

/// What the client hands on for a response with this status and body.
fn reply(status: u16, text: &str) -> Result<Json, Error> {
    let parsed = serde_json::from_str::<Value>(text).map(|v| lib(&v)).map_err(|e| e.to_string());
    attempt_outcome(status, text.as_bytes(), parsed, None)
}

fn ok_body(text: &str) -> Json {
    reply(200, text).unwrap()
}

fn ctx() -> ApiContext {
    ApiContext {
        timeout: TimeSpan { secs: 2, nanos: 0 },
        cache_mode: CacheMode::Default,
        cache_ttl_override: None,
        cache_dir: None,
        fields: None,
        limit: None,
        offset: None,
        lang: "nl".into(),
        quiet: false,
    }
}

fn param<'a>(req: &'a ApiRequest, k: &str) -> Option<&'a str> {
    req.params.iter().rev().find(|(name, _)| name == k).map(|(_, v)| v.as_str())
}

fn envelope(r: &Renderable) -> Value {
    back(&r.list_envelope(r.total))
}

fn body(r: &Renderable) -> Value {
    back(&r.body)
}
use openarchieven::cli::{FormatArg, GlobalApiArgs};
use openarchieven::commands::event_records::{event_shape, CommonFlags};
use openarchieven::commands::stats::archive_stat::ArchiveStatArgs;
use openarchieven::commands::{self, stats, transcripts};
use openarchieven::json_text::{to_compact, to_pretty};
use openarchieven::output::{apply_fields_auto, ensure_format_compatible};
use openarchieven::render::render;
use openarchieven::runtime::GlobalArgs;
use openarchieven::schema_cmd;

/// Output settings when standard output is a pipe, with an optional `-o`
/// and `--pretty`.
fn piped(output: Option<FormatArg>, pretty: bool) -> GlobalArgs {
    GlobalArgs::from_flags(output, pretty, false, false, None, false, false)
}

fn api() -> GlobalApiArgs {
    GlobalApiArgs::default()
}

/// One API command: its request (checked by `sent`), a response with this
/// status and body, the command's shaping, `--fields`, and the rendering.
fn run_with(
    global: GlobalArgs,
    api: GlobalApiArgs,
    request: impl FnOnce(&ApiContext) -> Result<ApiRequest, Error>,
    sent: impl FnOnce(&ApiRequest),
    status: u16,
    text: &str,
    shape: impl FnOnce(&Json, &ApiRequest) -> Result<Renderable, Error>,
) -> Result<String, Error> {
    let ctx = ApiContext::from_global_args(&api, global.quiet)?;
    let req = request(&ctx)?;
    sent(&req);
    let body = reply(status, text)?;
    let mut r = shape(&body, &req)?;
    if let Some(fields) = &ctx.fields {
        r = apply_fields_auto(r, fields)?;
    }
    ensure_format_compatible(&r, global.format)?;
    Ok(render(&r, global.format, global.pretty))
}

fn json_out(out: Result<String, Error>) -> Value {
    serde_json::from_str(out.unwrap().trim()).unwrap()
}

/// The last line written to standard error for a failure, and the exit code.
fn failure(out: Result<String, Error>) -> (Value, u8) {
    let err = out.unwrap_err();
    let line = err.payload_line();
    (serde_json::from_str(line.trim_end()).unwrap(), err.kind().exit_code())
}

fn expect_params(expected: &'static [(&'static str, &'static str)]) -> impl FnOnce(&ApiRequest) {
    move |req| {
        for (k, v) in expected {
            assert_eq!(param(req, k), Some(*v), "{k}");
        }
    }
}

fn search_args(name: &str) -> commands::search::Args {
    commands::search::Args { name: name.into(), ..Default::default() }
}

fn search(api: GlobalApiArgs, global: GlobalArgs, name: &str, status: u16, text: &str) -> Result<String, Error> {
    let args = search_args(name);
    run_with(
        global,
        api,
        |c| commands::search::request(c, &args),
        |req| assert_eq!(req.path, "/records/search.json"),
        status,
        text,
        |b, req| Ok(commands::search::shape(b, req.page_limit.unwrap(), req.page_offset.unwrap())),
    )
}

fn fields(list: &str) -> GlobalApiArgs {
    GlobalApiArgs { fields: Some(list.into()), ..GlobalApiArgs::default() }
}

#[test]
fn search_dispatch_sends_name_and_renders_json() {
    let args = search_args("jansen");
    let out = run_with(
        piped(None, false),
        api(),
        |c| commands::search::request(c, &args),
        expect_params(&[("name", "jansen")]),
        200,
        r#"{"response": {"numFound": 1, "docs": [{"id": "r-1"}]}}"#,
        |b, req| Ok(commands::search::shape(b, req.page_limit.unwrap(), req.page_offset.unwrap())),
    );
    let v = json_out(out);
    assert_eq!(v["items"][0]["id"], "r-1");
    assert_eq!(v["total"], 1);
    assert_eq!(v["paginated"], true);
}

#[test]
fn search_with_fields_filters_keys() {
    let v = json_out(search(fields("id"), piped(None, false), "jansen", 200, r#"{"response": {"numFound": 1, "docs": [{"id": "r-1", "name": "Jan"}]}}"#));
    let item = v["items"][0].as_object().unwrap();
    assert_eq!(item.len(), 1);
    assert_eq!(item["id"], "r-1");
    assert!(!item.contains_key("name"));
}

#[test]
fn fields_flag_works_before_subcommand() {
    let v = json_out(search(fields("id"), piped(None, false), "jansen", 200, r#"{"response": {"numFound": 1, "docs": [{"id": "r-1", "name": "Jan"}]}}"#));
    assert_eq!(v["items"][0].as_object().unwrap().len(), 1);
}

#[test]
fn search_with_unknown_fields_is_validation() {
    let (v, code) = failure(search(fields("totally_made_up"), piped(None, false), "jansen", 200, r#"{"response": {"numFound": 1, "docs": [{"id": "r-1"}]}}"#));
    assert_eq!(v["error"]["kind"], "validation");
    assert!(v["error"]["message"].as_str().unwrap().contains("totally_made_up"));
    assert_eq!(code, 2);
}

fn show(archive: &str, identifier: &str, status: u16, text: &str, global: GlobalArgs) -> Result<String, Error> {
    let args = commands::show::Args { archive: archive.into(), identifier: identifier.into() };
    run_with(global, api(), |c| commands::show::request(c, &args), |_| {}, status, text, |b, _| commands::show::shape(b, &args))
}

#[test]
fn show_dispatch_sends_archive_and_identifier() {
    let args = commands::show::Args { archive: "elo".into(), identifier: "abc".into() };
    let out = run_with(
        piped(None, false),
        api(),
        |c| commands::show::request(c, &args),
        expect_params(&[("archive", "elo"), ("identifier", "abc"), ("lang", "nl")]),
        200,
        r#"{"record": {"id": "abc", "person": {"name": "Jan"}}}"#,
        |b, _| commands::show::shape(b, &args),
    );
    let v = json_out(out);
    assert_eq!(v["record"]["id"], "abc");
    assert_eq!(v["record"]["person"]["name"], "Jan");
}

#[test]
fn show_404_propagates_not_found_to_stderr() {
    let (v, code) = failure(show("elo", "missing", 404, "", piped(None, false)));
    assert_eq!(v["error"]["kind"], "not_found");
    assert_eq!(code, 1);
}

#[test]
fn show_upstream_error_envelope_exits_nonzero_with_stderr_error() {
    let out = show("ZZZ", "12345", 200, r#"{"error_code": 1, "error_description": "Invalid archive", "request": "show"}"#, piped(Some(FormatArg::Json), false));
    let (v, code) = failure(out);
    assert_eq!(code, 1);
    assert_eq!(v["error"]["kind"], "not_found");
    assert!(v["error"]["message"].as_str().unwrap().contains("Invalid archive"), "message: {}", v["error"]["message"]);
}

#[test]
fn error_envelope_has_stable_shape() {
    let err = show("elo", "missing", 404, "", piped(None, false)).unwrap_err();
    let line = err.payload_line();
    let last_line = line.lines().last().unwrap().to_string();
    let v: Value = serde_json::from_str(&last_line).unwrap();
    let err = v["error"].as_object().expect("error is an object");
    assert!(err.contains_key("kind"), "missing 'kind' in {err:?}");
    assert!(err.contains_key("message"), "missing 'message' in {err:?}");
    assert_eq!(err["kind"], "not_found");
    assert!(!last_line.contains("\x1b["), "JSON line contains ANSI escape: {last_line:?}");
}

#[test]
fn match_dispatch_sends_name_and_birth_year() {
    let args = commands::match_record::Args { name: "jansen".into(), birthyear: 1900 };
    let out = run_with(
        piped(None, false),
        api(),
        |c| commands::match_record::request(c, &args),
        expect_params(&[("name", "jansen"), ("birthyear", "1900"), ("lang", "nl")]),
        200,
        r#"{"response": {"numFound": 1, "docs": [{"id": "m-1", "score": 0.9}]}}"#,
        |b, _| Ok(commands::match_record::shape(b)),
    );
    let v = json_out(out);
    assert_eq!(v["items"][0]["id"], "m-1");
    assert_eq!(v["items"][0]["score"], 0.9);
}

fn events_shape(b: &Json, req: &ApiRequest) -> Result<Renderable, Error> {
    Ok(event_shape(b, req.page_limit.unwrap(), req.page_offset.unwrap(), None))
}

#[test]
fn births_dispatch_sends_name_and_pagination() {
    let args = commands::births::Args { name: "jansen".into(), flags: CommonFlags::default() };
    let out = run_with(
        piped(None, false),
        api(),
        |c| commands::births::request(c, &args),
        expect_params(&[("name", "jansen"), ("number_show", "10"), ("start", "0")]),
        200,
        r#"{"response": {"numFound": 1, "docs": [{"id": "b-1", "name": "Jan"}]}}"#,
        events_shape,
    );
    let v = json_out(out);
    assert_eq!(v["items"][0]["id"], "b-1");
    assert_eq!(v["total"], 1);
}

#[test]
fn limit_flag_works_before_subcommand() {
    let args = commands::births::Args { name: "jansen".into(), flags: CommonFlags::default() };
    let a = GlobalApiArgs { limit: Some(5), ..GlobalApiArgs::default() };
    let out = run_with(
        piped(None, false),
        a,
        |c| commands::births::request(c, &args),
        expect_params(&[("name", "jansen"), ("number_show", "5"), ("start", "0")]),
        200,
        r#"{"response": {"numFound": 1, "docs": [{"id": "b-1"}]}}"#,
        events_shape,
    );
    assert_eq!(json_out(out)["items"][0]["id"], "b-1");
}

#[test]
fn deaths_dispatch_sends_name() {
    let args = commands::deaths::Args { name: "jansen".into(), flags: CommonFlags::default() };
    let out = run_with(
        piped(None, false),
        api(),
        |c| commands::deaths::request(c, &args),
        expect_params(&[("name", "jansen")]),
        200,
        r#"{"response": {"numFound": 1, "docs": [{"id": "d-1"}]}}"#,
        events_shape,
    );
    assert_eq!(json_out(out)["items"][0]["id"], "d-1");
}

#[test]
fn marriages_dispatch_sends_both_partner_names() {
    let args = commands::marriages::Args { name1: "jansen".into(), name2: "pieters".into(), flags: CommonFlags::default() };
    let out = run_with(
        piped(None, false),
        api(),
        |c| commands::marriages::request(c, &args),
        expect_params(&[("name1", "jansen"), ("name2", "pieters")]),
        200,
        r#"{"response": {"numFound": 1, "docs": [{"id": "m-1", "groom": "Jan"}]}}"#,
        events_shape,
    );
    assert_eq!(json_out(out)["items"][0]["id"], "m-1");
}

#[test]
fn yearsago_dispatch_sends_years_param() {
    let args = commands::yearsago::Args { years: 100 };
    let out = run_with(
        piped(None, false),
        api(),
        |c| commands::yearsago::request(c, &args),
        expect_params(&[("years", "100"), ("number_show", "10")]),
        200,
        r#"{"response": {"numFound": 1, "docs": [{"id": "y-1"}]}}"#,
        |b, _| Ok(commands::yearsago::shape(b)),
    );
    assert_eq!(json_out(out)["items"][0]["id"], "y-1");
}

#[test]
fn archives_dispatch_renders_list() {
    let out = run_with(
        piped(None, false),
        api(),
        |c| commands::archives::request(c),
        |_| {},
        200,
        r#"{"archives": [{"archive_code": "elo", "name": "Eindhoven"}]}"#,
        |b, _| Ok(commands::archives::shape(b)),
    );
    let v = json_out(out);
    assert_eq!(v["items"][0]["archive_code"], "elo");
    assert_eq!(v["items"][0]["name"], "Eindhoven");
    assert_eq!(v["items"].as_array().unwrap().len(), 1);
}

#[test]
fn census_dispatch_sends_place_and_year() {
    let args = commands::census::Args { year: 1900, place: Some("amsterdam".into()), ..Default::default() };
    let out = run_with(
        piped(None, false),
        api(),
        |c| commands::census::request(c, &args),
        expect_params(&[("year", "1900"), ("place", "amsterdam")]),
        200,
        r#"{"year": 1900, "place": "Amsterdam", "response": {"numFound": 1, "docs": [{"id": "c-1"}]}}"#,
        |b, _| Ok(commands::census::shape(b)),
    );
    let v = json_out(out);
    assert_eq!(v["year"], 1900);
    assert_eq!(v["response"]["docs"][0]["id"], "c-1");
}

#[test]
fn weather_dispatch_sends_date_and_coordinates() {
    let args = commands::weather::Args { date: "1900-01-01".into(), latitude: "52.0".into(), longitude: "4.0".into() };
    let out = run_with(
        piped(None, false),
        api(),
        |c| commands::weather::request(c, &args),
        expect_params(&[("date", "1900-01-01"), ("latitude", "52.0"), ("longitude", "4.0"), ("lang", "nl")]),
        200,
        r#"[{
            "STN": {"label": "stationnummer", "value": "344"},
            "YYYYMMDD": {"label": "datum", "value": "19000101"},
            "TG": {"label": "etmaalgemiddelde temperatuur", "value": "30"},
            "FHX": {"label": "hoogste uurgemiddelde windsnelheid", "value": "211"}
        }]"#,
        |b, _| Ok(commands::weather::shape(b)),
    );
    let v = json_out(out);
    assert_eq!(v["total"], 1);
    assert_eq!(v["paginated"], false);
    assert_eq!(v["items"][0]["YYYYMMDD"]["value"], "19000101");
    assert_eq!(v["items"][0]["STN"]["value"], "344");
    assert_eq!(v["items"][0]["TG"]["value"], "30");
}

fn archive_stat(
    request: fn(&ApiContext, &ArchiveStatArgs) -> Result<ApiRequest, Error>,
    shape: fn(&Json) -> Renderable,
    text: &str,
) -> Value {
    let args = ArchiveStatArgs::default();
    json_out(run_with(piped(None, false), api(), |c| request(c, &args), |_| {}, 200, text, |b, _| Ok(shape(b))))
}

#[test]
fn stats_records_dispatch_renders_archive_counts() {
    let v = archive_stat(stats::records::request, stats::records::shape, r#"{"records": [{"archive_code": "elo", "count": 100}]}"#);
    assert_eq!(v["items"][0]["archive_code"], "elo");
    assert_eq!(v["items"][0]["count"], 100);
}

#[test]
fn stats_sources_dispatch_renders_archive_counts() {
    let v = archive_stat(stats::sources::request, stats::sources::shape, r#"{"sources": [{"archive_code": "elo", "count": 5}]}"#);
    assert_eq!(v["items"][0]["count"], 5);
}

#[test]
fn stats_events_dispatch_renders_archive_counts() {
    let v = archive_stat(stats::events::request, stats::events::shape, r#"{"events": [{"archive_code": "elo", "count": 10}]}"#);
    assert_eq!(v["items"][0]["count"], 10);
}

#[test]
fn stats_comments_dispatch_renders_archive_counts() {
    let v = archive_stat(stats::comments::request, stats::comments::shape, r#"{"comments": [{"archive_code": "elo", "count": 1}]}"#);
    assert_eq!(v["items"][0]["count"], 1);
}

#[test]
fn stats_familynames_dispatch_sends_place_param() {
    let args = stats::familynames::Args { place: Some("Leiden".into()), ..Default::default() };
    let out = run_with(
        piped(None, false),
        api(),
        |c| stats::familynames::request(c, &args),
        expect_params(&[("eventplace", "Leiden")]),
        200,
        r#"{"familynames": [{"familyname": "Jansen", "count": 1234}]}"#,
        |b, req| Ok(stats::familynames::shape(b, req.page_limit.unwrap())),
    );
    let v = json_out(out);
    assert_eq!(v["items"][0]["familyname"], "Jansen");
    assert_eq!(v["items"][0]["count"], 1234);
}

#[test]
fn stats_firstnames_dispatch_sends_place_and_year() {
    let args = stats::firstnames::Args { place: "Leiden".into(), year: 1850 };
    let out = run_with(
        piped(None, false),
        api(),
        |c| stats::firstnames::request(c, &args),
        expect_params(&[("eventplace", "Leiden"), ("eventyear", "1850"), ("number_show", "20")]),
        200,
        r#"{"response": {"firstnames": [{"firstname": "Jan", "count": 1000}]}}"#,
        |b, req| Ok(stats::firstnames::shape(b, req.page_limit.unwrap())),
    );
    let v = json_out(out);
    assert_eq!(v["items"][0]["firstname"], "Jan");
    assert_eq!(v["items"][0]["count"], 1000);
}

#[test]
fn stats_professions_dispatch_sends_place_param() {
    let args = stats::professions::Args { place: Some("Leiden".into()), ..Default::default() };
    let out = run_with(
        piped(None, false),
        api(),
        |c| stats::professions::request(c, &args),
        expect_params(&[("eventplace", "Leiden")]),
        200,
        r#"{"professions": [{"profession": "boer", "count": 500}]}"#,
        |b, req| Ok(stats::professions::shape(b, req.page_limit.unwrap())),
    );
    assert_eq!(json_out(out)["items"][0]["profession"], "boer");
}

#[test]
fn transcripts_search_dispatch_sends_q_and_filters() {
    let args = transcripts::search::Args { q: "coret".into(), archive_code: Some("hua".into()), ..Default::default() };
    let out = run_with(
        piped(None, false),
        api(),
        |c| transcripts::search::request(c, &args),
        expect_params(&[("q", "coret"), ("archive_code", "hua"), ("lang", "nl"), ("number_show", "10"), ("start", "0")]),
        200,
        r#"{"response": {"number_found": 7, "docs": [{"id": "NL-X_1_1", "page": "1"}]}}"#,
        |b, req| Ok(transcripts::search::shape(b, req.page_limit.unwrap(), req.page_offset.unwrap())),
    );
    let v = json_out(out);
    assert_eq!(v["total"], 7);
    assert_eq!(v["paginated"], true);
    assert_eq!(v["items"][0]["id"], "NL-X_1_1");
}

#[test]
fn transcripts_browse_dispatch_no_filters() {
    let args = transcripts::browse::Args::default();
    let out = run_with(
        piped(None, false),
        api(),
        |c| transcripts::browse::request(c, &args),
        expect_params(&[("lang", "nl")]),
        200,
        r#"{"filters": {"archive_code": null, "archive_number": null},
            "response": {"level": 1, "docs": [{"isil": "NL-HaNA", "archive_code": "rzh", "name": "Nationaal Archief", "count": 100}]}}"#,
        |b, _| Ok(transcripts::browse::shape(b)),
    );
    let v = json_out(out);
    assert_eq!(v["total"], 1);
    assert_eq!(v["paginated"], false);
    assert_eq!(v["items"][0]["archive_code"], "rzh");
}

fn tshow(id: &str, status: u16, text: &str) -> Result<String, Error> {
    let args = transcripts::show::Args { id: id.into() };
    run_with(
        piped(None, false),
        api(),
        |c| transcripts::show::request(c, &args),
        |_| {},
        status,
        text,
        |b, _| transcripts::show::shape(b, &args),
    )
}

#[test]
fn transcripts_show_dispatch_returns_nested_transcript() {
    let v = json_out(tshow("NL-SdmGA_1504889_11", 200, r#"{"id": "NL-SdmGA_1504889_11", "transcript": "lorem ipsum"}"#));
    assert_eq!(v["id"], "NL-SdmGA_1504889_11");
    assert_eq!(v["transcript"], "lorem ipsum");
}

#[test]
fn transcripts_show_404_is_not_found_with_stderr_error() {
    let (v, _) = failure(tshow("NL-X_0_0", 404, ""));
    assert_eq!(v["error"]["kind"], "not_found");
}

#[test]
fn upstream_500_emits_server_error_to_stderr() {
    let a = GlobalApiArgs { no_cache: true, ..GlobalApiArgs::default() };
    let (v, code) = failure(search(a, piped(None, false), "x", 500, ""));
    assert_eq!(v["error"]["kind"], "server");
    assert_eq!(code, 1);
}

#[test]
fn upstream_400_emits_validation_error_to_stderr() {
    let a = GlobalApiArgs { no_cache: true, ..GlobalApiArgs::default() };
    let (v, _) = failure(search(a, piped(None, false), "x", 400, r#"{"error_code": "INVALID_PARAM", "error_description": "name is required"}"#));
    assert_eq!(v["error"]["kind"], "validation");
    assert_eq!(v["error"]["upstream_code"], "INVALID_PARAM");
    assert_eq!(v["error"]["upstream_message"], "name is required");
}

#[test]
fn no_cache_and_refresh_are_mutually_exclusive() {
    let a = GlobalApiArgs { no_cache: true, refresh: true, ..GlobalApiArgs::default() };
    let (v, _) = failure(search(a, piped(None, false), "jansen", 200, "{}"));
    assert_eq!(v["error"]["kind"], "validation");
    let msg = v["error"]["message"].as_str().unwrap();
    assert!(msg.contains("--no-cache") && msg.contains("--refresh"), "validation message should name both flags: {msg:?}");
}

#[test]
fn output_table_flag_renders_box_drawing_table() {
    let stdout = search(api(), piped(Some(FormatArg::Table), false), "x", 200, r#"{"response": {"numFound": 1, "docs": [{"id": "r-1"}]}}"#).unwrap();
    assert!(stdout.contains("r-1"));
    assert!(stdout.contains('│') && stdout.contains('─'), "expected box-drawing chars in:\n{stdout}");
}

#[test]
fn output_markdown_flag_emits_pipe_table() {
    let stdout = search(api(), piped(Some(FormatArg::Markdown), false), "x", 200, r#"{"response": {"numFound": 1, "docs": [{"id": "r-1"}]}}"#).unwrap();
    let lines: Vec<&str> = stdout.lines().collect();
    assert_eq!(lines[0], "| id |");
    assert_eq!(lines[1], "| --- |");
    assert_eq!(lines[2], "| r-1 |");
}

#[test]
fn json_output_is_compact_when_piped() {
    let stdout = search(api(), piped(None, false), "jansen", 200, r#"{"response": {"numFound": 1, "docs": [{"id": "r-1"}]}}"#).unwrap();
    let trimmed = stdout.trim_end();
    assert!(!trimmed.contains("\n  "), "expected compact JSON when piped, got:\n{stdout}");
    assert!(!trimmed.contains("\"items\": ["), "expected no space after colon (compact), got:\n{stdout}");
    let v: Value = serde_json::from_str(trimmed).unwrap();
    assert_eq!(v["items"][0]["id"], "r-1");
}

#[test]
fn json_output_pretty_flag_forces_indented_output() {
    let stdout = search(api(), piped(None, true), "jansen", 200, r#"{"response": {"numFound": 1, "docs": [{"id": "r-1"}]}}"#).unwrap();
    assert!(stdout.contains("\n  \"items\": ["), "expected pretty JSON with indent, got:\n{stdout}");
}

#[test]
fn ndjson_emits_one_doc_per_line_for_list_endpoint() {
    let stdout = search(
        api(),
        piped(Some(FormatArg::Ndjson), false),
        "jansen",
        200,
        r#"{"response": {"numFound": 3, "docs": [{"id": "r-1", "name": "Jan"}, {"id": "r-2", "name": "Piet"}, {"id": "r-3", "name": "Klaas"}]}}"#,
    )
    .unwrap();
    let lines: Vec<&str> = stdout.lines().collect();
    assert_eq!(lines.len(), 3, "expected 3 ndjson lines, got:\n{stdout}");
    let l0: Value = serde_json::from_str(lines[0]).unwrap();
    assert_eq!(l0["id"], "r-1");
    let l2: Value = serde_json::from_str(lines[2]).unwrap();
    assert_eq!(l2["id"], "r-3");
    assert!(!stdout.contains("\"items\""));
    assert!(!stdout.contains("\"total\""));
    assert!(!stdout.contains("\"paginated\""));
}

#[test]
fn ndjson_rejects_single_nested_response() {
    let (v, _) = failure(show("elo", "abc", 200, r#"{"record": {"id": "abc", "name": "Jan"}}"#, piped(Some(FormatArg::Ndjson), false)));
    assert_eq!(v["error"]["kind"], "validation");
    assert!(v["error"]["message"].as_str().unwrap().contains("ndjson"), "expected ndjson rejection message, got: {v}");
}

fn version_doc() -> Renderable {
    Renderable::single_flat(Json::Object(vec![("version".to_owned(), Json::string("0.1.0"))]))
}

#[test]
fn version_subcommand_emits_version_object() {
    let g = piped(None, false);
    let doc = version_doc();
    ensure_format_compatible(&doc, g.format).unwrap();
    let v: Value = serde_json::from_str(render(&doc, g.format, g.pretty).trim()).unwrap();
    assert_eq!(v["version"], "0.1.0");
}

#[test]
fn ndjson_rejects_single_flat_response() {
    let g = piped(Some(FormatArg::Ndjson), false);
    let err = ensure_format_compatible(&version_doc(), g.format).unwrap_err();
    assert_eq!(err.kind(), ErrorKind::Validation);
}

/// The `schema` command's output: the document, compact unless pretty.
fn schema_out(g: GlobalArgs) -> Result<String, Error> {
    let doc = Renderable::single_nested(schema_cmd::build("0.1.0").to_json());
    ensure_format_compatible(&doc, g.format)?;
    Ok(if g.pretty { to_pretty(&doc.body) } else { to_compact(&doc.body) } + "\n")
}

#[test]
fn schema_subcommand_emits_object_with_commands() {
    let v: Value = serde_json::from_str(schema_out(piped(None, false)).unwrap().trim()).unwrap();
    assert!(v.is_object(), "schema root is an object");
    assert!(v["commands"].is_array());
}

#[test]
fn schema_is_compact_when_piped() {
    let stdout = schema_out(piped(None, false)).unwrap();
    let _: Value = serde_json::from_str(stdout.trim()).expect("schema is JSON");
    assert!(!stdout.contains("\n  \"name\""));
}

#[test]
fn schema_pretty_flag_forces_indented_output() {
    let stdout = schema_out(piped(None, true)).unwrap();
    assert!(stdout.contains("\n  \"name\": \"openarchieven\""));
}

#[test]
fn ndjson_rejects_schema_command() {
    let err = schema_out(piped(Some(FormatArg::Ndjson), false)).unwrap_err();
    assert_eq!(err.kind(), ErrorKind::Validation);
}

const TWO_DOCS: &str = r#"{"response": {"numFound": 2, "docs": [
    {"id": "r-1", "personname": "Jan Jansen", "eventdate": {"day": 1, "month": 6, "year": 1900}, "archive_code": "elo"},
    {"id": "r-2", "personname": "Piet Pietersen", "eventdate": {"day": 2, "month": 7, "year": 1901}, "archive_code": "rzh"}
]}}"#;

#[test]
fn nested_fields_projection_keeps_only_named_subpaths() {
    let v = json_out(search(fields("id,eventdate.year"), piped(None, false), "jansen", 200, TWO_DOCS));
    let item0 = v["items"][0].as_object().unwrap();
    let item1 = v["items"][1].as_object().unwrap();
    assert_eq!(item0.len(), 2);
    assert_eq!(item0["id"], "r-1");
    assert_eq!(item0["eventdate"], serde_json::from_str::<Value>(r#"{"year": 1900}"#).unwrap());
    assert!(!item0.contains_key("personname"));
    assert!(!item0.contains_key("archive_code"));
    assert_eq!(item1["eventdate"], serde_json::from_str::<Value>(r#"{"year": 1901}"#).unwrap());
}

#[test]
fn nested_fields_projects_single_nested_response() {
    let args = commands::show::Args { archive: "elo".into(), identifier: "abc".into() };
    let out = run_with(
        piped(None, false),
        fields("record.id,record.eventdate.year"),
        |c| commands::show::request(c, &args),
        |_| {},
        200,
        r#"{"record": {"id": "abc", "personname": "Jan Jansen", "eventdate": {"day": 1, "month": 6, "year": 1900}}}"#,
        |b, _| commands::show::shape(b, &args),
    );
    assert_eq!(json_out(out), serde_json::from_str::<Value>(r#"{"record": {"id": "abc", "eventdate": {"year": 1900}}}"#).unwrap());
}

#[test]
fn ndjson_with_nested_fields_streams_filtered_lines() {
    let stdout = search(fields("id,eventdate.year"), piped(Some(FormatArg::Ndjson), false), "jansen", 200, TWO_DOCS).unwrap();
    let lines: Vec<&str> = stdout.lines().collect();
    assert_eq!(lines.len(), 2);
    let l0: Value = serde_json::from_str(lines[0]).unwrap();
    assert_eq!(l0, serde_json::from_str::<Value>(r#"{"id": "r-1", "eventdate": {"year": 1900}}"#).unwrap());
}
