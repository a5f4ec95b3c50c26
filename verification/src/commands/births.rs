//! `births`: birth-event records by name.
use vstd::prelude::*;
use crate::commands::{ApiRequest, planned};
use crate::commands::event_records::{CommonFlags, Endpoint, event_plan, event_request};
use crate::error::Result;
use crate::json::{Json, JsonV, models};
use crate::runtime::ApiContext;
use crate::schema_cmd::{Arg, Command, OutputField, ArgV, arg_view, arg_views, field_views, int_json, option_json};

verus! {

#[derive(Debug, Clone)]
pub struct Args {
    pub name: String,
    pub flags: CommonFlags,
}

/// The request: `/records/getBirths.json` with the name, province allowed.
pub fn request(ctx: &ApiContext, args: &Args) -> (r: Result<ApiRequest>)
    ensures
        planned(r, event_plan(
            "births"@,
            "/records/getBirths.json"@,
            true,
            *ctx,
            ("name"@, args.name@),
            None,
            args.flags@,
        )),
{
    event_request(
        Endpoint { command_name: "births", path: "/records/getBirths.json", allow_province: true },
        ctx,
        ("name", args.name.as_str()),
        None,
        &args.flags,
    )
}

/// The schema entry of `births`.
pub fn schema() -> (r: Command)
    ensures
        r.name@ == "births"@,
        r.response_shape@ == "list"@,
        r.paginated,
        r.cache_ttl_seconds == Some(21600u64),
        r.args@.len() == 6,
        r.description@ == "Birth-event records by name with optional location/year filters."@,
        !r.mutating,
        r.cache_ttl_strategy@ == "fixed"@,
        arg_views(r.args@) == seq![
            (ArgV { name: "name"@, ty: "string"@, required: true, positional: true, description: Some("Name of the person to search for in birth records"@), default: None::<JsonV>, min: None::<i64>, max: None::<i64>, enum_values: None::<Seq<JsonV>> }),
            (ArgV { name: "--event-year"@, ty: "integer"@, required: false, positional: false, description: Some("Filter by year of birth event; client-side post-filtered"@), default: None::<JsonV>, min: None::<i64>, max: None::<i64>, enum_values: None::<Seq<JsonV>> }),
            (ArgV { name: "--event-place"@, ty: "string"@, required: false, positional: false, description: Some("Filter by place of birth event"@), default: None::<JsonV>, min: None::<i64>, max: None::<i64>, enum_values: None::<Seq<JsonV>> }),
            (ArgV { name: "--event-province"@, ty: "string"@, required: false, positional: false, description: Some("Filter by province of birth event (births only)"@), default: None::<JsonV>, min: None::<i64>, max: None::<i64>, enum_values: None::<Seq<JsonV>> }),
            (ArgV { name: "--limit"@, ty: "integer"@, required: false, positional: false, description: Some("Maximum number of results per page (1-100)"@), default: Some(int_json(10)), min: None::<i64>, max: Some(100i64), enum_values: None::<Seq<JsonV>> }),
            (ArgV { name: "--offset"@, ty: "integer"@, required: false, positional: false, description: Some("Zero-based index of the first result to return"@), default: Some(int_json(0)), min: None::<i64>, max: None::<i64>, enum_values: None::<Seq<JsonV>> }),
        ],
        field_views(r.output_fields@) == seq![
            ("items"@, "array<record>"@, Some("Birth record objects from /response/docs"@)),
            ("total"@, "integer | null"@, Some("Total hit count from /response/numFound; null if unavailable"@)),
            ("limit"@, "integer"@, Some("Maximum number of items returned in this page"@)),
            ("offset"@, "integer"@, Some("Zero-based index of the first item in this page"@)),
            ("paginated"@, "boolean"@, Some("Always true; this command supports pagination"@)),
        ],
{
    let mut args: Vec<Arg> = Vec::new();
    let mut a = Arg::positional("name", "string");
    a.description = Some("Name of the person to search for in birth records");
    args.push(a);
    assert(arg_view(args@[0]) == (ArgV { name: "name"@, ty: "string"@, required: true, positional: true, description: Some("Name of the person to search for in birth records"@), default: None::<JsonV>, min: None::<i64>, max: None::<i64>, enum_values: None::<Seq<JsonV>> }));
    let mut a = Arg::flag("--event-year", "integer", false);
    a.description = Some("Filter by year of birth event; client-side post-filtered");
    args.push(a);
    assert(arg_view(args@[1]) == (ArgV { name: "--event-year"@, ty: "integer"@, required: false, positional: false, description: Some("Filter by year of birth event; client-side post-filtered"@), default: None::<JsonV>, min: None::<i64>, max: None::<i64>, enum_values: None::<Seq<JsonV>> }));
    let mut a = Arg::flag("--event-place", "string", false);
    a.description = Some("Filter by place of birth event");
    args.push(a);
    assert(arg_view(args@[2]) == (ArgV { name: "--event-place"@, ty: "string"@, required: false, positional: false, description: Some("Filter by place of birth event"@), default: None::<JsonV>, min: None::<i64>, max: None::<i64>, enum_values: None::<Seq<JsonV>> }));
    let mut a = Arg::flag("--event-province", "string", false);
    a.description = Some("Filter by province of birth event (births only)");
    args.push(a);
    assert(arg_view(args@[3]) == (ArgV { name: "--event-province"@, ty: "string"@, required: false, positional: false, description: Some("Filter by province of birth event (births only)"@), default: None::<JsonV>, min: None::<i64>, max: None::<i64>, enum_values: None::<Seq<JsonV>> }));
    let mut a = Arg::flag("--limit", "integer", false);
    a.description = Some("Maximum number of results per page (1-100)");
    a.default = Some(Json::from_i64(10));
    a.max = Some(100);
    args.push(a);
    assert(arg_view(args@[4]) == (ArgV { name: "--limit"@, ty: "integer"@, required: false, positional: false, description: Some("Maximum number of results per page (1-100)"@), default: Some(int_json(10)), min: None::<i64>, max: Some(100i64), enum_values: None::<Seq<JsonV>> }));
    let mut a = Arg::flag("--offset", "integer", false);
    a.description = Some("Zero-based index of the first result to return");
    a.default = Some(Json::from_i64(0));
    args.push(a);
    assert(arg_view(args@[5]) == (ArgV { name: "--offset"@, ty: "integer"@, required: false, positional: false, description: Some("Zero-based index of the first result to return"@), default: Some(int_json(0)), min: None::<i64>, max: None::<i64>, enum_values: None::<Seq<JsonV>> }));
    let mut output_fields: Vec<OutputField> = Vec::new();
    output_fields.push(OutputField { name: "items", ty: "array<record>", description: Some("Birth record objects from /response/docs") });
    output_fields.push(OutputField { name: "total", ty: "integer | null", description: Some("Total hit count from /response/numFound; null if unavailable") });
    output_fields.push(OutputField { name: "limit", ty: "integer", description: Some("Maximum number of items returned in this page") });
    output_fields.push(OutputField { name: "offset", ty: "integer", description: Some("Zero-based index of the first item in this page") });
    output_fields.push(OutputField { name: "paginated", ty: "boolean", description: Some("Always true; this command supports pagination") });
    assert(arg_views(args@) =~= seq![
        (ArgV { name: "name"@, ty: "string"@, required: true, positional: true, description: Some("Name of the person to search for in birth records"@), default: None::<JsonV>, min: None::<i64>, max: None::<i64>, enum_values: None::<Seq<JsonV>> }),
        (ArgV { name: "--event-year"@, ty: "integer"@, required: false, positional: false, description: Some("Filter by year of birth event; client-side post-filtered"@), default: None::<JsonV>, min: None::<i64>, max: None::<i64>, enum_values: None::<Seq<JsonV>> }),
        (ArgV { name: "--event-place"@, ty: "string"@, required: false, positional: false, description: Some("Filter by place of birth event"@), default: None::<JsonV>, min: None::<i64>, max: None::<i64>, enum_values: None::<Seq<JsonV>> }),
        (ArgV { name: "--event-province"@, ty: "string"@, required: false, positional: false, description: Some("Filter by province of birth event (births only)"@), default: None::<JsonV>, min: None::<i64>, max: None::<i64>, enum_values: None::<Seq<JsonV>> }),
        (ArgV { name: "--limit"@, ty: "integer"@, required: false, positional: false, description: Some("Maximum number of results per page (1-100)"@), default: Some(int_json(10)), min: None::<i64>, max: Some(100i64), enum_values: None::<Seq<JsonV>> }),
        (ArgV { name: "--offset"@, ty: "integer"@, required: false, positional: false, description: Some("Zero-based index of the first result to return"@), default: Some(int_json(0)), min: None::<i64>, max: None::<i64>, enum_values: None::<Seq<JsonV>> }),
    ]);
    assert(field_views(output_fields@) =~= seq![
        ("items"@, "array<record>"@, Some("Birth record objects from /response/docs"@)),
        ("total"@, "integer | null"@, Some("Total hit count from /response/numFound; null if unavailable"@)),
        ("limit"@, "integer"@, Some("Maximum number of items returned in this page"@)),
        ("offset"@, "integer"@, Some("Zero-based index of the first item in this page"@)),
        ("paginated"@, "boolean"@, Some("Always true; this command supports pagination"@)),
    ]);
    Command {
        name: "births",
        description: "Birth-event records by name with optional location/year filters.",
        mutating: false,
        response_shape: "list",
        paginated: true,
        cache_ttl_seconds: Some(21600),
        cache_ttl_strategy: "fixed",
        args,
        output_fields,
    }
}

} // verus!
