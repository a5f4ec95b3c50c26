//! `stats events`: per-archive event-type counts.
use vstd::prelude::*;
use crate::commands::{ApiRequest, planned};
use crate::commands::stats::archive_stat::{ArchiveStatArgs, archive_rows, archive_stat_plan, archive_stat_request, archive_stat_shape};
use crate::error::Result;
use crate::json::{Json, JsonV, models};
use crate::output::{Renderable, Shape};
use crate::runtime::ApiContext;
use crate::schema_cmd::{Arg, Command, OutputField, ArgV, arg_view, arg_views, field_views, int_json, option_json};

verus! {

/// The request: `/stats/events.json`.
pub fn request(ctx: &ApiContext, args: &ArchiveStatArgs) -> (r: Result<ApiRequest>)
    ensures
        planned(r, archive_stat_plan("events"@, "/stats/events.json"@, *ctx, *args)),
{
    archive_stat_request("events", "/stats/events.json", ctx, args)
}

/// The rows: the body's array, or the array under `events`.
pub fn shape(body: &Json) -> (r: Renderable)
    ensures
        r.shape == Shape::List,
        r.body@ == JsonV::Array(archive_rows(body@, "events"@)),
        !r.paginated,
        r.limit is None,
        r.offset is None,
        r.total == Some(archive_rows(body@, "events"@).len() as u64),
{
    archive_stat_shape(body, "events")
}

/// The schema entry of `stats events`.
pub fn schema() -> (r: Command)
    ensures
        r.name@ == "stats events"@,
        r.response_shape@ == "list"@,
        !r.paginated,
        r.cache_ttl_seconds == Some(86400u64),
        r.args@.len() == 1,
        r.description@ == "Per-archive event-type counts."@,
        !r.mutating,
        r.cache_ttl_strategy@ == "fixed"@,
        arg_views(r.args@) == seq![
            (ArgV { name: "--archive"@, ty: "string"@, required: false, positional: false, description: None::<Seq<char>>, default: None::<JsonV>, min: None::<i64>, max: None::<i64>, enum_values: None::<Seq<JsonV>> }),
        ],
        field_views(r.output_fields@) == seq![
            ("items"@, "array<row>"@, None::<Seq<char>>),
            ("total"@, "integer"@, None::<Seq<char>>),
            ("paginated"@, "boolean"@, None::<Seq<char>>),
        ],
{
    let mut args: Vec<Arg> = Vec::new();
    args.push(Arg::flag("--archive", "string", false));
    assert(arg_view(args@[0]) == (ArgV { name: "--archive"@, ty: "string"@, required: false, positional: false, description: None::<Seq<char>>, default: None::<JsonV>, min: None::<i64>, max: None::<i64>, enum_values: None::<Seq<JsonV>> }));
    let mut output_fields: Vec<OutputField> = Vec::new();
    output_fields.push(OutputField { name: "items", ty: "array<row>", description: None });
    output_fields.push(OutputField { name: "total", ty: "integer", description: None });
    output_fields.push(OutputField { name: "paginated", ty: "boolean", description: None });
    assert(arg_views(args@) =~= seq![
        (ArgV { name: "--archive"@, ty: "string"@, required: false, positional: false, description: None::<Seq<char>>, default: None::<JsonV>, min: None::<i64>, max: None::<i64>, enum_values: None::<Seq<JsonV>> }),
    ]);
    assert(field_views(output_fields@) =~= seq![
        ("items"@, "array<row>"@, None::<Seq<char>>),
        ("total"@, "integer"@, None::<Seq<char>>),
        ("paginated"@, "boolean"@, None::<Seq<char>>),
    ]);
    Command {
        name: "stats events",
        description: "Per-archive event-type counts.",
        mutating: false,
        response_shape: "list",
        paginated: false,
        cache_ttl_seconds: Some(86400),
        cache_ttl_strategy: "fixed",
        args,
        output_fields,
    }
}

} // verus!
