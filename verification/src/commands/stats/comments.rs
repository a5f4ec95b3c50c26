//! `stats comments`: per-archive comment counts.
use vstd::prelude::*;
use crate::commands::{ApiRequest, planned};
use crate::commands::stats::archive_stat::{ArchiveStatArgs, archive_rows, archive_stat_plan, archive_stat_request, archive_stat_shape};
use crate::error::Result;
use crate::json::{Json, JsonV, models};
use crate::output::{Renderable, Shape};
use crate::runtime::ApiContext;
use crate::schema_cmd::{Arg, Command, OutputField, ArgV, arg_view, arg_views, field_views, int_json, option_json};

verus! {

/// The request: `/stats/comments.json`.
pub fn request(ctx: &ApiContext, args: &ArchiveStatArgs) -> (r: Result<ApiRequest>)
    ensures
        planned(r, archive_stat_plan("comments"@, "/stats/comments.json"@, *ctx, *args)),
{
    archive_stat_request("comments", "/stats/comments.json", ctx, args)
}

/// The rows: the body's array, or the array under `comments`.
pub fn shape(body: &Json) -> (r: Renderable)
    ensures
        r.shape == Shape::List,
        r.body@ == JsonV::Array(archive_rows(body@, "comments"@)),
        !r.paginated,
        r.limit is None,
        r.offset is None,
        r.total == Some(archive_rows(body@, "comments"@).len() as u64),
{
    archive_stat_shape(body, "comments")
}

/// The schema entry of `stats comments`.
pub fn schema() -> (r: Command)
    ensures
        r.name@ == "stats comments"@,
        r.response_shape@ == "list"@,
        !r.paginated,
        r.cache_ttl_seconds == Some(86400u64),
        r.args@.len() == 1,
        r.description@ == "Per-archive comment counts."@,
        !r.mutating,
        r.cache_ttl_strategy@ == "fixed"@,
        arg_views(r.args@) == seq![
            (ArgV { name: "--archive"@, ty: "string"@, required: false, positional: false, description: Some("Filter results to a specific archive code"@), default: None::<JsonV>, min: None::<i64>, max: None::<i64>, enum_values: None::<Seq<JsonV>> }),
        ],
        field_views(r.output_fields@) == seq![
            ("items"@, "array<row>"@, Some("Per-archive comment count rows"@)),
            ("total"@, "integer"@, Some("Number of rows returned"@)),
            ("paginated"@, "boolean"@, Some("Always false; this command is non-paginated"@)),
        ],
{
    let mut args: Vec<Arg> = Vec::new();
    let mut a = Arg::flag("--archive", "string", false);
    a.description = Some("Filter results to a specific archive code");
    args.push(a);
    assert(arg_view(args@[0]) == (ArgV { name: "--archive"@, ty: "string"@, required: false, positional: false, description: Some("Filter results to a specific archive code"@), default: None::<JsonV>, min: None::<i64>, max: None::<i64>, enum_values: None::<Seq<JsonV>> }));
    let mut output_fields: Vec<OutputField> = Vec::new();
    output_fields.push(OutputField { name: "items", ty: "array<row>", description: Some("Per-archive comment count rows") });
    output_fields.push(OutputField { name: "total", ty: "integer", description: Some("Number of rows returned") });
    output_fields.push(OutputField { name: "paginated", ty: "boolean", description: Some("Always false; this command is non-paginated") });
    assert(arg_views(args@) =~= seq![
        (ArgV { name: "--archive"@, ty: "string"@, required: false, positional: false, description: Some("Filter results to a specific archive code"@), default: None::<JsonV>, min: None::<i64>, max: None::<i64>, enum_values: None::<Seq<JsonV>> }),
    ]);
    assert(field_views(output_fields@) =~= seq![
        ("items"@, "array<row>"@, Some("Per-archive comment count rows"@)),
        ("total"@, "integer"@, Some("Number of rows returned"@)),
        ("paginated"@, "boolean"@, Some("Always false; this command is non-paginated"@)),
    ]);
    Command {
        name: "stats comments",
        description: "Per-archive comment counts.",
        mutating: false,
        response_shape: "list",
        paginated: false,
        cache_ttl_seconds: Some(86400),
        cache_ttl_strategy: "fixed",
        args,
        output_fields,
    }
}

} // verus!
