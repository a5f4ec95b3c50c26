//! `archives`: the list of archives.
use vstd::prelude::*;
use crate::commands::{ApiRequest, RequestV, planned};
use crate::client::TtlHint;
use crate::error::{Error, ErrorKind, Result};
use crate::json::{Json, JsonV, deep_clone, models};
use crate::output::{Renderable, Shape};
use crate::runtime::{ApiContext, resolve_ttl, ttl_of};
use crate::schema_cmd::{Arg, Command, OutputField, ArgV, arg_view, arg_views, field_views, int_json, option_json};
use crate::span::TimeSpan;

verus! {

/// The archive list lives a day.
pub fn default_ttl() -> (r: TtlHint)
    ensures
        r == TtlHint::Fixed(TimeSpan { secs: 86400, nanos: 0 }),
{
    TtlHint::Fixed(TimeSpan::from_secs(24 * 3600))
}

/// The request of `archives`: no pagination, no query.
pub open spec fn archives_plan(ctx: ApiContext) -> core::result::Result<RequestV, Seq<char>> {
    if ctx.limit is Some {
        Err("--limit is not supported by `archives` (non-paginated)"@)
    } else if ctx.offset is Some {
        Err("--offset is not supported by `archives` (non-paginated)"@)
    } else {
        Ok(RequestV {
            path: "/stats/archives.json"@,
            pairs: Seq::empty(),
            ttl: ttl_of(ctx.cache_ttl_override, TtlHint::Fixed(TimeSpan { secs: 86400, nanos: 0 })),
            page_limit: None,
            page_offset: None,
        })
    }
}

pub fn request(ctx: &ApiContext) -> (r: Result<ApiRequest>)
    ensures
        planned(r, archives_plan(*ctx)),
{
    if ctx.limit.is_some() {
        return Err(Error::new(ErrorKind::Validation, "--limit is not supported by `archives` (non-paginated)"));
    }
    if ctx.offset.is_some() {
        return Err(Error::new(ErrorKind::Validation, "--offset is not supported by `archives` (non-paginated)"));
    }
    let params: Vec<(String, String)> = Vec::new();
    assert(crate::cache::pair_views(params@) =~= Seq::<(Seq<char>, Seq<char>)>::empty());
    let ttl = resolve_ttl(ctx, default_ttl());
    Ok(ApiRequest { path: "/stats/archives.json".to_owned(), params, ttl, page_limit: None, page_offset: None })
}

/// The archives as an unpaginated list: the `archives` member (an empty
/// list when absent), with no total.
pub fn shape(body: &Json) -> (r: Renderable)
    ensures
        r.shape == Shape::List,
        r.body@ == match body@.get("archives"@) {
            Some(v) => v,
            None => JsonV::Array(Seq::empty()),
        },
        !r.paginated,
        r.limit is None,
        r.offset is None,
        r.total is None,
{
    let items = match body.get("archives") {
        Some(v) => deep_clone(v),
        None => Json::empty_array(),
    };
    Renderable::list(items, false, None, None)
}

/// The schema entry of `archives`.
pub fn schema() -> (r: Command)
    ensures
        r.name@ == "archives"@,
        r.response_shape@ == "list"@,
        !r.paginated,
        r.cache_ttl_seconds == Some(86400u64),
        r.args@.len() == 0,
        r.description@ == "List all participating archives."@,
        !r.mutating,
        r.cache_ttl_strategy@ == "fixed"@,
        arg_views(r.args@) == Seq::<ArgV>::empty(),
        field_views(r.output_fields@) == seq![
            ("items"@, "array<archive>"@, None::<Seq<char>>),
            ("total"@, "integer"@, None::<Seq<char>>),
            ("limit"@, "null"@, None::<Seq<char>>),
            ("offset"@, "null"@, None::<Seq<char>>),
            ("paginated"@, "boolean"@, None::<Seq<char>>),
        ],
{
    let mut args: Vec<Arg> = Vec::new();
    let mut output_fields: Vec<OutputField> = Vec::new();
    output_fields.push(OutputField { name: "items", ty: "array<archive>", description: None });
    output_fields.push(OutputField { name: "total", ty: "integer", description: None });
    output_fields.push(OutputField { name: "limit", ty: "null", description: None });
    output_fields.push(OutputField { name: "offset", ty: "null", description: None });
    output_fields.push(OutputField { name: "paginated", ty: "boolean", description: None });
    assert(arg_views(args@) =~= Seq::<ArgV>::empty());
    assert(field_views(output_fields@) =~= seq![
        ("items"@, "array<archive>"@, None::<Seq<char>>),
        ("total"@, "integer"@, None::<Seq<char>>),
        ("limit"@, "null"@, None::<Seq<char>>),
        ("offset"@, "null"@, None::<Seq<char>>),
        ("paginated"@, "boolean"@, None::<Seq<char>>),
    ]);
    Command {
        name: "archives",
        description: "List all participating archives.",
        mutating: false,
        response_shape: "list",
        paginated: false,
        cache_ttl_seconds: Some(86400),
        cache_ttl_strategy: "fixed",
        args,
        output_fields,
    }
}

} // verus!
