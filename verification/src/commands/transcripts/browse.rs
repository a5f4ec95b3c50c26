//! `transcripts browse`: the transcription tree of an archive.
use vstd::prelude::*;
use crate::commands::{ApiRequest, RequestV, opt_pair, planned, push_opt, push_pair, value_at, value_at_or_empty, array_count};
use crate::commands::transcripts::{transcript_lang_ok, unsupported_lang_error, unsupported_lang_message};
use crate::cache::pair_views;
use crate::client::TtlHint;
use crate::error::{Error, ErrorKind, Result};
use crate::json::{Json, JsonV, models};
use crate::output::{Renderable, Shape};
use crate::runtime::{ApiContext, resolve_ttl, ttl_of};
use crate::schema_cmd::{Arg, Command, OutputField, str_values, ArgV, arg_view, arg_views, field_views, int_json, option_json};
use crate::span::TimeSpan;
use crate::text::{str_in, views};

verus! {

pub const TTL_SECONDS: u64 = 604800;

#[derive(Debug, Clone)]
pub struct Args {
    pub archive_code: Option<String>,
    pub archive_number: Option<String>,
}

impl Default for Args {
    /// Empty values, no filter.
    fn default() -> (r: Args)
        ensures
            r.archive_code is None,
            r.archive_number is None,
    {
        Args {
            archive_code: None,
            archive_number: None,
        }
    }
}

/// The request of `transcripts browse`: no pagination; Dutch, English,
/// German or French; an archive number only within an archive; a week.
pub open spec fn browse_plan(ctx: ApiContext, a: Args) -> core::result::Result<RequestV, Seq<char>> {
    if ctx.limit is Some {
        Err("--limit is not supported by `transcripts browse` (non-paginated)"@)
    } else if ctx.offset is Some {
        Err("--offset is not supported by `transcripts browse` (non-paginated)"@)
    } else if !transcript_lang_ok(ctx.lang@) {
        Err(unsupported_lang_message(ctx.lang@))
    } else if a.archive_code is None && a.archive_number is Some {
        Err("--archive-number requires --archive-code"@)
    } else {
        Ok(RequestV {
            path: "/transcriptions/browse.json"@,
            pairs: seq![("lang"@, ctx.lang@)] + opt_pair("archive_code"@, a.archive_code) + opt_pair("archive_number"@, a.archive_number),
            ttl: ttl_of(ctx.cache_ttl_override, TtlHint::Fixed(TimeSpan { secs: 604800, nanos: 0 })),
            page_limit: None,
            page_offset: None,
        })
    }
}

pub fn request(ctx: &ApiContext, args: &Args) -> (r: Result<ApiRequest>)
    ensures
        planned(r, browse_plan(*ctx, *args)),
{
    if ctx.limit.is_some() {
        return Err(Error::new(ErrorKind::Validation, "--limit is not supported by `transcripts browse` (non-paginated)"));
    }
    if ctx.offset.is_some() {
        return Err(Error::new(ErrorKind::Validation, "--offset is not supported by `transcripts browse` (non-paginated)"));
    }
    let langs = ["nl", "en", "de", "fr"];
    assert(views(langs@) =~= seq!["nl"@, "en"@, "de"@, "fr"@]);
    if !str_in(ctx.lang.as_str(), &langs) {
        return Err(unsupported_lang_error(ctx.lang.as_str()));
    }
    if args.archive_code.is_none() && args.archive_number.is_some() {
        return Err(Error::new(ErrorKind::Validation, "--archive-number requires --archive-code"));
    }
    let mut params: Vec<(String, String)> = Vec::new();
    push_pair(&mut params, "lang", ctx.lang.as_str());
    push_opt(&mut params, "archive_code", &args.archive_code);
    push_opt(&mut params, "archive_number", &args.archive_number);
    assert(pair_views(params@) =~= browse_plan(*ctx, *args)->Ok_0.pairs);
    let ttl = resolve_ttl(ctx, TtlHint::Fixed(TimeSpan::from_secs(TTL_SECONDS)));
    Ok(ApiRequest { path: "/transcriptions/browse.json".to_owned(), params, ttl, page_limit: None, page_offset: None })
}

/// The entries as an unpaginated list: the value under `response.docs` (an
/// empty list when absent); the total is its length when it is an array.
pub fn shape(body: &Json) -> (r: Renderable)
    ensures
        r.shape == Shape::List,
        r.body@ == value_at(body@, seq!["response"@, "docs"@]),
        !r.paginated,
        r.limit is None,
        r.offset is None,
        r.total == match value_at(body@, seq!["response"@, "docs"@]) {
            JsonV::Array(xs) => Some(xs.len() as u64),
            _ => None,
        },
{
    let docs = ["response", "docs"];
    let items = value_at_or_empty(body, &docs);
    proof {
        assert(views(docs@) =~= seq!["response"@, "docs"@]);
    }
    let total = array_count(&items);
    Renderable::list(items, false, None, None).with_total(total)
}

/// The schema entry of `transcripts browse`.
pub fn schema() -> (r: Command)
    ensures
        r.name@ == "transcripts browse"@,
        r.response_shape@ == "list"@,
        !r.paginated,
        r.cache_ttl_seconds == Some(604800u64),
        r.args@.len() == 3,
        r.description@ == "Hierarchical browse of available page transcriptions: archives → archive numbers → inventories."@,
        !r.mutating,
        r.cache_ttl_strategy@ == "fixed"@,
        arg_views(r.args@) == seq![
            (ArgV { name: "--archive-code"@, ty: "string"@, required: false, positional: false, description: None::<Seq<char>>, default: None::<JsonV>, min: None::<i64>, max: None::<i64>, enum_values: None::<Seq<JsonV>> }),
            (ArgV { name: "--archive-number"@, ty: "string"@, required: false, positional: false, description: None::<Seq<char>>, default: None::<JsonV>, min: None::<i64>, max: None::<i64>, enum_values: None::<Seq<JsonV>> }),
            (ArgV { name: "--lang"@, ty: "string"@, required: false, positional: false, description: None::<Seq<char>>, default: Some(JsonV::Str("nl"@)), min: None::<i64>, max: None::<i64>, enum_values: Some(seq![JsonV::Str("nl"@), JsonV::Str("en"@), JsonV::Str("de"@), JsonV::Str("fr"@)]) }),
        ],
        field_views(r.output_fields@) == seq![
            ("items"@, "array<browse_item>"@, None::<Seq<char>>),
            ("total"@, "integer"@, None::<Seq<char>>),
            ("limit"@, "null"@, None::<Seq<char>>),
            ("offset"@, "null"@, None::<Seq<char>>),
            ("paginated"@, "boolean"@, None::<Seq<char>>),
        ],
{
    let mut args: Vec<Arg> = Vec::new();
    args.push(Arg::flag("--archive-code", "string", false));
    assert(arg_view(args@[0]) == (ArgV { name: "--archive-code"@, ty: "string"@, required: false, positional: false, description: None::<Seq<char>>, default: None::<JsonV>, min: None::<i64>, max: None::<i64>, enum_values: None::<Seq<JsonV>> }));
    args.push(Arg::flag("--archive-number", "string", false));
    assert(arg_view(args@[1]) == (ArgV { name: "--archive-number"@, ty: "string"@, required: false, positional: false, description: None::<Seq<char>>, default: None::<JsonV>, min: None::<i64>, max: None::<i64>, enum_values: None::<Seq<JsonV>> }));
    let mut a = Arg::flag("--lang", "string", false);
    a.default = Some(Json::string("nl"));
    a.enum_values = Some(str_values(&["nl", "en", "de", "fr"]));
    args.push(a);
    assert(models(args@[2].enum_values->0@) =~= seq![JsonV::Str("nl"@), JsonV::Str("en"@), JsonV::Str("de"@), JsonV::Str("fr"@)]);
    assert(arg_view(args@[2]) == (ArgV { name: "--lang"@, ty: "string"@, required: false, positional: false, description: None::<Seq<char>>, default: Some(JsonV::Str("nl"@)), min: None::<i64>, max: None::<i64>, enum_values: Some(seq![JsonV::Str("nl"@), JsonV::Str("en"@), JsonV::Str("de"@), JsonV::Str("fr"@)]) }));
    let mut output_fields: Vec<OutputField> = Vec::new();
    output_fields.push(OutputField { name: "items", ty: "array<browse_item>", description: None });
    output_fields.push(OutputField { name: "total", ty: "integer", description: None });
    output_fields.push(OutputField { name: "limit", ty: "null", description: None });
    output_fields.push(OutputField { name: "offset", ty: "null", description: None });
    output_fields.push(OutputField { name: "paginated", ty: "boolean", description: None });
    assert(arg_views(args@) =~= seq![
        (ArgV { name: "--archive-code"@, ty: "string"@, required: false, positional: false, description: None::<Seq<char>>, default: None::<JsonV>, min: None::<i64>, max: None::<i64>, enum_values: None::<Seq<JsonV>> }),
        (ArgV { name: "--archive-number"@, ty: "string"@, required: false, positional: false, description: None::<Seq<char>>, default: None::<JsonV>, min: None::<i64>, max: None::<i64>, enum_values: None::<Seq<JsonV>> }),
        (ArgV { name: "--lang"@, ty: "string"@, required: false, positional: false, description: None::<Seq<char>>, default: Some(JsonV::Str("nl"@)), min: None::<i64>, max: None::<i64>, enum_values: Some(seq![JsonV::Str("nl"@), JsonV::Str("en"@), JsonV::Str("de"@), JsonV::Str("fr"@)]) }),
    ]);
    assert(field_views(output_fields@) =~= seq![
        ("items"@, "array<browse_item>"@, None::<Seq<char>>),
        ("total"@, "integer"@, None::<Seq<char>>),
        ("limit"@, "null"@, None::<Seq<char>>),
        ("offset"@, "null"@, None::<Seq<char>>),
        ("paginated"@, "boolean"@, None::<Seq<char>>),
    ]);
    Command {
        name: "transcripts browse",
        description: "Hierarchical browse of available page transcriptions: archives → archive numbers → inventories.",
        mutating: false,
        response_shape: "list",
        paginated: false,
        cache_ttl_seconds: Some(604800),
        cache_ttl_strategy: "fixed",
        args,
        output_fields,
    }
}

} // verus!
