//! `show`: one record by archive and identifier.
use vstd::prelude::*;
use crate::commands::{ApiRequest, RequestV, empty_body, is_empty_body, lang_choice_error, lang_choice_message, not_found, planned, push_pair, upstream_refusal, upstream_refusal_of};
use crate::cache::pair_views;
use crate::client::TtlHint;
use crate::error::{Error, ErrorKind, Result};
use crate::json::{Json, JsonV, deep_clone, models};
use crate::output::{Renderable, Shape};
use crate::runtime::{ApiContext, resolve_ttl, ttl_of};
use crate::schema_cmd::{Arg, Command, OutputField, str_values, ArgV, arg_view, arg_views, field_views, int_json, option_json};
use crate::span::TimeSpan;
use crate::text::{cat4, cat6, str_in, views};

verus! {

#[derive(Debug, Clone)]
pub struct Args {
    pub archive: String,
    pub identifier: String,
}

impl Default for Args {
    /// Empty values, no filter.
    fn default() -> (r: Args)
        ensures
            r.archive@.len() == 0,
            r.identifier@.len() == 0,
    {
        Args {
            archive: String::new(),
            identifier: String::new(),
        }
    }
}

/// The request of `show`: Dutch or English, no pagination; records live a day.
pub open spec fn show_plan(ctx: ApiContext, a: Args) -> core::result::Result<RequestV, Seq<char>> {
    if !(ctx.lang@ == "nl"@ || ctx.lang@ == "en"@) {
        Err(lang_choice_message("[\"nl\", \"en\"]"@, ctx.lang@))
    } else if ctx.limit is Some || ctx.offset is Some {
        Err("--limit/--offset are not supported by `show`"@)
    } else {
        Ok(RequestV {
            path: "/records/show.json"@,
            pairs: seq![("archive"@, a.archive@), ("identifier"@, a.identifier@), ("lang"@, ctx.lang@)],
            ttl: ttl_of(ctx.cache_ttl_override, TtlHint::Fixed(TimeSpan { secs: 86400, nanos: 0 })),
            page_limit: None,
            page_offset: None,
        })
    }
}

pub fn request(ctx: &ApiContext, args: &Args) -> (r: Result<ApiRequest>)
    ensures
        planned(r, show_plan(*ctx, *args)),
{
    let langs = ["nl", "en"];
    assert(views(langs@) =~= seq!["nl"@, "en"@]);
    if !str_in(ctx.lang.as_str(), &langs) {
        return Err(lang_choice_error("[\"nl\", \"en\"]", ctx.lang.as_str()));
    }
    if ctx.limit.is_some() || ctx.offset.is_some() {
        return Err(Error::new(ErrorKind::Validation, "--limit/--offset are not supported by `show`"));
    }
    let mut params: Vec<(String, String)> = Vec::new();
    push_pair(&mut params, "archive", args.archive.as_str());
    push_pair(&mut params, "identifier", args.identifier.as_str());
    push_pair(&mut params, "lang", ctx.lang.as_str());
    assert(pair_views(params@) =~= show_plan(*ctx, *args)->Ok_0.pairs);
    let ttl = resolve_ttl(ctx, TtlHint::Fixed(TimeSpan::from_secs(24 * 3600)));
    Ok(ApiRequest { path: "/records/show.json".to_owned(), params, ttl, page_limit: None, page_offset: None })
}

/// The record as a nested value. The API answers a missing record with
/// HTTP 200 and an error envelope, or with an empty body: both are "not found".
pub fn shape(body: &Json, args: &Args) -> (r: Result<Renderable>)
    ensures
        match upstream_refusal(body@) {
            Some(desc) => r is Err && r->Err_0@ == not_found(
                "no record found for "@ + args.archive@ + "/"@ + args.identifier@ + " (upstream: "@ + desc + ")"@,
            ),
            None => if empty_body(body@) {
                r is Err && r->Err_0@ == not_found("no record found for "@ + args.archive@ + "/"@ + args.identifier@)
            } else {
                r is Ok && r->Ok_0.shape == Shape::SingleNested && r->Ok_0.body@ == body@ && !r->Ok_0.paginated
                    && r->Ok_0.limit is None && r->Ok_0.offset is None && r->Ok_0.total is None
            },
        },
{
    if let Some(desc) = upstream_refusal_of(body) {
        let m = cat6("no record found for ", args.archive.as_str(), "/", args.identifier.as_str(), " (upstream: ", desc);
        let m2 = crate::text::cat2(m.as_str(), ")");
        return Err(Error::new(ErrorKind::NotFound, m2.as_str()));
    }
    if is_empty_body(body) {
        let m = cat4("no record found for ", args.archive.as_str(), "/", args.identifier.as_str());
        return Err(Error::new(ErrorKind::NotFound, m.as_str()));
    }
    Ok(Renderable::single_nested(deep_clone(body)))
}

/// The schema entry of `show`.
pub fn schema() -> (r: Command)
    ensures
        r.name@ == "show"@,
        r.response_shape@ == "single-nested"@,
        !r.paginated,
        r.cache_ttl_seconds == Some(86400u64),
        r.args@.len() == 3,
        r.description@ == "Fetch a single record by archive code and identifier."@,
        !r.mutating,
        r.cache_ttl_strategy@ == "fixed"@,
        arg_views(r.args@) == seq![
            (ArgV { name: "archive"@, ty: "string"@, required: true, positional: true, description: Some("Archive code identifying the holding institution"@), default: None::<JsonV>, min: None::<i64>, max: None::<i64>, enum_values: None::<Seq<JsonV>> }),
            (ArgV { name: "identifier"@, ty: "string"@, required: true, positional: true, description: Some("Record identifier within the archive"@), default: None::<JsonV>, min: None::<i64>, max: None::<i64>, enum_values: None::<Seq<JsonV>> }),
            (ArgV { name: "--lang"@, ty: "string"@, required: false, positional: false, description: Some("Response language for labels and descriptions"@), default: Some(JsonV::Str("nl"@)), min: None::<i64>, max: None::<i64>, enum_values: Some(seq![JsonV::Str("nl"@), JsonV::Str("en"@)]) }),
        ],
        field_views(r.output_fields@) == Seq::<(Seq<char>, Seq<char>, Option<Seq<char>>)>::empty(),
{
    let mut args: Vec<Arg> = Vec::new();
    let mut a = Arg::positional("archive", "string");
    a.description = Some("Archive code identifying the holding institution");
    args.push(a);
    assert(arg_view(args@[0]) == (ArgV { name: "archive"@, ty: "string"@, required: true, positional: true, description: Some("Archive code identifying the holding institution"@), default: None::<JsonV>, min: None::<i64>, max: None::<i64>, enum_values: None::<Seq<JsonV>> }));
    let mut a = Arg::positional("identifier", "string");
    a.description = Some("Record identifier within the archive");
    args.push(a);
    assert(arg_view(args@[1]) == (ArgV { name: "identifier"@, ty: "string"@, required: true, positional: true, description: Some("Record identifier within the archive"@), default: None::<JsonV>, min: None::<i64>, max: None::<i64>, enum_values: None::<Seq<JsonV>> }));
    let mut a = Arg::flag("--lang", "string", false);
    a.description = Some("Response language for labels and descriptions");
    a.default = Some(Json::string("nl"));
    a.enum_values = Some(str_values(&["nl", "en"]));
    args.push(a);
    assert(models(args@[2].enum_values->0@) =~= seq![JsonV::Str("nl"@), JsonV::Str("en"@)]);
    assert(arg_view(args@[2]) == (ArgV { name: "--lang"@, ty: "string"@, required: false, positional: false, description: Some("Response language for labels and descriptions"@), default: Some(JsonV::Str("nl"@)), min: None::<i64>, max: None::<i64>, enum_values: Some(seq![JsonV::Str("nl"@), JsonV::Str("en"@)]) }));
    let mut output_fields: Vec<OutputField> = Vec::new();
    assert(arg_views(args@) =~= seq![
        (ArgV { name: "archive"@, ty: "string"@, required: true, positional: true, description: Some("Archive code identifying the holding institution"@), default: None::<JsonV>, min: None::<i64>, max: None::<i64>, enum_values: None::<Seq<JsonV>> }),
        (ArgV { name: "identifier"@, ty: "string"@, required: true, positional: true, description: Some("Record identifier within the archive"@), default: None::<JsonV>, min: None::<i64>, max: None::<i64>, enum_values: None::<Seq<JsonV>> }),
        (ArgV { name: "--lang"@, ty: "string"@, required: false, positional: false, description: Some("Response language for labels and descriptions"@), default: Some(JsonV::Str("nl"@)), min: None::<i64>, max: None::<i64>, enum_values: Some(seq![JsonV::Str("nl"@), JsonV::Str("en"@)]) }),
    ]);
    assert(field_views(output_fields@) =~= Seq::<(Seq<char>, Seq<char>, Option<Seq<char>>)>::empty());
    Command {
        name: "show",
        description: "Fetch a single record by archive code and identifier.",
        mutating: false,
        response_shape: "single-nested",
        paginated: false,
        cache_ttl_seconds: Some(86400),
        cache_ttl_strategy: "fixed",
        args,
        output_fields,
    }
}

} // verus!
