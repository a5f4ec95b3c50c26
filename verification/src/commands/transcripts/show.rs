//! `transcripts show`: one transcription by identifier.
use vstd::prelude::*;
use crate::commands::{ApiRequest, RequestV, empty_body, is_empty_body, not_found, planned, push_pair, upstream_refusal, upstream_refusal_of};
use crate::commands::transcripts::{transcript_lang_ok, unsupported_lang_error, unsupported_lang_message};
use crate::cache::pair_views;
use crate::client::TtlHint;
use crate::error::{Error, ErrorKind, Result};
use crate::json::{Json, JsonV, deep_clone, models};
use crate::output::{Renderable, Shape};
use crate::runtime::{ApiContext, resolve_ttl, ttl_of};
use crate::schema_cmd::{Arg, Command, OutputField, str_values, ArgV, arg_view, arg_views, field_views, int_json, option_json};
use crate::text::{cat2, cat4, str_in, views};

verus! {

#[derive(Debug, Clone)]
pub struct Args {
    pub id: String,
}

impl Default for Args {
    /// Empty values, no filter.
    fn default() -> (r: Args)
        ensures
            r.id@.len() == 0,
    {
        Args {
            id: String::new(),
        }
    }
}

/// The request of `transcripts show`: a non-empty identifier; Dutch,
/// English, German or French; no pagination; cached for good.
pub open spec fn tshow_plan(ctx: ApiContext, a: Args) -> core::result::Result<RequestV, Seq<char>> {
    if a.id@.len() == 0 {
        Err("id: must not be empty"@)
    } else if !transcript_lang_ok(ctx.lang@) {
        Err(unsupported_lang_message(ctx.lang@))
    } else if ctx.limit is Some || ctx.offset is Some {
        Err("--limit/--offset are not supported by `transcripts show`"@)
    } else {
        Ok(RequestV {
            path: "/transcriptions/show.json"@,
            pairs: seq![("id"@, a.id@), ("lang"@, ctx.lang@)],
            ttl: ttl_of(ctx.cache_ttl_override, TtlHint::Never),
            page_limit: None,
            page_offset: None,
        })
    }
}

pub fn request(ctx: &ApiContext, args: &Args) -> (r: Result<ApiRequest>)
    ensures
        planned(r, tshow_plan(*ctx, *args)),
{
    if args.id.unicode_len() == 0 {
        return Err(Error::new(ErrorKind::Validation, "id: must not be empty"));
    }
    let langs = ["nl", "en", "de", "fr"];
    assert(views(langs@) =~= seq!["nl"@, "en"@, "de"@, "fr"@]);
    if !str_in(ctx.lang.as_str(), &langs) {
        return Err(unsupported_lang_error(ctx.lang.as_str()));
    }
    if ctx.limit.is_some() || ctx.offset.is_some() {
        return Err(Error::new(ErrorKind::Validation, "--limit/--offset are not supported by `transcripts show`"));
    }
    let mut params: Vec<(String, String)> = Vec::new();
    push_pair(&mut params, "id", args.id.as_str());
    push_pair(&mut params, "lang", ctx.lang.as_str());
    assert(pair_views(params@) =~= tshow_plan(*ctx, *args)->Ok_0.pairs);
    let ttl = resolve_ttl(ctx, TtlHint::Never);
    Ok(ApiRequest { path: "/transcriptions/show.json".to_owned(), params, ttl, page_limit: None, page_offset: None })
}

/// The transcription as a nested value; an error envelope or an empty body
/// means there is none.
pub fn shape(body: &Json, args: &Args) -> (r: Result<Renderable>)
    ensures
        match upstream_refusal(body@) {
            Some(desc) => r is Err && r->Err_0@ == not_found(
                "no transcription found for "@ + args.id@ + " (upstream: "@ + desc + ")"@,
            ),
            None => if empty_body(body@) {
                r is Err && r->Err_0@ == not_found("no transcription found for "@ + args.id@)
            } else {
                r is Ok && r->Ok_0.shape == Shape::SingleNested && r->Ok_0.body@ == body@ && !r->Ok_0.paginated
                    && r->Ok_0.limit is None && r->Ok_0.offset is None && r->Ok_0.total is None
            },
        },
{
    if let Some(desc) = upstream_refusal_of(body) {
        let m = cat4("no transcription found for ", args.id.as_str(), " (upstream: ", desc);
        let m2 = cat2(m.as_str(), ")");
        return Err(Error::new(ErrorKind::NotFound, m2.as_str()));
    }
    if is_empty_body(body) {
        let m = cat2("no transcription found for ", args.id.as_str());
        return Err(Error::new(ErrorKind::NotFound, m.as_str()));
    }
    Ok(Renderable::single_nested(deep_clone(body)))
}

/// The schema entry of `transcripts show`.
pub fn schema() -> (r: Command)
    ensures
        r.name@ == "transcripts show"@,
        r.response_shape@ == "single-nested"@,
        !r.paginated,
        r.cache_ttl_seconds == None::<u64>,
        r.args@.len() == 2,
        r.description@ == "Retrieve the full transcript of a single page by id (immutable; cached forever)."@,
        !r.mutating,
        r.cache_ttl_strategy@ == "never"@,
        arg_views(r.args@) == seq![
            (ArgV { name: "id"@, ty: "string"@, required: true, positional: true, description: Some("Unique transcription page identifier"@), default: None::<JsonV>, min: None::<i64>, max: None::<i64>, enum_values: None::<Seq<JsonV>> }),
            (ArgV { name: "--lang"@, ty: "string"@, required: false, positional: false, description: Some("Response language for labels and descriptions"@), default: Some(JsonV::Str("nl"@)), min: None::<i64>, max: None::<i64>, enum_values: Some(seq![JsonV::Str("nl"@), JsonV::Str("en"@), JsonV::Str("de"@), JsonV::Str("fr"@)]) }),
        ],
        field_views(r.output_fields@) == Seq::<(Seq<char>, Seq<char>, Option<Seq<char>>)>::empty(),
{
    let mut args: Vec<Arg> = Vec::new();
    let mut a = Arg::positional("id", "string");
    a.description = Some("Unique transcription page identifier");
    args.push(a);
    assert(arg_view(args@[0]) == (ArgV { name: "id"@, ty: "string"@, required: true, positional: true, description: Some("Unique transcription page identifier"@), default: None::<JsonV>, min: None::<i64>, max: None::<i64>, enum_values: None::<Seq<JsonV>> }));
    let mut a = Arg::flag("--lang", "string", false);
    a.description = Some("Response language for labels and descriptions");
    a.default = Some(Json::string("nl"));
    a.enum_values = Some(str_values(&["nl", "en", "de", "fr"]));
    args.push(a);
    assert(models(args@[1].enum_values->0@) =~= seq![JsonV::Str("nl"@), JsonV::Str("en"@), JsonV::Str("de"@), JsonV::Str("fr"@)]);
    assert(arg_view(args@[1]) == (ArgV { name: "--lang"@, ty: "string"@, required: false, positional: false, description: Some("Response language for labels and descriptions"@), default: Some(JsonV::Str("nl"@)), min: None::<i64>, max: None::<i64>, enum_values: Some(seq![JsonV::Str("nl"@), JsonV::Str("en"@), JsonV::Str("de"@), JsonV::Str("fr"@)]) }));
    let mut output_fields: Vec<OutputField> = Vec::new();
    assert(arg_views(args@) =~= seq![
        (ArgV { name: "id"@, ty: "string"@, required: true, positional: true, description: Some("Unique transcription page identifier"@), default: None::<JsonV>, min: None::<i64>, max: None::<i64>, enum_values: None::<Seq<JsonV>> }),
        (ArgV { name: "--lang"@, ty: "string"@, required: false, positional: false, description: Some("Response language for labels and descriptions"@), default: Some(JsonV::Str("nl"@)), min: None::<i64>, max: None::<i64>, enum_values: Some(seq![JsonV::Str("nl"@), JsonV::Str("en"@), JsonV::Str("de"@), JsonV::Str("fr"@)]) }),
    ]);
    assert(field_views(output_fields@) =~= Seq::<(Seq<char>, Seq<char>, Option<Seq<char>>)>::empty());
    Command {
        name: "transcripts show",
        description: "Retrieve the full transcript of a single page by id (immutable; cached forever).",
        mutating: false,
        response_shape: "single-nested",
        paginated: false,
        cache_ttl_seconds: None,
        cache_ttl_strategy: "never",
        args,
        output_fields,
    }
}

} // verus!
