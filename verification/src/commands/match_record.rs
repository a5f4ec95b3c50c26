//! `match`: score-matched record lookup by name and birth year.
use vstd::prelude::*;
use crate::commands::{ApiRequest, RequestV, array_at, items_at, lang_choice_error, lang_choice_message, planned, push_pair, i32_text};
use crate::cache::pair_views;
use crate::client::TtlHint;
use crate::error::{Error, ErrorKind, Result};
use crate::json::{Json, JsonV, opt_u64, models};
use crate::output::{Renderable, Shape};
use crate::runtime::{ApiContext, resolve_ttl, ttl_of};
use crate::schema_cmd::{Arg, Command, OutputField, str_values, ArgV, arg_view, arg_views, field_views, int_json, option_json};
use crate::span::TimeSpan;
use crate::text::{dec_int, str_in, views};

verus! {

#[derive(Debug, Clone)]
pub struct Args {
    pub name: String,
    pub birthyear: i32,
}

impl Default for Args {
    /// Empty values, no filter.
    fn default() -> (r: Args)
        ensures
            r.name@.len() == 0,
            r.birthyear == 0,
    {
        Args {
            name: String::new(),
            birthyear: 0,
        }
    }
}

/// The request of `match`: no pagination, Dutch or English; six hours.
pub open spec fn match_plan(ctx: ApiContext, a: Args) -> core::result::Result<RequestV, Seq<char>> {
    if ctx.limit is Some || ctx.offset is Some {
        Err("--limit/--offset are not supported by `match`"@)
    } else if !(ctx.lang@ == "nl"@ || ctx.lang@ == "en"@) {
        Err(lang_choice_message("[\"nl\", \"en\"]"@, ctx.lang@))
    } else {
        Ok(RequestV {
            path: "/records/match.json"@,
            pairs: seq![("name"@, a.name@), ("birthyear"@, dec_int(a.birthyear as int)), ("lang"@, ctx.lang@)],
            ttl: ttl_of(ctx.cache_ttl_override, TtlHint::Fixed(TimeSpan { secs: 21600, nanos: 0 })),
            page_limit: None,
            page_offset: None,
        })
    }
}

pub fn request(ctx: &ApiContext, args: &Args) -> (r: Result<ApiRequest>)
    ensures
        planned(r, match_plan(*ctx, *args)),
{
    if ctx.limit.is_some() || ctx.offset.is_some() {
        return Err(Error::new(ErrorKind::Validation, "--limit/--offset are not supported by `match`"));
    }
    let langs = ["nl", "en"];
    assert(views(langs@) =~= seq!["nl"@, "en"@]);
    if !str_in(ctx.lang.as_str(), &langs) {
        return Err(lang_choice_error("[\"nl\", \"en\"]", ctx.lang.as_str()));
    }
    let yr = i32_text(args.birthyear);
    let mut params: Vec<(String, String)> = Vec::new();
    push_pair(&mut params, "name", args.name.as_str());
    push_pair(&mut params, "birthyear", yr.as_str());
    push_pair(&mut params, "lang", ctx.lang.as_str());
    assert(pair_views(params@) =~= match_plan(*ctx, *args)->Ok_0.pairs);
    let ttl = resolve_ttl(ctx, TtlHint::Fixed(TimeSpan::from_secs(6 * 3600)));
    Ok(ApiRequest { path: "/records/match.json".to_owned(), params, ttl, page_limit: None, page_offset: None })
}

/// The matches as an unpaginated list: the documents under `response.docs`,
/// the total under `response.numFound`.
pub fn shape(body: &Json) -> (r: Renderable)
    ensures
        r.shape == Shape::List,
        r.body@ == JsonV::Array(array_at(body@, seq!["response"@, "docs"@])),
        !r.paginated,
        r.limit is None,
        r.offset is None,
        r.total == opt_u64(body@.at(seq!["response"@, "numFound"@])),
{
    let docs = ["response", "docs"];
    let num = ["response", "numFound"];
    let total = match body.at(&num) {
        Some(v) => v.as_u64(),
        None => None,
    };
    let items = items_at(body, &docs);
    proof {
        assert(views(docs@) =~= seq!["response"@, "docs"@]);
        assert(views(num@) =~= seq!["response"@, "numFound"@]);
    }
    Renderable::list(items, false, None, None).with_total(total)
}

/// The schema entry of `match`.
pub fn schema() -> (r: Command)
    ensures
        r.name@ == "match"@,
        r.response_shape@ == "list"@,
        !r.paginated,
        r.cache_ttl_seconds == Some(21600u64),
        r.args@.len() == 3,
        r.description@ == "Match a record by name and birth year (probabilistic linkage)."@,
        !r.mutating,
        r.cache_ttl_strategy@ == "fixed"@,
        arg_views(r.args@) == seq![
            (ArgV { name: "name"@, ty: "string"@, required: true, positional: true, description: None::<Seq<char>>, default: None::<JsonV>, min: None::<i64>, max: None::<i64>, enum_values: None::<Seq<JsonV>> }),
            (ArgV { name: "birthyear"@, ty: "integer"@, required: true, positional: true, description: None::<Seq<char>>, default: None::<JsonV>, min: None::<i64>, max: None::<i64>, enum_values: None::<Seq<JsonV>> }),
            (ArgV { name: "--lang"@, ty: "string"@, required: false, positional: false, description: None::<Seq<char>>, default: Some(JsonV::Str("nl"@)), min: None::<i64>, max: None::<i64>, enum_values: Some(seq![JsonV::Str("nl"@), JsonV::Str("en"@)]) }),
        ],
        field_views(r.output_fields@) == seq![
            ("items"@, "array<record>"@, None::<Seq<char>>),
            ("total"@, "integer | null"@, None::<Seq<char>>),
            ("paginated"@, "boolean"@, None::<Seq<char>>),
        ],
{
    let mut args: Vec<Arg> = Vec::new();
    args.push(Arg::positional("name", "string"));
    assert(arg_view(args@[0]) == (ArgV { name: "name"@, ty: "string"@, required: true, positional: true, description: None::<Seq<char>>, default: None::<JsonV>, min: None::<i64>, max: None::<i64>, enum_values: None::<Seq<JsonV>> }));
    args.push(Arg::positional("birthyear", "integer"));
    assert(arg_view(args@[1]) == (ArgV { name: "birthyear"@, ty: "integer"@, required: true, positional: true, description: None::<Seq<char>>, default: None::<JsonV>, min: None::<i64>, max: None::<i64>, enum_values: None::<Seq<JsonV>> }));
    let mut a = Arg::flag("--lang", "string", false);
    a.default = Some(Json::string("nl"));
    a.enum_values = Some(str_values(&["nl", "en"]));
    args.push(a);
    assert(models(args@[2].enum_values->0@) =~= seq![JsonV::Str("nl"@), JsonV::Str("en"@)]);
    assert(arg_view(args@[2]) == (ArgV { name: "--lang"@, ty: "string"@, required: false, positional: false, description: None::<Seq<char>>, default: Some(JsonV::Str("nl"@)), min: None::<i64>, max: None::<i64>, enum_values: Some(seq![JsonV::Str("nl"@), JsonV::Str("en"@)]) }));
    let mut output_fields: Vec<OutputField> = Vec::new();
    output_fields.push(OutputField { name: "items", ty: "array<record>", description: None });
    output_fields.push(OutputField { name: "total", ty: "integer | null", description: None });
    output_fields.push(OutputField { name: "paginated", ty: "boolean", description: None });
    assert(arg_views(args@) =~= seq![
        (ArgV { name: "name"@, ty: "string"@, required: true, positional: true, description: None::<Seq<char>>, default: None::<JsonV>, min: None::<i64>, max: None::<i64>, enum_values: None::<Seq<JsonV>> }),
        (ArgV { name: "birthyear"@, ty: "integer"@, required: true, positional: true, description: None::<Seq<char>>, default: None::<JsonV>, min: None::<i64>, max: None::<i64>, enum_values: None::<Seq<JsonV>> }),
        (ArgV { name: "--lang"@, ty: "string"@, required: false, positional: false, description: None::<Seq<char>>, default: Some(JsonV::Str("nl"@)), min: None::<i64>, max: None::<i64>, enum_values: Some(seq![JsonV::Str("nl"@), JsonV::Str("en"@)]) }),
    ]);
    assert(field_views(output_fields@) =~= seq![
        ("items"@, "array<record>"@, None::<Seq<char>>),
        ("total"@, "integer | null"@, None::<Seq<char>>),
        ("paginated"@, "boolean"@, None::<Seq<char>>),
    ]);
    Command {
        name: "match",
        description: "Match a record by name and birth year (probabilistic linkage).",
        mutating: false,
        response_shape: "list",
        paginated: false,
        cache_ttl_seconds: Some(21600),
        cache_ttl_strategy: "fixed",
        args,
        output_fields,
    }
}

} // verus!
