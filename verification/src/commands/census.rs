//! `census`: census records by place (or GeoNames URI) and year.
use vstd::prelude::*;
use crate::commands::{ApiRequest, RequestV, opt_int_pair, opt_pair, planned, push_opt, push_opt_int, push_pair, i32_text};
use crate::cache::pair_views;
use crate::client::TtlHint;
use crate::error::{Error, ErrorKind, Result};
use crate::json::{Json, deep_clone, JsonV, models};
use crate::output::{Renderable, Shape};
use crate::runtime::{ApiContext, resolve_ttl, ttl_of};
use crate::schema_cmd::{Arg, Command, OutputField, option_values, ArgV, arg_view, arg_views, field_views, int_json, option_json};
use crate::text::dec_int;

verus! {

#[derive(Debug, Clone)]
pub struct Args {
    pub year: i32,
    pub place: Option<String>,
    pub gg_uri: Option<String>,
    pub province: Option<String>,
    pub richness: Option<i32>,
}

impl Default for Args {
    /// Empty values, no filter.
    fn default() -> (r: Args)
        ensures
            r.year == 0,
            r.place is None,
            r.gg_uri is None,
            r.province is None,
            r.richness is None,
    {
        Args {
            year: 0,
            place: None,
            gg_uri: None,
            province: None,
            richness: None,
        }
    }
}

/// The request of `census`: no projection and no pagination (the answer is
/// one nested document), exactly one of place and GeoNames URI, a richness
/// within 1..=3; cached for good.
pub open spec fn census_plan(ctx: ApiContext, a: Args) -> core::result::Result<RequestV, Seq<char>> {
    if ctx.fields is Some {
        Err("--fields is not supported for `census` (single-nested shape); use `-o json | jq`"@)
    } else if ctx.limit is Some || ctx.offset is Some {
        Err("--limit/--offset are not supported by `census`"@)
    } else if (a.place is Some) == (a.gg_uri is Some) {
        Err("exactly one of --place or --gg-uri is required"@)
    } else if a.richness is Some && !(1 <= a.richness->0 <= 3) {
        Err("--richness must be 1..=3, got "@ + dec_int(a.richness->0 as int))
    } else {
        Ok(RequestV {
            path: "/related/census.json"@,
            pairs: seq![("year"@, dec_int(a.year as int))]
                + opt_pair("place"@, a.place)
                + opt_pair("gg_uri"@, a.gg_uri)
                + opt_pair("province"@, a.province)
                + opt_int_pair("richness"@, a.richness),
            ttl: ttl_of(ctx.cache_ttl_override, TtlHint::Never),
            page_limit: None,
            page_offset: None,
        })
    }
}

pub fn request(ctx: &ApiContext, args: &Args) -> (r: Result<ApiRequest>)
    ensures
        planned(r, census_plan(*ctx, *args)),
{
    if ctx.fields.is_some() {
        return Err(Error::new(
            ErrorKind::Validation,
            "--fields is not supported for `census` (single-nested shape); use `-o json | jq`",
        ));
    }
    if ctx.limit.is_some() || ctx.offset.is_some() {
        return Err(Error::new(ErrorKind::Validation, "--limit/--offset are not supported by `census`"));
    }
    if args.place.is_some() == args.gg_uri.is_some() {
        return Err(Error::new(ErrorKind::Validation, "exactly one of --place or --gg-uri is required"));
    }
    if let Some(r) = args.richness {
        if r < 1 || r > 3 {
            let t = i32_text(r);
            let m = crate::text::cat2("--richness must be 1..=3, got ", t.as_str());
            return Err(Error::new(ErrorKind::Validation, m.as_str()));
        }
    }
    let year_s = i32_text(args.year);
    let mut params: Vec<(String, String)> = Vec::new();
    push_pair(&mut params, "year", year_s.as_str());
    push_opt(&mut params, "place", &args.place);
    push_opt(&mut params, "gg_uri", &args.gg_uri);
    push_opt(&mut params, "province", &args.province);
    push_opt_int(&mut params, "richness", args.richness);
    assert(pair_views(params@) =~= census_plan(*ctx, *args)->Ok_0.pairs);
    let ttl = resolve_ttl(ctx, TtlHint::Never);
    Ok(ApiRequest { path: "/related/census.json".to_owned(), params, ttl, page_limit: None, page_offset: None })
}

/// The census document, as one nested value.
pub fn shape(body: &Json) -> (r: Renderable)
    ensures
        r.shape == Shape::SingleNested,
        r.body@ == body@,
        !r.paginated,
        r.limit is None,
        r.offset is None,
        r.total is None,
{
    Renderable::single_nested(deep_clone(body))
}

/// The schema entry of `census`.
pub fn schema() -> (r: Command)
    ensures
        r.name@ == "census"@,
        r.response_shape@ == "single-nested"@,
        !r.paginated,
        r.cache_ttl_seconds == None::<u64>,
        r.args@.len() == 5,
        r.description@ == "Census records by place or gg URI."@,
        !r.mutating,
        r.cache_ttl_strategy@ == "never"@,
        arg_views(r.args@) == seq![
            (ArgV { name: "--year"@, ty: "integer"@, required: true, positional: false, description: None::<Seq<char>>, default: None::<JsonV>, min: None::<i64>, max: None::<i64>, enum_values: None::<Seq<JsonV>> }),
            (ArgV { name: "--place"@, ty: "string"@, required: false, positional: false, description: None::<Seq<char>>, default: None::<JsonV>, min: None::<i64>, max: None::<i64>, enum_values: None::<Seq<JsonV>> }),
            (ArgV { name: "--gg-uri"@, ty: "string"@, required: false, positional: false, description: None::<Seq<char>>, default: None::<JsonV>, min: None::<i64>, max: None::<i64>, enum_values: None::<Seq<JsonV>> }),
            (ArgV { name: "--province"@, ty: "string"@, required: false, positional: false, description: None::<Seq<char>>, default: None::<JsonV>, min: None::<i64>, max: None::<i64>, enum_values: None::<Seq<JsonV>> }),
            (ArgV { name: "--richness"@, ty: "integer"@, required: false, positional: false, description: None::<Seq<char>>, default: None::<JsonV>, min: Some(1i64), max: Some(3i64), enum_values: Some(seq![option_json(1, "basic"@, "Basic information and population number"@), option_json(2, "full"@, "Like basic, plus all available census data"@), option_json(3, "aggregated"@, "Like full, plus aggregated data about provinces"@)]) }),
        ],
        field_views(r.output_fields@) == Seq::<(Seq<char>, Seq<char>, Option<Seq<char>>)>::empty(),
{
    let mut args: Vec<Arg> = Vec::new();
    args.push(Arg::flag("--year", "integer", true));
    assert(arg_view(args@[0]) == (ArgV { name: "--year"@, ty: "integer"@, required: true, positional: false, description: None::<Seq<char>>, default: None::<JsonV>, min: None::<i64>, max: None::<i64>, enum_values: None::<Seq<JsonV>> }));
    args.push(Arg::flag("--place", "string", false));
    assert(arg_view(args@[1]) == (ArgV { name: "--place"@, ty: "string"@, required: false, positional: false, description: None::<Seq<char>>, default: None::<JsonV>, min: None::<i64>, max: None::<i64>, enum_values: None::<Seq<JsonV>> }));
    args.push(Arg::flag("--gg-uri", "string", false));
    assert(arg_view(args@[2]) == (ArgV { name: "--gg-uri"@, ty: "string"@, required: false, positional: false, description: None::<Seq<char>>, default: None::<JsonV>, min: None::<i64>, max: None::<i64>, enum_values: None::<Seq<JsonV>> }));
    args.push(Arg::flag("--province", "string", false));
    assert(arg_view(args@[3]) == (ArgV { name: "--province"@, ty: "string"@, required: false, positional: false, description: None::<Seq<char>>, default: None::<JsonV>, min: None::<i64>, max: None::<i64>, enum_values: None::<Seq<JsonV>> }));
    let mut a = Arg::flag("--richness", "integer", false);
    a.min = Some(1);
    a.max = Some(3);
    a.enum_values = Some(option_values(&[
        (1, "basic", "Basic information and population number"),
        (2, "full", "Like basic, plus all available census data"),
        (3, "aggregated", "Like full, plus aggregated data about provinces")
    ]));
    args.push(a);
    assert(models(args@[4].enum_values->0@) =~= seq![option_json(1, "basic"@, "Basic information and population number"@), option_json(2, "full"@, "Like basic, plus all available census data"@), option_json(3, "aggregated"@, "Like full, plus aggregated data about provinces"@)]);
    assert(arg_view(args@[4]) == (ArgV { name: "--richness"@, ty: "integer"@, required: false, positional: false, description: None::<Seq<char>>, default: None::<JsonV>, min: Some(1i64), max: Some(3i64), enum_values: Some(seq![option_json(1, "basic"@, "Basic information and population number"@), option_json(2, "full"@, "Like basic, plus all available census data"@), option_json(3, "aggregated"@, "Like full, plus aggregated data about provinces"@)]) }));
    let mut output_fields: Vec<OutputField> = Vec::new();
    assert(arg_views(args@) =~= seq![
        (ArgV { name: "--year"@, ty: "integer"@, required: true, positional: false, description: None::<Seq<char>>, default: None::<JsonV>, min: None::<i64>, max: None::<i64>, enum_values: None::<Seq<JsonV>> }),
        (ArgV { name: "--place"@, ty: "string"@, required: false, positional: false, description: None::<Seq<char>>, default: None::<JsonV>, min: None::<i64>, max: None::<i64>, enum_values: None::<Seq<JsonV>> }),
        (ArgV { name: "--gg-uri"@, ty: "string"@, required: false, positional: false, description: None::<Seq<char>>, default: None::<JsonV>, min: None::<i64>, max: None::<i64>, enum_values: None::<Seq<JsonV>> }),
        (ArgV { name: "--province"@, ty: "string"@, required: false, positional: false, description: None::<Seq<char>>, default: None::<JsonV>, min: None::<i64>, max: None::<i64>, enum_values: None::<Seq<JsonV>> }),
        (ArgV { name: "--richness"@, ty: "integer"@, required: false, positional: false, description: None::<Seq<char>>, default: None::<JsonV>, min: Some(1i64), max: Some(3i64), enum_values: Some(seq![option_json(1, "basic"@, "Basic information and population number"@), option_json(2, "full"@, "Like basic, plus all available census data"@), option_json(3, "aggregated"@, "Like full, plus aggregated data about provinces"@)]) }),
    ]);
    assert(field_views(output_fields@) =~= Seq::<(Seq<char>, Seq<char>, Option<Seq<char>>)>::empty());
    Command {
        name: "census",
        description: "Census records by place or gg URI.",
        mutating: false,
        response_shape: "single-nested",
        paginated: false,
        cache_ttl_seconds: None,
        cache_ttl_strategy: "never",
        args,
        output_fields,
    }
}

} // verus!
