//! `weather`: historical weather observations for a date and coordinate.
use vstd::prelude::*;
use crate::cli::{float_syntax, is_float_text};
use crate::commands::{ApiRequest, RequestV, lang_choice_error, lang_choice_message, planned, push_pair};
use crate::cache::pair_views;
use crate::client::TtlHint;
use crate::error::{Error, ErrorKind, Result};
use crate::json::{Json, JsonV, deep_clone, models, lemma_models_index, lemma_models_push};
use crate::output::{Renderable, Shape};
use crate::runtime::{ApiContext, resolve_ttl, ttl_of, verr};
use crate::schema_cmd::{Arg, Command, OutputField, str_values, ArgV, arg_view, arg_views, field_views, int_json, option_json};
use crate::text::{all_digits, cat2, cat3, chars_of, debug_str, debug_text, is_digit, split_chars, split_seq, str_in, string_views, views};

verus! {

#[derive(Debug, Clone)]
pub struct Args {
    pub date: String,
    pub longitude: String,
    pub latitude: String,
}

impl Default for Args {
    /// Empty values, no filter.
    fn default() -> (r: Args)
        ensures
            r.date@.len() == 0,
            r.longitude@.len() == 0,
            r.latitude@.len() == 0,
    {
        Args {
            date: String::new(),
            longitude: String::new(),
            latitude: String::new(),
        }
    }
}

/// `YYYY-MM-DD`: three `-`-separated parts of four, two and two ASCII digits.
pub open spec fn iso_date_ok(s: Seq<char>) -> bool {
    let parts = split_seq(s, '-');
    &&& parts.len() == 3
    &&& parts[0].len() == 4 && all_digits(parts[0])
    &&& parts[1].len() == 2 && all_digits(parts[1])
    &&& parts[2].len() == 2 && all_digits(parts[2])
}

fn digits_of_len(s: &str, n: usize) -> (r: bool)
    ensures
        r == (s@.len() == n && all_digits(s@)),
{
    let v = chars_of(s);
    if v.len() != n {
        return false;
    }
    let mut i: usize = 0;
    while i < v.len()
        invariant
            i <= v@.len(),
            v@ == s@,
            forall|j: int| 0 <= j < i ==> is_digit(#[trigger] s@[j]),
        decreases v@.len() - i,
    {
        if !('0' <= v[i] && v[i] <= '9') {
            return false;
        }
        i = i + 1;
    }
    true
}

/// Checks that `--date` is `YYYY-MM-DD` (see [`iso_date_ok`]).
pub fn validate_iso_date(s: &str) -> (r: Result<()>)
    ensures
        iso_date_ok(s@) ==> r is Ok,
        !iso_date_ok(s@) ==> r is Err && r->Err_0@ == verr("--date must be YYYY-MM-DD, got "@ + debug_text(s@)),
{
    let v = chars_of(s);
    let parts = split_chars(&v, 0, v.len(), '-');
    assert(v@.subrange(0, v@.len() as int) =~= s@);
    let ok = parts.len() == 3
        && digits_of_len(parts[0].as_str(), 4)
        && digits_of_len(parts[1].as_str(), 2)
        && digits_of_len(parts[2].as_str(), 2);
    proof {
        if parts@.len() == 3 {
            assert(string_views(parts@)[0] == parts@[0]@);
            assert(string_views(parts@)[1] == parts@[1]@);
            assert(string_views(parts@)[2] == parts@[2]@);
        }
    }
    if ok {
        Ok(())
    } else {
        let d = debug_str(s);
        let m = cat2("--date must be YYYY-MM-DD, got ", d.as_str());
        Err(Error::new(ErrorKind::Validation, m.as_str()))
    }
}

/// Checks that a coordinate is a decimal number (what `f64::from_str` accepts).
pub fn validate_decimal(s: &str, name: &str) -> (r: Result<()>)
    ensures
        float_syntax(s@) ==> r is Ok,
        !float_syntax(s@) ==> r is Err && r->Err_0@ == verr(name@ + " must be a decimal number, got "@ + debug_text(s@)),
{
    if is_float_text(s) {
        Ok(())
    } else {
        let d = debug_str(s);
        let m = cat3(name, " must be a decimal number, got ", d.as_str());
        Err(Error::new(ErrorKind::Validation, m.as_str()))
    }
}

/// The request of `weather`: no pagination, Dutch or English, a
/// `YYYY-MM-DD` date and decimal coordinates; cached for good.
pub open spec fn weather_plan(ctx: ApiContext, a: Args) -> core::result::Result<RequestV, Seq<char>> {
    if ctx.limit is Some || ctx.offset is Some {
        Err("--limit/--offset are not supported by `weather`"@)
    } else if !(ctx.lang@ == "nl"@ || ctx.lang@ == "en"@) {
        Err(lang_choice_message("[\"nl\", \"en\"]"@, ctx.lang@))
    } else if !iso_date_ok(a.date@) {
        Err("--date must be YYYY-MM-DD, got "@ + debug_text(a.date@))
    } else if !float_syntax(a.longitude@) {
        Err("--longitude"@ + " must be a decimal number, got "@ + debug_text(a.longitude@))
    } else if !float_syntax(a.latitude@) {
        Err("--latitude"@ + " must be a decimal number, got "@ + debug_text(a.latitude@))
    } else {
        Ok(RequestV {
            path: "/related/weather.json"@,
            pairs: seq![
                ("date"@, a.date@),
                ("longitude"@, a.longitude@),
                ("latitude"@, a.latitude@),
                ("lang"@, ctx.lang@),
            ],
            ttl: ttl_of(ctx.cache_ttl_override, TtlHint::Never),
            page_limit: None,
            page_offset: None,
        })
    }
}

pub fn request(ctx: &ApiContext, args: &Args) -> (r: Result<ApiRequest>)
    ensures
        planned(r, weather_plan(*ctx, *args)),
{
    if ctx.limit.is_some() || ctx.offset.is_some() {
        return Err(Error::new(ErrorKind::Validation, "--limit/--offset are not supported by `weather`"));
    }
    let langs = ["nl", "en"];
    assert(views(langs@) =~= seq!["nl"@, "en"@]);
    if !str_in(ctx.lang.as_str(), &langs) {
        return Err(lang_choice_error("[\"nl\", \"en\"]", ctx.lang.as_str()));
    }
    if let Err(e) = validate_iso_date(args.date.as_str()) {
        return Err(e);
    }
    if let Err(e) = validate_decimal(args.longitude.as_str(), "--longitude") {
        return Err(e);
    }
    if let Err(e) = validate_decimal(args.latitude.as_str(), "--latitude") {
        return Err(e);
    }
    let mut params: Vec<(String, String)> = Vec::new();
    push_pair(&mut params, "date", args.date.as_str());
    push_pair(&mut params, "longitude", args.longitude.as_str());
    push_pair(&mut params, "latitude", args.latitude.as_str());
    push_pair(&mut params, "lang", ctx.lang.as_str());
    assert(pair_views(params@) =~= weather_plan(*ctx, *args)->Ok_0.pairs);
    let ttl = resolve_ttl(ctx, TtlHint::Never);
    Ok(ApiRequest { path: "/related/weather.json".to_owned(), params, ttl, page_limit: None, page_offset: None })
}

/// The observations of a body: an array as is, a single object as a list
/// of one, anything else as none.
pub open spec fn observations(body: JsonV) -> Seq<JsonV> {
    match body {
        JsonV::Array(xs) => xs,
        JsonV::Object(_) => seq![body],
        _ => Seq::empty(),
    }
}

/// The observations as an unpaginated list; the total is their number.
pub fn shape(body: &Json) -> (r: Renderable)
    ensures
        r.shape == Shape::List,
        r.body@ == JsonV::Array(observations(body@)),
        !r.paginated,
        r.limit is None,
        r.offset is None,
        r.total == Some(observations(body@).len() as u64),
{
    let (items, n) = match body {
        Json::Array(xs) => {
            proof {
                lemma_models_index(xs@);
            }
            (deep_clone(body), xs.len() as u64)
        },
        Json::Object(_) => {
            let mut v: Vec<Json> = Vec::new();
            let c = deep_clone(body);
            v.push(c);
            proof {
                lemma_models_push(Seq::empty(), c);
                assert(Seq::<Json>::empty().push(c) =~= v@);
                assert(models(Seq::<Json>::empty()) =~= Seq::<JsonV>::empty());
            }
            (Json::Array(v), 1u64)
        },
        _ => (Json::empty_array(), 0u64),
    };
    Renderable::list(items, false, None, None).with_total(Some(n))
}

/// The schema entry of `weather`.
pub fn schema() -> (r: Command)
    ensures
        r.name@ == "weather"@,
        r.response_shape@ == "list"@,
        !r.paginated,
        r.cache_ttl_seconds == None::<u64>,
        r.args@.len() == 4,
        r.description@ == "Historical weather observations for a date and coordinate."@,
        !r.mutating,
        r.cache_ttl_strategy@ == "never"@,
        arg_views(r.args@) == seq![
            (ArgV { name: "--date"@, ty: "string"@, required: true, positional: false, description: None::<Seq<char>>, default: None::<JsonV>, min: None::<i64>, max: None::<i64>, enum_values: None::<Seq<JsonV>> }),
            (ArgV { name: "--longitude"@, ty: "number"@, required: true, positional: false, description: None::<Seq<char>>, default: None::<JsonV>, min: None::<i64>, max: None::<i64>, enum_values: None::<Seq<JsonV>> }),
            (ArgV { name: "--latitude"@, ty: "number"@, required: true, positional: false, description: None::<Seq<char>>, default: None::<JsonV>, min: None::<i64>, max: None::<i64>, enum_values: None::<Seq<JsonV>> }),
            (ArgV { name: "--lang"@, ty: "string"@, required: false, positional: false, description: None::<Seq<char>>, default: Some(JsonV::Str("nl"@)), min: None::<i64>, max: None::<i64>, enum_values: Some(seq![JsonV::Str("nl"@), JsonV::Str("en"@)]) }),
        ],
        field_views(r.output_fields@) == seq![
            ("items"@, "array<observation>"@, None::<Seq<char>>),
            ("total"@, "integer"@, None::<Seq<char>>),
            ("limit"@, "null"@, None::<Seq<char>>),
            ("offset"@, "null"@, None::<Seq<char>>),
            ("paginated"@, "boolean"@, None::<Seq<char>>),
        ],
{
    let mut args: Vec<Arg> = Vec::new();
    args.push(Arg::flag("--date", "string", true));
    assert(arg_view(args@[0]) == (ArgV { name: "--date"@, ty: "string"@, required: true, positional: false, description: None::<Seq<char>>, default: None::<JsonV>, min: None::<i64>, max: None::<i64>, enum_values: None::<Seq<JsonV>> }));
    args.push(Arg::flag("--longitude", "number", true));
    assert(arg_view(args@[1]) == (ArgV { name: "--longitude"@, ty: "number"@, required: true, positional: false, description: None::<Seq<char>>, default: None::<JsonV>, min: None::<i64>, max: None::<i64>, enum_values: None::<Seq<JsonV>> }));
    args.push(Arg::flag("--latitude", "number", true));
    assert(arg_view(args@[2]) == (ArgV { name: "--latitude"@, ty: "number"@, required: true, positional: false, description: None::<Seq<char>>, default: None::<JsonV>, min: None::<i64>, max: None::<i64>, enum_values: None::<Seq<JsonV>> }));
    let mut a = Arg::flag("--lang", "string", false);
    a.default = Some(Json::string("nl"));
    a.enum_values = Some(str_values(&["nl", "en"]));
    args.push(a);
    assert(models(args@[3].enum_values->0@) =~= seq![JsonV::Str("nl"@), JsonV::Str("en"@)]);
    assert(arg_view(args@[3]) == (ArgV { name: "--lang"@, ty: "string"@, required: false, positional: false, description: None::<Seq<char>>, default: Some(JsonV::Str("nl"@)), min: None::<i64>, max: None::<i64>, enum_values: Some(seq![JsonV::Str("nl"@), JsonV::Str("en"@)]) }));
    let mut output_fields: Vec<OutputField> = Vec::new();
    output_fields.push(OutputField { name: "items", ty: "array<observation>", description: None });
    output_fields.push(OutputField { name: "total", ty: "integer", description: None });
    output_fields.push(OutputField { name: "limit", ty: "null", description: None });
    output_fields.push(OutputField { name: "offset", ty: "null", description: None });
    output_fields.push(OutputField { name: "paginated", ty: "boolean", description: None });
    assert(arg_views(args@) =~= seq![
        (ArgV { name: "--date"@, ty: "string"@, required: true, positional: false, description: None::<Seq<char>>, default: None::<JsonV>, min: None::<i64>, max: None::<i64>, enum_values: None::<Seq<JsonV>> }),
        (ArgV { name: "--longitude"@, ty: "number"@, required: true, positional: false, description: None::<Seq<char>>, default: None::<JsonV>, min: None::<i64>, max: None::<i64>, enum_values: None::<Seq<JsonV>> }),
        (ArgV { name: "--latitude"@, ty: "number"@, required: true, positional: false, description: None::<Seq<char>>, default: None::<JsonV>, min: None::<i64>, max: None::<i64>, enum_values: None::<Seq<JsonV>> }),
        (ArgV { name: "--lang"@, ty: "string"@, required: false, positional: false, description: None::<Seq<char>>, default: Some(JsonV::Str("nl"@)), min: None::<i64>, max: None::<i64>, enum_values: Some(seq![JsonV::Str("nl"@), JsonV::Str("en"@)]) }),
    ]);
    assert(field_views(output_fields@) =~= seq![
        ("items"@, "array<observation>"@, None::<Seq<char>>),
        ("total"@, "integer"@, None::<Seq<char>>),
        ("limit"@, "null"@, None::<Seq<char>>),
        ("offset"@, "null"@, None::<Seq<char>>),
        ("paginated"@, "boolean"@, None::<Seq<char>>),
    ]);
    Command {
        name: "weather",
        description: "Historical weather observations for a date and coordinate.",
        mutating: false,
        response_shape: "list",
        paginated: false,
        cache_ttl_seconds: None,
        cache_ttl_strategy: "never",
        args,
        output_fields,
    }
}

} // verus!
