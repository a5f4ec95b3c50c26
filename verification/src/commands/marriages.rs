//! `marriages`: marriage-event records by both partners' names.
use vstd::prelude::*;
use crate::commands::{ApiRequest, planned};
use crate::commands::event_records::{CommonFlags, Endpoint, FlagsV, common_flags_of, event_plan, event_request, parse_common_flags};
use crate::error::{Error, ErrorKind, Result};
use crate::json::{Json, JsonV, models};
use crate::runtime::{ApiContext, verr};
use crate::schema_cmd::{Arg, Command, OutputField, ArgV, arg_view, arg_views, field_views, int_json, option_json};
use crate::text::{cat3, dec, string_views, u64_text};

verus! {

#[derive(Debug, Clone)]
pub struct Args {
    pub name1: String,
    pub name2: String,
    pub flags: CommonFlags,
}

/// The arguments of `marriages` from its tokens: exactly two names, and the
/// filters of [`common_flags_of`] without `--event-province`.
pub open spec fn marriages_args_of(rest: Seq<Seq<char>>) -> core::result::Result<(Seq<char>, Seq<char>, FlagsV), Seq<char>> {
    match common_flags_of(rest, false, "marriages"@) {
        Err(m) => Err(m),
        Ok((p, f)) => if p.len() != 2 {
            Err("marriages: expected <name1> <name2>, got "@ + dec(p.len()) + " positional argument(s)"@)
        } else {
            Ok((p[0], p[1], f))
        },
    }
}

pub fn parse_rest(rest: &[String]) -> (r: Result<Args>)
    ensures
        match marriages_args_of(string_views(rest@)) {
            Ok((n1, n2, f)) => r is Ok && r->Ok_0.name1@ == n1 && r->Ok_0.name2@ == n2 && r->Ok_0.flags@ == f,
            Err(m) => r is Err && r->Err_0@ == verr(m),
        },
{
    let (positional, flags) = match parse_common_flags(rest, false, "marriages") {
        Ok(x) => x,
        Err(e) => return Err(e),
    };
    if positional.len() != 2 {
        let n = u64_text(positional.len() as u64);
        let m = cat3("marriages: expected <name1> <name2>, got ", n.as_str(), " positional argument(s)");
        return Err(Error::new(ErrorKind::Validation, m.as_str()));
    }
    assert(string_views(positional@)[0] == positional@[0]@);
    assert(string_views(positional@)[1] == positional@[1]@);
    Ok(Args { name1: positional[0].clone(), name2: positional[1].clone(), flags })
}

/// The request: `/records/getMarriages.json` with `name` and `name2`; no
/// province filter.
pub fn request(ctx: &ApiContext, args: &Args) -> (r: Result<ApiRequest>)
    ensures
        planned(r, event_plan(
            "marriages"@,
            "/records/getMarriages.json"@,
            false,
            *ctx,
            ("name1"@, args.name1@),
            Some(("name2"@, args.name2@)),
            args.flags@,
        )),
{
    event_request(
        Endpoint { command_name: "marriages", path: "/records/getMarriages.json", allow_province: false },
        ctx,
        ("name1", args.name1.as_str()),
        Some(("name2", args.name2.as_str())),
        &args.flags,
    )
}

/// The schema entry of `marriages`.
pub fn schema() -> (r: Command)
    ensures
        r.name@ == "marriages"@,
        r.response_shape@ == "list"@,
        r.paginated,
        r.cache_ttl_seconds == Some(21600u64),
        r.args@.len() == 6,
        r.description@ == "Marriage-event records by both partners' names."@,
        !r.mutating,
        r.cache_ttl_strategy@ == "fixed"@,
        arg_views(r.args@) == seq![
            (ArgV { name: "name1"@, ty: "string"@, required: true, positional: true, description: None::<Seq<char>>, default: None::<JsonV>, min: None::<i64>, max: None::<i64>, enum_values: None::<Seq<JsonV>> }),
            (ArgV { name: "name2"@, ty: "string"@, required: true, positional: true, description: None::<Seq<char>>, default: None::<JsonV>, min: None::<i64>, max: None::<i64>, enum_values: None::<Seq<JsonV>> }),
            (ArgV { name: "--event-year"@, ty: "integer"@, required: false, positional: false, description: None::<Seq<char>>, default: None::<JsonV>, min: None::<i64>, max: None::<i64>, enum_values: None::<Seq<JsonV>> }),
            (ArgV { name: "--event-place"@, ty: "string"@, required: false, positional: false, description: None::<Seq<char>>, default: None::<JsonV>, min: None::<i64>, max: None::<i64>, enum_values: None::<Seq<JsonV>> }),
            (ArgV { name: "--limit"@, ty: "integer"@, required: false, positional: false, description: None::<Seq<char>>, default: Some(int_json(10)), min: None::<i64>, max: Some(100i64), enum_values: None::<Seq<JsonV>> }),
            (ArgV { name: "--offset"@, ty: "integer"@, required: false, positional: false, description: None::<Seq<char>>, default: Some(int_json(0)), min: None::<i64>, max: None::<i64>, enum_values: None::<Seq<JsonV>> }),
        ],
        field_views(r.output_fields@) == seq![
            ("items"@, "array<record>"@, None::<Seq<char>>),
            ("total"@, "integer | null"@, None::<Seq<char>>),
            ("limit"@, "integer"@, None::<Seq<char>>),
            ("offset"@, "integer"@, None::<Seq<char>>),
            ("paginated"@, "boolean"@, None::<Seq<char>>),
        ],
{
    let mut args: Vec<Arg> = Vec::new();
    args.push(Arg::positional("name1", "string"));
    assert(arg_view(args@[0]) == (ArgV { name: "name1"@, ty: "string"@, required: true, positional: true, description: None::<Seq<char>>, default: None::<JsonV>, min: None::<i64>, max: None::<i64>, enum_values: None::<Seq<JsonV>> }));
    args.push(Arg::positional("name2", "string"));
    assert(arg_view(args@[1]) == (ArgV { name: "name2"@, ty: "string"@, required: true, positional: true, description: None::<Seq<char>>, default: None::<JsonV>, min: None::<i64>, max: None::<i64>, enum_values: None::<Seq<JsonV>> }));
    args.push(Arg::flag("--event-year", "integer", false));
    assert(arg_view(args@[2]) == (ArgV { name: "--event-year"@, ty: "integer"@, required: false, positional: false, description: None::<Seq<char>>, default: None::<JsonV>, min: None::<i64>, max: None::<i64>, enum_values: None::<Seq<JsonV>> }));
    args.push(Arg::flag("--event-place", "string", false));
    assert(arg_view(args@[3]) == (ArgV { name: "--event-place"@, ty: "string"@, required: false, positional: false, description: None::<Seq<char>>, default: None::<JsonV>, min: None::<i64>, max: None::<i64>, enum_values: None::<Seq<JsonV>> }));
    let mut a = Arg::flag("--limit", "integer", false);
    a.default = Some(Json::from_i64(10));
    a.max = Some(100);
    args.push(a);
    assert(arg_view(args@[4]) == (ArgV { name: "--limit"@, ty: "integer"@, required: false, positional: false, description: None::<Seq<char>>, default: Some(int_json(10)), min: None::<i64>, max: Some(100i64), enum_values: None::<Seq<JsonV>> }));
    let mut a = Arg::flag("--offset", "integer", false);
    a.default = Some(Json::from_i64(0));
    args.push(a);
    assert(arg_view(args@[5]) == (ArgV { name: "--offset"@, ty: "integer"@, required: false, positional: false, description: None::<Seq<char>>, default: Some(int_json(0)), min: None::<i64>, max: None::<i64>, enum_values: None::<Seq<JsonV>> }));
    let mut output_fields: Vec<OutputField> = Vec::new();
    output_fields.push(OutputField { name: "items", ty: "array<record>", description: None });
    output_fields.push(OutputField { name: "total", ty: "integer | null", description: None });
    output_fields.push(OutputField { name: "limit", ty: "integer", description: None });
    output_fields.push(OutputField { name: "offset", ty: "integer", description: None });
    output_fields.push(OutputField { name: "paginated", ty: "boolean", description: None });
    assert(arg_views(args@) =~= seq![
        (ArgV { name: "name1"@, ty: "string"@, required: true, positional: true, description: None::<Seq<char>>, default: None::<JsonV>, min: None::<i64>, max: None::<i64>, enum_values: None::<Seq<JsonV>> }),
        (ArgV { name: "name2"@, ty: "string"@, required: true, positional: true, description: None::<Seq<char>>, default: None::<JsonV>, min: None::<i64>, max: None::<i64>, enum_values: None::<Seq<JsonV>> }),
        (ArgV { name: "--event-year"@, ty: "integer"@, required: false, positional: false, description: None::<Seq<char>>, default: None::<JsonV>, min: None::<i64>, max: None::<i64>, enum_values: None::<Seq<JsonV>> }),
        (ArgV { name: "--event-place"@, ty: "string"@, required: false, positional: false, description: None::<Seq<char>>, default: None::<JsonV>, min: None::<i64>, max: None::<i64>, enum_values: None::<Seq<JsonV>> }),
        (ArgV { name: "--limit"@, ty: "integer"@, required: false, positional: false, description: None::<Seq<char>>, default: Some(int_json(10)), min: None::<i64>, max: Some(100i64), enum_values: None::<Seq<JsonV>> }),
        (ArgV { name: "--offset"@, ty: "integer"@, required: false, positional: false, description: None::<Seq<char>>, default: Some(int_json(0)), min: None::<i64>, max: None::<i64>, enum_values: None::<Seq<JsonV>> }),
    ]);
    assert(field_views(output_fields@) =~= seq![
        ("items"@, "array<record>"@, None::<Seq<char>>),
        ("total"@, "integer | null"@, None::<Seq<char>>),
        ("limit"@, "integer"@, None::<Seq<char>>),
        ("offset"@, "integer"@, None::<Seq<char>>),
        ("paginated"@, "boolean"@, None::<Seq<char>>),
    ]);
    Command {
        name: "marriages",
        description: "Marriage-event records by both partners' names.",
        mutating: false,
        response_shape: "list",
        paginated: true,
        cache_ttl_seconds: Some(21600),
        cache_ttl_strategy: "fixed",
        args,
        output_fields,
    }
}

} // verus!
