//! The static schema document: the contract between this CLI and its
//! consumers, and its JSON form.
use vstd::prelude::*;
use crate::error::ErrorKind;
use crate::json::{Json, JsonV, dec_json_u64, lemma_pair_models_push, lemma_models_push, models, pair_models};
use crate::text::{dec_int, views};

verus! {

pub struct Schema {
    pub name: &'static str,
    pub version: String,
    pub base_url: &'static str,
    pub rate_limit: RateLimit,
    pub output_formats: Vec<&'static str>,
    pub global_args: Vec<GlobalArg>,
    pub env_vars: Vec<EnvVar>,
    pub cache: CacheInfo,
    pub commands: Vec<Command>,
    pub errors: Vec<ErrorEntry>,
}

#[derive(Debug, Clone)]
pub struct GlobalArg {
    pub name: &'static str,
    pub short: Option<&'static str>,
    pub ty: &'static str,
    pub required: bool,
    pub description: Option<&'static str>,
}

#[derive(Debug, Clone)]
pub struct RateLimit {
    pub requests_per_second: u32,
    pub scope: &'static str,
}

#[derive(Debug, Clone)]
pub struct EnvVar {
    pub name: &'static str,
    pub effect: &'static str,
}

#[derive(Debug, Clone)]
pub struct CacheInfo {
    pub default_dir_template: &'static str,
    pub file_permissions: &'static str,
    pub dir_permissions: &'static str,
}

/// One command of the schema. `response_shape` is `list`, `single-flat`,
/// `single-nested`, `schema` or `none`; `cache_ttl_strategy` is `fixed`,
/// `until_midnight`, `never` or `none`.
pub struct Command {
    pub name: &'static str,
    pub description: &'static str,
    pub mutating: bool,
    pub response_shape: &'static str,
    pub paginated: bool,
    pub cache_ttl_seconds: Option<u64>,
    pub cache_ttl_strategy: &'static str,
    pub args: Vec<Arg>,
    pub output_fields: Vec<OutputField>,
}

/// One argument of a command; the optional parts are left out of the JSON
/// form when absent. `enum_values` is written as `enum`.
pub struct Arg {
    pub name: &'static str,
    pub ty: &'static str,
    pub required: bool,
    pub positional: bool,
    pub description: Option<&'static str>,
    pub default: Option<Json>,
    pub min: Option<i64>,
    pub max: Option<i64>,
    pub enum_values: Option<Vec<Json>>,
}

#[derive(Debug, Clone)]
pub struct OutputField {
    pub name: &'static str,
    pub ty: &'static str,
    pub description: Option<&'static str>,
}

#[derive(Debug, Clone)]
pub struct ErrorEntry {
    pub kind: &'static str,
    pub retryable: bool,
    pub exit_code: u8,
    pub fields: Vec<&'static str>,
}

// ---------------------------------------------------------------------------
// Building commands and arguments.

impl Arg {
    /// A positional argument.
    pub fn positional(name: &'static str, ty: &'static str) -> (r: Arg)
        ensures
            r.name == name,
            r.ty == ty,
            r.required,
            r.positional,
            r.description is None,
            r.default is None,
            r.min is None,
            r.max is None,
            r.enum_values is None,
    {
        Arg {
            name,
            ty,
            required: true,
            positional: true,
            description: None,
            default: None,
            min: None,
            max: None,
            enum_values: None,
        }
    }

    /// A `--flag` argument.
    pub fn flag(name: &'static str, ty: &'static str, required: bool) -> (r: Arg)
        ensures
            r.name == name,
            r.ty == ty,
            r.required == required,
            !r.positional,
            r.description is None,
            r.default is None,
            r.min is None,
            r.max is None,
            r.enum_values is None,
    {
        Arg {
            name,
            ty,
            required,
            positional: false,
            description: None,
            default: None,
            min: None,
            max: None,
            enum_values: None,
        }
    }
}

/// An argument as plain values.
pub struct ArgV {
    pub name: Seq<char>,
    pub ty: Seq<char>,
    pub required: bool,
    pub positional: bool,
    pub description: Option<Seq<char>>,
    pub default: Option<JsonV>,
    pub min: Option<i64>,
    pub max: Option<i64>,
    pub enum_values: Option<Seq<JsonV>>,
}

pub open spec fn arg_view(a: Arg) -> ArgV {
    ArgV {
        name: a.name@,
        ty: a.ty@,
        required: a.required,
        positional: a.positional,
        description: match a.description { Some(d) => Some(d@), None => None },
        default: match a.default { Some(d) => Some(d@), None => None },
        min: a.min,
        max: a.max,
        enum_values: match a.enum_values { Some(v) => Some(models(v@)), None => None },
    }
}

/// A command's arguments as plain values, in order.
pub open spec fn arg_views(args: Seq<Arg>) -> Seq<ArgV> {
    args.map_values(|a: Arg| arg_view(a))
}

/// An output field as plain values: name, type, description.
pub open spec fn field_view(f: OutputField) -> (Seq<char>, Seq<char>, Option<Seq<char>>) {
    (f.name@, f.ty@, match f.description { Some(d) => Some(d@), None => None })
}

/// A command's output fields as plain values, in order.
pub open spec fn field_views(fields: Seq<OutputField>) -> Seq<(Seq<char>, Seq<char>, Option<Seq<char>>)> {
    fields.map_values(|f: OutputField| field_view(f))
}

pub fn field(name: &'static str, ty: &'static str) -> (r: OutputField)
    ensures
        r.name == name,
        r.ty == ty,
        r.description is None,
{
    OutputField { name, ty, description: None }
}

/// Strings as JSON string values.
pub fn str_values(items: &[&str]) -> (r: Vec<Json>)
    ensures
        models(r@) == views(items@).map_values(|s: Seq<char>| JsonV::Str(s)),
{
    let mut r: Vec<Json> = Vec::new();
    let mut i: usize = 0;
    while i < items.len()
        invariant
            i <= items@.len(),
            models(r@) == views(items@).subrange(0, i as int).map_values(|s: Seq<char>| JsonV::Str(s)),
        decreases items@.len() - i,
    {
        let ghost before = r@;
        r.push(Json::string(items[i]));
        proof {
            lemma_models_push(before, r@.last());
            assert(before.push(r@.last()) =~= r@);
            assert(views(items@).subrange(0, i + 1).map_values(|s: Seq<char>| JsonV::Str(s)) =~= views(
                items@,
            ).subrange(0, i as int).map_values(|s: Seq<char>| JsonV::Str(s)).push(JsonV::Str(items@[i as int]@)));
        }
        i = i + 1;
    }
    assert(views(items@).subrange(0, items@.len() as int) =~= views(items@));
    r
}

/// Integers as JSON number values.
pub fn int_values(items: &[i64]) -> (r: Vec<Json>)
    ensures
        models(r@) == items@.map_values(|n: i64| int_json(n)),
{
    let mut r: Vec<Json> = Vec::new();
    let mut i: usize = 0;
    while i < items.len()
        invariant
            i <= items@.len(),
            models(r@) == items@.subrange(0, i as int).map_values(|n: i64| int_json(n)),
        decreases items@.len() - i,
    {
        let x = Json::from_i64(items[i]);
        let ghost before = r@;
        r.push(x);
        proof {
            crate::json::lemma_models_push(before, x);
        }
        i = i + 1;
        assert(items@.subrange(0, i as int).map_values(|n: i64| int_json(n))
            =~= items@.subrange(0, i - 1).map_values(|n: i64| int_json(n)).push(int_json(items@[i - 1])));
    }
    assert(items@.subrange(0, items@.len() as int) =~= items@);
    r
}

// ---------------------------------------------------------------------------
// The error block.

/// The error kinds, in the order the schema lists them.
pub open spec fn all_kinds() -> Seq<ErrorKind> {
    seq![
        ErrorKind::Validation,
        ErrorKind::NotFound,
        ErrorKind::RateLimit,
        ErrorKind::Timeout,
        ErrorKind::Network,
        ErrorKind::Server,
        ErrorKind::Parse,
        ErrorKind::Conflict,
    ]
}

/// The fields of the error payload of a kind.
pub open spec fn payload_fields(k: ErrorKind) -> Seq<Seq<char>> {
    match k {
        ErrorKind::Validation => seq!["kind"@, "message"@, "upstream_code"@, "upstream_message"@],
        ErrorKind::RateLimit => seq!["kind"@, "message"@, "retry_after_seconds"@],
        _ => seq!["kind"@, "message"@],
    }
}

fn error_entry(k: ErrorKind) -> (r: ErrorEntry)
    ensures
        r.kind@ == k.name(),
        r.retryable == k.is_retryable(),
        r.exit_code == k.code(),
        views(r.fields@) == payload_fields(k),
{
    let fields = match k {
        ErrorKind::Validation => vec!["kind", "message", "upstream_code", "upstream_message"],
        ErrorKind::RateLimit => vec!["kind", "message", "retry_after_seconds"],
        _ => vec!["kind", "message"],
    };
    assert(views(fields@) =~= payload_fields(k));
    ErrorEntry { kind: k.as_str(), retryable: k.retryable(), exit_code: k.exit_code(), fields }
}

/// The error block: one entry per kind, with the kind's name, retry policy,
/// exit code and payload fields.
pub fn errors() -> (r: Vec<ErrorEntry>)
    ensures
        r@.len() == all_kinds().len(),
        forall|i: int| 0 <= i < r@.len() ==> {
            let k = #[trigger] all_kinds()[i];
            &&& r@[i].kind@ == k.name()
            &&& r@[i].retryable == k.is_retryable()
            &&& r@[i].exit_code == k.code()
            &&& views(r@[i].fields@) == payload_fields(k)
        },
{
    let mut r: Vec<ErrorEntry> = Vec::new();
    r.push(error_entry(ErrorKind::Validation));
    r.push(error_entry(ErrorKind::NotFound));
    r.push(error_entry(ErrorKind::RateLimit));
    r.push(error_entry(ErrorKind::Timeout));
    r.push(error_entry(ErrorKind::Network));
    r.push(error_entry(ErrorKind::Server));
    r.push(error_entry(ErrorKind::Parse));
    r.push(error_entry(ErrorKind::Conflict));
    r
}

// ---------------------------------------------------------------------------
// Global arguments.

fn global_arg(name: &'static str, short: Option<&'static str>, ty: &'static str, description: &'static str) -> (r: GlobalArg)
    ensures
        r.name == name,
        r.short == short,
        r.ty == ty,
        !r.required,
        r.description == Some(description),
{
    GlobalArg { name, short, ty, required: false, description: Some(description) }
}

/// A global flag as plain values: name, short form, type, description.
pub open spec fn global_arg_view(g: GlobalArg) -> (Seq<char>, Option<Seq<char>>, Seq<char>, Option<Seq<char>>) {
    (g.name@, match g.short { Some(x) => Some(x@), None => None }, g.ty@, match g.description { Some(d) => Some(d@), None => None })
}

/// The global flags as plain values, in the order the schema lists them.
pub open spec fn global_arg_table() -> Seq<(Seq<char>, Option<Seq<char>>, Seq<char>, Option<Seq<char>>)> {
    seq![
        ("--output"@, Some("-o"@), "string"@, Some("Output format: json, ndjson, table, text, markdown"@)),
        ("--pretty"@, None::<Seq<char>>, "bool"@, Some("Pretty-print JSON output"@)),
        ("--quiet"@, Some("-q"@), "bool"@, Some("Suppress stderr progress output"@)),
        ("--no-color"@, None::<Seq<char>>, "bool"@, Some("Disable ANSI colors"@)),
        ("--no-cache"@, None::<Seq<char>>, "bool"@, Some("Bypass cache read and write for this invocation"@)),
        ("--refresh"@, None::<Seq<char>>, "bool"@, Some("Bypass cache read; still write"@)),
        ("--cache-ttl"@, None::<Seq<char>>, "string"@, Some("Override cache TTL (e.g. 1h, inf, 0)"@)),
        ("--cache-dir"@, None::<Seq<char>>, "string"@, Some("Override cache directory"@)),
        ("--fields"@, None::<Seq<char>>, "string"@, Some("Top-level field projection (comma-separated)"@)),
        ("--limit"@, None::<Seq<char>>, "integer"@, Some("Pagination limit where supported"@)),
        ("--offset"@, None::<Seq<char>>, "integer"@, Some("Pagination offset where supported"@)),
        ("--lang"@, None::<Seq<char>>, "string"@, Some("Response language (default: nl)"@)),
        ("--timeout"@, None::<Seq<char>>, "string"@, Some("Per-request timeout (e.g. 30s, 1m, 500ms)"@)),
    ]
}

/// The flags every command takes.
pub fn global_args() -> (r: Vec<GlobalArg>)
    ensures
        r@.len() == 13,
        r@.map_values(|g: GlobalArg| global_arg_view(g)) == global_arg_table(),
        forall|i: int| 0 <= i < r@.len() ==> !(#[trigger] r@[i]).required,
{
    let mut r: Vec<GlobalArg> = Vec::new();
    r.push(global_arg("--output", Some("-o"), "string", "Output format: json, ndjson, table, text, markdown"));
    r.push(global_arg("--pretty", None, "bool", "Pretty-print JSON output"));
    r.push(global_arg("--quiet", Some("-q"), "bool", "Suppress stderr progress output"));
    r.push(global_arg("--no-color", None, "bool", "Disable ANSI colors"));
    r.push(global_arg("--no-cache", None, "bool", "Bypass cache read and write for this invocation"));
    r.push(global_arg("--refresh", None, "bool", "Bypass cache read; still write"));
    r.push(global_arg("--cache-ttl", None, "string", "Override cache TTL (e.g. 1h, inf, 0)"));
    r.push(global_arg("--cache-dir", None, "string", "Override cache directory"));
    r.push(global_arg("--fields", None, "string", "Top-level field projection (comma-separated)"));
    r.push(global_arg("--limit", None, "integer", "Pagination limit where supported"));
    r.push(global_arg("--offset", None, "integer", "Pagination offset where supported"));
    r.push(global_arg("--lang", None, "string", "Response language (default: nl)"));
    r.push(global_arg("--timeout", None, "string", "Per-request timeout (e.g. 30s, 1m, 500ms)"));
    assert(r@.map_values(|g: GlobalArg| global_arg_view(g)) =~= global_arg_table());
    r
}

// ---------------------------------------------------------------------------
// Choice lists of `{value, label, description}` objects.

/// A documented choice: `{"description": .., "label": .., "value": ..}` (the
/// members in name order, as a `json!` object holds them).
pub open spec fn option_json(value: i64, label: Seq<char>, description: Seq<char>) -> JsonV {
    JsonV::Object(seq![
        ("description"@, JsonV::Str(description)),
        ("label"@, JsonV::Str(label)),
        ("value"@, int_json(value)),
    ])
}

/// An integer as `json!(n)` holds it.
pub open spec fn int_json(n: i64) -> JsonV {
    JsonV::Number(dec_int(n as int), Some(n), if n >= 0 { Some(n as u64) } else { None })
}

/// The documented choices, in order.
pub fn option_values(items: &[(i64, &str, &str)]) -> (r: Vec<Json>)
    ensures
        models(r@) == Seq::new(items@.len(), |i: int| option_json(items@[i].0, items@[i].1@, items@[i].2@)),
{
    let mut r: Vec<Json> = Vec::new();
    let mut i: usize = 0;
    while i < items.len()
        invariant
            i <= items@.len(),
            models(r@) == Seq::new(i as nat, |j: int| option_json(items@[j].0, items@[j].1@, items@[j].2@)),
        decreases items@.len() - i,
    {
        let (v, l, d) = items[i];
        let mut members: Vec<(String, Json)> = Vec::new();
        member(&mut members, "description", Json::string(d));
        member(&mut members, "label", Json::string(l));
        member(&mut members, "value", Json::from_i64(v));
        let ghost before = r@;
        let o = Json::Object(members);
        assert(o@ == option_json(v, l@, d@)) by {
            assert(pair_models(members@) =~= seq![
                ("description"@, JsonV::Str(d@)),
                ("label"@, JsonV::Str(l@)),
                ("value"@, int_json(v)),
            ]);
        }
        r.push(o);
        proof {
            lemma_models_push(before, o);
            assert(before.push(o) =~= r@);
            assert(models(r@) =~= Seq::new((i + 1) as nat, |j: int| option_json(items@[j].0, items@[j].1@, items@[j].2@)));
        }
        i = i + 1;
    }
    r
}

// ---------------------------------------------------------------------------
// The JSON form.

/// Appends the member `k: v` to an object's members.
pub fn member(members: &mut Vec<(String, Json)>, k: &str, v: Json)
    ensures
        pair_models(final(members)@) == pair_models(old(members)@).push((k@, v@)),
{
    let ghost before = members@;
    let pair = (k.to_owned(), v);
    let ghost p = pair;
    members.push(pair);
    proof {
        lemma_pair_models_push(before, p);
        assert(before.push(p) =~= members@);
    }
}

/// A string slice as a JSON string.
pub open spec fn str_json(s: &str) -> JsonV {
    JsonV::Str(s@)
}

/// `Some(s)` as a string, `None` as `null`.
pub open spec fn opt_str_json(o: Option<&'static str>) -> JsonV {
    match o {
        Some(s) => JsonV::Str(s@),
        None => JsonV::Null,
    }
}

/// The member `k: s` when `s` is given, nothing otherwise.
pub open spec fn opt_str_member(k: Seq<char>, o: Option<&'static str>) -> Seq<(Seq<char>, JsonV)> {
    match o {
        Some(s) => seq![(k, JsonV::Str(s@))],
        None => Seq::empty(),
    }
}

/// The member `k: n` when `n` is given.
pub open spec fn opt_int_member(k: Seq<char>, o: Option<i64>) -> Seq<(Seq<char>, JsonV)> {
    match o {
        Some(n) => seq![(k, int_json(n))],
        None => Seq::empty(),
    }
}

fn push_opt_str(members: &mut Vec<(String, Json)>, k: &str, o: Option<&'static str>)
    ensures
        pair_models(final(members)@) == pair_models(old(members)@) + opt_str_member(k@, o),
{
    match o {
        Some(s) => member(members, k, Json::string(s)),
        None => {},
    }
    assert(pair_models(members@) =~= pair_models(old(members)@) + opt_str_member(k@, o));
}

fn push_opt_int(members: &mut Vec<(String, Json)>, k: &str, o: Option<i64>)
    ensures
        pair_models(final(members)@) == pair_models(old(members)@) + opt_int_member(k@, o),
{
    match o {
        Some(n) => member(members, k, Json::from_i64(n)),
        None => {},
    }
    assert(pair_models(members@) =~= pair_models(old(members)@) + opt_int_member(k@, o));
}

/// The JSON form of an argument: `name`, `type`, `required`, `positional`,
/// then `description`, `default`, `min`, `max` and `enum` where given.
pub open spec fn arg_json(a: Arg) -> JsonV {
    JsonV::Object(
        seq![
            ("name"@, JsonV::Str(a.name@)),
            ("type"@, JsonV::Str(a.ty@)),
            ("required"@, JsonV::Bool(a.required)),
            ("positional"@, JsonV::Bool(a.positional)),
        ] + opt_str_member("description"@, a.description)
          + match a.default { Some(d) => seq![("default"@, d@)], None => Seq::empty() }
          + opt_int_member("min"@, a.min)
          + opt_int_member("max"@, a.max)
          + match a.enum_values { Some(v) => seq![("enum"@, JsonV::Array(models(v@)))], None => Seq::empty() },
    )
}

/// A copy of a list of values.
fn clone_all(v: &Vec<Json>) -> (r: Vec<Json>)
    ensures
        models(r@) == models(v@),
{
    let mut r: Vec<Json> = Vec::new();
    let mut i: usize = 0;
    proof {
        crate::json::lemma_models_index(v@);
    }
    while i < v.len()
        invariant
            i <= v@.len(),
            models(v@).len() == v@.len(),
            forall|j: int| 0 <= j < v@.len() ==> #[trigger] models(v@)[j] == v@[j]@,
            models(r@) == models(v@).subrange(0, i as int),
        decreases v@.len() - i,
    {
        let ghost before = r@;
        let c = crate::json::deep_clone(&v[i]);
        r.push(c);
        proof {
            lemma_models_push(before, c);
            assert(before.push(c) =~= r@);
            assert(models(v@).subrange(0, i + 1) =~= models(v@).subrange(0, i as int).push(v@[i as int]@));
        }
        i = i + 1;
    }
    assert(models(v@).subrange(0, v@.len() as int) =~= models(v@));
    r
}

impl Arg {
    pub fn to_json(&self) -> (r: Json)
        ensures
            r@ == arg_json(*self),
    {
        let mut m: Vec<(String, Json)> = Vec::new();
        member(&mut m, "name", Json::string(self.name));
        member(&mut m, "type", Json::string(self.ty));
        member(&mut m, "required", Json::Bool(self.required));
        member(&mut m, "positional", Json::Bool(self.positional));
        let ghost fixed = pair_models(m@);
        push_opt_str(&mut m, "description", self.description);
        let ghost with_desc = pair_models(m@);
        match &self.default {
            Some(d) => member(&mut m, "default", crate::json::deep_clone(d)),
            None => {},
        }
        let ghost with_default = pair_models(m@);
        push_opt_int(&mut m, "min", self.min);
        push_opt_int(&mut m, "max", self.max);
        let ghost with_range = pair_models(m@);
        match &self.enum_values {
            Some(v) => {
                let items = clone_all(v);
                member(&mut m, "enum", Json::Array(items));
            },
            None => {},
        }
        proof {
            assert(with_default =~= with_desc + match self.default { Some(d) => seq![("default"@, d@)], None => Seq::empty() });
            assert(pair_models(m@) =~= with_range + match self.enum_values { Some(v) => seq![("enum"@, JsonV::Array(models(v@)))], None => Seq::empty() });
            assert(pair_models(m@) =~= arg_json(*self)->Object_0);
        }
        Json::Object(m)
    }
}

/// The JSON form of an output field: `name`, `type`, and `description` where given.
pub open spec fn output_field_json(f: OutputField) -> JsonV {
    JsonV::Object(seq![("name"@, JsonV::Str(f.name@)), ("type"@, JsonV::Str(f.ty@))] + opt_str_member("description"@, f.description))
}

impl OutputField {
    pub fn to_json(&self) -> (r: Json)
        ensures
            r@ == output_field_json(*self),
    {
        let mut m: Vec<(String, Json)> = Vec::new();
        member(&mut m, "name", Json::string(self.name));
        member(&mut m, "type", Json::string(self.ty));
        push_opt_str(&mut m, "description", self.description);
        assert(pair_models(m@) =~= output_field_json(*self)->Object_0);
        Json::Object(m)
    }
}

/// The JSON form of a global argument: `name`, `short` (`null` when none),
/// `type`, `required`, and `description` where given.
pub open spec fn global_arg_json(g: GlobalArg) -> JsonV {
    JsonV::Object(seq![
        ("name"@, JsonV::Str(g.name@)),
        ("short"@, opt_str_json(g.short)),
        ("type"@, JsonV::Str(g.ty@)),
        ("required"@, JsonV::Bool(g.required)),
    ] + opt_str_member("description"@, g.description))
}

impl GlobalArg {
    pub fn to_json(&self) -> (r: Json)
        ensures
            r@ == global_arg_json(*self),
    {
        let mut m: Vec<(String, Json)> = Vec::new();
        member(&mut m, "name", Json::string(self.name));
        let short = match self.short {
            Some(s) => Json::string(s),
            None => Json::Null,
        };
        member(&mut m, "short", short);
        member(&mut m, "type", Json::string(self.ty));
        member(&mut m, "required", Json::Bool(self.required));
        push_opt_str(&mut m, "description", self.description);
        assert(pair_models(m@) =~= global_arg_json(*self)->Object_0);
        Json::Object(m)
    }
}

/// The JSON form of an error entry: `kind`, `retryable`, `exit_code`, `fields`.
pub open spec fn error_entry_json(e: ErrorEntry) -> JsonV {
    JsonV::Object(seq![
        ("kind"@, JsonV::Str(e.kind@)),
        ("retryable"@, JsonV::Bool(e.retryable)),
        ("exit_code"@, int_json(e.exit_code as i64)),
        ("fields"@, JsonV::Array(views(e.fields@).map_values(|s: Seq<char>| JsonV::Str(s)))),
    ])
}

impl ErrorEntry {
    pub fn to_json(&self) -> (r: Json)
        ensures
            r@ == error_entry_json(*self),
    {
        let mut m: Vec<(String, Json)> = Vec::new();
        member(&mut m, "kind", Json::string(self.kind));
        member(&mut m, "retryable", Json::Bool(self.retryable));
        member(&mut m, "exit_code", Json::from_i64(self.exit_code as i64));
        member(&mut m, "fields", Json::Array(str_values(self.fields.as_slice())));
        assert(pair_models(m@) =~= error_entry_json(*self)->Object_0);
        Json::Object(m)
    }
}

/// The JSON form of an environment variable: `name`, `effect`.
pub open spec fn env_var_json(e: EnvVar) -> JsonV {
    JsonV::Object(seq![("name"@, JsonV::Str(e.name@)), ("effect"@, JsonV::Str(e.effect@))])
}

impl EnvVar {
    pub fn to_json(&self) -> (r: Json)
        ensures
            r@ == env_var_json(*self),
    {
        let mut m: Vec<(String, Json)> = Vec::new();
        member(&mut m, "name", Json::string(self.name));
        member(&mut m, "effect", Json::string(self.effect));
        assert(pair_models(m@) =~= env_var_json(*self)->Object_0);
        Json::Object(m)
    }
}

// ---------------------------------------------------------------------------
// Commands.

/// The schema entry of `init`.
fn init_self() -> (r: Command)
    ensures
        r.name@ == "init"@,
        r.response_shape@ == "single-flat"@,
        !r.paginated,
        r.cache_ttl_seconds == None::<u64>,
        r.args@.len() == 0,
        r.description@ == "Verify the tool is installed and ready; exits 0 with a JSON confirmation"@,
        !r.mutating,
        r.cache_ttl_strategy@ == "none"@,
        arg_views(r.args@) == Seq::<ArgV>::empty(),
        field_views(r.output_fields@) == seq![
            ("initialized"@, "bool"@, None::<Seq<char>>),
            ("version"@, "string"@, None::<Seq<char>>),
        ],
{
    let mut args: Vec<Arg> = Vec::new();
    let mut output_fields: Vec<OutputField> = Vec::new();
    output_fields.push(OutputField { name: "initialized", ty: "bool", description: None });
    output_fields.push(OutputField { name: "version", ty: "string", description: None });
    assert(arg_views(args@) =~= Seq::<ArgV>::empty());
    assert(field_views(output_fields@) =~= seq![
        ("initialized"@, "bool"@, None::<Seq<char>>),
        ("version"@, "string"@, None::<Seq<char>>),
    ]);
    Command {
        name: "init",
        description: "Verify the tool is installed and ready; exits 0 with a JSON confirmation",
        mutating: false,
        response_shape: "single-flat",
        paginated: false,
        cache_ttl_seconds: None,
        cache_ttl_strategy: "none",
        args,
        output_fields,
    }
}


/// The schema entry of `schema`.
fn schema_self() -> (r: Command)
    ensures
        r.name@ == "schema"@,
        r.response_shape@ == "schema"@,
        !r.paginated,
        r.cache_ttl_seconds == None::<u64>,
        r.args@.len() == 0,
        r.description@ == "Emit this machine-readable schema document"@,
        !r.mutating,
        r.cache_ttl_strategy@ == "none"@,
        arg_views(r.args@) == Seq::<ArgV>::empty(),
        field_views(r.output_fields@) == Seq::<(Seq<char>, Seq<char>, Option<Seq<char>>)>::empty(),
{
    let mut args: Vec<Arg> = Vec::new();
    let mut output_fields: Vec<OutputField> = Vec::new();
    assert(arg_views(args@) =~= Seq::<ArgV>::empty());
    assert(field_views(output_fields@) =~= Seq::<(Seq<char>, Seq<char>, Option<Seq<char>>)>::empty());
    Command {
        name: "schema",
        description: "Emit this machine-readable schema document",
        mutating: false,
        response_shape: "schema",
        paginated: false,
        cache_ttl_seconds: None,
        cache_ttl_strategy: "none",
        args,
        output_fields,
    }
}


/// The schema entry of `version`.
fn version_self() -> (r: Command)
    ensures
        r.name@ == "version"@,
        r.response_shape@ == "single-flat"@,
        !r.paginated,
        r.cache_ttl_seconds == None::<u64>,
        r.args@.len() == 0,
        r.description@ == "Print the binary version"@,
        !r.mutating,
        r.cache_ttl_strategy@ == "none"@,
        arg_views(r.args@) == Seq::<ArgV>::empty(),
        field_views(r.output_fields@) == seq![
            ("version"@, "string"@, None::<Seq<char>>),
        ],
{
    let mut args: Vec<Arg> = Vec::new();
    let mut output_fields: Vec<OutputField> = Vec::new();
    output_fields.push(OutputField { name: "version", ty: "string", description: None });
    assert(arg_views(args@) =~= Seq::<ArgV>::empty());
    assert(field_views(output_fields@) =~= seq![
        ("version"@, "string"@, None::<Seq<char>>),
    ]);
    Command {
        name: "version",
        description: "Print the binary version",
        mutating: false,
        response_shape: "single-flat",
        paginated: false,
        cache_ttl_seconds: None,
        cache_ttl_strategy: "none",
        args,
        output_fields,
    }
}


/// The names of the schema's commands, in order.
pub open spec fn command_names() -> Seq<Seq<char>> {
    seq![
        "archives"@, "init"@, "search"@, "show"@, "match"@, "births"@, "deaths"@, "marriages"@,
        "yearsago"@, "census"@, "weather"@, "stats records"@, "stats sources"@, "stats events"@,
        "stats comments"@, "stats familynames"@, "stats firstnames"@, "stats professions"@,
        "stats breakdown"@, "transcripts search"@, "transcripts browse"@, "transcripts show"@,
        "cache info"@, "cache clear"@, "cache prune"@, "schema"@, "version"@,
    ]
}

/// Every command of the CLI, in the order the schema lists them.
pub fn commands() -> (r: Vec<Command>)
    ensures
        r@.len() == command_names().len(),
        forall|i: int| 0 <= i < r@.len() ==> (#[trigger] r@[i]).name@ == command_names()[i],
{
    let mut r: Vec<Command> = Vec::new();
    r.push(crate::commands::archives::schema());
    r.push(init_self());
    r.push(crate::commands::search::schema());
    r.push(crate::commands::show::schema());
    r.push(crate::commands::match_record::schema());
    r.push(crate::commands::births::schema());
    r.push(crate::commands::deaths::schema());
    r.push(crate::commands::marriages::schema());
    r.push(crate::commands::yearsago::schema());
    r.push(crate::commands::census::schema());
    r.push(crate::commands::weather::schema());
    r.push(crate::commands::stats::records::schema());
    r.push(crate::commands::stats::sources::schema());
    r.push(crate::commands::stats::events::schema());
    r.push(crate::commands::stats::comments::schema());
    r.push(crate::commands::stats::familynames::schema());
    r.push(crate::commands::stats::firstnames::schema());
    r.push(crate::commands::stats::professions::schema());
    r.push(crate::commands::stats::breakdown::schema());
    r.push(crate::commands::transcripts::search::schema());
    r.push(crate::commands::transcripts::browse::schema());
    r.push(crate::commands::transcripts::show::schema());
    r.push(crate::commands::cache_cmd::info_schema());
    r.push(crate::commands::cache_cmd::clear_schema());
    r.push(crate::commands::cache_cmd::prune_schema());
    r.push(schema_self());
    r.push(version_self());
    assert forall|i: int| 0 <= i < r@.len() implies (#[trigger] r@[i]).name@ == command_names()[i] by {
        reveal_strlit("match");
    }
    r
}

/// The JSON form of a command, its members in declaration order.
pub open spec fn command_json(c: Command) -> JsonV {
    JsonV::Object(seq![
        ("name"@, JsonV::Str(c.name@)),
        ("description"@, JsonV::Str(c.description@)),
        ("mutating"@, JsonV::Bool(c.mutating)),
        ("response_shape"@, JsonV::Str(c.response_shape@)),
        ("paginated"@, JsonV::Bool(c.paginated)),
        ("cache_ttl_seconds"@, match c.cache_ttl_seconds { Some(n) => dec_json_u64(n), None => JsonV::Null }),
        ("cache_ttl_strategy"@, JsonV::Str(c.cache_ttl_strategy@)),
        ("args"@, JsonV::Array(c.args@.map_values(|a: Arg| arg_json(a)))),
        ("output_fields"@, JsonV::Array(c.output_fields@.map_values(|f: OutputField| output_field_json(f)))),
    ])
}

fn args_json(args: &Vec<Arg>) -> (r: Json)
    ensures
        r@ == JsonV::Array(args@.map_values(|a: Arg| arg_json(a))),
{
    let mut v: Vec<Json> = Vec::new();
    let mut i: usize = 0;
    while i < args.len()
        invariant
            i <= args@.len(),
            models(v@) == args@.subrange(0, i as int).map_values(|a: Arg| arg_json(a)),
        decreases args@.len() - i,
    {
        let ghost before = v@;
        let j = args[i].to_json();
        v.push(j);
        proof {
            lemma_models_push(before, j);
            assert(before.push(j) =~= v@);
            assert(args@.subrange(0, i + 1).map_values(|a: Arg| arg_json(a)) =~= args@.subrange(0, i as int).map_values(
                |a: Arg| arg_json(a),
            ).push(arg_json(args@[i as int])));
        }
        i = i + 1;
    }
    assert(args@.subrange(0, args@.len() as int) =~= args@);
    Json::Array(v)
}

fn fields_json(fields: &Vec<OutputField>) -> (r: Json)
    ensures
        r@ == JsonV::Array(fields@.map_values(|f: OutputField| output_field_json(f))),
{
    let mut v: Vec<Json> = Vec::new();
    let mut i: usize = 0;
    while i < fields.len()
        invariant
            i <= fields@.len(),
            models(v@) == fields@.subrange(0, i as int).map_values(|f: OutputField| output_field_json(f)),
        decreases fields@.len() - i,
    {
        let ghost before = v@;
        let j = fields[i].to_json();
        v.push(j);
        proof {
            lemma_models_push(before, j);
            assert(before.push(j) =~= v@);
            assert(fields@.subrange(0, i + 1).map_values(|f: OutputField| output_field_json(f)) =~= fields@.subrange(
                0,
                i as int,
            ).map_values(|f: OutputField| output_field_json(f)).push(output_field_json(fields@[i as int])));
        }
        i = i + 1;
    }
    assert(fields@.subrange(0, fields@.len() as int) =~= fields@);
    Json::Array(v)
}

impl Command {
    pub fn to_json(&self) -> (r: Json)
        ensures
            r@ == command_json(*self),
    {
        let mut m: Vec<(String, Json)> = Vec::new();
        member(&mut m, "name", Json::string(self.name));
        member(&mut m, "description", Json::string(self.description));
        member(&mut m, "mutating", Json::Bool(self.mutating));
        member(&mut m, "response_shape", Json::string(self.response_shape));
        member(&mut m, "paginated", Json::Bool(self.paginated));
        let ttl = match self.cache_ttl_seconds {
            Some(n) => Json::from_u64(n),
            None => Json::Null,
        };
        member(&mut m, "cache_ttl_seconds", ttl);
        member(&mut m, "cache_ttl_strategy", Json::string(self.cache_ttl_strategy));
        member(&mut m, "args", args_json(&self.args));
        member(&mut m, "output_fields", fields_json(&self.output_fields));
        assert(pair_models(m@) =~= command_json(*self)->Object_0);
        Json::Object(m)
    }
}

// ---------------------------------------------------------------------------
// The document.

/// The schema document. `version` is the binary's version.
pub fn build(version: &str) -> (r: Schema)
    ensures
        r.name@ == "openarchieven"@,
        r.version@ == version@,
        r.base_url@ == crate::client::DEFAULT_BASE_URL@,
        r.rate_limit.requests_per_second == 4,
        views(r.output_formats@) == seq!["json"@, "ndjson"@, "table"@, "text"@, "markdown"@],
        r.global_args@.map_values(|g: GlobalArg| global_arg_view(g)) == global_arg_table(),
        r.env_vars@.map_values(|e: EnvVar| (e.name@, e.effect@)) == seq![
            ("OPENARCHIEVEN_BASE_URL"@, "Override API base URL (test use)"@),
            ("OPENARCHIEVEN_OUTPUT"@, "Default output format if --output not given"@),
            ("OPENARCHIEVEN_RATE_LIMIT"@, "Override 4 req/sec local limiter (test use)"@),
            ("OPENARCHIEVEN_CACHE_DIR"@, "Override cache directory"@),
            ("OPENARCHIEVEN_CACHE_DISABLE"@, "When 1, disable cache for the process"@),
            ("NO_COLOR"@, "Disable colored stderr output"@),
        ],
        r.rate_limit.scope@ == "per_ip"@,
        r.cache.default_dir_template@ == "$XDG_CACHE_HOME/openarchieven (Linux), ~/Library/Caches/openarchieven (macOS)"@,
        r.cache.file_permissions@ == "0600"@,
        r.cache.dir_permissions@ == "0700"@,
        r.commands@.len() == command_names().len(),
        forall|i: int| 0 <= i < r.commands@.len() ==> (#[trigger] r.commands@[i]).name@ == command_names()[i],
        r.errors@.len() == all_kinds().len(),
        forall|i: int| 0 <= i < r.errors@.len() ==> (#[trigger] r.errors@[i]).kind@ == all_kinds()[i].name(),
{
    let output_formats = vec!["json", "ndjson", "table", "text", "markdown"];
    assert(views(output_formats@) =~= seq!["json"@, "ndjson"@, "table"@, "text"@, "markdown"@]);
    let mut env_vars: Vec<EnvVar> = Vec::new();
    env_vars.push(EnvVar { name: "OPENARCHIEVEN_BASE_URL", effect: "Override API base URL (test use)" });
    env_vars.push(EnvVar { name: "OPENARCHIEVEN_OUTPUT", effect: "Default output format if --output not given" });
    env_vars.push(EnvVar { name: "OPENARCHIEVEN_RATE_LIMIT", effect: "Override 4 req/sec local limiter (test use)" });
    env_vars.push(EnvVar { name: "OPENARCHIEVEN_CACHE_DIR", effect: "Override cache directory" });
    env_vars.push(EnvVar { name: "OPENARCHIEVEN_CACHE_DISABLE", effect: "When 1, disable cache for the process" });
    env_vars.push(EnvVar { name: "NO_COLOR", effect: "Disable colored stderr output" });
    assert(env_vars@.map_values(|e: EnvVar| (e.name@, e.effect@)) =~= seq![
        ("OPENARCHIEVEN_BASE_URL"@, "Override API base URL (test use)"@),
        ("OPENARCHIEVEN_OUTPUT"@, "Default output format if --output not given"@),
        ("OPENARCHIEVEN_RATE_LIMIT"@, "Override 4 req/sec local limiter (test use)"@),
        ("OPENARCHIEVEN_CACHE_DIR"@, "Override cache directory"@),
        ("OPENARCHIEVEN_CACHE_DISABLE"@, "When 1, disable cache for the process"@),
        ("NO_COLOR"@, "Disable colored stderr output"@),
    ]);
    Schema {
        name: "openarchieven",
        version: version.to_owned(),
        base_url: crate::client::DEFAULT_BASE_URL,
        rate_limit: RateLimit { requests_per_second: 4, scope: "per_ip" },
        output_formats,
        global_args: global_args(),
        env_vars,
        cache: CacheInfo {
            default_dir_template: "$XDG_CACHE_HOME/openarchieven (Linux), ~/Library/Caches/openarchieven (macOS)",
            file_permissions: "0600",
            dir_permissions: "0700",
        },
        commands: commands(),
        errors: errors(),
    }
}

/// The JSON form of a list of items, each by its own form.
fn json_list_env(items: &Vec<EnvVar>) -> (r: Json)
    ensures
        r@ == JsonV::Array(items@.map_values(|e: EnvVar| env_var_json(e))),
{
    let mut v: Vec<Json> = Vec::new();
    let mut i: usize = 0;
    while i < items.len()
        invariant
            i <= items@.len(),
            models(v@) == items@.subrange(0, i as int).map_values(|e: EnvVar| env_var_json(e)),
        decreases items@.len() - i,
    {
        let ghost before = v@;
        let j = items[i].to_json();
        v.push(j);
        proof {
            lemma_models_push(before, j);
            assert(before.push(j) =~= v@);
            assert(items@.subrange(0, i + 1).map_values(|e: EnvVar| env_var_json(e)) =~= items@.subrange(0, i as int).map_values(
                |e: EnvVar| env_var_json(e),
            ).push(env_var_json(items@[i as int])));
        }
        i = i + 1;
    }
    assert(items@.subrange(0, items@.len() as int) =~= items@);
    Json::Array(v)
}

fn json_list_global(items: &Vec<GlobalArg>) -> (r: Json)
    ensures
        r@ == JsonV::Array(items@.map_values(|g: GlobalArg| global_arg_json(g))),
{
    let mut v: Vec<Json> = Vec::new();
    let mut i: usize = 0;
    while i < items.len()
        invariant
            i <= items@.len(),
            models(v@) == items@.subrange(0, i as int).map_values(|g: GlobalArg| global_arg_json(g)),
        decreases items@.len() - i,
    {
        let ghost before = v@;
        let j = items[i].to_json();
        v.push(j);
        proof {
            lemma_models_push(before, j);
            assert(before.push(j) =~= v@);
            assert(items@.subrange(0, i + 1).map_values(|g: GlobalArg| global_arg_json(g)) =~= items@.subrange(0, i as int).map_values(
                |g: GlobalArg| global_arg_json(g),
            ).push(global_arg_json(items@[i as int])));
        }
        i = i + 1;
    }
    assert(items@.subrange(0, items@.len() as int) =~= items@);
    Json::Array(v)
}

fn json_list_commands(items: &Vec<Command>) -> (r: Json)
    ensures
        r@ == JsonV::Array(items@.map_values(|c: Command| command_json(c))),
{
    let mut v: Vec<Json> = Vec::new();
    let mut i: usize = 0;
    while i < items.len()
        invariant
            i <= items@.len(),
            models(v@) == items@.subrange(0, i as int).map_values(|c: Command| command_json(c)),
        decreases items@.len() - i,
    {
        let ghost before = v@;
        let j = items[i].to_json();
        v.push(j);
        proof {
            lemma_models_push(before, j);
            assert(before.push(j) =~= v@);
            assert(items@.subrange(0, i + 1).map_values(|c: Command| command_json(c)) =~= items@.subrange(0, i as int).map_values(
                |c: Command| command_json(c),
            ).push(command_json(items@[i as int])));
        }
        i = i + 1;
    }
    assert(items@.subrange(0, items@.len() as int) =~= items@);
    Json::Array(v)
}

fn json_list_errors(items: &Vec<ErrorEntry>) -> (r: Json)
    ensures
        r@ == JsonV::Array(items@.map_values(|e: ErrorEntry| error_entry_json(e))),
{
    let mut v: Vec<Json> = Vec::new();
    let mut i: usize = 0;
    while i < items.len()
        invariant
            i <= items@.len(),
            models(v@) == items@.subrange(0, i as int).map_values(|e: ErrorEntry| error_entry_json(e)),
        decreases items@.len() - i,
    {
        let ghost before = v@;
        let j = items[i].to_json();
        v.push(j);
        proof {
            lemma_models_push(before, j);
            assert(before.push(j) =~= v@);
            assert(items@.subrange(0, i + 1).map_values(|e: ErrorEntry| error_entry_json(e)) =~= items@.subrange(0, i as int).map_values(
                |e: ErrorEntry| error_entry_json(e),
            ).push(error_entry_json(items@[i as int])));
        }
        i = i + 1;
    }
    assert(items@.subrange(0, items@.len() as int) =~= items@);
    Json::Array(v)
}

/// The JSON form of the document, its members in declaration order.
pub open spec fn schema_json(s: Schema) -> JsonV {
    JsonV::Object(seq![
        ("name"@, JsonV::Str(s.name@)),
        ("version"@, JsonV::Str(s.version@)),
        ("base_url"@, JsonV::Str(s.base_url@)),
        ("rate_limit"@, JsonV::Object(seq![
            ("requests_per_second"@, dec_json_u64(s.rate_limit.requests_per_second as u64)),
            ("scope"@, JsonV::Str(s.rate_limit.scope@)),
        ])),
        ("output_formats"@, JsonV::Array(views(s.output_formats@).map_values(|f: Seq<char>| JsonV::Str(f)))),
        ("global_args"@, JsonV::Array(s.global_args@.map_values(|g: GlobalArg| global_arg_json(g)))),
        ("env_vars"@, JsonV::Array(s.env_vars@.map_values(|e: EnvVar| env_var_json(e)))),
        ("cache"@, JsonV::Object(seq![
            ("default_dir_template"@, JsonV::Str(s.cache.default_dir_template@)),
            ("file_permissions"@, JsonV::Str(s.cache.file_permissions@)),
            ("dir_permissions"@, JsonV::Str(s.cache.dir_permissions@)),
        ])),
        ("commands"@, JsonV::Array(s.commands@.map_values(|c: Command| command_json(c)))),
        ("errors"@, JsonV::Array(s.errors@.map_values(|e: ErrorEntry| error_entry_json(e)))),
    ])
}

impl Schema {
    pub fn to_json(&self) -> (r: Json)
        ensures
            r@ == schema_json(*self),
    {
        let mut rate: Vec<(String, Json)> = Vec::new();
        member(&mut rate, "requests_per_second", Json::from_u64(self.rate_limit.requests_per_second as u64));
        member(&mut rate, "scope", Json::string(self.rate_limit.scope));
        let mut cache: Vec<(String, Json)> = Vec::new();
        member(&mut cache, "default_dir_template", Json::string(self.cache.default_dir_template));
        member(&mut cache, "file_permissions", Json::string(self.cache.file_permissions));
        member(&mut cache, "dir_permissions", Json::string(self.cache.dir_permissions));
        let mut m: Vec<(String, Json)> = Vec::new();
        member(&mut m, "name", Json::string(self.name));
        member(&mut m, "version", Json::string(self.version.as_str()));
        member(&mut m, "base_url", Json::string(self.base_url));
        member(&mut m, "rate_limit", Json::Object(rate));
        member(&mut m, "output_formats", Json::Array(str_values(self.output_formats.as_slice())));
        member(&mut m, "global_args", json_list_global(&self.global_args));
        member(&mut m, "env_vars", json_list_env(&self.env_vars));
        member(&mut m, "cache", Json::Object(cache));
        member(&mut m, "commands", json_list_commands(&self.commands));
        member(&mut m, "errors", json_list_errors(&self.errors));
        proof {
            assert(pair_models(rate@) =~= seq![
                ("requests_per_second"@, dec_json_u64(self.rate_limit.requests_per_second as u64)),
                ("scope"@, JsonV::Str(self.rate_limit.scope@)),
            ]);
            assert(pair_models(cache@) =~= seq![
                ("default_dir_template"@, JsonV::Str(self.cache.default_dir_template@)),
                ("file_permissions"@, JsonV::Str(self.cache.file_permissions@)),
                ("dir_permissions"@, JsonV::Str(self.cache.dir_permissions@)),
            ]);
            assert(pair_models(m@) =~= schema_json(*self)->Object_0);
        }
        Json::Object(m)
    }
}

} // verus!
