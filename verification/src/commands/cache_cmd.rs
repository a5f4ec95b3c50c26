//! `cache info`, `cache clear`, `cache prune`: the reports they print. The
//! file system work (listing, deleting) is the caller's part.
use vstd::prelude::*;
use crate::error::{Error, ErrorKind, Result};
use crate::json::{Json, JsonV, dec_json_u64, pair_models, models};
use crate::output::{Renderable, Shape};
use crate::runtime::verr;
use crate::schema_cmd::{Arg, Command, OutputField, member, ArgV, arg_view, arg_views, field_views, int_json, option_json};

verus! {

/// What the cache directory holds: its path, the number of entries and
/// their size, and the oldest and newest write times (RFC 3339).
#[derive(Debug, Clone)]
pub struct CacheSnapshot {
    pub root: String,
    pub entries: u64,
    pub bytes: u64,
    pub oldest: Option<String>,
    pub newest: Option<String>,
}

pub open spec fn opt_text_json(o: Option<String>) -> JsonV {
    match o {
        Some(s) => JsonV::Str(s@),
        None => JsonV::Null,
    }
}

/// The counts of the entry files: their number, their total size (capped at
/// the largest `u64`), and the earliest and latest write instants
/// (milliseconds since the epoch) among the entries whose instant is known.
#[derive(Debug, Clone, Copy)]
pub struct Tally {
    pub entries: u64,
    pub bytes: u64,
    pub oldest_ms: Option<i64>,
    pub newest_ms: Option<i64>,
}

pub open spec fn total_size(files: Seq<(u64, Option<i64>)>) -> int
    decreases files.len(),
{
    if files.len() == 0 { 0 } else { total_size(files.drop_last()) + files.last().0 }
}

proof fn lemma_total_size_nonneg(files: Seq<(u64, Option<i64>)>)
    ensures
        total_size(files) >= 0,
    decreases files.len(),
{
    if files.len() > 0 {
        lemma_total_size_nonneg(files.drop_last());
    }
}

pub open spec fn capped(n: int) -> u64 {
    if n > u64::MAX { u64::MAX } else { n as u64 }
}

/// The earlier (`earlier`) or later of two known instants; an unknown one is skipped.
pub open spec fn pick(a: Option<i64>, b: Option<i64>, earlier: bool) -> Option<i64> {
    match (a, b) {
        (Some(x), Some(y)) => Some(if (x <= y) == earlier { x } else { y }),
        (Some(x), None) => Some(x),
        (None, y) => y,
    }
}

pub open spec fn extreme(files: Seq<(u64, Option<i64>)>, earlier: bool) -> Option<i64>
    decreases files.len(),
{
    if files.len() == 0 { None } else { pick(extreme(files.drop_last(), earlier), files.last().1, earlier) }
}

fn pick_exec(a: Option<i64>, b: Option<i64>, earlier: bool) -> (r: Option<i64>)
    ensures
        r == pick(a, b, earlier),
{
    match (a, b) {
        (Some(x), Some(y)) => Some(if (x <= y) == earlier { x } else { y }),
        (Some(x), None) => Some(x),
        (None, y) => y,
    }
}

/// The tally of the entry files, each given by its size in bytes and its
/// write instant when known.
pub fn tally(files: &[(u64, Option<i64>)]) -> (r: Tally)
    ensures
        r.entries == files@.len(),
        r.bytes == capped(total_size(files@)),
        r.oldest_ms == extreme(files@, true),
        r.newest_ms == extreme(files@, false),
{
    let mut t = Tally { entries: 0, bytes: 0, oldest_ms: None, newest_ms: None };
    let mut i: usize = 0;
    while i < files.len()
        invariant
            i <= files@.len(),
            t.entries == i,
            t.bytes == capped(total_size(files@.subrange(0, i as int))),
            t.oldest_ms == extreme(files@.subrange(0, i as int), true),
            t.newest_ms == extreme(files@.subrange(0, i as int), false),
        decreases files@.len() - i,
    {
        let ghost prefix = files@.subrange(0, i + 1);
        assert(prefix.drop_last() =~= files@.subrange(0, i as int));
        assert(prefix.last() == files@[i as int]);
        let (size, at) = files[i];
        proof {
            lemma_total_size_nonneg(files@.subrange(0, i as int));
        }
        t.entries = t.entries + 1;
        t.bytes = t.bytes.saturating_add(size);
        t.oldest_ms = pick_exec(t.oldest_ms, at, true);
        t.newest_ms = pick_exec(t.newest_ms, at, false);
        i = i + 1;
    }
    assert(files@.subrange(0, files@.len() as int) =~= files@);
    t
}

/// The report of `cache info`: `{root, entries, bytes, oldest, newest}`.
pub open spec fn info_json(s: CacheSnapshot) -> JsonV {
    JsonV::Object(seq![
        ("root"@, JsonV::Str(s.root@)),
        ("entries"@, dec_json_u64(s.entries)),
        ("bytes"@, dec_json_u64(s.bytes)),
        ("oldest"@, opt_text_json(s.oldest)),
        ("newest"@, opt_text_json(s.newest)),
    ])
}

fn opt_text(o: &Option<String>) -> (r: Json)
    ensures
        r@ == opt_text_json(*o),
{
    match o {
        Some(s) => Json::string(s.as_str()),
        None => Json::Null,
    }
}

pub fn info(snap: &CacheSnapshot) -> (r: Renderable)
    ensures
        r.shape == Shape::SingleFlat,
        r.body@ == info_json(*snap),
        !r.paginated,
        r.total is None,
        r.limit is None,
        r.offset is None,
{
    let mut m: Vec<(String, Json)> = Vec::new();
    member(&mut m, "root", Json::string(snap.root.as_str()));
    member(&mut m, "entries", Json::from_u64(snap.entries));
    member(&mut m, "bytes", Json::from_u64(snap.bytes));
    member(&mut m, "oldest", opt_text(&snap.oldest));
    member(&mut m, "newest", opt_text(&snap.newest));
    assert(pair_models(m@) =~= info_json(*snap)->Object_0);
    Renderable::single_flat(Json::Object(m))
}

/// `cache clear` is destructive: it needs `--yes`.
pub fn clear(yes: bool) -> (r: Result<()>)
    ensures
        yes ==> r is Ok,
        !yes ==> r is Err && r->Err_0@ == verr("`cache clear` requires --yes; this is a destructive operation"@),
{
    if !yes {
        return Err(Error::new(ErrorKind::Validation, "`cache clear` requires --yes; this is a destructive operation"));
    }
    Ok(())
}

/// The report of `cache clear` and `cache prune`: `{deleted}`.
pub fn deleted(count: u64) -> (r: Renderable)
    ensures
        r.shape == Shape::SingleFlat,
        r.body@ == JsonV::Object(seq![("deleted"@, dec_json_u64(count))]),
        !r.paginated,
        r.total is None,
        r.limit is None,
        r.offset is None,
{
    let mut m: Vec<(String, Json)> = Vec::new();
    member(&mut m, "deleted", Json::from_u64(count));
    assert(pair_models(m@) =~= seq![("deleted"@, dec_json_u64(count))]);
    Renderable::single_flat(Json::Object(m))
}

/// The schema entry of `cache info`.
pub fn info_schema() -> (r: Command)
    ensures
        r.name@ == "cache info"@,
        r.response_shape@ == "single-flat"@,
        !r.paginated,
        r.cache_ttl_seconds == None::<u64>,
        r.args@.len() == 0,
        r.description@ == "Show cache location, total size, and entry count"@,
        !r.mutating,
        r.cache_ttl_strategy@ == "none"@,
        arg_views(r.args@) == Seq::<ArgV>::empty(),
        field_views(r.output_fields@) == seq![
            ("root"@, "string"@, Some("Absolute path to the cache directory"@)),
            ("entries"@, "integer"@, Some("Number of cache entry files currently on disk"@)),
            ("bytes"@, "integer"@, Some("Total size of all cache entries in bytes"@)),
            ("oldest"@, "datetime | null"@, Some("RFC 3339 timestamp of the oldest cache entry; null if cache is empty"@)),
            ("newest"@, "datetime | null"@, Some("RFC 3339 timestamp of the newest cache entry; null if cache is empty"@)),
        ],
{
    let mut args: Vec<Arg> = Vec::new();
    let mut output_fields: Vec<OutputField> = Vec::new();
    output_fields.push(OutputField { name: "root", ty: "string", description: Some("Absolute path to the cache directory") });
    output_fields.push(OutputField { name: "entries", ty: "integer", description: Some("Number of cache entry files currently on disk") });
    output_fields.push(OutputField { name: "bytes", ty: "integer", description: Some("Total size of all cache entries in bytes") });
    output_fields.push(OutputField { name: "oldest", ty: "datetime | null", description: Some("RFC 3339 timestamp of the oldest cache entry; null if cache is empty") });
    output_fields.push(OutputField { name: "newest", ty: "datetime | null", description: Some("RFC 3339 timestamp of the newest cache entry; null if cache is empty") });
    assert(arg_views(args@) =~= Seq::<ArgV>::empty());
    assert(field_views(output_fields@) =~= seq![
        ("root"@, "string"@, Some("Absolute path to the cache directory"@)),
        ("entries"@, "integer"@, Some("Number of cache entry files currently on disk"@)),
        ("bytes"@, "integer"@, Some("Total size of all cache entries in bytes"@)),
        ("oldest"@, "datetime | null"@, Some("RFC 3339 timestamp of the oldest cache entry; null if cache is empty"@)),
        ("newest"@, "datetime | null"@, Some("RFC 3339 timestamp of the newest cache entry; null if cache is empty"@)),
    ]);
    Command {
        name: "cache info",
        description: "Show cache location, total size, and entry count",
        mutating: false,
        response_shape: "single-flat",
        paginated: false,
        cache_ttl_seconds: None,
        cache_ttl_strategy: "none",
        args,
        output_fields,
    }
}

/// The schema entry of `cache clear`.
pub fn clear_schema() -> (r: Command)
    ensures
        r.name@ == "cache clear"@,
        r.response_shape@ == "single-flat"@,
        !r.paginated,
        r.cache_ttl_seconds == None::<u64>,
        r.args@.len() == 1,
        r.description@ == "Delete all cache entries (requires --yes)"@,
        r.mutating,
        r.cache_ttl_strategy@ == "none"@,
        arg_views(r.args@) == seq![
            (ArgV { name: "--yes"@, ty: "boolean"@, required: true, positional: false, description: Some("Required safety flag to confirm the destructive clear operation"@), default: None::<JsonV>, min: None::<i64>, max: None::<i64>, enum_values: None::<Seq<JsonV>> }),
        ],
        field_views(r.output_fields@) == seq![
            ("deleted"@, "integer"@, Some("Number of cache entry files deleted"@)),
        ],
{
    let mut args: Vec<Arg> = Vec::new();
    let mut a = Arg::flag("--yes", "boolean", true);
    a.description = Some("Required safety flag to confirm the destructive clear operation");
    args.push(a);
    assert(arg_view(args@[0]) == (ArgV { name: "--yes"@, ty: "boolean"@, required: true, positional: false, description: Some("Required safety flag to confirm the destructive clear operation"@), default: None::<JsonV>, min: None::<i64>, max: None::<i64>, enum_values: None::<Seq<JsonV>> }));
    let mut output_fields: Vec<OutputField> = Vec::new();
    output_fields.push(OutputField { name: "deleted", ty: "integer", description: Some("Number of cache entry files deleted") });
    assert(arg_views(args@) =~= seq![
        (ArgV { name: "--yes"@, ty: "boolean"@, required: true, positional: false, description: Some("Required safety flag to confirm the destructive clear operation"@), default: None::<JsonV>, min: None::<i64>, max: None::<i64>, enum_values: None::<Seq<JsonV>> }),
    ]);
    assert(field_views(output_fields@) =~= seq![
        ("deleted"@, "integer"@, Some("Number of cache entry files deleted"@)),
    ]);
    Command {
        name: "cache clear",
        description: "Delete all cache entries (requires --yes)",
        mutating: true,
        response_shape: "single-flat",
        paginated: false,
        cache_ttl_seconds: None,
        cache_ttl_strategy: "none",
        args,
        output_fields,
    }
}

/// The schema entry of `cache prune`.
pub fn prune_schema() -> (r: Command)
    ensures
        r.name@ == "cache prune"@,
        r.response_shape@ == "single-flat"@,
        !r.paginated,
        r.cache_ttl_seconds == None::<u64>,
        r.args@.len() == 0,
        r.description@ == "Delete only expired cache entries"@,
        r.mutating,
        r.cache_ttl_strategy@ == "none"@,
        arg_views(r.args@) == Seq::<ArgV>::empty(),
        field_views(r.output_fields@) == seq![
            ("deleted"@, "integer"@, Some("Number of expired cache entry files deleted"@)),
        ],
{
    let mut args: Vec<Arg> = Vec::new();
    let mut output_fields: Vec<OutputField> = Vec::new();
    output_fields.push(OutputField { name: "deleted", ty: "integer", description: Some("Number of expired cache entry files deleted") });
    assert(arg_views(args@) =~= Seq::<ArgV>::empty());
    assert(field_views(output_fields@) =~= seq![
        ("deleted"@, "integer"@, Some("Number of expired cache entry files deleted"@)),
    ]);
    Command {
        name: "cache prune",
        description: "Delete only expired cache entries",
        mutating: true,
        response_shape: "single-flat",
        paginated: false,
        cache_ttl_seconds: None,
        cache_ttl_strategy: "none",
        args,
        output_fields,
    }
}

} // verus!
