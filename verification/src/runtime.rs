//! Per-invocation runtime context: the effective output settings, and the
//! request settings that the API flags describe.
use vstd::prelude::*;
use crate::cli::{Cli, FormatArg, GlobalApiArgs};
use crate::client::{CacheMode, ClientConfig, TtlHint};
use crate::error::{Error, ErrorKind, ErrorV, Result};
use crate::output::{keep_nonempty, nonempty};
use crate::span::TimeSpan;
use crate::text::{cat4, chars_of, parse_int_spec, parse_u32, split_chars, split_seq, str_eq, string_of, string_views, trim_bounds, trim_seq};
pub use crate::ttl_bound::{cache_ttl_is_safe, ttl_text_ok};
use crate::tty::{Format, chosen_format, resolve_format};

verus! {

/// The output settings of one invocation.
#[derive(Debug, Clone, Copy)]
pub struct GlobalArgs {
    pub format: Format,
    pub pretty: bool,
    pub quiet: bool,
    pub no_color: bool,
}

/// A `--cache-ttl` override.
#[derive(Debug, Clone, Copy, PartialEq, Eq, Structural)]
pub enum TtlOverride {
    /// `0`, or a zero duration: nothing is cached.
    Disabled,
    /// `inf`: entries never expire.
    Forever,
    Fixed(TimeSpan),
}

/// The request settings of one invocation.
#[derive(Debug, Clone)]
pub struct ApiContext {
    pub timeout: TimeSpan,
    pub cache_mode: CacheMode,
    pub cache_ttl_override: Option<TtlOverride>,
    pub cache_dir: Option<String>,
    pub fields: Option<Vec<String>>,
    pub limit: Option<u32>,
    pub offset: Option<u32>,
    pub lang: String,
    pub quiet: bool,
}

pub open spec fn format_of_arg(f: FormatArg) -> Format {
    match f {
        FormatArg::Json => Format::Json,
        FormatArg::Ndjson => Format::Ndjson,
        FormatArg::Table => Format::Table,
        FormatArg::Markdown => Format::Markdown,
    }
}

pub open spec fn opt_str(o: Option<&str>) -> Option<Seq<char>> {
    match o {
        Some(s) => Some(s@),
        None => None,
    }
}

impl GlobalArgs {
    /// The output settings of the global flags. `env_output` is the value of
    /// `OPENARCHIEVEN_OUTPUT`, `no_color_env` whether `NO_COLOR` is set, and
    /// `stdout_is_tty` whether standard output is a terminal.
    pub fn from_flags(
        output: Option<FormatArg>,
        pretty: bool,
        quiet: bool,
        no_color: bool,
        env_output: Option<&str>,
        stdout_is_tty: bool,
        no_color_env: bool,
    ) -> (r: GlobalArgs)
        ensures
            r.format == chosen_format(
                match output { Some(f) => Some(format_of_arg(f)), None => None },
                opt_str(env_output),
                stdout_is_tty,
            ),
            r.pretty == (pretty || stdout_is_tty),
            r.quiet == quiet,
            r.no_color == (no_color || no_color_env),
    {
        let explicit = match output {
            Some(FormatArg::Json) => Some(Format::Json),
            Some(FormatArg::Ndjson) => Some(Format::Ndjson),
            Some(FormatArg::Table) => Some(Format::Table),
            Some(FormatArg::Markdown) => Some(Format::Markdown),
            None => None,
        };
        GlobalArgs {
            format: resolve_format(explicit, env_output, stdout_is_tty),
            pretty: pretty || stdout_is_tty,
            quiet,
            no_color: no_color || no_color_env,
        }
    }

    /// The output settings of a command line (see [`GlobalArgs::from_flags`]).
    pub fn from_cli(cli: &Cli, env_output: Option<&str>, stdout_is_tty: bool, no_color_env: bool) -> (r: GlobalArgs)
        ensures
            r.format == chosen_format(
                match cli.output { Some(f) => Some(format_of_arg(f)), None => None },
                opt_str(env_output),
                stdout_is_tty,
            ),
            r.pretty == (cli.pretty || stdout_is_tty),
            r.quiet == cli.quiet,
            r.no_color == (cli.no_color || no_color_env),
    {
        GlobalArgs::from_flags(cli.output, cli.pretty, cli.quiet, cli.no_color, env_output, stdout_is_tty, no_color_env)
    }
}

// ---------------------------------------------------------------------------
// `--cache-ttl`.

/// What `humantime::parse_duration(s)` gives: the duration's whole seconds
/// and nanoseconds, or the text of the error.
pub uninterp spec fn humantime_duration(s: Seq<char>) -> core::result::Result<(u64, u32), Seq<char>>;

/// `humantime::parse_duration(s)`: on success the duration as seconds and
/// nanoseconds (`nanos < 10^9`), on failure the error's `Display` text; `"0"`
/// is the zero duration. The crate panics only in `Duration::new` at the end
/// of its `add_current`, when the seconds reach `u64::MAX` while the
/// nanoseconds make a full second; [`ttl_text_ok`] leaves out every value on
/// which that can happen (see [`crate::ttl_bound`]).
#[verifier::external_body]
fn parse_human_duration(s: &str) -> (r: core::result::Result<TimeSpan, String>)
    requires
        ttl_text_ok(s@),
    ensures
        match r {
            Ok(d) => humantime_duration(s@) == Ok::<(u64, u32), Seq<char>>((d.secs, d.nanos)) && d.wf(),
            Err(e) => humantime_duration(s@) == Err::<(u64, u32), Seq<char>>(e@),
        },
        s@ == "0"@ ==> (r is Ok && r->Ok_0.secs == 0 && r->Ok_0.nanos == 0),
{
    match humantime::parse_duration(s) {
        Ok(d) => Ok(TimeSpan { secs: d.as_secs(), nanos: d.subsec_nanos() }),
        Err(e) => Err(e.to_string()),
    }
}

/// The override that a `--cache-ttl` value names, given what the duration
/// parser made of it: `inf` is forever, `0` and zero durations disable the
/// cache, other durations are fixed lifetimes; a parse error is reported as
/// `--cache-ttl {s}: {error}`.
pub open spec fn ttl_override_of(s: Seq<char>, parsed: core::result::Result<(u64, u32), Seq<char>>) -> core::result::Result<TtlOverride, Seq<char>> {
    if s == "inf"@ {
        Ok(TtlOverride::Forever)
    } else if s == "0"@ {
        Ok(TtlOverride::Disabled)
    } else {
        match parsed {
            Ok((secs, nanos)) => if secs == 0 && nanos == 0 {
                Ok(TtlOverride::Disabled)
            } else {
                Ok(TtlOverride::Fixed((TimeSpan { secs, nanos })))
            },
            Err(e) => Err("--cache-ttl "@ + s + ": "@ + e),
        }
    }
}

/// The override for a value after the duration parser has run on it (see
/// [`ttl_override_of`]).
pub fn ttl_override_from(s: &str, parsed: core::result::Result<TimeSpan, String>) -> (r: Result<TtlOverride>)
    ensures
        match ttl_override_of(s@, match parsed { Ok(d) => Ok((d.secs, d.nanos)), Err(e) => Err(e@) }) {
            Ok(o) => r == Ok::<TtlOverride, Error>(o),
            Err(m) => r is Err && r->Err_0@ == verr(m),
        },
{
    if str_eq(s, "inf") {
        return Ok(TtlOverride::Forever);
    }
    if str_eq(s, "0") {
        return Ok(TtlOverride::Disabled);
    }
    match parsed {
        Ok(d) => if d.is_zero() {
            Ok(TtlOverride::Disabled)
        } else {
            Ok(TtlOverride::Fixed(d))
        },
        Err(e) => {
            let m = cat4("--cache-ttl ", s, ": ", e.as_str());
            Err(Error::new(ErrorKind::Validation, m.as_str()))
        },
    }
}

/// A validation error with this message and nothing else.
pub open spec fn verr(m: Seq<char>) -> ErrorV {
    ErrorV { kind: ErrorKind::Validation, message: m, upstream_code: None, upstream_message: None, retry_after_seconds: None }
}

/// The override a `--cache-ttl` value names (see [`ttl_override_of`]).
pub fn parse_cache_ttl(s: &str) -> (r: Result<TtlOverride>)
    requires
        ttl_text_ok(s@),
    ensures
        match ttl_override_of(s@, humantime_duration(s@)) {
            Ok(o) => r == Ok::<TtlOverride, Error>(o),
            Err(m) => r is Err && r->Err_0@ == verr(m),
        },
{
    if str_eq(s, "inf") {
        return Ok(TtlOverride::Forever);
    }
    if str_eq(s, "0") {
        return Ok(TtlOverride::Disabled);
    }
    let parsed = parse_human_duration(s);
    ttl_override_from(s, parsed)
}

// ---------------------------------------------------------------------------
// `--fields`.

/// The field names of a `--fields` value: split at commas, each piece
/// trimmed, empty pieces dropped.
pub open spec fn field_list(s: Seq<char>) -> Seq<Seq<char>> {
    nonempty(split_seq(s, ',').map_values(|p: Seq<char>| trim_seq(p)))
}

fn trim_all(pieces: Vec<String>) -> (r: Vec<String>)
    ensures
        string_views(r@) == string_views(pieces@).map_values(|p: Seq<char>| trim_seq(p)),
{
    let mut r: Vec<String> = Vec::new();
    let mut i: usize = 0;
    while i < pieces.len()
        invariant
            i <= pieces@.len(),
            r@.len() == i,
            forall|j: int| 0 <= j < i ==> #[trigger] r@[j]@ == trim_seq(pieces@[j]@),
        decreases pieces@.len() - i,
    {
        let v = chars_of(pieces[i].as_str());
        let (a, b) = trim_bounds(&v, 0, v.len());
        assert(v@.subrange(0, v@.len() as int) =~= pieces@[i as int]@);
        r.push(string_of(&v, a, b));
        i = i + 1;
    }
    assert(string_views(r@) =~= string_views(pieces@).map_values(|p: Seq<char>| trim_seq(p)));
    r
}

/// The field names of a `--fields` value (see [`field_list`]).
pub fn parse_fields(s: &str) -> (r: Vec<String>)
    ensures
        string_views(r@) == field_list(s@),
{
    let v = chars_of(s);
    let pieces = split_chars(&v, 0, v.len(), ',');
    assert(v@.subrange(0, v@.len() as int) =~= s@);
    let trimmed = trim_all(pieces);
    keep_nonempty(trimmed)
}

// ---------------------------------------------------------------------------
// The context.

/// The context's view of its field list.
pub open spec fn fields_view(f: Option<Vec<String>>) -> Option<Seq<Seq<char>>> {
    match f {
        Some(v) => Some(string_views(v@)),
        None => None,
    }
}

/// What a `--cache-ttl` flag resolves to: no override, an override, or the
/// message of the error.
pub open spec fn ttl_flag(cache_ttl: Option<String>) -> core::result::Result<Option<TtlOverride>, Seq<char>> {
    match cache_ttl {
        None => Ok(None),
        Some(s) => match ttl_override_of(s@, humantime_duration(s@)) {
            Ok(o) => Ok(Some(o)),
            Err(m) => Err(m),
        },
    }
}

/// The cache mode: bypass with `--no-cache` or a disabled lifetime, refresh
/// with `--refresh`, the default otherwise.
pub open spec fn mode_of(no_cache: bool, refresh: bool, o: Option<TtlOverride>) -> CacheMode {
    if no_cache || o == Some(TtlOverride::Disabled) {
        CacheMode::Bypass
    } else if refresh {
        CacheMode::Refresh
    } else {
        CacheMode::Default
    }
}

/// Whether the flags can be handed to [`ApiContext::from_global_args`]: a
/// `--cache-ttl` value must be one on which the duration parser cannot
/// panic ([`ttl_text_ok`]; [`cache_ttl_is_safe`] decides it).
pub open spec fn api_flags_ok(args: GlobalApiArgs) -> bool {
    match args.cache_ttl {
        Some(s) => ttl_text_ok(s@),
        None => true,
    }
}

/// What a read `--cache-ttl` value leaves for the context: the override, or
/// none when no value was given or it could not be read.
pub open spec fn read_override(ttl: Option<Result<TtlOverride>>) -> Option<TtlOverride> {
    match ttl {
        Some(Ok(o)) => Some(o),
        _ => None,
    }
}

impl ApiContext {
    /// The request settings that the API flags describe. `--no-cache` with
    /// `--refresh` is a validation error, and so is a `--cache-ttl` that is
    /// neither `inf`, `0` nor a duration. The timeout defaults to 30 s, the
    /// language to `nl`.
    pub fn from_global_args(args: &GlobalApiArgs, quiet: bool) -> (r: Result<ApiContext>)
        requires
            api_flags_ok(*args),
        ensures
            args.no_cache && args.refresh ==> r is Err
                && r->Err_0@ == verr("--no-cache and --refresh are mutually exclusive"@),
            !(args.no_cache && args.refresh) && ttl_flag(args.cache_ttl) is Err ==> r is Err
                && r->Err_0@ == verr(ttl_flag(args.cache_ttl)->Err_0),
            r is Ok <==> !(args.no_cache && args.refresh) && ttl_flag(args.cache_ttl) is Ok,
            r is Ok ==> {
                let c = r->Ok_0;
                let o = ttl_flag(args.cache_ttl)->Ok_0;
                &&& c.timeout == match args.timeout { Some(t) => t, None => (TimeSpan { secs: 30, nanos: 0 }) }
                &&& c.cache_ttl_override == o
                &&& c.cache_mode == mode_of(args.no_cache, args.refresh, o)
                &&& c.cache_dir == args.cache_dir
                &&& fields_view(c.fields) == match args.fields { Some(f) => Some(field_list(f@)), None => None }
                &&& c.limit == args.limit
                &&& c.offset == args.offset
                &&& c.lang@ == match args.lang { Some(l) => l@, None => "nl"@ }
                &&& c.quiet == quiet
            },
    {
        let ttl = match &args.cache_ttl {
            None => None,
            Some(s) => Some(parse_cache_ttl(s.as_str())),
        };
        Self::from_read_flags(args, quiet, ttl)
    }

    /// The request settings of the API flags, with the `--cache-ttl` value
    /// already read (`ttl`; `None` when the flag is absent): `--no-cache`
    /// with `--refresh` is refused first, then a value that could not be read.
    pub fn from_read_flags(args: &GlobalApiArgs, quiet: bool, ttl: Option<Result<TtlOverride>>) -> (r: Result<ApiContext>)
        ensures
            args.no_cache && args.refresh ==> r is Err
                && r->Err_0@ == verr("--no-cache and --refresh are mutually exclusive"@),
            !(args.no_cache && args.refresh) ==> match ttl {
                Some(Err(e)) => r == Err::<ApiContext, Error>(e),
                _ => r is Ok,
            },
            r is Ok ==> {
                let c = r->Ok_0;
                let o = read_override(ttl);
                &&& c.timeout == match args.timeout { Some(t) => t, None => (TimeSpan { secs: 30, nanos: 0 }) }
                &&& c.cache_ttl_override == o
                &&& c.cache_mode == mode_of(args.no_cache, args.refresh, o)
                &&& c.cache_dir == args.cache_dir
                &&& fields_view(c.fields) == match args.fields { Some(f) => Some(field_list(f@)), None => None }
                &&& c.limit == args.limit
                &&& c.offset == args.offset
                &&& c.lang@ == match args.lang { Some(l) => l@, None => "nl"@ }
                &&& c.quiet == quiet
            },
    {
        if args.no_cache && args.refresh {
            return Err(Error::new(ErrorKind::Validation, "--no-cache and --refresh are mutually exclusive"));
        }
        let cache_ttl_override = match ttl {
            None => None,
            Some(Ok(o)) => Some(o),
            Some(Err(e)) => return Err(e),
        };
        let disabled = match cache_ttl_override {
            Some(TtlOverride::Disabled) => true,
            _ => false,
        };
        let cache_mode = if args.no_cache || disabled {
            CacheMode::Bypass
        } else if args.refresh {
            CacheMode::Refresh
        } else {
            CacheMode::Default
        };
        let fields = match &args.fields {
            Some(f) => Some(parse_fields(f.as_str())),
            None => None,
        };
        let lang = match &args.lang {
            Some(l) => l.clone(),
            None => "nl".to_owned(),
        };
        Ok(ApiContext {
            timeout: match args.timeout {
                Some(t) => t,
                None => TimeSpan::from_secs(30),
            },
            cache_mode,
            cache_ttl_override,
            cache_dir: args.cache_dir.clone(),
            fields,
            limit: args.limit,
            offset: args.offset,
            lang,
            quiet,
        })
    }
}

/// The lifetime hint of a request: the `--cache-ttl` override when given,
/// else the endpoint's default.
pub open spec fn ttl_of(o: Option<TtlOverride>, default: TtlHint) -> TtlHint {
    match o {
        Some(TtlOverride::Disabled) => TtlHint::Uncached,
        Some(TtlOverride::Forever) => TtlHint::Never,
        Some(TtlOverride::Fixed(d)) => TtlHint::Fixed(d),
        None => default,
    }
}

pub fn resolve_ttl(ctx: &ApiContext, default: TtlHint) -> (r: TtlHint)
    ensures
        r == ttl_of(ctx.cache_ttl_override, default),
{
    match ctx.cache_ttl_override {
        Some(TtlOverride::Disabled) => TtlHint::Uncached,
        Some(TtlOverride::Forever) => TtlHint::Never,
        Some(TtlOverride::Fixed(d)) => TtlHint::Fixed(d),
        None => default,
    }
}

/// Whether `OPENARCHIEVEN_CACHE_DISABLE` (its value, when set) turns the cache off: only `1` does.
pub fn cache_disabled_via_env(value: Option<&str>) -> (r: bool)
    ensures
        r == (opt_str(value) == Some("1"@)),
{
    match value {
        Some(v) => str_eq(v, "1"),
        None => false,
    }
}

/// The local request rate from `OPENARCHIEVEN_RATE_LIMIT` (its value, when
/// set): a positive `u32`, anything else ignored.
pub fn rate_limit_from_env(value: Option<&str>) -> (r: Option<u32>)
    ensures
        r == match value {
            Some(v) => match parse_int_spec(v@, false, 0, u32::MAX as int) {
                Some(n) => if n > 0 { Some(n as u32) } else { None::<u32> },
                None => None::<u32>,
            },
            None => None::<u32>,
        },
{
    match value {
        Some(v) => match parse_u32(v) {
            Some(n) => if n > 0 { Some(n) } else { None },
            None => None,
        },
        None => None,
    }
}

/// The client configuration of a context: `base_url` is the resolved API
/// base, `rate_limit` the environment's rate (four per second by default).
pub fn client_config(api: &ApiContext, base_url: String, rate_limit: Option<u32>) -> (r: ClientConfig)
    ensures
        r.base_url == base_url,
        r.timeout == api.timeout,
        r.lang == api.lang,
        r.rate_limit_per_sec == match rate_limit { Some(n) => n, None => 4 },
        r.cache_mode == api.cache_mode,
{
    ClientConfig {
        base_url,
        timeout: api.timeout,
        lang: api.lang.clone(),
        rate_limit_per_sec: match rate_limit {
            Some(n) => n,
            None => 4,
        },
        cache_mode: api.cache_mode,
    }
}

/// The cache directory to open, if any: none when caching is bypassed or
/// disabled through the environment; else `--cache-dir`, else the
/// platform's default (`default_dir`); an error when there is neither.
pub fn build_cache(api: &ApiContext, env_disabled: bool, default_dir: Option<String>) -> (r: Result<Option<String>>)
    ensures
        api.cache_mode == CacheMode::Bypass || env_disabled ==> r == Ok::<Option<String>, Error>(None),
        !(api.cache_mode == CacheMode::Bypass || env_disabled) ==> match api.cache_dir {
            Some(d) => r == Ok::<Option<String>, Error>(Some(d)),
            None => match default_dir {
                Some(d) => r == Ok::<Option<String>, Error>(Some(d)),
                None => r is Err && r->Err_0@ == verr(
                    "could not determine cache directory; pass --cache-dir or set OPENARCHIEVEN_CACHE_DIR"@,
                ),
            },
        },
{
    if api.cache_mode == CacheMode::Bypass || env_disabled {
        return Ok(None);
    }
    match &api.cache_dir {
        Some(d) => Ok(Some(d.clone())),
        None => match default_dir {
            Some(d) => Ok(Some(d)),
            None => Err(Error::new(
                ErrorKind::Validation,
                "could not determine cache directory; pass --cache-dir or set OPENARCHIEVEN_CACHE_DIR",
            )),
        },
    }
}

} // verus!
