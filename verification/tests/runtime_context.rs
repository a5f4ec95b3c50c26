use openarchieven::cli::{FormatArg, GlobalApiArgs};
use openarchieven::client::{CacheMode, TtlHint};
use openarchieven::error::ErrorKind;
use openarchieven::runtime::{
    build_cache, cache_disabled_via_env, cache_ttl_is_safe, client_config, parse_fields, rate_limit_from_env, resolve_ttl, ttl_override_from,
    ApiContext, GlobalArgs, TtlOverride,
};
use openarchieven::span::TimeSpan;
use openarchieven::tty::Format;

fn args() -> GlobalApiArgs {
    GlobalApiArgs::default()
}

fn secs(n: u64) -> TimeSpan {
    TimeSpan::from_secs(n)
}

#[test]
fn from_global_args_no_cache_and_refresh_conflict() {
    let mut g = args();
    g.no_cache = true;
    g.refresh = true;
    let err = ApiContext::from_global_args(&g, false).unwrap_err();
    assert_eq!(err.kind(), ErrorKind::Validation);
}

#[test]
fn from_global_args_lang_defaults_to_nl() {
    let ctx = ApiContext::from_global_args(&args(), false).unwrap();
    assert_eq!(ctx.lang, "nl");
}

#[test]
fn no_cache_and_refresh_conflict() {
    let mut a = args();
    a.no_cache = true;
    a.refresh = true;
    let err = ApiContext::from_global_args(&a, false).unwrap_err();
    assert_eq!(err.kind(), ErrorKind::Validation);
    assert_eq!(err.message(), "--no-cache and --refresh are mutually exclusive");
}

#[test]
fn cache_ttl_zero_means_bypass() {
    let mut a = args();
    a.cache_ttl = Some("0".into());
    let ctx = ApiContext::from_global_args(&a, false).unwrap();
    assert!(matches!(ctx.cache_mode, CacheMode::Bypass));
}

#[test]
fn cache_ttl_inf_means_forever() {
    let mut a = args();
    a.cache_ttl = Some("inf".into());
    let ctx = ApiContext::from_global_args(&a, false).unwrap();
    assert!(matches!(ctx.cache_ttl_override, Some(TtlOverride::Forever)));
}

#[test]
fn fields_csv_is_parsed() {
    let mut a = args();
    a.fields = Some("name, year ,place".into());
    let ctx = ApiContext::from_global_args(&a, false).unwrap();
    assert_eq!(ctx.fields.unwrap(), vec!["name", "year", "place"]);
}

#[test]
fn fields_drop_empty_pieces() {
    assert_eq!(parse_fields(" a,, b ,\t,c"), vec!["a", "b", "c"]);
    assert!(parse_fields(" , ").is_empty());
}

#[test]
fn lang_defaults_to_nl() {
    let ctx = ApiContext::from_global_args(&args(), false).unwrap();
    assert_eq!(ctx.lang, "nl");
}

#[test]
fn refresh_flag_sets_refresh_mode() {
    let mut a = args();
    a.refresh = true;
    let ctx = ApiContext::from_global_args(&a, false).unwrap();
    assert!(matches!(ctx.cache_mode, CacheMode::Refresh));
}

#[test]
fn cache_ttl_invalid_string_is_validation_error() {
    let mut a = args();
    a.cache_ttl = Some("notaduration".into());
    let err = ApiContext::from_global_args(&a, false).unwrap_err();
    assert_eq!(err.kind(), ErrorKind::Validation);
    assert!(err.message().starts_with("--cache-ttl notaduration: "), "{}", err.message());
}

#[test]
fn rate_limit_env_returns_none_for_unset() {
    let parsed: Option<u32> = rate_limit_from_env(Some("0"));
    assert_eq!(parsed, None);
    assert_eq!(rate_limit_from_env(None), None);
}

#[test]
fn rate_limit_env_rejects_zero_and_garbage() {
    for bad in ["0", "-1", "abc", ""] {
        let parsed: Option<u32> = rate_limit_from_env(Some(bad));
        assert_eq!(parsed, None, "{bad}");
    }
}

#[test]
fn rate_limit_from_env_returns_some_for_valid_positive() {
    assert_eq!(rate_limit_from_env(Some("10")), Some(10));
    assert_eq!(rate_limit_from_env(Some("+7")), Some(7));
}

#[test]
fn cache_disabled_via_env_only_for_one() {
    assert!(cache_disabled_via_env(Some("1")));
    assert!(!cache_disabled_via_env(Some("0")));
    assert!(!cache_disabled_via_env(Some("true")));
    assert!(!cache_disabled_via_env(None));
}

#[test]
fn cache_ttl_humantime_duration_sets_fixed_ttl() {
    let mut a = args();
    a.cache_ttl = Some("1h".into());
    let ctx = ApiContext::from_global_args(&a, false).unwrap();
    assert!(matches!(ctx.cache_ttl_override, Some(TtlOverride::Fixed(d)) if d == secs(3600)));
    assert!(matches!(ctx.cache_mode, CacheMode::Default));
}

#[test]
fn no_cache_flag_sets_bypass_mode() {
    let mut a = args();
    a.no_cache = true;
    let ctx = ApiContext::from_global_args(&a, false).unwrap();
    assert!(matches!(ctx.cache_mode, CacheMode::Bypass));
}

#[test]
fn timeout_arg_is_respected() {
    let mut a = args();
    a.timeout = Some(secs(10));
    let ctx = ApiContext::from_global_args(&a, false).unwrap();
    assert_eq!(ctx.timeout, secs(10));
}

#[test]
fn timeout_defaults_to_thirty_seconds() {
    let ctx = ApiContext::from_global_args(&args(), true).unwrap();
    assert_eq!(ctx.timeout, secs(30));
    assert!(ctx.quiet);
}

#[test]
fn empty_fields_string_produces_empty_vec() {
    let mut a = args();
    a.fields = Some("".into());
    let ctx = ApiContext::from_global_args(&a, false).unwrap();
    assert!(ctx.fields.as_ref().unwrap().is_empty());
}

#[test]
fn lang_arg_overrides_default() {
    let mut a = args();
    a.lang = Some("en".into());
    let ctx = ApiContext::from_global_args(&a, false).unwrap();
    assert_eq!(ctx.lang, "en");
}

#[test]
fn limit_and_offset_are_passed_through() {
    let mut a = args();
    a.limit = Some(20);
    a.offset = Some(5);
    let ctx = ApiContext::from_global_args(&a, false).unwrap();
    assert_eq!(ctx.limit, Some(20));
    assert_eq!(ctx.offset, Some(5));
}

#[test]
fn resolve_ttl_disabled_override_returns_none() {
    let mut a = args();
    a.cache_ttl = Some("0".into());
    let ctx = ApiContext::from_global_args(&a, false).unwrap();
    let hint = resolve_ttl(&ctx, TtlHint::Fixed(secs(60)));
    assert!(matches!(hint, TtlHint::Uncached));
}

#[test]
fn resolve_ttl_forever_override_returns_never() {
    let mut a = args();
    a.cache_ttl = Some("inf".into());
    let ctx = ApiContext::from_global_args(&a, false).unwrap();
    let hint = resolve_ttl(&ctx, TtlHint::Fixed(secs(60)));
    assert!(matches!(hint, TtlHint::Never));
}

#[test]
fn resolve_ttl_fixed_override_replaces_default() {
    let mut a = args();
    a.cache_ttl = Some("30m".into());
    let ctx = ApiContext::from_global_args(&a, false).unwrap();
    let hint = resolve_ttl(&ctx, TtlHint::UntilMidnight);
    assert!(matches!(hint, TtlHint::Fixed(d) if d == secs(1800)));
}

#[test]
fn resolve_ttl_no_override_returns_default() {
    let ctx = ApiContext::from_global_args(&args(), false).unwrap();
    let hint = resolve_ttl(&ctx, TtlHint::UntilMidnight);
    assert!(matches!(hint, TtlHint::UntilMidnight));
}

#[test]
fn cache_ttl_zero_duration_via_humantime_means_bypass() {
    let mut a = args();
    a.cache_ttl = Some("0s".into());
    match ApiContext::from_global_args(&a, false) {
        Ok(ctx) => assert!(matches!(ctx.cache_mode, CacheMode::Bypass)),
        Err(e) => assert_eq!(e.kind(), ErrorKind::Validation),
    }
}

#[test]
fn build_cache_returns_none_when_bypass() {
    let mut a = args();
    a.no_cache = true;
    let ctx = ApiContext::from_global_args(&a, false).unwrap();
    let result = build_cache(&ctx, false, Some("/tmp/cache".to_string())).unwrap();
    assert!(result.is_none());
}

#[test]
fn build_cache_with_explicit_dir_returns_some() {
    let mut a = args();
    a.cache_dir = Some("/tmp/explicit".into());
    let ctx = ApiContext::from_global_args(&a, false).unwrap();
    let result = build_cache(&ctx, false, Some("/tmp/default".to_string())).unwrap();
    assert_eq!(result.as_deref(), Some("/tmp/explicit"));
}

#[test]
fn build_cache_returns_none_when_env_disable_is_1() {
    let mut a = args();
    a.cache_dir = Some("/tmp/explicit".into());
    let ctx = ApiContext::from_global_args(&a, false).unwrap();
    let result = build_cache(&ctx, cache_disabled_via_env(Some("1")), None).unwrap();
    assert!(result.is_none());
}

#[test]
fn build_cache_without_any_dir_is_validation_error() {
    let ctx = ApiContext::from_global_args(&args(), false).unwrap();
    let err = build_cache(&ctx, false, None).unwrap_err();
    assert_eq!(err.kind(), ErrorKind::Validation);
    assert_eq!(
        err.message(),
        "could not determine cache directory; pass --cache-dir or set OPENARCHIEVEN_CACHE_DIR"
    );
    let found = build_cache(&ctx, false, Some("/tmp/default".to_string())).unwrap();
    assert_eq!(found.as_deref(), Some("/tmp/default"));
}

#[test]
fn client_config_uses_context_and_default_rate() {
    let mut a = args();
    a.lang = Some("en".into());
    let ctx = ApiContext::from_global_args(&a, false).unwrap();
    let cfg = client_config(&ctx, "https://example.test".to_string(), None);
    assert_eq!(cfg.base_url, "https://example.test");
    assert_eq!(cfg.lang, "en");
    assert_eq!(cfg.rate_limit_per_sec, 4);
    assert_eq!(cfg.timeout, secs(30));
    let cfg = client_config(&ctx, "https://example.test".to_string(), Some(9));
    assert_eq!(cfg.rate_limit_per_sec, 9);
}

#[test]
fn global_args_explicit_json_output_flag() {
    let ga = GlobalArgs::from_flags(Some(FormatArg::Json), false, false, false, None, true, false);
    assert_eq!(ga.format, Format::Json);
    assert!(ga.pretty);
}

#[test]
fn global_args_explicit_table_output_flag() {
    let ga = GlobalArgs::from_flags(Some(FormatArg::Table), false, true, true, None, false, false);
    assert_eq!(ga.format, Format::Table);
    assert!(ga.quiet);
    assert!(ga.no_color);
    assert!(!ga.pretty);
}

#[test]
fn global_args_explicit_markdown_output_flag() {
    let ga = GlobalArgs::from_flags(Some(FormatArg::Markdown), false, false, false, Some("json"), false, false);
    assert_eq!(ga.format, Format::Markdown);
}

#[test]
fn global_args_env_and_no_color_env() {
    let ga = GlobalArgs::from_flags(None, false, false, false, Some("NDJSON"), true, true);
    assert_eq!(ga.format, Format::Ndjson);
    assert!(ga.no_color);
}

#[test]
fn cache_disabled_via_env_returns_true_when_set_to_1() {
    assert!(cache_disabled_via_env(Some("1")));
}

#[test]
fn cache_disabled_via_env_returns_false_for_other_values() {
    assert!(!cache_disabled_via_env(Some("0")));
}

#[test]
fn rate_limit_from_env_returns_none_for_zero() {
    assert_eq!(rate_limit_from_env(Some("0")), None);
}

#[test]
fn global_args_no_output_flag_uses_tty_detection() {
    let on_tty = GlobalArgs::from_flags(None, false, false, false, None, true, false);
    assert_eq!(on_tty.format, Format::Table);
    assert!(on_tty.pretty);
    let piped = GlobalArgs::from_flags(None, false, false, false, None, false, false);
    assert_eq!(piped.format, Format::Json);
    assert!(!piped.pretty);
}

#[test]
fn global_args_explicit_ndjson_output_flag() {
    let ga = GlobalArgs::from_flags(Some(FormatArg::Ndjson), true, false, false, Some("table"), true, false);
    assert_eq!(ga.format, Format::Ndjson);
    assert!(ga.pretty);
}

#[test]
fn read_cache_ttl_feeds_the_context() {
    let mut a = args();
    a.cache_ttl = Some("00000000000000000000000090s".into());
    let read = ttl_override_from("00000000000000000000000090s", Ok(TimeSpan { secs: 90, nanos: 0 }));
    let ctx = ApiContext::from_read_flags(&a, false, Some(read)).unwrap();
    assert_eq!(ctx.cache_ttl_override, Some(TtlOverride::Fixed(TimeSpan { secs: 90, nanos: 0 })));
    assert_eq!(ctx.cache_mode, CacheMode::Default);

    let zero = ttl_override_from("0000000000000000000000000s", Ok(TimeSpan { secs: 0, nanos: 0 }));
    let ctx = ApiContext::from_read_flags(&a, false, Some(zero)).unwrap();
    assert_eq!(ctx.cache_mode, CacheMode::Bypass);

    let bad = ttl_override_from("99999999999999999999999y", Err("number is too large".into()));
    let err = ApiContext::from_read_flags(&a, false, Some(bad)).unwrap_err();
    assert_eq!(err.kind(), ErrorKind::Validation);
    assert_eq!(err.message(), "--cache-ttl 99999999999999999999999y: number is too large");

    a.no_cache = true;
    a.refresh = true;
    let bad = ttl_override_from("x", Err("expected number at 0".into()));
    let err = ApiContext::from_read_flags(&a, false, Some(bad)).unwrap_err();
    assert_eq!(err.message(), "--no-cache and --refresh are mutually exclusive");
}

#[test]
fn cache_ttl_safety_refuses_only_values_near_the_largest_duration() {
    assert!(cache_ttl_is_safe("24h"));
    assert!(cache_ttl_is_safe("10000000000000000000ns"));
    assert!(cache_ttl_is_safe("600000000000s"));
    assert!(cache_ttl_is_safe("600000000000y"));
    assert!(cache_ttl_is_safe("99999999999999999999s"));
    assert!(cache_ttl_is_safe("5124095576030431h"));
    assert!(cache_ttl_is_safe("5124095576030431h 15s"));
    assert!(cache_ttl_is_safe("1 2 3 s 4.5 min"));
    assert!(!cache_ttl_is_safe("5124095576030431h 15s 0.5s 0.5s"));
    assert!(!cache_ttl_is_safe("5124095576030431h 15s 500ms 500ms"));
}

#[test]
fn long_cache_ttl_reads_as_a_duration() {
    let mut a = args();
    a.cache_ttl = Some("10000000000000000000ns".into());
    let ctx = ApiContext::from_global_args(&a, true).unwrap();
    assert!(matches!(ctx.cache_ttl_override, Some(TtlOverride::Fixed(d)) if d == secs(10_000_000_000)));
}
