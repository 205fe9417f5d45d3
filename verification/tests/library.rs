use monoize::frontend::{frontend_target, FrontendTarget};
use monoize::decimal::i64_to_decimal;
use monoize::app::{multiplier_nano, parse_pricing_i128, RuntimeConfig, RuntimeEnv};
use monoize::auth::{is_api_key_token, AuthState, InternalRequestSource};
use monoize::billing_rate_store::default_true;
use monoize::bounded_response::{
    upstream_discovery_max_bytes_from_raw, BodyLimit, BoundedResponseError, DEFAULT_UPSTREAM_DISCOVERY_MAX_BYTES,
};
use monoize::custom_transforms::frontmatter::{
    is_valid_custom_transform_id, parse_frontmatter, CustomTransformVisibility,
};
use monoize::custom_transforms::sandbox::{
    classify_outcome, console_log_level, ConsoleLogLevel, SandboxDataKind, SandboxEnv, SandboxLimits,
};
use monoize::db::{dsn_backend, is_sqlite_memory_dsn, sqlite_file_dsn, sqlite_file_path, DbBackend};
use monoize::decimal::{parse_i128, parse_u64, parse_usize, u64_to_decimal};
use monoize::error::{app_error, AppError};
use monoize::glob::case_sensitive_glob_match;
use monoize::transforms::{Phase, TransformScope};

#[test]
fn case_sensitive_glob_rules() {
    assert!(case_sensitive_glob_match("gpt-*", "gpt-5"));
    assert!(!case_sensitive_glob_match("gpt-*", "GPT-5"));
    assert!(case_sensitive_glob_match("*", ""));
    assert!(case_sensitive_glob_match("a?c", "a\nc"));
    assert!(case_sensitive_glob_match("*a*b", "xxaxxb"));
    assert!(!case_sensitive_glob_match("*a*b", "xxbxxa"));
    assert!(case_sensitive_glob_match("ünï*", "ünïcode"));
}

#[test]
fn transform_ids() {
    assert!(is_valid_custom_transform_id("js:abc-123"));
    assert!(!is_valid_custom_transform_id("js:"));
    assert!(!is_valid_custom_transform_id("js:a--b"));
    assert!(!is_valid_custom_transform_id("js:ABC"));
    assert!(!is_valid_custom_transform_id("py:abc"));
    let long = format!("js:{}", "a".repeat(62));
    assert!(!is_valid_custom_transform_id(&long));
    let fits = format!("js:{}", "a".repeat(61));
    assert!(is_valid_custom_transform_id(&fits));
}

#[test]
fn frontmatter_full_block() {
    let src = "/**\n * @monoize-transform\n * id: js:strip-tags\n * name: Strip tags\n * description: Removes tags\n * author: ops\n * phase: response\n * scopes: global, api_key\n * visibility: user\n */\nfunction transform(ctx) {}";
    let meta = parse_frontmatter(src).expect("parses");
    assert_eq!(meta.id, "js:strip-tags");
    assert_eq!(meta.name, "Strip tags");
    assert_eq!(meta.phases, vec![Phase::Response]);
    assert_eq!(meta.scopes, vec![TransformScope::Global, TransformScope::ApiKey]);
    assert_eq!(meta.visibility, CustomTransformVisibility::User);
}

#[test]
fn frontmatter_defaults_and_refusals() {
    let src = "/* @monoize-transform\nid: js:x\nname: X\ndescription: d\nauthor: a\n*/";
    let meta = parse_frontmatter(src).expect("parses");
    assert_eq!(meta.phases, vec![Phase::Request, Phase::Response]);
    assert_eq!(meta.scopes, vec![TransformScope::Provider, TransformScope::Global, TransformScope::ApiKey]);
    assert_eq!(meta.visibility, CustomTransformVisibility::Admin);

    assert_eq!(
        parse_frontmatter("function f() {}").err(),
        Some("source must begin with a /* ... */ frontmatter block comment".to_string())
    );
    assert_eq!(
        parse_frontmatter("/* @monoize-transform").err(),
        Some("frontmatter block comment is not terminated with */".to_string())
    );
    assert_eq!(
        parse_frontmatter("/* hello */").err(),
        Some("the first frontmatter line must be exactly '@monoize-transform'".to_string())
    );
    assert_eq!(
        parse_frontmatter("/* @monoize-transform\ncolor: red\n*/").err(),
        Some("unknown frontmatter key 'color'".to_string())
    );
    assert_eq!(
        parse_frontmatter("/* @monoize-transform\nid: js:a\nid: js:b\n*/").err(),
        Some("duplicated frontmatter key 'id'".to_string())
    );
    assert_eq!(
        parse_frontmatter("/* @monoize-transform\nid: js:a\nname: n\ndescription: d\nauthor: a\nscopes: global, global\n*/").err(),
        Some("duplicated scope 'global'".to_string())
    );
    assert_eq!(
        parse_frontmatter("/* @monoize-transform\nname: n\n*/").err(),
        Some("required frontmatter key 'id' is missing or empty".to_string())
    );
    assert_eq!(CustomTransformVisibility::parse("user"), Some(CustomTransformVisibility::User));
    assert_eq!(CustomTransformVisibility::Admin.as_str(), "admin");
}

#[test]
fn decimal_text() {
    assert_eq!(parse_i128("-170141183460469231731687303715884105728"), Some(i128::MIN));
    assert_eq!(parse_i128("170141183460469231731687303715884105728"), None);
    assert_eq!(parse_i128("+42"), Some(42));
    assert_eq!(parse_i128("4 2"), None);
    assert_eq!(parse_usize("+7"), Some(7));
    assert_eq!(parse_usize("-7"), None);
    assert_eq!(parse_u64("18446744073709551615"), Some(u64::MAX));
    assert_eq!(parse_u64("18446744073709551616"), None);
    let s: String = u64_to_decimal(9_007_199_254_740_993).into_iter().collect();
    assert_eq!(s, "9007199254740993");
    let z: String = u64_to_decimal(0).into_iter().collect();
    assert_eq!(z, "0");
    assert_eq!(parse_pricing_i128(Some("250".to_string())), Some(250));
    assert_eq!(parse_pricing_i128(None), None);
    assert_eq!(multiplier_nano("1.234567891999999999"), Some(1_234_567_891));
    assert!(default_true());
}

#[test]
fn discovery_limit_configuration() {
    assert_eq!(upstream_discovery_max_bytes_from_raw(None), DEFAULT_UPSTREAM_DISCOVERY_MAX_BYTES);
    assert_eq!(upstream_discovery_max_bytes_from_raw(Some(" 1024 ")), 1024);
    assert_eq!(upstream_discovery_max_bytes_from_raw(Some("+1024")), 16_777_216);
    assert_eq!(upstream_discovery_max_bytes_from_raw(Some("0")), 16_777_216);
    assert_eq!(upstream_discovery_max_bytes_from_raw(Some("")), 16_777_216);
}

#[test]
fn body_limit_refuses_oversized_bodies() {
    match BodyLimit::start(10, Some(11)) {
        Err(e) => {
            assert!(e.is_limit_exceeded());
            assert_eq!(
                e.message(),
                "upstream discovery response exceeds the 10-byte limit: Content-Length is 11"
            );
        }
        Ok(_) => panic!("declared length above the limit must be refused"),
    }
    let mut limit = match BodyLimit::start(10, None) {
        Ok(l) => l,
        Err(_) => panic!("no declared length"),
    };
    assert!(limit.accept_chunk(6).is_ok());
    assert!(limit.accept_chunk(4).is_ok());
    let e = limit.accept_chunk(1).err().expect("over the limit");
    assert_eq!(e.message(), "upstream discovery response exceeds the 10-byte limit while reading the body");
    assert_eq!(limit.received(), 10);
    let read = BoundedResponseError::BodyRead { message: "reset".to_string() };
    assert!(!read.is_limit_exceeded());
    assert_eq!(read.message(), "failed to read upstream discovery response body: reset");
}

#[test]
fn sandbox_limits_from_configuration() {
    let d = SandboxLimits::default();
    assert_eq!(d.memory_limit_bytes, 32 * 1024 * 1024);
    assert_eq!(d.fetch_max_calls, 16);
    let env = SandboxEnv {
        memory_limit_bytes: Some(" 1048576 ".to_string()),
        stack_limit_bytes: Some("0".to_string()),
        timeout_ms: Some("abc".to_string()),
        fetch_max_bytes: None,
        fetch_max_calls: Some("4294967298".to_string()),
    };
    let l = SandboxLimits::from_env(&env);
    assert_eq!(l.memory_limit_bytes, 1_048_576);
    assert_eq!(l.stack_limit_bytes, 1024 * 1024);
    assert_eq!(l.timeout_ms, 10_000);
    assert_eq!(l.fetch_max_bytes, 8 * 1024 * 1024);
    assert_eq!(l.fetch_max_calls, 2);
}

#[test]
fn sandbox_outcomes_are_classified() {
    assert_eq!(classify_outcome("request", "data", None, Some(true), None), Ok(SandboxDataKind::Single));
    assert_eq!(
        classify_outcome("request", "data", None, Some(false), None),
        Err("transform result payload must be an object".to_string())
    );
    assert_eq!(classify_outcome("stream", "null", None, None, None), Ok(SandboxDataKind::Dropped));
    assert_eq!(classify_outcome("stream", "array", None, None, Some(true)), Ok(SandboxDataKind::Fanout));
    assert_eq!(
        classify_outcome("response", "null", None, None, None),
        Err("transform returned null; a response transform must return undefined or an object".to_string())
    );
    assert_eq!(
        classify_outcome("request", "number", Some("number"), None, None),
        Err("transform returned a value of type 'number'; expected undefined or an object".to_string())
    );
    assert_eq!(console_log_level("warn"), ConsoleLogLevel::Warn);
    assert_eq!(console_log_level("debug"), ConsoleLogLevel::Info);
}

#[test]
fn runtime_configuration_defaults() {
    let c = RuntimeConfig::from_env(RuntimeEnv {
        listen: Some("   ".to_string()),
        metrics_path: None,
        database_dsn: None,
        database_url: Some("postgres://db".to_string()),
    });
    assert_eq!(c.listen, "0.0.0.0:8080");
    assert_eq!(c.metrics_path, "/metrics");
    assert_eq!(c.database_dsn, "postgres://db");
    let c = RuntimeConfig::from_env(RuntimeEnv {
        listen: Some(":9000".to_string()),
        metrics_path: Some("/m".to_string()),
        database_dsn: None,
        database_url: None,
    });
    assert_eq!(c.listen, ":9000");
    assert_eq!(c.database_dsn, "sqlite://./data/monoize.db");
}

#[test]
fn database_dsns() {
    assert_eq!(dsn_backend(" sqlite://./a.db "), Ok(DbBackend::Sqlite));
    assert_eq!(dsn_backend("postgresql://h/db"), Ok(DbBackend::Postgres));
    assert_eq!(dsn_backend("mysql://h"), Err("unsupported database DSN scheme: mysql://h".to_string()));
    assert!(is_sqlite_memory_dsn("sqlite::memory:"));
    assert!(is_sqlite_memory_dsn("sqlite://file?mode=memory&cache=shared"));
    assert!(!is_sqlite_memory_dsn("sqlite://./data/monoize.db"));
    assert_eq!(sqlite_file_dsn("sqlite://./a.db"), "sqlite://./a.db?mode=rwc");
    assert_eq!(sqlite_file_dsn("sqlite://./a.db?mode=ro"), "sqlite://./a.db?mode=ro");
    assert_eq!(sqlite_file_path(" sqlite://./data/m.db?x=1 "), Some("./data/m.db".to_string()));
    assert_eq!(sqlite_file_path("sqlite://sqlite://x.db"), Some("x.db".to_string()));
    assert_eq!(sqlite_file_path("sqlite://"), None);
    assert_eq!(sqlite_file_path("sqlite://:memory:"), None);
    assert_eq!(sqlite_file_path("postgres://h"), None);
}

#[test]
fn api_key_tokens_and_auth_values() {
    assert!(is_api_key_token("sk-123456789"));
    assert!(!is_api_key_token("sk-12345678"));
    assert!(!is_api_key_token("pk-1234567890"));
    assert_eq!(InternalRequestSource::Playground.request_kind(), "playground");
    let _ = AuthState::new();
    let _ = AuthState::default();
}

#[test]
fn error_values() {
    let e = app_error(404, "not_found", "missing");
    assert_eq!(e.error_type, "invalid_request_error");
    let e = AppError::new(400, "c".to_string(), "m".to_string())
        .with_type("t".to_string())
        .with_param("p".to_string());
    assert_eq!((e.status, e.error_type.as_str(), e.param.as_deref()), (400, "t", Some("p")));
}

#[test]
fn signed_decimal_text() {
    let s: String = i64_to_decimal(i64::MIN).into_iter().collect();
    assert_eq!(s, "-9223372036854775808");
    let s: String = i64_to_decimal(-5).into_iter().collect();
    assert_eq!(s, "-5");
    let s: String = i64_to_decimal(120).into_iter().collect();
    assert_eq!(s, "120");
}

#[test]
fn dashboard_pages_resolve_to_assets() {
    assert!(matches!(frontend_target(false, "/index.html"), FrontendTarget::NotFound));
    assert!(matches!(frontend_target(true, "/"), FrontendTarget::Index));
    assert!(matches!(frontend_target(true, "//api/users"), FrontendTarget::NotFound));
    assert!(matches!(frontend_target(true, "/api"), FrontendTarget::NotFound));
    assert!(matches!(frontend_target(true, "/apiary"), FrontendTarget::AssetOrIndex(p) if p == "apiary"));
    assert!(matches!(frontend_target(true, "/assets/app.js"), FrontendTarget::AssetOrIndex(p) if p == "assets/app.js"));
}
