use objection::config::{
    AccessControlConfig, Config, ContentTypesConfig, CorsConfig, IpFilterConfig, RateLimitingConfig,
};
use objection::gate::chain::{PolicyGate, RequestMeta};
use objection::gate::filters::{
    all_in, any_contains, content_type_excludes, cors_filter, ip_filter_excludes, normalize_declared,
    token_check_fails, CorsRequest, Declared, PolicyRejection,
};
use objection::gate::limiter::{BucketState, RateLimiter};
use objection::gate::request::{
    classify_origin, is_same_origin, presented_token, split_list, token_is_valid,
};
use objection::net::{CidrBlock, IpAddress};

fn open_config() -> Config {
    let mut c = Config::default();
    c.access_control.enable_access_tokens = false;
    c
}

fn meta(addr: u32, now: i64) -> RequestMeta {
    RequestMeta {
        remote_addr: Some(IpAddress::V4(addr)),
        now,
        valid_token: false,
        cors: CorsRequest::NoOrigin,
    }
}

fn strings(items: &[&str]) -> Vec<String> {
    items.iter().map(|s| s.to_string()).collect()
}

fn ten_slash_eight() -> Vec<CidrBlock> {
    vec![CidrBlock { address: IpAddress::V4(0x0a00_0000), prefix_len: 8 }]
}

fn cors_config() -> CorsConfig {
    CorsConfig {
        allow_origins: strings(&["https://app.example.com"]),
        allow_methods: strings(&["GET", "PUT"]),
        allow_headers: strings(&["content-type", "authorization"]),
        allow_credentials: true,
    }
}

#[test]
fn allow_list_excludes_what_it_does_not_hold() {
    let f = IpFilterConfig::Whitelist(ten_slash_eight());
    assert!(!ip_filter_excludes(&f, &Some(IpAddress::V4(0x0a01_0203))));
    assert!(ip_filter_excludes(&f, &Some(IpAddress::V4(0x0b01_0203))));
    assert!(ip_filter_excludes(&f, &Some(IpAddress::V6(1))));
    assert!(ip_filter_excludes(&f, &None));
    assert!(ip_filter_excludes(&IpFilterConfig::Whitelist(Vec::new()), &Some(IpAddress::V4(1))));
}

#[test]
fn deny_list_excludes_what_it_holds() {
    let f = IpFilterConfig::Blacklist(ten_slash_eight());
    assert!(ip_filter_excludes(&f, &Some(IpAddress::V4(0x0a01_0203))));
    assert!(!ip_filter_excludes(&f, &Some(IpAddress::V4(0x0b01_0203))));
    assert!(!ip_filter_excludes(&f, &None));
    assert!(any_contains(&ten_slash_eight(), &IpAddress::V4(0x0a00_0001)));
    assert!(!any_contains(&Vec::new(), &IpAddress::V4(0x0a00_0001)));
}

#[test]
fn token_is_needed_unless_disabled_or_bypassed_on_loopback() {
    let strict = AccessControlConfig { enable_access_tokens: true, enable_local_host_auth_bypass: false };
    let bypass = AccessControlConfig { enable_access_tokens: true, enable_local_host_auth_bypass: true };
    let off = AccessControlConfig { enable_access_tokens: false, enable_local_host_auth_bypass: false };
    let local = Some(IpAddress::V4(0x7f00_0001));
    let remote = Some(IpAddress::V4(0x0a00_0001));
    assert!(token_check_fails(&strict, &local, false));
    assert!(token_check_fails(&strict, &remote, false));
    assert!(!token_check_fails(&strict, &remote, true));
    assert!(!token_check_fails(&bypass, &local, false));
    assert!(!token_check_fails(&bypass, &Some(IpAddress::V6(1)), false));
    assert!(token_check_fails(&bypass, &remote, false));
    assert!(token_check_fails(&bypass, &None, false));
    assert!(!token_check_fails(&bypass, &remote, true));
    assert!(!token_check_fails(&off, &remote, false));
    assert!(!token_check_fails(&off, &None, false));
}

#[test]
fn content_type_lists_compare_normalised_types() {
    let allow = ContentTypesConfig::Whitelist(strings(&["text/plain", "image/png"]));
    let deny = ContentTypesConfig::Blacklist(strings(&["text/plain", "image/png"]));
    let plain = Some("text/plain".to_string());
    let html = Some("text/html".to_string());
    assert!(!content_type_excludes(&allow, &plain));
    assert!(content_type_excludes(&allow, &html));
    assert!(content_type_excludes(&allow, &None));
    assert!(content_type_excludes(&deny, &plain));
    assert!(!content_type_excludes(&deny, &html));
    assert!(!content_type_excludes(&deny, &None));
}

#[test]
fn declared_type_is_normalised_before_it_is_compared() {
    let write = |t: &str| Declared::Write { content_type: Some(t.to_string()) };
    assert_eq!(normalize_declared(&write("Text/PLAIN")), Some("text/plain".to_string()));
    assert_eq!(normalize_declared(&write("image/png")), Some("image/png".to_string()));
    assert_eq!(normalize_declared(&write("not a type")), None);
    assert_eq!(normalize_declared(&Declared::Write { content_type: None }), None);
    assert_eq!(normalize_declared(&Declared::Read), None);
}

#[test]
fn limiter_admits_the_burst_and_rejects_the_fourth() {
    let cfg = RateLimitingConfig { default_period: 1_000, default_burst_size: 3 };
    let mut l = RateLimiter::new();
    let caller = Some(IpAddress::V4(0x0a00_0001));
    let answers: Vec<bool> = (0..4).map(|_| l.check(&cfg, caller, 50)).collect();
    assert_eq!(answers, [true, true, true, false]);
    assert!(!l.check(&cfg, caller, 50));
}

#[test]
fn limiter_keeps_one_bucket_per_caller() {
    let cfg = RateLimitingConfig { default_period: 1_000, default_burst_size: 1 };
    let mut l = RateLimiter::new();
    let a = Some(IpAddress::V4(1));
    let b = Some(IpAddress::V4(2));
    assert!(l.check(&cfg, a, 0));
    assert!(!l.check(&cfg, a, 0));
    assert!(l.check(&cfg, b, 0));
    assert!(l.check(&cfg, None, 0));
    assert!(!l.check(&cfg, None, 0));
    assert!(!l.check(&cfg, b, 0));
    assert!(l.check(&cfg, Some(IpAddress::V6(1)), 0));
}

#[test]
fn limiter_gives_one_token_back_per_period() {
    let cfg = RateLimitingConfig { default_period: 100, default_burst_size: 2 };
    let mut l = RateLimiter::new();
    let c = Some(IpAddress::V4(9));
    assert!(l.check(&cfg, c, 1_000));
    assert!(l.check(&cfg, c, 1_000));
    assert!(!l.check(&cfg, c, 1_099));
    assert!(l.check(&cfg, c, 1_100));
    assert!(!l.check(&cfg, c, 1_150));
    assert!(l.check(&cfg, c, 1_200));
    assert!(!l.check(&cfg, c, 1_200));
    assert!(l.check(&cfg, c, 5_000));
    assert!(l.check(&cfg, c, 5_000));
    assert!(!l.check(&cfg, c, 5_000));
    assert!(!l.check(&cfg, c, 10));
}

#[test]
fn refill_counts_whole_periods_and_stops_at_the_burst() {
    let cfg = RateLimitingConfig { default_period: 100, default_burst_size: 5 };
    let st = BucketState { tokens: 1, stamp: 1_000 };
    assert_eq!(RateLimiter::refill(&cfg, st, 1_000), st);
    assert_eq!(RateLimiter::refill(&cfg, st, 900), st);
    assert_eq!(RateLimiter::refill(&cfg, st, 1_099), st);
    assert_eq!(RateLimiter::refill(&cfg, st, 1_100), BucketState { tokens: 2, stamp: 1_100 });
    assert_eq!(RateLimiter::refill(&cfg, st, 1_350), BucketState { tokens: 4, stamp: 1_300 });
    assert_eq!(RateLimiter::refill(&cfg, st, 1_400), BucketState { tokens: 5, stamp: 1_400 });
    assert_eq!(RateLimiter::refill(&cfg, st, i64::MAX), BucketState { tokens: 5, stamp: i64::MAX });
    let far = BucketState { tokens: 0, stamp: i64::MIN };
    assert_eq!(RateLimiter::refill(&cfg, far, i64::MAX), BucketState { tokens: 5, stamp: i64::MAX });
    let instant = RateLimitingConfig { default_period: 0, default_burst_size: 5 };
    assert_eq!(RateLimiter::refill(&instant, st, 1_001), BucketState { tokens: 5, stamp: 1_001 });
}

#[test]
fn cors_adds_nothing_without_a_section_or_an_origin() {
    let pre = CorsRequest::Preflight {
        origin: "https://evil.example".to_string(),
        method: "DELETE".to_string(),
        headers: Vec::new(),
    };
    let d = cors_filter(&None, &pre).unwrap();
    assert!(d.allow_origin.is_none() && !d.allow_credentials);
    assert!(d.allow_methods.is_empty() && d.allow_headers.is_empty());
    let d = cors_filter(&Some(cors_config()), &CorsRequest::NoOrigin).unwrap();
    assert!(d.allow_origin.is_none() && !d.allow_credentials);
}

#[test]
fn cors_answers_an_actual_request_by_its_origin() {
    let cfg = Some(cors_config());
    let ok = cors_filter(&cfg, &CorsRequest::Actual { origin: "https://app.example.com".to_string() })
        .unwrap();
    assert_eq!(ok.allow_origin, Some("https://app.example.com".to_string()));
    assert!(ok.allow_credentials);
    assert!(ok.allow_methods.is_empty() && ok.allow_headers.is_empty());
    let other =
        cors_filter(&cfg, &CorsRequest::Actual { origin: "https://evil.example".to_string() }).unwrap();
    assert!(other.allow_origin.is_none() && !other.allow_credentials);
}

#[test]
fn cors_answers_or_refuses_a_preflight() {
    let cfg = Some(cors_config());
    let pre = |origin: &str, method: &str, headers: &[&str]| CorsRequest::Preflight {
        origin: origin.to_string(),
        method: method.to_string(),
        headers: strings(headers),
    };
    let ok = cors_filter(&cfg, &pre("https://app.example.com", "PUT", &["content-type"])).unwrap();
    assert_eq!(ok.allow_origin, Some("https://app.example.com".to_string()));
    assert!(ok.allow_credentials);
    assert_eq!(ok.allow_methods, ["GET", "PUT"]);
    assert_eq!(ok.allow_headers, ["content-type", "authorization"]);
    assert!(cors_filter(&cfg, &pre("https://app.example.com", "GET", &[])).is_some());
    assert!(cors_filter(&cfg, &pre("https://evil.example", "PUT", &[])).is_none());
    assert!(cors_filter(&cfg, &pre("https://app.example.com", "DELETE", &[])).is_none());
    assert!(cors_filter(&cfg, &pre("https://app.example.com", "PUT", &["x-other"])).is_none());
    assert!(cors_filter(&cfg, &pre("https://app.example.com", "PUT", &["content-type", "x-other"]))
        .is_none());
    assert!(all_in(&strings(&["authorization"]), &strings(&["content-type", "authorization"])));
    assert!(all_in(&Vec::new(), &Vec::new()));
    assert!(!all_in(&strings(&["a"]), &Vec::new()));
}

#[test]
fn gate_without_sections_lets_everything_through() {
    let mut g = PolicyGate::new(open_config());
    let d = g.screen(&meta(0x0a00_0001, 0), &Declared::Read).unwrap();
    assert!(d.allow_origin.is_none());
    assert!(g
        .screen(&meta(0x0a00_0001, 0), &Declared::Write { content_type: Some("x/y".to_string()) })
        .is_ok());
    assert!(!g.configuration().access_control.enable_access_tokens);
}

#[test]
fn default_gate_wants_a_token() {
    let mut g = PolicyGate::new(Config::default());
    let mut m = meta(0x7f00_0001, 0);
    assert_eq!(g.screen(&m, &Declared::Read).unwrap_err(), PolicyRejection::Unauthorized);
    m.valid_token = true;
    assert!(g.screen(&m, &Declared::Read).is_ok());
}

#[test]
fn four_requests_at_once_give_three_admissions_and_one_rejection() {
    let mut c = open_config();
    c.rate_limiting = Some(RateLimitingConfig { default_period: 60_000, default_burst_size: 3 });
    let mut g = PolicyGate::new(c);
    let results: Vec<Result<(), PolicyRejection>> =
        (0..4).map(|_| g.screen(&meta(0x0a00_0001, 777), &Declared::Read).map(|_| ())).collect();
    assert_eq!(results.iter().filter(|r| r.is_ok()).count(), 3);
    assert_eq!(results.iter().filter(|r| **r == Err(PolicyRejection::TooManyRequests)).count(), 1);
    assert_eq!(results[3], Err(PolicyRejection::TooManyRequests));
    assert!(g.screen(&meta(0x0a00_0002, 777), &Declared::Read).is_ok());
}

#[test]
fn filters_refuse_in_their_fixed_order() {
    let mut c = Config::default();
    c.ip_filter = Some(IpFilterConfig::Blacklist(ten_slash_eight()));
    c.rate_limiting = Some(RateLimitingConfig { default_period: 60_000, default_burst_size: 1 });
    c.content_types = Some(ContentTypesConfig::Whitelist(strings(&["image/png"])));
    c.cors = Some(cors_config());
    let mut g = PolicyGate::new(c);
    let write = |t: &str| Declared::Write { content_type: Some(t.to_string()) };
    let bad_preflight = CorsRequest::Preflight {
        origin: "https://evil.example".to_string(),
        method: "PUT".to_string(),
        headers: Vec::new(),
    };
    // excluded address: refused before the limiter sees it, however often
    for _ in 0..3 {
        let m = RequestMeta { cors: CorsRequest::NoOrigin, ..meta(0x0a00_0001, 0) };
        assert_eq!(g.screen(&m, &write("text/html")).unwrap_err(), PolicyRejection::Forbidden);
    }
    // no token: refused after the limiter took its token
    assert_eq!(
        g.screen(&meta(0x0b00_0001, 0), &write("text/html")).unwrap_err(),
        PolicyRejection::Unauthorized
    );
    let with_token = |addr: u32| RequestMeta { valid_token: true, ..meta(addr, 0) };
    assert_eq!(
        g.screen(&with_token(0x0b00_0001), &write("image/png")).unwrap_err(),
        PolicyRejection::TooManyRequests
    );
    // a token, but a type that is not allowed
    assert_eq!(
        g.screen(&with_token(0x0b00_0002), &write("text/html")).unwrap_err(),
        PolicyRejection::UnsupportedMediaType
    );
    // reads declare nothing and pass the content-type filter
    assert!(g.screen(&with_token(0x0b00_0003), &Declared::Read).is_ok());
    // an allowed type, but a pre-flight that CORS refuses
    let m = RequestMeta { cors: bad_preflight, ..with_token(0x0b00_0004) };
    assert_eq!(g.screen(&m, &write("IMAGE/PNG")).unwrap_err(), PolicyRejection::Forbidden);
    let m = RequestMeta {
        cors: CorsRequest::Actual { origin: "https://app.example.com".to_string() },
        ..with_token(0x0b00_0005)
    };
    let d = g.screen(&m, &write("image/png")).unwrap();
    assert_eq!(d.allow_origin, Some("https://app.example.com".to_string()));
}

#[test]
fn bearer_token_is_what_follows_the_word() {
    let header = |s: &str| Some(s.to_string());
    assert_eq!(presented_token(&header("Bearer abc123")), Some("abc123".to_string()));
    assert_eq!(presented_token(&header("Bearer ")), Some("".to_string()));
    assert_eq!(presented_token(&header("Bearer  two")), Some(" two".to_string()));
    assert_eq!(presented_token(&header("bearer abc123")), None);
    assert_eq!(presented_token(&header("Basic abc123")), None);
    assert_eq!(presented_token(&header("Bearer")), None);
    assert_eq!(presented_token(&header("")), None);
    assert_eq!(presented_token(&None), None);
}

#[test]
fn token_is_valid_when_it_was_issued() {
    let issued = strings(&["alpha", "beta"]);
    assert!(token_is_valid(&Some("beta".to_string()), &issued));
    assert!(!token_is_valid(&Some("gamma".to_string()), &issued));
    assert!(!token_is_valid(&Some("".to_string()), &issued));
    assert!(!token_is_valid(&None, &issued));
    assert!(!token_is_valid(&Some("alpha".to_string()), &Vec::new()));
}

#[test]
fn own_origin_is_the_named_host_under_http_or_https() {
    assert!(is_same_origin("http://example.com", "example.com"));
    assert!(is_same_origin("https://example.com:8443", "example.com:8443"));
    assert!(!is_same_origin("https://example.com", "example.org"));
    assert!(!is_same_origin("https://evil.example//example.com", "example.com"));
    assert!(!is_same_origin("ftp://example.com", "example.com"));
    assert!(!is_same_origin("example.com", "example.com"));
    assert!(!is_same_origin("https://example.com", ""));
}

#[test]
fn origin_of_a_request_is_read_from_its_headers() {
    let s = |t: &str| Some(t.to_string());
    assert!(matches!(classify_origin(None, s("h"), true, s("PUT"), Vec::new()), CorsRequest::NoOrigin));
    assert!(matches!(
        classify_origin(s("https://h"), s("h"), true, s("PUT"), Vec::new()),
        CorsRequest::NoOrigin
    ));
    assert!(matches!(
        classify_origin(s("https://a"), s("h"), false, s("PUT"), Vec::new()),
        CorsRequest::Actual { ref origin } if origin == "https://a"
    ));
    assert!(matches!(
        classify_origin(s("https://a"), None, true, None, Vec::new()),
        CorsRequest::Actual { ref origin } if origin == "https://a"
    ));
    match classify_origin(s("https://a"), s("h"), true, s("PUT"), strings(&["x-one"])) {
        CorsRequest::Preflight { origin, method, headers } => {
            assert_eq!((origin.as_str(), method.as_str()), ("https://a", "PUT"));
            assert_eq!(headers, ["x-one"]);
        }
        other => panic!("unexpected {:?}", other),
    }
}

#[test]
fn lists_are_split_at_commas() {
    assert_eq!(split_list("Content-Type, X-Custom ,\tAuthorization", true), [
        "content-type",
        "x-custom",
        "authorization"
    ]);
    assert_eq!(split_list("", true), Vec::<String>::new());
    assert_eq!(split_list(" , ,", true), Vec::<String>::new());
    assert_eq!(split_list("one", true), ["one"]);
    assert_eq!(split_list("Red,,my tag, Blue,", false), ["Red", "my tag", " Blue"]);
    assert_eq!(split_list(",", false), Vec::<String>::new());
}

#[test]
fn zero_burst_refuses_all_and_zero_period_never_limits() {
    let none = RateLimitingConfig { default_period: 1_000, default_burst_size: 0 };
    let mut l = RateLimiter::new();
    assert!(!l.check(&none, None, 0));
    assert!(!l.check(&none, None, 1_000_000));
    let instant = RateLimitingConfig { default_period: 0, default_burst_size: 1 };
    let mut l = RateLimiter::new();
    assert!(l.check(&instant, None, 0));
    assert!(!l.check(&instant, None, 0));
    assert!(l.check(&instant, None, 1));
    assert!(l.check(&instant, None, 2));
}
