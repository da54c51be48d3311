use objection::config::{
    AccessControlConfig, CacheControlConfig, CachePolicy, Config, ContentTypesConfig, HttpConfig,
    IpFilterConfig, TlsKeyConfig, TlsVersion,
};
use objection::error::ConfigError;
use objection::net::{CidrBlock, IpAddress};
use objection::partial::{
    ConfigFile, PartialAccessControlConfig, PartialCacheControlConfig, PartialContentTypesConfig,
    PartialCorsConfig, PartialHttpConfig, PartialIpFilterConfig, PartialRateLimitingConfig,
    PartialTlsConfig,
};
use objection::validate::{
    validate_access_control, validate_cache_control, validate_content_types, validate_cors,
    validate_file, validate_http, validate_ip_filter, validate_rate_limiting, validate_tls,
};

fn strings(items: &[&str]) -> Vec<String> {
    items.iter().map(|s| s.to_string()).collect()
}

fn empty_file() -> ConfigFile {
    ConfigFile {
        data_directory: Some("/var/lib/objects".to_string()),
        http: None,
        tls: None,
        cors: None,
        cache_control: None,
        access_control: None,
        ip_filter: None,
        content_types: None,
        rate_limiting: None,
    }
}

fn tls(
    versions: Option<&[&str]>,
    private_key: Option<&str>,
    public_key: Option<&str>,
    private_key_file: Option<&str>,
    public_key_file: Option<&str>,
) -> PartialTlsConfig {
    PartialTlsConfig {
        tls_versions: versions.map(strings),
        private_key: private_key.map(|s| s.to_string()),
        public_key: public_key.map(|s| s.to_string()),
        private_key_file: private_key_file.map(|s| s.to_string()),
        public_key_file: public_key_file.map(|s| s.to_string()),
    }
}

#[test]
fn default_config_holds_the_documented_defaults() {
    let c = Config::default();
    assert_eq!(c.data_directory, "");
    assert_eq!(c.http, HttpConfig { host: 0, port: 2048 });
    assert!(c.tls.is_none());
    assert!(c.cors.is_none());
    assert_eq!(
        c.cache_control,
        CacheControlConfig { default_policy: CachePolicy::NoCache, default_max_age: 3600 }
    );
    assert_eq!(
        c.access_control,
        AccessControlConfig { enable_access_tokens: true, enable_local_host_auth_bypass: false }
    );
    assert!(c.ip_filter.is_none());
    assert!(c.content_types.is_none());
    assert!(c.rate_limiting.is_none());
}

#[test]
fn random_port_listens_everywhere_on_port_zero() {
    assert_eq!(HttpConfig::random_port(), HttpConfig { host: 0, port: 0 });
    assert_eq!(HttpConfig::default(), HttpConfig { host: 0, port: 2048 });
}

#[test]
fn file_with_only_a_data_directory_takes_every_default() {
    let c = validate_file(empty_file()).unwrap();
    assert_eq!(c.data_directory, "/var/lib/objects");
    assert_eq!(c.http, HttpConfig { host: 0, port: 2048 });
    assert!(c.tls.is_none() && c.cors.is_none() && c.ip_filter.is_none());
    assert!(c.content_types.is_none() && c.rate_limiting.is_none());
    assert_eq!(c.cache_control.default_policy, CachePolicy::NoCache);
    assert_eq!(c.cache_control.default_max_age, 3600);
    assert!(c.access_control.enable_access_tokens);
    assert!(!c.access_control.enable_local_host_auth_bypass);
}

#[test]
fn missing_data_directory_is_refused() {
    let mut f = empty_file();
    f.data_directory = None;
    let e = validate_file(f).unwrap_err();
    assert!(matches!(e, ConfigError::MissingDataDirectory));
    assert_eq!(e.field(), "data-directory");
    assert_eq!(e.message(), "Missing data directory");
}

#[test]
fn http_section_fills_each_gap_on_its_own() {
    let host = 0x7f00_0001;
    assert_eq!(
        validate_http(Some(PartialHttpConfig { host: Some(host), port: None })),
        HttpConfig { host, port: 2048 }
    );
    assert_eq!(
        validate_http(Some(PartialHttpConfig { host: None, port: Some(9000) })),
        HttpConfig { host: 0, port: 9000 }
    );
    assert_eq!(validate_http(None), HttpConfig { host: 0, port: 2048 });
}

#[test]
fn tls_with_file_paths_only_validates() {
    let t = validate_tls(tls(None, None, None, Some("/keys/private.pem"), Some("/keys/public.pem")))
        .unwrap();
    assert_eq!(t.tls_versions, vec![TlsVersion::V1_1, TlsVersion::V1_2, TlsVersion::V1_3]);
    match t.keys {
        TlsKeyConfig::File { private_key_file, public_key_file } => {
            assert_eq!(private_key_file, "/keys/private.pem");
            assert_eq!(public_key_file, "/keys/public.pem");
        }
        TlsKeyConfig::String { .. } => panic!("file paths were given"),
    }
}

#[test]
fn tls_with_inline_keys_only_validates() {
    let t = validate_tls(tls(Some(&["1.3", "1.2", "1.3"]), Some("PRIVATE"), Some("PUBLIC"), None, None))
        .unwrap();
    assert_eq!(t.tls_versions, vec![TlsVersion::V1_3, TlsVersion::V1_2]);
    match t.keys {
        TlsKeyConfig::String { private_key, public_key } => {
            assert_eq!(private_key, "PRIVATE");
            assert_eq!(public_key, "PUBLIC");
        }
        TlsKeyConfig::File { .. } => panic!("inline keys were given"),
    }
}

#[test]
fn tls_with_both_key_forms_is_invalid_tls_keys() {
    let e = validate_tls(tls(None, Some("PRIVATE"), Some("PUBLIC"), Some("/a"), Some("/b"))).unwrap_err();
    assert!(matches!(e, ConfigError::InvalidTlsKeys));
    assert_eq!(e.field(), "tls");
    assert_eq!(
        e.message(),
        "Invalid TLS configuration. Must specify either 'private-key' and 'public-key' or 'private-key-file' and 'public-key-file'"
    );
    let mixed = validate_tls(tls(None, Some("PRIVATE"), None, None, Some("/b"))).unwrap_err();
    assert!(matches!(mixed, ConfigError::InvalidTlsKeys));
    let partial = validate_tls(tls(None, None, None, Some("/a"), None)).unwrap_err();
    assert!(matches!(partial, ConfigError::InvalidTlsKeys));
}

#[test]
fn tls_without_keys_is_acceptable_only_without_the_section() {
    let e = validate_tls(tls(None, None, None, None, None)).unwrap_err();
    assert!(matches!(e, ConfigError::InvalidTlsKeys));
    let mut f = empty_file();
    f.tls = Some(tls(None, None, None, None, None));
    assert!(matches!(validate_file(f).unwrap_err(), ConfigError::InvalidTlsKeys));
    assert!(validate_file(empty_file()).unwrap().tls.is_none());
}

#[test]
fn unsupported_tls_version_is_named() {
    let e = validate_tls(tls(Some(&["1.2", "1.0", "2.0"]), None, None, Some("/a"), Some("/b")))
        .unwrap_err();
    match &e {
        ConfigError::InvalidTlsVersion(v) => assert_eq!(v, "1.0"),
        other => panic!("unexpected {:?}", other),
    }
    assert_eq!(e.field(), "tls.tls-versions");
    assert_eq!(e.message(), "Invalid TLS version '1.0'");
}

#[test]
fn empty_tls_version_list_is_refused() {
    let e = validate_tls(tls(Some(&[]), None, None, Some("/a"), Some("/b"))).unwrap_err();
    assert!(matches!(e, ConfigError::NoTlsVersions));
    assert_eq!(e.message(), "No TLS version is enabled");
}

#[test]
fn tls_version_fault_comes_before_key_fault() {
    let e = validate_tls(tls(Some(&["9.9"]), None, None, None, None)).unwrap_err();
    assert!(matches!(e, ConfigError::InvalidTlsVersion(_)));
}

#[test]
fn tls_version_names_are_read_exactly() {
    assert_eq!(TlsVersion::parse("1.1"), Some(TlsVersion::V1_1));
    assert_eq!(TlsVersion::parse("1.2"), Some(TlsVersion::V1_2));
    assert_eq!(TlsVersion::parse("1.3"), Some(TlsVersion::V1_3));
    assert_eq!(TlsVersion::parse("1.30"), None);
    assert_eq!(TlsVersion::parse(""), None);
    assert_eq!(TlsVersion::parse("TLS1.2"), None);
}

#[test]
fn cors_entries_are_normalised_into_sets() {
    let c = validate_cors(PartialCorsConfig {
        allow_origins: Some(strings(&[
            "https://Example.com/some/path?x=1",
            "https://example.com:443",
            "http://localhost:8080",
        ])),
        allow_methods: Some(strings(&["GET", "POST", "GET", "PURGE"])),
        allow_headers: Some(strings(&["Content-Type", "content-type", "X-Custom"])),
        allow_credentials: Some(true),
    })
    .unwrap();
    assert_eq!(c.allow_origins, vec!["https://example.com", "http://localhost:8080"]);
    assert_eq!(c.allow_methods, vec!["GET", "POST", "PURGE"]);
    assert_eq!(c.allow_headers, vec!["content-type", "x-custom"]);
    assert!(c.allow_credentials);
}

#[test]
fn cors_section_without_fields_allows_nothing() {
    let c = validate_cors(PartialCorsConfig {
        allow_origins: None,
        allow_methods: None,
        allow_headers: None,
        allow_credentials: None,
    })
    .unwrap();
    assert!(c.allow_origins.is_empty() && c.allow_methods.is_empty() && c.allow_headers.is_empty());
    assert!(!c.allow_credentials);
}

#[test]
fn one_bad_cors_origin_refuses_the_section() {
    let e = validate_cors(PartialCorsConfig {
        allow_origins: Some(strings(&["https://example.com", "not a url", "also bad"])),
        allow_methods: Some(strings(&["GE T"])),
        allow_headers: None,
        allow_credentials: None,
    })
    .unwrap_err();
    match &e {
        ConfigError::InvalidCorsOrigin(v) => assert_eq!(v, "not a url"),
        other => panic!("unexpected {:?}", other),
    }
    assert_eq!(e.field(), "cors.allow-origins");
    assert_eq!(e.message(), "Invalid CORS origin 'not a url'");
}

#[test]
fn bad_cors_method_and_header_are_named() {
    let m = validate_cors(PartialCorsConfig {
        allow_origins: None,
        allow_methods: Some(strings(&["GET", "GE T"])),
        allow_headers: Some(strings(&["bad header"])),
        allow_credentials: None,
    })
    .unwrap_err();
    match &m {
        ConfigError::InvalidCorsMethod(v) => assert_eq!(v, "GE T"),
        other => panic!("unexpected {:?}", other),
    }
    assert_eq!(m.message(), "Invalid CORS HTTP method 'GE T'");
    let empty = validate_cors(PartialCorsConfig {
        allow_origins: None,
        allow_methods: Some(strings(&[""])),
        allow_headers: None,
        allow_credentials: None,
    })
    .unwrap_err();
    assert!(matches!(empty, ConfigError::InvalidCorsMethod(_)));
    let h = validate_cors(PartialCorsConfig {
        allow_origins: None,
        allow_methods: None,
        allow_headers: Some(strings(&["x-ok", "bad header"])),
        allow_credentials: None,
    })
    .unwrap_err();
    match &h {
        ConfigError::InvalidCorsHeader(v) => assert_eq!(v, "bad header"),
        other => panic!("unexpected {:?}", other),
    }
    assert_eq!(h.field(), "cors.allow-headers");
    assert_eq!(h.message(), "Invalid CORS HTTP header 'bad header'");
}

#[test]
fn cache_control_section_fills_each_gap_on_its_own() {
    assert_eq!(
        validate_cache_control(Some(PartialCacheControlConfig {
            default_policy: Some(CachePolicy::Cache),
            default_max_age: None,
        })),
        CacheControlConfig { default_policy: CachePolicy::Cache, default_max_age: 3600 }
    );
    assert_eq!(
        validate_cache_control(Some(PartialCacheControlConfig {
            default_policy: None,
            default_max_age: Some(60),
        })),
        CacheControlConfig { default_policy: CachePolicy::NoCache, default_max_age: 60 }
    );
    assert_eq!(validate_cache_control(None), CacheControlConfig::default());
}

#[test]
fn access_control_section_fills_each_gap_on_its_own() {
    assert_eq!(
        validate_access_control(Some(PartialAccessControlConfig {
            enable_access_tokens: Some(false),
            enable_local_host_auth_bypass: None,
        })),
        AccessControlConfig { enable_access_tokens: false, enable_local_host_auth_bypass: false }
    );
    assert_eq!(
        validate_access_control(Some(PartialAccessControlConfig {
            enable_access_tokens: None,
            enable_local_host_auth_bypass: Some(true),
        })),
        AccessControlConfig { enable_access_tokens: true, enable_local_host_auth_bypass: true }
    );
    assert_eq!(validate_access_control(None), AccessControlConfig::default());
}

#[test]
fn ip_filter_reads_networks_and_hosts() {
    let f = validate_ip_filter(PartialIpFilterConfig {
        whitelist: Some(strings(&["10.0.0.0/8", "192.168.1.7", "::1", "fe80::/10", "10.0.0.0/8"])),
        blacklist: None,
    })
    .unwrap();
    match f {
        IpFilterConfig::Whitelist(v) => assert_eq!(
            v,
            vec![
                CidrBlock { address: IpAddress::V4(0x0a00_0000), prefix_len: 8 },
                CidrBlock { address: IpAddress::V4(0xc0a8_0107), prefix_len: 32 },
                CidrBlock { address: IpAddress::V6(1), prefix_len: 128 },
                CidrBlock { address: IpAddress::V6(0xfe80 << 112), prefix_len: 10 },
            ]
        ),
        IpFilterConfig::Blacklist(_) => panic!("a whitelist was given"),
    }
    let b = validate_ip_filter(PartialIpFilterConfig {
        whitelist: None,
        blacklist: Some(strings(&["0.0.0.0/0"])),
    })
    .unwrap();
    assert!(matches!(b, IpFilterConfig::Blacklist(ref v)
        if v == &vec![CidrBlock { address: IpAddress::V4(0), prefix_len: 0 }]));
}

#[test]
fn ip_filter_refuses_bad_networks_and_mixed_modes() {
    for bad in ["10.0.0.1/8", "10.0.0.0/33", "example.com", "10.0.0.0/", ""] {
        let e = validate_ip_filter(PartialIpFilterConfig {
            whitelist: Some(strings(&["127.0.0.1", bad])),
            blacklist: None,
        })
        .unwrap_err();
        match &e {
            ConfigError::InvalidIpRange(v) => assert_eq!(v, bad),
            other => panic!("unexpected {:?}", other),
        }
        assert_eq!(e.field(), "ip-filter");
        assert_eq!(e.message(), format!("Invalid IP range '{}'", bad));
    }
    let both = validate_ip_filter(PartialIpFilterConfig {
        whitelist: Some(strings(&["10.0.0.0/8"])),
        blacklist: Some(strings(&["10.1.0.0/16"])),
    })
    .unwrap_err();
    assert!(matches!(both, ConfigError::InvalidIpFilter));
    assert_eq!(both.message(), "Invalid IP filter. Must specify either 'whitelist' or 'blacklist'");
    let neither =
        validate_ip_filter(PartialIpFilterConfig { whitelist: None, blacklist: None }).unwrap_err();
    assert!(matches!(neither, ConfigError::InvalidIpFilter));
}

#[test]
fn content_types_are_normalised() {
    let c = validate_content_types(PartialContentTypesConfig {
        whitelist: Some(strings(&["Text/Plain", "image/png", "text/plain", "TEXT/HTML; Charset=UTF-8"])),
        blacklist: None,
    })
    .unwrap();
    match c {
        ContentTypesConfig::Whitelist(v) => {
            assert_eq!(v, vec!["text/plain", "image/png", "text/html; charset=utf-8"])
        }
        ContentTypesConfig::Blacklist(_) => panic!("a whitelist was given"),
    }
    let d = validate_content_types(PartialContentTypesConfig {
        whitelist: None,
        blacklist: Some(strings(&["application/x-msdownload"])),
    })
    .unwrap();
    assert!(matches!(d, ContentTypesConfig::Blacklist(ref v) if v == &strings(&["application/x-msdownload"])));
}

#[test]
fn content_types_refuse_bad_entries_and_mixed_modes() {
    let e = validate_content_types(PartialContentTypesConfig {
        whitelist: None,
        blacklist: Some(strings(&["text/plain", "no slash", "image/"])),
    })
    .unwrap_err();
    match &e {
        ConfigError::InvalidContentType(v) => assert_eq!(v, "no slash"),
        other => panic!("unexpected {:?}", other),
    }
    assert_eq!(e.field(), "content-types");
    assert_eq!(e.message(), "Invalid content type 'no slash'");
    let both = validate_content_types(PartialContentTypesConfig {
        whitelist: Some(strings(&["text/plain"])),
        blacklist: Some(strings(&["text/html"])),
    })
    .unwrap_err();
    assert!(matches!(both, ConfigError::InvalidContentTypes));
    assert_eq!(
        both.message(),
        "Invalid content type filter. Must specify either 'whitelist' or 'blacklist'"
    );
    let neither = validate_content_types(PartialContentTypesConfig { whitelist: None, blacklist: None })
        .unwrap_err();
    assert!(matches!(neither, ConfigError::InvalidContentTypes));
}

#[test]
fn rate_limiting_takes_defaults_and_reads_periods() {
    let d = validate_rate_limiting(PartialRateLimitingConfig {
        default_period: None,
        default_burst_size: None,
    })
    .unwrap();
    assert_eq!((d.default_period, d.default_burst_size), (500, 8));
    let c = validate_rate_limiting(PartialRateLimitingConfig {
        default_period: Some("2s".to_string()),
        default_burst_size: Some(3),
    })
    .unwrap();
    assert_eq!((c.default_period, c.default_burst_size), (2000, 3));
}

#[test]
fn rate_limiting_refuses_what_is_no_period() {
    for bad in ["", "soon", "10", "-1s", "1.5s", "18446744073709551616ms", "s"] {
        let e = validate_rate_limiting(PartialRateLimitingConfig {
            default_period: Some(bad.to_string()),
            default_burst_size: Some(0),
        })
        .unwrap_err();
        match &e {
            ConfigError::InvalidRateLimitPeriod(v) => assert_eq!(v, bad),
            other => panic!("unexpected {:?}", other),
        }
        assert_eq!(e.field(), "rate-limiting.default-period");
        assert_eq!(e.message(), format!("Invalid rate limiting period '{}'", bad));
    }
}

#[test]
fn rate_limiting_accepts_a_zero_period_and_a_zero_burst() {
    let c = validate_rate_limiting(PartialRateLimitingConfig {
        default_period: Some("0s".to_string()),
        default_burst_size: Some(0),
    })
    .unwrap();
    assert_eq!((c.default_period, c.default_burst_size), (0, 0));
    let d = validate_rate_limiting(PartialRateLimitingConfig {
        default_period: Some("0ms".to_string()),
        default_burst_size: None,
    })
    .unwrap();
    assert_eq!((d.default_period, d.default_burst_size), (0, 8));
}

#[test]
fn wrong_keys_are_reported_before_an_empty_version_list() {
    let both = validate_tls(tls(Some(&[]), Some("PRIVATE"), Some("PUBLIC"), Some("/a"), Some("/b")))
        .unwrap_err();
    assert!(matches!(both, ConfigError::InvalidTlsKeys));
    let none = validate_tls(tls(Some(&[]), None, None, None, None)).unwrap_err();
    assert!(matches!(none, ConfigError::InvalidTlsKeys));
    let cross = validate_tls(tls(Some(&[]), Some("PRIVATE"), None, None, Some("/b"))).unwrap_err();
    assert!(matches!(cross, ConfigError::InvalidTlsKeys));
    let half = validate_tls(tls(Some(&["1.2"]), Some("PRIVATE"), None, None, None)).unwrap_err();
    assert!(matches!(half, ConfigError::InvalidTlsKeys));
    let mut f = empty_file();
    f.tls = Some(tls(Some(&[]), Some("PRIVATE"), Some("PUBLIC"), Some("/a"), Some("/b")));
    assert!(matches!(validate_file(f).unwrap_err(), ConfigError::InvalidTlsKeys));
    let inline = validate_tls(tls(Some(&[]), Some("PRIVATE"), Some("PUBLIC"), None, None)).unwrap_err();
    assert!(matches!(inline, ConfigError::NoTlsVersions));
    let unreadable = validate_tls(tls(Some(&["x"]), Some("PRIVATE"), None, None, Some("/b"))).unwrap_err();
    assert!(matches!(unreadable, ConfigError::InvalidTlsVersion(_)));
}

#[test]
fn whole_file_reports_the_first_fault_in_section_order() {
    let mut f = empty_file();
    f.tls = Some(tls(None, None, None, Some("/a"), Some("/b")));
    f.cors = Some(PartialCorsConfig {
        allow_origins: Some(strings(&["::nonsense::"])),
        allow_methods: None,
        allow_headers: None,
        allow_credentials: None,
    });
    f.ip_filter = Some(PartialIpFilterConfig { whitelist: None, blacklist: None });
    f.rate_limiting = Some(PartialRateLimitingConfig {
        default_period: Some("never".to_string()),
        default_burst_size: None,
    });
    assert!(matches!(validate_file(f).unwrap_err(), ConfigError::InvalidCorsOrigin(_)));
}

#[test]
fn whole_file_with_every_section_validates() {
    let mut f = empty_file();
    f.http = Some(PartialHttpConfig { host: Some(0x7f00_0001), port: Some(8443) });
    f.tls = Some(tls(Some(&["1.2", "1.3"]), None, None, Some("/a"), Some("/b")));
    f.cors = Some(PartialCorsConfig {
        allow_origins: Some(strings(&["https://app.example.com"])),
        allow_methods: Some(strings(&["GET", "PUT"])),
        allow_headers: Some(strings(&["Authorization"])),
        allow_credentials: Some(true),
    });
    f.cache_control = Some(PartialCacheControlConfig {
        default_policy: Some(CachePolicy::Cache),
        default_max_age: Some(120),
    });
    f.access_control = Some(PartialAccessControlConfig {
        enable_access_tokens: Some(true),
        enable_local_host_auth_bypass: Some(true),
    });
    f.ip_filter = Some(PartialIpFilterConfig {
        whitelist: None,
        blacklist: Some(strings(&["203.0.113.0/24"])),
    });
    f.content_types = Some(PartialContentTypesConfig {
        whitelist: Some(strings(&["image/png"])),
        blacklist: None,
    });
    f.rate_limiting = Some(PartialRateLimitingConfig {
        default_period: Some("250ms".to_string()),
        default_burst_size: Some(20),
    });
    let c = validate_file(f).unwrap();
    assert_eq!(c.http, HttpConfig { host: 0x7f00_0001, port: 8443 });
    assert_eq!(c.tls.unwrap().tls_versions, vec![TlsVersion::V1_2, TlsVersion::V1_3]);
    let cors = c.cors.unwrap();
    assert_eq!(cors.allow_origins, vec!["https://app.example.com"]);
    assert_eq!(cors.allow_headers, vec!["authorization"]);
    assert_eq!(c.cache_control.default_max_age, 120);
    assert!(c.access_control.enable_local_host_auth_bypass);
    assert!(matches!(c.ip_filter, Some(IpFilterConfig::Blacklist(_))));
    assert!(matches!(c.content_types, Some(ContentTypesConfig::Whitelist(_))));
    let rate = c.rate_limiting.unwrap();
    assert_eq!((rate.default_period, rate.default_burst_size), (250, 20));
}
