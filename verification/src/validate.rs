//! Turning a partial configuration into a complete one: absent fields take
//! their defaults, present ones are checked, and the first fault refuses the
//! whole configuration.
use vstd::prelude::*;
use crate::config::{
    AccessControlConfig, CacheControlConfig, Config, ContentTypesConfig, CorsConfig, HttpConfig,
    IpFilterConfig, RateLimitingConfig, TlsConfig, TlsKeyConfig, TlsVersion,
};
use crate::entries::{
    accepted, block_readings, first_rejected, read_blocks, read_text_entries, read_versions,
    text_readings, version_readings, EntryKind, Reading,
};
use crate::error::{ConfigError, ConfigErrorView};
use crate::models::CachePolicy;
use crate::partial::{
    ConfigFile, PartialAccessControlConfig, PartialCacheControlConfig, PartialContentTypesConfig,
    PartialCorsConfig, PartialHttpConfig, PartialIpFilterConfig, PartialRateLimitingConfig,
    PartialTlsConfig,
};
use crate::period::{parse_period, period_millis};

verus! {

/// The refill period of the rate limiter where none is configured, in
/// milliseconds.
pub const DEFAULT_PERIOD: u64 = 500;

/// The burst size of the rate limiter where none is configured.
pub const DEFAULT_BURST_SIZE: u32 = 8;

/// The first entry of an optional list that cannot be read.
pub open spec fn list_fault(kind: EntryKind, list: Option<Vec<String>>) -> Option<Seq<char>> {
    match list {
        Some(v) => first_rejected(kind, v@),
        None => None,
    }
}

/// What an optional list is read as; an absent list is the empty set.
pub open spec fn list_accepted(kind: EntryKind, list: Option<Vec<String>>) -> Set<Reading> {
    match list {
        Some(v) => accepted(kind, v@),
        None => Set::empty(),
    }
}

/// Reads an optional list of entries held as text; an absent list is empty.
fn read_optional(kind: EntryKind, list: &Option<Vec<String>>) -> (r: Result<Vec<String>, String>)
    requires
        kind is Origin || kind is Method || kind is Header || kind is ContentType,
    ensures
        match r {
            Ok(out) => {
                &&& list_fault(kind, *list) is None
                &&& crate::config::distinct_texts(out@)
                &&& text_readings(out@) == list_accepted(kind, *list)
            },
            Err(bad) => list_fault(kind, *list) == Some(bad@),
        },
{
    match list {
        Some(v) => read_text_entries(kind, v),
        None => {
            let out: Vec<String> = Vec::new();
            assert(text_readings(out@) =~= Set::<Reading>::empty());
            Ok(out)
        },
    }
}

/// The `http` section with its gaps filled: every interface and port 2048
/// where nothing else is said.
pub open spec fn http_filled(p: Option<PartialHttpConfig>) -> HttpConfig {
    match p {
        Some(h) => HttpConfig {
            host: match h.host {
                Some(x) => x,
                None => 0,
            },
            port: match h.port {
                Some(x) => x,
                None => 2048,
            },
        },
        None => HttpConfig { host: 0, port: 2048 },
    }
}

/// Fills the gaps of the `http` section.
pub fn validate_http(p: Option<PartialHttpConfig>) -> (r: HttpConfig)
    ensures
        r == http_filled(p),
{
    let d = HttpConfig::default();
    match p {
        Some(h) => HttpConfig {
            host: match h.host {
                Some(x) => x,
                None => d.host,
            },
            port: match h.port {
                Some(x) => x,
                None => d.port,
            },
        },
        None => d,
    }
}

/// The key material is given inline, and only so.
pub open spec fn keys_inline(p: PartialTlsConfig) -> bool {
    p.private_key is Some && p.public_key is Some && p.private_key_file is None
        && p.public_key_file is None
}

/// The key material is given as file paths, and only so.
pub open spec fn keys_in_files(p: PartialTlsConfig) -> bool {
    p.private_key is None && p.public_key is None && p.private_key_file is Some
        && p.public_key_file is Some
}

/// What is wrong with a `tls` section, in this order: a version that is
/// not supported; key material that is neither an inline pair nor a pair of
/// file paths; a list of versions that is empty.
pub open spec fn tls_fault(p: PartialTlsConfig) -> Option<ConfigErrorView> {
    if list_fault(EntryKind::TlsVersion, p.tls_versions) is Some {
        Some(ConfigErrorView::InvalidTlsVersion(list_fault(EntryKind::TlsVersion, p.tls_versions)->0))
    } else if !keys_inline(p) && !keys_in_files(p) {
        Some(ConfigErrorView::InvalidTlsKeys)
    } else if p.tls_versions is Some && p.tls_versions->0@.len() == 0 {
        Some(ConfigErrorView::NoTlsVersions)
    } else {
        None
    }
}

/// A complete `tls` section says what a partial one says: the listed
/// versions, or all three where none is listed, and the same key material.
pub open spec fn tls_matches(p: PartialTlsConfig, c: TlsConfig) -> bool {
    &&& c.wf()
    &&& match p.tls_versions {
        Some(v) => version_readings(c.tls_versions@) == accepted(EntryKind::TlsVersion, v@),
        None => c.tls_versions@ == seq![TlsVersion::V1_1, TlsVersion::V1_2, TlsVersion::V1_3],
    }
    &&& keys_inline(p) ==> (c.keys matches TlsKeyConfig::String { private_key, public_key }
        && private_key@ == p.private_key->0@ && public_key@ == p.public_key->0@)
    &&& keys_in_files(p) ==> (c.keys matches TlsKeyConfig::File { private_key_file, public_key_file }
        && private_key_file@ == p.private_key_file->0@ && public_key_file@
        == p.public_key_file->0@)
}

/// Checks a `tls` section.
pub fn validate_tls(p: PartialTlsConfig) -> (r: Result<TlsConfig, ConfigError>)
    ensures
        match r {
            Ok(c) => tls_fault(p) is None && tls_matches(p, c),
            Err(e) => tls_fault(p) == Some(e@),
        },
{
    let listed = match &p.tls_versions {
        Some(list) => match read_versions(list) {
            Ok(out) => {
                proof {
                    if list@.len() > 0 {
                        crate::entries::none_rejected_all_read(EntryKind::TlsVersion, list@, 0);
                        let r0 = crate::entries::reading(EntryKind::TlsVersion, list@[0]@)->0;
                        assert(accepted(EntryKind::TlsVersion, list@).contains(r0));
                        assert(version_readings(out@).contains(r0));
                    }
                }
                Some((out, list.len() == 0))
            },
            Err(bad) => {
                return Err(ConfigError::InvalidTlsVersion(bad));
            },
        },
        None => None,
    };
    let keys = match (p.private_key, p.public_key, p.private_key_file, p.public_key_file) {
        (None, None, Some(private_key_file), Some(public_key_file)) => TlsKeyConfig::File {
            private_key_file,
            public_key_file,
        },
        (Some(private_key), Some(public_key), None, None) => TlsKeyConfig::String {
            private_key,
            public_key,
        },
        _ => {
            return Err(ConfigError::InvalidTlsKeys);
        },
    };
    let tls_versions = match listed {
        Some((out, empty)) => {
            if empty {
                return Err(ConfigError::NoTlsVersions);
            }
            out
        },
        None => {
            let mut all: Vec<TlsVersion> = Vec::new();
            all.push(TlsVersion::V1_1);
            all.push(TlsVersion::V1_2);
            all.push(TlsVersion::V1_3);
            assert(all@ =~= seq![TlsVersion::V1_1, TlsVersion::V1_2, TlsVersion::V1_3]);
            all
        },
    };
    Ok(TlsConfig { tls_versions, keys })
}

/// What is wrong with a `cors` section: the first origin, method or header
/// name that cannot be read, in that order.
pub open spec fn cors_fault(p: PartialCorsConfig) -> Option<ConfigErrorView> {
    if list_fault(EntryKind::Origin, p.allow_origins) is Some {
        Some(ConfigErrorView::InvalidCorsOrigin(list_fault(EntryKind::Origin, p.allow_origins)->0))
    } else if list_fault(EntryKind::Method, p.allow_methods) is Some {
        Some(ConfigErrorView::InvalidCorsMethod(list_fault(EntryKind::Method, p.allow_methods)->0))
    } else if list_fault(EntryKind::Header, p.allow_headers) is Some {
        Some(ConfigErrorView::InvalidCorsHeader(list_fault(EntryKind::Header, p.allow_headers)->0))
    } else {
        None
    }
}

/// A complete `cors` section holds the sets that the partial one lists, and
/// allows credentials only where the partial one says so.
pub open spec fn cors_matches(p: PartialCorsConfig, c: CorsConfig) -> bool {
    &&& c.wf()
    &&& text_readings(c.allow_origins@) == list_accepted(EntryKind::Origin, p.allow_origins)
    &&& text_readings(c.allow_methods@) == list_accepted(EntryKind::Method, p.allow_methods)
    &&& text_readings(c.allow_headers@) == list_accepted(EntryKind::Header, p.allow_headers)
    &&& c.allow_credentials == (p.allow_credentials == Some(true))
}

/// Checks a `cors` section.
pub fn validate_cors(p: PartialCorsConfig) -> (r: Result<CorsConfig, ConfigError>)
    ensures
        match r {
            Ok(c) => cors_fault(p) is None && cors_matches(p, c),
            Err(e) => cors_fault(p) == Some(e@),
        },
{
    let allow_origins = match read_optional(EntryKind::Origin, &p.allow_origins) {
        Ok(v) => v,
        Err(bad) => {
            return Err(ConfigError::InvalidCorsOrigin(bad));
        },
    };
    let allow_methods = match read_optional(EntryKind::Method, &p.allow_methods) {
        Ok(v) => v,
        Err(bad) => {
            return Err(ConfigError::InvalidCorsMethod(bad));
        },
    };
    let allow_headers = match read_optional(EntryKind::Header, &p.allow_headers) {
        Ok(v) => v,
        Err(bad) => {
            return Err(ConfigError::InvalidCorsHeader(bad));
        },
    };
    let allow_credentials = match p.allow_credentials {
        Some(b) => b,
        None => false,
    };
    Ok(CorsConfig { allow_origins, allow_methods, allow_headers, allow_credentials })
}

/// The `cache-control` section with its gaps filled: no caching and a
/// max-age of one hour where nothing else is said.
pub open spec fn cache_control_filled(p: Option<PartialCacheControlConfig>) -> CacheControlConfig {
    CacheControlConfig {
        default_policy: match p {
            Some(PartialCacheControlConfig { default_policy: Some(x), .. }) => x,
            _ => CachePolicy::NoCache,
        },
        default_max_age: match p {
            Some(PartialCacheControlConfig { default_max_age: Some(x), .. }) => x,
            _ => 3600,
        },
    }
}

/// Fills the gaps of the `cache-control` section.
pub fn validate_cache_control(p: Option<PartialCacheControlConfig>) -> (r: CacheControlConfig)
    ensures
        r == cache_control_filled(p),
{
    let d = CacheControlConfig::default();
    match p {
        Some(c) => CacheControlConfig {
            default_policy: match c.default_policy {
                Some(x) => x,
                None => d.default_policy,
            },
            default_max_age: match c.default_max_age {
                Some(x) => x,
                None => d.default_max_age,
            },
        },
        None => d,
    }
}

/// The `access-control` section with its gaps filled: tokens required and
/// no bypass where nothing else is said.
pub open spec fn access_control_filled(p: Option<PartialAccessControlConfig>) -> AccessControlConfig {
    AccessControlConfig {
        enable_access_tokens: match p {
            Some(PartialAccessControlConfig { enable_access_tokens: Some(x), .. }) => x,
            _ => true,
        },
        enable_local_host_auth_bypass: match p {
            Some(PartialAccessControlConfig { enable_local_host_auth_bypass: Some(x), .. }) => x,
            _ => false,
        },
    }
}

/// Fills the gaps of the `access-control` section.
pub fn validate_access_control(p: Option<PartialAccessControlConfig>) -> (r: AccessControlConfig)
    ensures
        r == access_control_filled(p),
{
    let d = AccessControlConfig::default();
    match p {
        Some(c) => AccessControlConfig {
            enable_access_tokens: match c.enable_access_tokens {
                Some(x) => x,
                None => d.enable_access_tokens,
            },
            enable_local_host_auth_bypass: match c.enable_local_host_auth_bypass {
                Some(x) => x,
                None => d.enable_local_host_auth_bypass,
            },
        },
        None => d,
    }
}

/// What is wrong with an `ip-filter` section: both lists or neither, or the
/// first entry that is no network.
pub open spec fn ip_filter_fault(p: PartialIpFilterConfig) -> Option<ConfigErrorView> {
    match (p.whitelist, p.blacklist) {
        (Some(w), None) => match first_rejected(EntryKind::IpRange, w@) {
            Some(bad) => Some(ConfigErrorView::InvalidIpRange(bad)),
            None => None,
        },
        (None, Some(b)) => match first_rejected(EntryKind::IpRange, b@) {
            Some(bad) => Some(ConfigErrorView::InvalidIpRange(bad)),
            None => None,
        },
        _ => Some(ConfigErrorView::InvalidIpFilter),
    }
}

/// A complete `ip-filter` section is of the mode that the partial one
/// gives, and holds the set of networks that it lists.
pub open spec fn ip_filter_matches(p: PartialIpFilterConfig, c: IpFilterConfig) -> bool {
    &&& c.wf()
    &&& match (p.whitelist, p.blacklist) {
        (Some(w), None) => c is Whitelist && block_readings(c.blocks()) == accepted(
            EntryKind::IpRange,
            w@,
        ),
        (None, Some(b)) => c is Blacklist && block_readings(c.blocks()) == accepted(
            EntryKind::IpRange,
            b@,
        ),
        _ => false,
    }
}

/// Checks an `ip-filter` section.
pub fn validate_ip_filter(p: PartialIpFilterConfig) -> (r: Result<IpFilterConfig, ConfigError>)
    ensures
        match r {
            Ok(c) => ip_filter_fault(p) is None && ip_filter_matches(p, c),
            Err(e) => ip_filter_fault(p) == Some(e@),
        },
{
    match (&p.whitelist, &p.blacklist) {
        (Some(w), None) => match read_blocks(w) {
            Ok(v) => Ok(IpFilterConfig::Whitelist(v)),
            Err(bad) => Err(ConfigError::InvalidIpRange(bad)),
        },
        (None, Some(b)) => match read_blocks(b) {
            Ok(v) => Ok(IpFilterConfig::Blacklist(v)),
            Err(bad) => Err(ConfigError::InvalidIpRange(bad)),
        },
        _ => Err(ConfigError::InvalidIpFilter),
    }
}

/// What is wrong with a `content-types` section: both lists or neither, or
/// the first entry that is no media type.
pub open spec fn content_types_fault(p: PartialContentTypesConfig) -> Option<ConfigErrorView> {
    match (p.whitelist, p.blacklist) {
        (Some(w), None) => match first_rejected(EntryKind::ContentType, w@) {
            Some(bad) => Some(ConfigErrorView::InvalidContentType(bad)),
            None => None,
        },
        (None, Some(b)) => match first_rejected(EntryKind::ContentType, b@) {
            Some(bad) => Some(ConfigErrorView::InvalidContentType(bad)),
            None => None,
        },
        _ => Some(ConfigErrorView::InvalidContentTypes),
    }
}

/// A complete `content-types` section is of the mode that the partial one
/// gives, and holds the set of media types that it lists.
pub open spec fn content_types_matches(p: PartialContentTypesConfig, c: ContentTypesConfig) -> bool {
    &&& c.wf()
    &&& match (p.whitelist, p.blacklist) {
        (Some(w), None) => c is Whitelist && text_readings(c.types()) == accepted(
            EntryKind::ContentType,
            w@,
        ),
        (None, Some(b)) => c is Blacklist && text_readings(c.types()) == accepted(
            EntryKind::ContentType,
            b@,
        ),
        _ => false,
    }
}

/// Checks a `content-types` section.
pub fn validate_content_types(p: PartialContentTypesConfig) -> (r: Result<
    ContentTypesConfig,
    ConfigError,
>)
    ensures
        match r {
            Ok(c) => content_types_fault(p) is None && content_types_matches(p, c),
            Err(e) => content_types_fault(p) == Some(e@),
        },
{
    match (&p.whitelist, &p.blacklist) {
        (Some(w), None) => match read_text_entries(EntryKind::ContentType, w) {
            Ok(v) => Ok(ContentTypesConfig::Whitelist(v)),
            Err(bad) => Err(ConfigError::InvalidContentType(bad)),
        },
        (None, Some(b)) => match read_text_entries(EntryKind::ContentType, b) {
            Ok(v) => Ok(ContentTypesConfig::Blacklist(v)),
            Err(bad) => Err(ConfigError::InvalidContentType(bad)),
        },
        _ => Err(ConfigError::InvalidContentTypes),
    }
}

/// What is wrong with a `rate-limiting` section: a period that is no
/// period. A period of zero and a burst of zero are accepted as they are
/// written: the limiter then fills a bucket at once, or refuses every
/// request.
pub open spec fn rate_limiting_fault(p: PartialRateLimitingConfig) -> Option<ConfigErrorView> {
    if p.default_period is Some && period_millis(p.default_period->0@) is None {
        Some(ConfigErrorView::InvalidRateLimitPeriod(p.default_period->0@))
    } else {
        None
    }
}

/// The `rate-limiting` section with its gaps filled: a period of 500 ms and
/// a burst of 8 where nothing else is said.
pub open spec fn rate_limiting_filled(p: PartialRateLimitingConfig) -> RateLimitingConfig {
    RateLimitingConfig {
        default_period: match p.default_period {
            Some(s) => period_millis(s@)->0,
            None => 500,
        },
        default_burst_size: match p.default_burst_size {
            Some(b) => b,
            None => 8,
        },
    }
}

/// Checks a `rate-limiting` section.
pub fn validate_rate_limiting(p: PartialRateLimitingConfig) -> (r: Result<
    RateLimitingConfig,
    ConfigError,
>)
    ensures
        match r {
            Ok(c) => rate_limiting_fault(p) is None && c == rate_limiting_filled(p),
            Err(e) => rate_limiting_fault(p) == Some(e@),
        },
{
    let default_period = match p.default_period {
        Some(s) => match parse_period(s.as_str()) {
            Some(ms) => ms,
            None => {
                return Err(ConfigError::InvalidRateLimitPeriod(s));
            },
        },
        None => DEFAULT_PERIOD,
    };
    let default_burst_size = match p.default_burst_size {
        Some(b) => b,
        None => DEFAULT_BURST_SIZE,
    };
    Ok(RateLimitingConfig { default_period, default_burst_size })
}

/// What is wrong with a configuration file: the first fault in the order
/// data directory, `tls`, `cors`, `ip-filter`, `content-types`,
/// `rate-limiting`.
pub open spec fn file_fault(f: ConfigFile) -> Option<ConfigErrorView> {
    if f.data_directory is None {
        Some(ConfigErrorView::MissingDataDirectory)
    } else if f.tls is Some && tls_fault(f.tls->0) is Some {
        tls_fault(f.tls->0)
    } else if f.cors is Some && cors_fault(f.cors->0) is Some {
        cors_fault(f.cors->0)
    } else if f.ip_filter is Some && ip_filter_fault(f.ip_filter->0) is Some {
        ip_filter_fault(f.ip_filter->0)
    } else if f.content_types is Some && content_types_fault(f.content_types->0) is Some {
        content_types_fault(f.content_types->0)
    } else if f.rate_limiting is Some && rate_limiting_fault(f.rate_limiting->0) is Some {
        rate_limiting_fault(f.rate_limiting->0)
    } else {
        None
    }
}

/// A complete configuration says what a file says: each section that the
/// file has is there and matches it, each optional section that the file
/// lacks is absent, and the others hold their defaults.
pub open spec fn file_matches(f: ConfigFile, c: Config) -> bool {
    &&& f.data_directory is Some && c.data_directory@ == f.data_directory->0@
    &&& c.http == http_filled(f.http)
    &&& match f.tls {
        Some(p) => c.tls is Some && tls_matches(p, c.tls->0),
        None => c.tls is None,
    }
    &&& match f.cors {
        Some(p) => c.cors is Some && cors_matches(p, c.cors->0),
        None => c.cors is None,
    }
    &&& c.cache_control == cache_control_filled(f.cache_control)
    &&& c.access_control == access_control_filled(f.access_control)
    &&& match f.ip_filter {
        Some(p) => c.ip_filter is Some && ip_filter_matches(p, c.ip_filter->0),
        None => c.ip_filter is None,
    }
    &&& match f.content_types {
        Some(p) => c.content_types is Some && content_types_matches(p, c.content_types->0),
        None => c.content_types is None,
    }
    &&& match f.rate_limiting {
        Some(p) => c.rate_limiting == Some(rate_limiting_filled(p)),
        None => c.rate_limiting is None,
    }
}

/// Checks a whole configuration file and fills its gaps. The result is a
/// complete, well-formed configuration, or the first fault found.
pub fn validate_file(file: ConfigFile) -> (r: Result<Config, ConfigError>)
    ensures
        match r {
            Ok(c) => file_fault(file) is None && file_matches(file, c) && c.wf(),
            Err(e) => file_fault(file) == Some(e@),
        },
{
    let data_directory = match file.data_directory {
        Some(d) => d,
        None => {
            return Err(ConfigError::MissingDataDirectory);
        },
    };
    let http = validate_http(file.http);
    let tls = match file.tls {
        Some(p) => match validate_tls(p) {
            Ok(t) => Some(t),
            Err(e) => {
                return Err(e);
            },
        },
        None => None,
    };
    let cors = match file.cors {
        Some(p) => match validate_cors(p) {
            Ok(c) => Some(c),
            Err(e) => {
                return Err(e);
            },
        },
        None => None,
    };
    let cache_control = validate_cache_control(file.cache_control);
    let access_control = validate_access_control(file.access_control);
    let ip_filter = match file.ip_filter {
        Some(p) => match validate_ip_filter(p) {
            Ok(c) => Some(c),
            Err(e) => {
                return Err(e);
            },
        },
        None => None,
    };
    let content_types = match file.content_types {
        Some(p) => match validate_content_types(p) {
            Ok(c) => Some(c),
            Err(e) => {
                return Err(e);
            },
        },
        None => None,
    };
    let rate_limiting = match file.rate_limiting {
        Some(p) => match validate_rate_limiting(p) {
            Ok(c) => Some(c),
            Err(e) => {
                return Err(e);
            },
        },
        None => None,
    };
    Ok(
        Config {
            data_directory,
            http,
            tls,
            cors,
            cache_control,
            access_control,
            ip_filter,
            content_types,
            rate_limiting,
        },
    )
}

} // verus!
