//! A configuration as a user writes it: every section and every field may be
//! left out.
use vstd::prelude::*;
use crate::models::CachePolicy;

verus! {

/// The whole of a configuration file.
#[derive(Debug)]
pub struct ConfigFile {
    pub data_directory: Option<String>,
    pub http: Option<PartialHttpConfig>,
    pub tls: Option<PartialTlsConfig>,
    pub cors: Option<PartialCorsConfig>,
    pub cache_control: Option<PartialCacheControlConfig>,
    pub access_control: Option<PartialAccessControlConfig>,
    pub ip_filter: Option<PartialIpFilterConfig>,
    pub content_types: Option<PartialContentTypesConfig>,
    pub rate_limiting: Option<PartialRateLimitingConfig>,
}

/// The `http` section. `host` holds the 32 bits of an IPv4 address.
#[derive(Debug, Clone, Copy, PartialEq, Eq, Structural)]
pub struct PartialHttpConfig {
    pub host: Option<u32>,
    pub port: Option<u16>,
}

/// The `tls` section.
#[derive(Debug)]
pub struct PartialTlsConfig {
    pub tls_versions: Option<Vec<String>>,
    pub private_key: Option<String>,
    pub public_key: Option<String>,
    pub private_key_file: Option<String>,
    pub public_key_file: Option<String>,
}

/// The `cors` section.
#[derive(Debug)]
pub struct PartialCorsConfig {
    pub allow_origins: Option<Vec<String>>,
    pub allow_methods: Option<Vec<String>>,
    pub allow_headers: Option<Vec<String>>,
    pub allow_credentials: Option<bool>,
}

/// The `cache-control` section.
#[derive(Debug, Clone, Copy, PartialEq, Eq, Structural)]
pub struct PartialCacheControlConfig {
    pub default_policy: Option<CachePolicy>,
    pub default_max_age: Option<u64>,
}

/// The `access-control` section.
#[derive(Debug, Clone, Copy, PartialEq, Eq, Structural)]
pub struct PartialAccessControlConfig {
    pub enable_access_tokens: Option<bool>,
    pub enable_local_host_auth_bypass: Option<bool>,
}

/// The `ip-filter` section.
#[derive(Debug)]
pub struct PartialIpFilterConfig {
    pub whitelist: Option<Vec<String>>,
    pub blacklist: Option<Vec<String>>,
}

/// The `content-types` section.
#[derive(Debug)]
pub struct PartialContentTypesConfig {
    pub whitelist: Option<Vec<String>>,
    pub blacklist: Option<Vec<String>>,
}

/// The `rate-limiting` section.
#[derive(Debug)]
pub struct PartialRateLimitingConfig {
    pub default_period: Option<String>,
    pub default_burst_size: Option<u32>,
}

} // verus!
