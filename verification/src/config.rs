//! The validated runtime configuration: every field present and checked.
use vstd::prelude::*;
pub use crate::models::CachePolicy;
use crate::net::CidrBlock;
use crate::text::same_text;

verus! {

/// No text occurs twice in a list of strings.
pub open spec fn distinct_texts(v: Seq<String>) -> bool {
    forall|i: int, j: int| 0 <= i < j < v.len() ==> v[i]@ != v[j]@
}

/// The complete configuration of a server.
#[derive(Debug)]
pub struct Config {
    pub data_directory: String,
    pub http: HttpConfig,
    pub tls: Option<TlsConfig>,
    pub cors: Option<CorsConfig>,
    pub cache_control: CacheControlConfig,
    pub access_control: AccessControlConfig,
    pub ip_filter: Option<IpFilterConfig>,
    pub content_types: Option<ContentTypesConfig>,
    pub rate_limiting: Option<RateLimitingConfig>,
}

/// Where the server listens. `host` holds the 32 bits of an IPv4 address.
#[derive(Debug, Clone, Copy, PartialEq, Eq, Structural)]
pub struct HttpConfig {
    pub host: u32,
    pub port: u16,
}

impl HttpConfig {
    /// Every interface, on a port that the system picks.
    pub fn random_port() -> (r: HttpConfig)
        ensures
            r == (HttpConfig { host: 0, port: 0 }),
    {
        HttpConfig { host: 0, port: 0 }
    }
}

impl Default for HttpConfig {
    /// Every interface, port 2048.
    fn default() -> (r: HttpConfig)
        ensures
            r == (HttpConfig { host: 0, port: 2048 }),
    {
        HttpConfig { host: 0, port: 2048 }
    }
}

/// A version of the TLS protocol.
#[derive(Debug, Clone, Copy, PartialEq, Eq, PartialOrd, Ord, Structural)]
pub enum TlsVersion {
    V1_1,
    V1_2,
    V1_3,
}

impl TlsVersion {
    /// The version that a text names, if it names one of the supported set.
    pub open spec fn from_text(s: Seq<char>) -> Option<TlsVersion> {
        if s == "1.1"@ {
            Some(TlsVersion::V1_1)
        } else if s == "1.2"@ {
            Some(TlsVersion::V1_2)
        } else if s == "1.3"@ {
            Some(TlsVersion::V1_3)
        } else {
            None
        }
    }

    /// Reads `1.1`, `1.2` or `1.3`; any other text is `None`.
    pub fn parse(s: &str) -> (r: Option<TlsVersion>)
        ensures
            r == Self::from_text(s@),
    {
        if same_text(s, "1.1") {
            Some(TlsVersion::V1_1)
        } else if same_text(s, "1.2") {
            Some(TlsVersion::V1_2)
        } else if same_text(s, "1.3") {
            Some(TlsVersion::V1_3)
        } else {
            None
        }
    }
}

/// Key material, given inline or as paths of files, never both.
#[derive(Debug)]
pub enum TlsKeyConfig {
    String { private_key: String, public_key: String },
    File { private_key_file: String, public_key_file: String },
}

/// The enabled protocol versions and the key material.
#[derive(Debug)]
pub struct TlsConfig {
    pub tls_versions: Vec<TlsVersion>,
    pub keys: TlsKeyConfig,
}

impl TlsConfig {
    /// At least one version is enabled and none is listed twice.
    pub open spec fn wf(self) -> bool {
        &&& self.tls_versions@.len() > 0
        &&& self.tls_versions@.no_duplicates()
    }
}

/// What cross-origin requests are allowed. Origins are held in their ASCII
/// serialisation, header names in lower case.
#[derive(Debug)]
pub struct CorsConfig {
    pub allow_origins: Vec<String>,
    pub allow_methods: Vec<String>,
    pub allow_headers: Vec<String>,
    pub allow_credentials: bool,
}

impl CorsConfig {
    /// Each list holds a set: nothing occurs twice.
    pub open spec fn wf(self) -> bool {
        &&& distinct_texts(self.allow_origins@)
        &&& distinct_texts(self.allow_methods@)
        &&& distinct_texts(self.allow_headers@)
    }
}

/// The cache policy and max-age, in seconds, of objects that neither their
/// bucket nor they themselves say otherwise about.
#[derive(Debug, Clone, Copy, PartialEq, Eq, Structural)]
pub struct CacheControlConfig {
    pub default_policy: CachePolicy,
    pub default_max_age: u64,
}

impl Default for CacheControlConfig {
    /// No caching, and a max-age of one hour.
    fn default() -> (r: CacheControlConfig)
        ensures
            r == (CacheControlConfig { default_policy: CachePolicy::NoCache, default_max_age: 3600 }),
    {
        CacheControlConfig { default_policy: CachePolicy::NoCache, default_max_age: 3_600 }
    }
}

/// Whether access tokens are required, and whether loopback callers may do
/// without one.
#[derive(Debug, Clone, Copy, PartialEq, Eq, Structural)]
pub struct AccessControlConfig {
    pub enable_access_tokens: bool,
    pub enable_local_host_auth_bypass: bool,
}

impl Default for AccessControlConfig {
    /// Tokens required, no bypass.
    fn default() -> (r: AccessControlConfig)
        ensures
            r == (AccessControlConfig {
                enable_access_tokens: true,
                enable_local_host_auth_bypass: false,
            }),
    {
        AccessControlConfig { enable_access_tokens: true, enable_local_host_auth_bypass: false }
    }
}

/// The networks that alone may call, or that may not.
#[derive(Debug)]
pub enum IpFilterConfig {
    Whitelist(Vec<CidrBlock>),
    Blacklist(Vec<CidrBlock>),
}

impl IpFilterConfig {
    /// The listed networks.
    pub open spec fn blocks(self) -> Seq<CidrBlock> {
        match self {
            IpFilterConfig::Whitelist(v) => v@,
            IpFilterConfig::Blacklist(v) => v@,
        }
    }

    /// Every network is well formed and none is listed twice.
    pub open spec fn wf(self) -> bool {
        &&& self.blocks().no_duplicates()
        &&& forall|i: int| 0 <= i < self.blocks().len() ==> (#[trigger] self.blocks()[i]).wf()
    }
}

/// The media types that alone may be stored, or that may not. Each is held
/// in its normalised text.
#[derive(Debug)]
pub enum ContentTypesConfig {
    Whitelist(Vec<String>),
    Blacklist(Vec<String>),
}

impl ContentTypesConfig {
    /// The listed media types.
    pub open spec fn types(self) -> Seq<String> {
        match self {
            ContentTypesConfig::Whitelist(v) => v@,
            ContentTypesConfig::Blacklist(v) => v@,
        }
    }

    /// No media type is listed twice.
    pub open spec fn wf(self) -> bool {
        distinct_texts(self.types())
    }
}

/// The token bucket of the rate limiter: one token comes back every
/// `default_period` milliseconds, and at most `default_burst_size` are held.
/// With a period of zero a bucket is full again at once; with a burst of
/// zero no request is admitted.
#[derive(Debug, Clone, Copy, PartialEq, Eq, Structural)]
pub struct RateLimitingConfig {
    pub default_period: u64,
    pub default_burst_size: u32,
}

impl Config {
    /// Every section that is present is well formed.
    pub open spec fn wf(self) -> bool {
        &&& self.tls matches Some(t) ==> t.wf()
        &&& self.cors matches Some(c) ==> c.wf()
        &&& self.ip_filter matches Some(f) ==> f.wf()
        &&& self.content_types matches Some(c) ==> c.wf()
    }
}

impl Default for Config {
    /// An empty data directory, the default listener, cache and access
    /// control, and no optional section.
    fn default() -> (r: Config)
        ensures
            r.wf(),
            r.data_directory@ == Seq::<char>::empty(),
            r.http == (HttpConfig { host: 0, port: 2048 }),
            r.tls is None,
            r.cors is None,
            r.cache_control == (CacheControlConfig {
                default_policy: CachePolicy::NoCache,
                default_max_age: 3600,
            }),
            r.access_control == (AccessControlConfig {
                enable_access_tokens: true,
                enable_local_host_auth_bypass: false,
            }),
            r.ip_filter is None,
            r.content_types is None,
            r.rate_limiting is None,
    {
        Config {
            data_directory: String::new(),
            http: HttpConfig::default(),
            tls: None,
            cors: None,
            cache_control: CacheControlConfig::default(),
            access_control: AccessControlConfig::default(),
            ip_filter: None,
            content_types: None,
            rate_limiting: None,
        }
    }
}

} // verus!
