//! What can be wrong with a configuration, and how it is reported.
use vstd::prelude::*;
use vstd::string::*;

verus! {

/// A configuration that was refused, with the offending entry where one
/// entry is at fault.
#[derive(Debug)]
pub enum ConfigError {
    MissingDataDirectory,
    InvalidTlsVersion(String),
    NoTlsVersions,
    InvalidTlsKeys,
    InvalidCorsOrigin(String),
    InvalidCorsMethod(String),
    InvalidCorsHeader(String),
    InvalidIpFilter,
    InvalidIpRange(String),
    InvalidContentTypes,
    InvalidContentType(String),
    InvalidRateLimitPeriod(String),
}

/// A refusal as contracts see it.
pub enum ConfigErrorView {
    MissingDataDirectory,
    InvalidTlsVersion(Seq<char>),
    NoTlsVersions,
    InvalidTlsKeys,
    InvalidCorsOrigin(Seq<char>),
    InvalidCorsMethod(Seq<char>),
    InvalidCorsHeader(Seq<char>),
    InvalidIpFilter,
    InvalidIpRange(Seq<char>),
    InvalidContentTypes,
    InvalidContentType(Seq<char>),
    InvalidRateLimitPeriod(Seq<char>),
}

impl View for ConfigError {
    type V = ConfigErrorView;

    open spec fn view(&self) -> ConfigErrorView {
        match self {
            ConfigError::MissingDataDirectory => ConfigErrorView::MissingDataDirectory,
            ConfigError::InvalidTlsVersion(v) => ConfigErrorView::InvalidTlsVersion(v@),
            ConfigError::NoTlsVersions => ConfigErrorView::NoTlsVersions,
            ConfigError::InvalidTlsKeys => ConfigErrorView::InvalidTlsKeys,
            ConfigError::InvalidCorsOrigin(v) => ConfigErrorView::InvalidCorsOrigin(v@),
            ConfigError::InvalidCorsMethod(v) => ConfigErrorView::InvalidCorsMethod(v@),
            ConfigError::InvalidCorsHeader(v) => ConfigErrorView::InvalidCorsHeader(v@),
            ConfigError::InvalidIpFilter => ConfigErrorView::InvalidIpFilter,
            ConfigError::InvalidIpRange(v) => ConfigErrorView::InvalidIpRange(v@),
            ConfigError::InvalidContentTypes => ConfigErrorView::InvalidContentTypes,
            ConfigError::InvalidContentType(v) => ConfigErrorView::InvalidContentType(v@),
            ConfigError::InvalidRateLimitPeriod(v) => ConfigErrorView::InvalidRateLimitPeriod(v@),
        }
    }
}

impl ConfigErrorView {
    /// The key of the configuration field at fault, section first.
    pub open spec fn field(self) -> Seq<char> {
        match self {
            ConfigErrorView::MissingDataDirectory => "data-directory"@,
            ConfigErrorView::InvalidTlsVersion(_) => "tls.tls-versions"@,
            ConfigErrorView::NoTlsVersions => "tls.tls-versions"@,
            ConfigErrorView::InvalidTlsKeys => "tls"@,
            ConfigErrorView::InvalidCorsOrigin(_) => "cors.allow-origins"@,
            ConfigErrorView::InvalidCorsMethod(_) => "cors.allow-methods"@,
            ConfigErrorView::InvalidCorsHeader(_) => "cors.allow-headers"@,
            ConfigErrorView::InvalidIpFilter => "ip-filter"@,
            ConfigErrorView::InvalidIpRange(_) => "ip-filter"@,
            ConfigErrorView::InvalidContentTypes => "content-types"@,
            ConfigErrorView::InvalidContentType(_) => "content-types"@,
            ConfigErrorView::InvalidRateLimitPeriod(_) => "rate-limiting.default-period"@,
        }
    }

    /// The reason in words, up to the offending entry.
    pub open spec fn reason(self) -> Seq<char> {
        match self {
            ConfigErrorView::MissingDataDirectory => "Missing data directory"@,
            ConfigErrorView::InvalidTlsVersion(_) => "Invalid TLS version '"@,
            ConfigErrorView::NoTlsVersions => "No TLS version is enabled"@,
            ConfigErrorView::InvalidTlsKeys =>
                "Invalid TLS configuration. Must specify either 'private-key' and 'public-key' or 'private-key-file' and 'public-key-file'"@,
            ConfigErrorView::InvalidCorsOrigin(_) => "Invalid CORS origin '"@,
            ConfigErrorView::InvalidCorsMethod(_) => "Invalid CORS HTTP method '"@,
            ConfigErrorView::InvalidCorsHeader(_) => "Invalid CORS HTTP header '"@,
            ConfigErrorView::InvalidIpFilter =>
                "Invalid IP filter. Must specify either 'whitelist' or 'blacklist'"@,
            ConfigErrorView::InvalidIpRange(_) => "Invalid IP range '"@,
            ConfigErrorView::InvalidContentTypes =>
                "Invalid content type filter. Must specify either 'whitelist' or 'blacklist'"@,
            ConfigErrorView::InvalidContentType(_) => "Invalid content type '"@,
            ConfigErrorView::InvalidRateLimitPeriod(_) => "Invalid rate limiting period '"@,
        }
    }

    /// The offending entry, where one entry is at fault.
    pub open spec fn entry(self) -> Option<Seq<char>> {
        match self {
            ConfigErrorView::InvalidTlsVersion(v) => Some(v),
            ConfigErrorView::InvalidCorsOrigin(v) => Some(v),
            ConfigErrorView::InvalidCorsMethod(v) => Some(v),
            ConfigErrorView::InvalidCorsHeader(v) => Some(v),
            ConfigErrorView::InvalidIpRange(v) => Some(v),
            ConfigErrorView::InvalidContentType(v) => Some(v),
            ConfigErrorView::InvalidRateLimitPeriod(v) => Some(v),
            _ => None,
        }
    }

    /// The whole message: the reason, and the offending entry in quotes
    /// where there is one.
    pub open spec fn message(self) -> Seq<char> {
        match self.entry() {
            Some(v) => self.reason() + v + "'"@,
            None => self.reason(),
        }
    }
}

impl ConfigError {
    /// The key of the configuration field at fault, section first.
    pub fn field(&self) -> (r: String)
        ensures
            r@ == self@.field(),
    {
        match self {
            ConfigError::MissingDataDirectory => "data-directory".to_owned(),
            ConfigError::InvalidTlsVersion(_) => "tls.tls-versions".to_owned(),
            ConfigError::NoTlsVersions => "tls.tls-versions".to_owned(),
            ConfigError::InvalidTlsKeys => "tls".to_owned(),
            ConfigError::InvalidCorsOrigin(_) => "cors.allow-origins".to_owned(),
            ConfigError::InvalidCorsMethod(_) => "cors.allow-methods".to_owned(),
            ConfigError::InvalidCorsHeader(_) => "cors.allow-headers".to_owned(),
            ConfigError::InvalidIpFilter => "ip-filter".to_owned(),
            ConfigError::InvalidIpRange(_) => "ip-filter".to_owned(),
            ConfigError::InvalidContentTypes => "content-types".to_owned(),
            ConfigError::InvalidContentType(_) => "content-types".to_owned(),
            ConfigError::InvalidRateLimitPeriod(_) => "rate-limiting.default-period".to_owned(),
        }
    }

    /// A message for the operator that names what is wrong.
    pub fn message(&self) -> (r: String)
        ensures
            r@ == self@.message(),
    {
        match self {
            ConfigError::MissingDataDirectory => "Missing data directory".to_owned(),
            ConfigError::InvalidTlsVersion(v) => quoted("Invalid TLS version '", v),
            ConfigError::NoTlsVersions => "No TLS version is enabled".to_owned(),
            ConfigError::InvalidTlsKeys =>
                "Invalid TLS configuration. Must specify either 'private-key' and 'public-key' or 'private-key-file' and 'public-key-file'".to_owned(),
            ConfigError::InvalidCorsOrigin(v) => quoted("Invalid CORS origin '", v),
            ConfigError::InvalidCorsMethod(v) => quoted("Invalid CORS HTTP method '", v),
            ConfigError::InvalidCorsHeader(v) => quoted("Invalid CORS HTTP header '", v),
            ConfigError::InvalidIpFilter =>
                "Invalid IP filter. Must specify either 'whitelist' or 'blacklist'".to_owned(),
            ConfigError::InvalidIpRange(v) => quoted("Invalid IP range '", v),
            ConfigError::InvalidContentTypes =>
                "Invalid content type filter. Must specify either 'whitelist' or 'blacklist'".to_owned(),
            ConfigError::InvalidContentType(v) => quoted("Invalid content type '", v),
            ConfigError::InvalidRateLimitPeriod(v) => quoted("Invalid rate limiting period '", v),
        }
    }
}

/// The message of the answer to a request for a resource that does not
/// exist.
pub fn not_found_message(uri: &str) -> (r: String)
    ensures
        r@ == "The requested resource `"@ + uri@ + "` was not found"@,
{
    let mut r = "The requested resource `".to_owned();
    r.append(uri);
    r.append("` was not found");
    r
}

/// A lead-in, an entry and a closing quote, put together.
fn quoted(lead: &str, entry: &String) -> (r: String)
    ensures
        r@ == lead@ + entry@ + "'"@,
{
    let mut r = lead.to_owned();
    r.append(entry.as_str());
    r.append("'");
    r
}

} // verus!
