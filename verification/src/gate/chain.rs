//! The policy gate itself: the filters in their fixed order, the first refusal
//! ending the chain.
use vstd::prelude::*;
use crate::config::Config;
use crate::gate::filters::{
    content_type_excludes, cors_filter, cors_outcome, ip_excluded, ip_filter_excludes,
    normalize_declared, normalized_type, token_check_fails, token_missing, type_excluded,
    CorsDecision, CorsDecisionView, CorsRequest, Declared, PolicyRejection,
};
use crate::gate::limiter::{admitted, left, BucketState, RateLimiter};
use crate::models::object::opt_text;
use crate::net::IpAddress;

verus! {

/// What is known of a request before it is served: where it comes from,
/// when, in milliseconds since the Unix epoch, whether it presents a valid
/// access token, and what it says of its origin.
#[derive(Debug)]
pub struct RequestMeta {
    pub remote_addr: Option<IpAddress>,
    pub now: i64,
    pub valid_token: bool,
    pub cors: CorsRequest,
}

/// The IP filter is configured and excludes the caller.
pub open spec fn stopped_by_ip_filter(cfg: Config, meta: RequestMeta) -> bool {
    cfg.ip_filter is Some && ip_excluded(cfg.ip_filter->0, meta.remote_addr)
}

/// The rate limiter sees the request: it is configured, and the IP filter
/// did not stop the request before.
pub open spec fn reaches_limiter(cfg: Config, meta: RequestMeta) -> bool {
    cfg.rate_limiting is Some && !stopped_by_ip_filter(cfg, meta)
}

/// What the policy gate makes of a request, given the caller's token bucket and
/// the normalised media type of what the request declares. The filters
/// come in the order IP filter, rate limiter, access token, content type,
/// CORS; the first that refuses decides.
pub open spec fn verdict(
    cfg: Config,
    bucket: Option<BucketState>,
    meta: RequestMeta,
    declared: Declared,
    normalized: Option<Seq<char>>,
) -> Result<CorsDecisionView, PolicyRejection> {
    if stopped_by_ip_filter(cfg, meta) {
        Err(PolicyRejection::Forbidden)
    } else if cfg.rate_limiting is Some && !admitted(cfg.rate_limiting->0, bucket, meta.now) {
        Err(PolicyRejection::TooManyRequests)
    } else if token_missing(cfg.access_control, meta.remote_addr, meta.valid_token) {
        Err(PolicyRejection::Unauthorized)
    } else if declared is Write && cfg.content_types is Some && type_excluded(
        cfg.content_types->0,
        normalized,
    ) {
        Err(PolicyRejection::UnsupportedMediaType)
    } else {
        match cors_outcome(cfg.cors, meta.cors) {
            Some(d) => Ok(d),
            None => Err(PolicyRejection::Forbidden),
        }
    }
}

/// The policy gate: a configuration and the token buckets of the callers.
#[derive(Debug)]
pub struct PolicyGate {
    config: Config,
    limiter: RateLimiter,
}

impl PolicyGate {
    /// The configuration that the policy gate enforces.
    pub closed spec fn config(&self) -> Config {
        self.config
    }

    /// The token bucket of a caller, if the caller has one yet.
    pub closed spec fn bucket(&self, caller: Option<IpAddress>) -> Option<BucketState> {
        self.limiter.state(caller)
    }

    /// A gate for a configuration, in which no caller has a bucket yet.
    pub fn new(config: Config) -> (r: PolicyGate)
        ensures
            r.config() == config,
            forall|c: Option<IpAddress>| r.bucket(c) is None,
    {
        PolicyGate { config, limiter: RateLimiter::new() }
    }

    /// The configuration that the policy gate enforces.
    pub fn configuration(&self) -> (r: &Config)
        ensures
            *r == self.config(),
    {
        &self.config
    }

    /// Passes a request through the filters, given the normalised media
    /// type of what it declares. A request that reaches the rate limiter
    /// takes a token from the caller's bucket where it is admitted there,
    /// whatever the later filters say; no other bucket changes.
    pub fn screen_normalized(
        &mut self,
        meta: &RequestMeta,
        declared: &Declared,
        normalized: &Option<String>,
    ) -> (r: Result<CorsDecision, PolicyRejection>)
        ensures
            final(self).config() == old(self).config(),
            match r {
                Ok(d) => verdict(
                    old(self).config(),
                    old(self).bucket(meta.remote_addr),
                    *meta,
                    *declared,
                    opt_text(*normalized),
                ) == Ok::<CorsDecisionView, PolicyRejection>(d@),
                Err(e) => verdict(
                    old(self).config(),
                    old(self).bucket(meta.remote_addr),
                    *meta,
                    *declared,
                    opt_text(*normalized),
                ) == Err::<CorsDecisionView, PolicyRejection>(e),
            },
            final(self).bucket(meta.remote_addr) == if reaches_limiter(old(self).config(), *meta) {
                Some(
                    left(
                        old(self).config().rate_limiting->0,
                        old(self).bucket(meta.remote_addr),
                        meta.now,
                    ),
                )
            } else {
                old(self).bucket(meta.remote_addr)
            },
            forall|c: Option<IpAddress>|
                c != meta.remote_addr ==> final(self).bucket(c) == old(self).bucket(c),
    {
        match &self.config.ip_filter {
            Some(f) => {
                if ip_filter_excludes(f, &meta.remote_addr) {
                    return Err(PolicyRejection::Forbidden);
                }
            },
            None => {},
        }
        match &self.config.rate_limiting {
            Some(rate) => {
                if !self.limiter.check(rate, meta.remote_addr, meta.now) {
                    return Err(PolicyRejection::TooManyRequests);
                }
            },
            None => {},
        }
        if token_check_fails(&self.config.access_control, &meta.remote_addr, meta.valid_token) {
            return Err(PolicyRejection::Unauthorized);
        }
        match declared {
            Declared::Write { .. } => match &self.config.content_types {
                Some(f) => {
                    if content_type_excludes(f, normalized) {
                        return Err(PolicyRejection::UnsupportedMediaType);
                    }
                },
                None => {},
            },
            Declared::Read => {},
        }
        match cors_filter(&self.config.cors, &meta.cors) {
            Some(d) => Ok(d),
            None => Err(PolicyRejection::Forbidden),
        }
    }

    /// Passes a request through the filters. The media type that the
    /// request declares is normalised first, as `mime` does it.
    pub fn screen(&mut self, meta: &RequestMeta, declared: &Declared) -> (r: Result<
        CorsDecision,
        PolicyRejection,
    >)
        ensures
            final(self).config() == old(self).config(),
            match r {
                Ok(d) => verdict(
                    old(self).config(),
                    old(self).bucket(meta.remote_addr),
                    *meta,
                    *declared,
                    normalized_type(*declared),
                ) == Ok::<CorsDecisionView, PolicyRejection>(d@),
                Err(e) => verdict(
                    old(self).config(),
                    old(self).bucket(meta.remote_addr),
                    *meta,
                    *declared,
                    normalized_type(*declared),
                ) == Err::<CorsDecisionView, PolicyRejection>(e),
            },
            final(self).bucket(meta.remote_addr) == if reaches_limiter(old(self).config(), *meta) {
                Some(
                    left(
                        old(self).config().rate_limiting->0,
                        old(self).bucket(meta.remote_addr),
                        meta.now,
                    ),
                )
            } else {
                old(self).bucket(meta.remote_addr)
            },
            forall|c: Option<IpAddress>|
                c != meta.remote_addr ==> final(self).bucket(c) == old(self).bucket(c),
    {
        let normalized = normalize_declared(declared);
        self.screen_normalized(meta, declared, &normalized)
    }
}

} // verus!
