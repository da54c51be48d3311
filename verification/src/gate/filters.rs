//! The filters of the policy gate that keep no state: the IP filter, the
//! access-token check, the content-type filter and CORS.
use vstd::prelude::*;
use crate::config::{AccessControlConfig, ContentTypesConfig, CorsConfig, IpFilterConfig};
use crate::entries::has_text;
use crate::models::object::{clone_texts, opt_text, texts};
use crate::net::{CidrBlock, IpAddress};
use crate::outside::{mime_of, parse_mime};

verus! {

/// Why the policy gate turned a request away.
#[derive(Debug, Clone, Copy, PartialEq, Eq, Structural)]
pub enum PolicyRejection {
    Forbidden,
    TooManyRequests,
    Unauthorized,
    UnsupportedMediaType,
}

/// Some network of a list holds the address.
pub open spec fn in_any(blocks: Seq<CidrBlock>, addr: IpAddress) -> bool {
    exists|i: int| 0 <= i < blocks.len() && (#[trigger] blocks[i]).spec_contains(addr)
}

/// An address is excluded by a filter when an allow-list does not hold it
/// or a deny-list does. A caller without an address is in no list.
pub open spec fn ip_excluded(filter: IpFilterConfig, addr: Option<IpAddress>) -> bool {
    match filter {
        IpFilterConfig::Whitelist(v) => !(addr is Some && in_any(v@, addr->0)),
        IpFilterConfig::Blacklist(v) => addr is Some && in_any(v@, addr->0),
    }
}

/// Whether some network of a list holds an address.
pub fn any_contains(blocks: &Vec<CidrBlock>, addr: &IpAddress) -> (r: bool)
    ensures
        r == in_any(blocks@, *addr),
{
    let mut i: usize = 0;
    while i < blocks.len()
        invariant
            i <= blocks.len(),
            forall|j: int| 0 <= j < i ==> !(#[trigger] blocks@[j]).spec_contains(*addr),
        decreases blocks.len() - i,
    {
        if blocks[i].contains(addr) {
            return true;
        }
        i += 1;
    }
    false
}

/// Whether the IP filter excludes a caller.
pub fn ip_filter_excludes(filter: &IpFilterConfig, addr: &Option<IpAddress>) -> (r: bool)
    ensures
        r == ip_excluded(*filter, *addr),
{
    match filter {
        IpFilterConfig::Whitelist(v) => match addr {
            Some(a) => !any_contains(v, a),
            None => true,
        },
        IpFilterConfig::Blacklist(v) => match addr {
            Some(a) => any_contains(v, a),
            None => false,
        },
    }
}

/// A token is missing when tokens are required, the caller presents no
/// valid one, and the caller is not on loopback with the bypass enabled.
pub open spec fn token_missing(
    access: AccessControlConfig,
    addr: Option<IpAddress>,
    valid_token: bool,
) -> bool {
    &&& access.enable_access_tokens
    &&& !valid_token
    &&& !(access.enable_local_host_auth_bypass && addr is Some && addr->0.spec_is_loopback())
}

/// Whether the access-token check turns a caller away.
pub fn token_check_fails(access: &AccessControlConfig, addr: &Option<IpAddress>, valid_token: bool) -> (r:
    bool)
    ensures
        r == token_missing(*access, *addr, valid_token),
{
    if !access.enable_access_tokens || valid_token {
        return false;
    }
    if access.enable_local_host_auth_bypass {
        match addr {
            Some(a) => !a.is_loopback(),
            None => true,
        }
    } else {
        true
    }
}

/// What a request declares of its payload: nothing, for it writes none, or
/// the content type of what it writes, if it names one.
#[derive(Debug)]
pub enum Declared {
    Read,
    Write { content_type: Option<String> },
}

/// A media type is listed when its normalised text is in the list.
pub open spec fn type_listed(types: Seq<String>, normalized: Option<Seq<char>>) -> bool {
    normalized is Some && texts(types).contains(normalized->0)
}

/// A write is excluded by the content-type filter when an allow-list does
/// not hold its media type or a deny-list does. A write that declares no
/// media type, or one that is none, is in no list.
pub open spec fn type_excluded(filter: ContentTypesConfig, normalized: Option<Seq<char>>) -> bool {
    match filter {
        ContentTypesConfig::Whitelist(v) => !type_listed(v@, normalized),
        ContentTypesConfig::Blacklist(v) => type_listed(v@, normalized),
    }
}

/// Whether the content-type filter excludes a write, given the normalised
/// text of the media type that the write declares.
pub fn content_type_excludes(filter: &ContentTypesConfig, normalized: &Option<String>) -> (r: bool)
    ensures
        r == type_excluded(*filter, opt_text(*normalized)),
{
    match filter {
        ContentTypesConfig::Whitelist(v) => match normalized {
            Some(t) => {
                let found = has_text(v, t);
                proof {
                    listed_is_held(v@, t@);
                }
                !found
            },
            None => true,
        },
        ContentTypesConfig::Blacklist(v) => match normalized {
            Some(t) => {
                let found = has_text(v, t);
                proof {
                    listed_is_held(v@, t@);
                }
                found
            },
            None => false,
        },
    }
}

/// A text is among the texts of a list exactly when some string of the
/// list holds it.
pub proof fn listed_is_held(v: Seq<String>, t: Seq<char>)
    ensures
        texts(v).contains(t) <==> exists|i: int| 0 <= i < v.len() && (#[trigger] v[i])@ == t,
{
    if texts(v).contains(t) {
        let i = choose|i: int| 0 <= i < texts(v).len() && texts(v)[i] == t;
        assert(v[i]@ == t);
    }
    if exists|i: int| 0 <= i < v.len() && (#[trigger] v[i])@ == t {
        let i = choose|i: int| 0 <= i < v.len() && (#[trigger] v[i])@ == t;
        assert(texts(v)[i] == t);
    }
}

/// The normalised text of what a request declares, as `mime` gives it.
pub open spec fn normalized_type(declared: Declared) -> Option<Seq<char>> {
    match declared {
        Declared::Write { content_type: Some(t) } => mime_of(t@),
        _ => None,
    }
}

/// Normalises the media type that a request declares.
pub fn normalize_declared(declared: &Declared) -> (r: Option<String>)
    ensures
        opt_text(r) == normalized_type(*declared),
{
    match declared {
        Declared::Write { content_type: Some(t) } => parse_mime(t.as_str()),
        _ => None,
    }
}

/// What a request says of its origin: nothing, for it comes from no
/// browser or from the same origin; an actual cross-origin request; or a
/// pre-flight that asks for a method and for header names, in lower case.
#[derive(Debug)]
pub enum CorsRequest {
    NoOrigin,
    Actual { origin: String },
    Preflight { origin: String, method: String, headers: Vec<String> },
}

/// The CORS headers of a response, as values: the allowed origin, if any,
/// whether credentials are allowed, and for a pre-flight the allowed methods
/// and header names.
#[derive(Debug)]
pub struct CorsDecision {
    pub allow_origin: Option<String>,
    pub allow_credentials: bool,
    pub allow_methods: Vec<String>,
    pub allow_headers: Vec<String>,
}

/// A CORS decision as contracts see it.
pub struct CorsDecisionView {
    pub allow_origin: Option<Seq<char>>,
    pub allow_credentials: bool,
    pub allow_methods: Seq<Seq<char>>,
    pub allow_headers: Seq<Seq<char>>,
}

impl View for CorsDecision {
    type V = CorsDecisionView;

    open spec fn view(&self) -> CorsDecisionView {
        CorsDecisionView {
            allow_origin: opt_text(self.allow_origin),
            allow_credentials: self.allow_credentials,
            allow_methods: texts(self.allow_methods@),
            allow_headers: texts(self.allow_headers@),
        }
    }
}

/// The decision that adds no header.
pub open spec fn no_headers() -> CorsDecisionView {
    CorsDecisionView {
        allow_origin: None,
        allow_credentials: false,
        allow_methods: Seq::empty(),
        allow_headers: Seq::empty(),
    }
}

/// Every text of a list is among the texts of another.
pub open spec fn all_listed(wanted: Seq<String>, allowed: Seq<String>) -> bool {
    forall|i: int| 0 <= i < wanted.len() ==> texts(allowed).contains((#[trigger] wanted[i])@)
}

/// What CORS makes of a request. Without a `cors` section, and for a
/// request that names no origin, nothing is added and nothing refused. An
/// actual request gets the headers where its origin is allowed and none
/// where it is not. A pre-flight gets them where its origin, its method and
/// all its header names are allowed, and is refused otherwise.
pub open spec fn cors_outcome(cfg: Option<CorsConfig>, req: CorsRequest) -> Option<CorsDecisionView> {
    match cfg {
        None => Some(no_headers()),
        Some(c) => match req {
            CorsRequest::NoOrigin => Some(no_headers()),
            CorsRequest::Actual { origin } => if texts(c.allow_origins@).contains(origin@) {
                Some(
                    CorsDecisionView {
                        allow_origin: Some(origin@),
                        allow_credentials: c.allow_credentials,
                        allow_methods: Seq::empty(),
                        allow_headers: Seq::empty(),
                    },
                )
            } else {
                Some(no_headers())
            },
            CorsRequest::Preflight { origin, method, headers } => if texts(c.allow_origins@).contains(
                origin@,
            ) && texts(c.allow_methods@).contains(method@) && all_listed(headers@, c.allow_headers@) {
                Some(
                    CorsDecisionView {
                        allow_origin: Some(origin@),
                        allow_credentials: c.allow_credentials,
                        allow_methods: texts(c.allow_methods@),
                        allow_headers: texts(c.allow_headers@),
                    },
                )
            } else {
                None
            },
        },
    }
}

/// Whether every string of a list is in another list.
pub fn all_in(wanted: &Vec<String>, allowed: &Vec<String>) -> (r: bool)
    ensures
        r == all_listed(wanted@, allowed@),
{
    let mut i: usize = 0;
    while i < wanted.len()
        invariant
            i <= wanted.len(),
            forall|j: int| 0 <= j < i ==> texts(allowed@).contains((#[trigger] wanted@[j])@),
        decreases wanted.len() - i,
    {
        proof {
            listed_is_held(allowed@, wanted@[i as int]@);
        }
        if !has_text(allowed, &wanted[i]) {
            return false;
        }
        i += 1;
    }
    true
}

/// Computes the CORS headers for a request, or refuses a pre-flight.
pub fn cors_filter(cfg: &Option<CorsConfig>, req: &CorsRequest) -> (r: Option<CorsDecision>)
    ensures
        match r {
            Some(d) => cors_outcome(*cfg, *req) == Some(d@),
            None => cors_outcome(*cfg, *req) is None,
        },
{
    let none = CorsDecision {
        allow_origin: None,
        allow_credentials: false,
        allow_methods: Vec::new(),
        allow_headers: Vec::new(),
    };
    assert(none@.allow_methods =~= Seq::<Seq<char>>::empty());
    assert(none@.allow_headers =~= Seq::<Seq<char>>::empty());
    let c = match cfg {
        None => {
            return Some(none);
        },
        Some(c) => c,
    };
    match req {
        CorsRequest::NoOrigin => Some(none),
        CorsRequest::Actual { origin } => {
            proof {
                listed_is_held(c.allow_origins@, origin@);
            }
            if has_text(&c.allow_origins, origin) {
                let d = CorsDecision {
                    allow_origin: Some(origin.clone()),
                    allow_credentials: c.allow_credentials,
                    allow_methods: Vec::new(),
                    allow_headers: Vec::new(),
                };
                assert(d@.allow_methods =~= Seq::<Seq<char>>::empty());
                assert(d@.allow_headers =~= Seq::<Seq<char>>::empty());
                Some(d)
            } else {
                Some(none)
            }
        },
        CorsRequest::Preflight { origin, method, headers } => {
            proof {
                listed_is_held(c.allow_origins@, origin@);
                listed_is_held(c.allow_methods@, method@);
            }
            if has_text(&c.allow_origins, origin) && has_text(&c.allow_methods, method) && all_in(
                headers,
                &c.allow_headers,
            ) {
                Some(
                    CorsDecision {
                        allow_origin: Some(origin.clone()),
                        allow_credentials: c.allow_credentials,
                        allow_methods: clone_texts(&c.allow_methods),
                        allow_headers: clone_texts(&c.allow_headers),
                    },
                )
            } else {
                None
            }
        },
    }
}

} // verus!
