//! The records the catalog keeps: buckets, objects and their cache policy.
use vstd::prelude::*;
use crate::text::{decimal, push_decimal, same_text};

pub mod bucket;
pub mod object;
pub mod row;

verus! {

/// Whether a stored object may be served from a cache or must be revalidated.
#[derive(Debug, Clone, Copy, PartialEq, Eq, Structural)]
pub enum CachePolicy {
    Cache,
    NoCache,
}

impl CachePolicy {
    /// The kebab-case name of a policy.
    pub open spec fn text(self) -> Seq<char> {
        match self {
            CachePolicy::Cache => "cache"@,
            CachePolicy::NoCache => "no-cache"@,
        }
    }

    /// The policy that a name stands for, if it is the name of one.
    pub open spec fn from_text(s: Seq<char>) -> Option<CachePolicy> {
        if s == "cache"@ {
            Some(CachePolicy::Cache)
        } else if s == "no-cache"@ {
            Some(CachePolicy::NoCache)
        } else {
            None
        }
    }

    /// The name of a policy in a table column.
    pub open spec fn column_text(self) -> Seq<char> {
        match self {
            CachePolicy::Cache => "cache"@,
            CachePolicy::NoCache => "nocache"@,
        }
    }

    /// The policy that a table column names, if it names one.
    pub open spec fn from_column_text(s: Seq<char>) -> Option<CachePolicy> {
        if s == "cache"@ {
            Some(CachePolicy::Cache)
        } else if s == "nocache"@ {
            Some(CachePolicy::NoCache)
        } else {
            None
        }
    }

    /// The name in a table column: `cache` or `nocache`.
    pub fn column(&self) -> (r: String)
        ensures
            r@ == self.column_text(),
    {
        match self {
            CachePolicy::Cache => "cache".to_owned(),
            CachePolicy::NoCache => "nocache".to_owned(),
        }
    }

    /// Reads a policy from a table column; any other text is `None`.
    pub fn from_column(s: &str) -> (r: Option<CachePolicy>)
        ensures
            r == Self::from_column_text(s@),
    {
        if same_text(s, "cache") {
            Some(CachePolicy::Cache)
        } else if same_text(s, "nocache") {
            Some(CachePolicy::NoCache)
        } else {
            None
        }
    }

    /// The kebab-case name: `cache` or `no-cache`.
    pub fn name(&self) -> (r: String)
        ensures
            r@ == self.text(),
    {
        match self {
            CachePolicy::Cache => "cache".to_owned(),
            CachePolicy::NoCache => "no-cache".to_owned(),
        }
    }

    /// Reads a policy from its kebab-case name; any other text is `None`.
    pub fn parse(s: &str) -> (r: Option<CachePolicy>)
        ensures
            r == Self::from_text(s@),
    {
        if same_text(s, "cache") {
            Some(CachePolicy::Cache)
        } else if same_text(s, "no-cache") {
            Some(CachePolicy::NoCache)
        } else {
            None
        }
    }
}

/// A name read back gives the policy it was made from.
pub proof fn cache_policy_name_round_trip(p: CachePolicy)
    ensures
        CachePolicy::from_text(p.text()) == Some(p),
{
    reveal_strlit("cache");
    reveal_strlit("no-cache");
    assert("cache"@.len() != "no-cache"@.len());
}

/// A column read back gives the policy it was made from.
pub proof fn cache_policy_column_round_trip(p: CachePolicy)
    ensures
        CachePolicy::from_column_text(p.column_text()) == Some(p),
{
    reveal_strlit("cache");
    reveal_strlit("nocache");
    assert("cache"@.len() != "nocache"@.len());
}

/// The policy in force for an object: its own override if it has one, else
/// the bucket's default if that is set, else the global default.
pub open spec fn resolved_policy(
    object_override: Option<CachePolicy>,
    bucket_default: Option<CachePolicy>,
    global_default: CachePolicy,
) -> CachePolicy {
    match object_override {
        Some(p) => p,
        None => match bucket_default {
            Some(p) => p,
            None => global_default,
        },
    }
}

/// Resolves the cache policy of an object in the strict order
/// object override, bucket default, global default.
pub fn resolve_cache_policy(
    object_override: Option<CachePolicy>,
    bucket_default: Option<CachePolicy>,
    global_default: CachePolicy,
) -> (r: CachePolicy)
    ensures
        r == resolved_policy(object_override, bucket_default, global_default),
{
    match object_override {
        Some(p) => p,
        None => match bucket_default {
            Some(p) => p,
            None => global_default,
        },
    }
}

/// The `Cache-Control` value that goes with an object: `max-age` with the
/// global max-age in seconds where the object may be cached, `no-cache`
/// where it may not.
pub open spec fn cache_control_text(policy: CachePolicy, max_age: u64) -> Seq<char> {
    match policy {
        CachePolicy::Cache => "max-age="@ + decimal(max_age as nat),
        CachePolicy::NoCache => "no-cache"@,
    }
}

/// Writes the `Cache-Control` value that goes with an object.
pub fn cache_control_value(policy: CachePolicy, max_age: u64) -> (r: String)
    ensures
        r@ == cache_control_text(policy, max_age),
{
    match policy {
        CachePolicy::Cache => {
            let mut r = "max-age=".to_owned();
            push_decimal(&mut r, max_age);
            r
        },
        CachePolicy::NoCache => "no-cache".to_owned(),
    }
}

} // verus!
