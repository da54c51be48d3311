//! Buckets as they cross the edges of the library: as rows of the `buckets`
//! table, with the settings in columns of their own, and as what a client
//! is shown.
use vstd::prelude::*;
use super::bucket::{Bucket, BucketSettings, BucketView};
use super::object::opt_text;
use super::CachePolicy;
use crate::outside::{format_uuid, parse_uuid, uuid_of, uuid_text};

verus! {

/// A row of the `buckets` table.
#[derive(Debug)]
pub struct BucketRow {
    pub uuid: String,
    pub name: String,
    pub default_cache_policy: Option<String>,
    pub access_logging: bool,
}

/// Why a row is no bucket.
#[derive(Debug)]
pub enum RowError {
    MalformedUuid(String),
    UnknownCachePolicy(String),
}

/// The bucket that a row stands for, if its identifier and its cache policy
/// can be read.
pub open spec fn row_bucket(row: BucketRow) -> Option<BucketView> {
    match uuid_of(row.uuid@) {
        None => None,
        Some(id) => match row.default_cache_policy {
            None => Some(
                BucketView {
                    uuid: id,
                    name: row.name@,
                    settings: BucketSettings {
                        default_cache_policy: None,
                        access_logging: row.access_logging,
                    },
                },
            ),
            Some(p) => match CachePolicy::from_column_text(p@) {
                None => None,
                Some(policy) => Some(
                    BucketView {
                        uuid: id,
                        name: row.name@,
                        settings: BucketSettings {
                            default_cache_policy: Some(policy),
                            access_logging: row.access_logging,
                        },
                    },
                ),
            },
        },
    }
}

/// Reads a bucket from a row. A malformed identifier is reported first,
/// then an unknown cache policy, each with the text at fault.
pub fn bucket_from_row(row: BucketRow) -> (r: Result<Bucket, RowError>)
    ensures
        match r {
            Ok(b) => row_bucket(row) == Some(b@),
            Err(RowError::MalformedUuid(t)) => uuid_of(row.uuid@) is None && t@ == row.uuid@,
            Err(RowError::UnknownCachePolicy(t)) => {
                &&& uuid_of(row.uuid@) is Some
                &&& row.default_cache_policy is Some
                &&& CachePolicy::from_column_text(row.default_cache_policy->0@) is None
                &&& t@ == row.default_cache_policy->0@
            },
        },
{
    let id = match parse_uuid(row.uuid.as_str()) {
        Some(id) => id,
        None => {
            return Err(RowError::MalformedUuid(row.uuid));
        },
    };
    let default_cache_policy = match row.default_cache_policy {
        None => None,
        Some(p) => match CachePolicy::from_column(p.as_str()) {
            Some(policy) => Some(policy),
            None => {
                return Err(RowError::UnknownCachePolicy(p));
            },
        },
    };
    Ok(
        Bucket::new(
            id,
            row.name,
            BucketSettings { default_cache_policy, access_logging: row.access_logging },
        ),
    )
}

/// Writes a bucket as a row: the identifier in its hyphenated form, the
/// cache policy by its column name.
pub fn bucket_to_row(b: &Bucket) -> (r: BucketRow)
    ensures
        r.uuid@ == uuid_text(b@.uuid),
        r.name@ == b@.name,
        opt_text(r.default_cache_policy) == match b@.settings.default_cache_policy {
            Some(p) => Some(p.column_text()),
            None => None,
        },
        r.access_logging == b@.settings.access_logging,
        row_bucket(r) == Some(b@),
{
    let default_cache_policy = match b.settings().default_cache_policy {
        Some(p) => {
            proof {
                super::cache_policy_column_round_trip(p);
            }
            Some(p.column())
        },
        None => None,
    };
    BucketRow {
        uuid: format_uuid(b.uuid()),
        name: b.name().to_owned(),
        default_cache_policy,
        access_logging: b.settings().access_logging,
    }
}

/// A bucket as a client is shown it.
#[derive(Debug)]
pub struct ClientBucket {
    pub uuid: String,
    pub name: String,
    pub settings: BucketSettings,
}

impl ClientBucket {
    /// Shows a bucket: the identifier in its hyphenated form, the name and
    /// the settings as they are.
    pub fn from_bucket(b: &Bucket) -> (r: ClientBucket)
        ensures
            r.uuid@ == uuid_text(b@.uuid),
            r.name@ == b@.name,
            r.settings == b@.settings,
    {
        ClientBucket { uuid: format_uuid(b.uuid()), name: b.name().to_owned(), settings: *b.settings() }
    }
}

} // verus!
