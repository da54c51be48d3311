use objection::config::{CachePolicy, CacheControlConfig};
use objection::catalog::engine::CatalogEngine;
use objection::error::not_found_message;
use objection::models::bucket::{Bucket, BucketBackup, BucketSettings};
use objection::models::object::Object;
use objection::models::row::{bucket_from_row, bucket_to_row, BucketRow, ClientBucket, RowError};
use objection::models::cache_control_value;
use objection::text::{chars_of, push_decimal, same_text, starts_with, text_lt, text_of};

fn row(uuid: &str, policy: Option<&str>) -> BucketRow {
    BucketRow {
        uuid: uuid.to_string(),
        name: "photos".to_string(),
        default_cache_policy: policy.map(|s| s.to_string()),
        access_logging: true,
    }
}

#[test]
fn cache_policy_has_a_kebab_case_name_and_a_column_name() {
    assert_eq!(CachePolicy::Cache.name(), "cache");
    assert_eq!(CachePolicy::NoCache.name(), "no-cache");
    assert_eq!(CachePolicy::parse("cache"), Some(CachePolicy::Cache));
    assert_eq!(CachePolicy::parse("no-cache"), Some(CachePolicy::NoCache));
    assert_eq!(CachePolicy::parse("nocache"), None);
    assert_eq!(CachePolicy::parse("Cache"), None);
    assert_eq!(CachePolicy::NoCache.column(), "nocache");
    assert_eq!(CachePolicy::from_column("nocache"), Some(CachePolicy::NoCache));
    assert_eq!(CachePolicy::from_column("cache"), Some(CachePolicy::Cache));
    assert_eq!(CachePolicy::from_column("no-cache"), None);
}

#[test]
fn bucket_settings_default_to_nothing_set() {
    let s = BucketSettings::default();
    assert_eq!(s, BucketSettings { default_cache_policy: None, access_logging: false });
    assert_eq!(BucketBackup {}, BucketBackup {});
}

#[test]
fn bucket_record_keeps_identifier_and_name_when_settings_change() {
    let mut b = Bucket::new(42, "photos".to_string(), BucketSettings::default());
    let s = BucketSettings { default_cache_policy: Some(CachePolicy::Cache), access_logging: true };
    b.set_settings(s);
    assert_eq!((b.uuid(), b.name(), *b.settings()), (42, "photos", s));
    let c = b.clone();
    assert_eq!((c.uuid(), c.name(), *c.settings()), (42, "photos", s));
}

#[test]
fn object_record_holds_what_it_was_made_of() {
    let mut o = Object::new(
        7,
        "abc".to_string(),
        "dir/key".to_string(),
        Some(99),
        Some("text/plain".to_string()),
        CachePolicy::Cache,
        None,
        vec!["t".to_string()],
    );
    assert_eq!((o.bucket(), o.hash(), o.path(), o.expires_at()), (7, "abc", "dir/key", Some(99)));
    assert_eq!(o.content_type(), Some("text/plain".to_string()));
    assert_eq!((o.cache_policy(), o.cache_override()), (CachePolicy::Cache, None));
    assert_eq!(o.tags(), ["t"]);
    o.set_expires_at(None);
    o.set_cache_policy(CachePolicy::NoCache);
    let c = o.clone();
    assert_eq!((c.expires_at(), c.cache_policy(), c.path()), (None, CachePolicy::NoCache, "dir/key"));
}

#[test]
fn client_sees_the_identifier_in_hyphenated_form() {
    let id = 0x550e8400_e29b_41d4_a716_446655440000u128;
    let s = BucketSettings { default_cache_policy: Some(CachePolicy::NoCache), access_logging: true };
    let c = ClientBucket::from_bucket(&Bucket::new(id, "photos".to_string(), s));
    assert_eq!(c.uuid, "550e8400-e29b-41d4-a716-446655440000");
    assert_eq!(c.name, "photos");
    assert_eq!(c.settings, s);
    let low = ClientBucket::from_bucket(&Bucket::new(0xab, "x".to_string(), s));
    assert_eq!(low.uuid, "00000000-0000-0000-0000-0000000000ab");
}

#[test]
fn row_is_read_into_a_bucket() {
    let b = bucket_from_row(row("550e8400-e29b-41d4-a716-446655440000", Some("nocache"))).unwrap();
    assert_eq!(b.uuid(), 0x550e8400_e29b_41d4_a716_446655440000u128);
    assert_eq!(b.name(), "photos");
    assert_eq!(
        *b.settings(),
        BucketSettings { default_cache_policy: Some(CachePolicy::NoCache), access_logging: true }
    );
    let bare = bucket_from_row(row("550E8400E29B41D4A716446655440000", None)).unwrap();
    assert_eq!(bare.uuid(), b.uuid());
    assert_eq!(bare.settings().default_cache_policy, None);
}

#[test]
fn malformed_row_gives_a_typed_error() {
    match bucket_from_row(row("not-a-uuid", Some("bogus"))).unwrap_err() {
        RowError::MalformedUuid(t) => assert_eq!(t, "not-a-uuid"),
        other => panic!("unexpected {:?}", other),
    }
    match bucket_from_row(row("550e8400-e29b-41d4-a716-446655440000", Some("no-cache"))).unwrap_err() {
        RowError::UnknownCachePolicy(t) => assert_eq!(t, "no-cache"),
        other => panic!("unexpected {:?}", other),
    }
}

#[test]
fn bucket_written_as_a_row_reads_back() {
    let mut c = CatalogEngine::new(CacheControlConfig::default());
    let s = BucketSettings { default_cache_policy: Some(CachePolicy::Cache), access_logging: false };
    let b = c.create_bucket("photos", s).unwrap();
    let r = bucket_to_row(&b);
    assert_eq!(r.uuid.len(), 36);
    assert_eq!(r.name, "photos");
    assert_eq!(r.default_cache_policy, Some("cache".to_string()));
    assert!(!r.access_logging);
    let back = bucket_from_row(r).unwrap();
    assert_eq!((back.uuid(), back.name(), *back.settings()), (b.uuid(), "photos", s));
}

#[test]
fn not_found_message_names_the_resource() {
    assert_eq!(
        not_found_message("/api/nothing"),
        "The requested resource `/api/nothing` was not found"
    );
}

#[test]
fn text_helpers_compare_by_code_point() {
    assert!(same_text("abc", "abc") && !same_text("abc", "abd") && !same_text("abc", "ab"));
    assert!(starts_with("abc", "") && starts_with("abc", "ab") && starts_with("abc", "abc"));
    assert!(!starts_with("abc", "abcd") && !starts_with("abc", "b") && starts_with("", ""));
    assert!(text_lt("", "a") && text_lt("a", "b") && text_lt("a", "aa") && text_lt("Z", "a"));
    assert!(!text_lt("a", "a") && !text_lt("b", "a") && !text_lt("aa", "a") && !text_lt("", ""));
    assert!(text_lt("z", "é") && text_lt("é", "日本") && !text_lt("日本", "日"));
    assert_eq!(chars_of("héllo"), vec!['h', 'é', 'l', 'l', 'o']);
    assert_eq!(text_of(&vec!['h', 'é', 'y']), "héy");
}

#[test]
fn cache_control_value_follows_the_policy() {
    assert_eq!(cache_control_value(CachePolicy::Cache, 3600), "max-age=3600");
    assert_eq!(cache_control_value(CachePolicy::Cache, 0), "max-age=0");
    assert_eq!(cache_control_value(CachePolicy::Cache, u64::MAX), "max-age=18446744073709551615");
    assert_eq!(cache_control_value(CachePolicy::NoCache, 3600), "no-cache");
}

#[test]
fn numbers_are_written_in_decimal() {
    let mut s = "n=".to_string();
    push_decimal(&mut s, 0);
    push_decimal(&mut s, 7);
    push_decimal(&mut s, 10);
    push_decimal(&mut s, 1_000_203);
    assert_eq!(s, "n=07101000203");
}
