use objection::catalog::engine::CatalogError;
use objection::config::{CachePolicy, Config, ContentTypesConfig, RateLimitingConfig};
use objection::gate::chain::RequestMeta;
use objection::gate::filters::{CorsRequest, PolicyRejection};
use objection::models::bucket::{Bucket, BucketSettings};
use objection::net::IpAddress;
use objection::pipeline::{declaration, Operation, PipelineError, RequestPipeline, Response};
use objection::gate::filters::Declared;

fn open_config() -> Config {
    let mut c = Config::default();
    c.access_control.enable_access_tokens = false;
    c
}

fn meta(now: i64) -> RequestMeta {
    RequestMeta {
        remote_addr: Some(IpAddress::V4(0x0a00_0001)),
        now,
        valid_token: false,
        cors: CorsRequest::NoOrigin,
    }
}

fn create(name: &str) -> Operation {
    Operation::CreateBucket {
        name: name.to_string(),
        settings: BucketSettings { default_cache_policy: None, access_logging: false },
    }
}

fn put(bucket: &str, key: &str, bytes: &[u8], content_type: Option<&str>) -> Operation {
    Operation::PutObject {
        bucket: bucket.to_string(),
        key: key.to_string(),
        bytes: bytes.to_vec(),
        content_type: content_type.map(|s| s.to_string()),
        tags: Vec::new(),
        cache_policy: None,
    }
}

fn get(bucket: &str, key: &str) -> Operation {
    Operation::GetObject { bucket: bucket.to_string(), key: key.to_string() }
}

#[test]
fn operations_reach_the_catalog_through_the_pipeline() {
    let mut p = RequestPipeline::new(open_config());
    assert!(matches!(p.handle(&meta(0), create("b")).unwrap().response, Response::Bucket(_)));
    assert!(matches!(
        p.handle(&meta(0), put("b", "k", b"payload", Some("text/plain"))).unwrap().response,
        Response::Object(_)
    ));
    match p.handle(&meta(0), get("b", "k")).unwrap().response {
        Response::Content(o, bytes) => {
            assert_eq!(o.path(), "k");
            assert_eq!(o.cache_policy(), CachePolicy::NoCache);
            assert_eq!(bytes, b"payload".to_vec());
        }
        other => panic!("unexpected {:?}", other),
    }
    match p.handle(&meta(0), Operation::ListBuckets { page: None, limit: None }).unwrap().response {
        Response::Buckets(v) => assert_eq!(v.len(), 1),
        other => panic!("unexpected {:?}", other),
    }
    match p
        .handle(
            &meta(0),
            Operation::ListObjects {
                bucket: "b".to_string(),
                prefix: "".to_string(),
                page: None,
                limit: None,
            },
        )
        .unwrap()
        .response
    {
        Response::Objects(v) => assert_eq!(v.len(), 1),
        other => panic!("unexpected {:?}", other),
    }
    let s = BucketSettings { default_cache_policy: Some(CachePolicy::Cache), access_logging: true };
    match p
        .handle(&meta(0), Operation::UpdateBucketSettings { name: "b".to_string(), settings: s })
        .unwrap()
        .response
    {
        Response::Bucket(b) => assert_eq!(*b.settings(), s),
        other => panic!("unexpected {:?}", other),
    }
    match p.handle(&meta(0), Operation::GetBucket { name: "b".to_string() }).unwrap().response {
        Response::Bucket(b) => assert_eq!(b.name(), "b"),
        other => panic!("unexpected {:?}", other),
    }
    assert!(matches!(
        p.handle(&meta(0), Operation::DeleteObject { bucket: "b".to_string(), key: "k".to_string() })
            .unwrap()
            .response,
        Response::Done
    ));
    assert!(matches!(
        p.handle(&meta(0), Operation::DeleteBucket { name: "b".to_string() }).unwrap().response,
        Response::Done
    ));
    assert_eq!(p.catalog().list_buckets(None, None).len(), 0);
}

#[test]
fn catalog_errors_come_back_as_such() {
    let mut p = RequestPipeline::new(open_config());
    p.handle(&meta(0), create("b")).unwrap();
    assert_eq!(
        p.handle(&meta(0), create("b")).unwrap_err(),
        PipelineError::Catalog(CatalogError::Conflict)
    );
    assert_eq!(
        p.handle(&meta(0), get("b", "missing")).unwrap_err(),
        PipelineError::Catalog(CatalogError::NotFound)
    );
    assert_eq!(
        p.handle(&meta(0), put("missing", "k", b"x", None)).unwrap_err(),
        PipelineError::Catalog(CatalogError::NotFound)
    );
}

#[test]
fn rejected_request_leaves_the_catalog_untouched() {
    let mut p = RequestPipeline::new(Config::default());
    assert_eq!(
        p.handle(&meta(0), create("b")).unwrap_err(),
        PipelineError::Rejected(PolicyRejection::Unauthorized)
    );
    assert_eq!(p.catalog().list_buckets(None, None).len(), 0);
    let with_token = RequestMeta { valid_token: true, ..meta(0) };
    assert!(p.handle(&with_token, create("b")).is_ok());
    assert_eq!(p.catalog().list_buckets(None, None).len(), 1);
}

#[test]
fn only_writes_of_objects_meet_the_content_type_filter() {
    let mut c = open_config();
    c.content_types = Some(ContentTypesConfig::Whitelist(vec!["image/png".to_string()]));
    let mut p = RequestPipeline::new(c);
    assert!(p.handle(&meta(0), create("b")).is_ok());
    assert_eq!(
        p.handle(&meta(0), put("b", "k", b"x", Some("text/plain"))).unwrap_err(),
        PipelineError::Rejected(PolicyRejection::UnsupportedMediaType)
    );
    assert_eq!(
        p.handle(&meta(0), put("b", "k", b"x", None)).unwrap_err(),
        PipelineError::Rejected(PolicyRejection::UnsupportedMediaType)
    );
    assert_eq!(
        p.handle(&meta(0), get("b", "k")).unwrap_err(),
        PipelineError::Catalog(CatalogError::NotFound)
    );
    assert!(p.handle(&meta(0), put("b", "k", b"x", Some("Image/PNG"))).is_ok());
    assert!(p.handle(&meta(0), get("b", "k")).is_ok());
    assert!(matches!(declaration(&get("b", "k")), Declared::Read));
    assert!(matches!(
        declaration(&put("b", "k", b"x", Some("a/b"))),
        Declared::Write { content_type: Some(ref t) } if t == "a/b"
    ));
}

#[test]
fn rate_limit_is_spent_before_the_catalog_is_asked() {
    let mut c = open_config();
    c.rate_limiting = Some(RateLimitingConfig { default_period: 1_000, default_burst_size: 2 });
    let mut p = RequestPipeline::new(c);
    assert!(p.handle(&meta(0), create("b")).is_ok());
    assert_eq!(
        p.handle(&meta(0), get("b", "missing")).unwrap_err(),
        PipelineError::Catalog(CatalogError::NotFound)
    );
    assert_eq!(
        p.handle(&meta(0), get("b", "missing")).unwrap_err(),
        PipelineError::Rejected(PolicyRejection::TooManyRequests)
    );
    assert_eq!(
        p.handle(&meta(1_000), get("b", "missing")).unwrap_err(),
        PipelineError::Catalog(CatalogError::NotFound)
    );
}

#[test]
fn objects_expire_by_the_time_of_the_request() {
    let mut p = RequestPipeline::new(open_config());
    p.handle(&meta(0), create("b")).unwrap();
    p.handle(&meta(0), put("b", "k", b"x", None)).unwrap();
    p.handle(&meta(0), put("b", "stay", b"x", None)).unwrap();
    let hash = match p.handle(&meta(0), get("b", "k")).unwrap().response {
        Response::Content(o, _) => o.hash().to_string(),
        other => panic!("unexpected {:?}", other),
    };
    assert_eq!(p.catalog().blob_ref_count(&hash), 2);
    assert!(p.handle(&meta(i64::MAX), get("b", "k")).is_ok());
    assert_eq!(p.maintain(0), (0, 0));
    assert_eq!(p.catalog().blob_ref_count(&hash), 2);
}

#[test]
fn expiry_is_set_through_the_pipeline() {
    let mut p = RequestPipeline::new(open_config());
    p.handle(&meta(0), create("b")).unwrap();
    p.handle(&meta(0), put("b", "k", b"x", None)).unwrap();
    let expire = |at| Operation::ExpireObject { bucket: "b".to_string(), key: "k".to_string(), at };
    assert!(matches!(p.handle(&meta(0), expire(Some(100))).unwrap().response, Response::Done));
    assert!(p.handle(&meta(99), get("b", "k")).is_ok());
    assert_eq!(
        p.handle(&meta(100), get("b", "k")).unwrap_err(),
        PipelineError::Catalog(CatalogError::Expired)
    );
    assert_eq!(
        p.handle(&meta(0), Operation::ExpireObject {
            bucket: "b".to_string(),
            key: "missing".to_string(),
            at: None
        })
        .unwrap_err(),
        PipelineError::Catalog(CatalogError::NotFound)
    );
    assert_eq!(p.maintain(100), (1, 1));
    assert_eq!(
        p.handle(&meta(0), get("b", "k")).unwrap_err(),
        PipelineError::Catalog(CatalogError::NotFound)
    );
}

#[test]
fn kept_state_is_put_back_past_the_gate() {
    let mut p = RequestPipeline::new(Config::default());
    let bucket = Bucket::new(
        7,
        "b".to_string(),
        BucketSettings { default_cache_policy: Some(CachePolicy::Cache), access_logging: false },
    );
    assert_eq!(p.restore_bucket(&bucket), Ok(()));
    assert_eq!(p.restore_bucket(&bucket), Err(CatalogError::Conflict));
    assert_eq!(
        p.restore_object("b", "k", b"kept", Some("text/plain".to_string()), vec!["t".to_string()], None, Some(50)),
        Ok(())
    );
    assert_eq!(
        p.restore_object("missing", "k", b"kept", None, Vec::new(), None, None),
        Err(CatalogError::NotFound)
    );
    let (meta_kept, bytes) = p.catalog().get_object("b", "k", 49).unwrap();
    assert_eq!(bytes, b"kept".to_vec());
    assert_eq!(meta_kept.expires_at(), Some(50));
    assert_eq!(meta_kept.cache_policy(), CachePolicy::Cache);
    assert_eq!(meta_kept.content_type(), Some("text/plain".to_string()));
    assert_eq!(p.catalog().get_object("b", "k", 50).unwrap_err(), CatalogError::Expired);
    p.reset_catalog();
    assert_eq!(p.catalog().list_buckets(None, None).len(), 0);
    assert_eq!(p.catalog().get_object("b", "k", 0).unwrap_err(), CatalogError::NotFound);
    assert_eq!(p.restore_bucket(&bucket), Ok(()));
}
