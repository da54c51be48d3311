//! The request pipeline: every operation passes the policy gate first and
//! reaches the catalog only where the policy gate lets it through.
use vstd::prelude::*;
use crate::catalog::engine::{bucket_views, object_views, CatalogEngine, CatalogError};
use crate::catalog::model::{
    bucket_at, has_bucket, has_uuid, listing, page_of, CatalogView, Selection,
};
use crate::config::Config;
use crate::digest::content_hash;
use crate::gate::chain::{reaches_limiter, verdict, PolicyGate, RequestMeta};
use crate::gate::filters::{
    normalized_type, CorsDecision, CorsDecisionView, Declared, PolicyRejection,
};
use crate::gate::limiter::{left, BucketState};
use crate::models::bucket::{Bucket, BucketSettings};
use crate::models::object::{clone_opt_text, opt_text, texts, Object, ObjectView};
use crate::models::CachePolicy;
use crate::net::IpAddress;

verus! {

/// The operations of the catalog, as requests name them.
#[derive(Debug)]
pub enum Operation {
    CreateBucket { name: String, settings: BucketSettings },
    ListBuckets { page: Option<u64>, limit: Option<u64> },
    GetBucket { name: String },
    UpdateBucketSettings { name: String, settings: BucketSettings },
    DeleteBucket { name: String },
    PutObject {
        bucket: String,
        key: String,
        bytes: Vec<u8>,
        content_type: Option<String>,
        tags: Vec<String>,
        cache_policy: Option<CachePolicy>,
    },
    GetObject { bucket: String, key: String },
    DeleteObject { bucket: String, key: String },
    ExpireObject { bucket: String, key: String, at: Option<i64> },
    ListObjects { bucket: String, prefix: String, page: Option<u64>, limit: Option<u64> },
}

/// What an operation gives back.
#[derive(Debug)]
pub enum Response {
    Bucket(Bucket),
    Buckets(Vec<Bucket>),
    Object(Object),
    Content(Object, Vec<u8>),
    Objects(Vec<Object>),
    Done,
}

/// Why a request was not served: the policy gate turned it away, or the catalog
/// refused the operation.
#[derive(Debug, Clone, Copy, PartialEq, Eq, Structural)]
pub enum PipelineError {
    Rejected(PolicyRejection),
    Catalog(CatalogError),
}

/// A request that was served: what the operation gave and the CORS headers
/// that go with the response.
#[derive(Debug)]
pub struct Served {
    pub response: Response,
    pub cors: CorsDecision,
}

/// What an operation declares of its payload: only an object that is
/// written declares a content type.
pub open spec fn declared_by(op: Operation) -> Declared {
    match op {
        Operation::PutObject { content_type, .. } => Declared::Write { content_type },
        _ => Declared::Read,
    }
}

/// What an operation at a time makes of a catalog and gives back: for each
/// operation what the catalog's own operation of that name does.
pub open spec fn effect(
    before: CatalogView,
    op: Operation,
    now: i64,
    after: CatalogView,
    r: Result<Response, CatalogError>,
) -> bool {
    match op {
        Operation::CreateBucket { name, settings } => match r {
            Ok(Response::Bucket(b)) => {
                &&& !has_bucket(before.buckets, name@)
                &&& !has_uuid(before.buckets, b@.uuid)
                &&& b@.name == name@
                &&& b@.settings == settings
                &&& after == before.with_bucket(b@)
            },
            Ok(_) => false,
            Err(e) => e == CatalogError::Conflict && has_bucket(before.buckets, name@) && after
                == before,
        },
        Operation::ListBuckets { page, limit } => {
            &&& after == before
            &&& r matches Ok(Response::Buckets(v))
            &&& bucket_views(v@) == page_of(before.buckets, page, limit)
        },
        Operation::GetBucket { name } => {
            &&& after == before
            &&& match r {
                Ok(Response::Bucket(b)) => has_bucket(before.buckets, name@) && b@
                    == before.buckets[bucket_at(before.buckets, name@)],
                Ok(_) => false,
                Err(e) => e == CatalogError::NotFound && !has_bucket(before.buckets, name@),
            }
        },
        Operation::UpdateBucketSettings { name, settings } => match r {
            Ok(Response::Bucket(b)) => {
                &&& has_bucket(before.buckets, name@)
                &&& after == before.with_settings(name@, settings)
                &&& b@ == after.buckets[bucket_at(before.buckets, name@)]
            },
            Ok(_) => false,
            Err(e) => e == CatalogError::NotFound && !has_bucket(before.buckets, name@) && after
                == before,
        },
        Operation::DeleteBucket { name } => match r {
            Ok(Response::Done) => has_bucket(before.buckets, name@) && after == before.without_bucket(
                name@,
            ),
            Ok(_) => false,
            Err(e) => e == CatalogError::NotFound && !has_bucket(before.buckets, name@) && after
                == before,
        },
        Operation::PutObject { bucket, key, bytes, content_type, tags, cache_policy } => match r {
            Ok(Response::Object(o)) => {
                &&& has_bucket(before.buckets, bucket@)
                &&& o@ == before.written(
                    bucket@,
                    key@,
                    bytes@,
                    opt_text(content_type),
                    texts(tags@),
                    cache_policy,
                )
                &&& after == before.with_object(o@, bytes@)
            },
            Ok(_) => false,
            Err(e) => e == CatalogError::NotFound && !has_bucket(before.buckets, bucket@) && after
                == before,
        },
        Operation::GetObject { bucket, key } => {
            &&& after == before
            &&& match r {
                Ok(Response::Content(o, bytes)) => {
                    &&& before.read(bucket@, key@, now) == Ok::<ObjectView, CatalogError>(o@)
                    &&& before.blobs.contains_key(o@.hash)
                    &&& bytes@ == before.blobs[o@.hash].bytes
                    &&& content_hash(bytes@) == o@.hash
                },
                Ok(_) => false,
                Err(e) => before.read(bucket@, key@, now) == Err::<ObjectView, CatalogError>(e),
            }
        },
        Operation::DeleteObject { bucket, key } => match r {
            Ok(Response::Done) => {
                &&& before.lookup(bucket@, key@) matches Some(o)
                &&& after == before.without_object(o.bucket, key@)
            },
            Ok(_) => false,
            Err(e) => e == CatalogError::NotFound && before.lookup(bucket@, key@) is None && after
                == before,
        },
        Operation::ExpireObject { bucket, key, at } => match r {
            Ok(Response::Done) => {
                &&& before.lookup(bucket@, key@) matches Some(o)
                &&& after == before.with_expiry(o.bucket, key@, at)
            },
            Ok(_) => false,
            Err(e) => e == CatalogError::NotFound && before.lookup(bucket@, key@) is None && after
                == before,
        },
        Operation::ListObjects { bucket, prefix, page, limit } => {
            &&& after == before
            &&& match r {
                Ok(Response::Objects(v)) => {
                    &&& has_bucket(before.buckets, bucket@)
                    &&& object_views(v@) == page_of(
                        listing(
                            before.objects,
                            before.buckets[bucket_at(before.buckets, bucket@)].uuid,
                            prefix@,
                            now,
                        ),
                        page,
                        limit,
                    )
                },
                Ok(_) => false,
                Err(e) => e == CatalogError::NotFound && !has_bucket(before.buckets, bucket@),
            }
        },
    }
}

/// Carries out an operation on a catalog at a time.
pub fn apply(catalog: &mut CatalogEngine, op: Operation, now: i64) -> (r: Result<
    Response,
    CatalogError,
>)
    requires
        old(catalog).wf(),
    ensures
        final(catalog).wf(),
        effect(old(catalog)@, op, now, final(catalog)@, r),
{
    match op {
        Operation::CreateBucket { name, settings } => match catalog.create_bucket(
            name.as_str(),
            settings,
        ) {
            Ok(b) => Ok(Response::Bucket(b)),
            Err(e) => Err(e),
        },
        Operation::ListBuckets { page, limit } => Ok(
            Response::Buckets(catalog.list_buckets(page, limit)),
        ),
        Operation::GetBucket { name } => match catalog.get_bucket(name.as_str()) {
            Ok(b) => Ok(Response::Bucket(b)),
            Err(e) => Err(e),
        },
        Operation::UpdateBucketSettings { name, settings } => match catalog.update_bucket_settings(
            name.as_str(),
            settings,
        ) {
            Ok(b) => Ok(Response::Bucket(b)),
            Err(e) => Err(e),
        },
        Operation::DeleteBucket { name } => match catalog.delete_bucket(name.as_str()) {
            Ok(_) => Ok(Response::Done),
            Err(e) => Err(e),
        },
        Operation::PutObject { bucket, key, bytes, content_type, tags, cache_policy } => {
            match catalog.put_object(
                bucket.as_str(),
                key.as_str(),
                bytes.as_slice(),
                content_type,
                tags,
                cache_policy,
            ) {
                Ok(o) => Ok(Response::Object(o)),
                Err(e) => Err(e),
            }
        },
        Operation::GetObject { bucket, key } => match catalog.get_object(
            bucket.as_str(),
            key.as_str(),
            now,
        ) {
            Ok((o, bytes)) => Ok(Response::Content(o, bytes)),
            Err(e) => Err(e),
        },
        Operation::DeleteObject { bucket, key } => match catalog.delete_object(
            bucket.as_str(),
            key.as_str(),
        ) {
            Ok(_) => Ok(Response::Done),
            Err(e) => Err(e),
        },
        Operation::ExpireObject { bucket, key, at } => match catalog.set_object_expiry(
            bucket.as_str(),
            key.as_str(),
            at,
        ) {
            Ok(_) => Ok(Response::Done),
            Err(e) => Err(e),
        },
        Operation::ListObjects { bucket, prefix, page, limit } => match catalog.list_objects(
            bucket.as_str(),
            prefix.as_str(),
            page,
            limit,
            now,
        ) {
            Ok(v) => Ok(Response::Objects(v)),
            Err(e) => Err(e),
        },
    }
}

/// What an operation declares of its payload.
pub fn declaration(op: &Operation) -> (r: Declared)
    ensures
        normalized_type(r) == normalized_type(declared_by(*op)),
        r is Write <==> declared_by(*op) is Write,
{
    match op {
        Operation::PutObject { content_type, .. } => Declared::Write {
            content_type: clone_opt_text(content_type),
        },
        _ => Declared::Read,
    }
}

/// The request pipeline: a policy gate in front of a catalog.
#[derive(Debug)]
pub struct RequestPipeline {
    gate: PolicyGate,
    catalog: CatalogEngine,
}

impl RequestPipeline {
    /// The catalog behind the policy gate is consistent.
    pub closed spec fn wf(&self) -> bool {
        self.catalog.wf()
    }

    /// The configuration that the policy gate enforces.
    pub closed spec fn config(&self) -> Config {
        self.gate.config()
    }

    /// What the catalog holds.
    pub closed spec fn catalog_view(&self) -> CatalogView {
        self.catalog@
    }

    /// The token bucket of a caller, if the caller has one yet.
    pub closed spec fn bucket(&self, caller: Option<IpAddress>) -> Option<BucketState> {
        self.gate.bucket(caller)
    }

    /// A pipeline for a configuration, with an empty catalog and no token
    /// bucket yet.
    pub fn new(config: Config) -> (r: RequestPipeline)
        ensures
            r.wf(),
            r.config() == config,
            r.catalog_view() == (CatalogView {
                default_policy: config.cache_control.default_policy,
                default_max_age: config.cache_control.default_max_age,
                buckets: Seq::empty(),
                objects: Seq::empty(),
                blobs: Map::empty(),
            }),
            forall|c: Option<IpAddress>| r.bucket(c) is None,
    {
        let catalog = CatalogEngine::new(config.cache_control);
        RequestPipeline { gate: PolicyGate::new(config), catalog }
    }

    /// The catalog, for reading.
    pub fn catalog(&self) -> (r: &CatalogEngine)
        requires
            self.wf(),
        ensures
            r.wf(),
            r@ == self.catalog_view(),
    {
        &self.catalog
    }

    /// Serves one request: the policy gate first, then the operation. A request
    /// that the policy gate turns away leaves the catalog as it was; one that it
    /// lets through is carried out on the catalog at the time of the
    /// request, and a served request carries the CORS headers that the policy gate
    /// computed.
    pub fn handle(&mut self, meta: &RequestMeta, op: Operation) -> (r: Result<Served, PipelineError>)
        requires
            old(self).wf(),
        ensures
            final(self).wf(),
            final(self).config() == old(self).config(),
            ({
                let v = verdict(
                    old(self).config(),
                    old(self).bucket(meta.remote_addr),
                    *meta,
                    declared_by(op),
                    normalized_type(declared_by(op)),
                );
                match r {
                    Err(PipelineError::Rejected(e)) => {
                        &&& v == Err::<CorsDecisionView, PolicyRejection>(e)
                        &&& final(self).catalog_view() == old(self).catalog_view()
                    },
                    Err(PipelineError::Catalog(e)) => {
                        &&& v is Ok
                        &&& effect(
                            old(self).catalog_view(),
                            op,
                            meta.now,
                            final(self).catalog_view(),
                            Err(e),
                        )
                    },
                    Ok(served) => {
                        &&& v == Ok::<CorsDecisionView, PolicyRejection>(served.cors@)
                        &&& effect(
                            old(self).catalog_view(),
                            op,
                            meta.now,
                            final(self).catalog_view(),
                            Ok(served.response),
                        )
                    },
                }
            }),
            final(self).bucket(meta.remote_addr) == if reaches_limiter(old(self).config(), *meta) {
                Some(
                    left(
                        old(self).config().rate_limiting->0,
                        old(self).bucket(meta.remote_addr),
                        meta.now,
                    ),
                )
            } else {
                old(self).bucket(meta.remote_addr)
            },
            forall|c: Option<IpAddress>|
                c != meta.remote_addr ==> final(self).bucket(c) == old(self).bucket(c),
    {
        let declared = declaration(&op);
        let cors = match self.gate.screen(meta, &declared) {
            Ok(d) => d,
            Err(e) => {
                return Err(PipelineError::Rejected(e));
            },
        };
        match apply(&mut self.catalog, op, meta.now) {
            Ok(response) => Ok(Served { response, cors }),
            Err(e) => Err(PipelineError::Catalog(e)),
        }
    }

    /// Answers a request that asks only what is allowed, such as a CORS
    /// pre-flight: it passes the policy gate as a read does and reaches no
    /// operation, so the catalog stays as it is.
    pub fn preflight(&mut self, meta: &RequestMeta) -> (r: Result<CorsDecision, PolicyRejection>)
        requires
            old(self).wf(),
        ensures
            final(self).wf(),
            final(self).config() == old(self).config(),
            final(self).catalog_view() == old(self).catalog_view(),
            match r {
                Ok(d) => verdict(
                    old(self).config(),
                    old(self).bucket(meta.remote_addr),
                    *meta,
                    Declared::Read,
                    None,
                ) == Ok::<CorsDecisionView, PolicyRejection>(d@),
                Err(e) => verdict(
                    old(self).config(),
                    old(self).bucket(meta.remote_addr),
                    *meta,
                    Declared::Read,
                    None,
                ) == Err::<CorsDecisionView, PolicyRejection>(e),
            },
            final(self).bucket(meta.remote_addr) == if reaches_limiter(old(self).config(), *meta) {
                Some(
                    left(
                        old(self).config().rate_limiting->0,
                        old(self).bucket(meta.remote_addr),
                        meta.now,
                    ),
                )
            } else {
                old(self).bucket(meta.remote_addr)
            },
            forall|c: Option<IpAddress>|
                c != meta.remote_addr ==> final(self).bucket(c) == old(self).bucket(c),
    {
        self.gate.screen(meta, &Declared::Read)
    }

    /// Puts a bucket that was kept elsewhere back into the catalog, under
    /// its own identifier and past the policy gate. `Conflict`, and no
    /// change, where its name or its identifier is taken.
    pub fn restore_bucket(&mut self, bucket: &Bucket) -> (r: Result<(), CatalogError>)
        requires
            old(self).wf(),
        ensures
            final(self).wf(),
            final(self).config() == old(self).config(),
            forall|c: Option<IpAddress>| final(self).bucket(c) == old(self).bucket(c),
            match r {
                Ok(_) => {
                    &&& !has_bucket(old(self).catalog_view().buckets, bucket@.name)
                    &&& !has_uuid(old(self).catalog_view().buckets, bucket@.uuid)
                    &&& final(self).catalog_view() == old(self).catalog_view().with_bucket(bucket@)
                },
                Err(e) => {
                    &&& e == CatalogError::Conflict
                    &&& has_bucket(old(self).catalog_view().buckets, bucket@.name) || has_uuid(
                        old(self).catalog_view().buckets,
                        bucket@.uuid,
                    )
                    &&& final(self).catalog_view() == old(self).catalog_view()
                },
            },
    {
        match self.catalog.create_bucket_with_id(bucket.name(), *bucket.settings(), bucket.uuid()) {
            Ok(_) => Ok(()),
            Err(e) => Err(e),
        }
    }

    /// Puts an object that was kept elsewhere back into the catalog, with
    /// its expiry and past the policy gate: it is written as any object is,
    /// and then given the expiry. `NotFound`, and no change, where there is
    /// no such bucket.
    pub fn restore_object(
        &mut self,
        bucket: &str,
        key: &str,
        bytes: &[u8],
        content_type: Option<String>,
        tags: Vec<String>,
        cache_policy_override: Option<CachePolicy>,
        expires_at: Option<i64>,
    ) -> (r: Result<(), CatalogError>)
        requires
            old(self).wf(),
        ensures
            final(self).wf(),
            final(self).config() == old(self).config(),
            forall|c: Option<IpAddress>| final(self).bucket(c) == old(self).bucket(c),
            match r {
                Ok(_) => {
                    let o = old(self).catalog_view().written(
                        bucket@,
                        key@,
                        bytes@,
                        opt_text(content_type),
                        texts(tags@),
                        cache_policy_override,
                    );
                    &&& has_bucket(old(self).catalog_view().buckets, bucket@)
                    &&& final(self).catalog_view() == old(self).catalog_view().with_object(
                        o,
                        bytes@,
                    ).with_expiry(o.bucket, key@, expires_at)
                },
                Err(e) => {
                    &&& e == CatalogError::NotFound
                    &&& !has_bucket(old(self).catalog_view().buckets, bucket@)
                    &&& final(self).catalog_view() == old(self).catalog_view()
                },
            },
    {
        let ghost before = self.catalog@;
        proof {
            self.catalog.wf_view();
        }
        let o = match self.catalog.put_object(bucket, key, bytes, content_type, tags, cache_policy_override) {
            Ok(o) => o,
            Err(e) => {
                return Err(e);
            },
        };
        proof {
            let mid = self.catalog@;
            self.catalog.wf_view();
            crate::laws::written_object_is_found(before, o@, bytes@);
            crate::catalog::engine::bucket_at_unique(
                before.buckets,
                bucket_at(before.buckets, bucket@),
            );
            assert(mid.lookup(bucket@, key@) == Some(mid.objects[crate::catalog::model::object_at(
                mid.objects,
                o@.bucket,
                key@,
            )]));
        }
        match self.catalog.set_object_expiry(bucket, key, expires_at) {
            Ok(_) => Ok(()),
            Err(e) => {
                proof {
                    assert(false);
                }
                Err(e)
            },
        }
    }

    /// Empties the catalog, keeping the configuration and the token
    /// buckets: what is kept elsewhere can then be put back into it.
    pub fn reset_catalog(&mut self)
        ensures
            final(self).wf(),
            final(self).config() == old(self).config(),
            forall|c: Option<IpAddress>| final(self).bucket(c) == old(self).bucket(c),
            final(self).catalog_view() == (CatalogView {
                default_policy: old(self).config().cache_control.default_policy,
                default_max_age: old(self).config().cache_control.default_max_age,
                buckets: Seq::empty(),
                objects: Seq::empty(),
                blobs: Map::empty(),
            }),
    {
        let cache_control = self.gate.configuration().cache_control;
        self.catalog = CatalogEngine::new(cache_control);
    }

    /// Housekeeping outside the request path: removes the objects whose
    /// time has passed, then erases the blobs that nothing references. Says
    /// how many objects and how many blobs went.
    pub fn maintain(&mut self, now: i64) -> (r: (usize, usize))
        requires
            old(self).wf(),
        ensures
            final(self).wf(),
            final(self).config() == old(self).config(),
            final(self).catalog_view() == old(self).catalog_view().without_selected(
                Selection::ExpiredAt(now),
            ).after_sweep(),
            forall|c: Option<IpAddress>| final(self).bucket(c) == old(self).bucket(c),
    {
        let evicted = self.catalog.evict_expired(now);
        let erased = self.catalog.sweep();
        (evicted, erased)
    }
}

} // verus!
