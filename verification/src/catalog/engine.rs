//! The catalog engine: buckets and objects in memory, over the blob store.
use vstd::prelude::*;
use crate::blob::{refs_of, with_put, with_release, BlobStore};
use crate::catalog::model::{
    ascending, bucket_at, count_refs, count_refs_bound, count_refs_insert, count_refs_remove,
    count_refs_by_hash, count_refs_concat, count_refs_keep, count_refs_one, count_refs_split,
    count_refs_take, count_refs_update, keep_props, has_bucket, has_object, has_uuid,
    insert_keeps_sorted, keep, key_lt, listing, object_at_unique,
    page_bounds, page_of, policy_in, rank, rank_is_position, release_many, selected, sorted,
    uuid_at, CatalogView, Selection,
};
use crate::catalog::fresh::{fresh_uuid, nth_id, probe_from_step, used_run_is_short};
use crate::catalog::tags::{normalize_tags, sorted_tags_is_the_set};
use crate::config::CacheControlConfig;
use crate::digest::{content_hash, hash_of};
use crate::models::bucket::{Bucket, BucketSettings, BucketView};
use crate::models::object::{opt_text, texts, Object, ObjectView};
use crate::models::{resolve_cache_policy, CachePolicy};
use crate::outside::random_uuid;
use crate::text::{same_text, starts_with, text_lt};

verus! {

/// Why the catalog refused.
#[derive(Debug, Clone, Copy, PartialEq, Eq, Structural)]
pub enum CatalogError {
    /// The bucket or the object does not exist.
    NotFound,
    /// The name is taken.
    Conflict,
    /// The object is there but its time has passed.
    Expired,
}

/// The buckets of a list as contracts see them.
pub open spec fn bucket_views(v: Seq<Bucket>) -> Seq<BucketView> {
    Seq::new(v.len(), |i: int| v[i]@)
}

/// The objects of a list as contracts see them.
pub open spec fn object_views(v: Seq<Object>) -> Seq<ObjectView> {
    Seq::new(v.len(), |i: int| v[i]@)
}

/// The start and end of a page of a list of a given length.
pub fn page_range(len: usize, page: Option<u64>, limit: Option<u64>) -> (r: (usize, usize))
    ensures
        r.0 <= r.1 <= len,
        (r.0 as int, r.1 as int) == page_bounds(len as nat, page, limit),
{
    let p: u64 = match page {
        Some(x) => x,
        None => 0,
    };
    match limit {
        None => if p == 0 {
            (0, len)
        } else {
            (len, len)
        },
        Some(l) => {
            assert((p as int) * (l as int) <= 0xffff_ffff_ffff_ffff * 0xffff_ffff_ffff_ffff)
                by (nonlinear_arith)
                requires
                    0 <= p <= 0xffff_ffff_ffff_ffff,
                    0 <= l <= 0xffff_ffff_ffff_ffff,
            ;
            let start: u128 = (p as u128) * (l as u128);
            if start >= len as u128 {
                (len, len)
            } else if start + (l as u128) >= len as u128 {
                (start as usize, len)
            } else {
                (start as usize, (start + (l as u128)) as usize)
            }
        },
    }
}

/// The catalog engine.
#[derive(Debug)]
pub struct CatalogEngine {
    default_policy: CachePolicy,
    default_max_age: u64,
    buckets: Vec<Bucket>,
    objects: Vec<Object>,
    blobs: BlobStore,
}

impl View for CatalogEngine {
    type V = CatalogView;

    closed spec fn view(&self) -> CatalogView {
        CatalogView {
            default_policy: self.default_policy,
            default_max_age: self.default_max_age,
            buckets: bucket_views(self.buckets@),
            objects: object_views(self.objects@),
            blobs: self.blobs@,
        }
    }
}

/// In a list of buckets with unique identifiers a bucket is found where it
/// stands.
pub proof fn uuid_at_unique(buckets: Seq<BucketView>, i: int)
    requires
        forall|x: int, y: int|
            0 <= x < y < buckets.len() ==> (#[trigger] buckets[x]).uuid != (#[trigger] buckets[y]).uuid,
        0 <= i < buckets.len(),
    ensures
        has_uuid(buckets, buckets[i].uuid),
        uuid_at(buckets, buckets[i].uuid) == i,
{
    let j = uuid_at(buckets, buckets[i].uuid);
    if j < i {
        assert(buckets[j].uuid != buckets[i].uuid);
    } else if i < j {
        assert(buckets[i].uuid != buckets[j].uuid);
    }
}

/// In a list of buckets with unique names a bucket is found where it stands.
pub proof fn bucket_at_unique(buckets: Seq<BucketView>, i: int)
    requires
        forall|x: int, y: int|
            0 <= x < y < buckets.len() ==> (#[trigger] buckets[x]).name != (#[trigger] buckets[y]).name,
        0 <= i < buckets.len(),
    ensures
        has_bucket(buckets, buckets[i].name),
        bucket_at(buckets, buckets[i].name) == i,
{
    let j = bucket_at(buckets, buckets[i].name);
    if j < i {
        assert(buckets[j].name != buckets[i].name);
    } else if i < j {
        assert(buckets[i].name != buckets[j].name);
    }
}

impl CatalogEngine {
    /// The catalog is consistent, and so is its blob store.
    pub closed spec fn wf(&self) -> bool {
        self@.wf() && self.blobs.wf()
    }

    /// A well-formed engine holds a consistent catalog.
    pub proof fn wf_view(&self)
        requires
            self.wf(),
        ensures
            self@.wf(),
    {
    }

    /// An empty catalog with the given global cache defaults.
    pub fn new(cache_control: CacheControlConfig) -> (r: CatalogEngine)
        ensures
            r.wf(),
            r@ == (CatalogView {
                default_policy: cache_control.default_policy,
                default_max_age: cache_control.default_max_age,
                buckets: Seq::empty(),
                objects: Seq::empty(),
                blobs: Map::empty(),
            }),
    {
        let r = CatalogEngine {
            default_policy: cache_control.default_policy,
            default_max_age: cache_control.default_max_age,
            buckets: Vec::new(),
            objects: Vec::new(),
            blobs: BlobStore::new(),
        };
        assert(bucket_views(r.buckets@) =~= Seq::<BucketView>::empty());
        assert(object_views(r.objects@) =~= Seq::<ObjectView>::empty());
        assert forall|h: Seq<char>| refs_of(r@.blobs, h) == #[trigger] count_refs(r@.objects, h) by {
        }
        r
    }

    /// The max-age, in seconds, that goes with every object: always the
    /// global default.
    pub fn max_age(&self) -> (r: u64)
        ensures
            r == self@.default_max_age,
    {
        self.default_max_age
    }

    /// Where the bucket of a name stands.
    fn find_bucket(&self, name: &str) -> (r: Option<usize>)
        ensures
            match r {
                Some(i) => i < self.buckets@.len() && self@.buckets[i as int].name == name@,
                None => !has_bucket(self@.buckets, name@),
            },
    {
        let mut i: usize = 0;
        while i < self.buckets.len()
            invariant
                i <= self.buckets.len(),
                forall|j: int| 0 <= j < i ==> (#[trigger] self@.buckets[j]).name != name@,
            decreases self.buckets.len() - i,
        {
            if same_text(self.buckets[i].name(), name) {
                return Some(i);
            }
            i += 1;
        }
        None
    }

    /// Whether some bucket has the identifier.
    fn uuid_in_use(&self, id: u128) -> (r: bool)
        ensures
            r == has_uuid(self@.buckets, id),
    {
        let mut i: usize = 0;
        while i < self.buckets.len()
            invariant
                i <= self.buckets.len(),
                forall|j: int| 0 <= j < i ==> (#[trigger] self@.buckets[j]).uuid != id,
            decreases self.buckets.len() - i,
        {
            if self.buckets[i].uuid() == id {
                assert(self@.buckets[i as int].uuid == id);
                return true;
            }
            i += 1;
        }
        false
    }

    /// Creates a bucket under a given identifier. `Conflict`, and no change,
    /// where the name or the identifier is taken.
    pub fn create_bucket_with_id(&mut self, name: &str, settings: BucketSettings, id: u128) -> (r:
        Result<Bucket, CatalogError>)
        requires
            old(self).wf(),
        ensures
            final(self).wf(),
            match r {
                Ok(b) => {
                    &&& !has_bucket(old(self)@.buckets, name@)
                    &&& !has_uuid(old(self)@.buckets, id)
                    &&& b@ == (BucketView { uuid: id, name: name@, settings })
                    &&& final(self)@ == old(self)@.with_bucket(b@)
                },
                Err(e) => {
                    &&& e == CatalogError::Conflict
                    &&& has_bucket(old(self)@.buckets, name@) || has_uuid(old(self)@.buckets, id)
                    &&& final(self)@ == old(self)@
                },
            },
    {
        if self.find_bucket(name).is_some() || self.uuid_in_use(id) {
            return Err(CatalogError::Conflict);
        }
        let bucket = Bucket::new(id, name.to_owned(), settings);
        let copy = bucket.clone();
        let ghost before = self@;
        self.buckets.push(bucket);
        proof {
            let after = self@;
            assert(after.buckets =~= before.buckets.push(copy@));
            assert(after.objects == before.objects);
            assert(after.buckets_wf()) by {
                assert forall|i: int, j: int| 0 <= i < j < after.buckets.len() implies (
                #[trigger] after.buckets[i]).name != (#[trigger] after.buckets[j]).name && after.buckets[i].uuid
                    != after.buckets[j].uuid by {
                    assert(after.buckets[i] == before.buckets[i]);
                    if j < before.buckets.len() {
                        assert(after.buckets[j] == before.buckets[j]);
                    }
                }
            }
            assert(after.objects_wf()) by {
                assert forall|k: int| 0 <= k < after.objects.len() implies has_uuid(
                    after.buckets,
                    (#[trigger] after.objects[k]).bucket,
                ) && after.objects[k].cache_policy == policy_in(
                    after.buckets,
                    after.default_policy,
                    after.objects[k],
                ) by {
                    let o = after.objects[k];
                    assert(has_uuid(before.buckets, o.bucket));
                    let i = uuid_at(before.buckets, o.bucket);
                    assert(after.buckets[i] == before.buckets[i]);
                    uuid_at_unique(after.buckets, i);
                }
            }
        }
        Ok(copy)
    }

    /// Creates a bucket under the first identifier, from a candidate on,
    /// that no bucket has yet. `Conflict`, and no change, exactly where the
    /// name is taken.
    pub fn create_bucket_near(&mut self, name: &str, settings: BucketSettings, candidate: u128) -> (r:
        Result<Bucket, CatalogError>)
        requires
            old(self).wf(),
        ensures
            final(self).wf(),
            match r {
                Ok(b) => {
                    &&& !has_bucket(old(self)@.buckets, name@)
                    &&& !has_uuid(old(self)@.buckets, b@.uuid)
                    &&& b@ == (BucketView {
                        uuid: fresh_uuid(old(self)@.buckets, candidate),
                        name: name@,
                        settings,
                    })
                    &&& final(self)@ == old(self)@.with_bucket(b@)
                },
                Err(e) => {
                    &&& e == CatalogError::Conflict
                    &&& has_bucket(old(self)@.buckets, name@)
                    &&& final(self)@ == old(self)@
                },
            },
    {
        if self.find_bucket(name).is_some() {
            return Err(CatalogError::Conflict);
        }
        let ghost before = self@;
        let n = self.buckets.len();
        let mut id = candidate;
        let mut k: usize = 0;
        while self.uuid_in_use(id)
            invariant
                k <= n,
                n == self.buckets.len(),
                self@ == before,
                id == nth_id(candidate, k as nat),
                forall|j: nat| j < k ==> has_uuid(before.buckets, #[trigger] nth_id(candidate, j)),
            decreases n - k,
        {
            proof {
                used_run_is_short(before.buckets, candidate, k as nat);
            }
            id = if id == u128::MAX {
                0
            } else {
                id + 1
            };
            k += 1;
        }
        proof {
            probe_from_step(before.buckets, candidate, n as nat, k as nat);
        }
        let r = self.create_bucket_with_id(name, settings, id);
        assert(r is Ok);
        r
    }

    /// Creates a bucket under a new identifier: a random one, or the next
    /// free one in the rare case that a bucket has it already. `Conflict`,
    /// and no change, exactly where the name is taken.
    pub fn create_bucket(&mut self, name: &str, settings: BucketSettings) -> (r: Result<
        Bucket,
        CatalogError,
    >)
        requires
            old(self).wf(),
        ensures
            final(self).wf(),
            match r {
                Ok(b) => {
                    &&& !has_bucket(old(self)@.buckets, name@)
                    &&& !has_uuid(old(self)@.buckets, b@.uuid)
                    &&& b@.name == name@
                    &&& b@.settings == settings
                    &&& final(self)@ == old(self)@.with_bucket(b@)
                },
                Err(e) => {
                    &&& e == CatalogError::Conflict
                    &&& has_bucket(old(self)@.buckets, name@)
                    &&& final(self)@ == old(self)@
                },
            },
    {
        let candidate = random_uuid();
        self.create_bucket_near(name, settings, candidate)
    }

    /// The buckets of one page, in the order of their creation.
    pub fn list_buckets(&self, page: Option<u64>, limit: Option<u64>) -> (r: Vec<Bucket>)
        requires
            self.wf(),
        ensures
            bucket_views(r@) == page_of(self@.buckets, page, limit),
    {
        let (start, end) = page_range(self.buckets.len(), page, limit);
        let mut out: Vec<Bucket> = Vec::new();
        let mut i: usize = start;
        while i < end
            invariant
                start <= i <= end <= self.buckets.len(),
                out@.len() == i - start,
                forall|k: int| 0 <= k < out@.len() ==> (#[trigger] out@[k])@ == self.buckets@[start + k]@,
            decreases end - i,
        {
            out.push(self.buckets[i].clone());
            i += 1;
        }
        assert(bucket_views(out@) =~= self@.buckets.subrange(start as int, end as int));
        out
    }

    /// The bucket of a name; `NotFound` where there is none.
    pub fn get_bucket(&self, name: &str) -> (r: Result<Bucket, CatalogError>)
        requires
            self.wf(),
        ensures
            match r {
                Ok(b) => has_bucket(self@.buckets, name@) && b@ == self@.buckets[bucket_at(
                    self@.buckets,
                    name@,
                )],
                Err(e) => e == CatalogError::NotFound && !has_bucket(self@.buckets, name@),
            },
    {
        match self.find_bucket(name) {
            Some(i) => {
                proof {
                    bucket_at_unique(self@.buckets, i as int);
                }
                Ok(self.buckets[i].clone())
            },
            None => Err(CatalogError::NotFound),
        }
    }

    /// Replaces the settings of a bucket and resolves the cache policy of
    /// its objects anew. `NotFound`, and no change, where there is no such
    /// bucket.
    pub fn update_bucket_settings(&mut self, name: &str, settings: BucketSettings) -> (r: Result<
        Bucket,
        CatalogError,
    >)
        requires
            old(self).wf(),
        ensures
            final(self).wf(),
            match r {
                Ok(b) => {
                    &&& has_bucket(old(self)@.buckets, name@)
                    &&& final(self)@ == old(self)@.with_settings(name@, settings)
                    &&& b@ == final(self)@.buckets[bucket_at(old(self)@.buckets, name@)]
                },
                Err(e) => {
                    &&& e == CatalogError::NotFound
                    &&& !has_bucket(old(self)@.buckets, name@)
                    &&& final(self)@ == old(self)@
                },
            },
    {
        let i = match self.find_bucket(name) {
            Some(i) => i,
            None => {
                return Err(CatalogError::NotFound);
            },
        };
        let ghost before = self@;
        proof {
            bucket_at_unique(before.buckets, i as int);
        }
        let id = self.buckets[i].uuid();
        self.buckets[i].set_settings(settings);
        let default_policy = self.default_policy;
        let mut k: usize = 0;
        while k < self.objects.len()
            invariant
                k <= self.objects.len(),
                self.objects@.len() == before.objects.len(),
                self.default_policy == default_policy,
                default_policy == before.default_policy,
                self.default_max_age == before.default_max_age,
                self.buckets@ == old(self).buckets@.update(i as int, self.buckets@[i as int]),
                i < self.buckets@.len(),
                self.buckets@[i as int]@ == (BucketView { settings, ..before.buckets[i as int] }),
                self.blobs == old(self).blobs,
                forall|j: int|
                    0 <= j < k ==> (#[trigger] self.objects@[j])@ == before.with_settings(
                        name@,
                        settings,
                    ).objects[j],
                forall|j: int| k <= j < self.objects@.len() ==> (#[trigger] self.objects@[j])@ == before.objects[j],
                id == before.buckets[i as int].uuid,
                bucket_at(before.buckets, name@) == i,
            decreases self.objects.len() - k,
        {
            if self.objects[k].bucket() == id {
                let p = resolve_cache_policy(
                    self.objects[k].cache_override(),
                    settings.default_cache_policy,
                    default_policy,
                );
                self.objects[k].set_cache_policy(p);
            }
            k += 1;
        }
        proof {
            let after = self@;
            let goal = before.with_settings(name@, settings);
            assert(after.objects =~= goal.objects);
            assert(after.buckets =~= goal.buckets);
            assert(after == goal);
            assert forall|x: int| 0 <= x < after.buckets.len() implies (#[trigger] after.buckets[x]).name
                == before.buckets[x].name && after.buckets[x].uuid == before.buckets[x].uuid by {}
            assert(after.buckets_wf()) by {
                assert forall|x: int, y: int| 0 <= x < y < after.buckets.len() implies (
                #[trigger] after.buckets[x]).name != (#[trigger] after.buckets[y]).name && after.buckets[x].uuid
                    != after.buckets[y].uuid by {
                    assert(before.buckets[x].name != before.buckets[y].name);
                    assert(before.buckets[x].uuid != before.buckets[y].uuid);
                }
            }
            assert(sorted(after.objects)) by {
                assert forall|x: int, y: int| 0 <= x < y < after.objects.len() implies key_lt(
                    #[trigger] after.objects[x],
                    #[trigger] after.objects[y],
                ) by {
                    assert(key_lt(before.objects[x], before.objects[y]));
                }
            }
            assert(after.objects_wf()) by {
                assert forall|q: int| 0 <= q < after.objects.len() implies has_uuid(
                    after.buckets,
                    (#[trigger] after.objects[q]).bucket,
                ) && ascending(after.objects[q].tags) && after.objects[q].cache_policy == policy_in(
                    after.buckets,
                    after.default_policy,
                    after.objects[q],
                ) by {
                    let o = before.objects[q];
                    assert(has_uuid(before.buckets, o.bucket));
                    let j = uuid_at(before.buckets, o.bucket);
                    assert(after.buckets[j].uuid == o.bucket);
                    uuid_at_unique(after.buckets, j);
                    uuid_at_unique(before.buckets, i as int);
                    assert(ascending(o.tags));
                }
            }
            assert(after.blobs_wf()) by {
                assert forall|h: Seq<char>| refs_of(after.blobs, h) == #[trigger] count_refs(
                    after.objects,
                    h,
                ) by {
                    count_refs_by_hash(after.objects, before.objects, h);
                }
            }
        }
        Ok(self.buckets[i].clone())
    }

    /// Where the object of a bucket and key stands.
    fn find_object(&self, bucket: u128, key: &str) -> (r: Option<usize>)
        ensures
            match r {
                Some(i) => i < self.objects@.len() && self@.objects[i as int].bucket == bucket
                    && self@.objects[i as int].path == key@,
                None => !has_object(self@.objects, bucket, key@),
            },
    {
        let mut i: usize = 0;
        while i < self.objects.len()
            invariant
                i <= self.objects.len(),
                forall|j: int|
                    0 <= j < i ==> !((#[trigger] self@.objects[j]).bucket == bucket
                        && self@.objects[j].path == key@),
            decreases self.objects.len() - i,
        {
            if self.objects[i].bucket() == bucket && same_text(self.objects[i].path(), key) {
                return Some(i);
            }
            i += 1;
        }
        None
    }

    /// Puts an object in place of the one at a position, which is under the
    /// same bucket and key.
    fn replace_object(&mut self, i: usize, obj: Object, bytes: &[u8])
        requires
            old(self).wf(),
            i < old(self).objects@.len(),
            obj@.bucket == old(self)@.objects[i as int].bucket,
            obj@.path == old(self)@.objects[i as int].path,
            obj@.hash == content_hash(bytes@),
            ascending(obj@.tags),
            obj@.cache_policy == policy_in(old(self)@.buckets, old(self)@.default_policy, obj@),
        ensures
            final(self).wf(),
            final(self)@ == (CatalogView {
                objects: old(self)@.objects.update(i as int, obj@),
                blobs: with_put(
                    with_release(old(self)@.blobs, old(self)@.objects[i as int].hash),
                    bytes@,
                ),
                ..old(self)@
            }),
    {
        let ghost before = self@;
        let ghost ov = obj@;
        let ghost old_hash = before.objects[i as int].hash;
        proof {
            count_refs_split(before.objects, i as int, old_hash);
            count_refs_split(before.objects, i as int, ov.hash);
            count_refs_bound(before.objects.take(i as int), ov.hash);
            count_refs_bound(before.objects.skip(i + 1), ov.hash);
            count_refs_bound(before.objects, ov.hash);
            assert(refs_of(before.blobs, old_hash) == count_refs(before.objects, old_hash));
            assert(refs_of(before.blobs, ov.hash) == count_refs(before.objects, ov.hash));
        }
        assert(before.objects.len() == self.objects.len());
        let released = self.blobs.release(self.objects[i].hash());
        assert(released is Ok);
        proof {
            let mid = self.blobs@;
            assert(mid == with_release(before.blobs, old_hash));
            assert(before.objects.take(i as int).len() == i);
            assert(before.objects.skip(i + 1).len() == before.objects.len() - i - 1);
            if ov.hash == old_hash {
                assert(refs_of(mid, ov.hash) == refs_of(before.blobs, ov.hash) - 1);
            } else {
                assert(refs_of(mid, ov.hash) == refs_of(before.blobs, ov.hash));
                assert(count_refs(before.objects, ov.hash) <= before.objects.len() - 1);
            }
            assert(refs_of(mid, ov.hash) < u64::MAX);
        }
        let hash = obj.hash().to_owned();
        let stored = self.blobs.store(hash, bytes);
        assert(stored is Ok);
        self.objects[i] = obj;
        proof {
            let after = self@;
            assert(after.objects =~= before.objects.update(i as int, ov));
            assert(sorted(after.objects)) by {
                assert forall|x: int, y: int| 0 <= x < y < after.objects.len() implies key_lt(
                    #[trigger] after.objects[x],
                    #[trigger] after.objects[y],
                ) by {
                    assert(key_lt(before.objects[x], before.objects[y]));
                }
            }
            assert(after.objects_wf()) by {
                assert forall|q: int| 0 <= q < after.objects.len() implies has_uuid(
                    after.buckets,
                    (#[trigger] after.objects[q]).bucket,
                ) && ascending(after.objects[q].tags) && after.objects[q].cache_policy == policy_in(
                    after.buckets,
                    after.default_policy,
                    after.objects[q],
                ) by {
                    let o = before.objects[q];
                    assert(has_uuid(before.buckets, o.bucket));
                    assert(ascending(o.tags));
                }
            }
            assert(after.blobs_wf()) by {
                assert forall|h: Seq<char>| refs_of(after.blobs, h) == #[trigger] count_refs(
                    after.objects,
                    h,
                ) by {
                    count_refs_update(before.objects, i as int, ov, h);
                    assert(refs_of(before.blobs, h) == count_refs(before.objects, h));
                }
                assert forall|h: Seq<char>| after.blobs.contains_key(h) implies h == content_hash(
                    #[trigger] after.blobs[h].bytes,
                ) by {
                    if before.blobs.contains_key(h) {
                        assert(h == content_hash(before.blobs[h].bytes));
                    }
                }
            }
        }
    }

    /// Puts an object at its place in the order, where none is under its
    /// bucket and key.
    fn insert_object(&mut self, obj: Object, bytes: &[u8])
        requires
            old(self).wf(),
            !has_object(old(self)@.objects, obj@.bucket, obj@.path),
            has_uuid(old(self)@.buckets, obj@.bucket),
            obj@.hash == content_hash(bytes@),
            ascending(obj@.tags),
            obj@.cache_policy == policy_in(old(self)@.buckets, old(self)@.default_policy, obj@),
        ensures
            final(self).wf(),
            final(self)@ == (CatalogView {
                objects: old(self)@.objects.insert(rank(old(self)@.objects, obj@) as int, obj@),
                blobs: with_put(old(self)@.blobs, bytes@),
                ..old(self)@
            }),
    {
        let ghost before = self@;
        let ghost ov = obj@;
        let mut i: usize = 0;
        while i < self.objects.len() && (text_lt(self.objects[i].path(), obj.path()) || (same_text(
            self.objects[i].path(),
            obj.path(),
        ) && self.objects[i].bucket() < obj.bucket()))
            invariant
                i <= self.objects.len(),
                self@ == before,
                ov == obj@,
                forall|j: int| 0 <= j < i ==> key_lt(#[trigger] before.objects[j], ov),
            decreases self.objects.len() - i,
        {
            i += 1;
        }
        proof {
            rank_is_position(before.objects, ov, i as int);
            insert_keeps_sorted(before.objects, ov, i as int);
            count_refs_bound(before.objects, ov.hash);
            assert(refs_of(before.blobs, ov.hash) == count_refs(before.objects, ov.hash));
        }
        let hash = obj.hash().to_owned();
        self.objects.insert(i, obj);
        assert(self.objects@.len() == self.objects.len());
        let stored = self.blobs.store(hash, bytes);
        assert(stored is Ok);
        proof {
            let after = self@;
            assert(after.objects =~= before.objects.insert(i as int, ov));
            assert(after.objects_wf()) by {
                assert forall|q: int| 0 <= q < after.objects.len() implies has_uuid(
                    after.buckets,
                    (#[trigger] after.objects[q]).bucket,
                ) && ascending(after.objects[q].tags) && after.objects[q].cache_policy == policy_in(
                    after.buckets,
                    after.default_policy,
                    after.objects[q],
                ) by {
                    if q < i {
                        let o = before.objects[q];
                        assert(has_uuid(before.buckets, o.bucket));
                        assert(ascending(o.tags));
                    } else if q > i {
                        let o = before.objects[q - 1];
                        assert(has_uuid(before.buckets, o.bucket));
                        assert(ascending(o.tags));
                    }
                }
            }
            assert(after.blobs_wf()) by {
                assert forall|h: Seq<char>| refs_of(after.blobs, h) == #[trigger] count_refs(
                    after.objects,
                    h,
                ) by {
                    count_refs_insert(before.objects, i as int, ov, h);
                    assert(refs_of(before.blobs, h) == count_refs(before.objects, h));
                }
                assert forall|h: Seq<char>| after.blobs.contains_key(h) implies h == content_hash(
                    #[trigger] after.blobs[h].bytes,
                ) by {
                    if before.blobs.contains_key(h) {
                        assert(h == content_hash(before.blobs[h].bytes));
                    }
                }
            }
        }
    }

    /// Writes an object: the payload goes through the blob store, the cache
    /// policy is resolved, and the object takes the place of the one under
    /// the same key, whose blob is released. `NotFound`, and no change,
    /// where there is no such bucket.
    pub fn put_object(
        &mut self,
        bucket: &str,
        key: &str,
        bytes: &[u8],
        content_type: Option<String>,
        tags: Vec<String>,
        cache_policy_override: Option<CachePolicy>,
    ) -> (r: Result<Object, CatalogError>)
        requires
            old(self).wf(),
        ensures
            final(self).wf(),
            match r {
                Ok(o) => {
                    &&& has_bucket(old(self)@.buckets, bucket@)
                    &&& o@ == old(self)@.written(
                        bucket@,
                        key@,
                        bytes@,
                        opt_text(content_type),
                        texts(tags@),
                        cache_policy_override,
                    )
                    &&& final(self)@ == old(self)@.with_object(o@, bytes@)
                },
                Err(e) => {
                    &&& e == CatalogError::NotFound
                    &&& !has_bucket(old(self)@.buckets, bucket@)
                    &&& final(self)@ == old(self)@
                },
            },
    {
        let b = match self.find_bucket(bucket) {
            Some(b) => b,
            None => {
                return Err(CatalogError::NotFound);
            },
        };
        let ghost before = self@;
        proof {
            bucket_at_unique(before.buckets, b as int);
            uuid_at_unique(before.buckets, b as int);
            sorted_tags_is_the_set(texts(tags@));
        }
        let id = self.buckets[b].uuid();
        let policy = resolve_cache_policy(
            cache_policy_override,
            self.buckets[b].settings().default_cache_policy,
            self.default_policy,
        );
        let obj = Object::new(
            id,
            hash_of(bytes),
            key.to_owned(),
            None,
            content_type,
            policy,
            cache_policy_override,
            normalize_tags(tags),
        );
        let copy = obj.clone();
        match self.find_object(id, key) {
            Some(i) => {
                proof {
                    object_at_unique(before.objects, i as int);
                }
                self.replace_object(i, obj, bytes);
            },
            None => {
                self.insert_object(obj, bytes);
            },
        }
        Ok(copy)
    }

    /// Reads an object at a time: its metadata and its bytes. `NotFound`
    /// where the bucket or the key is absent, `Expired` where the object's
    /// time has passed. The bytes are those kept under the object's hash.
    pub fn get_object(&self, bucket: &str, key: &str, now: i64) -> (r: Result<
        (Object, Vec<u8>),
        CatalogError,
    >)
        requires
            self.wf(),
        ensures
            match r {
                Ok((o, bytes)) => {
                    &&& self@.read(bucket@, key@, now) == Ok::<ObjectView, CatalogError>(o@)
                    &&& self@.blobs.contains_key(o@.hash)
                    &&& bytes@ == self@.blobs[o@.hash].bytes
                    &&& content_hash(bytes@) == o@.hash
                },
                Err(e) => self@.read(bucket@, key@, now) == Err::<ObjectView, CatalogError>(e),
            },
    {
        let b = match self.find_bucket(bucket) {
            Some(b) => b,
            None => {
                return Err(CatalogError::NotFound);
            },
        };
        proof {
            bucket_at_unique(self@.buckets, b as int);
        }
        let i = match self.find_object(self.buckets[b].uuid(), key) {
            Some(i) => i,
            None => {
                return Err(CatalogError::NotFound);
            },
        };
        proof {
            object_at_unique(self@.objects, i as int);
        }
        let o = &self.objects[i];
        match o.expires_at() {
            Some(t) => {
                if t <= now {
                    return Err(CatalogError::Expired);
                }
            },
            None => {},
        }
        proof {
            let h = o@.hash;
            count_refs_split(self@.objects, i as int, h);
            assert(refs_of(self@.blobs, h) == count_refs(self@.objects, h));
            assert(self@.blobs.contains_key(h));
        }
        match self.blobs.get(o.hash()) {
            Ok(bytes) => Ok((o.clone(), bytes)),
            Err(_) => {
                proof {
                    assert(false);
                }
                Err(CatalogError::NotFound)
            },
        }
    }

    /// Removes an object and releases its blob. `NotFound`, and no change,
    /// where the bucket or the key is absent.
    pub fn delete_object(&mut self, bucket: &str, key: &str) -> (r: Result<(), CatalogError>)
        requires
            old(self).wf(),
        ensures
            final(self).wf(),
            match r {
                Ok(_) => {
                    &&& old(self)@.lookup(bucket@, key@) matches Some(o)
                    &&& final(self)@ == old(self)@.without_object(o.bucket, key@)
                },
                Err(e) => {
                    &&& e == CatalogError::NotFound
                    &&& old(self)@.lookup(bucket@, key@) is None
                    &&& final(self)@ == old(self)@
                },
            },
    {
        let b = match self.find_bucket(bucket) {
            Some(b) => b,
            None => {
                return Err(CatalogError::NotFound);
            },
        };
        let ghost before = self@;
        proof {
            bucket_at_unique(before.buckets, b as int);
        }
        let i = match self.find_object(self.buckets[b].uuid(), key) {
            Some(i) => i,
            None => {
                return Err(CatalogError::NotFound);
            },
        };
        proof {
            object_at_unique(before.objects, i as int);
            let h = before.objects[i as int].hash;
            count_refs_split(before.objects, i as int, h);
            assert(refs_of(before.blobs, h) == count_refs(before.objects, h));
        }
        let released = self.blobs.release(self.objects[i].hash());
        assert(released is Ok);
        self.objects.remove(i);
        proof {
            let after = self@;
            assert(after.objects =~= before.objects.remove(i as int));
            assert(sorted(after.objects)) by {
                assert forall|x: int, y: int| 0 <= x < y < after.objects.len() implies key_lt(
                    #[trigger] after.objects[x],
                    #[trigger] after.objects[y],
                ) by {
                    let sx = if x < i { x } else { x + 1 };
                    let sy = if y < i { y } else { y + 1 };
                    assert(key_lt(before.objects[sx], before.objects[sy]));
                }
            }
            assert(after.objects_wf()) by {
                assert forall|q: int| 0 <= q < after.objects.len() implies has_uuid(
                    after.buckets,
                    (#[trigger] after.objects[q]).bucket,
                ) && ascending(after.objects[q].tags) && after.objects[q].cache_policy == policy_in(
                    after.buckets,
                    after.default_policy,
                    after.objects[q],
                ) by {
                    let sq = if q < i { q } else { q + 1 };
                    let o = before.objects[sq];
                    assert(has_uuid(before.buckets, o.bucket));
                    assert(ascending(o.tags));
                }
            }
            assert(after.blobs_wf()) by {
                assert forall|h: Seq<char>| refs_of(after.blobs, h) == #[trigger] count_refs(
                    after.objects,
                    h,
                ) by {
                    count_refs_remove(before.objects, i as int, h);
                    assert(refs_of(before.blobs, h) == count_refs(before.objects, h));
                }
                assert forall|h: Seq<char>| after.blobs.contains_key(h) implies h == content_hash(
                    #[trigger] after.blobs[h].bytes,
                ) by {
                    assert(h == content_hash(before.blobs[h].bytes));
                }
            }
        }
        Ok(())
    }

    /// Sets or clears the expiry of an object, in milliseconds since the
    /// Unix epoch. `NotFound`, and no change, where the bucket or the key is
    /// absent.
    pub fn set_object_expiry(&mut self, bucket: &str, key: &str, at: Option<i64>) -> (r: Result<
        (),
        CatalogError,
    >)
        requires
            old(self).wf(),
        ensures
            final(self).wf(),
            match r {
                Ok(_) => {
                    &&& old(self)@.lookup(bucket@, key@) matches Some(o)
                    &&& final(self)@ == old(self)@.with_expiry(o.bucket, key@, at)
                },
                Err(e) => {
                    &&& e == CatalogError::NotFound
                    &&& old(self)@.lookup(bucket@, key@) is None
                    &&& final(self)@ == old(self)@
                },
            },
    {
        let b = match self.find_bucket(bucket) {
            Some(b) => b,
            None => {
                return Err(CatalogError::NotFound);
            },
        };
        let ghost before = self@;
        proof {
            bucket_at_unique(before.buckets, b as int);
        }
        let i = match self.find_object(self.buckets[b].uuid(), key) {
            Some(i) => i,
            None => {
                return Err(CatalogError::NotFound);
            },
        };
        proof {
            object_at_unique(before.objects, i as int);
        }
        self.objects[i].set_expires_at(at);
        proof {
            let after = self@;
            assert(after.objects =~= before.objects.update(
                i as int,
                ObjectView { expires_at: at, ..before.objects[i as int] },
            ));
            assert(sorted(after.objects)) by {
                assert forall|x: int, y: int| 0 <= x < y < after.objects.len() implies key_lt(
                    #[trigger] after.objects[x],
                    #[trigger] after.objects[y],
                ) by {
                    assert(key_lt(before.objects[x], before.objects[y]));
                }
            }
            assert(after.objects_wf()) by {
                assert forall|q: int| 0 <= q < after.objects.len() implies has_uuid(
                    after.buckets,
                    (#[trigger] after.objects[q]).bucket,
                ) && ascending(after.objects[q].tags) && after.objects[q].cache_policy == policy_in(
                    after.buckets,
                    after.default_policy,
                    after.objects[q],
                ) by {
                    let o = before.objects[q];
                    assert(has_uuid(before.buckets, o.bucket));
                    assert(ascending(o.tags));
                }
            }
            assert(after.blobs_wf()) by {
                assert forall|h: Seq<char>| refs_of(after.blobs, h) == #[trigger] count_refs(
                    after.objects,
                    h,
                ) by {
                    count_refs_by_hash(after.objects, before.objects, h);
                    assert(refs_of(before.blobs, h) == count_refs(before.objects, h));
                }
            }
        }
        Ok(())
    }

    /// The objects of one page of a bucket: those whose key starts with the
    /// prefix and whose time has not passed, in key order. `NotFound` where
    /// there is no such bucket.
    pub fn list_objects(
        &self,
        bucket: &str,
        prefix: &str,
        page: Option<u64>,
        limit: Option<u64>,
        now: i64,
    ) -> (r: Result<Vec<Object>, CatalogError>)
        requires
            self.wf(),
        ensures
            match r {
                Ok(v) => {
                    &&& has_bucket(self@.buckets, bucket@)
                    &&& object_views(v@) == page_of(
                        listing(
                            self@.objects,
                            self@.buckets[bucket_at(self@.buckets, bucket@)].uuid,
                            prefix@,
                            now,
                        ),
                        page,
                        limit,
                    )
                },
                Err(e) => e == CatalogError::NotFound && !has_bucket(self@.buckets, bucket@),
            },
    {
        let b = match self.find_bucket(bucket) {
            Some(b) => b,
            None => {
                return Err(CatalogError::NotFound);
            },
        };
        proof {
            bucket_at_unique(self@.buckets, b as int);
        }
        let id = self.buckets[b].uuid();
        let ghost all = self@.objects;
        let mut found: Vec<usize> = Vec::new();
        let mut k: usize = 0;
        assert(all.take(0) =~= Seq::<ObjectView>::empty());
        while k < self.objects.len()
            invariant
                k <= self.objects.len(),
                all == self@.objects,
                found@.len() == listing(all.take(k as int), id, prefix@, now).len(),
                forall|j: int|
                    0 <= j < found@.len() ==> (#[trigger] found@[j]) < self.objects@.len() && all[found@[j] as int]
                        == listing(all.take(k as int), id, prefix@, now)[j],
            decreases self.objects.len() - k,
        {
            let o = &self.objects[k];
            proof {
                assert(all.take(k + 1).drop_last() =~= all.take(k as int));
                assert(all.take(k + 1).last() == o@);
            }
            let live = match o.expires_at() {
                Some(t) => t > now,
                None => true,
            };
            if o.bucket() == id && live && starts_with(o.path(), prefix) {
                found.push(k);
            }
            k += 1;
        }
        assert(all.take(self.objects@.len() as int) =~= all);
        let ghost list = listing(all, id, prefix@, now);
        let (start, end) = page_range(found.len(), page, limit);
        let mut out: Vec<Object> = Vec::new();
        let mut i: usize = start;
        while i < end
            invariant
                start <= i <= end <= found.len(),
                found@.len() == list.len(),
                all == self@.objects,
                forall|j: int|
                    0 <= j < found@.len() ==> (#[trigger] found@[j]) < self.objects@.len() && all[found@[j] as int]
                        == list[j],
                out@.len() == i - start,
                forall|j: int| 0 <= j < out@.len() ==> (#[trigger] out@[j])@ == list[start + j],
            decreases end - i,
        {
            out.push(self.objects[found[i]].clone());
            i += 1;
        }
        assert(object_views(out@) =~= list.subrange(start as int, end as int));
        Ok(out)
    }

    /// Whether an object is of a selection.
    fn is_selected(sel: Selection, o: &Object) -> (r: bool)
        ensures
            r == selected(sel, o@),
    {
        match sel {
            Selection::OfBucket(id) => o.bucket() == id,
            Selection::ExpiredAt(now) => match o.expires_at() {
                Some(t) => t <= now,
                None => false,
            },
        }
    }

    /// Removes the objects of a selection, releasing the blob of each, and
    /// says how many went.
    fn purge(&mut self, sel: Selection) -> (n: usize)
        requires
            old(self).wf(),
        ensures
            final(self).wf(),
            final(self)@ == old(self)@.without_selected(sel),
            n == keep(old(self)@.objects, sel, true).len(),
    {
        let ghost before = self@;
        let ghost all = before.objects;
        let mut source: Vec<Object> = Vec::new();
        std::mem::swap(&mut self.objects, &mut source);
        let mut n: usize = 0;
        proof {
            assert(all.take(0) =~= Seq::<ObjectView>::empty());
            assert(object_views(self.objects@) =~= keep(all.take(0), sel, false));
            assert(self.blobs@ =~= release_many(before.blobs, keep(all.take(0), sel, true))) by {
                assert forall|h: Seq<char>| before.blobs.contains_key(h) implies before.blobs[h]
                    == release_many(before.blobs, Seq::<ObjectView>::empty())[h] by {
                    assert(count_refs(Seq::<ObjectView>::empty(), h) == 0);
                }
            }
            assert(object_views(source@) == all);
            assert(source@.len() == source.len());
        }
        for o in it: source
            invariant
                object_views(it.seq()) == all,
                all.len() <= usize::MAX,
                before.wf(),
                all == before.objects,
                self.blobs.wf(),
                self.buckets@ == old(self).buckets@,
                self.default_policy == old(self).default_policy,
                self.default_max_age == old(self).default_max_age,
                object_views(self.objects@) == keep(all.take(it.index() as int), sel, false),
                self.blobs@ == release_many(before.blobs, keep(all.take(it.index() as int), sel, true)),
                n == keep(all.take(it.index() as int), sel, true).len(),
                n <= it.index(),
        {
            let ghost k = it.index() as int;
            let ghost gone = keep(all.take(k), sel, true);
            let ghost kept = keep(all.take(k), sel, false);
            let ghost ov = o@;
            proof {
                assert(it.seq().len() == all.len());
                assert(all[k] == ov);
                assert(all.take(k + 1).drop_last() =~= all.take(k));
                assert(all.take(k + 1).last() == ov);
            }
            if Self::is_selected(sel, &o) {
                proof {
                    let h = ov.hash;
                    count_refs_take(all, k + 1, h);
                    count_refs_keep(all.take(k), sel, h);
                    assert(all.take(k + 1) =~= all.take(k) + seq![ov]);
                    count_refs_concat(all.take(k), seq![ov], h);
                    count_refs_one(ov, h);
                    assert(refs_of(before.blobs, h) == count_refs(all, h));
                    assert(before.blobs.contains_key(h));
                    assert(refs_of(self.blobs@, h) > 0);
                }
                let ghost mid = self.blobs@;
                let released = self.blobs.release(o.hash());
                assert(released is Ok);
                n += 1;
                proof {
                    let gone2 = gone.push(ov);
                    assert(self.blobs@ =~= release_many(before.blobs, gone2)) by {
                        assert forall|h: Seq<char>| before.blobs.contains_key(h) implies self.blobs@[h]
                            == release_many(before.blobs, gone2)[h] by {
                            assert(gone2 =~= gone + seq![ov]);
                            count_refs_concat(gone, seq![ov], h);
                            count_refs_one(ov, h);
                            assert(mid[h] == release_many(before.blobs, gone)[h]);
                            if h == ov.hash {
                                count_refs_take(all, k + 1, h);
                                count_refs_keep(all.take(k), sel, h);
                                assert(all.take(k + 1) =~= all.take(k) + seq![ov]);
                                count_refs_concat(all.take(k), seq![ov], h);
                                assert(refs_of(before.blobs, h) == count_refs(all, h));
                            }
                        }
                    }
                }
            } else {
                self.objects.push(o);
                assert(object_views(self.objects@) =~= kept.push(ov));
            }
        }
        proof {
            assert(all.take(all.len() as int) =~= all);
            let after = self@;
            let gone = keep(all, sel, true);
            keep_props(all, sel, false);
            assert(after.objects_wf()) by {
                assert forall|q: int| 0 <= q < after.objects.len() implies has_uuid(
                    after.buckets,
                    (#[trigger] after.objects[q]).bucket,
                ) && ascending(after.objects[q].tags) && after.objects[q].cache_policy == policy_in(
                    after.buckets,
                    after.default_policy,
                    after.objects[q],
                ) by {
                    let x = keep(all, sel, false)[q];
                    let j = choose|j: int| 0 <= j < all.len() && all[j] == x;
                    let o = before.objects[j];
                    assert(has_uuid(before.buckets, o.bucket));
                    assert(ascending(o.tags));
                }
            }
            assert(after.blobs_wf()) by {
                assert forall|h: Seq<char>| refs_of(after.blobs, h) == #[trigger] count_refs(
                    after.objects,
                    h,
                ) by {
                    count_refs_keep(all, sel, h);
                    assert(refs_of(before.blobs, h) == count_refs(all, h));
                }
                assert forall|h: Seq<char>| after.blobs.contains_key(h) implies h == content_hash(
                    #[trigger] after.blobs[h].bytes,
                ) by {
                    assert(h == content_hash(before.blobs[h].bytes));
                }
            }
        }
        n
    }

    /// Deletes a bucket with all its objects, releasing the blob of each.
    /// `NotFound`, and no change, where there is no such bucket.
    pub fn delete_bucket(&mut self, name: &str) -> (r: Result<(), CatalogError>)
        requires
            old(self).wf(),
        ensures
            final(self).wf(),
            match r {
                Ok(_) => has_bucket(old(self)@.buckets, name@) && final(self)@ == old(
                    self,
                )@.without_bucket(name@),
                Err(e) => {
                    &&& e == CatalogError::NotFound
                    &&& !has_bucket(old(self)@.buckets, name@)
                    &&& final(self)@ == old(self)@
                },
            },
    {
        let i = match self.find_bucket(name) {
            Some(i) => i,
            None => {
                return Err(CatalogError::NotFound);
            },
        };
        let ghost before = self@;
        proof {
            bucket_at_unique(before.buckets, i as int);
        }
        let id = self.buckets[i].uuid();
        let sel = Selection::OfBucket(id);
        self.purge(sel);
        let ghost mid = self@;
        self.buckets.remove(i);
        proof {
            let after = self@;
            assert(after.buckets =~= before.buckets.remove(i as int));
            assert(after.buckets_wf()) by {
                assert forall|x: int, y: int| 0 <= x < y < after.buckets.len() implies (
                #[trigger] after.buckets[x]).name != (#[trigger] after.buckets[y]).name && after.buckets[x].uuid
                    != after.buckets[y].uuid by {
                    let sx = if x < i { x } else { x + 1 };
                    let sy = if y < i { y } else { y + 1 };
                    assert(before.buckets[sx].name != before.buckets[sy].name);
                    assert(before.buckets[sx].uuid != before.buckets[sy].uuid);
                }
            }
            keep_props(before.objects, sel, false);
            assert(after.objects_wf()) by {
                assert forall|q: int| 0 <= q < after.objects.len() implies has_uuid(
                    after.buckets,
                    (#[trigger] after.objects[q]).bucket,
                ) && ascending(after.objects[q].tags) && after.objects[q].cache_policy == policy_in(
                    after.buckets,
                    after.default_policy,
                    after.objects[q],
                ) by {
                    let o = mid.objects[q];
                    assert(!selected(sel, keep(before.objects, sel, false)[q]));
                    assert(has_uuid(mid.buckets, o.bucket));
                    let j = uuid_at(mid.buckets, o.bucket);
                    assert(j != i);
                    let tj = if j < i { j } else { j - 1 };
                    assert(after.buckets[tj] == mid.buckets[j]);
                    uuid_at_unique(after.buckets, tj);
                    assert(ascending(o.tags));
                }
            }
        }
        Ok(())
    }

    /// Removes every object whose time has passed, releasing the blob of
    /// each, and says how many went.
    pub fn evict_expired(&mut self, now: i64) -> (n: usize)
        requires
            old(self).wf(),
        ensures
            final(self).wf(),
            final(self)@ == old(self)@.without_selected(Selection::ExpiredAt(now)),
            n == keep(old(self)@.objects, Selection::ExpiredAt(now), true).len(),
    {
        self.purge(Selection::ExpiredAt(now))
    }

    /// Erases every blob that no object points at and says how many went.
    pub fn sweep(&mut self) -> (n: usize)
        requires
            old(self).wf(),
        ensures
            final(self).wf(),
            final(self)@ == old(self)@.after_sweep(),
            old(self)@.blobs.dom().finite(),
            n == old(self)@.blobs.dom().len() - final(self)@.blobs.dom().len(),
    {
        let ghost before = self@;
        let n = self.blobs.sweep();
        proof {
            let after = self@;
            assert(after.blobs_wf()) by {
                assert forall|h: Seq<char>| refs_of(after.blobs, h) == #[trigger] count_refs(
                    after.objects,
                    h,
                ) by {
                    assert(refs_of(before.blobs, h) == count_refs(before.objects, h));
                }
                assert forall|h: Seq<char>| after.blobs.contains_key(h) implies h == content_hash(
                    #[trigger] after.blobs[h].bytes,
                ) by {
                    assert(h == content_hash(before.blobs[h].bytes));
                }
            }
        }
        n
    }

    /// How many objects point at the blob under a hash; zero where no blob
    /// is kept.
    pub fn blob_ref_count(&self, hash: &str) -> (r: u64)
        requires
            self.wf(),
        ensures
            r == refs_of(self@.blobs, hash@),
            r == count_refs(self@.objects, hash@),
    {
        self.blobs.ref_count(hash)
    }

    /// Whether the bytes of a hash are kept.
    pub fn has_blob(&self, hash: &str) -> (r: bool)
        requires
            self.wf(),
        ensures
            r == self@.blobs.contains_key(hash@),
    {
        self.blobs.contains(hash)
    }

    /// The bucket of an identifier; `NotFound` where there is none.
    pub fn get_bucket_by_uuid(&self, id: u128) -> (r: Result<Bucket, CatalogError>)
        requires
            self.wf(),
        ensures
            match r {
                Ok(b) => has_uuid(self@.buckets, id) && b@ == self@.buckets[uuid_at(self@.buckets, id)],
                Err(e) => e == CatalogError::NotFound && !has_uuid(self@.buckets, id),
            },
    {
        let mut i: usize = 0;
        while i < self.buckets.len()
            invariant
                i <= self.buckets.len(),
                self.wf(),
                forall|j: int| 0 <= j < i ==> (#[trigger] self@.buckets[j]).uuid != id,
            decreases self.buckets.len() - i,
        {
            if self.buckets[i].uuid() == id {
                proof {
                    uuid_at_unique(self@.buckets, i as int);
                }
                return Ok(self.buckets[i].clone());
            }
            i += 1;
        }
        Err(CatalogError::NotFound)
    }
}

impl Bucket {
    /// Every bucket of a catalog, in the order of their creation.
    pub fn find_all(db: &CatalogEngine) -> (r: Vec<Bucket>)
        requires
            db.wf(),
        ensures
            bucket_views(r@) == db@.buckets,
    {
        let r = db.list_buckets(None, None);
        assert(page_of(db@.buckets, None, None) =~= db@.buckets);
        r
    }

    /// The bucket of a name, if the catalog has one.
    pub fn find_by_name(db: &CatalogEngine, name: &str) -> (r: Option<Bucket>)
        requires
            db.wf(),
        ensures
            match r {
                Some(b) => has_bucket(db@.buckets, name@) && b@ == db@.buckets[bucket_at(
                    db@.buckets,
                    name@,
                )],
                None => !has_bucket(db@.buckets, name@),
            },
    {
        match db.get_bucket(name) {
            Ok(b) => Some(b),
            Err(_) => None,
        }
    }

    /// The bucket of an identifier, if the catalog has one.
    pub fn find_by_uuid(db: &CatalogEngine, uuid: u128) -> (r: Option<Bucket>)
        requires
            db.wf(),
        ensures
            match r {
                Some(b) => has_uuid(db@.buckets, uuid) && b@ == db@.buckets[uuid_at(db@.buckets, uuid)],
                None => !has_uuid(db@.buckets, uuid),
            },
    {
        match db.get_bucket_by_uuid(uuid) {
            Ok(b) => Some(b),
            Err(_) => None,
        }
    }

    /// Replaces the settings of this bucket in a catalog, and in this
    /// record where the catalog has the bucket. `NotFound`, and no change
    /// to either, where it has not.
    pub fn update_settings(&mut self, db: &mut CatalogEngine, settings: BucketSettings) -> (r: Result<
        (),
        CatalogError,
    >)
        requires
            old(db).wf(),
        ensures
            final(db).wf(),
            match r {
                Ok(_) => {
                    &&& has_bucket(old(db)@.buckets, old(self)@.name)
                    &&& final(db)@ == old(db)@.with_settings(old(self)@.name, settings)
                    &&& final(self)@ == final(db)@.buckets[bucket_at(old(db)@.buckets, old(self)@.name)]
                },
                Err(e) => {
                    &&& e == CatalogError::NotFound
                    &&& !has_bucket(old(db)@.buckets, old(self)@.name)
                    &&& final(db)@ == old(db)@
                    &&& final(self)@ == old(self)@
                },
            },
    {
        match db.update_bucket_settings(self.name(), settings) {
            Ok(b) => {
                *self = b;
                Ok(())
            },
            Err(e) => Err(e),
        }
    }

    /// Deletes this bucket from a catalog, with all its objects.
    /// `NotFound`, and no change, where the catalog has no bucket of this
    /// name.
    pub fn delete(self, db: &mut CatalogEngine) -> (r: Result<(), CatalogError>)
        requires
            old(db).wf(),
        ensures
            final(db).wf(),
            match r {
                Ok(_) => has_bucket(old(db)@.buckets, self@.name) && final(db)@ == old(
                    db,
                )@.without_bucket(self@.name),
                Err(e) => {
                    &&& e == CatalogError::NotFound
                    &&& !has_bucket(old(db)@.buckets, self@.name)
                    &&& final(db)@ == old(db)@
                },
            },
    {
        db.delete_bucket(self.name())
    }
}

} // verus!
