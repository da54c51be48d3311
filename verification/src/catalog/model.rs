//! The catalog as mathematics: what it holds, when that is consistent, and
//! what each operation makes of it.
use vstd::prelude::*;
use crate::blob::{content_addressed, refs_of, with_put, with_release, BlobView};
use crate::catalog::tags::sorted_tags;
use crate::digest::content_hash;
use crate::models::bucket::{BucketSettings, BucketView};
use crate::models::object::ObjectView;
use crate::models::{resolved_policy, CachePolicy};
use crate::text::{has_prefix, lex_lt, lex_lt_asymmetric, lex_lt_irreflexive, lex_lt_total, lex_lt_transitive};

verus! {

/// The order in which objects are kept: by key, and by bucket among equal
/// keys.
pub open spec fn key_lt(a: ObjectView, b: ObjectView) -> bool {
    lex_lt(a.path, b.path) || (a.path == b.path && a.bucket < b.bucket)
}

/// Objects in strictly ascending order.
pub open spec fn sorted(s: Seq<ObjectView>) -> bool {
    forall|i: int, j: int| 0 <= i < j < s.len() ==> key_lt(#[trigger] s[i], #[trigger] s[j])
}

/// Texts in strictly ascending order.
pub open spec fn ascending(s: Seq<Seq<char>>) -> bool {
    forall|i: int, j: int| 0 <= i < j < s.len() ==> lex_lt(#[trigger] s[i], #[trigger] s[j])
}

/// How many objects of a list point at a hash.
pub open spec fn count_refs(s: Seq<ObjectView>, h: Seq<char>) -> nat
    decreases s.len(),
{
    if s.len() == 0 {
        0
    } else {
        count_refs(s.drop_last(), h) + if s.last().hash == h {
            1nat
        } else {
            0nat
        }
    }
}

/// How many objects of a list come before an object.
pub open spec fn rank(s: Seq<ObjectView>, o: ObjectView) -> nat
    decreases s.len(),
{
    if s.len() == 0 {
        0
    } else {
        rank(s.drop_last(), o) + if key_lt(s.last(), o) {
            1nat
        } else {
            0nat
        }
    }
}

/// A choice of objects: those of one bucket, or those that have expired at
/// a time.
#[derive(Debug, Clone, Copy, PartialEq, Eq, Structural)]
pub enum Selection {
    OfBucket(u128),
    ExpiredAt(i64),
}

/// An object has expired at a time when its expiry is set and not after it.
pub open spec fn expired(o: ObjectView, now: i64) -> bool {
    o.expires_at matches Some(t) && t <= now
}

/// Whether an object is of a selection.
pub open spec fn selected(sel: Selection, o: ObjectView) -> bool {
    match sel {
        Selection::OfBucket(id) => o.bucket == id,
        Selection::ExpiredAt(now) => expired(o, now),
    }
}

/// The objects of a list that are of a selection (`want`) or not, in order.
pub open spec fn keep(s: Seq<ObjectView>, sel: Selection, want: bool) -> Seq<ObjectView>
    decreases s.len(),
{
    if s.len() == 0 {
        Seq::empty()
    } else if selected(sel, s.last()) == want {
        keep(s.drop_last(), sel, want).push(s.last())
    } else {
        keep(s.drop_last(), sel, want)
    }
}

/// The objects of a bucket whose key starts with a prefix and that have not
/// expired, in order.
pub open spec fn listing(s: Seq<ObjectView>, bucket: u128, prefix: Seq<char>, now: i64) -> Seq<
    ObjectView,
>
    decreases s.len(),
{
    if s.len() == 0 {
        Seq::empty()
    } else if s.last().bucket == bucket && has_prefix(s.last().path, prefix) && !expired(
        s.last(),
        now,
    ) {
        listing(s.drop_last(), bucket, prefix, now).push(s.last())
    } else {
        listing(s.drop_last(), bucket, prefix, now)
    }
}

/// Where a page of a list of a given length starts and ends. Pages are
/// counted from zero and hold `limit` items; without a limit the first page
/// holds everything. A page past the end is empty.
pub open spec fn page_bounds(len: nat, page: Option<u64>, limit: Option<u64>) -> (int, int) {
    let p: int = match page {
        Some(x) => x as int,
        None => 0,
    };
    match limit {
        None => if p == 0 {
            (0, len as int)
        } else {
            (len as int, len as int)
        },
        Some(l) => {
            let start = p * (l as int);
            if start >= len {
                (len as int, len as int)
            } else if start + l >= len {
                (start, len as int)
            } else {
                (start, start + l)
            }
        },
    }
}

/// One page of a list.
pub open spec fn page_of<T>(all: Seq<T>, page: Option<u64>, limit: Option<u64>) -> Seq<T> {
    all.subrange(page_bounds(all.len(), page, limit).0, page_bounds(all.len(), page, limit).1)
}

/// A store with one reference less for each object of a list.
pub open spec fn release_many(m: Map<Seq<char>, BlobView>, gone: Seq<ObjectView>) -> Map<
    Seq<char>,
    BlobView,
> {
    Map::new(
        |h: Seq<char>| m.contains_key(h),
        |h: Seq<char>| BlobView { bytes: m[h].bytes, refs: (m[h].refs - count_refs(gone, h)) as nat },
    )
}

/// Some bucket of the list has the name.
pub open spec fn has_bucket(buckets: Seq<BucketView>, name: Seq<char>) -> bool {
    exists|i: int| 0 <= i < buckets.len() && (#[trigger] buckets[i]).name == name
}

/// Where the bucket of a name stands.
pub open spec fn bucket_at(buckets: Seq<BucketView>, name: Seq<char>) -> int {
    choose|i: int| 0 <= i < buckets.len() && (#[trigger] buckets[i]).name == name
}

/// Some bucket of the list has the identifier.
pub open spec fn has_uuid(buckets: Seq<BucketView>, id: u128) -> bool {
    exists|i: int| 0 <= i < buckets.len() && (#[trigger] buckets[i]).uuid == id
}

/// Where the bucket of an identifier stands.
pub open spec fn uuid_at(buckets: Seq<BucketView>, id: u128) -> int {
    choose|i: int| 0 <= i < buckets.len() && (#[trigger] buckets[i]).uuid == id
}

/// Some object of the list is in the bucket under the key.
pub open spec fn has_object(objects: Seq<ObjectView>, bucket: u128, key: Seq<char>) -> bool {
    exists|i: int|
        0 <= i < objects.len() && (#[trigger] objects[i]).bucket == bucket && objects[i].path == key
}

/// Where the object of a bucket and key stands.
pub open spec fn object_at(objects: Seq<ObjectView>, bucket: u128, key: Seq<char>) -> int {
    choose|i: int|
        0 <= i < objects.len() && (#[trigger] objects[i]).bucket == bucket && objects[i].path == key
}

/// The cache policy in force for an object of a catalog.
pub open spec fn policy_in(
    buckets: Seq<BucketView>,
    default_policy: CachePolicy,
    o: ObjectView,
) -> CachePolicy {
    resolved_policy(
        o.cache_override,
        buckets[uuid_at(buckets, o.bucket)].settings.default_cache_policy,
        default_policy,
    )
}

/// What a catalog holds: the global default policy and max-age, the
/// buckets in the order of their creation, the objects in key order, and
/// the blobs.
pub struct CatalogView {
    pub default_policy: CachePolicy,
    pub default_max_age: u64,
    pub buckets: Seq<BucketView>,
    pub objects: Seq<ObjectView>,
    pub blobs: Map<Seq<char>, BlobView>,
}

impl CatalogView {
    /// Bucket names and identifiers are unique.
    pub open spec fn buckets_wf(self) -> bool {
        &&& forall|i: int, j: int|
            0 <= i < j < self.buckets.len() ==> (#[trigger] self.buckets[i]).name != (
            #[trigger] self.buckets[j]).name
        &&& forall|i: int, j: int|
            0 <= i < j < self.buckets.len() ==> (#[trigger] self.buckets[i]).uuid != (
            #[trigger] self.buckets[j]).uuid
    }

    /// Objects are in key order, each in a bucket that exists, each with its
    /// tags in order and with the cache policy that is in force for it.
    pub open spec fn objects_wf(self) -> bool {
        &&& sorted(self.objects)
        &&& forall|k: int|
            0 <= k < self.objects.len() ==> has_uuid(self.buckets, (#[trigger] self.objects[k]).bucket)
        &&& forall|k: int|
            0 <= k < self.objects.len() ==> ascending((#[trigger] self.objects[k]).tags)
        &&& forall|k: int|
            0 <= k < self.objects.len() ==> (#[trigger] self.objects[k]).cache_policy == policy_in(
                self.buckets,
                self.default_policy,
                self.objects[k],
            )
    }

    /// Blobs sit under their content address, and each counts exactly the
    /// objects that point at it.
    pub open spec fn blobs_wf(self) -> bool {
        &&& content_addressed(self.blobs)
        &&& forall|h: Seq<char>| refs_of(self.blobs, h) == #[trigger] count_refs(self.objects, h)
    }

    /// The catalog is consistent.
    pub open spec fn wf(self) -> bool {
        self.buckets_wf() && self.objects_wf() && self.blobs_wf()
    }

    /// The catalog with a new bucket at the end.
    pub open spec fn with_bucket(self, b: BucketView) -> CatalogView {
        CatalogView { buckets: self.buckets.push(b), ..self }
    }

    /// The catalog with other settings on a bucket, and with the cache
    /// policy of the bucket's objects resolved anew.
    pub open spec fn with_settings(self, name: Seq<char>, settings: BucketSettings) -> CatalogView {
        let i = bucket_at(self.buckets, name);
        let id = self.buckets[i].uuid;
        CatalogView {
            buckets: self.buckets.update(i, BucketView { settings, ..self.buckets[i] }),
            objects: Seq::new(
                self.objects.len(),
                |k: int|
                    if self.objects[k].bucket == id {
                        ObjectView {
                            cache_policy: resolved_policy(
                                self.objects[k].cache_override,
                                settings.default_cache_policy,
                                self.default_policy,
                            ),
                            ..self.objects[k]
                        }
                    } else {
                        self.objects[k]
                    },
            ),
            ..self
        }
    }

    /// The catalog without the objects of a selection, each blob with one
    /// reference less for each object that went.
    pub open spec fn without_selected(self, sel: Selection) -> CatalogView {
        CatalogView {
            objects: keep(self.objects, sel, false),
            blobs: release_many(self.blobs, keep(self.objects, sel, true)),
            ..self
        }
    }

    /// The catalog without a bucket and without its objects.
    pub open spec fn without_bucket(self, name: Seq<char>) -> CatalogView {
        let i = bucket_at(self.buckets, name);
        let rest = self.without_selected(Selection::OfBucket(self.buckets[i].uuid));
        CatalogView { buckets: self.buckets.remove(i), ..rest }
    }

    /// The metadata of an object as it is written into a bucket: no expiry,
    /// the tags in order, and the cache policy resolved against the bucket
    /// and the global default.
    pub open spec fn written(
        self,
        bucket: Seq<char>,
        key: Seq<char>,
        data: Seq<u8>,
        content_type: Option<Seq<char>>,
        tags: Seq<Seq<char>>,
        cache_override: Option<CachePolicy>,
    ) -> ObjectView {
        let b = self.buckets[bucket_at(self.buckets, bucket)];
        ObjectView {
            bucket: b.uuid,
            hash: content_hash(data),
            path: key,
            expires_at: None,
            content_type,
            cache_policy: resolved_policy(
                cache_override,
                b.settings.default_cache_policy,
                self.default_policy,
            ),
            cache_override,
            tags: sorted_tags(tags),
        }
    }

    /// The catalog with an object written: in place of the one under the
    /// same bucket and key, whose blob loses a reference, or as a new one at
    /// its place in the order; and with the payload put into the blob store.
    pub open spec fn with_object(self, o: ObjectView, data: Seq<u8>) -> CatalogView {
        if has_object(self.objects, o.bucket, o.path) {
            let i = object_at(self.objects, o.bucket, o.path);
            CatalogView {
                objects: self.objects.update(i, o),
                blobs: with_put(with_release(self.blobs, self.objects[i].hash), data),
                ..self
            }
        } else {
            CatalogView {
                objects: self.objects.insert(rank(self.objects, o) as int, o),
                blobs: with_put(self.blobs, data),
                ..self
            }
        }
    }

    /// The catalog without the object under a bucket and key, whose blob
    /// loses a reference.
    pub open spec fn without_object(self, bucket: u128, key: Seq<char>) -> CatalogView {
        let i = object_at(self.objects, bucket, key);
        CatalogView {
            objects: self.objects.remove(i),
            blobs: with_release(self.blobs, self.objects[i].hash),
            ..self
        }
    }

    /// The object under a key of a bucket, where both exist.
    pub open spec fn lookup(self, bucket: Seq<char>, key: Seq<char>) -> Option<ObjectView> {
        if has_bucket(self.buckets, bucket) {
            let id = self.buckets[bucket_at(self.buckets, bucket)].uuid;
            if has_object(self.objects, id, key) {
                Some(self.objects[object_at(self.objects, id, key)])
            } else {
                None
            }
        } else {
            None
        }
    }

    /// What reading an object at a time gives: `NotFound` where the bucket
    /// or the key is absent, `Expired` where the object's time has passed,
    /// else its metadata.
    pub open spec fn read(self, bucket: Seq<char>, key: Seq<char>, now: i64) -> Result<
        ObjectView,
        crate::catalog::engine::CatalogError,
    > {
        match self.lookup(bucket, key) {
            None => Err(crate::catalog::engine::CatalogError::NotFound),
            Some(o) => if expired(o, now) {
                Err(crate::catalog::engine::CatalogError::Expired)
            } else {
                Ok(o)
            },
        }
    }

    /// The catalog without the blobs that nothing references.
    pub open spec fn after_sweep(self) -> CatalogView {
        CatalogView { blobs: crate::blob::swept(self.blobs), ..self }
    }

    /// The catalog with another expiry on the object under a bucket and key.
    pub open spec fn with_expiry(self, bucket: u128, key: Seq<char>, at: Option<i64>) -> CatalogView {
        let i = object_at(self.objects, bucket, key);
        CatalogView {
            objects: self.objects.update(i, ObjectView { expires_at: at, ..self.objects[i] }),
            ..self
        }
    }
}

/// The order of objects is transitive.
pub proof fn key_lt_transitive(a: ObjectView, b: ObjectView, c: ObjectView)
    requires
        key_lt(a, b),
        key_lt(b, c),
    ensures
        key_lt(a, c),
{
    if lex_lt(a.path, b.path) && lex_lt(b.path, c.path) {
        lex_lt_transitive(a.path, b.path, c.path);
    }
}

/// Two objects are under the same bucket and key, or one comes before the
/// other, and never both.
pub proof fn key_lt_total(a: ObjectView, b: ObjectView)
    ensures
        (a.path == b.path && a.bucket == b.bucket) || key_lt(a, b) || key_lt(b, a),
        key_lt(a, b) ==> !key_lt(b, a) && !(a.path == b.path && a.bucket == b.bucket),
{
    lex_lt_total(a.path, b.path);
    lex_lt_irreflexive(a.path);
    if lex_lt(a.path, b.path) {
        lex_lt_asymmetric(a.path, b.path);
    }
    if lex_lt(b.path, a.path) {
        lex_lt_asymmetric(b.path, a.path);
    }
}

/// Counting over two lists put together adds up.
pub proof fn count_refs_concat(a: Seq<ObjectView>, b: Seq<ObjectView>, h: Seq<char>)
    ensures
        count_refs(a + b, h) == count_refs(a, h) + count_refs(b, h),
    decreases b.len(),
{
    if b.len() == 0 {
        assert(a + b =~= a);
    } else {
        assert((a + b).drop_last() =~= a + b.drop_last());
        count_refs_concat(a, b.drop_last(), h);
    }
}

/// A list of one object counts one for its hash and nothing else.
pub proof fn count_refs_one(o: ObjectView, h: Seq<char>)
    ensures
        count_refs(seq![o], h) == if o.hash == h {
            1nat
        } else {
            0nat
        },
{
    assert(seq![o].drop_last() =~= Seq::<ObjectView>::empty());
    assert(count_refs(Seq::<ObjectView>::empty(), h) == 0);
}

/// The count never exceeds the length of the list.
pub proof fn count_refs_bound(s: Seq<ObjectView>, h: Seq<char>)
    ensures
        count_refs(s, h) <= s.len(),
    decreases s.len(),
{
    if s.len() > 0 {
        count_refs_bound(s.drop_last(), h);
    }
}

/// The count of a list split around one of its objects.
pub proof fn count_refs_split(s: Seq<ObjectView>, i: int, h: Seq<char>)
    requires
        0 <= i < s.len(),
    ensures
        count_refs(s, h) == count_refs(s.take(i), h) + count_refs(s.skip(i + 1), h) + if s[i].hash
            == h {
            1nat
        } else {
            0nat
        },
{
    assert(s =~= s.take(i) + seq![s[i]] + s.skip(i + 1));
    count_refs_concat(s.take(i) + seq![s[i]], s.skip(i + 1), h);
    count_refs_concat(s.take(i), seq![s[i]], h);
    count_refs_one(s[i], h);
}

/// Putting an object into a list adds one to the count of its hash.
pub proof fn count_refs_insert(s: Seq<ObjectView>, i: int, o: ObjectView, h: Seq<char>)
    requires
        0 <= i <= s.len(),
    ensures
        count_refs(s.insert(i, o), h) == count_refs(s, h) + if o.hash == h {
            1nat
        } else {
            0nat
        },
{
    let t = s.insert(i, o);
    count_refs_split(t, i, h);
    assert(t.take(i) =~= s.take(i));
    assert(t.skip(i + 1) =~= s.skip(i));
    assert(s =~= s.take(i) + s.skip(i));
    count_refs_concat(s.take(i), s.skip(i), h);
}

/// Taking an object out of a list takes one from the count of its hash.
pub proof fn count_refs_remove(s: Seq<ObjectView>, i: int, h: Seq<char>)
    requires
        0 <= i < s.len(),
    ensures
        count_refs(s.remove(i), h) + (if s[i].hash == h {
            1nat
        } else {
            0nat
        }) == count_refs(s, h),
{
    let t = s.remove(i);
    count_refs_split(s, i, h);
    assert(t =~= s.take(i) + s.skip(i + 1));
    count_refs_concat(s.take(i), s.skip(i + 1), h);
}

/// Replacing an object moves one count from the old hash to the new one.
pub proof fn count_refs_update(s: Seq<ObjectView>, i: int, o: ObjectView, h: Seq<char>)
    requires
        0 <= i < s.len(),
    ensures
        count_refs(s.update(i, o), h) + (if s[i].hash == h {
            1nat
        } else {
            0nat
        }) == count_refs(s, h) + if o.hash == h {
            1nat
        } else {
            0nat
        },
{
    let t = s.update(i, o);
    count_refs_split(s, i, h);
    count_refs_split(t, i, h);
    assert(t.take(i) =~= s.take(i));
    assert(t.skip(i + 1) =~= s.skip(i + 1));
}

/// Two lists with the same hashes at the same places count alike.
pub proof fn count_refs_by_hash(a: Seq<ObjectView>, b: Seq<ObjectView>, h: Seq<char>)
    requires
        a.len() == b.len(),
        forall|k: int| 0 <= k < a.len() ==> (#[trigger] a[k]).hash == b[k].hash,
    ensures
        count_refs(a, h) == count_refs(b, h),
    decreases a.len(),
{
    if a.len() > 0 {
        assert(a.last().hash == a[a.len() - 1].hash);
        assert forall|k: int| 0 <= k < a.drop_last().len() implies (#[trigger] a.drop_last()[k]).hash
            == b.drop_last()[k].hash by {
            assert(a[k].hash == b[k].hash);
        }
        count_refs_by_hash(a.drop_last(), b.drop_last(), h);
    }
}

/// A leading part of a list counts no more than the list.
pub proof fn count_refs_take(s: Seq<ObjectView>, k: int, h: Seq<char>)
    requires
        0 <= k <= s.len(),
    ensures
        count_refs(s.take(k), h) <= count_refs(s, h),
{
    assert(s =~= s.take(k) + s.skip(k));
    count_refs_concat(s.take(k), s.skip(k), h);
}

/// The objects of a selection and the others count, together, what the
/// whole list counts.
pub proof fn count_refs_keep(s: Seq<ObjectView>, sel: Selection, h: Seq<char>)
    ensures
        count_refs(keep(s, sel, true), h) + count_refs(keep(s, sel, false), h) == count_refs(s, h),
    decreases s.len(),
{
    if s.len() > 0 {
        count_refs_keep(s.drop_last(), sel, h);
        let d = s.drop_last();
        if selected(sel, s.last()) {
            assert(keep(s, sel, true).drop_last() =~= keep(d, sel, true));
        } else {
            assert(keep(s, sel, false).drop_last() =~= keep(d, sel, false));
        }
    }
}

/// What is kept of an ordered list is ordered, comes from the list, and is
/// of the selection or not as was asked.
pub proof fn keep_props(s: Seq<ObjectView>, sel: Selection, want: bool)
    requires
        sorted(s),
    ensures
        sorted(keep(s, sel, want)),
        forall|x: int|
            0 <= x < keep(s, sel, want).len() ==> selected(sel, #[trigger] keep(s, sel, want)[x])
                == want && exists|j: int| 0 <= j < s.len() && s[j] == keep(s, sel, want)[x],
    decreases s.len(),
{
    if s.len() > 0 {
        let d = s.drop_last();
        let n = (s.len() - 1) as int;
        assert(sorted(d)) by {
            assert forall|x: int, y: int| 0 <= x < y < d.len() implies key_lt(
                #[trigger] d[x],
                #[trigger] d[y],
            ) by {
                assert(key_lt(s[x], s[y]));
            }
        }
        keep_props(d, sel, want);
        let kd = keep(d, sel, want);
        let ks = keep(s, sel, want);
        assert forall|x: int| 0 <= x < ks.len() implies selected(sel, #[trigger] ks[x]) == want
            && exists|j: int| 0 <= j < s.len() && s[j] == ks[x] by {
            if x < kd.len() {
                assert(ks[x] == kd[x]);
                let j = choose|j: int| 0 <= j < d.len() && d[j] == kd[x];
                assert(s[j] == ks[x]);
            } else {
                assert(s[n] == ks[x]);
            }
        }
        assert forall|x: int, y: int| 0 <= x < y < ks.len() implies key_lt(
            #[trigger] ks[x],
            #[trigger] ks[y],
        ) by {
            if y < kd.len() {
                assert(key_lt(kd[x], kd[y]));
            } else {
                let j = choose|j: int| 0 <= j < d.len() && d[j] == kd[x];
                assert(key_lt(s[j], s[n]));
            }
        }
    }
}

/// What is listed of an ordered list is ordered, and is exactly what the
/// list holds of the bucket, under the prefix, and not expired.
pub proof fn listing_props(s: Seq<ObjectView>, bucket: u128, prefix: Seq<char>, now: i64)
    requires
        sorted(s),
    ensures
        sorted(listing(s, bucket, prefix, now)),
        forall|x: int|
            0 <= x < listing(s, bucket, prefix, now).len() ==> {
                let o = #[trigger] listing(s, bucket, prefix, now)[x];
                &&& o.bucket == bucket
                &&& has_prefix(o.path, prefix)
                &&& !expired(o, now)
                &&& exists|j: int| 0 <= j < s.len() && s[j] == o
            },
        forall|j: int|
            0 <= j < s.len() && (#[trigger] s[j]).bucket == bucket && has_prefix(s[j].path, prefix)
                && !expired(s[j], now) ==> listing(s, bucket, prefix, now).contains(s[j]),
    decreases s.len(),
{
    if s.len() > 0 {
        let d = s.drop_last();
        let n = (s.len() - 1) as int;
        assert(sorted(d)) by {
            assert forall|x: int, y: int| 0 <= x < y < d.len() implies key_lt(
                #[trigger] d[x],
                #[trigger] d[y],
            ) by {
                assert(key_lt(s[x], s[y]));
            }
        }
        listing_props(d, bucket, prefix, now);
        let ld = listing(d, bucket, prefix, now);
        let ls = listing(s, bucket, prefix, now);
        assert forall|x: int| 0 <= x < ls.len() implies ({
            let o = #[trigger] ls[x];
            &&& o.bucket == bucket
            &&& has_prefix(o.path, prefix)
            &&& !expired(o, now)
            &&& exists|j: int| 0 <= j < s.len() && s[j] == o
        }) by {
            if x < ld.len() {
                assert(ls[x] == ld[x]);
                let j = choose|j: int| 0 <= j < d.len() && d[j] == ld[x];
                assert(s[j] == ls[x]);
            } else {
                assert(s[n] == ls[x]);
            }
        }
        assert forall|x: int, y: int| 0 <= x < y < ls.len() implies key_lt(
            #[trigger] ls[x],
            #[trigger] ls[y],
        ) by {
            if y < ld.len() {
                assert(key_lt(ld[x], ld[y]));
            } else {
                let j = choose|j: int| 0 <= j < d.len() && d[j] == ld[x];
                assert(key_lt(s[j], s[n]));
            }
        }
        assert forall|j: int|
            0 <= j < s.len() && (#[trigger] s[j]).bucket == bucket && has_prefix(s[j].path, prefix)
                && !expired(s[j], now) implies ls.contains(s[j]) by {
            if j < n {
                assert(d[j] == s[j]);
                assert(ld.contains(d[j]));
                let q = choose|q: int| 0 <= q < ld.len() && ld[q] == d[j];
                assert(ls[q] == s[j]);
            } else {
                assert(ls[ls.len() - 1] == s[j]);
            }
        }
    }
}

/// In an ordered list an object stands where the objects before it end.
pub proof fn rank_is_position(s: Seq<ObjectView>, o: ObjectView, i: int)
    requires
        sorted(s),
        0 <= i <= s.len(),
        forall|j: int| 0 <= j < i ==> key_lt(#[trigger] s[j], o),
        i < s.len() ==> !key_lt(s[i], o),
    ensures
        rank(s, o) == i,
    decreases s.len(),
{
    if s.len() > 0 {
        let t = s.drop_last();
        let n = (s.len() - 1) as int;
        if i == s.len() {
            rank_is_position(t, o, n);
        } else {
            if key_lt(s[n], o) && i < n {
                key_lt_total(s[i], s[n]);
                key_lt_transitive(s[i], s[n], o);
            }
            assert(!key_lt(s.last(), o));
            rank_is_position(t, o, i);
        }
    }
}

/// In an ordered list the objects before an object's rank come before the
/// object, and the one at its rank does not.
pub proof fn rank_props(s: Seq<ObjectView>, o: ObjectView)
    requires
        sorted(s),
    ensures
        0 <= rank(s, o) <= s.len(),
        forall|j: int| 0 <= j < rank(s, o) ==> key_lt(#[trigger] s[j], o),
        rank(s, o) < s.len() ==> !key_lt(s[rank(s, o) as int], o),
    decreases s.len(),
{
    if s.len() > 0 {
        let d = s.drop_last();
        let n = (s.len() - 1) as int;
        assert(sorted(d)) by {
            assert forall|x: int, y: int| 0 <= x < y < d.len() implies key_lt(
                #[trigger] d[x],
                #[trigger] d[y],
            ) by {
                assert(key_lt(s[x], s[y]));
            }
        }
        rank_props(d, o);
        let i = rank(d, o) as int;
        if key_lt(s[n], o) {
            if i < n {
                key_lt_total(s[i], s[n]);
                key_lt_transitive(s[i], s[n], o);
            }
            assert forall|j: int| 0 <= j < rank(s, o) implies key_lt(#[trigger] s[j], o) by {
                if j < n {
                    assert(s[j] == d[j]);
                }
            }
        } else {
            assert forall|j: int| 0 <= j < rank(s, o) implies key_lt(#[trigger] s[j], o) by {
                assert(s[j] == d[j]);
            }
            if i < n {
                assert(s[i] == d[i]);
            }
        }
    }
}

/// An object put at its rank into an ordered list that has none under its
/// bucket and key leaves the list ordered.
pub proof fn insert_keeps_sorted(s: Seq<ObjectView>, o: ObjectView, i: int)
    requires
        sorted(s),
        0 <= i <= s.len(),
        forall|j: int| 0 <= j < i ==> key_lt(#[trigger] s[j], o),
        i < s.len() ==> !key_lt(s[i], o),
        !has_object(s, o.bucket, o.path),
    ensures
        sorted(s.insert(i, o)),
{
    let t = s.insert(i, o);
    assert forall|x: int, y: int| 0 <= x < y < t.len() implies key_lt(
        #[trigger] t[x],
        #[trigger] t[y],
    ) by {
        if y < i {
            assert(t[x] == s[x] && t[y] == s[y]);
        } else if y == i {
            assert(t[x] == s[x]);
        } else if x == i {
            // o against s[y - 1], which is at or after s[i]
            key_lt_total(s[i], o);
            assert(s[i].bucket == o.bucket && s[i].path == o.path ==> has_object(
                s,
                o.bucket,
                o.path,
            ));
            assert(key_lt(o, s[i]));
            if y - 1 > i {
                key_lt_transitive(o, s[i], s[y - 1]);
            }
        } else if x < i {
            assert(t[x] == s[x] && t[y] == s[y - 1]);
        } else {
            assert(t[x] == s[x - 1] && t[y] == s[y - 1]);
        }
    }
}

/// In an ordered list no two objects share bucket and key, so the object of
/// a bucket and key is found where it stands.
pub proof fn object_at_unique(s: Seq<ObjectView>, i: int)
    requires
        sorted(s),
        0 <= i < s.len(),
    ensures
        has_object(s, s[i].bucket, s[i].path),
        object_at(s, s[i].bucket, s[i].path) == i,
{
    let j = object_at(s, s[i].bucket, s[i].path);
    if j < i {
        key_lt_total(s[j], s[i]);
    } else if i < j {
        key_lt_total(s[i], s[j]);
    }
}

} // verus!
