//! What holds of the catalog, the configuration and the rate limiter
//! whatever the inputs: each law is stated over the same functions that the
//! contracts of the operations use.
use vstd::prelude::*;
use crate::blob::refs_of;
use crate::catalog::engine::{bucket_at_unique, uuid_at_unique, CatalogError};
use crate::catalog::model::{
    count_refs_split, key_lt,
    bucket_at, count_refs, count_refs_keep, has_bucket, has_object, insert_keeps_sorted, keep, object_at, object_at_unique, rank, rank_props,
    sorted, CatalogView, Selection,
};
use crate::config::RateLimitingConfig;
use crate::digest::content_hash;
use crate::entries::{first_rejected, EntryKind};
use crate::error::ConfigErrorView;
use crate::gate::limiter::{admitted, after_requests, BucketState};
use crate::models::object::ObjectView;
use crate::models::{resolved_policy, CachePolicy};
use crate::partial::{ConfigFile, PartialTlsConfig};
use crate::validate::{file_fault, keys_in_files, keys_inline, tls_fault};

verus! {

/// Writing an object under a key that its bucket does not hold yet adds one
/// reference to the blob of its payload, keeps the catalog's objects in
/// order, and makes the object the one found under its key.
pub proof fn new_object_adds_a_reference(c: CatalogView, o: ObjectView, data: Seq<u8>)
    requires
        sorted(c.objects),
        !has_object(c.objects, o.bucket, o.path),
        o.hash == content_hash(data),
    ensures
        refs_of(c.with_object(o, data).blobs, o.hash) == refs_of(c.blobs, o.hash) + 1,
        c.with_object(o, data).blobs.contains_key(o.hash),
        !c.blobs.contains_key(o.hash) ==> c.with_object(o, data).blobs[o.hash].bytes == data,
        sorted(c.with_object(o, data).objects),
        has_object(c.with_object(o, data).objects, o.bucket, o.path),
        c.with_object(o, data).objects[object_at(c.with_object(o, data).objects, o.bucket, o.path)]
            == o,
        forall|b: u128, k: Seq<char>|
            !(b == o.bucket && k == o.path) ==> (has_object(c.with_object(o, data).objects, b, k)
                <==> has_object(c.objects, b, k)),
{
    let i = rank(c.objects, o) as int;
    let t = c.objects.insert(i, o);
    rank_props(c.objects, o);
    insert_keeps_sorted(c.objects, o, i);
    assert(t[i] == o);
    object_at_unique(t, i);
    assert forall|b: u128, k: Seq<char>| !(b == o.bucket && k == o.path) implies (has_object(t, b, k)
        <==> has_object(c.objects, b, k)) by {
        if has_object(t, b, k) {
            let j = object_at(t, b, k);
            let sj = if j < i { j } else { j - 1 };
            assert(c.objects[sj] == t[j]);
        }
        if has_object(c.objects, b, k) {
            let j = object_at(c.objects, b, k);
            let tj = if j < i { j } else { j + 1 };
            assert(t[tj] == c.objects[j]);
        }
    }
}

/// An object that is written is the one found under its bucket and key
/// afterwards, whether the key was there before or not, and the objects
/// stay in order.
pub proof fn written_object_is_found(c: CatalogView, o: ObjectView, data: Seq<u8>)
    requires
        sorted(c.objects),
        o.hash == content_hash(data),
    ensures
        sorted(c.with_object(o, data).objects),
        has_object(c.with_object(o, data).objects, o.bucket, o.path),
        c.with_object(o, data).objects[object_at(c.with_object(o, data).objects, o.bucket, o.path)]
            == o,
        c.with_object(o, data).buckets == c.buckets,
{
    let once = c.with_object(o, data);
    if has_object(c.objects, o.bucket, o.path) {
        let i = object_at(c.objects, o.bucket, o.path);
        assert(once.objects[i] == o);
        assert(sorted(once.objects)) by {
            assert forall|x: int, y: int| 0 <= x < y < once.objects.len() implies crate::catalog::model::key_lt(
                #[trigger] once.objects[x],
                #[trigger] once.objects[y],
            ) by {
                assert(crate::catalog::model::key_lt(c.objects[x], c.objects[y]));
            }
        }
        object_at_unique(once.objects, i);
    } else {
        new_object_adds_a_reference(c, o, data);
    }
}

/// Deduplication: the same payload stored under two different keys, neither
/// of which was there, where nothing pointed at the payload's blob before,
/// is kept in one blob with two references; and deleting one of the two
/// objects leaves one reference and the blob in place.
pub proof fn same_payload_is_stored_once(
    c: CatalogView,
    first: ObjectView,
    second: ObjectView,
    data: Seq<u8>,
)
    requires
        sorted(c.objects),
        first.hash == content_hash(data),
        second.hash == content_hash(data),
        !(first.bucket == second.bucket && first.path == second.path),
        !has_object(c.objects, first.bucket, first.path),
        !has_object(c.objects, second.bucket, second.path),
        refs_of(c.blobs, content_hash(data)) == 0,
    ensures
        ({
            let both = c.with_object(first, data).with_object(second, data);
            let one = both.without_object(first.bucket, first.path);
            &&& refs_of(both.blobs, content_hash(data)) == 2
            &&& refs_of(one.blobs, content_hash(data)) == 1
            &&& one.blobs.contains_key(content_hash(data))
            &&& one.blobs[content_hash(data)].bytes == both.blobs[content_hash(data)].bytes
            &&& !c.blobs.contains_key(content_hash(data)) ==> one.blobs[content_hash(data)].bytes
                == data
        }),
{
    let c1 = c.with_object(first, data);
    new_object_adds_a_reference(c, first, data);
    assert(has_object(c1.objects, second.bucket, second.path) <==> has_object(
        c.objects,
        second.bucket,
        second.path,
    ));
    new_object_adds_a_reference(c1, second, data);
    rank_props(c1.objects, second);
    let both = c1.with_object(second, data);
    assert(has_object(both.objects, first.bucket, first.path));
    let i = object_at(both.objects, first.bucket, first.path);
    let j = object_at(c1.objects, first.bucket, first.path);
    assert(c1.objects[j] == first);
    // the object found in `both` under the first key is the first object
    let r = rank(c1.objects, second) as int;
    let tj = if j < r { j } else { j + 1 };
    assert(both.objects[tj] == first);
    object_at_unique(both.objects, tj);
    assert(both.objects[i].hash == content_hash(data));
}

/// A catalog after a number of sweeps.
pub open spec fn after_sweeps(c: CatalogView, n: nat) -> CatalogView
    decreases n,
{
    if n == 0 {
        c
    } else {
        after_sweeps(c, (n - 1) as nat).after_sweep()
    }
}

/// Sweeps touch neither buckets nor objects, and leave in place, as it is,
/// every blob that something references.
pub proof fn sweeps_keep_referenced_blobs(c: CatalogView, h: Seq<char>, n: nat)
    requires
        c.blobs.contains_key(h),
        c.blobs[h].refs > 0,
    ensures
        after_sweeps(c, n).buckets == c.buckets,
        after_sweeps(c, n).objects == c.objects,
        after_sweeps(c, n).default_policy == c.default_policy,
        after_sweeps(c, n).blobs.contains_key(h),
        after_sweeps(c, n).blobs[h] == c.blobs[h],
    decreases n,
{
    if n > 0 {
        sweeps_keep_referenced_blobs(c, h, (n - 1) as nat);
    }
}

/// An ordered list stays ordered when an object is taken out.
pub proof fn remove_keeps_sorted(s: Seq<ObjectView>, i: int)
    requires
        sorted(s),
        0 <= i < s.len(),
    ensures
        sorted(s.remove(i)),
{
    let t = s.remove(i);
    assert forall|x: int, y: int| 0 <= x < y < t.len() implies key_lt(
        #[trigger] t[x],
        #[trigger] t[y],
    ) by {
        let sx = if x < i { x } else { x + 1 };
        let sy = if y < i { y } else { y + 1 };
        assert(key_lt(s[sx], s[sy]));
    }
}

/// Deduplication, as a reader sees it: a payload that the store did not
/// hold is written under two different keys, the first object is deleted,
/// and any number of sweeps run. The second object is then still read, with
/// the hash of the payload, and the bytes kept under that hash are the
/// payload, byte for byte.
pub proof fn shared_payload_survives_the_other_object(
    c: CatalogView,
    first: ObjectView,
    second: ObjectView,
    name: Seq<char>,
    data: Seq<u8>,
    sweeps: nat,
    now: i64,
)
    requires
        c.wf(),
        first.hash == content_hash(data),
        second.hash == content_hash(data),
        !(first.bucket == second.bucket && first.path == second.path),
        !has_object(c.objects, first.bucket, first.path),
        !has_object(c.objects, second.bucket, second.path),
        !c.blobs.contains_key(content_hash(data)),
        has_bucket(c.buckets, name),
        second.bucket == c.buckets[bucket_at(c.buckets, name)].uuid,
        !crate::catalog::model::expired(second, now),
    ensures
        ({
            let both = c.with_object(first, data).with_object(second, data);
            let end = after_sweeps(both.without_object(first.bucket, first.path), sweeps);
            &&& end.read(name, second.path, now) == Ok::<ObjectView, CatalogError>(second)
            &&& end.blobs.contains_key(content_hash(data))
            &&& end.blobs[content_hash(data)].bytes == data
            &&& end.blobs[content_hash(data)].refs == 1
        }),
{
    let h = content_hash(data);
    let c1 = c.with_object(first, data);
    let both = c1.with_object(second, data);
    let one = both.without_object(first.bucket, first.path);
    same_payload_is_stored_once(c, first, second, data);
    new_object_adds_a_reference(c, first, data);
    assert(has_object(c1.objects, second.bucket, second.path) <==> has_object(
        c.objects,
        second.bucket,
        second.path,
    ));
    new_object_adds_a_reference(c1, second, data);
    // where the two objects stand in `both`
    let i = object_at(both.objects, first.bucket, first.path);
    let j = object_at(both.objects, second.bucket, second.path);
    assert(has_object(both.objects, first.bucket, first.path) <==> has_object(
        c1.objects,
        first.bucket,
        first.path,
    ));
    assert(both.objects[j] == second);
    assert(i != j);
    remove_keeps_sorted(both.objects, i);
    let tj = if j < i { j } else { j - 1 };
    assert(one.objects[tj] == second);
    object_at_unique(one.objects, tj);
    sweeps_keep_referenced_blobs(one, h, sweeps);
}

/// Idempotent overwrite, as a reader sees it: a payload that the store did
/// not hold is written under a key of a bucket, and then written there
/// again. The second write gives the metadata that the first gave and
/// leaves the catalog as the first left it; the bucket holds one object
/// under the key; and reading it gives that metadata, with the payload,
/// byte for byte, under its hash.
pub proof fn second_write_reads_back_the_payload(
    c: CatalogView,
    name: Seq<char>,
    key: Seq<char>,
    data: Seq<u8>,
    content_type: Option<Seq<char>>,
    tags: Seq<Seq<char>>,
    cache_override: Option<CachePolicy>,
    now: i64,
)
    requires
        c.wf(),
        has_bucket(c.buckets, name),
        !c.blobs.contains_key(content_hash(data)),
    ensures
        ({
            let o = c.written(name, key, data, content_type, tags, cache_override);
            let once = c.with_object(o, data);
            let again = once.written(name, key, data, content_type, tags, cache_override);
            let twice = once.with_object(again, data);
            &&& again == o
            &&& twice == once
            &&& twice.read(name, key, now) == Ok::<ObjectView, CatalogError>(o)
            &&& forall|i: int|
                0 <= i < twice.objects.len() && (#[trigger] twice.objects[i]).bucket == o.bucket
                    && twice.objects[i].path == key ==> i == object_at(twice.objects, o.bucket, key)
            &&& twice.blobs.contains_key(o.hash)
            &&& twice.blobs[o.hash].bytes == data
            &&& twice.blobs[o.hash].refs == 1
        }),
{
    let h = content_hash(data);
    let o = c.written(name, key, data, content_type, tags, cache_override);
    let once = c.with_object(o, data);
    written_object_is_found(c, o, data);
    overwrite_with_same_payload_changes_nothing(c, o, data);
    if has_object(c.objects, o.bucket, o.path) {
        let i = object_at(c.objects, o.bucket, o.path);
        let old_hash = c.objects[i].hash;
        count_refs_split(c.objects, i, old_hash);
        assert(refs_of(c.blobs, old_hash) == count_refs(c.objects, old_hash));
        assert(c.blobs.contains_key(old_hash));
    }
    assert forall|i: int|
        0 <= i < once.objects.len() && (#[trigger] once.objects[i]).bucket == o.bucket
            && once.objects[i].path == key implies i == object_at(once.objects, o.bucket, key) by {
        object_at_unique(once.objects, i);
    }
}

/// Cache-policy resolution: an object's own override decides; without one
/// the bucket's default decides; without that the global default.
pub proof fn cache_policy_resolution_order(
    object_override: Option<CachePolicy>,
    bucket_default: Option<CachePolicy>,
    global_default: CachePolicy,
)
    ensures
        object_override is Some ==> resolved_policy(object_override, bucket_default, global_default)
            == object_override->0,
        object_override is None && bucket_default is Some ==> resolved_policy(
            object_override,
            bucket_default,
            global_default,
        ) == bucket_default->0,
        object_override is None && bucket_default is None ==> resolved_policy(
            object_override,
            bucket_default,
            global_default,
        ) == global_default,
{
}

/// What a consistent catalog reports as the cache policy of an object is
/// the policy resolved against the object's bucket as it is now.
pub proof fn read_reports_resolved_policy(c: CatalogView, bucket: Seq<char>, key: Seq<char>, now: i64)
    requires
        c.wf(),
        c.read(bucket, key, now) is Ok,
    ensures
        ({
            let o = c.read(bucket, key, now)->Ok_0;
            let b = c.buckets[bucket_at(c.buckets, bucket)];
            o.cache_policy == resolved_policy(
                o.cache_override,
                b.settings.default_cache_policy,
                c.default_policy,
            )
        }),
{
    let i = bucket_at(c.buckets, bucket);
    uuid_at_unique(c.buckets, i);
    let id = c.buckets[i].uuid;
    let k = object_at(c.objects, id, key);
    assert(c.objects[k].bucket == id);
}

/// Idempotent overwrite: writing the same object with the same payload a
/// second time changes nothing. The blob is released once and retained
/// once, so its count is as it was, and so is everything else.
pub proof fn overwrite_with_same_payload_changes_nothing(c: CatalogView, o: ObjectView, data: Seq<u8>)
    requires
        sorted(c.objects),
        o.hash == content_hash(data),
    ensures
        ({
            let once = c.with_object(o, data);
            let twice = once.with_object(o, data);
            &&& twice == once
            &&& twice.objects[object_at(twice.objects, o.bucket, o.path)].hash == content_hash(data)
        }),
{
    let once = c.with_object(o, data);
    let h = o.hash;
    if has_object(c.objects, o.bucket, o.path) {
        let i = object_at(c.objects, o.bucket, o.path);
        assert(once.objects[i] == o);
        assert(sorted(once.objects)) by {
            assert forall|x: int, y: int| 0 <= x < y < once.objects.len() implies crate::catalog::model::key_lt(
                #[trigger] once.objects[x],
                #[trigger] once.objects[y],
            ) by {
                assert(crate::catalog::model::key_lt(c.objects[x], c.objects[y]));
            }
        }
        object_at_unique(once.objects, i);
    } else {
        new_object_adds_a_reference(c, o, data);
    }
    let k = object_at(once.objects, o.bucket, o.path);
    assert(once.objects[k] == o);
    let twice = once.with_object(o, data);
    assert(twice.objects =~= once.objects);
    assert(once.blobs.contains_key(h) && once.blobs[h].refs >= 1);
    assert(twice.blobs =~= once.blobs);
}

/// Cascade delete: once a bucket is deleted no key is found under its name
/// at any time, every blob has as many references less as objects of the
/// bucket pointed at it, and no object of another bucket is touched.
pub proof fn deleted_bucket_takes_its_objects(c: CatalogView, name: Seq<char>)
    requires
        c.wf(),
        has_bucket(c.buckets, name),
    ensures
        ({
            let id = c.buckets[bucket_at(c.buckets, name)].uuid;
            let gone = keep(c.objects, Selection::OfBucket(id), true);
            let rest = c.without_bucket(name);
            &&& !has_bucket(rest.buckets, name)
            &&& forall|key: Seq<char>, now: i64| #[trigger]
                rest.read(name, key, now) == Err::<ObjectView, CatalogError>(CatalogError::NotFound)
            &&& forall|h: Seq<char>|
                refs_of(c.blobs, h) == #[trigger] refs_of(rest.blobs, h) + count_refs(gone, h)
            &&& rest.objects == keep(c.objects, Selection::OfBucket(id), false)
        }),
{
    let i = bucket_at(c.buckets, name);
    bucket_at_unique(c.buckets, i);
    let id = c.buckets[i].uuid;
    let sel = Selection::OfBucket(id);
    let gone = keep(c.objects, sel, true);
    let rest = c.without_bucket(name);
    assert(!has_bucket(rest.buckets, name)) by {
        if has_bucket(rest.buckets, name) {
            let j = bucket_at(rest.buckets, name);
            let sj = if j < i { j } else { j + 1 };
            assert(c.buckets[sj].name == name);
            if sj < i {
                assert(c.buckets[sj].name != c.buckets[i].name);
            } else {
                assert(c.buckets[i].name != c.buckets[sj].name);
            }
        }
    }
    assert forall|h: Seq<char>| refs_of(c.blobs, h) == #[trigger] refs_of(rest.blobs, h) + count_refs(
        gone,
        h,
    ) by {
        count_refs_keep(c.objects, sel, h);
        assert(refs_of(c.blobs, h) == count_refs(c.objects, h));
        if !c.blobs.contains_key(h) {
            assert(count_refs(gone, h) == 0);
        }
    }
}

/// Every version that a `tls` section lists is a supported one.
pub open spec fn versions_readable(p: PartialTlsConfig) -> bool {
    p.tls_versions matches Some(v) ==> first_rejected(EntryKind::TlsVersion, v@) is None
}

/// A `tls` section lists no version at all, or at least one.
pub open spec fn versions_not_empty(p: PartialTlsConfig) -> bool {
    p.tls_versions matches Some(v) ==> v@.len() > 0
}

/// A `tls` section that gives its keys as file paths only is accepted.
pub proof fn tls_with_file_paths_only_is_accepted(p: PartialTlsConfig)
    requires
        versions_readable(p),
        versions_not_empty(p),
        p.private_key is None,
        p.public_key is None,
        p.private_key_file is Some,
        p.public_key_file is Some,
    ensures
        tls_fault(p) is None,
{
}

/// A `tls` section that gives its keys inline only is accepted.
pub proof fn tls_with_inline_keys_only_is_accepted(p: PartialTlsConfig)
    requires
        versions_readable(p),
        versions_not_empty(p),
        p.private_key is Some,
        p.public_key is Some,
        p.private_key_file is None,
        p.public_key_file is None,
    ensures
        tls_fault(p) is None,
{
}

/// A `tls` section whose versions can be read is refused for its keys
/// exactly where the keys are neither an inline pair alone nor a pair of
/// file paths alone: both forms together, no form at all, half a pair and a
/// pair across the forms are all refused so.
pub proof fn wrong_key_combination_is_refused(p: PartialTlsConfig)
    requires
        versions_readable(p),
    ensures
        tls_fault(p) == Some(ConfigErrorView::InvalidTlsKeys) <==> !keys_inline(p) && !keys_in_files(p),
{
}

/// A `tls` section that gives inline keys and file paths together is
/// refused for its keys.
pub proof fn tls_with_both_key_forms_is_refused(p: PartialTlsConfig)
    requires
        versions_readable(p),
        p.private_key is Some || p.public_key is Some,
        p.private_key_file is Some || p.public_key_file is Some,
    ensures
        tls_fault(p) == Some(ConfigErrorView::InvalidTlsKeys),
{
}

/// A `tls` section that gives no keys at all is refused for its keys.
pub proof fn tls_without_keys_is_refused(p: PartialTlsConfig)
    requires
        versions_readable(p),
        p.private_key is None,
        p.public_key is None,
        p.private_key_file is None,
        p.public_key_file is None,
    ensures
        tls_fault(p) == Some(ConfigErrorView::InvalidTlsKeys),
{
}

/// A configuration is never refused for its TLS keys where it has no `tls`
/// section; where it has one whose versions can be read, and nothing before
/// that section is at fault, it is refused for its keys exactly where the
/// combination of keys is wrong.
pub proof fn missing_keys_need_a_missing_section(f: ConfigFile)
    ensures
        f.tls is None ==> file_fault(f) != Some(ConfigErrorView::InvalidTlsKeys),
        f.data_directory is Some && f.tls is Some && versions_readable(f.tls->0) ==> (file_fault(f)
            == Some(ConfigErrorView::InvalidTlsKeys) <==> !keys_inline(f.tls->0) && !keys_in_files(
            f.tls->0,
        )),
{
    if f.tls is None {
        if f.cors is Some {
            let _ = crate::validate::cors_fault(f.cors->0);
        }
    }
}

/// Rate limiting: of the requests that a caller without a bucket makes at
/// one instant, exactly the first `burst` are admitted. After `k` of them
/// the bucket holds `burst - k` tokens, or none where `k` exceeds the
/// burst, and the next one is admitted exactly where `k` is below the
/// burst.
pub proof fn burst_is_admitted_and_no_more(cfg: RateLimitingConfig, now: i64, k: nat)
    ensures
        k >= 1 ==> after_requests(cfg, None, now, k) == Some(
            BucketState {
                tokens: if k <= cfg.default_burst_size {
                    (cfg.default_burst_size - k) as u32
                } else {
                    0u32
                },
                stamp: now,
            },
        ),
        admitted(cfg, after_requests(cfg, None, now, k), now) <==> k < cfg.default_burst_size,
    decreases k,
{
    if k >= 1 {
        burst_is_admitted_and_no_more(cfg, now, (k - 1) as nat);
    }
}

/// A caller whose bucket is empty is admitted again once a whole period
/// has passed, and not before.
pub proof fn empty_bucket_refills_after_a_period(cfg: RateLimitingConfig, stamp: i64, now: i64)
    requires
        cfg.default_period > 0,
        cfg.default_burst_size > 0,
        stamp <= now,
    ensures
        admitted(cfg, Some(BucketState { tokens: 0, stamp }), now) <==> now - stamp
            >= cfg.default_period,
{
    let p = cfg.default_period as int;
    let e = now - stamp;
    if e > 0 {
        assert((e / p >= 1) <==> e >= p) by (nonlinear_arith)
            requires
                e > 0,
                p > 0,
        ;
    }
}

} // verus!
