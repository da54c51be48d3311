//! Objects: the metadata of one stored payload inside a bucket.
use vstd::prelude::*;
use super::CachePolicy;

verus! {

/// An object's metadata as contracts see it.
pub struct ObjectView {
    pub bucket: u128,
    pub hash: Seq<char>,
    pub path: Seq<char>,
    pub expires_at: Option<i64>,
    pub content_type: Option<Seq<char>>,
    pub cache_policy: CachePolicy,
    pub cache_override: Option<CachePolicy>,
    pub tags: Seq<Seq<char>>,
}

/// The metadata of an object. The bytes live in the blob store under `hash`.
#[derive(Debug)]
pub struct Object {
    pub(crate) bucket: u128,
    pub(crate) hash: String,
    pub(crate) path: String,
    pub(crate) expires_at: Option<i64>,
    pub(crate) content_type: Option<String>,
    pub(crate) cache_policy: CachePolicy,
    pub(crate) cache_override: Option<CachePolicy>,
    pub(crate) tags: Vec<String>,
}

/// The texts of a list of strings, in order.
pub open spec fn texts(v: Seq<String>) -> Seq<Seq<char>> {
    Seq::new(v.len(), |i: int| v[i]@)
}

/// What an optional string holds.
pub open spec fn opt_text(s: Option<String>) -> Option<Seq<char>> {
    match s {
        Some(t) => Some(t@),
        None => None,
    }
}

impl View for Object {
    type V = ObjectView;

    closed spec fn view(&self) -> ObjectView {
        ObjectView {
            bucket: self.bucket,
            hash: self.hash@,
            path: self.path@,
            expires_at: self.expires_at,
            content_type: opt_text(self.content_type),
            cache_policy: self.cache_policy,
            cache_override: self.cache_override,
            tags: texts(self.tags@),
        }
    }
}

/// A copy of a list of strings.
pub fn clone_texts(v: &Vec<String>) -> (r: Vec<String>)
    ensures
        texts(r@) == texts(v@),
{
    let mut r: Vec<String> = Vec::new();
    let mut i: usize = 0;
    while i < v.len()
        invariant
            i <= v.len(),
            r@.len() == i,
            forall|j: int| 0 <= j < i ==> r@[j]@ == v@[j]@,
        decreases v.len() - i,
    {
        r.push(v[i].clone());
        i += 1;
    }
    assert(texts(r@) =~= texts(v@));
    r
}

/// A copy of an optional string.
pub fn clone_opt_text(s: &Option<String>) -> (r: Option<String>)
    ensures
        opt_text(r) == opt_text(*s),
{
    match s {
        Some(t) => Some(t.clone()),
        None => None,
    }
}

impl Clone for Object {
    fn clone(&self) -> (r: Object)
        ensures
            r@ == self@,
    {
        Object {
            bucket: self.bucket,
            hash: self.hash.clone(),
            path: self.path.clone(),
            expires_at: self.expires_at,
            content_type: clone_opt_text(&self.content_type),
            cache_policy: self.cache_policy,
            cache_override: self.cache_override,
            tags: clone_texts(&self.tags),
        }
    }
}

impl Object {
    /// An object record made of the given parts.
    pub fn new(
        bucket: u128,
        hash: String,
        path: String,
        expires_at: Option<i64>,
        content_type: Option<String>,
        cache_policy: CachePolicy,
        cache_override: Option<CachePolicy>,
        tags: Vec<String>,
    ) -> (r: Object)
        ensures
            r@ == (ObjectView {
                bucket,
                hash: hash@,
                path: path@,
                expires_at,
                content_type: opt_text(content_type),
                cache_policy,
                cache_override,
                tags: texts(tags@),
            }),
    {
        Object { bucket, hash, path, expires_at, content_type, cache_policy, cache_override, tags }
    }

    /// Sets or clears the expiry; everything else stays.
    pub fn set_expires_at(&mut self, expires_at: Option<i64>)
        ensures
            final(self)@ == (ObjectView { expires_at, ..old(self)@ }),
    {
        self.expires_at = expires_at;
    }

    /// Sets the cache policy in force; everything else stays.
    pub fn set_cache_policy(&mut self, cache_policy: CachePolicy)
        ensures
            final(self)@ == (ObjectView { cache_policy, ..old(self)@ }),
    {
        self.cache_policy = cache_policy;
    }

    /// The object's own cache policy, where it overrides the bucket's.
    pub fn cache_override(&self) -> (r: Option<CachePolicy>)
        ensures
            r == self@.cache_override,
    {
        self.cache_override
    }

    /// The identifier of the bucket that owns the object.
    pub fn bucket(&self) -> (r: u128)
        ensures
            r == self@.bucket,
    {
        self.bucket
    }

    /// The content hash, which is the key of the bytes in the blob store.
    pub fn hash(&self) -> (r: &str)
        ensures
            r@ == self@.hash,
    {
        self.hash.as_str()
    }

    /// The key of the object inside its bucket.
    pub fn path(&self) -> (r: &str)
        ensures
            r@ == self@.path,
    {
        self.path.as_str()
    }

    /// When the object expires, in milliseconds since the Unix epoch.
    pub fn expires_at(&self) -> (r: Option<i64>)
        ensures
            r == self@.expires_at,
    {
        self.expires_at
    }

    /// The declared content type.
    pub fn content_type(&self) -> (r: Option<String>)
        ensures
            opt_text(r) == self@.content_type,
    {
        clone_opt_text(&self.content_type)
    }

    /// The cache policy in force for the object.
    pub fn cache_policy(&self) -> (r: CachePolicy)
        ensures
            r == self@.cache_policy,
    {
        self.cache_policy
    }

    /// The tags, in ascending order and without repetition.
    pub fn tags(&self) -> (r: Vec<String>)
        ensures
            texts(r@) == self@.tags,
    {
        clone_texts(&self.tags)
    }
}

} // verus!
