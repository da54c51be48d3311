//! The blob store: payloads kept once under their content address, each
//! with the number of objects that point at it.
use vstd::prelude::*;
use vstd::slice::slice_to_vec;
use crate::digest::{content_hash, hash_of};

verus! {

/// Why the blob store refused.
#[derive(Debug, Clone, Copy, PartialEq, Eq, Structural)]
pub enum StorageError {
    /// No blob is kept under the hash, or none that is still referenced.
    NotFound,
    /// The reference count cannot grow further.
    TooManyReferences,
}

/// A blob as contracts see it.
pub struct BlobView {
    pub bytes: Seq<u8>,
    pub refs: nat,
}

/// A payload, its content address and its reference count.
#[derive(Debug)]
pub struct Blob {
    hash: String,
    bytes: Vec<u8>,
    refs: u64,
}

impl Blob {
    /// The hash of the blob.
    pub closed spec fn key(self) -> Seq<char> {
        self.hash@
    }

    /// What the blob holds.
    pub closed spec fn value(self) -> BlobView {
        BlobView { bytes: self.bytes@, refs: self.refs as nat }
    }
}

/// Some blob of the list is kept under the hash.
pub open spec fn holds(s: Seq<Blob>, h: Seq<char>) -> bool {
    exists|i: int| 0 <= i < s.len() && (#[trigger] s[i]).key() == h
}

/// No two blobs of the list share a hash.
pub open spec fn distinct(s: Seq<Blob>) -> bool {
    forall|i: int, j: int| 0 <= i < j < s.len() ==> (#[trigger] s[i]).key() != (#[trigger] s[j]).key()
}

/// The blobs of a list by their hash.
pub open spec fn by_hash(s: Seq<Blob>) -> Map<Seq<char>, BlobView> {
    Map::new(
        |h: Seq<char>| holds(s, h),
        |h: Seq<char>| s[choose|i: int| 0 <= i < s.len() && (#[trigger] s[i]).key() == h].value(),
    )
}

/// Every blob is found under its own hash.
pub proof fn by_hash_at(s: Seq<Blob>, i: int)
    requires
        distinct(s),
        0 <= i < s.len(),
    ensures
        by_hash(s).contains_key(s[i].key()),
        by_hash(s)[s[i].key()] == s[i].value(),
{
    let h = s[i].key();
    assert(holds(s, h));
    let j = choose|j: int| 0 <= j < s.len() && (#[trigger] s[j]).key() == h;
    assert(j == i);
}

/// Replacing a blob by one of the same hash replaces its entry.
pub proof fn by_hash_update(s: Seq<Blob>, i: int, b: Blob)
    requires
        distinct(s),
        0 <= i < s.len(),
        b.key() == s[i].key(),
    ensures
        distinct(s.update(i, b)),
        by_hash(s.update(i, b)) == by_hash(s).insert(b.key(), b.value()),
{
    let t = s.update(i, b);
    assert(distinct(t)) by {
        assert forall|x: int, y: int| 0 <= x < y < t.len() implies (#[trigger] t[x]).key() != (
        #[trigger] t[y]).key() by {
            assert(s[x].key() != s[y].key());
        }
    }
    assert(by_hash(t) =~= by_hash(s).insert(b.key(), b.value())) by {
        assert forall|h: Seq<char>| by_hash(t).contains_key(h) <==> by_hash(s).insert(
            b.key(),
            b.value(),
        ).contains_key(h) by {
            if holds(t, h) {
                let k = choose|k: int| 0 <= k < t.len() && (#[trigger] t[k]).key() == h;
                assert(s[k].key() == h);
            }
            if holds(s, h) {
                let k = choose|k: int| 0 <= k < s.len() && (#[trigger] s[k]).key() == h;
                assert(t[k].key() == h);
            }
            if h == b.key() {
                assert(t[i].key() == h);
            }
        }
        assert forall|h: Seq<char>| by_hash(t).contains_key(h) implies by_hash(t)[h] == by_hash(
            s,
        ).insert(b.key(), b.value())[h] by {
            let k = choose|k: int| 0 <= k < t.len() && (#[trigger] t[k]).key() == h;
            by_hash_at(t, k);
            if k != i {
                assert(s[k].key() == h);
                by_hash_at(s, k);
                assert(s[k].key() != s[i].key());
            }
        }
    }
}

/// Adding a blob under a hash that is not held adds its entry.
pub proof fn by_hash_push(s: Seq<Blob>, b: Blob)
    requires
        distinct(s),
        !holds(s, b.key()),
    ensures
        distinct(s.push(b)),
        by_hash(s.push(b)) == by_hash(s).insert(b.key(), b.value()),
{
    let t = s.push(b);
    assert(distinct(t)) by {
        assert forall|x: int, y: int| 0 <= x < y < t.len() implies (#[trigger] t[x]).key() != (
        #[trigger] t[y]).key() by {
            if y < s.len() {
                assert(s[x].key() != s[y].key());
            } else {
                assert(s[x].key() != b.key());
            }
        }
    }
    assert(by_hash(t) =~= by_hash(s).insert(b.key(), b.value())) by {
        assert forall|h: Seq<char>| by_hash(t).contains_key(h) <==> by_hash(s).insert(
            b.key(),
            b.value(),
        ).contains_key(h) by {
            if holds(t, h) {
                let k = choose|k: int| 0 <= k < t.len() && (#[trigger] t[k]).key() == h;
                if k < s.len() {
                    assert(s[k].key() == h);
                }
            }
            if holds(s, h) {
                let k = choose|k: int| 0 <= k < s.len() && (#[trigger] s[k]).key() == h;
                assert(t[k].key() == h);
            }
            if h == b.key() {
                assert(t[s.len() as int].key() == h);
            }
        }
        assert forall|h: Seq<char>| by_hash(t).contains_key(h) implies by_hash(t)[h] == by_hash(
            s,
        ).insert(b.key(), b.value())[h] by {
            let k = choose|k: int| 0 <= k < t.len() && (#[trigger] t[k]).key() == h;
            by_hash_at(t, k);
            if k < s.len() {
                assert(s[k].key() == h);
                by_hash_at(s, k);
            }
        }
    }
}

/// Taking a blob out of the list takes its entry out.
pub proof fn by_hash_remove(s: Seq<Blob>, i: int)
    requires
        distinct(s),
        0 <= i < s.len(),
    ensures
        distinct(s.remove(i)),
        by_hash(s.remove(i)) == by_hash(s).remove(s[i].key()),
{
    let t = s.remove(i);
    assert(distinct(t)) by {
        assert forall|x: int, y: int| 0 <= x < y < t.len() implies (#[trigger] t[x]).key() != (
        #[trigger] t[y]).key() by {
            let sx = if x < i { x } else { x + 1 };
            let sy = if y < i { y } else { y + 1 };
            assert(s[sx].key() != s[sy].key());
        }
    }
    assert(by_hash(t) =~= by_hash(s).remove(s[i].key())) by {
        assert forall|h: Seq<char>| by_hash(t).contains_key(h) <==> by_hash(s).remove(
            s[i].key(),
        ).contains_key(h) by {
            if holds(t, h) {
                let k = choose|k: int| 0 <= k < t.len() && (#[trigger] t[k]).key() == h;
                let sk = if k < i { k } else { k + 1 };
                assert(s[sk].key() == h);
                assert(s[sk].key() != s[i].key()) by {
                    if sk < i {
                        assert(s[sk].key() != s[i].key());
                    } else {
                        assert(s[i].key() != s[sk].key());
                    }
                }
            }
            if holds(s, h) && h != s[i].key() {
                let k = choose|k: int| 0 <= k < s.len() && (#[trigger] s[k]).key() == h;
                let tk = if k < i { k } else { k - 1 };
                assert(t[tk].key() == h);
            }
        }
        assert forall|h: Seq<char>| by_hash(t).contains_key(h) implies by_hash(t)[h] == by_hash(
            s,
        ).remove(s[i].key())[h] by {
            let k = choose|k: int| 0 <= k < t.len() && (#[trigger] t[k]).key() == h;
            by_hash_at(t, k);
            let sk = if k < i { k } else { k + 1 };
            assert(s[sk].key() == h);
            by_hash_at(s, sk);
        }
    }
}

/// The blob store.
#[derive(Debug)]
pub struct BlobStore {
    blobs: Vec<Blob>,
}

impl View for BlobStore {
    type V = Map<Seq<char>, BlobView>;

    closed spec fn view(&self) -> Map<Seq<char>, BlobView> {
        by_hash(self.blobs@)
    }
}

/// Every blob of a store is kept under the content address of its bytes.
pub open spec fn content_addressed(m: Map<Seq<char>, BlobView>) -> bool {
    forall|h: Seq<char>| m.contains_key(h) ==> h == content_hash(#[trigger] m[h].bytes)
}

/// The reference count under a hash; zero where nothing is kept.
pub open spec fn refs_of(m: Map<Seq<char>, BlobView>, h: Seq<char>) -> nat {
    if m.contains_key(h) {
        m[h].refs
    } else {
        0
    }
}

/// A store with one more reference to the payload: a new blob with one
/// reference where the hash was not kept, else the same bytes with one more.
pub open spec fn with_put(m: Map<Seq<char>, BlobView>, data: Seq<u8>) -> Map<Seq<char>, BlobView> {
    let h = content_hash(data);
    if m.contains_key(h) {
        m.insert(h, BlobView { bytes: m[h].bytes, refs: m[h].refs + 1 })
    } else {
        m.insert(h, BlobView { bytes: data, refs: 1 })
    }
}

/// A store with one more reference to a blob that it keeps.
pub open spec fn with_retain(m: Map<Seq<char>, BlobView>, h: Seq<char>) -> Map<Seq<char>, BlobView> {
    m.insert(h, BlobView { bytes: m[h].bytes, refs: m[h].refs + 1 })
}

/// A store with one reference less to a blob that it keeps.
pub open spec fn with_release(m: Map<Seq<char>, BlobView>, h: Seq<char>) -> Map<Seq<char>, BlobView> {
    m.insert(h, BlobView { bytes: m[h].bytes, refs: (m[h].refs - 1) as nat })
}

/// A store without the blobs that nothing references.
pub open spec fn swept(m: Map<Seq<char>, BlobView>) -> Map<Seq<char>, BlobView> {
    Map::new(|h: Seq<char>| m.contains_key(h) && m[h].refs > 0, |h: Seq<char>| m[h])
}

impl BlobStore {
    /// No hash is kept twice, every blob sits under the content address of
    /// its bytes, and every count fits 64 bits.
    pub closed spec fn wf(&self) -> bool {
        &&& distinct(self.blobs@)
        &&& forall|i: int|
            0 <= i < self.blobs@.len() ==> (#[trigger] self.blobs@[i]).key() == content_hash(
                self.blobs@[i].value().bytes,
            )
    }

    /// What well-formedness means for the view: the store is content
    /// addressed and no count exceeds 64 bits.
    pub proof fn wf_facts(&self)
        requires
            self.wf(),
        ensures
            content_addressed(self@),
            forall|h: Seq<char>| self@.contains_key(h) ==> (#[trigger] self@[h]).refs <= u64::MAX,
    {
        assert forall|h: Seq<char>| self@.contains_key(h) implies h == content_hash(
            #[trigger] self@[h].bytes,
        ) && self@[h].refs <= u64::MAX by {
            let k = choose|k: int| 0 <= k < self.blobs@.len() && (#[trigger] self.blobs@[k]).key() == h;
            by_hash_at(self.blobs@, k);
        }
    }

    /// An empty store.
    pub fn new() -> (r: BlobStore)
        ensures
            r.wf(),
            r@ == Map::<Seq<char>, BlobView>::empty(),
    {
        let r = BlobStore { blobs: Vec::new() };
        assert(r@ =~= Map::<Seq<char>, BlobView>::empty());
        r
    }

    /// Where the blob of a hash sits.
    fn find(&self, hash: &str) -> (r: Option<usize>)
        ensures
            match r {
                Some(i) => i < self.blobs@.len() && self.blobs@[i as int].key() == hash@,
                None => !holds(self.blobs@, hash@),
            },
    {
        let mut i: usize = 0;
        while i < self.blobs.len()
            invariant
                i <= self.blobs.len(),
                forall|j: int| 0 <= j < i ==> (#[trigger] self.blobs@[j]).key() != hash@,
            decreases self.blobs.len() - i,
        {
            if crate::text::same_text(self.blobs[i].hash.as_str(), hash) {
                return Some(i);
            }
            i += 1;
        }
        None
    }

    /// Stores a payload and gives its content address. Where a blob is
    /// already kept under that address no bytes are written and its count
    /// grows by one; else a new blob with one reference is kept. Fails, and
    /// changes nothing, only where the count cannot grow.
    pub fn put(&mut self, bytes: &[u8]) -> (r: Result<String, StorageError>)
        requires
            old(self).wf(),
        ensures
            final(self).wf(),
            match r {
                Ok(hash) => {
                    &&& hash@ == content_hash(bytes@)
                    &&& refs_of(old(self)@, hash@) < u64::MAX
                    &&& final(self)@ == with_put(old(self)@, bytes@)
                },
                Err(e) => {
                    &&& e == StorageError::TooManyReferences
                    &&& refs_of(old(self)@, content_hash(bytes@)) == u64::MAX
                    &&& final(self)@ == old(self)@
                },
            },
    {
        let hash = hash_of(bytes);
        self.store(hash, bytes)
    }

    /// Stores a payload whose content address is known already.
    pub(crate) fn store(&mut self, hash: String, bytes: &[u8]) -> (r: Result<String, StorageError>)
        requires
            old(self).wf(),
            hash@ == content_hash(bytes@),
        ensures
            final(self).wf(),
            match r {
                Ok(h) => {
                    &&& h@ == hash@
                    &&& refs_of(old(self)@, hash@) < u64::MAX
                    &&& final(self)@ == with_put(old(self)@, bytes@)
                },
                Err(e) => {
                    &&& e == StorageError::TooManyReferences
                    &&& refs_of(old(self)@, hash@) == u64::MAX
                    &&& final(self)@ == old(self)@
                },
            },
    {
        match self.find(hash.as_str()) {
            Some(i) => {
                proof {
                    by_hash_at(self.blobs@, i as int);
                }
                if self.blobs[i].refs == u64::MAX {
                    return Err(StorageError::TooManyReferences);
                }
                let ghost before = self.blobs@;
                self.bump(i, true);
                proof {
                    by_hash_update(before, i as int, self.blobs@[i as int]);
                    assert(self.blobs@ =~= before.update(i as int, self.blobs@[i as int]));
                }
                Ok(hash)
            },
            None => {
                let ghost before = self.blobs@;
                let blob = Blob { hash: hash.clone(), bytes: slice_to_vec(bytes), refs: 1 };
                proof {
                    by_hash_push(before, blob);
                }
                self.blobs.push(blob);
                Ok(hash)
            },
        }
    }

    /// Adds or takes one reference of the blob at a position.
    fn bump(&mut self, i: usize, up: bool)
        requires
            old(self).wf(),
            i < old(self).blobs@.len(),
            up ==> old(self).blobs@[i as int].value().refs < u64::MAX,
            !up ==> old(self).blobs@[i as int].value().refs > 0,
        ensures
            final(self).wf(),
            final(self).blobs@.len() == old(self).blobs@.len(),
            final(self).blobs@ == old(self).blobs@.update(i as int, final(self).blobs@[i as int]),
            final(self).blobs@[i as int].key() == old(self).blobs@[i as int].key(),
            final(self).blobs@[i as int].value().bytes == old(self).blobs@[i as int].value().bytes,
            final(self).blobs@[i as int].value().refs == old(self).blobs@[i as int].value().refs + (
            if up {
                1int
            } else {
                -1int
            }),
    {
        let ghost before = self.blobs@;
        let refs = self.blobs[i].refs;
        if up {
            self.blobs[i].refs = refs + 1;
        } else {
            self.blobs[i].refs = refs - 1;
        }
        proof {
            assert(self.blobs@ =~= before.update(i as int, self.blobs@[i as int]));
            by_hash_update(before, i as int, self.blobs@[i as int]);
        }
    }

    /// The bytes kept under a hash, whole and as they were stored: their
    /// content address is the hash. `NotFound` where none are kept.
    pub fn get(&self, hash: &str) -> (r: Result<Vec<u8>, StorageError>)
        requires
            self.wf(),
        ensures
            match r {
                Ok(bytes) => {
                    &&& self@.contains_key(hash@)
                    &&& bytes@ == self@[hash@].bytes
                    &&& hash@ == content_hash(bytes@)
                },
                Err(e) => e == StorageError::NotFound && !self@.contains_key(hash@),
            },
    {
        match self.find(hash) {
            Some(i) => {
                proof {
                    by_hash_at(self.blobs@, i as int);
                }
                Ok(slice_to_vec(self.blobs[i].bytes.as_slice()))
            },
            None => Err(StorageError::NotFound),
        }
    }

    /// Whether a blob is kept under a hash.
    pub fn contains(&self, hash: &str) -> (r: bool)
        requires
            self.wf(),
        ensures
            r == self@.contains_key(hash@),
    {
        self.find(hash).is_some()
    }

    /// The reference count under a hash; zero where nothing is kept.
    pub fn ref_count(&self, hash: &str) -> (r: u64)
        requires
            self.wf(),
        ensures
            r == refs_of(self@, hash@),
    {
        match self.find(hash) {
            Some(i) => {
                proof {
                    by_hash_at(self.blobs@, i as int);
                }
                self.blobs[i].refs
            },
            None => 0,
        }
    }

    /// How many blobs are kept, referenced or not.
    pub fn len(&self) -> (r: usize)
        requires
            self.wf(),
        ensures
            r == self@.dom().len(),
            self@.dom().finite(),
    {
        proof {
            dom_len(self.blobs@);
        }
        self.blobs.len()
    }

    /// Adds one reference to the blob under a hash. `NotFound` where none
    /// is kept, `TooManyReferences` where the count cannot grow; neither
    /// changes anything.
    pub fn retain(&mut self, hash: &str) -> (r: Result<(), StorageError>)
        requires
            old(self).wf(),
        ensures
            final(self).wf(),
            match r {
                Ok(_) => {
                    &&& old(self)@.contains_key(hash@)
                    &&& old(self)@[hash@].refs < u64::MAX
                    &&& final(self)@ == with_retain(old(self)@, hash@)
                },
                Err(StorageError::NotFound) => !old(self)@.contains_key(hash@) && final(self)@ == old(
                    self,
                )@,
                Err(StorageError::TooManyReferences) => old(self)@.contains_key(hash@) && old(
                    self,
                )@[hash@].refs == u64::MAX && final(self)@ == old(self)@,
            },
    {
        match self.find(hash) {
            Some(i) => {
                proof {
                    by_hash_at(self.blobs@, i as int);
                }
                if self.blobs[i].refs == u64::MAX {
                    return Err(StorageError::TooManyReferences);
                }
                let ghost before = self.blobs@;
                self.bump(i, true);
                proof {
                    by_hash_update(before, i as int, self.blobs@[i as int]);
                }
                Ok(())
            },
            None => Err(StorageError::NotFound),
        }
    }

    /// Takes one reference from the blob under a hash and gives the count
    /// that is left. The bytes stay until the next sweep, also at zero.
    /// `NotFound`, and no change, where no blob is kept under the hash or
    /// its count is zero already.
    pub fn release(&mut self, hash: &str) -> (r: Result<u64, StorageError>)
        requires
            old(self).wf(),
        ensures
            final(self).wf(),
            match r {
                Ok(left) => {
                    &&& refs_of(old(self)@, hash@) > 0
                    &&& left == refs_of(old(self)@, hash@) - 1
                    &&& final(self)@ == with_release(old(self)@, hash@)
                },
                Err(e) => {
                    &&& e == StorageError::NotFound
                    &&& refs_of(old(self)@, hash@) == 0
                    &&& final(self)@ == old(self)@
                },
            },
    {
        match self.find(hash) {
            Some(i) => {
                proof {
                    by_hash_at(self.blobs@, i as int);
                }
                if self.blobs[i].refs == 0 {
                    return Err(StorageError::NotFound);
                }
                let ghost before = self.blobs@;
                self.bump(i, false);
                proof {
                    by_hash_update(before, i as int, self.blobs@[i as int]);
                }
                Ok(self.blobs[i].refs)
            },
            None => Err(StorageError::NotFound),
        }
    }

    /// Erases every blob that nothing references and says how many went.
    /// Referenced blobs are untouched.
    pub fn sweep(&mut self) -> (r: usize)
        requires
            old(self).wf(),
        ensures
            final(self).wf(),
            final(self)@ == swept(old(self)@),
            old(self)@.dom().finite(),
            r == old(self)@.dom().len() - final(self)@.dom().len(),
    {
        let ghost start = self.blobs@;
        proof {
            dom_len(start);
            assert(start.len() == self.blobs.len());
        }
        let mut removed: usize = 0;
        let mut i: usize = 0;
        while i < self.blobs.len()
            invariant
                i <= self.blobs.len(),
                self.wf(),
                distinct(start),
                removed + self.blobs@.len() == start.len(),
                start.len() <= usize::MAX,
                forall|j: int| 0 <= j < i ==> (#[trigger] self.blobs@[j]).value().refs > 0,
                forall|h: Seq<char>| #[trigger]
                    by_hash(self.blobs@).contains_key(h) ==> by_hash(start).contains_key(h)
                        && by_hash(self.blobs@)[h] == by_hash(start)[h],
                forall|h: Seq<char>| #[trigger]
                    by_hash(start).contains_key(h) && by_hash(start)[h].refs > 0 ==> by_hash(
                        self.blobs@,
                    ).contains_key(h),
            decreases self.blobs.len() - i,
        {
            if self.blobs[i].refs == 0 {
                let ghost before = self.blobs@;
                proof {
                    by_hash_at(before, i as int);
                    by_hash_remove(before, i as int);
                }
                self.blobs.remove(i);
                removed += 1;
                proof {
                    assert(self.blobs@ == before.remove(i as int));
                    assert(by_hash(self.blobs@) == by_hash(before).remove(before[i as int].key()));
                    assert forall|h: Seq<char>| by_hash(self.blobs@).contains_key(h) implies by_hash(
                        start,
                    ).contains_key(h) && by_hash(self.blobs@)[h] == by_hash(start)[h] by {
                        assert(by_hash(before).contains_key(h));
                        assert(by_hash(self.blobs@)[h] == by_hash(before)[h]);
                    }
                    assert forall|h: Seq<char>|
                        by_hash(start).contains_key(h) && by_hash(start)[h].refs > 0 implies by_hash(
                            self.blobs@,
                        ).contains_key(h) by {
                        assert(by_hash(before).contains_key(h));
                        assert(by_hash(before)[h] == by_hash(start)[h]);
                        assert(h != before[i as int].key());
                    }
                    assert forall|j: int| 0 <= j < self.blobs@.len() implies (
                    #[trigger] self.blobs@[j]).key() == content_hash(
                        self.blobs@[j].value().bytes,
                    ) by {
                        let sj = if j < i { j } else { j + 1 };
                        assert(self.blobs@[j] == before[sj]);
                    }
                    assert forall|j: int| 0 <= j < i implies (#[trigger] self.blobs@[j]).value().refs
                        > 0 by {
                        assert(self.blobs@[j] == before[j]);
                    }
                }
            } else {
                i += 1;
            }
        }
        proof {
            dom_len(self.blobs@);
            assert(self@ =~= swept(by_hash(start))) by {
                assert forall|h: Seq<char>| self@.contains_key(h) implies by_hash(
                    start,
                ).contains_key(h) && by_hash(start)[h].refs > 0 by {
                    let k = choose|k: int|
                        0 <= k < self.blobs@.len() && (#[trigger] self.blobs@[k]).key() == h;
                    by_hash_at(self.blobs@, k);
                }
            }
        }
        removed
    }
}

/// A list of blobs with distinct hashes has as many entries as blobs.
pub proof fn dom_len(s: Seq<Blob>)
    requires
        distinct(s),
    ensures
        by_hash(s).dom().finite(),
        by_hash(s).dom().len() == s.len(),
    decreases s.len(),
{
    if s.len() == 0 {
        assert(by_hash(s).dom() =~= Set::<Seq<char>>::empty());
    } else {
        let last = (s.len() - 1) as int;
        let t = s.remove(last);
        by_hash_remove(s, last);
        by_hash_at(s, last);
        dom_len(t);
        assert(by_hash(s).dom() =~= by_hash(t).dom().insert(s[last].key()));
    }
}

} // verus!
