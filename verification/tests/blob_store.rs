use objection::blob::{BlobStore, StorageError};
use objection::digest::{hash_of, to_hex};

const ABC: &str = "ba7816bf8f01cfea414140de5dae2223b00361a396177a9cb410ff61f20015ad";
const EMPTY: &str = "e3b0c44298fc1c149afbf4c8996fb92427ae41e4649b934ca495991b7852b855";

#[test]
fn bytes_are_written_as_lower_case_hex() {
    assert_eq!(to_hex(&[]), "");
    assert_eq!(to_hex(&[0x00, 0x0f, 0xa0, 0xff, 0x9a]), "000fa0ff9a");
}

#[test]
fn content_hash_is_the_sha256_digest_in_hex() {
    assert_eq!(hash_of(b"abc"), ABC);
    assert_eq!(hash_of(b""), EMPTY);
    assert_ne!(hash_of(b"abc"), hash_of(b"abd"));
}

#[test]
fn put_then_get_gives_the_bytes_back() {
    let mut s = BlobStore::new();
    assert_eq!(s.len(), 0);
    let h = s.put(b"abc").unwrap();
    assert_eq!(h, ABC);
    assert_eq!(s.get(&h).unwrap(), b"abc".to_vec());
    assert_eq!(s.ref_count(&h), 1);
    assert!(s.contains(&h));
    assert_eq!(s.len(), 1);
}

#[test]
fn put_of_known_content_only_counts() {
    let mut s = BlobStore::new();
    let a = s.put(b"payload").unwrap();
    let b = s.put(b"payload").unwrap();
    assert_eq!(a, b);
    assert_eq!(s.len(), 1);
    assert_eq!(s.ref_count(&a), 2);
    let other = s.put(b"another payload").unwrap();
    assert_ne!(a, other);
    assert_eq!(s.len(), 2);
    assert_eq!(s.ref_count(&other), 1);
    assert_eq!(s.ref_count(&a), 2);
}

#[test]
fn get_of_unknown_hash_is_not_found() {
    let mut s = BlobStore::new();
    s.put(b"abc").unwrap();
    assert_eq!(s.get(EMPTY), Err(StorageError::NotFound));
    assert_eq!(s.get("nonsense"), Err(StorageError::NotFound));
    assert_eq!(s.ref_count(EMPTY), 0);
    assert!(!s.contains(EMPTY));
}

#[test]
fn retain_and_release_move_the_count_by_one() {
    let mut s = BlobStore::new();
    let h = s.put(b"abc").unwrap();
    assert_eq!(s.retain(&h), Ok(()));
    assert_eq!(s.retain(&h), Ok(()));
    assert_eq!(s.ref_count(&h), 3);
    assert_eq!(s.release(&h), Ok(2));
    assert_eq!(s.release(&h), Ok(1));
    assert_eq!(s.release(&h), Ok(0));
    assert_eq!(s.ref_count(&h), 0);
    assert_eq!(s.release(&h), Err(StorageError::NotFound));
    assert_eq!(s.retain(EMPTY), Err(StorageError::NotFound));
    assert_eq!(s.release(EMPTY), Err(StorageError::NotFound));
}

#[test]
fn unreferenced_blob_stays_until_the_sweep() {
    let mut s = BlobStore::new();
    let gone = s.put(b"short lived").unwrap();
    let kept = s.put(b"long lived").unwrap();
    assert_eq!(s.release(&gone), Ok(0));
    assert_eq!(s.get(&gone).unwrap(), b"short lived".to_vec());
    assert_eq!(s.sweep(), 1);
    assert_eq!(s.get(&gone), Err(StorageError::NotFound));
    assert_eq!(s.get(&kept).unwrap(), b"long lived".to_vec());
    assert_eq!(s.len(), 1);
    assert_eq!(s.sweep(), 0);
}

#[test]
fn put_after_release_to_zero_recovers_the_blob() {
    let mut s = BlobStore::new();
    let h = s.put(b"abc").unwrap();
    assert_eq!(s.release(&h), Ok(0));
    assert_eq!(s.put(b"abc").unwrap(), h);
    assert_eq!(s.ref_count(&h), 1);
    assert_eq!(s.sweep(), 0);
    assert_eq!(s.get(&h).unwrap(), b"abc".to_vec());
}

#[test]
fn sweep_erases_every_unreferenced_blob() {
    let mut s = BlobStore::new();
    let hashes: Vec<String> =
        (0u8..6).map(|i| s.put(&[i, i, i]).unwrap()).collect();
    for h in hashes.iter().step_by(2) {
        assert_eq!(s.release(h), Ok(0));
    }
    assert_eq!(s.sweep(), 3);
    assert_eq!(s.len(), 3);
    for (i, h) in hashes.iter().enumerate() {
        assert_eq!(s.contains(h), i % 2 == 1);
    }
}
