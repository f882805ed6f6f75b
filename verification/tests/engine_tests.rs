use hybridkv::engine::{KVEngine, MemoryEngine, TtlStatus};
use hybridkv::error::HkvError;

#[test]
fn set_get_delete_round_trip() {
    let mut engine = MemoryEngine::new();
    assert_eq!(engine.get(b"k", 0), None);
    engine.set(b"k".to_vec(), b"v".to_vec()).unwrap();
    assert_eq!(engine.get(b"k", 0), Some(b"v".to_vec()));
    engine.set(b"k".to_vec(), b"w".to_vec()).unwrap();
    assert_eq!(engine.get(b"k", 0), Some(b"w".to_vec()));
    assert!(engine.delete(b"k"));
    assert_eq!(engine.get(b"k", 0), None);
    assert!(!engine.delete(b"k"));
}

#[test]
fn oversized_keys_and_values_are_rejected() {
    let mut engine = MemoryEngine::new();
    assert_eq!(engine.set(vec![1u8; 256], b"v".to_vec()), Ok(()));
    assert_eq!(
        engine.set(vec![1u8; 257], b"v".to_vec()),
        Err(HkvError::KeyTooLong)
    );
    assert_eq!(engine.set(b"k".to_vec(), vec![2u8; 1024]), Ok(()));
    assert_eq!(
        engine.set(b"k2".to_vec(), vec![2u8; 1025]),
        Err(HkvError::ValueTooLong)
    );
    // The rejected set mutated nothing.
    assert_eq!(engine.get(b"k2", 0), None);
    assert_eq!(engine.get(b"k", 0), Some(vec![2u8; 1024]));
}

#[test]
fn expire_and_lazy_expiry() {
    let mut engine = MemoryEngine::new();
    engine.set(b"k".to_vec(), b"v".to_vec()).unwrap();
    assert_eq!(engine.ttl(b"k", 1_000), TtlStatus::NoExpiry);

    // Set a 5-second TTL at t=1000ms.
    assert_eq!(engine.expire(b"k", 5_000, 1_000), Ok(()));
    match engine.ttl(b"k", 2_000) {
        TtlStatus::ExpiresIn(ms) => assert_eq!(ms, 4_000),
        other => panic!("unexpected ttl {:?}", other),
    }

    // Still live one instant before the deadline, gone at the deadline,
    // with no sweep in between.
    assert_eq!(engine.get(b"k", 5_999), Some(b"v".to_vec()));
    assert_eq!(engine.get(b"k", 6_000), None);
    assert_eq!(engine.ttl(b"k", 6_000), TtlStatus::Missing);
}

#[test]
fn expire_missing_key_creates_nothing() {
    let mut engine = MemoryEngine::new();
    assert_eq!(engine.expire(b"ghost", 1_000, 0), Err(HkvError::NotFound));
    assert_eq!(engine.get(b"ghost", 0), None);
    assert_eq!(engine.ttl(b"ghost", 0), TtlStatus::Missing);
}

#[test]
fn sweep_removes_only_expired_entries() {
    let mut engine = MemoryEngine::new();
    engine.set(b"stays".to_vec(), b"1".to_vec()).unwrap();
    engine.set(b"goes".to_vec(), b"2".to_vec()).unwrap();
    engine.set(b"later".to_vec(), b"3".to_vec()).unwrap();
    engine.expire(b"goes", 1_000, 0).unwrap();
    engine.expire(b"later", 60_000, 0).unwrap();

    engine.sweep_expired(2_000);

    assert_eq!(engine.get(b"stays", 2_000), Some(b"1".to_vec()));
    assert_eq!(engine.get(b"goes", 2_000), None);
    assert_eq!(engine.get(b"later", 2_000), Some(b"3".to_vec()));
}

#[test]
fn binary_keys_and_values() {
    let mut engine = MemoryEngine::new();
    let key = vec![0u8, 13, 10, 255];
    let value = vec![255u8, 0, 13, 10];
    engine.set(key.clone(), value.clone()).unwrap();
    assert_eq!(engine.get(&key, 0), Some(value));
}
