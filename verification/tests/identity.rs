use hc_turn_based_game::identity::{
    bytes_equal, duplicate_bytes, duplicate_keys, duplicate_optional_hash, AgentKey, RecordHash,
};

#[test]
fn equal_bytes_are_equal() {
    assert!(bytes_equal(&vec![1, 2, 3], &vec![1, 2, 3]));
    assert!(bytes_equal(&vec![], &vec![]));
}

#[test]
fn bytes_that_differ_are_not_equal() {
    assert!(!bytes_equal(&vec![1, 2, 3], &vec![1, 2, 4]));
    assert!(!bytes_equal(&vec![1, 2, 3], &vec![1, 2]));
    assert!(!bytes_equal(&vec![], &vec![0]));
}

#[test]
fn keys_are_the_same_when_their_bytes_are() {
    let key = AgentKey::new(vec![5; 39]);
    assert!(key.same_as(&AgentKey::new(vec![5; 39])));
    assert!(!key.same_as(&AgentKey::new(vec![6; 39])));
    assert_eq!(key.duplicate(), key);
}

#[test]
fn hashes_are_the_same_when_their_bytes_are() {
    let hash = RecordHash::new(vec![1, 2, 3]);
    assert!(hash.same_as(&RecordHash::new(vec![1, 2, 3])));
    assert!(!hash.same_as(&RecordHash::new(vec![3, 2, 1])));
    assert_eq!(hash.duplicate(), hash);
}

#[test]
fn copies_hold_the_same_bytes() {
    let keys = vec![AgentKey::new(vec![1]), AgentKey::new(vec![2, 2])];
    assert_eq!(duplicate_keys(&keys), keys);
    assert_eq!(duplicate_bytes(&vec![9, 8, 7]), vec![9, 8, 7]);
    let hash = Some(RecordHash::new(vec![4]));
    assert_eq!(duplicate_optional_hash(&hash), hash);
    assert_eq!(duplicate_optional_hash(&None), None);
}
