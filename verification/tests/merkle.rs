use merkle_root::merkle_tree;
use merkle_root::MerkleError;
use sha2::Digest;
use sha2::Sha256;

/// An independent rendering of the hash primitive, used to state expected
/// roots without going through the library.
fn sha256_hex(data: &str) -> String {
    let mut hasher = Sha256::new();
    hasher.update(data.as_bytes());
    format!("{:x}", hasher.finalize())
}

fn combine(left: &str, right: &str) -> String {
    sha256_hex(&format!("{}{}", left, right))
}

#[test]
fn determinism_repeated_calls() {
    let first = merkle_tree(vec!["x", "y", "z"]);
    let second = merkle_tree(vec!["x", "y", "z"]);
    assert_eq!(first, second);
}

#[test]
fn single_leaf_root_is_leaf_hash() {
    assert_eq!(merkle_tree(vec!["a"]), Ok(sha256_hex("a")));
}

#[test]
fn single_leaf_root_pinned() {
    assert_eq!(
        merkle_tree(vec!["a"]),
        Ok("ca978112ca1bbdcafac231b39a23dc4da786eff8147c4e72b9807785afee48bb".to_string())
    );
}

#[test]
fn two_leaves_root_combines_in_order() {
    let expected = combine(&sha256_hex("a"), &sha256_hex("b"));
    assert_eq!(merkle_tree(vec!["a", "b"]), Ok(expected));
}

#[test]
fn three_leaves_duplicate_last() {
    let left = combine(&sha256_hex("a"), &sha256_hex("b"));
    let right = combine(&sha256_hex("c"), &sha256_hex("c"));
    let expected = combine(&left, &right);
    assert_eq!(merkle_tree(vec!["a", "b", "c"]), Ok(expected));
}

#[test]
fn five_leaves_pad_at_upper_level_too() {
    let pair_ab = combine(&sha256_hex("a"), &sha256_hex("b"));
    let pair_cd = combine(&sha256_hex("c"), &sha256_hex("d"));
    let pair_ee = combine(&sha256_hex("e"), &sha256_hex("e"));
    let upper_left = combine(&pair_ab, &pair_cd);
    let upper_right = combine(&pair_ee, &pair_ee);
    let expected = combine(&upper_left, &upper_right);
    assert_eq!(merkle_tree(vec!["a", "b", "c", "d", "e"]), Ok(expected));
}

#[test]
fn order_sensitivity() {
    let forward = merkle_tree(vec!["a", "b"]).unwrap();
    let backward = merkle_tree(vec!["b", "a"]).unwrap();
    assert_ne!(forward, backward);
}

#[test]
fn empty_input_fails() {
    assert_eq!(merkle_tree(vec![]), Err(MerkleError::EmptyInput));
}

#[test]
fn duplicate_leaves_hashed_independently() {
    let expected = combine(&sha256_hex("a"), &sha256_hex("a"));
    assert_eq!(merkle_tree(vec!["a", "a"]), Ok(expected));
}

#[test]
fn empty_string_leaf_is_hashed() {
    assert_eq!(
        merkle_tree(vec![""]),
        Ok("e3b0c44298fc1c149afbf4c8996fb92427ae41e4649b934ca495991b7852b855".to_string())
    );
}

#[test]
fn reference_vector_eight_leaves() {
    let leaves = vec![
        "data1", "data2", "data3", "data4", "data5", "data6", "data7", "data8",
    ];
    assert_eq!(
        merkle_tree(leaves),
        Ok("a977d1fd7936b28b9520d3266b2ebc9f68b0f66b676621f9a688c9666c0ef496".to_string())
    );
}
