use oncall_agent_rs::sparse::generate_sparse_vector;

fn get(sparse: &[(i64, u64)], key: i64) -> Option<u64> {
    sparse.iter().find(|(k, _)| *k == key).map(|(_, v)| *v)
}

#[test]
fn sparse_vector_matches_java_character_hashing() {
    let sparse = generate_sparse_vector("Aa 中");

    assert_eq!(get(&sparse, 97), Some(2));
    assert_eq!(get(&sparse, 20013), Some(1));
    assert_eq!(sparse.len(), 2);
}

#[test]
fn blank_text_has_no_keys() {
    assert!(generate_sparse_vector(" \t\n").is_empty());
}

#[test]
fn keys_ascend_and_surrogate_pairs_hash_like_java() {
    // U+1F600: high surrogate 0xD83D, low 0xDE00 -> 31 * 55357 + 56832 = 1772899.
    let sparse = generate_sparse_vector("😀ba");
    assert_eq!(sparse, vec![(97, 1), (98, 1), (772899, 1)]);
}
