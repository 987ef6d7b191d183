use hypertide::digest::{hash_bytes, hash_text};
use hypertide::manifest::{
    manifest_response, merkle_root, missing_chunks, missing_chunks_message, prepare_chunks, ManifestChunk,
};

fn chunk(i: u32, hash: &str, size: u64) -> ManifestChunk {
    ManifestChunk { i, chunk_hash: hash.to_string(), size }
}

#[test]
fn merkle_root_of_nothing_hashes_nothing() {
    assert_eq!(merkle_root(&vec![]), hash_bytes(b""));
}

#[test]
fn merkle_root_of_one_chunk_is_its_leaf() {
    assert_eq!(merkle_root(&vec![chunk(0, "h0", 10)]), hash_text("0:h0:10"));
}

#[test]
fn merkle_root_pairs_leaves_and_repeats_a_lone_one() {
    let l0 = hash_text("0:a:1");
    let l1 = hash_text("1:b:2");
    let l2 = hash_text("2:c:3");
    let two = merkle_root(&vec![chunk(0, "a", 1), chunk(1, "b", 2)]);
    assert_eq!(two, hash_text(&format!("{l0}{l1}")));
    let three = merkle_root(&vec![chunk(0, "a", 1), chunk(1, "b", 2), chunk(2, "c", 3)]);
    let p01 = hash_text(&format!("{l0}{l1}"));
    let p22 = hash_text(&format!("{l2}{l2}"));
    assert_eq!(three, hash_text(&format!("{p01}{p22}")));
}

#[test]
fn chunk_lists_are_checked_and_sorted() {
    assert_eq!(prepare_chunks(vec![], "fixed").unwrap_err(), "chunks must not be empty");
    assert_eq!(prepare_chunks(vec![chunk(0, "a", 1)], "  ").unwrap_err(), "chunk_size_policy is required");
    assert_eq!(
        prepare_chunks(vec![chunk(1, "a", 1), chunk(0, "b", 1), chunk(1, "c", 1)], "fixed").unwrap_err(),
        "duplicate chunk index is not allowed"
    );
    let sorted = prepare_chunks(vec![chunk(2, "c", 1), chunk(0, "a", 1), chunk(1, "b", 1)], "fixed-4m").expect("ok");
    let order: Vec<u32> = sorted.iter().map(|c| c.i).collect();
    assert_eq!(order, vec![0, 1, 2]);
    assert_eq!(sorted[0].chunk_hash, "a");
}

#[test]
fn missing_chunks_are_listed_in_order() {
    let chunks = vec![chunk(0, "a", 1), chunk(1, "b", 1), chunk(2, "c", 1)];
    let missing = missing_chunks(&chunks, &vec!["b".to_string()]);
    assert_eq!(missing, vec!["a", "c"]);
    assert_eq!(missing_chunks_message(&missing), "manifest references missing chunks: a,c");
    assert!(missing_chunks(&chunks, &vec!["a".to_string(), "b".to_string(), "c".to_string()]).is_empty());
}

#[test]
fn manifest_answer_hashes_its_canonical_form() {
    let chunks = vec![chunk(0, "a", 1)];
    let answer = manifest_response(b"{\"version\":1}", &chunks, true);
    assert_eq!(answer.manifest_hash, hash_bytes(b"{\"version\":1}"));
    assert_eq!(answer.merkle_root, hash_text("0:a:1"));
    assert_eq!(answer.chunk_count, 1);
    assert!(answer.created);
}
