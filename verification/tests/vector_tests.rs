use a16::vector::embed::{hash_to_bucket, tokenize_text, BagOfWordsEmbedder};

#[test]
fn tokenize_lowercases_and_drops_short_tokens() {
    assert_eq!(tokenize_text("Hello, World! a b"), vec!["hello".to_string(), "world".to_string()]);
    assert_eq!(tokenize_text(""), Vec::<String>::new());
    assert_eq!(tokenize_text("x-ray, 42 is ok"), vec!["ray".to_string(), "42".to_string(), "is".to_string(), "ok".to_string()]);
}

#[test]
fn hash_buckets_are_djb2_modulo_dim() {
    assert_eq!(hash_to_bucket("hello", 16), 9);
    assert_eq!(hash_to_bucket("world", 16), 13);
    assert_eq!(hash_to_bucket("hello", 8), 1);
    assert_eq!(hash_to_bucket("a", 8), 6);
    let e = BagOfWordsEmbedder::new(16);
    assert_eq!(e.dim(), 16);
    assert_eq!(e.hash_token("world"), 13);
    assert_eq!(e.tokenize("Hello world"), vec!["hello".to_string(), "world".to_string()]);
}

#[test]
fn bucket_counts_count_tokens_per_bucket() {
    let e = BagOfWordsEmbedder::new(16);
    let c = e.bucket_counts("hello world hello");
    assert_eq!(c.len(), 16);
    assert_eq!(c[9], 2);
    assert_eq!(c[13], 1);
    assert_eq!(c.iter().sum::<usize>(), 3);
    let empty = BagOfWordsEmbedder::new(8).bucket_counts("");
    assert_eq!(empty, vec![0usize; 8]);
}

use a16::vector::index_file::{decode_index, encode_index, IndexFileError};

#[test]
fn index_file_layout() {
    let bytes = encode_index(2, &[vec![1, 0x0102_0304]], &[Some("doc".to_string())]);
    assert_eq!(
        bytes,
        vec![
            b'A', b'1', b'6', b'V', 1, 0, 0, 0, 2, 0, 0, 0, 1, 0, 0, 0, 1, 0, 0, 0, 4, 3, 2, 1, 3, 0, 0, 0, b'd',
            b'o', b'c'
        ]
    );
}

#[test]
fn index_file_single_entry_roundtrip() {
    let v = vec![1.5f32.to_bits(), (-2.0f32).to_bits(), 0];
    let bytes = encode_index(3, &[v.clone()], &[Some("key".to_string())]);
    let (dim, vectors, keys) = decode_index(&bytes).unwrap();
    assert_eq!(dim, 3);
    assert_eq!(vectors, vec![v.clone()]);
    assert_eq!(keys, vec![Some("key".to_string())]);
    let bytes = encode_index(3, &[v.clone()], &[None]);
    assert_eq!(decode_index(&bytes).unwrap().2, vec![None]);
    let empty = encode_index(5, &[], &[]);
    assert_eq!(decode_index(&empty).unwrap(), (5, vec![], vec![]));
}

#[test]
fn index_file_errors() {
    assert_eq!(decode_index(b"A16"), Err(IndexFileError::Truncated));
    assert_eq!(decode_index(b"XXXX\x01\x00\x00\x00"), Err(IndexFileError::BadMagic));
    assert_eq!(decode_index(b"A16V\x01\x00\x00\x00"), Err(IndexFileError::Truncated));
    let mut bytes = encode_index(2, &[vec![1, 2]], &[Some("abc".to_string())]);
    bytes.pop();
    assert_eq!(decode_index(&bytes), Err(IndexFileError::Truncated));
}

#[test]
fn index_file_multiple_entries_roundtrip() {
    // All vectors are written, then all keys; reading takes the same layout.
    let vs = vec![vec![7, 70], vec![8, 80], vec![9, 90]];
    let ks = vec![None, Some("eight".to_string()), Some("nine".to_string())];
    let bytes = encode_index(2, &vs, &ks);
    assert_eq!(decode_index(&bytes).unwrap(), (2, vs, ks));
    // An empty key is written with length 0 and reads back as none.
    let bytes = encode_index(1, &[vec![7], vec![8]], &[Some(String::new()), None]);
    assert_eq!(decode_index(&bytes).unwrap(), (1, vec![vec![7], vec![8]], vec![None, None]));
}
