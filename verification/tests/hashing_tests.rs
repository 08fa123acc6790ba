use digest::Digest;

use dirhash::algorithm::Algorithm;
use dirhash::fileset::{hash, hash_file_set, FileInput, HashError};
use dirhash::hex::byte_to_hex;
use dirhash::session::{digests_equal, hash_bytes, hash_chunks, HashSession};

fn hex_direct(bytes: &[u8]) -> String {
    let mut out = String::new();
    for b in bytes {
        out.push_str(&format!("{:02x}", b));
    }
    out
}

#[test]
fn byte_to_hex_pads_each_byte() {
    assert_eq!(byte_to_hex(&[240, 159, 146, 32]), String::from("f09f9220"));
    assert_eq!(byte_to_hex(&[1]), String::from("01"));
    assert_eq!(byte_to_hex(&[0, 255]), String::from("00ff"));
    assert_eq!(byte_to_hex(&[]), String::from(""));
}

#[test]
fn empty_input_digests_are_the_well_known_ones() {
    assert_eq!(
        hash_bytes(Algorithm::Md5, b""),
        String::from("d41d8cd98f00b204e9800998ecf8427e")
    );
    assert_eq!(
        hash_bytes(Algorithm::Sha256, b""),
        String::from("e3b0c44298fc1c149afbf4c8996fb92427ae41e4649b934ca495991b7852b855")
    );
    assert_eq!(hash_bytes(Algorithm::Md5, b""), hex_direct(&md5::Md5::digest(b"")));
    assert_eq!(hash_bytes(Algorithm::Sha1, b""), hex_direct(&sha1::Sha1::digest(b"")));
    assert_eq!(
        hash_bytes(Algorithm::Sha256, b""),
        hex_direct(&sha2::Sha256::digest(b""))
    );
    assert_eq!(
        hash_bytes(Algorithm::Sha384, b""),
        hex_direct(&sha2::Sha384::digest(b""))
    );
    assert_eq!(
        hash_bytes(Algorithm::Sha512, b""),
        hex_direct(&sha2::Sha512::digest(b""))
    );
}

#[test]
fn digests_match_the_reference_implementations() {
    let data = b"The quick brown fox jumps over the lazy dog";
    assert_eq!(hash_bytes(Algorithm::Md5, data), hex_direct(&md5::Md5::digest(data)));
    assert_eq!(hash_bytes(Algorithm::Sha1, data), hex_direct(&sha1::Sha1::digest(data)));
    assert_eq!(
        hash_bytes(Algorithm::Sha256, data),
        hex_direct(&sha2::Sha256::digest(data))
    );
    assert_eq!(
        hash_bytes(Algorithm::Sha384, data),
        hex_direct(&sha2::Sha384::digest(data))
    );
    assert_eq!(
        hash_bytes(Algorithm::Sha512, data),
        hex_direct(&sha2::Sha512::digest(data))
    );
}

#[test]
fn hello_world_md5_matches_supplied_digest() {
    let computed = hash_bytes(Algorithm::Md5, b"hello world");
    assert_eq!(computed, String::from("5eb63bbbe01eeed093cb22bb8f5acdc3"));
    assert!(digests_equal(
        computed.as_str(),
        "5eb63bbbe01eeed093cb22bb8f5acdc3"
    ));
    assert!(!digests_equal(
        computed.as_str(),
        "5eb63bbbe01eeed093cb22bb8f5acdc4"
    ));
    assert!(!digests_equal(
        computed.as_str(),
        "6eb63bbbe01eeed093cb22bb8f5acdc3"
    ));
}

#[test]
fn chunking_does_not_change_the_digest() {
    let whole = hash_bytes(Algorithm::Sha256, b"hello world");
    let halves = hash_chunks(
        Algorithm::Sha256,
        &vec![b"hello ".to_vec(), b"world".to_vec()],
    );
    let uneven = hash_chunks(
        Algorithm::Sha256,
        &vec![b"h".to_vec(), b"".to_vec(), b"ello wor".to_vec(), b"ld".to_vec()],
    );
    let single_bytes = hash_chunks(
        Algorithm::Sha256,
        &b"hello world".iter().map(|b| vec![*b]).collect(),
    );
    assert_eq!(whole, halves);
    assert_eq!(whole, uneven);
    assert_eq!(whole, single_bytes);
}

#[test]
fn streaming_session_equals_one_shot() {
    let session = HashSession::new(Algorithm::Sha256, true);
    let session = session.begin_file();
    let session = session.update(b"hel");
    let session = session.update(b"lo");
    let session = session.end_file("greeting.txt");
    let (aggregate, entries) = session.finish();
    assert_eq!(aggregate, hash_bytes(Algorithm::Sha256, b"hello"));
    assert_eq!(entries.len(), 1);
    assert_eq!(entries[0].path, String::from("greeting.txt"));
    assert_eq!(entries[0].digest, hash_bytes(Algorithm::Sha256, b"hello"));
}

#[test]
fn two_file_directory_reports_per_file_and_aggregate() {
    let files = vec![
        FileInput { path: String::from("b.txt"), content: b"world".to_vec() },
        FileInput { path: String::from("a.txt"), content: b"hello".to_vec() },
    ];
    let (aggregate, entries) = hash_file_set(Algorithm::Sha256, files, true);
    assert_eq!(aggregate, hex_direct(&sha2::Sha256::digest(b"helloworld")));
    assert_eq!(entries.len(), 2);
    assert_eq!(entries[0].path, String::from("a.txt"));
    assert_eq!(entries[0].digest, hex_direct(&sha2::Sha256::digest(b"hello")));
    assert_eq!(entries[1].path, String::from("b.txt"));
    assert_eq!(entries[1].digest, hex_direct(&sha2::Sha256::digest(b"world")));
}

#[test]
fn aggregate_ignores_enumeration_order() {
    let one_order = vec![
        FileInput { path: String::from("a.txt"), content: b"hello".to_vec() },
        FileInput { path: String::from("b.txt"), content: b"world".to_vec() },
        FileInput { path: String::from("sub/c.txt"), content: b"!".to_vec() },
    ];
    let other_order = vec![
        FileInput { path: String::from("sub/c.txt"), content: b"!".to_vec() },
        FileInput { path: String::from("b.txt"), content: b"world".to_vec() },
        FileInput { path: String::from("a.txt"), content: b"hello".to_vec() },
    ];
    let (first, _) = hash_file_set(Algorithm::Sha512, one_order, false);
    let (second, _) = hash_file_set(Algorithm::Sha512, other_order, false);
    assert_eq!(first, second);
}

#[test]
fn aggregate_is_sensitive_to_content() {
    let files = vec![FileInput { path: String::from("a.txt"), content: b"hello".to_vec() }];
    let changed = vec![FileInput { path: String::from("a.txt"), content: b"hellO".to_vec() }];
    let (first, _) = hash_file_set(Algorithm::Sha256, files, false);
    let (second, _) = hash_file_set(Algorithm::Sha256, changed, false);
    assert_ne!(first, second);
}

#[test]
fn empty_file_set_yields_the_empty_input_digest() {
    let (aggregate, entries) = hash_file_set(Algorithm::Md5, Vec::new(), true);
    assert_eq!(aggregate, String::from("d41d8cd98f00b204e9800998ecf8427e"));
    assert!(entries.is_empty());
}

#[test]
fn empty_files_participate_without_contributing_bytes() {
    let files = vec![
        FileInput { path: String::from("empty.txt"), content: Vec::new() },
        FileInput { path: String::from("full.txt"), content: b"data".to_vec() },
    ];
    let (aggregate, entries) = hash_file_set(Algorithm::Sha1, files, true);
    assert_eq!(aggregate, hex_direct(&sha1::Sha1::digest(b"data")));
    assert_eq!(entries.len(), 2);
    assert_eq!(entries[0].path, String::from("empty.txt"));
    assert_eq!(entries[0].digest, hex_direct(&sha1::Sha1::digest(b"")));
}

#[test]
fn hash_rejects_unsupported_algorithm_names() {
    let files = vec![FileInput { path: String::from("a"), content: b"x".to_vec() }];
    match hash("sha284", files, false) {
        Err(HashError::UnsupportedAlgorithm(name)) => {
            assert_eq!(name, String::from("sha284"));
            assert_eq!(
                HashError::UnsupportedAlgorithm(name).message(),
                String::from("sha284 is not a available algorithm!")
            );
        }
        _ => panic!("an unsupported name must be rejected"),
    }
}

#[test]
fn hash_accepts_supported_algorithm_names() {
    let files = vec![FileInput { path: String::from("a"), content: b"x".to_vec() }];
    let outcome = hash("sha256", files, false).unwrap();
    assert_eq!(outcome.aggregate, hex_direct(&sha2::Sha256::digest(b"x")));
    assert!(outcome.entries.is_empty());
}
