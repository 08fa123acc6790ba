use dirhash::algorithm::{
    algorithm_available, available_algorithms, get_algorithm, get_algorithm_by_hash_len,
    get_all_algorithms, Algorithm,
};

#[test]
fn resolve_known_lengths() {
    assert_eq!(get_algorithm_by_hash_len(32), Some(String::from("md5")));
    assert_eq!(get_algorithm_by_hash_len(40), Some(String::from("sha1")));
    assert_eq!(get_algorithm_by_hash_len(64), Some(String::from("sha256")));
    assert_eq!(get_algorithm_by_hash_len(96), Some(String::from("sha384")));
    assert_eq!(get_algorithm_by_hash_len(128), Some(String::from("sha512")));
}

#[test]
fn resolve_unknown_lengths() {
    for len in [0usize, 1, 17, 31, 33, 39, 41, 63, 65, 95, 97, 127, 129, 1000] {
        assert_eq!(get_algorithm_by_hash_len(len), None);
    }
}

#[test]
fn resolve_from_digest_text() {
    assert_eq!(
        get_algorithm(String::from("5eb63bbbe01eeed093cb22bb8f5acdc3")),
        Some(String::from("md5"))
    );
    assert_eq!(get_algorithm(String::from("abcdef")), None);
}

#[test]
fn supported_list_is_fixed() {
    assert_eq!(
        available_algorithms(),
        ["md5", "sha1", "sha256", "sha384", "sha512"]
    );
    let names = get_all_algorithms();
    assert_eq!(
        names,
        vec![
            String::from("md5"),
            String::from("sha1"),
            String::from("sha256"),
            String::from("sha384"),
            String::from("sha512"),
        ]
    );
}

#[test]
fn validate_round_trip_with_supported_list() {
    for name in get_all_algorithms() {
        assert!(algorithm_available(name.clone()));
        let validated = Algorithm::from_name(name.as_str()).unwrap();
        assert!(get_all_algorithms().contains(&String::from(validated.name())));
    }
}

#[test]
fn validate_rejects_unknown_names() {
    assert!(!algorithm_available(String::from("sha284")));
    assert!(!algorithm_available(String::from("SHA256")));
    assert!(!algorithm_available(String::from("")));
    assert!(!algorithm_available(String::from("md-5")));
    assert!(algorithm_available(String::from("sha256")));
}

#[test]
fn every_algorithm_resolves_from_its_own_length() {
    for alg in Algorithm::all() {
        assert_eq!(Algorithm::from_hex_len(alg.hex_len()), Some(alg));
        assert_eq!(Algorithm::from_name(alg.name()), Some(alg));
    }
}
