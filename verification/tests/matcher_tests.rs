use dirhash::matcher::{edit_distance, get_best_match, suggest};

#[test]
fn prefix_match_wins_with_distance_zero() {
    let candidates = vec![String::from("abcdef")];
    assert_eq!(suggest("abc", &candidates), Some(String::from("abcdef")));
}

#[test]
fn short_input_accepts_only_exact_distance_zero() {
    let candidates = vec![String::from("abc")];
    assert_eq!(suggest("xyz", &candidates), None);
    assert_eq!(suggest("abc", &candidates), Some(String::from("abc")));
}

#[test]
fn no_candidates_means_no_suggestion() {
    let candidates: Vec<String> = Vec::new();
    assert_eq!(suggest("anything", &candidates), None);
}

#[test]
fn closest_candidate_within_threshold_is_suggested() {
    let candidates = vec![
        String::from("zzzdefghij"),
        String::from("zbcdefghij"),
        String::from("completely-different"),
    ];
    // The input has ten characters, so the acceptance threshold is two.
    assert_eq!(suggest("abcdefghij", &candidates), Some(String::from("zbcdefghij")));
}

#[test]
fn too_distant_candidates_are_discarded() {
    let candidates = vec![String::from("zzzdefghij")];
    assert_eq!(suggest("abcdefghij", &candidates), None);
}

#[test]
fn ties_go_to_the_first_candidate() {
    let candidates = vec![String::from("abc"), String::from("abd")];
    assert_eq!(suggest("ab", &candidates), Some(String::from("abc")));
}

#[test]
fn best_match_distances() {
    assert_eq!(get_best_match(String::from("Hello"), String::from("World")), 4);
    assert_eq!(get_best_match(String::from("aaa"), String::from("bbb")), 3);
    assert_eq!(get_best_match(String::from("Hello World"), String::from("Hello")), 0);
}

#[test]
fn edit_distance_classics() {
    assert_eq!(edit_distance("kitten", "sitting"), 3);
    assert_eq!(edit_distance("", "abc"), 3);
    assert_eq!(edit_distance("abc", ""), 3);
    assert_eq!(edit_distance("", ""), 0);
    assert_eq!(edit_distance("same", "same"), 0);
    assert_eq!(edit_distance("flaw", "lawn"), 2);
}
