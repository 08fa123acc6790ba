use dirhash::algorithm::Algorithm;
use dirhash::fileset::{hash_file_set, FileInput, HashError};
use dirhash::report::render_report;
use dirhash::session::ReportEntry;

#[test]
fn report_has_header_lines_and_trailer() {
    let entries = vec![
        ReportEntry { path: String::from("a.txt"), digest: String::from("1111") },
        ReportEntry { path: String::from("b.txt"), digest: String::from("2222") },
    ];
    let text = render_report("sha256", "testdir", &entries, "ffff");
    assert_eq!(
        text,
        String::from(
            "hash algorithm: sha256\nbase: testdir\n----------\n- a.txt = 1111\n- b.txt = 2222\n----------\ncomplete hash = ffff\n"
        )
    );
}

#[test]
fn report_without_entries_is_header_and_trailer() {
    let entries: Vec<ReportEntry> = Vec::new();
    let text = render_report("md5", ".", &entries, "abcd");
    assert_eq!(
        text,
        String::from("hash algorithm: md5\nbase: .\n----------\n----------\ncomplete hash = abcd\n")
    );
}

#[test]
fn report_of_a_hashed_file_set_lists_files_in_sorted_order() {
    let files = vec![
        FileInput { path: String::from("b.txt"), content: b"world".to_vec() },
        FileInput { path: String::from("a.txt"), content: b"hello".to_vec() },
    ];
    let (aggregate, entries) = hash_file_set(Algorithm::Md5, files, true);
    let text = render_report("md5", "base", &entries, aggregate.as_str());
    let expected = format!(
        "hash algorithm: md5\nbase: base\n----------\n- a.txt = {}\n- b.txt = {}\n----------\ncomplete hash = {}\n",
        entries[0].digest, entries[1].digest, aggregate
    );
    assert_eq!(text, expected);
    assert!(text.contains("- a.txt = "));
}

#[test]
fn error_messages_name_the_offender() {
    assert_eq!(
        HashError::UnsupportedAlgorithm(String::from("whirlpool")).message(),
        String::from("whirlpool is not a available algorithm!")
    );
    assert_eq!(
        HashError::PathNotFound(String::from("./nope")).message(),
        String::from("path ./nope not found")
    );
    assert_eq!(
        HashError::IoError(String::from("./locked")).message(),
        String::from("./locked is not a valid path")
    );
}
