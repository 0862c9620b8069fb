use mpq_cli::listing::{
    archive_entry_name, extraction_path, extraction_path_from, extraction_targets, filter_names, find_entry_index,
    list_selection, long_listing, validation_outcome, EntryCheck, EntryInfo, ValidationOutcome,
};
use mpq_cli::pattern::matches_pattern;

fn names(v: &[&str]) -> Vec<String> {
    v.iter().map(|s| s.to_string()).collect()
}

#[test]
fn wildcard_patterns() {
    assert!(matches_pattern("anything\\at\\all", "*"));
    assert!(matches_pattern("", "*"));
    assert!(matches_pattern("Textures\\a.blp", "*.blp"));
    assert!(!matches_pattern("Textures\\a.blp2", "*.blp"));
    assert!(matches_pattern("a.m2", "?.m2"));
    assert!(!matches_pattern("ab.m2", "?.m2"));
    assert!(matches_pattern("abc", "a*c"));
    assert!(matches_pattern("ac", "a*c"));
    assert!(!matches_pattern("abd", "a*c"));
    assert!(matches_pattern("exact", "exact"));
    assert!(!matches_pattern("Exact", "exact"));
    assert!(matches_pattern("x*y", "x*y"));
    assert!(!matches_pattern("", "?"));
    assert!(matches_pattern("a\\b\\c.txt", "*\\*\\*.txt"));
}

#[test]
fn filter_keeps_order_of_matching_names() {
    let files = names(&["b.blp", "a.m2", "c.blp"]);
    assert_eq!(filter_names(&files, &Some("*.blp".to_string())), names(&["b.blp", "c.blp"]));
    assert_eq!(filter_names(&files, &None), files);
    assert!(filter_names(&files, &Some("*.wav".to_string())).is_empty());
}

#[test]
fn listing_is_sorted_by_code_point() {
    let files = names(&["b", "a", "C", "a", "ab", "\u{e9}", ""]);
    assert_eq!(list_selection(&files, &None), names(&["", "C", "a", "a", "ab", "b", "\u{e9}"]));
    let files = names(&["Sound\\b.wav", "Sound\\a.wav", "Interface\\x.lua"]);
    assert_eq!(
        list_selection(&files, &Some("Sound*".to_string())),
        names(&["Sound\\a.wav", "Sound\\b.wav"])
    );
}

fn entry(name: &str, size: u64, compressed: u64) -> EntryInfo {
    EntryInfo { name: name.to_string(), size, compressed_size: compressed }
}

#[test]
fn long_listing_uses_first_matching_entry() {
    let entries = vec![entry("a", 10, 5), entry("b", 20, 20), entry("a", 99, 99)];
    assert_eq!(find_entry_index(&entries, "a"), Some(0));
    assert_eq!(find_entry_index(&entries, "b"), Some(1));
    assert_eq!(find_entry_index(&entries, "z"), None);
    let listed = names(&["a", "z", "b"]);
    assert_eq!(long_listing(&listed, &entries), vec![0, 1]);
}

#[test]
fn extraction_targets_default_to_all() {
    let all = names(&["x", "y"]);
    assert_eq!(extraction_targets(vec![], all.clone()), all);
    assert_eq!(extraction_targets(names(&["y"]), all), names(&["y"]));
}

#[test]
fn extraction_paths_on_unix() {
    assert_eq!(extraction_path("Data\\Sub\\file.txt", true), "Data/Sub/file.txt");
    assert_eq!(extraction_path("Data\\Sub\\file.txt", false), "file.txt");
    assert_eq!(extraction_path("file.txt", false), "file.txt");
    assert_eq!(extraction_path("Data\\..", false), "");
    assert_eq!(extraction_path("Data/Sub/a.txt", false), "a.txt");
    assert_eq!(extraction_path("Data/Sub/a.txt", true), "Data/Sub/a.txt");
    assert_eq!(extraction_path("Data\\Sub/a.txt", false), "a.txt");
    assert_eq!(extraction_path("Data\\", false), "Data");
    assert_eq!(extraction_path("\\\\srv\\x.txt", false), "x.txt");
}

#[test]
fn extraction_paths_from_system_form() {
    assert_eq!(extraction_path_from("Data/Sub/a.txt", true), "Data/Sub/a.txt");
    assert_eq!(extraction_path_from("Data/Sub/a.txt", false), "a.txt");
    assert_eq!(extraction_path_from("a.txt", false), "a.txt");
    assert_eq!(extraction_path_from("/", false), "");
}

#[test]
fn archive_entry_names_are_final_components() {
    assert_eq!(archive_entry_name("/tmp/dir/foo.txt"), "foo.txt");
    assert_eq!(archive_entry_name("foo.txt"), "foo.txt");
    assert_eq!(archive_entry_name(".."), "..");
    assert_eq!(archive_entry_name(""), "");
    assert_eq!(archive_entry_name("dir/sub/a.txt"), "a.txt");
    assert_eq!(archive_entry_name("dir/"), "dir");
}

#[test]
fn validation_counts_failed_reads() {
    let ok = EntryCheck::Read { checksums_match: true };
    let bad = EntryCheck::Read { checksums_match: false };
    let gone = EntryCheck::Unreadable;
    assert_eq!(validation_outcome(&vec![ok, ok], false), ValidationOutcome::Passed);
    assert_eq!(validation_outcome(&vec![], true), ValidationOutcome::Passed);
    assert_eq!(validation_outcome(&vec![ok, gone, gone], false), ValidationOutcome::Failed(2));
    assert_eq!(validation_outcome(&vec![ok, bad, gone], false), ValidationOutcome::Failed(1));
    assert_eq!(validation_outcome(&vec![ok, bad, gone], true), ValidationOutcome::Failed(2));
    assert_eq!(validation_outcome(&vec![bad], true), ValidationOutcome::Failed(1));
}
