use mpq_cli::text::{is_plain_file_path, str_contains};
use mpq_cli::display::truncate_path;
use mpq_cli::tree::archive_root_name;

#[test]
fn short_paths_are_kept_whole() {
    assert_eq!(truncate_path("Interface\\Icons\\a.blp", 50), "Interface\\Icons\\a.blp");
    assert_eq!(truncate_path("abcdef", 6), "abcdef");
}

#[test]
fn long_paths_keep_their_end() {
    assert_eq!(truncate_path("abcdefghij", 8), "...fghij");
    assert_eq!(truncate_path("abcdefghij", 4), "...j");
    assert_eq!(truncate_path("abcdefghij", 8).chars().count(), 8);
}

#[test]
fn tiny_limits_leave_paths_whole() {
    assert_eq!(truncate_path("abcdefghij", 3), "abcdefghij");
    assert_eq!(truncate_path("abcdefghij", 0), "abcdefghij");
}

#[test]
fn root_name_is_final_path_component() {
    assert_eq!(archive_root_name("data/archives/patch.mpq"), Some("patch.mpq".to_string()));
    assert_eq!(archive_root_name("patch.mpq"), Some("patch.mpq".to_string()));
    assert_eq!(archive_root_name("/"), None);
}

#[test]
fn substring_search() {
    assert!(str_contains("itemdisplayinfo.dbc", "item"));
    assert!(str_contains("abc", ""));
    assert!(str_contains("abc", "abc"));
    assert!(!str_contains("ab", "abc"));
    assert!(!str_contains("spell.dbc", "item"));
    assert!(str_contains("xxitem", "item"));
}

#[test]
fn plain_paths() {
    assert!(is_plain_file_path("a.txt"));
    assert!(is_plain_file_path("dir/sub/a.txt"));
    assert!(is_plain_file_path("/a"));
    assert!(!is_plain_file_path("dir\\a.txt"));
    assert!(!is_plain_file_path("C:a"));
    assert!(!is_plain_file_path("//srv/a"));
    assert!(!is_plain_file_path("dir/"));
    assert!(!is_plain_file_path("dir/.."));
    assert!(!is_plain_file_path("."));
    assert!(!is_plain_file_path(""));
}
