use bottle::parse_output_name;
use bottle::split_and_vectorize;

#[test]
fn can_get_target_output_name() {
    // file
    assert_eq!(parse_output_name("test.txt"), "test");
    // directory
    assert_eq!(parse_output_name("foo/bar"), "bar");
    // longer rel path
    assert_eq!(parse_output_name("foo/bar/test.tar.gz.age"), "test");
    // Absolute path
    assert_eq!(
        parse_output_name("/home/user/foo/baz/test.tar.gz.age"),
        "test"
    );
}

#[test]
fn splits_by_a_single_character() {
    assert_eq!(split_and_vectorize("a.b.c", "."), vec!["a", "b", "c"]);
}

#[test]
fn split_keeps_empty_pieces() {
    assert_eq!(split_and_vectorize(".tar.gz", "."), vec!["", "tar", "gz"]);
    assert_eq!(split_and_vectorize("a..b", "."), vec!["a", "", "b"]);
}

#[test]
fn split_without_separator_is_the_whole_string() {
    assert_eq!(split_and_vectorize("plain", "."), vec!["plain"]);
    assert_eq!(split_and_vectorize("", "."), vec![""]);
}

#[test]
fn splits_by_a_multi_character_separator() {
    assert_eq!(split_and_vectorize("a--b--c", "--"), vec!["a", "b", "c"]);
    // leftmost-first, non-overlapping
    assert_eq!(split_and_vectorize("aaa", "aa"), vec!["", "a"]);
}
