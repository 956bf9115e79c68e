use heseya_importer::text::{
    chars_of, equals_ignoring_case, last_segment_of, to_ascii_lower,
};

#[test]
fn chars_are_the_characters_in_order() {
    assert_eq!(chars_of(""), Vec::<char>::new());
    assert_eq!(chars_of("a/b"), vec!['a', '/', 'b']);
    assert_eq!(chars_of("żółw"), vec!['ż', 'ó', 'ł', 'w']);
}

#[test]
fn only_ascii_upper_case_is_lowered() {
    assert_eq!(to_ascii_lower('A'), 'a');
    assert_eq!(to_ascii_lower('Z'), 'z');
    assert_eq!(to_ascii_lower('M'), 'm');
    assert_eq!(to_ascii_lower('a'), 'a');
    assert_eq!(to_ascii_lower('@'), '@');
    assert_eq!(to_ascii_lower('['), '[');
    assert_eq!(to_ascii_lower('0'), '0');
    assert_eq!(to_ascii_lower('Ż'), 'Ż');
}

#[test]
fn comparison_lowers_the_first_text_only() {
    assert!(equals_ignoring_case("PaTcH", "patch"));
    assert!(equals_ignoring_case("", ""));
    assert!(!equals_ignoring_case("patch", "PATCH"));
    assert!(!equals_ignoring_case("patc", "patch"));
    assert!(!equals_ignoring_case("patchy", "patch"));
}

#[test]
fn last_segment_follows_the_last_slash() {
    assert_eq!(last_segment_of("a/b/c"), "c");
    assert_eq!(last_segment_of("abc"), "abc");
    assert_eq!(last_segment_of("abc/"), "");
    assert_eq!(last_segment_of("//"), "");
    assert_eq!(last_segment_of("ścieżka/plik.txt"), "plik.txt");
}
