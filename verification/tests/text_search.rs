use line_search::text::{contains, find_occurrences, has_suffix, same_text, to_chars};

#[test]
fn contains_finds_a_literal_substring() {
    assert!(contains("apple pie", "apple"));
    assert!(contains("apple pie", "pie"));
    assert!(contains("apple pie", "e p"));
    assert!(contains("apple pie", "apple pie"));
    assert!(!contains("apple pie", "apple pie "));
    assert!(!contains("apple pie", "Apple"));
    assert!(!contains("apple pie", "pip"));
    assert!(!contains("", "a"));
}

#[test]
fn empty_needle_is_contained_in_every_text() {
    assert!(contains("apple", ""));
    assert!(contains("", ""));
}

#[test]
fn contains_agrees_with_the_standard_library() {
    let texts = ["", "a", "ab", "aab", "abab", "süß", "ß", "a\u{0301}"];
    for hay in texts {
        for needle in texts {
            assert_eq!(contains(hay, needle), hay.contains(needle));
        }
    }
}

#[test]
fn occurrences_are_leftmost_and_do_not_overlap() {
    assert_eq!(find_occurrences("an apple, an apple", "apple"), vec![3, 13]);
    assert_eq!(find_occurrences("aaa", "aa"), vec![0]);
    assert_eq!(find_occurrences("aaaa", "aa"), vec![0, 2]);
    assert_eq!(find_occurrences("aaaaa", "aa"), vec![0, 2]);
    assert_eq!(find_occurrences("abcabc", "c"), vec![2, 5]);
    assert_eq!(find_occurrences("abc", "abc"), vec![0]);
    assert_eq!(find_occurrences("abc", "abcd"), Vec::<usize>::new());
    assert_eq!(find_occurrences("abc", "x"), Vec::<usize>::new());
    assert_eq!(find_occurrences("", "x"), Vec::<usize>::new());
}

#[test]
fn empty_needle_occurs_at_every_boundary() {
    assert_eq!(find_occurrences("abc", ""), vec![0, 1, 2, 3]);
    assert_eq!(find_occurrences("", ""), vec![0]);
}

#[test]
fn positions_count_characters_not_bytes() {
    assert_eq!(find_occurrences("süße Äpfel", "Äpfel"), vec![5]);
    assert_eq!(find_occurrences("ßßß", "ß"), vec![0, 1, 2]);
}

#[test]
fn occurrences_agree_with_the_standard_library() {
    let texts = ["a", "ab", "aab", "abab", "aaaa", "ba"];
    for hay in texts {
        for needle in texts {
            let expected: Vec<usize> = hay.match_indices(needle).map(|(at, _)| at).collect();
            assert_eq!(find_occurrences(hay, needle), expected);
        }
    }
}

#[test]
fn to_chars_decodes_every_character() {
    assert_eq!(to_chars("aß\u{1F34E}"), vec!['a', 'ß', '\u{1F34E}']);
    assert_eq!(to_chars(""), Vec::<char>::new());
}

#[test]
fn same_text_compares_whole_texts() {
    assert!(same_text("-h", "-h"));
    assert!(same_text("", ""));
    assert!(!same_text("-h", "-H"));
    assert!(!same_text("-h", "-hh"));
    assert!(!same_text("-hh", "-h"));
    assert!(!same_text("", "a"));
}

#[test]
fn has_suffix_looks_at_the_end_only() {
    assert!(has_suffix("dir/*", "/*"));
    assert!(has_suffix("/*", "/*"));
    assert!(has_suffix("abc", ""));
    assert!(!has_suffix("dir/*/x", "/*"));
    assert!(!has_suffix("*", "/*"));
    assert!(!has_suffix("", "/*"));
}
