use line_search::markup::splice_marks;

fn marks(texts: &[&str]) -> Vec<String> {
    texts.iter().map(|text| String::from(*text)).collect()
}

#[test]
fn splice_replaces_each_piece_by_its_mark() {
    let out = splice_marks("an apple, an apple", &vec![3, 13], 5, &marks(&["[1]", "<22>"]));
    assert_eq!(out, Some(String::from("an [1], an <22>")));
}

#[test]
fn splice_without_pieces_gives_the_text() {
    assert_eq!(splice_marks("apple", &vec![], 5, &marks(&[])), Some(String::from("apple")));
    assert_eq!(splice_marks("", &vec![], 0, &marks(&[])), Some(String::from("")));
    assert_eq!(splice_marks("apple", &vec![], 9, &marks(&[])), Some(String::from("apple")));
}

#[test]
fn splice_of_the_bare_pieces_gives_the_text() {
    let out = splice_marks("an apple, an apple", &vec![3, 13], 5, &marks(&["apple", "apple"]));
    assert_eq!(out, Some(String::from("an apple, an apple")));
}

#[test]
fn splice_takes_pieces_at_both_ends() {
    let out = splice_marks("abcd", &vec![0, 3], 1, &marks(&["(a)", "(d)"]));
    assert_eq!(out, Some(String::from("(a)bc(d)")));
    let out = splice_marks("abcd", &vec![0], 4, &marks(&["all"]));
    assert_eq!(out, Some(String::from("all")));
}

#[test]
fn splice_of_empty_pieces_inserts_the_marks() {
    let out = splice_marks("ab", &vec![0, 1, 2], 0, &marks(&["-", "+", "!"]));
    assert_eq!(out, Some(String::from("-a+b!")));
}

#[test]
fn splice_goes_by_characters() {
    let out = splice_marks("süße Äpfel", &vec![5], 5, &marks(&["*"]));
    assert_eq!(out, Some(String::from("süße *")));
}

#[test]
fn splice_does_not_search_the_marks() {
    let out = splice_marks("aXa", &vec![0, 2], 1, &marks(&["aa", "a"]));
    assert_eq!(out, Some(String::from("aaXa")));
}

#[test]
fn splice_refuses_a_wrong_number_of_marks() {
    assert_eq!(splice_marks("abc", &vec![0, 1], 1, &marks(&["x"])), None);
    assert_eq!(splice_marks("abc", &vec![0], 1, &marks(&["x", "y"])), None);
    assert_eq!(splice_marks("abc", &vec![], 1, &marks(&["x"])), None);
}

#[test]
fn splice_refuses_pieces_outside_the_text() {
    assert_eq!(splice_marks("abc", &vec![3], 1, &marks(&["x"])), None);
    assert_eq!(splice_marks("abc", &vec![1], 3, &marks(&["x"])), None);
    assert_eq!(splice_marks("abc", &vec![0], 4, &marks(&["x"])), None);
    assert_eq!(splice_marks("", &vec![0], 1, &marks(&["x"])), None);
    assert_eq!(splice_marks("abc", &vec![usize::MAX], 2, &marks(&["x"])), None);
}

#[test]
fn splice_refuses_pieces_that_overlap_or_go_backwards() {
    assert_eq!(splice_marks("abcd", &vec![0, 1], 2, &marks(&["x", "y"])), None);
    assert_eq!(splice_marks("abcd", &vec![2, 0], 1, &marks(&["x", "y"])), None);
    assert_eq!(splice_marks("abcd", &vec![1, 1], 1, &marks(&["x", "y"])), None);
    assert_eq!(
        splice_marks("abcd", &vec![0, 2], 2, &marks(&["x", "y"])),
        Some(String::from("xy"))
    );
}
