use colored::control::set_override;
use line_search::filter::{evaluate_line, search_lines};
use line_search::options::{EmitInstruction, LineRecord, SearchOptions};

fn highlighting() -> SearchOptions {
    SearchOptions { highlight: true, ..SearchOptions::default() }
}

fn emitted(text: &str) -> Option<EmitInstruction> {
    Some(EmitInstruction { emit_text: String::from(text) })
}

fn strip(text: &str) -> String {
    text.replace("\x1b[31m", "").replace("\x1b[0m", "")
}

#[test]
fn occurrence_is_wrapped_in_red() {
    set_override(true);
    let record = LineRecord { index: 1, content: "apple pie", source_path: None };
    assert_eq!(
        evaluate_line(&highlighting(), "apple", &record),
        emitted("\x1b[31mapple\x1b[0m pie")
    );
}

#[test]
fn every_occurrence_is_wrapped() {
    set_override(true);
    let record = LineRecord { index: 1, content: "an apple, an apple", source_path: None };
    assert_eq!(
        evaluate_line(&highlighting(), "apple", &record),
        emitted("an \x1b[31mapple\x1b[0m, an \x1b[31mapple\x1b[0m")
    );
}

#[test]
fn occurrences_do_not_overlap() {
    set_override(true);
    let record = LineRecord { index: 1, content: "aaa", source_path: None };
    assert_eq!(evaluate_line(&highlighting(), "aa", &record), emitted("\x1b[31maa\x1b[0ma"));
    let record = LineRecord { index: 1, content: "aaaa", source_path: None };
    assert_eq!(
        evaluate_line(&highlighting(), "aa", &record),
        emitted("\x1b[31maa\x1b[0m\x1b[31maa\x1b[0m")
    );
}

#[test]
fn markup_is_not_searched_again() {
    set_override(true);
    let record = LineRecord { index: 1, content: "m31m", source_path: None };
    assert_eq!(
        evaluate_line(&highlighting(), "m", &record),
        emitted("\x1b[31mm\x1b[0m31\x1b[31mm\x1b[0m")
    );
    let record = LineRecord { index: 1, content: "3[3", source_path: None };
    assert_eq!(
        evaluate_line(&highlighting(), "3", &record),
        emitted("\x1b[31m3\x1b[0m[\x1b[31m3\x1b[0m")
    );
}

#[test]
fn highlight_stands_behind_the_prefixes() {
    set_override(true);
    let options = SearchOptions {
        show_line_number: true,
        show_filename: true,
        highlight: true,
        ..SearchOptions::default()
    };
    let record = LineRecord { index: 3, content: "x apple y", source_path: Some("d\\a.txt") };
    assert_eq!(
        evaluate_line(&options, "apple", &record),
        emitted("d/a.txt: 3: x \x1b[31mapple\x1b[0m y")
    );
}

#[test]
fn prefixes_are_not_searched() {
    set_override(true);
    let options = SearchOptions {
        show_line_number: true,
        show_filename: true,
        highlight: true,
        ..SearchOptions::default()
    };
    let record = LineRecord { index: 1, content: "a1", source_path: Some("1a") };
    assert_eq!(evaluate_line(&options, "1", &record), emitted("1a: 1: a\x1b[31m1\x1b[0m"));
}

#[test]
fn case_insensitive_highlight_shows_the_line_as_written() {
    set_override(true);
    let options =
        SearchOptions { case_insensitive: true, highlight: true, ..SearchOptions::default() };
    let record = LineRecord { index: 1, content: "Apple sauce, APPLE pie", source_path: None };
    assert_eq!(
        evaluate_line(&options, "aPPle", &record),
        emitted("\x1b[31mApple\x1b[0m sauce, \x1b[31mAPPLE\x1b[0m pie")
    );
}

#[test]
fn line_whose_folded_form_differs_in_length_is_emitted_unmarked() {
    set_override(true);
    let options =
        SearchOptions { case_insensitive: true, highlight: true, ..SearchOptions::default() };
    let record = LineRecord { index: 1, content: "İstanbul apple", source_path: None };
    assert_eq!(evaluate_line(&options, "apple", &record), emitted("İstanbul apple"));
}

#[test]
fn highlight_under_invert_changes_nothing() {
    set_override(true);
    let options = SearchOptions { invert: true, highlight: true, ..SearchOptions::default() };
    let record = LineRecord { index: 1, content: "banana", source_path: None };
    assert_eq!(evaluate_line(&options, "apple", &record), emitted("banana"));
    let record = LineRecord { index: 1, content: "apple pie", source_path: None };
    assert_eq!(evaluate_line(&options, "apple", &record), None);
}

#[test]
fn empty_pattern_is_marked_at_every_boundary() {
    set_override(true);
    let record = LineRecord { index: 1, content: "ab", source_path: None };
    assert_eq!(
        evaluate_line(&highlighting(), "", &record),
        emitted("\x1b[31m\x1b[0ma\x1b[31m\x1b[0mb\x1b[31m\x1b[0m")
    );
    let record = LineRecord { index: 1, content: "", source_path: None };
    assert_eq!(evaluate_line(&highlighting(), "", &record), emitted("\x1b[31m\x1b[0m"));
}

#[test]
fn reset_inside_a_piece_is_followed_by_red_again() {
    set_override(true);
    let record = LineRecord { index: 1, content: "a\x1b[0mb", source_path: None };
    assert_eq!(
        evaluate_line(&highlighting(), "\x1b[0m", &record),
        emitted("a\x1b[31m\x1b[0m\x1b[31m\x1b[0mb")
    );
}

#[test]
fn characters_beyond_ascii_are_counted_as_characters() {
    set_override(true);
    let record = LineRecord { index: 1, content: "süße Äpfel und Äpfel", source_path: None };
    assert_eq!(
        evaluate_line(&highlighting(), "Äpfel", &record),
        emitted("süße \x1b[31mÄpfel\x1b[0m und \x1b[31mÄpfel\x1b[0m")
    );
}

#[test]
fn stripping_markup_and_prefix_gives_the_line_back() {
    set_override(true);
    let lines = ["apple pie", "an apple, an apple", "aaa", "banana", "", "x"];
    let patterns = ["apple", "a", "aa", "", "an "];
    for fold in [false, true] {
        let options = SearchOptions {
            case_insensitive: fold,
            show_line_number: true,
            show_filename: true,
            highlight: true,
            ..SearchOptions::default()
        };
        for line in lines {
            for pattern in patterns {
                let record = LineRecord { index: 9, content: line, source_path: Some("p") };
                if let Some(instruction) = evaluate_line(&options, pattern, &record) {
                    let body = instruction.emit_text.strip_prefix("p: 9: ").unwrap();
                    assert_eq!(strip(body), line);
                }
            }
        }
    }
}

#[test]
fn search_marks_each_emitted_line() {
    set_override(true);
    let lines =
        vec![String::from("apple pie"), String::from("banana"), String::from("pineapple")];
    let emitted = search_lines(&highlighting(), "apple", &lines, None);
    assert_eq!(
        emitted,
        vec![String::from("\x1b[31mapple\x1b[0m pie"), String::from("pine\x1b[31mapple\x1b[0m")]
    );
}
