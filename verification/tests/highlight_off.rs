use colored::control::set_override;
use line_search::filter::evaluate_line;
use line_search::options::{EmitInstruction, LineRecord, SearchOptions};

fn emitted(text: &str) -> Option<EmitInstruction> {
    Some(EmitInstruction { emit_text: String::from(text) })
}

#[test]
fn with_colour_switched_off_the_line_is_written_bare() {
    set_override(false);
    let options = SearchOptions { highlight: true, ..SearchOptions::default() };
    let record = LineRecord { index: 1, content: "an apple, an apple", source_path: None };
    assert_eq!(evaluate_line(&options, "apple", &record), emitted("an apple, an apple"));
}

#[test]
fn with_colour_switched_off_prefixes_are_still_written() {
    set_override(false);
    let options = SearchOptions {
        case_insensitive: true,
        show_line_number: true,
        show_filename: true,
        highlight: true,
        ..SearchOptions::default()
    };
    let record = LineRecord { index: 4, content: "Apple", source_path: Some("a\\b") };
    assert_eq!(evaluate_line(&options, "apple", &record), emitted("a/b: 4: Apple"));
}
