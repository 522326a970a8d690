//! What stands before an emitted line: the path of its source and its number.

use crate::options::{path_text, SearchOptions};
use crate::text::to_chars;
use vstd::prelude::*;

verus! {

/// The character that is written for a digit.
pub open spec fn digit_char(d: int) -> char {
    if d == 0 {
        '0'
    } else if d == 1 {
        '1'
    } else if d == 2 {
        '2'
    } else if d == 3 {
        '3'
    } else if d == 4 {
        '4'
    } else if d == 5 {
        '5'
    } else if d == 6 {
        '6'
    } else if d == 7 {
        '7'
    } else if d == 8 {
        '8'
    } else {
        '9'
    }
}

/// A number in decimal digits, without sign, padding or leading zeros.
pub open spec fn decimal(n: nat) -> Seq<char>
    decreases n,
{
    if n < 10 {
        seq![digit_char(n as int)]
    } else {
        decimal(n / 10) + seq![digit_char((n % 10) as int)]
    }
}

/// The digit that a character stands for.
pub open spec fn digit_value(c: char) -> nat {
    if c == '1' {
        1
    } else if c == '2' {
        2
    } else if c == '3' {
        3
    } else if c == '4' {
        4
    } else if c == '5' {
        5
    } else if c == '6' {
        6
    } else if c == '7' {
        7
    } else if c == '8' {
        8
    } else if c == '9' {
        9
    } else {
        0
    }
}

/// The number that a row of digits is read as.
pub open spec fn decimal_value(digits: Seq<char>) -> nat
    decreases digits.len(),
{
    if digits.len() == 0 {
        0
    } else {
        decimal_value(digits.drop_last()) * 10 + digit_value(digits.last())
    }
}

/// The digits written for a number read back as that number. There is at
/// least one digit, and the first is a zero only for the number zero.
pub proof fn lemma_decimal_reads_back(n: nat)
    ensures
        decimal_value(decimal(n)) == n,
        decimal(n).len() >= 1,
        n > 0 ==> decimal(n)[0] != '0',
    decreases n,
{
    if n < 10 {
        assert(decimal(n).drop_last() =~= Seq::<char>::empty());
        assert(decimal_value(decimal(n).drop_last()) == 0);
    } else {
        lemma_decimal_reads_back(n / 10);
        assert(decimal(n).drop_last() =~= decimal(n / 10));
        assert(decimal(n)[0] == decimal(n / 10)[0]);
    }
}

/// What parts a prefix from what follows it: a colon and a space.
pub open spec fn separator() -> Seq<char> {
    seq![':', ' ']
}

/// A path as it is shown: with a forward slash in place of every backslash.
pub open spec fn normalized_path(path: Seq<char>) -> Seq<char> {
    path.map_values(
        |c: char|
            if c == '\\' {
                '/'
            } else {
                c
            },
    )
}

/// The path part of a prefix. It is empty unless file names are asked for and
/// the path is known.
pub open spec fn filename_prefix(
    options: SearchOptions,
    source_path: Option<Seq<char>>,
) -> Seq<char> {
    match source_path {
        Some(path) if options.show_filename => normalized_path(path) + separator(),
        _ => Seq::empty(),
    }
}

/// The number part of a prefix. It is empty unless line numbers are asked for.
pub open spec fn number_prefix(options: SearchOptions, index: nat) -> Seq<char> {
    if options.show_line_number {
        decimal(index) + separator()
    } else {
        Seq::empty()
    }
}

/// All that stands before the line's own text: the path part outermost, then
/// the number part.
pub open spec fn prefix_text(
    options: SearchOptions,
    index: nat,
    source_path: Option<Seq<char>>,
) -> Seq<char> {
    filename_prefix(options, source_path) + number_prefix(options, index)
}

/// The text of one digit.
fn digit_text(d: usize) -> (text: &'static str)
    requires
        d < 10,
    ensures
        text@ == seq![digit_char(d as int)],
{
    proof {
        reveal_strlit("0");
        reveal_strlit("1");
        reveal_strlit("2");
        reveal_strlit("3");
        reveal_strlit("4");
        reveal_strlit("5");
        reveal_strlit("6");
        reveal_strlit("7");
        reveal_strlit("8");
        reveal_strlit("9");
    }
    if d == 0 {
        "0"
    } else if d == 1 {
        "1"
    } else if d == 2 {
        "2"
    } else if d == 3 {
        "3"
    } else if d == 4 {
        "4"
    } else if d == 5 {
        "5"
    } else if d == 6 {
        "6"
    } else if d == 7 {
        "7"
    } else if d == 8 {
        "8"
    } else {
        "9"
    }
}

/// Writes a number in decimal digits.
pub fn render_decimal(n: usize) -> (text: String)
    ensures
        text@ == decimal(n as nat),
    decreases n,
{
    if n < 10 {
        String::from_str(digit_text(n))
    } else {
        let mut text = render_decimal(n / 10);
        text.append(digit_text(n % 10));
        text
    }
}

/// Writes a path with a forward slash in place of every backslash, whatever
/// the host's own separator is.
pub fn normalize_path(path: &str) -> (shown: String)
    ensures
        shown@ == normalized_path(path@),
{
    let chars = to_chars(path);
    let mut shown = String::new();
    let mut done: usize = 0;
    let mut at: usize = 0;
    while at < chars.len()
        invariant
            done <= at <= chars.len(),
            chars@ == path@,
            shown@ =~= normalized_path(path@).subrange(0, done as int),
            forall|j: int| done <= j < at ==> chars@[j] != '\\',
        decreases chars.len() - at,
    {
        if chars[at] == '\\' {
            proof {
                reveal_strlit("/");
            }
            shown.append(path.substring_char(done, at));
            shown.append("/");
            done = at + 1;
        }
        at += 1;
    }
    shown.append(path.substring_char(done, chars.len()));
    shown
}

/// Writes all that stands before the text of line number `index` read from
/// `source_path`.
pub fn line_prefix(options: &SearchOptions, index: usize, source_path: Option<&str>) -> (prefix:
    String)
    ensures
        prefix@ == prefix_text(*options, index as nat, path_text(source_path)),
{
    proof {
        reveal_strlit(": ");
    }
    let mut prefix = String::new();
    if options.show_filename {
        if let Some(path) = source_path {
            let shown = normalize_path(path);
            prefix.append(shown.as_str());
            prefix.append(": ");
        }
    }
    if options.show_line_number {
        let digits = render_decimal(index);
        prefix.append(digits.as_str());
        prefix.append(": ");
    }
    prefix
}

} // verus!
