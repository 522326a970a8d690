//! The line filter: whether a line is emitted, and the exact text that is
//! written for it.
//!
//! The decision depends on the options, the pattern and the line alone, and
//! nothing is carried from one line to the next. So does the text, with one
//! reservation: whether a marked piece comes out styled or bare is for the
//! colour support to say, piece by piece.

use crate::fold::{fold_case, lowercased};
use crate::markup::{mark_texts, marks_fit, paint_pieces, splice, splice_marks};
use crate::options::{path_text, EmitInstruction, LineRecord, LineView, SearchOptions};
use crate::prefix::{line_prefix, prefix_text};
use crate::strip::{lemma_strip_markup_free, lemma_strip_of_splice, markup_free, strip_markup};
use crate::text::{
    contains, find_occurrences, is_infix, lemma_occurrences_spaced, occurrences, occurs_at,
};
use vstd::prelude::*;

verus! {

/// A text in the form in which it is compared: in lower case where case is to
/// be ignored, else as it is. Pattern and line are folded alike.
pub open spec fn folded(options: SearchOptions, text: Seq<char>) -> Seq<char> {
    if options.case_insensitive {
        lowercased(text)
    } else {
        text
    }
}

/// The decision on texts that are folded already: a line is emitted when it
/// holds the needle, or, under `invert`, when it does not.
pub open spec fn selects(options: SearchOptions, hay: Seq<char>, needle: Seq<char>) -> bool {
    is_infix(hay, needle) != options.invert
}

/// Whether a line with this content is emitted in a search for `pattern`.
pub open spec fn emits(options: SearchOptions, pattern: Seq<char>, content: Seq<char>) -> bool {
    selects(options, folded(options, content), folded(options, pattern))
}

/// Whether occurrences are marked in the emitted text. They are marked where
/// highlighting is asked for and the line holds the needle, so that there is
/// something to mark. The occurrences are located in the folded line and
/// marked in the line itself, so the two must have the same number of
/// characters: a line whose folded form is longer or shorter is emitted
/// without marks.
pub open spec fn marks_apply(
    options: SearchOptions,
    content: Seq<char>,
    hay: Seq<char>,
    needle: Seq<char>,
) -> bool {
    options.highlight && is_infix(hay, needle) && hay.len() == content.len()
}

/// `text` is what may be written for a line that is emitted, given the folded
/// forms of line and pattern: the prefix, then the line's own text, in which,
/// where marks apply, the piece at each occurrence of the needle in the folded
/// line has been painted.
pub open spec fn is_emit_text_for(
    options: SearchOptions,
    line: LineView,
    hay: Seq<char>,
    needle: Seq<char>,
    text: Seq<char>,
) -> bool {
    if marks_apply(options, line.content, hay, needle) {
        exists|marks: Seq<Seq<char>>|
            marks_fit(line.content, occurrences(hay, needle), needle.len() as int, marks) && text
                == prefix_text(options, line.index, line.source_path) + #[trigger] splice(
                line.content,
                occurrences(hay, needle),
                needle.len() as int,
                marks,
            )
    } else {
        text == prefix_text(options, line.index, line.source_path) + line.content
    }
}

/// `text` is what may be written for `line` in a search for `pattern`.
pub open spec fn is_emit_text(
    options: SearchOptions,
    pattern: Seq<char>,
    line: LineView,
    text: Seq<char>,
) -> bool {
    is_emit_text_for(
        options,
        line,
        folded(options, line.content),
        folded(options, pattern),
        text,
    )
}

/// With every switch off, a line is emitted exactly when it holds the pattern
/// as a literal substring, and what is written for it is the line itself,
/// without prefix or markup.
pub proof fn lemma_plain_search(pattern: Seq<char>, line: LineView, text: Seq<char>)
    ensures
        emits(SearchOptions::plain(), pattern, line.content) <==> is_infix(line.content, pattern),
        is_emit_text(SearchOptions::plain(), pattern, line, text) <==> text == line.content,
{
    let options = SearchOptions::plain();
    assert(prefix_text(options, line.index, line.source_path) + line.content =~= line.content);
}

/// Under `invert` a line is emitted exactly when it does not hold the pattern,
/// both taken in the form in which they are compared: as they are, unless
/// case is to be ignored.
pub proof fn lemma_inverted_search(options: SearchOptions, pattern: Seq<char>, content: Seq<char>)
    requires
        options.invert,
    ensures
        emits(options, pattern, content) <==> !is_infix(
            folded(options, content),
            folded(options, pattern),
        ),
        !options.case_insensitive ==> (emits(options, pattern, content) <==> !is_infix(
            content,
            pattern,
        )),
{
}

/// Where case is to be ignored, a line holds the pattern exactly when the
/// line in lower case holds the pattern in lower case: such a line is
/// emitted, or under `invert` held back.
pub proof fn lemma_case_insensitive_search(
    options: SearchOptions,
    pattern: Seq<char>,
    content: Seq<char>,
)
    requires
        options.case_insensitive,
    ensures
        emits(options, pattern, content) <==> (is_infix(lowercased(content), lowercased(pattern))
            != options.invert),
{
}

/// Without highlighting there is one text that can be written for a line: its
/// prefix and the line itself.
pub proof fn lemma_unmarked_emit_text(
    options: SearchOptions,
    pattern: Seq<char>,
    line: LineView,
    text: Seq<char>,
)
    requires
        !options.highlight,
    ensures
        is_emit_text(options, pattern, line, text) <==> text == prefix_text(
            options,
            line.index,
            line.source_path,
        ) + line.content,
{
}

/// The empty pattern is held by every line: unless `invert` is set, every
/// line is emitted.
pub proof fn lemma_empty_pattern(options: SearchOptions, content: Seq<char>)
    ensures
        is_infix(folded(options, content), folded(options, Seq::empty())),
        !options.invert ==> emits(options, Seq::empty(), content),
{
    assert(folded(options, Seq::<char>::empty()) =~= Seq::<char>::empty());
    assert(occurs_at(folded(options, content), Seq::empty(), 0));
}

/// What is written for a line is its prefix followed by a body that holds the
/// line's own text and, besides it, markup only: with the prefix taken away
/// and the markup stripped, the line's text is left, character for character.
/// This is stated of lines that hold no markup sequence themselves, since
/// stripping would take such a sequence out as well.
pub proof fn lemma_emit_text_keeps_content(
    options: SearchOptions,
    pattern: Seq<char>,
    line: LineView,
    text: Seq<char>,
)
    requires
        is_emit_text(options, pattern, line, text),
        markup_free(line.content),
    ensures
        prefix_text(options, line.index, line.source_path).is_prefix_of(text),
        strip_markup(text.skip(prefix_text(options, line.index, line.source_path).len() as int))
            == line.content,
{
    let prefix = prefix_text(options, line.index, line.source_path);
    let hay = folded(options, line.content);
    let needle = folded(options, pattern);
    if marks_apply(options, line.content, hay, needle) {
        let starts = occurrences(hay, needle);
        let width = needle.len() as int;
        let marks = choose|marks: Seq<Seq<char>>|
            marks_fit(line.content, starts, width, marks) && text == prefix + #[trigger] splice(
                line.content,
                starts,
                width,
                marks,
            );
        let body = splice(line.content, starts, width, marks);
        lemma_occurrences_spaced(hay, needle);
        lemma_strip_of_splice(line.content, starts, width, marks);
        assert((prefix + body).skip(prefix.len() as int) =~= body);
    } else {
        lemma_strip_markup_free(line.content);
        assert((prefix + line.content).skip(prefix.len() as int) =~= line.content);
    }
}

/// Decides on a line whose folded form and folded pattern are given, and
/// writes its text. `haystack` and `needle` are compared as they are; the
/// record supplies the text that is shown.
pub fn evaluate_folded(
    options: &SearchOptions,
    record: &LineRecord,
    haystack: &str,
    needle: &str,
) -> (result: Option<EmitInstruction>)
    ensures
        result is Some <==> selects(*options, haystack@, needle@),
        result matches Some(instruction) ==> is_emit_text_for(
            *options,
            record@,
            haystack@,
            needle@,
            instruction@,
        ),
{
    let found = contains(haystack, needle);
    if found == options.invert {
        return None;
    }
    let mut text = line_prefix(options, record.index, record.source_path);
    if options.highlight && found && haystack.unicode_len() == record.content.unicode_len() {
        let starts = find_occurrences(haystack, needle);
        let width = needle.unicode_len();
        proof {
            lemma_occurrences_spaced(haystack@, needle@);
        }
        let marks = paint_pieces(record.content, &starts, width);
        let body = splice_marks(record.content, &starts, width, &marks).unwrap();
        text.append(body.as_str());
        assert(text@ == prefix_text(*options, record@.index, record@.source_path) + splice(
            record@.content,
            occurrences(haystack@, needle@),
            needle@.len() as int,
            mark_texts(marks@),
        ));
    } else {
        text.append(record.content);
    }
    Some(EmitInstruction { emit_text: text })
}

/// Decides whether a line is emitted in a search for `pattern`, and writes
/// the text to emit. Pattern and line are folded first where case is to be
/// ignored; the text shows the line as it was given.
pub fn evaluate_line(options: &SearchOptions, pattern: &str, record: &LineRecord) -> (result:
    Option<EmitInstruction>)
    ensures
        result is Some <==> emits(*options, pattern@, record@.content),
        result matches Some(instruction) ==> is_emit_text(
            *options,
            pattern@,
            record@,
            instruction@,
        ),
{
    if options.case_insensitive {
        let haystack = fold_case(record.content);
        let needle = fold_case(pattern);
        evaluate_folded(options, record, haystack.as_str(), needle.as_str())
    } else {
        evaluate_folded(options, record, record.content, pattern)
    }
}

/// The texts of a list of lines.
pub open spec fn line_texts(lines: Seq<String>) -> Seq<Seq<char>> {
    lines.map_values(|l: String| l@)
}

/// The positions, counted from 0 and in ascending order, of those among the
/// first `n` lines that are emitted.
pub open spec fn emitted_upto(
    options: SearchOptions,
    pattern: Seq<char>,
    lines: Seq<Seq<char>>,
    n: int,
) -> Seq<int>
    decreases n,
{
    if n <= 0 {
        Seq::empty()
    } else {
        let before = emitted_upto(options, pattern, lines, n - 1);
        if emits(options, pattern, lines[n - 1]) {
            before.push(n - 1)
        } else {
            before
        }
    }
}

/// The positions, counted from 0 and in ascending order, of the lines that are
/// emitted.
pub open spec fn emitted_lines(
    options: SearchOptions,
    pattern: Seq<char>,
    lines: Seq<Seq<char>>,
) -> Seq<int> {
    emitted_upto(options, pattern, lines, lines.len() as int)
}

/// Among the first `n` lines, the positions listed are those of the lines that
/// are emitted: each of them once, in ascending order, and no other.
pub proof fn lemma_emitted_upto(
    options: SearchOptions,
    pattern: Seq<char>,
    lines: Seq<Seq<char>>,
    n: int,
)
    requires
        0 <= n <= lines.len(),
    ensures
        forall|k: int|
            0 <= k < emitted_upto(options, pattern, lines, n).len() ==> {
                &&& 0 <= #[trigger] emitted_upto(options, pattern, lines, n)[k] < n
                &&& emits(options, pattern, lines[emitted_upto(options, pattern, lines, n)[k]])
            },
        forall|j: int, k: int|
            0 <= j < k < emitted_upto(options, pattern, lines, n).len() ==> #[trigger] emitted_upto(
                options,
                pattern,
                lines,
                n,
            )[j] < #[trigger] emitted_upto(options, pattern, lines, n)[k],
        forall|i: int|
            0 <= i < n && emits(options, pattern, #[trigger] lines[i]) ==> emitted_upto(
                options,
                pattern,
                lines,
                n,
            ).contains(i),
    decreases n,
{
    if n > 0 {
        lemma_emitted_upto(options, pattern, lines, n - 1);
        let before = emitted_upto(options, pattern, lines, n - 1);
        let listed = emitted_upto(options, pattern, lines, n);
        assert forall|i: int|
            0 <= i < n && emits(options, pattern, #[trigger] lines[i]) implies listed.contains(
            i,
        ) by {
            if i < n - 1 {
                let k = choose|k: int| 0 <= k < before.len() && before[k] == i;
                assert(listed[k] == i);
            } else {
                assert(listed[listed.len() - 1] == i);
            }
        }
    }
}

/// What a search lists are the lines that are emitted, each of them once and
/// in the order of the source, and no other line.
pub proof fn lemma_emitted_lines(options: SearchOptions, pattern: Seq<char>, lines: Seq<Seq<char>>)
    ensures
        forall|k: int|
            0 <= k < emitted_lines(options, pattern, lines).len() ==> {
                &&& 0 <= #[trigger] emitted_lines(options, pattern, lines)[k] < lines.len()
                &&& emits(options, pattern, lines[emitted_lines(options, pattern, lines)[k]])
            },
        forall|j: int, k: int|
            0 <= j < k < emitted_lines(options, pattern, lines).len() ==> #[trigger] emitted_lines(
                options,
                pattern,
                lines,
            )[j] < #[trigger] emitted_lines(options, pattern, lines)[k],
        forall|i: int|
            0 <= i < lines.len() && emits(options, pattern, #[trigger] lines[i]) ==> emitted_lines(
                options,
                pattern,
                lines,
            ).contains(i),
{
    lemma_emitted_upto(options, pattern, lines, lines.len() as int);
}

/// The line at position `at`, counted from 0, of a source: its number is one
/// more than its position.
pub open spec fn line_at(
    lines: Seq<Seq<char>>,
    source_path: Option<Seq<char>>,
    at: int,
) -> LineView {
    LineView { index: (at + 1) as nat, content: lines[at], source_path }
}

/// Scans the lines of one source in order and collects what is to be written:
/// one text for each line that is emitted, in the order of the lines. Lines
/// are numbered from 1. A source without lines gives no text.
pub fn search_lines(
    options: &SearchOptions,
    pattern: &str,
    lines: &Vec<String>,
    source_path: Option<&str>,
) -> (emitted: Vec<String>)
    ensures
        emitted.len() == emitted_lines(*options, pattern@, line_texts(lines@)).len(),
        forall|k: int|
            0 <= k < emitted.len() ==> is_emit_text(
                *options,
                pattern@,
                line_at(
                    line_texts(lines@),
                    path_text(source_path),
                    emitted_lines(*options, pattern@, line_texts(lines@))[k],
                ),
                #[trigger] emitted@[k]@,
            ),
{
    let ghost texts = line_texts(lines@);
    let ghost path = path_text(source_path);
    let needle = if options.case_insensitive {
        fold_case(pattern)
    } else {
        String::from_str(pattern)
    };
    let mut emitted: Vec<String> = Vec::new();
    let mut at: usize = 0;
    while at < lines.len()
        invariant
            at <= lines.len(),
            texts == line_texts(lines@),
            needle@ == folded(*options, pattern@),
            path == path_text(source_path),
            emitted.len() == emitted_upto(*options, pattern@, texts, at as int).len(),
            forall|k: int|
                0 <= k < emitted.len() ==> is_emit_text(
                    *options,
                    pattern@,
                    line_at(texts, path, emitted_upto(*options, pattern@, texts, at as int)[k]),
                    #[trigger] emitted@[k]@,
                ),
        decreases lines.len() - at,
    {
        let content = lines[at].as_str();
        let record = LineRecord { index: at + 1, content, source_path };
        assert(record@ == line_at(texts, path, at as int));
        let result = if options.case_insensitive {
            let haystack = fold_case(content);
            evaluate_folded(options, &record, haystack.as_str(), needle.as_str())
        } else {
            evaluate_folded(options, &record, content, needle.as_str())
        };
        if let Some(instruction) = result {
            emitted.push(instruction.emit_text);
        }
        at += 1;
    }
    emitted
}

} // verus!
