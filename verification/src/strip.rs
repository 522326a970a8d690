//! Taking emphasis markup off again: what stripping is, and that it gives a
//! line back as it was.

use crate::markup::{
    is_painted, lemma_red_styled_simple, marks_fit, red_on, red_styled, splice, splice_from,
    style_reset,
};
use crate::text::{is_infix, occurs_at, spaced};
use vstd::prelude::*;

verus! {

/// A text without its emphasis markup: read from left to right, with every red
/// sequence and every reset sequence left out.
pub open spec fn strip_markup(text: Seq<char>) -> Seq<char>
    decreases text.len(),
{
    if text.len() == 0 {
        text
    } else if red_on().is_prefix_of(text) {
        strip_markup(text.skip(red_on().len() as int))
    } else if style_reset().is_prefix_of(text) {
        strip_markup(text.skip(style_reset().len() as int))
    } else {
        seq![text[0]] + strip_markup(text.skip(1))
    }
}

/// A text that holds neither of the two markup sequences.
pub open spec fn markup_free(text: Seq<char>) -> bool {
    !is_infix(text, red_on()) && !is_infix(text, style_reset())
}

/// Stripping passes over a stretch of a markup-free text that is followed by
/// nothing or by an escape character, and goes on behind it.
proof fn lemma_strip_passes(text: Seq<char>, from: int, to: int, tail: Seq<char>)
    requires
        markup_free(text),
        0 <= from <= to <= text.len(),
        tail.len() > 0 ==> tail[0] == '\x1B',
    ensures
        strip_markup(text.subrange(from, to) + tail) == text.subrange(from, to) + strip_markup(
            tail,
        ),
    decreases to - from,
{
    let stretch = text.subrange(from, to);
    let whole = stretch + tail;
    if from == to {
        assert(whole =~= tail);
        assert(stretch + strip_markup(tail) =~= strip_markup(tail));
    } else {
        if red_on().is_prefix_of(whole) {
            if to - from >= red_on().len() {
                assert(text.subrange(from, from + red_on().len()) =~= red_on());
                assert(occurs_at(text, red_on(), from));
            } else {
                assert(whole[to - from] == red_on()[to - from]);
            }
        }
        if style_reset().is_prefix_of(whole) {
            if to - from >= style_reset().len() {
                assert(text.subrange(from, from + style_reset().len()) =~= style_reset());
                assert(occurs_at(text, style_reset(), from));
            } else {
                assert(whole[to - from] == style_reset()[to - from]);
            }
        }
        lemma_strip_passes(text, from + 1, to, tail);
        assert(whole.skip(1) =~= text.subrange(from + 1, to) + tail);
        assert(seq![whole[0]] + (text.subrange(from + 1, to) + strip_markup(tail)) =~= stretch
            + strip_markup(tail));
    }
}

/// A piece of a markup-free text is styled by putting the red sequence before
/// it and the reset sequence behind it.
proof fn lemma_red_styled_simple_at(text: Seq<char>, from: int, to: int)
    requires
        markup_free(text),
        0 <= from <= to <= text.len(),
    ensures
        red_styled(text.subrange(from, to)) == red_on() + text.subrange(from, to) + style_reset(),
{
    let piece = text.subrange(from, to);
    if is_infix(piece, style_reset()) {
        let at = choose|at: int| occurs_at(piece, style_reset(), at);
        assert(text.subrange(from + at, from + at + style_reset().len()) =~= piece.subrange(
            at,
            at + style_reset().len(),
        ));
        assert(occurs_at(text, style_reset(), from + at));
    }
    lemma_red_styled_simple(piece);
}

/// Stripping takes a styled piece of a markup-free text out of its markup.
proof fn lemma_strip_styled(text: Seq<char>, from: int, to: int, rest: Seq<char>)
    requires
        markup_free(text),
        0 <= from <= to <= text.len(),
    ensures
        strip_markup(red_styled(text.subrange(from, to)) + rest) == text.subrange(from, to)
            + strip_markup(rest),
{
    let piece = text.subrange(from, to);
    lemma_red_styled_simple_at(text, from, to);
    let closing = style_reset() + rest;
    let inner = piece + closing;
    let whole = red_styled(piece) + rest;
    assert(whole =~= red_on() + inner);
    assert(red_on().is_prefix_of(whole));
    assert(whole.skip(red_on().len() as int) =~= inner);
    lemma_strip_passes(text, from, to, closing);
    assert(style_reset().is_prefix_of(closing));
    assert(!red_on().is_prefix_of(closing)) by {
        assert(closing[2] == '0');
    }
    assert(closing.skip(style_reset().len() as int) =~= rest);
}

/// A stretch that is written bare, a bare piece behind it and what follows
/// read as one longer bare stretch and what follows.
proof fn lemma_join_plain(
    text: Seq<char>,
    base: int,
    from: int,
    start: int,
    next: int,
    rest: Seq<char>,
)
    requires
        0 <= base <= from <= start <= next <= text.len(),
    ensures
        text.subrange(base, from) + (text.subrange(from, start) + text.subrange(start, next)
            + rest) == text.subrange(base, next) + rest,
{
    assert(text.subrange(base, from) + (text.subrange(from, start) + text.subrange(start, next)
        + rest) =~= text.subrange(base, next) + rest);
}

/// Stripping a bare stretch, a styled piece behind it and a remainder that
/// strips to the end of the text gives the text from the start of the
/// stretch on.
proof fn lemma_strip_styled_step(
    text: Seq<char>,
    base: int,
    from: int,
    start: int,
    next: int,
    rest: Seq<char>,
)
    requires
        markup_free(text),
        0 <= base <= from <= start <= next <= text.len(),
        strip_markup(rest) == text.subrange(next, text.len() as int),
    ensures
        strip_markup(
            text.subrange(base, from) + (text.subrange(from, start) + red_styled(
                text.subrange(start, next),
            ) + rest),
        ) == text.subrange(base, text.len() as int),
{
    let len = text.len() as int;
    let piece = text.subrange(start, next);
    let styled = red_styled(piece) + rest;
    lemma_red_styled_simple_at(text, start, next);
    assert(styled[0] == '\x1B');
    assert(text.subrange(base, from) + (text.subrange(from, start) + red_styled(piece) + rest)
        =~= text.subrange(base, start) + styled);
    lemma_strip_passes(text, base, start, styled);
    lemma_strip_styled(text, start, next, rest);
    assert(text.subrange(base, start) + (piece + text.subrange(next, len)) =~= text.subrange(
        base,
        len,
    ));
}

/// Stripping what is written from a piece boundary on, behind a stretch of
/// the text that is already written bare, gives the text from the start of
/// that stretch on.
proof fn lemma_strip_splice_from(
    text: Seq<char>,
    starts: Seq<int>,
    width: int,
    marks: Seq<Seq<char>>,
    k: int,
    base: int,
    from: int,
)
    requires
        markup_free(text),
        spaced(starts, width, text.len() as int),
        marks_fit(text, starts, width, marks),
        0 <= k <= starts.len(),
        0 <= base <= from <= text.len(),
        k < starts.len() ==> from <= starts[k],
    ensures
        strip_markup(text.subrange(base, from) + splice_from(text, starts, width, marks, k, from))
            == text.subrange(base, text.len() as int),
    decreases starts.len() - k,
{
    let len = text.len() as int;
    if k >= starts.len() {
        assert(text.subrange(base, from) + text.subrange(from, len) =~= text.subrange(base, len)
            + Seq::<char>::empty());
        lemma_strip_passes(text, base, len, Seq::empty());
        assert(text.subrange(base, len) + Seq::<char>::empty() =~= text.subrange(base, len));
    } else {
        let start = starts[k];
        let next = start + width;
        let piece = text.subrange(start, next);
        let rest = splice_from(text, starts, width, marks, k + 1, next);
        assert(0 <= start && next <= len);
        assert(k + 1 < starts.len() ==> starts[k] + width <= starts[k + 1]);
        assert(is_painted(piece, marks[k]));
        assert(splice_from(text, starts, width, marks, k, from) == text.subrange(from, start)
            + marks[k] + rest);
        if marks[k] == piece {
            lemma_strip_splice_from(text, starts, width, marks, k + 1, base, next);
            lemma_join_plain(text, base, from, start, next, rest);
        } else {
            lemma_strip_splice_from(text, starts, width, marks, k + 1, next, next);
            assert(text.subrange(next, next) + rest =~= rest);
            lemma_strip_styled_step(text, base, from, start, next, rest);
        }
    }
}

/// A text that holds no markup sequence has nothing to strip.
pub proof fn lemma_strip_markup_free(text: Seq<char>)
    requires
        markup_free(text),
    ensures
        strip_markup(text) == text,
{
    lemma_strip_passes(text, 0, text.len() as int, Seq::empty());
    assert(text.subrange(0, text.len() as int) + Seq::<char>::empty() =~= text);
}

/// Stripping the markup from a markup-free text in which pieces have been
/// painted gives the text back, whichever pieces came back styled.
pub proof fn lemma_strip_of_splice(
    text: Seq<char>,
    starts: Seq<int>,
    width: int,
    marks: Seq<Seq<char>>,
)
    requires
        markup_free(text),
        spaced(starts, width, text.len() as int),
        marks_fit(text, starts, width, marks),
    ensures
        strip_markup(splice(text, starts, width, marks)) == text,
{
    lemma_strip_splice_from(text, starts, width, marks, 0, 0, 0);
    assert(text.subrange(0, 0) + splice(text, starts, width, marks) =~= splice(
        text,
        starts,
        width,
        marks,
    ));
    assert(text.subrange(0, text.len() as int) =~= text);
}

} // verus!
