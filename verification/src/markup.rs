//! Emphasis markup: wrapping the matched pieces of a line so that a terminal
//! shows them in red.
//!
//! Whether a piece is wrapped at all is decided by the `colored` crate, which
//! consults the terminal and the process environment. The contracts here
//! therefore admit both outcomes for every piece.

use crate::text::{is_infix, lemma_infix_iff_occurrences, occurrences, positions, spaced};
use colored::Colorize;
use vstd::prelude::*;

verus! {

/// The escape sequence that switches the foreground colour to red.
pub open spec fn red_on() -> Seq<char> {
    seq!['\x1B', '[', '3', '1', 'm']
}

/// The escape sequence that switches all styling off again.
pub open spec fn style_reset() -> Seq<char> {
    seq!['\x1B', '[', '0', 'm']
}

/// The texts of a list of strings.
pub open spec fn mark_texts(marks: Seq<String>) -> Seq<Seq<char>> {
    marks.map_values(|m: String| m@)
}

/// The pieces of `width` characters that start at `starts` in `text`.
pub open spec fn pieces(text: Seq<char>, starts: Seq<int>, width: int) -> Seq<Seq<char>> {
    Seq::new(starts.len(), |k: int| text.subrange(starts[k], starts[k] + width))
}

/// What is left to write of `text` from position `from` on, when the pieces
/// from number `k` on are each replaced by the mark of the same number.
pub open spec fn splice_from(
    text: Seq<char>,
    starts: Seq<int>,
    width: int,
    marks: Seq<Seq<char>>,
    k: int,
    from: int,
) -> Seq<char>
    decreases starts.len() - k,
{
    if k < 0 || k >= starts.len() {
        text.subrange(from, text.len() as int)
    } else {
        text.subrange(from, starts[k]) + marks[k] + splice_from(
            text,
            starts,
            width,
            marks,
            k + 1,
            starts[k] + width,
        )
    }
}

/// `text` with each piece of `width` characters that starts at one of `starts`
/// replaced by the mark of the same number. The replacement goes by position:
/// what a mark holds is never searched again.
pub open spec fn splice(
    text: Seq<char>,
    starts: Seq<int>,
    width: int,
    marks: Seq<Seq<char>>,
) -> Seq<char> {
    splice_from(text, starts, width, marks, 0, 0)
}

/// `text` with every non-overlapping occurrence of `needle`, leftmost first,
/// replaced by `replacement`.
pub open spec fn replaced(text: Seq<char>, needle: Seq<char>, replacement: Seq<char>) -> Seq<char> {
    splice(
        text,
        occurrences(text, needle),
        needle.len() as int,
        Seq::new(occurrences(text, needle).len(), |k: int| replacement),
    )
}

/// A piece as a terminal shows it in red: the red sequence, the piece, the
/// reset sequence. A reset sequence inside the piece is followed by the red
/// sequence once more, so that the colour lasts to the end of the piece.
pub open spec fn red_styled(piece: Seq<char>) -> Seq<char> {
    red_on() + replaced(piece, style_reset(), style_reset() + red_on()) + style_reset()
}

/// `mark` is one of the two forms in which a piece comes back from painting:
/// untouched, where colour is switched off, or styled in red.
pub open spec fn is_painted(piece: Seq<char>, mark: Seq<char>) -> bool {
    mark == piece || mark == red_styled(piece)
}

/// There is one mark for each piece, and each mark is its piece painted.
pub open spec fn marks_fit(
    text: Seq<char>,
    starts: Seq<int>,
    width: int,
    marks: Seq<Seq<char>>,
) -> bool {
    &&& marks.len() == starts.len()
    &&& forall|k: int|
        0 <= k < starts.len() ==> is_painted(
            text.subrange(starts[k], starts[k] + width),
            #[trigger] marks[k],
        )
}

/// A text without occurrences to replace is left as it is.
pub proof fn lemma_splice_nothing(text: Seq<char>, width: int, marks: Seq<Seq<char>>)
    ensures
        splice(text, Seq::empty(), width, marks) == text,
{
    assert(text.subrange(0, text.len() as int) =~= text);
}

/// A piece that holds no reset sequence is styled by putting the red sequence
/// before it and the reset sequence behind it.
pub proof fn lemma_red_styled_simple(piece: Seq<char>)
    requires
        !is_infix(piece, style_reset()),
    ensures
        red_styled(piece) == red_on() + piece + style_reset(),
{
    lemma_infix_iff_occurrences(piece, style_reset());
    assert(occurrences(piece, style_reset()) =~= Seq::empty());
    lemma_splice_nothing(
        piece,
        style_reset().len() as int,
        Seq::new(occurrences(piece, style_reset()).len(), |k: int| style_reset() + red_on()),
    );
}

/// From any piece boundary on, writing the bare pieces gives the rest of the
/// text.
proof fn lemma_splice_from_pieces(text: Seq<char>, starts: Seq<int>, width: int, k: int, from: int)
    requires
        spaced(starts, width, text.len() as int),
        0 <= k <= starts.len(),
        0 <= from <= text.len(),
        k < starts.len() ==> from <= starts[k],
    ensures
        splice_from(text, starts, width, pieces(text, starts, width), k, from) == text.subrange(
            from,
            text.len() as int,
        ),
    decreases starts.len() - k,
{
    if k < starts.len() {
        let next = starts[k] + width;
        assert(k + 1 < starts.len() ==> starts[k] + width <= starts[k + 1]);
        lemma_splice_from_pieces(text, starts, width, k + 1, next);
        assert(text.subrange(from, starts[k]) + text.subrange(starts[k], next) + text.subrange(
            next,
            text.len() as int,
        ) =~= text.subrange(from, text.len() as int));
    }
}

/// Taking the markup off again gives the text back: where every mark is
/// replaced by the bare piece it stands for, the spliced text is the text
/// itself, character for character.
pub proof fn lemma_splice_of_pieces(text: Seq<char>, starts: Seq<int>, width: int)
    requires
        spaced(starts, width, text.len() as int),
    ensures
        splice(text, starts, width, pieces(text, starts, width)) == text,
{
    lemma_splice_from_pieces(text, starts, width, 0, 0);
    assert(text.subrange(0, text.len() as int) =~= text);
}

/// Calls `colored::Colorize::red` on the piece and renders the coloured string
/// with `to_string`. Where `colored` finds colour switched off (by the
/// environment, because the output is no terminal, or by an override), the
/// text comes back as it was. Otherwise it comes back between the red sequence
/// and the reset sequence, with the red sequence repeated after every reset
/// sequence that the piece itself holds. The switch is taken to stay as it is
/// while one piece is rendered; from one piece to the next it may change.
#[verifier::external_body]
fn paint_red(piece: &str) -> (mark: String)
    ensures
        is_painted(piece@, mark@),
{
    piece.red().to_string()
}

/// Checks that the pieces lie inside a text of `len` characters, in order and
/// without overlap.
fn is_spaced(starts: &Vec<usize>, width: usize, len: usize) -> (ok: bool)
    ensures
        ok == spaced(positions(starts@), width as int, len as int),
{
    if starts.len() == 0 {
        return true;
    }
    if width > len {
        assert(positions(starts@)[0] + width > len);
        return false;
    }
    let room: usize = len - width;
    let mut k: usize = 0;
    while k < starts.len()
        invariant
            k <= starts.len(),
            room + width == len,
            forall|i: int| 0 <= i < k ==> #[trigger] starts@[i] <= room,
            forall|i: int, j: int|
                0 <= i < j < k ==> #[trigger] starts@[i] + width <= #[trigger] starts@[j],
        decreases starts.len() - k,
    {
        if starts[k] > room {
            assert(positions(starts@)[k as int] + width > len);
            return false;
        }
        if k > 0 && (starts[k] < starts[k - 1] || starts[k] - starts[k - 1] < width) {
            assert(positions(starts@)[k - 1] + width > positions(starts@)[k as int]);
            return false;
        }
        k += 1;
    }
    assert forall|i: int, j: int| 0 <= i < j < starts.len() implies #[trigger] positions(
        starts@,
    )[i] + width <= #[trigger] positions(starts@)[j] by {
        assert(starts@[i] + width <= starts@[j]);
    }
    assert forall|i: int| 0 <= i < starts.len() implies 0 <= #[trigger] positions(starts@)[i]
        && positions(starts@)[i] + width <= len by {
        assert(starts@[i] <= room);
    }
    true
}

/// Paints each piece of `text`, in order.
pub(crate) fn paint_pieces(text: &str, starts: &Vec<usize>, width: usize) -> (marks: Vec<String>)
    requires
        spaced(positions(starts@), width as int, text@.len() as int),
    ensures
        marks_fit(text@, positions(starts@), width as int, mark_texts(marks@)),
{
    let len = text.unicode_len();
    let mut marks: Vec<String> = Vec::new();
    let mut k: usize = 0;
    while k < starts.len()
        invariant
            k <= starts.len(),
            len == text@.len(),
            spaced(positions(starts@), width as int, len as int),
            marks.len() == k,
            forall|i: int|
                0 <= i < k ==> is_painted(
                    text@.subrange(starts@[i] as int, starts@[i] + width),
                    #[trigger] marks@[i]@,
                ),
        decreases starts.len() - k,
    {
        let start = starts[k];
        assert(0 <= positions(starts@)[k as int] && positions(starts@)[k as int] + width <= len);
        let piece = text.substring_char(start, start + width);
        marks.push(paint_red(piece));
        k += 1;
    }
    assert forall|i: int| 0 <= i < starts.len() implies is_painted(
        text@.subrange(positions(starts@)[i], positions(starts@)[i] + width),
        #[trigger] mark_texts(marks@)[i],
    ) by {
        assert(is_painted(text@.subrange(starts@[i] as int, starts@[i] + width), marks@[i]@));
    }
    marks
}

/// Writes `text` with each piece of `width` characters that starts at one of
/// `starts` replaced by the mark of the same number. The marks are taken as
/// they are given. There is no result where the number of marks is not the
/// number of pieces, or where the pieces do not lie inside the text in order
/// and without overlap.
pub fn splice_marks(text: &str, starts: &Vec<usize>, width: usize, marks: &Vec<String>) -> (out:
    Option<String>)
    ensures
        out is Some <==> marks.len() == starts.len() && spaced(
            positions(starts@),
            width as int,
            text@.len() as int,
        ),
        out matches Some(s) ==> s@ == splice(
            text@,
            positions(starts@),
            width as int,
            mark_texts(marks@),
        ),
{
    let len = text.unicode_len();
    if marks.len() != starts.len() || !is_spaced(starts, width, len) {
        return None;
    }
    let ghost at = positions(starts@);
    let ghost texts = mark_texts(marks@);
    let mut out = String::new();
    let mut from: usize = 0;
    let mut k: usize = 0;
    while k < starts.len()
        invariant
            k <= starts.len(),
            marks.len() == starts.len(),
            len == text@.len(),
            at == positions(starts@),
            texts == mark_texts(marks@),
            spaced(at, width as int, len as int),
            from <= len,
            k < starts.len() ==> from <= starts@[k as int],
            out@ + splice_from(text@, at, width as int, texts, k as int, from as int) =~= splice(
                text@,
                at,
                width as int,
                texts,
            ),
        decreases starts.len() - k,
    {
        let start = starts[k];
        assert(0 <= at[k as int] && at[k as int] + width <= len);
        assert(k + 1 < starts.len() ==> at[k as int] + width <= at[k + 1]);
        out.append(text.substring_char(from, start));
        out.append(marks[k].as_str());
        from = start + width;
        k += 1;
    }
    out.append(text.substring_char(from, len));
    Some(out)
}

} // verus!
