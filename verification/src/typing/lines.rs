//! Laying the words of a test out in lines of a given width, and the text
//! of the whole test.
use super::typing_test::TypingTest;
use super::word::letter_chars;
use crate::text::joined;
use vstd::prelude::*;
use vstd::string::StringExecFns;

verus! {

/// After laying out the words of widths `ws` (each with its space): how
/// many lines were closed, and how wide the open line is. A word that
/// would bring the open line to `max_width` or past it starts a new line.
pub open spec fn layout(ws: Seq<usize>, max_width: int) -> (int, int)
    decreases ws.len(),
{
    if ws.len() == 0 {
        (0, 0)
    } else {
        let (closed, open) = layout(ws.drop_last(), max_width);
        let w = ws.last() as int;
        if open + w >= max_width {
            (closed + 1, w)
        } else {
            (closed, open + w)
        }
    }
}

/// The line the word `i` is laid out on.
pub open spec fn line_of(ws: Seq<usize>, max_width: int, i: int) -> int {
    layout(ws.take(i + 1), max_width).0
}

/// Lays the words of widths `word_widths` (each with its space) out in
/// lines of `max_width`: the line of each word, and the line of the word
/// `cursor_word` (0 when there is no such word). Each word's width is added
/// to the width of the open line, which must fit in a `usize`.
pub fn split_into_lines(word_widths: &Vec<usize>, max_width: usize, cursor_word: usize) -> (res: (
    Vec<usize>,
    usize,
))
    requires
        forall|i: int|
            0 <= i < word_widths@.len() ==> #[trigger] layout(word_widths@.take(i), max_width as int).1
                + word_widths@[i] <= usize::MAX,
    ensures
        res.0@.len() == word_widths@.len(),
        forall|i: int|
            0 <= i < word_widths@.len() ==> #[trigger] res.0@[i] == line_of(
                word_widths@,
                max_width as int,
                i,
            ),
        res.1 == if cursor_word < word_widths@.len() {
            line_of(word_widths@, max_width as int, cursor_word as int)
        } else {
            0
        },
{
    let ghost ws = word_widths@;
    let n = word_widths.len();
    let mut lines: Vec<usize> = Vec::new();
    let mut closed: usize = 0;
    let mut open: usize = 0;
    let mut cursor_line: usize = 0;
    for i in 0..n
        invariant
            n == ws.len(),
            ws == word_widths@,
            forall|j: int|
                0 <= j < ws.len() ==> #[trigger] layout(ws.take(j), max_width as int).1 + ws[j]
                    <= usize::MAX,
            (closed as int, open as int) == layout(ws.take(i as int), max_width as int),
            closed <= i,
            lines@.len() == i,
            forall|j: int| 0 <= j < i ==> #[trigger] lines@[j] == line_of(ws, max_width as int, j),
            cursor_line == if cursor_word < i {
                line_of(ws, max_width as int, cursor_word as int)
            } else {
                0
            },
    {
        proof {
            assert(layout(ws.take(i as int), max_width as int).1 + ws[i as int] <= usize::MAX);
            assert(ws.take(i + 1).drop_last() =~= ws.take(i as int));
        }
        let w = word_widths[i];
        if open + w >= max_width {
            closed = closed + 1;
            open = w;
        } else {
            open = open + w;
        }
        lines.push(closed);
        if i == cursor_word {
            cursor_line = closed;
        }
    }
    assert(ws.take(n as int) =~= ws);
    (lines, cursor_line)
}

/// Whether laying out the words of widths `word_widths` in lines of
/// `max_width` keeps the width of every open line within a `usize` (what
/// `split_into_lines` requires).
pub fn layout_fits(word_widths: &Vec<usize>, max_width: usize) -> (res: bool)
    ensures
        res == forall|i: int|
            0 <= i < word_widths@.len() ==> #[trigger] layout(word_widths@.take(i), max_width as int).1
                + word_widths@[i] <= usize::MAX,
{
    let ghost ws = word_widths@;
    let n = word_widths.len();
    let mut open: usize = 0;
    for i in 0..n
        invariant
            n == ws.len(),
            ws == word_widths@,
            open as int == layout(ws.take(i as int), max_width as int).1,
            forall|j: int|
                0 <= j < i ==> #[trigger] layout(ws.take(j), max_width as int).1 + ws[j] <= usize::MAX,
    {
        let w = word_widths[i];
        assert(ws.take(i + 1).drop_last() =~= ws.take(i as int));
        if w > usize::MAX - open {
            assert(layout(ws.take(i as int), max_width as int).1 + ws[i as int] > usize::MAX);
            return false;
        }
        if open + w >= max_width {
            open = w;
        } else {
            open = open + w;
        }
    }
    true
}

impl TypingTest {
    /// The text of the test: each word's letters, extra letters included,
    /// the words separated by single spaces.
    pub fn to_string(&self) -> (res: String)
        ensures
            res@ == joined(self.words@.map_values(|w: super::word::Word| letter_chars(w.letters@))),
    {
        let ghost ws = self.words@.map_values(|w: super::word::Word| letter_chars(w.letters@));
        let mut text = String::new();
        let n = self.words.len();
        for i in 0..n
            invariant
                n == self.words@.len(),
                ws == self.words@.map_values(|w: super::word::Word| letter_chars(w.letters@)),
                text@ == joined(ws.take(i as int)),
        {
            if i > 0 {
                text.append(" ");
            }
            let word = self.words[i].to_string();
            text.append(word.as_str());
            proof {
                reveal_strlit(" ");
                assert(ws.take(i + 1).drop_last() =~= ws.take(i as int));
                assert(ws.take(i + 1).last() == ws[i as int]);
                if i == 0 {
                    assert(ws.take(1) =~= seq![ws[0]]);
                    assert(text@ =~= ws[0]);
                } else {
                    assert(text@ =~= joined(ws.take(i as int)) + seq![' '] + ws[i as int]);
                }
            }
        }
        assert(ws.take(n as int) =~= ws);
        text
    }
}

} // verus!
