//! Text as a sequence of characters, and its lines.

use vstd::prelude::*;

verus! {

/// The character that ends a line.
pub const LINE_END: char = '\n';

/// The number of characters before the first line end of `text`, or the
/// length of `text` if it holds no line end.
pub open spec fn first_line_len(text: Seq<char>) -> nat
    decreases text.len(),
{
    if text.len() == 0 || text[0] == LINE_END {
        0
    } else {
        1 + first_line_len(text.drop_first())
    }
}

/// The lines of `text`: what stands between its line ends, before the first
/// and after the last.  A text without a line end is one line, and a text that
/// ends with a line end has an empty last line.
pub open spec fn lines_of(text: Seq<char>) -> Seq<Seq<char>>
    decreases text.len(),
{
    let first = first_line_len(text);
    if first >= text.len() {
        seq![text]
    } else {
        seq![text.subrange(0, first as int)] + lines_of(
            text.subrange(first as int + 1, text.len() as int),
        )
    }
}

/// The first line holds no line end and stops at one, or at the end of the
/// text.
pub proof fn lemma_first_line(text: Seq<char>)
    ensures
        first_line_len(text) <= text.len(),
        first_line_len(text) < text.len() ==> text[first_line_len(text) as int] == LINE_END,
        forall|i: int| 0 <= i < first_line_len(text) ==> #[trigger] text[i] != LINE_END,
    decreases text.len(),
{
    if text.len() != 0 && text[0] != LINE_END {
        let rest = text.drop_first();
        lemma_first_line(rest);
        assert forall|i: int| 0 <= i < first_line_len(text) implies #[trigger] text[i]
            != LINE_END by {
            if i > 0 {
                assert(text[i] == rest[i - 1]);
            }
        }
    }
}

/// The characters of `text`, in order.
pub fn chars_of(text: &str) -> (chars: Vec<char>)
    ensures
        chars@ == text@,
{
    let mut chars: Vec<char> = Vec::new();
    for c in iter: text.chars()
        invariant
            iter.seq() == text@,
            chars@ == iter.seq().subrange(0, iter.index() as int),
    {
        chars.push(c);
        assert(chars@ =~= iter.seq().subrange(0, iter.index() + 1));
    }
    assert(chars@ =~= text@);
    chars
}

/// Where the line that begins at `start` ends: the place of the next line end,
/// or the length of the text.
pub fn find_line_end(chars: &[char], start: usize) -> (end: usize)
    requires
        start <= chars@.len(),
    ensures
        start <= end <= chars@.len(),
        end - start == first_line_len(chars@.subrange(start as int, chars@.len() as int)),
{
    let size: usize = chars.len();
    let mut end: usize = start;
    while end < size && chars[end] != LINE_END
        invariant
            start <= end <= size,
            size == chars@.len(),
            first_line_len(chars@.subrange(start as int, size as int)) == (end - start)
                + first_line_len(chars@.subrange(end as int, size as int)),
        decreases size - end,
    {
        assert(chars@.subrange(end as int, size as int).drop_first() =~= chars@.subrange(
            end + 1,
            size as int,
        ));
        end = end + 1;
    }
    end
}

} // verus!
