//! Source text and positions in it.

use vstd::prelude::*;

pub mod span;

verus! {

/// The number of line breaks in `text`.
pub open spec fn newline_count(text: Seq<char>) -> nat
    decreases text.len(),
{
    if text.len() == 0 {
        0
    } else {
        newline_count(text.drop_last()) + if text.last() == '\n' {
            1nat
        } else {
            0nat
        }
    }
}

/// The sum, over the first `count` lines of `text`, of the line's length plus
/// one for its line break. A trailing stretch without a line break counts as a
/// line; an empty one does not.
pub open spec fn lines_extent(text: Seq<char>, count: nat) -> int
    decreases text.len(),
{
    if count == 0 || text.len() == 0 {
        0
    } else {
        let first = first_line_len(text);
        if first < text.len() {
            proof {
                lemma_first_line_len_bounds(text);
            }
            first + 1 + lines_extent(text.skip(first + 1), (count - 1) as nat)
        } else {
            first + 1
        }
    }
}

/// The number of characters in front of the first line break of `text`, or
/// the length of `text` if it has none.
pub open spec fn first_line_len(text: Seq<char>) -> int
    decreases text.len(),
{
    if text.len() == 0 || text[0] == '\n' {
        0
    } else {
        1 + first_line_len(text.skip(1))
    }
}

pub proof fn lemma_first_line_len_bounds(text: Seq<char>)
    ensures
        0 <= first_line_len(text) <= text.len(),
        first_line_len(text) < text.len() ==> text[first_line_len(text)] == '\n',
        forall|i: int| 0 <= i < first_line_len(text) ==> text[i] != '\n',
    decreases text.len(),
{
    if text.len() == 0 || text[0] == '\n' {
    } else {
        let rest = text.skip(1);
        lemma_first_line_len_bounds(rest);
        assert forall|i: int| 0 <= i < first_line_len(text) implies text[i] != '\n' by {
            if i > 0 {
                assert(rest[i - 1] == text[i]);
            }
        }
    }
}

/// A program's text, addressed by character position.
pub struct SourceText {
    text: String,
}

impl View for SourceText {
    type V = Seq<char>;

    closed spec fn view(&self) -> Seq<char> {
        self.text@
    }
}

impl SourceText {
    pub fn new(text: String) -> (r: Self)
        ensures
            r@ == text@,
    {
        Self { text }
    }

    /// The zero-based number of the line that holds `position`: the number
    /// of line breaks in front of it.
    pub fn line_index(&self, position: usize) -> (r: usize)
        requires
            position < self@.len(),
        ensures
            r == newline_count(self@.take(position as int)),
    {
        let text = self.text.as_str();
        let mut count: usize = 0;
        let mut i: usize = 0;
        while i < position
            invariant
                i <= position < text@.len(),
                text@ == self@,
                count == newline_count(text@.take(i as int)),
                count <= i,
            decreases position - i,
        {
            let c = text.get_char(i);
            proof {
                let next = text@.take(i + 1);
                assert(next.drop_last() == text@.take(i as int));
                assert(next.last() == text@[i as int]);
            }
            if c == '\n' {
                count = count + 1;
            }
            i = i + 1;
        }
        count
    }

    /// The extent of the first `index` lines: where line `index` starts,
    /// when the text has that many line breaks.
    pub fn line_start(&self, index: usize) -> (r: usize)
        requires
            self@.len() < usize::MAX,
        ensures
            r == lines_extent(self@, index as nat),
    {
        let text = self.text.as_str();
        let len = text.unicode_len();
        let mut lines: usize = 0;
        let mut i: usize = 0;
        let mut line_begin: usize = 0;
        assert(text@.skip(0) == text@);
        // Scans for line breaks; `line_begin` is where the current line began.
        while i < len && lines < index
            invariant
                text@ == self@,
                len == text@.len(),
                len < usize::MAX,
                line_begin <= i <= len,
                lines <= index,
                forall|j: int| line_begin <= j < i ==> text@[j] != '\n',
                lines_extent(text@, index as nat) == line_begin + lines_extent(
                    text@.skip(line_begin as int),
                    (index - lines) as nat,
                ),
            decreases len - i,
        {
            let c = text.get_char(i);
            if c == '\n' {
                proof {
                    let rest = text@.skip(line_begin as int);
                    lemma_first_line_len_at(rest, i - line_begin);
                    assert(rest.skip(i - line_begin + 1) == text@.skip(i + 1));
                }
                lines = lines + 1;
                line_begin = i + 1;
            }
            i = i + 1;
        }
        if lines < index && line_begin < len {
            proof {
                let rest = text@.skip(line_begin as int);
                lemma_first_line_len_at(rest, len - line_begin);
            }
            len + 1
        } else {
            proof {
                let rest = text@.skip(line_begin as int);
                if lines < index {
                    assert(rest.len() == 0);
                }
            }
            line_begin
        }
    }
}

/// If no character of `text` in front of `k` is a line break, and `k` is
/// the end of `text` or a line break, the first line has length `k`.
pub proof fn lemma_first_line_len_at(text: Seq<char>, k: int)
    requires
        0 <= k <= text.len(),
        forall|j: int| 0 <= j < k ==> text[j] != '\n',
        k < text.len() ==> text[k] == '\n',
    ensures
        first_line_len(text) == k,
    decreases text.len(),
{
    if text.len() == 0 || text[0] == '\n' {
    } else {
        let rest = text.skip(1);
        assert forall|j: int| 0 <= j < k - 1 implies rest[j] != '\n' by {
            assert(rest[j] == text[j + 1]);
        }
        lemma_first_line_len_at(rest, k - 1);
    }
}

} // verus!
