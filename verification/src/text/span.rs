//! Spans of source text.

use vstd::prelude::*;

verus! {

/// A stretch of source text: the character positions `start..end` and the
/// characters found there.
#[derive(Debug)]
pub struct TextSpan {
    pub start: usize,
    pub end: usize,
    pub literal: String,
}

impl Clone for TextSpan {
    fn clone(&self) -> (r: Self)
        ensures
            r == *self,
    {
        TextSpan { start: self.start, end: self.end, literal: self.literal.clone() }
    }
}

/// `sorted` with `span` put behind every span that starts no later than it
/// does.
pub open spec fn insert_by_start(sorted: Seq<TextSpan>, span: TextSpan) -> Seq<TextSpan>
    decreases sorted.len(),
{
    if sorted.len() == 0 || sorted.last().start <= span.start {
        sorted.push(span)
    } else {
        insert_by_start(sorted.drop_last(), span).push(sorted.last())
    }
}

/// The spans in the order of their starts; spans that start at the same
/// place stay in the order in which they came.
pub open spec fn sorted_by_start(spans: Seq<TextSpan>) -> Seq<TextSpan>
    decreases spans.len(),
{
    if spans.len() == 0 {
        Seq::empty()
    } else {
        insert_by_start(sorted_by_start(spans.drop_last()), spans.last())
    }
}

/// The literals of the spans, one behind the other.
pub open spec fn joined_literals(spans: Seq<TextSpan>) -> Seq<char>
    decreases spans.len(),
{
    if spans.len() == 0 {
        Seq::empty()
    } else {
        joined_literals(spans.drop_last()) + spans.last().literal@
    }
}

pub proof fn lemma_insert_by_start_len(sorted: Seq<TextSpan>, span: TextSpan)
    ensures
        insert_by_start(sorted, span).len() == sorted.len() + 1,
    decreases sorted.len(),
{
    if sorted.len() == 0 || sorted.last().start <= span.start {
    } else {
        lemma_insert_by_start_len(sorted.drop_last(), span);
    }
}

/// Whether no span starts later than a span behind it.
pub open spec fn ordered_by_start(spans: Seq<TextSpan>) -> bool {
    forall|i: int, j: int| 0 <= i < j < spans.len() ==> spans[i].start <= spans[j].start
}

proof fn lemma_insert_keeps_order(sorted: Seq<TextSpan>, span: TextSpan)
    requires
        ordered_by_start(sorted),
    ensures
        ordered_by_start(insert_by_start(sorted, span)),
        forall|k: int|
            0 <= k < insert_by_start(sorted, span).len() ==> insert_by_start(sorted, span)[k]
                == span || exists|i: int|
                0 <= i < sorted.len() && insert_by_start(sorted, span)[k] == sorted[i],
    decreases sorted.len(),
{
    if sorted.len() == 0 || sorted.last().start <= span.start {
        let after = sorted.push(span);
        assert forall|k: int| 0 <= k < after.len() implies after[k] == span || exists|i: int|
            0 <= i < sorted.len() && after[k] == sorted[i] by {
            if k < sorted.len() {
                assert(after[k] == sorted[k]);
            }
        }
    } else {
        let front = sorted.drop_last();
        lemma_insert_keeps_order(front, span);
        lemma_insert_by_start_len(front, span);
        let inner = insert_by_start(front, span);
        let after = inner.push(sorted.last());
        assert forall|i: int, j: int| 0 <= i < j < after.len() implies after[i].start
            <= after[j].start by {
            if j == after.len() - 1 {
                if after[i] != span {
                    let w = choose|w: int| 0 <= w < front.len() && inner[i] == front[w];
                    assert(front[w] == sorted[w]);
                }
            }
        }
        assert forall|k: int| 0 <= k < after.len() implies after[k] == span || exists|i: int|
            0 <= i < sorted.len() && after[k] == sorted[i] by {
            if k < inner.len() {
                if inner[k] != span {
                    let w = choose|w: int| 0 <= w < front.len() && inner[k] == front[w];
                    assert(front[w] == sorted[w]);
                }
            } else {
                assert(after[k] == sorted[sorted.len() - 1]);
            }
        }
    }
}

/// Sorting puts the spans in the order of their starts: the first is one
/// with the lowest start, the last one with the highest.
pub proof fn lemma_sorted_by_start_is_ordered(spans: Seq<TextSpan>)
    ensures
        ordered_by_start(sorted_by_start(spans)),
    decreases spans.len(),
{
    if spans.len() > 0 {
        lemma_sorted_by_start_is_ordered(spans.drop_last());
        lemma_insert_keeps_order(sorted_by_start(spans.drop_last()), spans.last());
    }
}

impl TextSpan {
    pub fn new(start: usize, end: usize, literal: String) -> (r: Self)
        ensures
            r.start == start,
            r.end == end,
            r.literal == literal,
    {
        Self { start, end, literal }
    }

    /// One span for several: from the lowest start to the end of the span
    /// that starts last, with the literals joined in the order of the
    /// starts.
    pub fn combine(spans: Vec<TextSpan>) -> (r: Self)
        requires
            spans.len() > 0,
        ensures
            r.start == sorted_by_start(spans@).first().start,
            r.end == sorted_by_start(spans@).last().end,
            r.literal@ == joined_literals(sorted_by_start(spans@)),
    {
        let mut sorted: Vec<TextSpan> = Vec::new();
        let mut i: usize = 0;
        assert(spans@.take(0) =~= Seq::<TextSpan>::empty());
        while i < spans.len()
            invariant
                i <= spans.len(),
                sorted@ == sorted_by_start(spans@.take(i as int)),
                sorted.len() == i,
            decreases spans.len() - i,
        {
            let span = spans[i].clone();
            proof {
                let longer = spans@.take(i + 1);
                assert(longer.drop_last() =~= spans@.take(i as int));
                assert(longer.last() == span);
                lemma_insert_by_start_len(sorted@, span);
            }
            // The place of the span: behind the last span that starts no
            // later than it does.
            let mut j: usize = sorted.len();
            assert(sorted@.take(j as int) =~= sorted@);
            assert(sorted@.skip(j as int) =~= Seq::<TextSpan>::empty());
            while j > 0 && sorted[j - 1].start > span.start
                invariant
                    j <= sorted.len(),
                    insert_by_start(sorted@, span) == insert_by_start(
                        sorted@.take(j as int),
                        span,
                    ) + sorted@.skip(j as int),
                decreases j,
            {
                proof {
                    let prefix = sorted@.take(j as int);
                    assert(prefix.last() == sorted@[j - 1]);
                    assert(prefix.drop_last() =~= sorted@.take(j - 1));
                    assert(insert_by_start(prefix.drop_last(), span).push(prefix.last())
                        + sorted@.skip(j as int) =~= insert_by_start(prefix.drop_last(), span)
                        + sorted@.skip(j - 1));
                }
                j = j - 1;
            }
            proof {
                let prefix = sorted@.take(j as int);
                if j > 0 {
                    assert(prefix.last() == sorted@[j - 1]);
                }
                assert(prefix.push(span) + sorted@.skip(j as int) =~= sorted@.insert(
                    j as int,
                    span,
                ));
            }
            sorted.insert(j, span);
            i = i + 1;
        }
        assert(spans@.take(i as int) =~= spans@);
        let start = sorted[0].start;
        let end = sorted[sorted.len() - 1].end;
        let mut literal = String::new();
        let mut k: usize = 0;
        assert(sorted@.take(0) =~= Seq::<TextSpan>::empty());
        while k < sorted.len()
            invariant
                k <= sorted.len(),
                literal@ == joined_literals(sorted@.take(k as int)),
            decreases sorted.len() - k,
        {
            proof {
                let longer = sorted@.take(k + 1);
                assert(longer.drop_last() =~= sorted@.take(k as int));
                assert(longer.last() == sorted@[k as int]);
            }
            literal.append(sorted[k].literal.as_str());
            k = k + 1;
        }
        assert(sorted@.take(k as int) =~= sorted@);
        TextSpan::new(start, end, literal)
    }

    /// The number of characters the span covers.
    pub fn length(&self) -> (r: usize)
        requires
            self.start <= self.end,
        ensures
            r == self.end - self.start,
    {
        self.end - self.start
    }

    /// The part of `input` that the span covers.
    pub fn literal<'a>(&self, input: &'a str) -> (r: &'a str)
        requires
            self.start <= self.end <= input@.len(),
        ensures
            r@ == input@.subrange(self.start as int, self.end as int),
    {
        input.substring_char(self.start, self.end)
    }
}

} // verus!
