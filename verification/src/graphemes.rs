//! Where the user-perceived characters of a text begin.

use crate::text::{byte_len, lemma_ends_are_boundaries, on_boundary, utf8_len};
use unicode_segmentation::UnicodeSegmentation;
use vstd::prelude::*;

verus! {

/// The byte offsets at which the extended grapheme clusters of `text` begin.
pub uninterp spec fn grapheme_starts(text: Seq<char>) -> Seq<usize>;

/// `UnicodeSegmentation::grapheme_indices` for extended clusters, each by its offset.
///
/// Which characters join into one cluster is Unicode's business and is not stated. What
/// is: the clusters follow one another without a gap, so that their offsets increase
/// from the start of the text and the text can be cut at each of them.
#[verifier::external_body]
pub(crate) fn grapheme_offsets(text: &str) -> (starts: Vec<usize>)
    ensures
        starts@ == grapheme_starts(text@),
        text@.len() > 0 ==> starts@.len() > 0 && starts@[0] == 0,
        forall|i: int, j: int| 0 <= i < j < starts@.len() ==> starts@[i] < starts@[j],
        forall|i: int|
            0 <= i < starts@.len() ==> #[trigger] starts@[i] < utf8_len(text@) && on_boundary(
                text@,
                starts@[i] as int,
            ),
{
    text.grapheme_indices(true).map(|(offset, _)| offset).collect()
}

/// The last of `starts` below `offset`; the start of the text where there is none.
pub open spec fn last_start_below(starts: Seq<usize>, offset: int) -> int
    decreases starts.len(),
{
    if starts.len() == 0 {
        0
    } else if starts.last() < offset {
        starts.last() as int
    } else {
        last_start_below(starts.drop_last(), offset)
    }
}

/// The first of `starts` above `offset`; `otherwise` where there is none.
pub open spec fn first_start_above(starts: Seq<usize>, offset: int, otherwise: int) -> int
    decreases starts.len(),
{
    if starts.len() == 0 {
        otherwise
    } else if starts[0] > offset {
        starts[0] as int
    } else {
        first_start_above(starts.drop_first(), offset, otherwise)
    }
}

/// The last of `starts` below `offset`, or the start of the text.
pub fn start_below(starts: &Vec<usize>, offset: usize) -> (start: usize)
    ensures
        start == last_start_below(starts@, offset as int),
{
    let mut index: usize = starts.len();
    proof {
        assert(starts@.take(starts@.len() as int) =~= starts@);
    }
    while index > 0
        invariant
            index <= starts.len(),
            last_start_below(starts@, offset as int) == last_start_below(
                starts@.take(index as int),
                offset as int,
            ),
        decreases index,
    {
        proof {
            assert(starts@.take(index as int).drop_last() =~= starts@.take(index - 1));
        }
        if starts[index - 1] < offset {
            return starts[index - 1];
        }
        index -= 1;
    }
    0
}

/// The first of `starts` above `offset`, or `otherwise`.
pub fn start_above(starts: &Vec<usize>, offset: usize, otherwise: usize) -> (start: usize)
    ensures
        start == first_start_above(starts@, offset as int, otherwise as int),
{
    let mut index: usize = 0;
    proof {
        assert(starts@.skip(0) =~= starts@);
    }
    while index < starts.len()
        invariant
            index <= starts.len(),
            first_start_above(starts@, offset as int, otherwise as int) == first_start_above(
                starts@.skip(index as int),
                offset as int,
                otherwise as int,
            ),
        decreases starts.len() - index,
    {
        proof {
            assert(starts@.skip(index as int).drop_first() =~= starts@.skip(index + 1));
        }
        if starts[index] > offset {
            return starts[index];
        }
        index += 1;
    }
    otherwise
}

/// The beginning of the cluster before `offset`.
pub fn previous_boundary(text: &str, offset: usize) -> (start: usize)
    ensures
        start == last_start_below(grapheme_starts(text@), offset as int),
        on_boundary(text@, start as int),
        start <= offset,
{
    let starts: Vec<usize> = grapheme_offsets(text);
    let start: usize = start_below(&starts, offset);
    proof {
        lemma_ends_are_boundaries(text@);
        lemma_last_start_below(starts@, offset as int);
    }
    start
}

/// The beginning of the cluster after `offset`, or the end of the text.
pub fn next_boundary(text: &str, offset: usize) -> (start: usize)
    ensures
        start == first_start_above(
            grapheme_starts(text@),
            offset as int,
            utf8_len(text@) as int,
        ),
        on_boundary(text@, start as int),
        start <= utf8_len(text@),
{
    let starts: Vec<usize> = grapheme_offsets(text);
    let start: usize = start_above(&starts, offset, byte_len(text));
    proof {
        lemma_ends_are_boundaries(text@);
        lemma_first_start_above(starts@, offset as int, utf8_len(text@) as int);
    }
    start
}

proof fn lemma_last_start_below(starts: Seq<usize>, offset: int)
    requires
        0 <= offset,
    ensures
        last_start_below(starts, offset) == 0 || exists|i: int|
            0 <= i < starts.len() && #[trigger] starts[i] == last_start_below(starts, offset),
        0 <= last_start_below(starts, offset) <= offset,
    decreases starts.len(),
{
    if starts.len() > 0 {
        if starts.last() >= offset {
            let rest = starts.drop_last();
            lemma_last_start_below(rest, offset);
            if last_start_below(rest, offset) != 0 {
                let i = choose|i: int|
                    0 <= i < rest.len() && #[trigger] rest[i] == last_start_below(rest, offset);
                assert(starts[i] == last_start_below(starts, offset));
            }
        } else {
            assert(starts[starts.len() - 1] == last_start_below(starts, offset));
        }
    }
}

proof fn lemma_first_start_above(starts: Seq<usize>, offset: int, otherwise: int)
    ensures
        first_start_above(starts, offset, otherwise) == otherwise || exists|i: int|
            0 <= i < starts.len() && #[trigger] starts[i] == first_start_above(
                starts,
                offset,
                otherwise,
            ),
    decreases starts.len(),
{
    if starts.len() > 0 && starts[0] <= offset {
        let rest = starts.drop_first();
        lemma_first_start_above(rest, offset, otherwise);
        if first_start_above(rest, offset, otherwise) != otherwise {
            let i = choose|i: int|
                0 <= i < rest.len() && #[trigger] rest[i] == first_start_above(
                    rest,
                    offset,
                    otherwise,
                );
            assert(starts[i + 1] == first_start_above(starts, offset, otherwise));
        }
    }
}

} // verus!
