//! Cutting a text at a set of points.
//!
//! Styled text is drawn piece by piece: wherever a style begins or ends the text is cut,
//! and within a piece nothing changes. The points come in any order and may repeat; the
//! pieces follow one another from the start of the text to its end.

use crate::text::{
    lemma_boundary_survives, lemma_cut, lemma_encode_joined, on_boundary, text_before, text_between,
    text_from, utf8_len,
};
use vstd::prelude::*;
use vstd::utf8::{encode_utf8, encode_utf8_decode_utf8};

verus! {

/// Whether the points stand in order, none twice.
pub open spec fn strictly_increasing(points: Seq<usize>) -> bool {
    forall|i: int, j: int| 0 <= i < j < points.len() ==> points[i] < points[j]
}

/// The points from 0 to `last`, in order.
pub open spec fn points_up_to(is_point: spec_fn(int) -> bool, last: int) -> Seq<usize>
    decreases last + 1,
{
    if last < 0 {
        seq![]
    } else if is_point(last) {
        points_up_to(is_point, last - 1).push(last as usize)
    } else {
        points_up_to(is_point, last - 1)
    }
}

/// There is only one way to put a set of points in order.
pub proof fn lemma_points_are_unique(
    points: Seq<usize>,
    is_point: spec_fn(int) -> bool,
    last: int,
)
    requires
        strictly_increasing(points),
        -1 <= last <= usize::MAX,
        forall|at: int|
            #![trigger is_point(at)]
            0 <= at <= last ==> (is_point(at) <==> points.contains(at as usize)),
        forall|i: int| 0 <= i < points.len() ==> #[trigger] points[i] <= last,
    ensures
        points == points_up_to(is_point, last),
    decreases last + 1,
{
    if last < 0 {
        if points.len() > 0 {
            assert(points[0] <= last);
        }
    } else if is_point(last) {
        assert(points.contains(last as usize));
        let i = choose|i: int| 0 <= i < points.len() && points[i] == last as usize;
        if i < points.len() - 1 {
            assert(points[points.len() - 1] <= last);
        }
        let rest = points.drop_last();
        assert forall|j: int| 0 <= j < rest.len() implies #[trigger] rest[j] <= last - 1 by {
            assert(rest[j] == points[j]);
            assert(points[j] < points[points.len() - 1]);
        }
        assert forall|at: int|
            #![trigger is_point(at)]
            0 <= at <= last - 1 implies (is_point(at) <==> rest.contains(at as usize)) by {
            if points.contains(at as usize) {
                let k = choose|k: int| 0 <= k < points.len() && points[k] == at as usize;
                assert(rest[k] == at as usize);
            }
            if rest.contains(at as usize) {
                let k = choose|k: int| 0 <= k < rest.len() && rest[k] == at as usize;
                assert(points[k] == at as usize);
            }
        }
        lemma_points_are_unique(rest, is_point, last - 1);
        assert(points =~= rest.push(last as usize));
    } else {
        assert forall|j: int| 0 <= j < points.len() implies #[trigger] points[j] <= last - 1 by {
            assert(points[j] <= last);
            if points[j] == last {
                assert(points.contains(last as usize));
            }
        }
        lemma_points_are_unique(points, is_point, last - 1);
    }
}

/// Every point is among the points in order, and nothing else is.
pub proof fn lemma_points_in_order(is_point: spec_fn(int) -> bool, last: int)
    requires
        -1 <= last <= usize::MAX,
    ensures
        strictly_increasing(points_up_to(is_point, last)),
        forall|at: int|
            #![trigger is_point(at)]
            0 <= at <= last && is_point(at) ==> points_up_to(is_point, last).contains(at as usize),
        forall|i: int|
            0 <= i < points_up_to(is_point, last).len() ==> is_point(
                (#[trigger] points_up_to(is_point, last)[i]) as int,
            ) && points_up_to(is_point, last)[i] <= last,
    decreases last + 1,
{
    if last >= 0 {
        lemma_points_in_order(is_point, last - 1);
        let rest = points_up_to(is_point, last - 1);
        let all = points_up_to(is_point, last);
        if is_point(last) {
            assert(all[all.len() - 1] == last as usize);
            assert forall|at: int|
                #![trigger is_point(at)]
                0 <= at <= last && is_point(at) implies all.contains(at as usize) by {
                if at < last {
                    assert(rest.contains(at as usize));
                    let k = choose|k: int| 0 <= k < rest.len() && rest[k] == at as usize;
                    assert(all[k] == at as usize);
                }
            }
        }
    }
}

/// Add a point where it belongs.
pub fn insert_point(points: &mut Vec<usize>, point: usize)
    requires
        strictly_increasing(old(points)@),
    ensures
        strictly_increasing(final(points)@),
        forall|at: usize|
            #![trigger final(points)@.contains(at)]
            final(points)@.contains(at) <==> old(points)@.contains(at) || at == point,
{
    let ghost before = points@;
    let mut index: usize = points.len();
    while index > 0 && points[index - 1] > point
        invariant
            points@ == before,
            index <= points@.len(),
            strictly_increasing(before),
            forall|i: int| index <= i < before.len() ==> #[trigger] before[i] > point,
        decreases index,
    {
        index -= 1;
    }
    if index > 0 && points[index - 1] == point {
        assert(before[index - 1] == point);
        return;
    }
    points.insert(index, point);
    proof {
        let after = points@;
        assert(after == before.insert(index as int, point));
        assert forall|at: usize|
            #![trigger after.contains(at)]
            after.contains(at) <==> before.contains(at) || at == point by {
            if before.contains(at) {
                let k = choose|k: int| 0 <= k < before.len() && before[k] == at;
                if k < index {
                    assert(after[k] == at);
                } else {
                    assert(after[k + 1] == at);
                }
            }
            if at == point {
                assert(after[index as int] == point);
            }
            if after.contains(at) && at != point {
                let k = choose|k: int| 0 <= k < after.len() && after[k] == at;
                if k < index {
                    assert(before[k] == at);
                } else {
                    assert(before[k - 1] == at);
                }
            }
        }
    }
}

/// The pieces of a text, cut at `points`, joined again.
pub open spec fn joined_pieces(text: Seq<char>, points: Seq<usize>) -> Seq<char>
    decreases points.len(),
{
    if points.len() < 2 {
        seq![]
    } else {
        joined_pieces(text, points.drop_last()) + text_between(
            text,
            points[points.len() - 2] as int,
            points.last() as int,
        )
    }
}

/// Two neighbouring pieces joined are the piece that spans both.
pub proof fn lemma_pieces_join(text: Seq<char>, start: int, middle: int, end: int)
    requires
        start <= middle <= end,
        on_boundary(text, start),
        on_boundary(text, middle),
        on_boundary(text, end),
    ensures
        text_between(text, start, middle) + text_between(text, middle, end) == text_between(
            text,
            start,
            end,
        ),
{
    lemma_between_bytes(text, start, middle);
    lemma_between_bytes(text, middle, end);
    lemma_between_bytes(text, start, end);
    let left = text_between(text, start, middle);
    let right = text_between(text, middle, end);
    lemma_encode_joined(left, right);
    let bytes = encode_utf8(text);
    assert(bytes.subrange(start, middle) + bytes.subrange(middle, end) =~= bytes.subrange(
        start,
        end,
    ));
    encode_utf8_decode_utf8(left + right);
}

/// A piece between two boundaries has exactly the bytes between them.
pub proof fn lemma_between_bytes(text: Seq<char>, start: int, end: int)
    requires
        start <= end,
        on_boundary(text, start),
        on_boundary(text, end),
    ensures
        encode_utf8(text_between(text, start, end)) == encode_utf8(text).subrange(start, end),
        0 <= start <= end <= utf8_len(text),
{
    lemma_cut(text, end);
    lemma_cut(text, start);
    let head = text_before(text, end);
    lemma_boundary_survives(text, start, end);
    lemma_cut(head, start);
    assert(encode_utf8(head).subrange(start, end) =~= encode_utf8(text).subrange(start, end));
    assert(text_from(head, start) == text_between(text, start, end));
}

/// Nothing is lost in cutting: the pieces joined are the text between the first point
/// and the last.
pub proof fn lemma_pieces_tile(text: Seq<char>, points: Seq<usize>)
    requires
        strictly_increasing(points),
        points.len() > 0,
        forall|i: int| 0 <= i < points.len() ==> on_boundary(text, #[trigger] points[i] as int),
    ensures
        joined_pieces(text, points) == text_between(text, points[0] as int, points.last() as int),
    decreases points.len(),
{
    let first = points[0] as int;
    if points.len() == 1 {
        lemma_between_bytes(text, first, first);
        assert(encode_utf8(text).subrange(first, first) =~= encode_utf8(Seq::<char>::empty()));
        encode_utf8_decode_utf8(Seq::<char>::empty());
    } else {
        let rest = points.drop_last();
        assert forall|i: int| 0 <= i < rest.len() implies on_boundary(
            text,
            #[trigger] rest[i] as int,
        ) by {
            assert(rest[i] == points[i]);
        }
        lemma_pieces_tile(text, rest);
        lemma_pieces_join(
            text,
            first,
            points[points.len() - 2] as int,
            points.last() as int,
        );
    }
}

/// The whole text is the piece from its start to its end.
pub proof fn lemma_whole_piece(text: Seq<char>)
    ensures
        text_between(text, 0, utf8_len(text) as int) == text,
{
    assert(encode_utf8(text).subrange(0, utf8_len(text) as int) =~= encode_utf8(text));
    encode_utf8_decode_utf8(text);
}

} // verus!
