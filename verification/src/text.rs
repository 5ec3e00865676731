//! Text measured three ways: in characters, in UTF-8 bytes and in UTF-16 units.
//!
//! The editor stores byte offsets, the platform's input methods speak UTF-16, and
//! the contracts speak of a text as the sequence of its characters.

use vstd::prelude::*;
use vstd::string::*;
use vstd::utf8::*;

verus! {

// -- measuring ---------------------------------------------------------------

/// The number of bytes that `text` takes in UTF-8.
pub open spec fn utf8_len(text: Seq<char>) -> nat {
    encode_utf8(text).len()
}

/// The number of UTF-16 units that one character takes.
pub open spec fn utf16_width(character: char) -> nat {
    if (character as u32) < 0x10000 {
        1
    } else {
        2
    }
}

/// The number of UTF-16 units that `text` takes.
pub open spec fn utf16_len(text: Seq<char>) -> nat
    decreases text.len(),
{
    if text.len() == 0 {
        0
    } else {
        utf16_width(text[0]) + utf16_len(text.drop_first())
    }
}

/// Whether byte offset `at` of `text` lies between two characters, or at an end.
pub open spec fn on_boundary(text: Seq<char>, at: int) -> bool {
    is_char_boundary(encode_utf8(text), at)
}

/// The characters of `text` that lie before byte offset `at`.
pub open spec fn text_before(text: Seq<char>, at: int) -> Seq<char> {
    decode_utf8(encode_utf8(text).subrange(0, at))
}

/// The characters of `text` that lie from byte offset `at` on.
pub open spec fn text_from(text: Seq<char>, at: int) -> Seq<char> {
    decode_utf8(encode_utf8(text).subrange(at, utf8_len(text) as int))
}

/// The characters of `text` between byte offsets `start` and `end`.
pub open spec fn text_between(text: Seq<char>, start: int, end: int) -> Seq<char> {
    decode_utf8(encode_utf8(text).subrange(start, end))
}

/// How many characters of `text` it takes to cover `units` UTF-16 units; all of them
/// where the text is shorter.
pub open spec fn characters_covering_utf16(text: Seq<char>, units: int) -> nat
    decreases text.len(),
{
    if units <= 0 || text.len() == 0 {
        0
    } else {
        1 + characters_covering_utf16(text.drop_first(), units - utf16_width(text[0]))
    }
}

/// How many characters of `text` it takes to cover `bytes` UTF-8 bytes; all of them
/// where the text is shorter.
pub open spec fn characters_covering_bytes(text: Seq<char>, bytes: int) -> nat
    decreases text.len(),
{
    if bytes <= 0 || text.len() == 0 {
        0
    } else {
        1 + characters_covering_bytes(
            text.drop_first(),
            bytes - encode_scalar(text[0] as u32).len(),
        )
    }
}

// -- lemmas ------------------------------------------------------------------

/// Encoding goes character by character: the bytes of a joined text are the joined
/// bytes.
pub proof fn lemma_encode_joined(left: Seq<char>, right: Seq<char>)
    ensures
        encode_utf8(left + right) == encode_utf8(left) + encode_utf8(right),
    decreases left.len(),
{
    if left.len() == 0 {
        assert(left + right =~= right);
    } else {
        assert((left + right).drop_first() =~= left.drop_first() + right);
        lemma_encode_joined(left.drop_first(), right);
    }
}

pub proof fn lemma_encode_one(character: char)
    ensures
        encode_utf8(seq![character]) == encode_scalar(character as u32),
        1 <= encode_scalar(character as u32).len() <= 4,
{
    reveal_with_fuel(encode_utf8, 2);
    assert(seq![character].drop_first() =~= Seq::<char>::empty());
}

/// Two texts with the same bytes are the same text.
pub proof fn lemma_encode_injective(left: Seq<char>, right: Seq<char>)
    requires
        encode_utf8(left) == encode_utf8(right),
    ensures
        left == right,
{
    encode_utf8_decode_utf8(left);
    encode_utf8_decode_utf8(right);
}

proof fn lemma_drop_first_boundary(text: Seq<char>, at: int)
    requires
        text.len() > 0,
        at > 0,
    ensures
        on_boundary(text, at) == (at <= utf8_len(text) && on_boundary(
            text.drop_first(),
            at - encode_scalar(text[0] as u32).len(),
        )),
        utf8_len(text) == encode_scalar(text[0] as u32).len() + utf8_len(text.drop_first()),
{
    let bytes = encode_utf8(text);
    encode_utf8_first_scalar(text);
    encode_utf8_valid_utf8(text);
    assert(pop_first_scalar(bytes) =~= encode_utf8(text.drop_first()));
}

/// The first `count` characters end at a boundary, and hold exactly the bytes before it.
pub proof fn lemma_prefix_boundary(text: Seq<char>, count: int)
    requires
        0 <= count <= text.len(),
    ensures
        on_boundary(text, utf8_len(text.take(count)) as int),
        utf8_len(text.take(count)) <= utf8_len(text),
        text_before(text, utf8_len(text.take(count)) as int) == text.take(count),
        text_from(text, utf8_len(text.take(count)) as int) == text.skip(count),
        encode_utf8(text) == encode_utf8(text.take(count)) + encode_utf8(text.skip(count)),
    decreases count,
{
    assert(text =~= text.take(count) + text.skip(count));
    lemma_encode_joined(text.take(count), text.skip(count));
    let bytes = encode_utf8(text);
    let at = utf8_len(text.take(count)) as int;
    assert(bytes.subrange(0, at) =~= encode_utf8(text.take(count)));
    assert(bytes.subrange(at, bytes.len() as int) =~= encode_utf8(text.skip(count)));
    encode_utf8_decode_utf8(text.take(count));
    encode_utf8_decode_utf8(text.skip(count));
    encode_utf8_valid_utf8(text);
    if count == 0 {
        assert(text.take(0) =~= Seq::<char>::empty());
        is_char_boundary_start_end_of_seq(bytes);
    } else {
        let rest = text.drop_first();
        lemma_prefix_boundary(rest, count - 1);
        assert(text.take(count) =~= seq![text[0]] + rest.take(count - 1));
        lemma_encode_joined(seq![text[0]], rest.take(count - 1));
        lemma_encode_one(text[0]);
        lemma_drop_first_boundary(text, at);
    }
}

/// Every boundary is the end of some number of characters.
pub proof fn lemma_boundary_prefix(text: Seq<char>, at: int) -> (count: int)
    requires
        on_boundary(text, at),
    ensures
        0 <= count <= text.len(),
        at == utf8_len(text.take(count)),
        0 <= at <= utf8_len(text),
    decreases text.len(),
{
    encode_utf8_valid_utf8(text);
    if at == 0 {
        assert(text.take(0) =~= Seq::<char>::empty());
        0
    } else if text.len() == 0 {
        0
    } else {
        lemma_drop_first_boundary(text, at);
        let rest = text.drop_first();
        let before = lemma_boundary_prefix(rest, at - encode_scalar(text[0] as u32).len());
        assert(text.take(before + 1) =~= seq![text[0]] + rest.take(before));
        lemma_encode_joined(seq![text[0]], rest.take(before));
        lemma_encode_one(text[0]);
        before + 1
    }
}

/// Longer prefixes take more bytes.
pub proof fn lemma_prefix_bytes_increase(text: Seq<char>, shorter: int, longer: int)
    requires
        0 <= shorter < longer <= text.len(),
    ensures
        utf8_len(text.take(shorter)) < utf8_len(text.take(longer)),
    decreases longer - shorter,
{
    let last = text.take(longer).last();
    assert(text.take(longer) =~= text.take(longer - 1) + seq![last]);
    lemma_encode_joined(text.take(longer - 1), seq![last]);
    lemma_encode_one(last);
    if shorter < longer - 1 {
        lemma_prefix_bytes_increase(text, shorter, longer - 1);
    }
}

/// The units of a joined text are those of its parts.
pub proof fn lemma_utf16_joined(left: Seq<char>, right: Seq<char>)
    ensures
        utf16_len(left + right) == utf16_len(left) + utf16_len(right),
    decreases left.len(),
{
    if left.len() == 0 {
        assert(left + right =~= right);
    } else {
        assert((left + right).drop_first() =~= left.drop_first() + right);
        lemma_utf16_joined(left.drop_first(), right);
    }
}

/// A text never takes more UTF-16 units than bytes.
pub proof fn lemma_utf16_fits(text: Seq<char>)
    ensures
        utf16_len(text) <= utf8_len(text),
    decreases text.len(),
{
    if text.len() > 0 {
        char_is_scalar(text[0]);
        lemma_utf16_fits(text.drop_first());
    }
}

/// One more character adds its own width to each measure.
proof fn lemma_measure_next(text: Seq<char>, count: int)
    requires
        0 <= count < text.len(),
    ensures
        utf16_len(text.take(count + 1)) == utf16_len(text.take(count)) + utf16_width(text[count]),
        utf8_len(text.take(count + 1)) == utf8_len(text.take(count)) + encode_scalar(
            text[count] as u32,
        ).len(),
        utf16_len(text.take(count + 1)) <= utf8_len(text.take(count + 1)),
        utf8_len(text.take(count + 1)) <= utf8_len(text),
{
    assert(text.take(count + 1) =~= text.take(count) + seq![text[count]]);
    lemma_utf16_joined(text.take(count), seq![text[count]]);
    reveal_with_fuel(utf16_len, 2);
    assert(seq![text[count]].drop_first() =~= Seq::<char>::empty());
    lemma_encode_joined(text.take(count), seq![text[count]]);
    lemma_encode_one(text[count]);
    lemma_utf16_fits(text.take(count + 1));
    lemma_prefix_boundary(text, count + 1);
}

/// The covering prefix is the shortest that reaches the wanted number of UTF-16 units.
pub proof fn lemma_covering_utf16(text: Seq<char>, units: int)
    ensures
        characters_covering_utf16(text, units) <= text.len(),
        utf16_len(text.take(characters_covering_utf16(text, units) as int)) >= units
            || characters_covering_utf16(text, units) == text.len(),
        forall|shorter: int|
            0 <= shorter < characters_covering_utf16(text, units) ==> utf16_len(
                #[trigger] text.take(shorter),
            ) < units,
    decreases text.len(),
{
    if units <= 0 || text.len() == 0 {
        assert(text.take(0) =~= Seq::<char>::empty());
    } else {
        let rest = text.drop_first();
        let left = units - utf16_width(text[0]);
        lemma_covering_utf16(rest, left);
        let count = characters_covering_utf16(text, units) as int;
        assert(text.take(count).drop_first() =~= rest.take(count - 1));
        assert forall|shorter: int| 0 <= shorter < count implies utf16_len(
            #[trigger] text.take(shorter),
        ) < units by {
            if shorter > 0 {
                assert(text.take(shorter).drop_first() =~= rest.take(shorter - 1));
            }
        }
    }
}

/// The covering prefix is the shortest that reaches the wanted number of bytes.
pub proof fn lemma_covering_bytes(text: Seq<char>, bytes: int)
    ensures
        characters_covering_bytes(text, bytes) <= text.len(),
        utf8_len(text.take(characters_covering_bytes(text, bytes) as int)) >= bytes
            || characters_covering_bytes(text, bytes) == text.len(),
        forall|shorter: int|
            0 <= shorter < characters_covering_bytes(text, bytes) ==> utf8_len(
                #[trigger] text.take(shorter),
            ) < bytes,
    decreases text.len(),
{
    if bytes <= 0 || text.len() == 0 {
        assert(text.take(0) =~= Seq::<char>::empty());
    } else {
        let rest = text.drop_first();
        let left = bytes - encode_scalar(text[0] as u32).len();
        lemma_covering_bytes(rest, left);
        let count = characters_covering_bytes(text, bytes) as int;
        assert(text.take(count).drop_first() =~= rest.take(count - 1));
        assert forall|shorter: int| 0 <= shorter < count implies utf8_len(
            #[trigger] text.take(shorter),
        ) < bytes by {
            if shorter > 0 {
                assert(text.take(shorter).drop_first() =~= rest.take(shorter - 1));
            }
        }
    }
}

/// Filtering keeps a sequence whose every item passes.
pub proof fn lemma_filter_keeps_all<A>(items: Seq<A>, passes: spec_fn(A) -> bool)
    requires
        forall|i: int| 0 <= i < items.len() ==> passes(#[trigger] items[i]),
    ensures
        items.filter(passes) == items,
    decreases items.len(),
{
    reveal(Seq::filter);
    if items.len() > 0 {
        lemma_filter_keeps_all(items.drop_last(), passes);
        assert(items.drop_last().push(items.last()) =~= items);
    }
}

/// A boundary cuts a text in two: the parts have the bytes on either side, and joined
/// they are the text again.
pub proof fn lemma_cut(text: Seq<char>, at: int)
    requires
        on_boundary(text, at),
    ensures
        0 <= at <= utf8_len(text),
        text == text_before(text, at) + text_from(text, at),
        utf8_len(text_before(text, at)) == at,
        encode_utf8(text_before(text, at)) == encode_utf8(text).subrange(0, at),
        encode_utf8(text_from(text, at)) == encode_utf8(text).subrange(at, utf8_len(text) as int),
{
    let count = lemma_boundary_prefix(text, at);
    lemma_prefix_boundary(text, count);
    assert(text =~= text.take(count) + text.skip(count));
    assert(encode_utf8(text).subrange(0, at) =~= encode_utf8(text.take(count)));
    assert(encode_utf8(text).subrange(at, utf8_len(text) as int) =~= encode_utf8(text.skip(count)));
}

/// Where two texts meet there is a boundary, and so there is at both ends.
pub proof fn lemma_joint_is_boundary(left: Seq<char>, right: Seq<char>)
    ensures
        on_boundary(left + right, utf8_len(left) as int),
        on_boundary(left + right, 0),
        on_boundary(left + right, utf8_len(left + right) as int),
        utf8_len(left + right) == utf8_len(left) + utf8_len(right),
        text_before(left + right, utf8_len(left) as int) == left,
        text_from(left + right, utf8_len(left) as int) == right,
{
    let joined = left + right;
    lemma_encode_joined(left, right);
    assert(joined.take(left.len() as int) =~= left);
    assert(joined.skip(left.len() as int) =~= right);
    lemma_prefix_boundary(joined, left.len() as int);
    lemma_ends_are_boundaries(joined);
}

/// Both ends of a text are boundaries.
pub proof fn lemma_ends_are_boundaries(text: Seq<char>)
    ensures
        on_boundary(text, 0),
        on_boundary(text, utf8_len(text) as int),
{
    encode_utf8_valid_utf8(text);
    is_char_boundary_start_end_of_seq(encode_utf8(text));
}

/// Inside one part of a joined text, boundaries are those of that part.
pub proof fn lemma_boundary_in_right(left: Seq<char>, right: Seq<char>, at: int)
    requires
        on_boundary(right, at),
    ensures
        on_boundary(left + right, utf8_len(left) + at),
        0 <= at <= utf8_len(right),
{
    let count = lemma_boundary_prefix(right, at);
    let joined = left + right;
    assert(joined.take(left.len() + count) =~= left + right.take(count));
    lemma_encode_joined(left, right.take(count));
    lemma_prefix_boundary(joined, left.len() + count);
}

/// A boundary of the first part of a joined text is one of the whole.
pub proof fn lemma_boundary_in_left(left: Seq<char>, right: Seq<char>, at: int)
    requires
        on_boundary(left, at),
    ensures
        on_boundary(left + right, at),
        0 <= at <= utf8_len(left),
{
    let count = lemma_boundary_prefix(left, at);
    let joined = left + right;
    assert(joined.take(count) =~= left.take(count));
    lemma_prefix_boundary(joined, count);
}

/// A newline byte is a newline character: the text can be cut on either side of it.
pub proof fn lemma_newline_byte(text: Seq<char>, at: int)
    requires
        0 <= at < utf8_len(text),
        encode_utf8(text)[at] == 0x0A,
    ensures
        on_boundary(text, at),
        on_boundary(text, at + 1),
        text_from(text, at).len() > 0,
        text_from(text, at)[0] == '\n',
{
    let bytes = encode_utf8(text);
    encode_utf8_valid_utf8(text);
    is_char_boundary_iff_not_is_continuation_byte(bytes, at);
    lemma_cut(text, at);
    let before = text_before(text, at);
    let rest = text_from(text, at);
    assert(encode_utf8(rest)[0] == 0x0A);
    assert(rest.len() > 0);
    encode_utf8_first_scalar(rest);
    let first = rest[0] as u32;
    char_is_scalar(rest[0]);
    assert(encode_scalar(first).len() == 1);
    assert(has_width_1_encoding(first));
    assert(encode_utf8(rest)[0] == encode_scalar(first)[0]);
    assert(leading_byte_width_1(first) == 0x0A);
    assert(first < 0x80 ==> (first & 0x7F) as u8 == 0x0A ==> first == 0x0A) by (bit_vector);
    char_u32_cast(rest[0], first);
    assert(first == '\n' as u32);
    char_u32_cast('\n', first);
    assert(rest =~= seq![rest[0]] + rest.drop_first());
    lemma_encode_one(rest[0]);
    lemma_joint_is_boundary(seq![rest[0]], rest.drop_first());
    lemma_boundary_in_right(before, rest, 1);
}

// -- reading and building text -----------------------------------------------

/// `String::push`: appends one character.
pub assume_specification[ std::string::String::push ](text: &mut String, character: char)
    ensures
        final(text)@ == old(text)@.push(character),
;

/// The characters of `text`, in order.
pub fn characters(text: &str) -> (all: Vec<char>)
    ensures
        all@ == text@,
{
    let mut all: Vec<char> = Vec::new();
    for character in iter: text.chars()
        invariant
            iter.seq() == text@,
            all@ == text@.take(iter.index()),
    {
        all.push(character);
    }
    assert(all@ =~= text@);
    all
}

/// The number of bytes of `text`, with the bound that any text in memory meets.
pub fn byte_len(text: &str) -> (len: usize)
    ensures
        len == utf8_len(text@),
{
    text.as_bytes().len()
}

/// The number of bytes one character takes in UTF-8.
pub fn encoded_len(character: char) -> (len: usize)
    ensures
        len == encode_scalar(character as u32).len(),
        1 <= len <= 4,
{
    let code: u32 = character as u32;
    if code < 0x80 {
        1
    } else if code < 0x800 {
        2
    } else if code < 0x10000 {
        3
    } else {
        4
    }
}

/// The number of UTF-16 units one character takes.
pub fn utf16_units(character: char) -> (units: usize)
    ensures
        units == utf16_width(character),
{
    if (character as u32) < 0x10000 {
        1
    } else {
        2
    }
}

/// Whether a character may stand in a single-line field.
pub open spec fn stays_on_line(character: char) -> bool {
    character != '\r' && character != '\n'
}

/// What a single-line field keeps of `text`: everything but its line breaks.
pub open spec fn single_line_of(text: Seq<char>) -> Seq<char> {
    text.filter(|character: char| stays_on_line(character))
}

/// Drop the line breaks from a value that belongs on one line.
pub fn normalize_single_line(text: &str) -> (line: String)
    ensures
        line@ == single_line_of(text@),
{
    let all: Vec<char> = characters(text);
    let mut line = String::new();
    let mut index: usize = 0;
    let ghost kept = |character: char| stays_on_line(character);
    proof {
        reveal(Seq::filter);
        assert(text@.take(0) =~= Seq::<char>::empty());
    }
    while index < all.len()
        invariant
            all@ == text@,
            index <= all.len(),
            kept == (|character: char| stays_on_line(character)),
            line@ == text@.take(index as int).filter(kept),
        decreases all.len() - index,
    {
        let character: char = all[index];
        if character != '\r' && character != '\n' {
            line.push(character);
        }
        proof {
            reveal(Seq::filter);
            assert(text@.take(index + 1).drop_last() =~= text@.take(index as int));
        }
        index += 1;
    }
    assert(text@.take(text@.len() as int) =~= text@);
    line
}

/// The byte offset at which `units` UTF-16 units of `text` are covered.
pub open spec fn byte_offset_of_utf16(text: Seq<char>, units: int) -> nat {
    utf8_len(text.take(characters_covering_utf16(text, units) as int))
}

/// The number of UTF-16 units of the characters that cover `bytes` bytes of `text`.
pub open spec fn utf16_offset_of_byte(text: Seq<char>, bytes: int) -> nat {
    utf16_len(text.take(characters_covering_bytes(text, bytes) as int))
}

/// Byte offset of a UTF-16 offset inside `text`, clamped to the text's length.
///
/// Whole characters are counted, so the result always lies on a character boundary.
pub fn byte_offset_from_utf16(text: &str, offset: usize) -> (bytes: usize)
    ensures
        bytes == byte_offset_of_utf16(text@, offset as int),
{
    let all: Vec<char> = characters(text);
    let total: usize = byte_len(text);
    let mut utf8_offset: usize = 0;
    let mut utf16_count: usize = 0;
    let mut index: usize = 0;
    proof {
        assert(text@.take(0) =~= Seq::<char>::empty());
        assert(text@.skip(0) =~= text@);
    }
    while index < all.len() && utf16_count < offset
        invariant
            all@ == text@,
            total == utf8_len(text@),
            index <= all.len(),
            utf8_offset == utf8_len(text@.take(index as int)),
            utf16_count == utf16_len(text@.take(index as int)),
            characters_covering_utf16(text@, offset as int) == index + characters_covering_utf16(
                text@.skip(index as int),
                offset - utf16_count,
            ),
        decreases all.len() - index,
    {
        let character: char = all[index];
        proof {
            lemma_measure_next(text@, index as int);
            assert(text@.skip(index as int).drop_first() =~= text@.skip(index + 1));
        }
        utf16_count += utf16_units(character);
        utf8_offset += encoded_len(character);
        index += 1;
    }
    utf8_offset
}

/// UTF-16 offset of a byte offset inside `text`, the inverse of [`byte_offset_from_utf16`].
pub fn utf16_offset_from_byte(text: &str, offset: usize) -> (units: usize)
    ensures
        units == utf16_offset_of_byte(text@, offset as int),
{
    let all: Vec<char> = characters(text);
    let total: usize = byte_len(text);
    let mut utf16_offset: usize = 0;
    let mut utf8_count: usize = 0;
    let mut index: usize = 0;
    proof {
        assert(text@.take(0) =~= Seq::<char>::empty());
        assert(text@.skip(0) =~= text@);
    }
    while index < all.len() && utf8_count < offset
        invariant
            all@ == text@,
            total == utf8_len(text@),
            index <= all.len(),
            utf8_count == utf8_len(text@.take(index as int)),
            utf16_offset == utf16_len(text@.take(index as int)),
            characters_covering_bytes(text@, offset as int) == index + characters_covering_bytes(
                text@.skip(index as int),
                offset - utf8_count,
            ),
        decreases all.len() - index,
    {
        let character: char = all[index];
        proof {
            lemma_measure_next(text@, index as int);
            assert(text@.skip(index as int).drop_first() =~= text@.skip(index + 1));
        }
        utf8_count += encoded_len(character);
        utf16_offset += utf16_units(character);
        index += 1;
    }
    utf16_offset
}

/// The largest boundary of `text` at or below byte offset `at`.
pub open spec fn boundary_at_or_below(text: Seq<char>, at: int) -> int
    decreases at,
{
    if at <= 0 {
        0
    } else if on_boundary(text, at) {
        at
    } else {
        boundary_at_or_below(text, at - 1)
    }
}

/// Byte offset `at` brought into `text` and onto a boundary.
pub open spec fn clamped(text: Seq<char>, at: int) -> int {
    boundary_at_or_below(
        text,
        if at < utf8_len(text) {
            at
        } else {
            utf8_len(text) as int
        },
    )
}

pub proof fn lemma_boundary_at_or_below(text: Seq<char>, at: int)
    requires
        0 <= at,
    ensures
        on_boundary(text, boundary_at_or_below(text, at)),
        0 <= boundary_at_or_below(text, at) <= at,
        forall|between: int|
            boundary_at_or_below(text, at) < between <= at ==> !#[trigger] on_boundary(
                text,
                between,
            ),
    decreases at,
{
    lemma_ends_are_boundaries(text);
    if at > 0 && !on_boundary(text, at) {
        lemma_boundary_at_or_below(text, at - 1);
    }
}

/// A clamped offset can be cut at, is no further than what was asked, and is what was
/// asked where the text can be cut there.
pub proof fn lemma_clamped(text: Seq<char>, at: int)
    requires
        0 <= at,
    ensures
        on_boundary(text, clamped(text, at)),
        0 <= clamped(text, at) <= at,
        clamped(text, at) <= utf8_len(text),
        on_boundary(text, at) ==> clamped(text, at) == at,
        at >= utf8_len(text) ==> clamped(text, at) == utf8_len(text),
{
    lemma_ends_are_boundaries(text);
    let capped = if at < utf8_len(text) {
        at
    } else {
        utf8_len(text) as int
    };
    lemma_boundary_at_or_below(text, capped);
    if on_boundary(text, at) {
        let _ = lemma_boundary_prefix(text, at);
    }
}

/// Clamping keeps the order of two offsets.
pub proof fn lemma_clamped_ordered(text: Seq<char>, low: int, high: int)
    requires
        0 <= low <= high,
    ensures
        clamped(text, low) <= clamped(text, high),
{
    lemma_clamped(text, low);
    lemma_clamped(text, high);
    let capped = if high < utf8_len(text) {
        high
    } else {
        utf8_len(text) as int
    };
    lemma_boundary_at_or_below(text, capped);
}

/// Bring a byte offset into `text` and down onto a character boundary.
pub fn clamp(text: &str, offset: usize) -> (at: usize)
    ensures
        at == clamped(text@, offset as int),
        on_boundary(text@, at as int),
{
    let len: usize = byte_len(text);
    let mut at: usize = if offset < len {
        offset
    } else {
        len
    };
    proof {
        lemma_clamped(text@, offset as int);
    }
    while at > 0 && !text.is_char_boundary(at)
        invariant
            clamped(text@, offset as int) == boundary_at_or_below(text@, at as int),
        decreases at,
    {
        at -= 1;
    }
    at
}

/// `text` with the bytes from `start` to `end` replaced by `new_text`.
pub open spec fn spliced(text: Seq<char>, start: int, end: int, new_text: Seq<char>) -> Seq<char> {
    text_before(text, start) + new_text + text_from(text, end)
}

/// The text between two boundaries.
pub fn slice(text: &str, start: usize, end: usize) -> (part: String)
    requires
        start <= end,
        on_boundary(text@, start as int),
        on_boundary(text@, end as int),
    ensures
        part@ == text_between(text@, start as int, end as int),
{
    let (head, _) = text.split_at(end);
    proof {
        lemma_cut(text@, end as int);
        lemma_cut(text@, start as int);
        encode_utf8_decode_utf8(head@);
        assert(head@ == text_before(text@, end as int));
        lemma_boundary_survives(text@, start as int, end as int);
    }
    let (_, part) = head.split_at(start);
    proof {
        assert(encode_utf8(head@).subrange(start as int, end as int) =~= encode_utf8(
            text@,
        ).subrange(start as int, end as int));
        encode_utf8_decode_utf8(part@);
    }
    part.to_owned()
}

/// Cutting a text at a boundary keeps the boundaries before the cut.
pub proof fn lemma_boundary_survives(text: Seq<char>, at: int, cut: int)
    requires
        at <= cut,
        on_boundary(text, at),
        on_boundary(text, cut),
    ensures
        on_boundary(text_before(text, cut), at),
{
    let count = lemma_boundary_prefix(text, at);
    let cut_count = lemma_boundary_prefix(text, cut);
    lemma_prefix_boundary(text, cut_count);
    if cut_count < count {
        lemma_prefix_bytes_increase(text, cut_count, count);
    }
    assert(text.take(cut_count).take(count) =~= text.take(count));
    lemma_prefix_boundary(text.take(cut_count), count);
}

/// Replace the text between two boundaries.
pub fn splice(text: &str, start: usize, end: usize, new_text: &str) -> (whole: String)
    requires
        start <= end,
        on_boundary(text@, start as int),
        on_boundary(text@, end as int),
    ensures
        whole@ == spliced(text@, start as int, end as int, new_text@),
        on_boundary(whole@, start as int),
        on_boundary(whole@, start + utf8_len(new_text@)),
        start + utf8_len(new_text@) <= utf8_len(whole@) <= usize::MAX,
{
    let (before, _) = text.split_at(start);
    let (_, after) = text.split_at(end);
    let mut whole: String = before.to_owned();
    whole.append(new_text);
    whole.append(after);
    let _len: usize = byte_len(whole.as_str());
    proof {
        encode_utf8_decode_utf8(before@);
        encode_utf8_decode_utf8(after@);
        lemma_cut(text@, start as int);
        lemma_joint_is_boundary(before@, new_text@);
        lemma_joint_is_boundary(before@ + new_text@, after@);
        lemma_boundary_in_left(before@ + new_text@, after@, start as int);
    }
    whole
}

// -- laws --------------------------------------------------------------------

/// At every character boundary the two offset mappings undo each other.
pub proof fn offsets_round_trip(text: Seq<char>, at: int)
    requires
        on_boundary(text, at),
    ensures
        byte_offset_of_utf16(text, utf16_offset_of_byte(text, at) as int) == at,
{
    let count = lemma_boundary_prefix(text, at);
    lemma_covering_bytes(text, at);
    let covering = characters_covering_bytes(text, at) as int;
    if covering < count {
        lemma_prefix_bytes_increase(text, covering, count);
    }
    let units = utf16_len(text.take(count)) as int;
    lemma_covering_utf16(text, units);
    let back = characters_covering_utf16(text, units) as int;
    if back < count {
        assert(text.take(count) =~= text.take(back) + text.subrange(back, count));
        lemma_utf16_joined(text.take(back), text.subrange(back, count));
        assert(text.subrange(back, count).len() > 0);
    }
}

/// Whether `units` UTF-16 units of `text` end between two characters, or at an end.
pub open spec fn on_utf16_boundary(text: Seq<char>, units: int) -> bool {
    exists|count: int|
        0 <= count <= text.len() && utf16_len(#[trigger] text.take(count)) == units
}

/// At every UTF-16 offset that falls on a character the two mappings undo each other the
/// other way round, too.
pub proof fn utf16_offsets_round_trip(text: Seq<char>, units: int)
    requires
        on_utf16_boundary(text, units),
    ensures
        utf16_offset_of_byte(text, byte_offset_of_utf16(text, units) as int) == units,
{
    let count = choose|count: int|
        0 <= count <= text.len() && utf16_len(#[trigger] text.take(count)) == units;
    lemma_covering_utf16(text, units);
    let covering = characters_covering_utf16(text, units) as int;
    if covering < count {
        assert(text.take(count) =~= text.take(covering) + text.subrange(covering, count));
        lemma_utf16_joined(text.take(covering), text.subrange(covering, count));
        assert(text.subrange(covering, count).len() > 0);
    }
    let bytes = utf8_len(text.take(count)) as int;
    lemma_covering_bytes(text, bytes);
    let back = characters_covering_bytes(text, bytes) as int;
    if back < count {
        lemma_prefix_bytes_increase(text, back, count);
    }
}

/// A UTF-16 offset always maps to a byte offset that the text can be cut at.
pub proof fn utf16_offsets_land_on_boundaries(text: Seq<char>, units: int)
    ensures
        on_boundary(text, byte_offset_of_utf16(text, units) as int),
        byte_offset_of_utf16(text, units) <= utf8_len(text),
{
    lemma_covering_utf16(text, units);
    lemma_prefix_boundary(text, characters_covering_utf16(text, units) as int);
}

/// A value that was put on one line holds no line break, and putting it on one line
/// again changes nothing.
pub proof fn single_line_holds_no_break(text: Seq<char>)
    ensures
        forall|i: int|
            0 <= i < single_line_of(text).len() ==> stays_on_line(#[trigger] single_line_of(text)[i]),
        single_line_of(single_line_of(text)) == single_line_of(text),
{
    let kept = |character: char| stays_on_line(character);
    let line = single_line_of(text);
    assert forall|i: int| 0 <= i < line.len() implies stays_on_line(#[trigger] line[i]) by {
        text.lemma_filter_pred(kept, i);
    }
    lemma_filter_keeps_all(line, kept);
}

} // verus!
