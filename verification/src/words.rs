//! Words: trimming, comparing, joining and naming them.

use crate::text::{characters, lemma_encode_injective};
use vstd::prelude::*;
use vstd::string::*;
use vstd::utf8::encode_utf8;

verus! {

// -- what std knows of characters --------------------------------------------

/// Whether a character has Unicode's White_Space property: the tab and the line breaks, and
/// the spaces of every width.
pub open spec fn whitespace(character: char) -> bool {
    let code = character as u32;
    ||| 0x09 <= code <= 0x0d
    ||| code == 0x20
    ||| code == 0x85
    ||| code == 0xa0
    ||| code == 0x1680
    ||| 0x2000 <= code <= 0x200a
    ||| code == 0x2028
    ||| code == 0x2029
    ||| code == 0x202f
    ||| code == 0x205f
    ||| code == 0x3000
}

/// A text in lower case.
pub uninterp spec fn lowercase(text: Seq<char>) -> Seq<char>;

/// A text in upper case.
pub uninterp spec fn uppercase(text: Seq<char>) -> Seq<char>;

/// A text in quotes, with what cannot be shown escaped.
pub uninterp spec fn quoted(text: Seq<char>) -> Seq<char>;

/// `char::is_whitespace`: whether a character has Unicode's White_Space property.
#[verifier::external_body]
pub(crate) fn is_whitespace(character: char) -> (white: bool)
    ensures
        white == whitespace(character),
{
    character.is_whitespace()
}

/// `str::to_lowercase`.
#[verifier::external_body]
pub(crate) fn to_lowercase(text: &str) -> (lower: String)
    ensures
        lower@ == lowercase(text@),
{
    text.to_lowercase()
}

/// `str::to_uppercase`.
#[verifier::external_body]
pub(crate) fn to_uppercase(text: &str) -> (upper: String)
    ensures
        upper@ == uppercase(text@),
{
    text.to_uppercase()
}

/// `str`'s `Debug`: the text in quotes, escaped.
#[verifier::external_body]
pub(crate) fn quote(text: &str) -> (shown: String)
    ensures
        shown@ == quoted(text@),
{
    format!("{text:?}")
}

// -- equality ------------------------------------------------------------------

/// Whether two texts are the same.
pub fn same_text(left: &str, right: &str) -> (same: bool)
    ensures
        same == (left@ == right@),
{
    let left_bytes: &[u8] = left.as_bytes();
    let right_bytes: &[u8] = right.as_bytes();
    if left_bytes.len() != right_bytes.len() {
        return false;
    }
    let mut index: usize = 0;
    while index < left_bytes.len()
        invariant
            left_bytes@ == encode_utf8(left@),
            right_bytes@ == encode_utf8(right@),
            left_bytes@.len() == right_bytes@.len(),
            index <= left_bytes@.len(),
            forall|i: int| 0 <= i < index ==> left_bytes@[i] == right_bytes@[i],
        decreases left_bytes@.len() - index,
    {
        if left_bytes[index] != right_bytes[index] {
            return false;
        }
        index += 1;
    }
    proof {
        assert(left_bytes@ =~= right_bytes@);
        lemma_encode_injective(left@, right@);
    }
    true
}

/// An optional text, as its characters.
pub open spec fn maybe_text(text: Option<String>) -> Option<Seq<char>> {
    match text {
        Some(found) => Some(found@),
        None => None,
    }
}

/// An optional borrowed text, as its characters.
pub open spec fn maybe_str(text: Option<&str>) -> Option<Seq<char>> {
    match text {
        Some(found) => Some(found@),
        None => None,
    }
}

/// An optional text, borrowed.
pub fn borrow_text<'a>(text: &'a Option<String>) -> (borrowed: Option<&'a str>)
    ensures
        maybe_str(borrowed) == maybe_text(*text),
{
    match text {
        Some(found) => Some(found.as_str()),
        None => None,
    }
}

/// A copy of an optional text.
pub fn copy_text(text: &Option<String>) -> (copy: Option<String>)
    ensures
        maybe_text(copy) == maybe_text(*text),
{
    match text {
        Some(found) => Some(found.clone()),
        None => None,
    }
}

/// Whether two optional texts are the same.
pub fn same_maybe(left: Option<&str>, right: Option<&str>) -> (same: bool)
    ensures
        same == (maybe_str(left) == maybe_str(right)),
{
    match (left, right) {
        (Some(left), Some(right)) => same_text(left, right),
        (None, None) => true,
        _ => false,
    }
}

// -- order ---------------------------------------------------------------------

/// Whether `left` comes before `right` in the order of their bytes.
pub open spec fn bytes_before(left: Seq<u8>, right: Seq<u8>) -> bool
    decreases left.len(),
{
    if right.len() == 0 {
        false
    } else if left.len() == 0 {
        true
    } else if left[0] != right[0] {
        left[0] < right[0]
    } else {
        bytes_before(left.drop_first(), right.drop_first())
    }
}

/// Whether text `left` comes before text `right`, as `str` orders them.
pub open spec fn text_before_in_order(left: Seq<char>, right: Seq<char>) -> bool {
    bytes_before(encode_utf8(left), encode_utf8(right))
}

/// Of two different texts one comes first; no text comes before itself.
pub proof fn lemma_bytes_order(left: Seq<u8>, right: Seq<u8>)
    ensures
        bytes_before(left, right) ==> !bytes_before(right, left) && left != right,
        left != right ==> bytes_before(left, right) || bytes_before(right, left),
    decreases left.len(),
{
    if left.len() > 0 && right.len() > 0 {
        lemma_bytes_order(left.drop_first(), right.drop_first());
        if left[0] == right[0] {
            if left.drop_first() == right.drop_first() {
                assert(left =~= seq![left[0]] + left.drop_first());
                assert(right =~= seq![right[0]] + right.drop_first());
            }
        }
    } else if left.len() == 0 && right.len() == 0 {
        assert(left =~= right);
    }
}

/// What comes before something that comes before `right` comes before `right`.
pub proof fn lemma_bytes_order_transitive(left: Seq<u8>, middle: Seq<u8>, right: Seq<u8>)
    requires
        bytes_before(left, middle),
        bytes_before(middle, right),
    ensures
        bytes_before(left, right),
    decreases left.len(),
{
    if left.len() > 0 && middle.len() > 0 && right.len() > 0 && left[0] == middle[0] && middle[0]
        == right[0] {
        lemma_bytes_order_transitive(left.drop_first(), middle.drop_first(), right.drop_first());
    }
}

/// Whether `left` comes before `right`, as `str` orders them.
pub fn comes_before(left: &str, right: &str) -> (before: bool)
    ensures
        before == text_before_in_order(left@, right@),
{
    let left_bytes: &[u8] = left.as_bytes();
    let right_bytes: &[u8] = right.as_bytes();
    let mut index: usize = 0;
    proof {
        assert(left_bytes@.skip(0) =~= left_bytes@);
        assert(right_bytes@.skip(0) =~= right_bytes@);
    }
    while index < left_bytes.len() && index < right_bytes.len()
        invariant
            left_bytes@ == encode_utf8(left@),
            right_bytes@ == encode_utf8(right@),
            index <= left_bytes@.len(),
            index <= right_bytes@.len(),
            text_before_in_order(left@, right@) == bytes_before(
                left_bytes@.skip(index as int),
                right_bytes@.skip(index as int),
            ),
        decreases left_bytes@.len() - index,
    {
        if left_bytes[index] != right_bytes[index] {
            return left_bytes[index] < right_bytes[index];
        }
        proof {
            assert(left_bytes@.skip(index as int).drop_first() =~= left_bytes@.skip(index + 1));
            assert(right_bytes@.skip(index as int).drop_first() =~= right_bytes@.skip(index + 1));
        }
        index += 1;
    }
    index < right_bytes.len()
}

// -- trimming --------------------------------------------------------------------

/// `text` without the white space it begins with.
pub open spec fn trimmed_start(text: Seq<char>) -> Seq<char>
    decreases text.len(),
{
    if text.len() > 0 && whitespace(text[0]) {
        trimmed_start(text.drop_first())
    } else {
        text
    }
}

/// `text` without the white space it ends with.
pub open spec fn trimmed_end(text: Seq<char>) -> Seq<char>
    decreases text.len(),
{
    if text.len() > 0 && whitespace(text.last()) {
        trimmed_end(text.drop_last())
    } else {
        text
    }
}

/// `text` without the white space around it.
pub open spec fn trimmed(text: Seq<char>) -> Seq<char> {
    trimmed_end(trimmed_start(text))
}

/// The characters from `start` to `end`, as a text.
fn collect(all: &Vec<char>, start: usize, end: usize) -> (text: String)
    requires
        start <= end <= all@.len(),
    ensures
        text@ == all@.subrange(start as int, end as int),
{
    let mut text = String::new();
    let mut index: usize = start;
    while index < end
        invariant
            start <= index <= end <= all@.len(),
            text@ == all@.subrange(start as int, index as int),
        decreases end - index,
    {
        text.push(all[index]);
        index += 1;
        assert(text@ =~= all@.subrange(start as int, index as int));
    }
    text
}

fn first_visible(all: &Vec<char>) -> (start: usize)
    ensures
        start <= all@.len(),
        trimmed_start(all@) == all@.skip(start as int),
{
    let mut start: usize = 0;
    proof {
        assert(all@.skip(0) =~= all@);
    }
    while start < all.len() && is_whitespace(all[start])
        invariant
            start <= all@.len(),
            trimmed_start(all@) == trimmed_start(all@.skip(start as int)),
        decreases all@.len() - start,
    {
        proof {
            assert(all@.skip(start as int).drop_first() =~= all@.skip(start + 1));
        }
        start += 1;
    }
    start
}

/// `text` without the white space it begins with.
pub fn trim_start(text: &str) -> (rest: String)
    ensures
        rest@ == trimmed_start(text@),
{
    let all: Vec<char> = characters(text);
    let start: usize = first_visible(&all);
    assert(all@.skip(start as int) =~= all@.subrange(start as int, all@.len() as int));
    collect(&all, start, all.len())
}

/// `text` without the white space around it.
pub fn trim(text: &str) -> (inner: String)
    ensures
        inner@ == trimmed(text@),
{
    let all: Vec<char> = characters(text);
    let start: usize = first_visible(&all);
    let mut end: usize = all.len();
    proof {
        assert(all@.skip(start as int) =~= all@.subrange(start as int, all@.len() as int));
    }
    while end > start && is_whitespace(all[end - 1])
        invariant
            start <= end <= all@.len(),
            trimmed(text@) == trimmed_end(all@.subrange(start as int, end as int)),
        decreases end,
    {
        proof {
            assert(all@.subrange(start as int, end as int).drop_last() =~= all@.subrange(
                start as int,
                end - 1,
            ));
        }
        end -= 1;
    }
    collect(&all, start, end)
}

/// Whether `text` begins with `prefix`.
pub open spec fn begins_with(text: Seq<char>, prefix: Seq<char>) -> bool {
    prefix.len() <= text.len() && text.take(prefix.len() as int) == prefix
}

pub fn starts_with(text: &str, prefix: &str) -> (begins: bool)
    ensures
        begins == begins_with(text@, prefix@),
{
    let all: Vec<char> = characters(text);
    let wanted: Vec<char> = characters(prefix);
    if wanted.len() > all.len() {
        return false;
    }
    let mut index: usize = 0;
    while index < wanted.len()
        invariant
            all@ == text@,
            wanted@ == prefix@,
            wanted@.len() <= all@.len(),
            index <= wanted@.len(),
            forall|i: int| 0 <= i < index ==> all@[i] == wanted@[i],
        decreases wanted@.len() - index,
    {
        if all[index] != wanted[index] {
            assert(text@.take(prefix@.len() as int)[index as int] != prefix@[index as int]);
            return false;
        }
        index += 1;
    }
    assert(text@.take(prefix@.len() as int) =~= prefix@);
    true
}

// -- joining ---------------------------------------------------------------------

/// Two texts in a row.
pub fn join(left: &str, right: &str) -> (joined: String)
    ensures
        joined@ == left@ + right@,
{
    let mut joined: String = left.to_owned();
    joined.append(right);
    joined
}

/// Three texts in a row.
pub fn join3(first: &str, second: &str, third: &str) -> (joined: String)
    ensures
        joined@ == first@ + second@ + third@,
{
    let mut joined: String = first.to_owned();
    joined.append(second);
    joined.append(third);
    joined
}

/// Texts in a row, with a separator between each two.
pub open spec fn joined_with(parts: Seq<Seq<char>>, separator: Seq<char>) -> Seq<char>
    decreases parts.len(),
{
    if parts.len() == 0 {
        seq![]
    } else if parts.len() == 1 {
        parts[0]
    } else {
        joined_with(parts.drop_last(), separator) + separator + parts.last()
    }
}

/// What texts hold, in order.
pub open spec fn all_texts(texts: Seq<String>) -> Seq<Seq<char>> {
    texts.map_values(|text: String| text@)
}

/// Texts in a row, with a separator between each two.
pub fn join_all(parts: &Vec<String>, separator: &str) -> (joined: String)
    ensures
        joined@ == joined_with(all_texts(parts@), separator@),
{
    let ghost texts = all_texts(parts@);
    let mut joined = String::new();
    let mut index: usize = 0;
    proof {
        assert(texts.take(0) =~= Seq::<Seq<char>>::empty());
        assert(joined@ =~= joined_with(texts.take(0), separator@));
    }
    while index < parts.len()
        invariant
            texts == all_texts(parts@),
            index <= parts@.len(),
            joined@ == joined_with(texts.take(index as int), separator@),
        decreases parts@.len() - index,
    {
        let ghost before = joined@;
        if index > 0 {
            joined.append(separator);
        }
        joined.append(parts[index].as_str());
        proof {
            assert(texts.take(index + 1).drop_last() =~= texts.take(index as int));
            assert(texts.take(index + 1).last() == parts@[index as int]@);
            if index == 0 {
                assert(joined@ =~= parts@[0]@);
            }
        }
        index += 1;
    }
    assert(texts.take(texts.len() as int) =~= texts);
    joined
}

/// The digit of a number below ten.
pub open spec fn digit(value: nat) -> char {
    if value == 0 {
        '0'
    } else if value == 1 {
        '1'
    } else if value == 2 {
        '2'
    } else if value == 3 {
        '3'
    } else if value == 4 {
        '4'
    } else if value == 5 {
        '5'
    } else if value == 6 {
        '6'
    } else if value == 7 {
        '7'
    } else if value == 8 {
        '8'
    } else {
        '9'
    }
}

/// A number in decimal digits.
pub open spec fn decimal(value: nat) -> Seq<char>
    decreases value,
{
    if value < 10 {
        seq![digit(value)]
    } else {
        decimal(value / 10).push(digit(value % 10))
    }
}

fn digit_character(value: u64) -> (character: char)
    requires
        value < 10,
    ensures
        character == digit(value as nat),
{
    if value == 0 {
        '0'
    } else if value == 1 {
        '1'
    } else if value == 2 {
        '2'
    } else if value == 3 {
        '3'
    } else if value == 4 {
        '4'
    } else if value == 5 {
        '5'
    } else if value == 6 {
        '6'
    } else if value == 7 {
        '7'
    } else if value == 8 {
        '8'
    } else {
        '9'
    }
}

/// A number in decimal digits.
pub fn number_text(value: u64) -> (text: String)
    ensures
        text@ == decimal(value as nat),
    decreases value,
{
    if value < 10 {
        let mut text = String::new();
        text.push(digit_character(value));
        assert(text@ =~= seq![digit(value as nat)]);
        text
    } else {
        let mut text: String = number_text(value / 10);
        text.push(digit_character(value % 10));
        text
    }
}

} // verus!
