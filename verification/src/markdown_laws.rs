//! What every run of styled text carries, byte by byte.

use crate::cuts::{
    lemma_between_bytes, lemma_pieces_tile, lemma_points_in_order, strictly_increasing,
};
use crate::json::{json_member, member_text, object_of, JsonView};
use crate::markdown::{
    block_view, blocks_payload_view, covers, cuts_of, is_cut, is_edge, lemma_run_texts, link_over,
    run_texts, run_view, runs_between, runs_view, style_name_of, styles_over, Block, Inline,
    InlineStyle, LinkSpan, StyleSpan,
};
use crate::text::{lemma_ends_are_boundaries, on_boundary, text_between, utf8_len};
use crate::wire_laws::{keys_differ, lemma_member};
use core::ops::Range;
use vstd::prelude::*;
use vstd::utf8::encode_utf8;

verus! {

/// The byte of the visible text at which run `index` begins.
pub open spec fn run_start(inline: Inline, index: int) -> int {
    utf8_len(run_texts(runs_view(inline).take(index))) as int
}

/// Whether byte `at` lies in a range.
pub open spec fn holds_byte(range: Range<usize>, at: int) -> bool {
    range.start <= at < range.end
}

/// Whether a range begins and ends where the text can be cut, or past the text.
pub open spec fn fits(text: Seq<char>, range: Range<usize>) -> bool {
    &&& on_boundary(text, range.start as int) || range.start >= utf8_len(text)
    &&& on_boundary(text, range.end as int) || range.end >= utf8_len(text)
}

/// Whether every style and every link of the text fits it.
pub open spec fn well_marked(inline: Inline) -> bool {
    &&& forall|i: int|
        0 <= i < inline.spans@.len() ==> fits(inline.text@, (#[trigger] inline.spans@[i]).range)
    &&& forall|i: int|
        0 <= i < inline.links@.len() ==> fits(inline.text@, (#[trigger] inline.links@[i]).range)
}

proof fn lemma_cuts(inline: Inline)
    requires
        utf8_len(inline.text@) <= usize::MAX,
    ensures
        strictly_increasing(cuts_of(inline)),
        cuts_of(inline).len() > 0,
        cuts_of(inline)[0] == 0,
        cuts_of(inline).last() == utf8_len(inline.text@),
        forall|i: int|
            0 <= i < cuts_of(inline).len() ==> is_cut(
                inline,
                #[trigger] cuts_of(inline)[i] as int,
            ),
        forall|at: int|
            #![trigger is_cut(inline, at)]
            0 <= at <= utf8_len(inline.text@) && is_cut(inline, at) ==> cuts_of(inline).contains(
                at as usize,
            ),
{
    let is_point = |at: int| is_cut(inline, at);
    let len = utf8_len(inline.text@) as int;
    lemma_ends_are_boundaries(inline.text@);
    lemma_points_in_order(is_point, len);
    let cuts = cuts_of(inline);
    assert forall|i: int| 0 <= i < cuts.len() implies is_cut(inline, #[trigger] cuts[i] as int) by {
        assert(is_point(cuts[i] as int));
    }
    assert forall|at: int|
        #![trigger is_cut(inline, at)]
        0 <= at <= len && is_cut(inline, at) implies cuts.contains(at as usize) by {
        assert(is_point(at));
    }
    assert(is_cut(inline, 0) && is_cut(inline, len));
    assert(cuts.contains(0usize));
    assert(cuts.contains(len as usize));
    let first = choose|i: int| 0 <= i < cuts.len() && cuts[i] == 0usize;
    let last = choose|i: int| 0 <= i < cuts.len() && cuts[i] == len as usize;
    assert(first == 0) by {
        if first > 0 {
            assert(cuts[0] < cuts[first]);
        }
    }
    assert(last == cuts.len() - 1) by {
        if last < cuts.len() - 1 {
            assert(cuts[last] < cuts[cuts.len() - 1]);
        }
    }
}

proof fn lemma_run_start(inline: Inline, index: int)
    requires
        utf8_len(inline.text@) <= usize::MAX,
        0 <= index < cuts_of(inline).len(),
    ensures
        run_start(inline, index) == cuts_of(inline)[index],
        runs_view(inline).len() == cuts_of(inline).len() - 1,
{
    lemma_cuts(inline);
    let cuts = cuts_of(inline);
    let some = cuts.take(index + 1);
    assert(runs_view(inline).take(index) =~= runs_between(inline, some));
    lemma_run_texts(inline, some);
    assert forall|i: int| 0 <= i < some.len() implies on_boundary(
        inline.text@,
        #[trigger] some[i] as int,
    ) by {
        assert(some[i] == cuts[i]);
        assert(is_cut(inline, cuts[i] as int));
    }
    lemma_pieces_tile(inline.text@, some);
    assert(some[0] == 0 && some.last() == cuts[index]);
    assert(on_boundary(inline.text@, some[0] as int));
    assert(on_boundary(inline.text@, some[index] as int));
    lemma_between_bytes(inline.text@, 0, cuts[index] as int);
}

proof fn lemma_styles(
    spans: Seq<StyleSpan>,
    start: int,
    end: int,
    kept: spec_fn(StyleSpan) -> bool,
)
    requires
        forall|i: int|
            0 <= i < spans.len() ==> kept(#[trigger] spans[i]) == covers(
                spans[i].range,
                start,
                end,
            ),
    ensures
        styles_over(spans, start, end) == spans.filter(kept).map_values(
            |span: StyleSpan| JsonView::Text(style_name_of(span.style)),
        ),
    decreases spans.len(),
{
    reveal(Seq::filter);
    let named = |span: StyleSpan| JsonView::Text(style_name_of(span.style));
    if spans.len() > 0 {
        let rest = spans.drop_last();
        assert forall|i: int| 0 <= i < rest.len() implies kept(#[trigger] rest[i]) == covers(
            rest[i].range,
            start,
            end,
        ) by {
            assert(rest[i] == spans[i]);
        }
        lemma_styles(rest, start, end, kept);
        assert(kept(spans[spans.len() - 1]) == covers(spans.last().range, start, end));
        if kept(spans.last()) {
            assert(spans.filter(kept) == rest.filter(kept).push(spans.last()));
            assert(spans.filter(kept).map_values(named) =~= rest.filter(kept).map_values(
                named,
            ).push(named(spans.last())));
        }
    } else {
        assert(spans.filter(kept).map_values(named) =~= styles_over(spans, start, end));
    }
}

proof fn lemma_first_link(links: Seq<LinkSpan>, start: int, end: int, index: int)
    requires
        0 <= index <= links.len(),
        forall|i: int| 0 <= i < index ==> !covers((#[trigger] links[i]).range, start, end),
        index < links.len() ==> covers(links[index].range, start, end),
    ensures
        link_over(links, start, end) == if index < links.len() {
            JsonView::Text(links[index].url@)
        } else {
            JsonView::Null
        },
    decreases links.len(),
{
    if index > 0 {
        assert(!covers(links[0].range, start, end));
        let rest = links.drop_first();
        assert forall|i: int| 0 <= i < index - 1 implies !covers(
            (#[trigger] rest[i]).range,
            start,
            end,
        ) by {
            assert(rest[i] == links[i + 1]);
        }
        lemma_first_link(rest, start, end, index - 1);
    }
}

proof fn lemma_run_members(inline: Inline, start: int, end: int)
    ensures
        json_member(run_view(inline, start, end), "text"@) == Some(
            JsonView::Text(text_between(inline.text@, start, end)),
        ),
        json_member(run_view(inline, start, end), "styles"@) == Some(
            JsonView::List(styles_over(inline.spans@, start, end)),
        ),
        json_member(run_view(inline, start, end), "url"@) == Some(
            link_over(inline.links@, start, end),
        ),
{
    reveal_strlit("text");
    reveal_strlit("styles");
    reveal_strlit("url");
    assert("text"@.len() == 4 && "styles"@.len() == 6 && "url"@.len() == 3);
    let fields = seq![
        ("text"@, JsonView::Text(text_between(inline.text@, start, end))),
        ("styles"@, JsonView::List(styles_over(inline.spans@, start, end))),
        ("url"@, link_over(inline.links@, start, end)),
    ];
    assert(keys_differ(fields));
    lemma_member(fields, 0);
    lemma_member(fields, 1);
    lemma_member(fields, 2);
}

proof fn lemma_covers_is_bytewise(inline: Inline, range: Range<usize>, index: int, at: int)
    requires
        utf8_len(inline.text@) <= usize::MAX,
        0 <= index < cuts_of(inline).len() - 1,
        cuts_of(inline)[index] <= at < cuts_of(inline)[index + 1],
        fits(inline.text@, range),
        is_edge(inline, range.start as int),
        is_edge(inline, range.end as int),
    ensures
        covers(range, cuts_of(inline)[index] as int, cuts_of(inline)[index + 1] as int)
            == holds_byte(range, at),
{
    lemma_cuts(inline);
    let cuts = cuts_of(inline);
    let len = utf8_len(inline.text@);
    assert(cuts[index + 1] <= cuts[cuts.len() - 1]);
    if holds_byte(range, at) {
        assert(is_cut(inline, range.start as int));
        let k = choose|k: int| 0 <= k < cuts.len() && cuts[k] == range.start;
        if k > index {
            assert(cuts[index + 1] <= cuts[k]);
        } else {
            assert(cuts[k] <= cuts[index]);
        }
        if range.end <= len {
            lemma_ends_are_boundaries(inline.text@);
            assert(is_cut(inline, range.end as int));
            let j = choose|j: int| 0 <= j < cuts.len() && cuts[j] == range.end;
            if j <= index {
                assert(cuts[j] <= cuts[index]);
            } else {
                assert(cuts[index + 1] <= cuts[j]);
            }
        }
    }
}

/// A byte of the visible text carries the styles of exactly those spans that hold it, in the
/// order in which they were parsed.
pub proof fn a_byte_has_the_styles_of_its_spans(inline: Inline, index: int, at: int)
    requires
        utf8_len(inline.text@) <= usize::MAX,
        well_marked(inline),
        0 <= index < runs_view(inline).len(),
        run_start(inline, index) <= at < run_start(inline, index + 1),
    ensures
        json_member(runs_view(inline)[index], "styles"@) == Some(
            JsonView::List(
                inline.spans@.filter(
                    |span: StyleSpan| span.range.start <= at < span.range.end,
                ).map_values(|span: StyleSpan| JsonView::Text(style_name_of(span.style))),
            ),
        ),
{
    lemma_cuts(inline);
    lemma_run_start(inline, index);
    lemma_run_start(inline, index + 1);
    let start = cuts_of(inline)[index] as int;
    let end = cuts_of(inline)[index + 1] as int;
    let kept = |span: StyleSpan| span.range.start <= at < span.range.end;
    assert forall|i: int| 0 <= i < inline.spans@.len() implies kept(#[trigger] inline.spans@[i])
        == covers(inline.spans@[i].range, start, end) by {
        lemma_covers_is_bytewise(inline, inline.spans@[i].range, index, at);
    }
    lemma_styles(inline.spans@, start, end, kept);
    lemma_run_members(inline, start, end);
}

/// A byte of the visible text leads where the first link that holds it leads, and nowhere
/// where none does.
pub proof fn a_byte_leads_where_its_link_does(inline: Inline, index: int, at: int, first: int)
    requires
        utf8_len(inline.text@) <= usize::MAX,
        well_marked(inline),
        0 <= index < runs_view(inline).len(),
        run_start(inline, index) <= at < run_start(inline, index + 1),
        0 <= first <= inline.links@.len(),
        forall|i: int|
            0 <= i < first ==> !((#[trigger] inline.links@[i]).range.start <= at
                < inline.links@[i].range.end),
        first < inline.links@.len() ==> inline.links@[first].range.start <= at
            < inline.links@[first].range.end,
    ensures
        json_member(runs_view(inline)[index], "url"@) == Some(
            if first < inline.links@.len() {
                JsonView::Text(inline.links@[first].url@)
            } else {
                JsonView::Null
            },
        ),
{
    lemma_cuts(inline);
    lemma_run_start(inline, index);
    lemma_run_start(inline, index + 1);
    let start = cuts_of(inline)[index] as int;
    let end = cuts_of(inline)[index + 1] as int;
    assert forall|i: int| 0 <= i < inline.links@.len() implies covers(
        (#[trigger] inline.links@[i]).range,
        start,
        end,
    ) == holds_byte(inline.links@[i].range, at) by {
        lemma_covers_is_bytewise(inline, inline.links@[i].range, index, at);
    }
    lemma_first_link(inline.links@, start, end, first);
    lemma_run_members(inline, start, end);
}

/// Whatever ranges the styles have, a run carries those that reach from its start to its
/// end, and no other: not one that ends before it or begins behind it.
pub proof fn a_run_has_the_styles_that_span_it(inline: Inline, index: int)
    requires
        utf8_len(inline.text@) <= usize::MAX,
        0 <= index < runs_view(inline).len(),
    ensures
        json_member(runs_view(inline)[index], "styles"@) == Some(
            JsonView::List(
                inline.spans@.filter(
                    |span: StyleSpan|
                        span.range.start <= run_start(inline, index) && run_start(
                            inline,
                            index + 1,
                        ) <= span.range.end,
                ).map_values(|span: StyleSpan| JsonView::Text(style_name_of(span.style))),
            ),
        ),
{
    lemma_cuts(inline);
    lemma_run_start(inline, index);
    lemma_run_start(inline, index + 1);
    let start = cuts_of(inline)[index] as int;
    let end = cuts_of(inline)[index + 1] as int;
    lemma_styles(
        inline.spans@,
        start,
        end,
        |span: StyleSpan|
            span.range.start <= run_start(inline, index) && run_start(inline, index + 1)
                <= span.range.end,
    );
    lemma_run_members(inline, start, end);
}

/// A run carries the bytes of the visible text from where it begins to where the next one
/// does. No run is empty, and a new one begins only where a style or a link begins or ends.
pub proof fn a_run_ends_where_a_style_changes(inline: Inline, index: int)
    requires
        utf8_len(inline.text@) <= usize::MAX,
        0 <= index < runs_view(inline).len(),
    ensures
        0 <= run_start(inline, index) < run_start(inline, index + 1) <= utf8_len(inline.text@),
        index == 0 ==> run_start(inline, index) == 0,
        index == runs_view(inline).len() - 1 ==> run_start(inline, index + 1) == utf8_len(
            inline.text@,
        ),
        member_text(runs_view(inline)[index], "text"@) is Some,
        encode_utf8(member_text(runs_view(inline)[index], "text"@)->0) == encode_utf8(
            inline.text@,
        ).subrange(run_start(inline, index), run_start(inline, index + 1)),
        index > 0 ==> (exists|i: int|
            0 <= i < inline.spans@.len() && ((#[trigger] inline.spans@[i]).range.start
                == run_start(inline, index) || inline.spans@[i].range.end == run_start(
                inline,
                index,
            ))) || (exists|i: int|
            0 <= i < inline.links@.len() && ((#[trigger] inline.links@[i]).range.start
                == run_start(inline, index) || inline.links@[i].range.end == run_start(
                inline,
                index,
            ))),
{
    lemma_cuts(inline);
    lemma_run_start(inline, index);
    lemma_run_start(inline, index + 1);
    let cuts = cuts_of(inline);
    assert(cuts[index] < cuts[index + 1]);
    assert(cuts[index + 1] <= cuts[cuts.len() - 1]);
    assert(is_cut(inline, cuts[index] as int));
    assert(is_cut(inline, cuts[index + 1] as int));
    lemma_run_members(inline, cuts[index] as int, cuts[index + 1] as int);
    lemma_between_bytes(inline.text@, cuts[index] as int, cuts[index + 1] as int);
    if index > 0 {
        assert(cuts[0] < cuts[index]);
        assert(cuts[index] < cuts[cuts.len() - 1]);
        assert(is_edge(inline, cuts[index] as int));
    }
}

/// Every place inside the text where a style or a link begins or ends, and where the text
/// can be cut, is the start of a run.
pub proof fn a_style_change_starts_a_run(inline: Inline, at: int)
    requires
        utf8_len(inline.text@) <= usize::MAX,
        0 < at < utf8_len(inline.text@),
        on_boundary(inline.text@, at),
        (exists|i: int|
            0 <= i < inline.spans@.len() && ((#[trigger] inline.spans@[i]).range.start == at
                || inline.spans@[i].range.end == at)) || (exists|i: int|
            0 <= i < inline.links@.len() && ((#[trigger] inline.links@[i]).range.start == at
                || inline.links@[i].range.end == at)),
    ensures
        exists|index: int|
            0 < index < runs_view(inline).len() && #[trigger] run_start(inline, index) == at,
{
    lemma_cuts(inline);
    assert(is_cut(inline, at));
    let cuts = cuts_of(inline);
    let k = choose|k: int| 0 <= k < cuts.len() && cuts[k] == at as usize;
    lemma_run_start(inline, k);
}

/// Styles go by these names.
pub proof fn styles_have_names()
    ensures
        style_name_of(InlineStyle::Strong) == "strong"@,
        style_name_of(InlineStyle::Emphasis) == "emphasis"@,
        style_name_of(InlineStyle::Code) == "code"@,
        style_name_of(InlineStyle::Strikethrough) == "strikethrough"@,
{
}

// -- blocks ------------------------------------------------------------------------

proof fn lemma_kind_and_one(kind: Seq<char>, key: Seq<char>, member: JsonView)
    requires
        key == "runs"@ || key == "text"@,
    ensures
        ({
            let value = object_of(seq![("kind"@, JsonView::Text(kind)), (key, member)]);
            &&& json_member(value, "kind"@) == Some(JsonView::Text(kind))
            &&& json_member(value, key) == Some(member)
        }),
{
    reveal_strlit("kind");
    reveal_strlit("runs");
    reveal_strlit("text");
    assert("kind"@[0] != "runs"@[0] && "kind"@[0] != "text"@[0]);
    let fields = seq![("kind"@, JsonView::Text(kind)), (key, member)];
    assert(keys_differ(fields));
    lemma_member(fields, 0);
    lemma_member(fields, 1);
}

proof fn lemma_kind_and_two(
    kind: Seq<char>,
    key: Seq<char>,
    member: JsonView,
    other: Seq<char>,
    second: JsonView,
)
    requires
        (key == "level"@ || key == "number"@) && other == "runs"@ || key == "headers"@ && other
            == "rows"@,
    ensures
        ({
            let value = object_of(
                seq![("kind"@, JsonView::Text(kind)), (key, member), (other, second)],
            );
            &&& json_member(value, "kind"@) == Some(JsonView::Text(kind))
            &&& json_member(value, key) == Some(member)
            &&& json_member(value, other) == Some(second)
        }),
{
    reveal_strlit("kind");
    reveal_strlit("runs");
    reveal_strlit("level");
    reveal_strlit("number");
    reveal_strlit("headers");
    reveal_strlit("rows");
    assert("kind"@.len() == 4 && "runs"@.len() == 4 && "rows"@.len() == 4 && "level"@.len() == 5
        && "number"@.len() == 6 && "headers"@.len() == 7);
    assert("kind"@[0] != "runs"@[0] && "kind"@[0] != "rows"@[0]);
    let fields = seq![("kind"@, JsonView::Text(kind)), (key, member), (other, second)];
    assert(keys_differ(fields));
    lemma_member(fields, 0);
    lemma_member(fields, 1);
    lemma_member(fields, 2);
}

/// A block of text says what kind it is and carries the runs of its own text.
pub proof fn a_block_carries_its_runs(block: Block)
    ensures
        block matches Block::Heading(level, inline) ==> json_member(block_view(block), "kind"@)
            == Some(JsonView::Text("heading"@)) && json_member(block_view(block), "level"@)
            == Some(JsonView::Natural(level)) && json_member(block_view(block), "runs"@) == Some(
            JsonView::List(runs_view(inline)),
        ),
        block matches Block::Paragraph(inline) ==> json_member(block_view(block), "kind"@) == Some(
            JsonView::Text("paragraph"@),
        ) && json_member(block_view(block), "runs"@) == Some(JsonView::List(runs_view(inline))),
        block matches Block::Bullet(inline) ==> json_member(block_view(block), "kind"@) == Some(
            JsonView::Text("bullet"@),
        ) && json_member(block_view(block), "runs"@) == Some(JsonView::List(runs_view(inline))),
        block matches Block::Numbered(number, inline) ==> json_member(block_view(block), "kind"@)
            == Some(JsonView::Text("numbered"@)) && json_member(block_view(block), "number"@)
            == Some(JsonView::Natural(number)) && json_member(block_view(block), "runs"@) == Some(
            JsonView::List(runs_view(inline)),
        ),
        block matches Block::Quote(inline) ==> json_member(block_view(block), "kind"@) == Some(
            JsonView::Text("quote"@),
        ) && json_member(block_view(block), "runs"@) == Some(JsonView::List(runs_view(inline))),
        block matches Block::Code(text) ==> json_member(block_view(block), "kind"@) == Some(
            JsonView::Text("code"@),
        ) && json_member(block_view(block), "text"@) == Some(JsonView::Text(text@)),
        block is Separator ==> json_member(block_view(block), "kind"@) == Some(
            JsonView::Text("separator"@),
        ),
{
    match block {
        Block::Heading(level, inline) => {
            lemma_kind_and_two(
                "heading"@,
                "level"@,
                JsonView::Natural(level),
                "runs"@,
                JsonView::List(runs_view(inline)),
            );
        },
        Block::Paragraph(inline) => {
            lemma_kind_and_one("paragraph"@, "runs"@, JsonView::List(runs_view(inline)));
        },
        Block::Bullet(inline) => {
            lemma_kind_and_one("bullet"@, "runs"@, JsonView::List(runs_view(inline)));
        },
        Block::Numbered(number, inline) => {
            lemma_kind_and_two(
                "numbered"@,
                "number"@,
                JsonView::Natural(number),
                "runs"@,
                JsonView::List(runs_view(inline)),
            );
        },
        Block::Quote(inline) => {
            lemma_kind_and_one("quote"@, "runs"@, JsonView::List(runs_view(inline)));
        },
        Block::Code(text) => {
            lemma_kind_and_one("code"@, "text"@, JsonView::Text(text@));
        },
        Block::Table(_, _) => {},
        Block::Separator => {
            lemma_member(seq![("kind"@, JsonView::Text("separator"@))], 0);
        },
    }
}

/// A table keeps every cell where it stands: the headers in their order, and each row's
/// cells in theirs.
pub proof fn a_table_keeps_every_cell(
    headers: Vec<Inline>,
    rows: Vec<Vec<Inline>>,
    row: int,
    cell: int,
)
    ensures
        ({
            let value = block_view(Block::Table(headers, rows));
            &&& json_member(value, "kind"@) == Some(JsonView::Text("table"@))
            &&& json_member(value, "headers"@) matches Some(JsonView::List(drawn))
            &&& json_member(value, "rows"@) matches Some(JsonView::List(lines))
            &&& json_member(value, "headers"@)->0->List_0.len() == headers@.len()
            &&& json_member(value, "rows"@)->0->List_0.len() == rows@.len()
            &&& 0 <= cell < headers@.len() ==> json_member(value, "headers"@)->0->List_0[cell]
                == JsonView::List(runs_view(headers@[cell]))
            &&& 0 <= row < rows@.len() ==> {
                let line = json_member(value, "rows"@)->0->List_0[row];
                &&& line is List
                &&& line->List_0.len() == rows@[row]@.len()
                &&& 0 <= cell < rows@[row]@.len() ==> line->List_0[cell] == JsonView::List(
                    runs_view(rows@[row]@[cell]),
                )
            }
        }),
{
    lemma_kind_and_two(
        "table"@,
        "headers"@,
        crate::markdown::cells_view(headers@),
        "rows"@,
        crate::markdown::rows_view(rows@),
    );
}

/// The blocks of a message are handed back whole and in order.
pub proof fn blocks_keep_their_order(parsed: Seq<Block>, index: int)
    requires
        0 <= index < parsed.len(),
    ensures
        json_member(blocks_payload_view(parsed), "blocks"@) matches Some(JsonView::List(drawn)),
        json_member(blocks_payload_view(parsed), "blocks"@)->0->List_0.len() == parsed.len(),
        json_member(blocks_payload_view(parsed), "blocks"@)->0->List_0[index] == block_view(
            parsed[index],
        ),
{
    lemma_member(
        seq![("blocks"@, JsonView::List(parsed.map_values(|one: Block| block_view(one))))],
        0,
    );
}

} // verus!
