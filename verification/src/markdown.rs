//! Parsed markdown, as the frontend draws it.
//!
//! A parser has split a message into blocks and each block's text into visible text with
//! styles and links over ranges of its bytes. A frontend that counts in UTF-16 units
//! cannot use those ranges, so each run of equal style carries its own text instead.

use crate::cuts::{
    insert_point, joined_pieces, lemma_pieces_tile, lemma_points_are_unique, lemma_points_in_order,
    lemma_whole_piece, points_up_to, strictly_increasing,
};
use crate::json::{
    field, json_fields, json_items, json_list, json_null, json_number, json_object, json_str,
    json_text, json_view, member_text, members_of, object_of, JsonView,
};
use crate::text::{
    byte_len, lemma_boundary_prefix, lemma_ends_are_boundaries, on_boundary, slice, text_between,
    utf8_len,
};
use core::ops::Range;
use serde_json::Value;
use vstd::prelude::*;

verus! {

#[derive(Clone, Copy, Debug, PartialEq, Eq, Structural)]
pub enum InlineStyle {
    Strong,
    Emphasis,
    Code,
    Strikethrough,
}

/// A style over a range of the visible text.
pub struct StyleSpan {
    pub range: Range<usize>,
    pub style: InlineStyle,
}

/// A link over a range of the visible text.
pub struct LinkSpan {
    pub range: Range<usize>,
    pub url: String,
}

/// The visible text of a piece of inline markdown, without its delimiters.
pub struct Inline {
    pub text: String,
    pub spans: Vec<StyleSpan>,
    pub links: Vec<LinkSpan>,
}

/// One block of a message.
pub enum Block {
    Heading(u64, Inline),
    Paragraph(Inline),
    Bullet(Inline),
    Numbered(u64, Inline),
    Quote(Inline),
    Code(String),
    Table(Vec<Inline>, Vec<Vec<Inline>>),
    Separator,
}

/// The name a style goes by on the wire.
pub open spec fn style_name_of(style: InlineStyle) -> Seq<char> {
    match style {
        InlineStyle::Strong => "strong"@,
        InlineStyle::Emphasis => "emphasis"@,
        InlineStyle::Code => "code"@,
        InlineStyle::Strikethrough => "strikethrough"@,
    }
}

/// Whether a range covers the piece from `start` to `end`.
pub open spec fn covers(range: Range<usize>, start: int, end: int) -> bool {
    range.start <= start && range.end >= end
}

/// Whether a style or a link begins or ends at byte `at`.
pub open spec fn is_edge(inline: Inline, at: int) -> bool {
    ||| exists|i: int|
        0 <= i < inline.spans@.len() && ((#[trigger] inline.spans@[i]).range.start == at
            || inline.spans@[i].range.end == at)
    ||| exists|i: int|
        0 <= i < inline.links@.len() && ((#[trigger] inline.links@[i]).range.start == at
            || inline.links@[i].range.end == at)
}

/// Whether the text is cut at byte `at`: at its ends, and where a style or a link begins
/// or ends, provided that the text can be cut there.
pub open spec fn is_cut(inline: Inline, at: int) -> bool {
    &&& on_boundary(inline.text@, at)
    &&& at == 0 || at == utf8_len(inline.text@) || is_edge(inline, at)
}

/// Where the visible text is cut, in order.
pub open spec fn cuts_of(inline: Inline) -> Seq<usize> {
    points_up_to(|at: int| is_cut(inline, at), utf8_len(inline.text@) as int)
}

/// The names of the styles over a piece, in the order in which they were parsed.
pub open spec fn styles_over(spans: Seq<StyleSpan>, start: int, end: int) -> Seq<JsonView>
    decreases spans.len(),
{
    if spans.len() == 0 {
        seq![]
    } else if covers(spans.last().range, start, end) {
        styles_over(spans.drop_last(), start, end).push(
            JsonView::Text(style_name_of(spans.last().style)),
        )
    } else {
        styles_over(spans.drop_last(), start, end)
    }
}

/// The first link over a piece.
pub open spec fn link_over(links: Seq<LinkSpan>, start: int, end: int) -> JsonView
    decreases links.len(),
{
    if links.len() == 0 {
        JsonView::Null
    } else if covers(links[0].range, start, end) {
        JsonView::Text(links[0].url@)
    } else {
        link_over(links.drop_first(), start, end)
    }
}

/// One run: its text, its styles, and where it leads.
pub open spec fn run_view(inline: Inline, start: int, end: int) -> JsonView {
    object_of(
        seq![
            ("text"@, JsonView::Text(text_between(inline.text@, start, end))),
            ("styles"@, JsonView::List(styles_over(inline.spans@, start, end))),
            ("url"@, link_over(inline.links@, start, end)),
        ],
    )
}

/// The runs between neighbouring cuts.
pub open spec fn runs_between(inline: Inline, cuts: Seq<usize>) -> Seq<JsonView> {
    Seq::new(
        if cuts.len() > 0 {
            (cuts.len() - 1) as nat
        } else {
            0
        },
        |i: int| run_view(inline, cuts[i] as int, cuts[i + 1] as int),
    )
}

/// The runs of a piece of inline markdown.
pub open spec fn runs_view(inline: Inline) -> Seq<JsonView> {
    runs_between(inline, cuts_of(inline))
}

pub fn style_name(style: InlineStyle) -> (name: &'static str)
    ensures
        name@ == style_name_of(style),
{
    match style {
        InlineStyle::Strong => "strong",
        InlineStyle::Emphasis => "emphasis",
        InlineStyle::Code => "code",
        InlineStyle::Strikethrough => "strikethrough",
    }
}

/// Add a cut, if the text can be cut there.
fn add_cut(cuts: &mut Vec<usize>, text: &str, at: usize)
    requires
        strictly_increasing(old(cuts)@),
    ensures
        strictly_increasing(final(cuts)@),
        forall|point: usize|
            #![trigger final(cuts)@.contains(point)]
            final(cuts)@.contains(point) <==> old(cuts)@.contains(point) || (point == at
                && on_boundary(text@, at as int)),
{
    if text.is_char_boundary(at) {
        insert_point(cuts, at);
    }
}

/// Where the visible text is cut, in order.
fn cuts(inline: &Inline) -> (cuts: Vec<usize>)
    ensures
        cuts@ == cuts_of(*inline),
        strictly_increasing(cuts@),
        forall|i: int| 0 <= i < cuts@.len() ==> on_boundary(
            inline.text@,
            #[trigger] cuts@[i] as int,
        ),
{
    let text: &str = inline.text.as_str();
    let len: usize = byte_len(text);
    let mut cuts: Vec<usize> = Vec::new();
    add_cut(&mut cuts, text, 0);
    add_cut(&mut cuts, text, len);
    let mut index: usize = 0;
    while index < inline.spans.len()
        invariant
            index <= inline.spans@.len(),
            text@ == inline.text@,
            len == utf8_len(text@),
            strictly_increasing(cuts@),
            forall|point: usize|
                #![trigger cuts@.contains(point)]
                cuts@.contains(point) <==> on_boundary(text@, point as int) && (point == 0 || point
                    == len || exists|i: int|
                    0 <= i < index && ((#[trigger] inline.spans@[i]).range.start == point
                        || inline.spans@[i].range.end == point)),
        decreases inline.spans@.len() - index,
    {
        let span: &StyleSpan = &inline.spans[index];
        add_cut(&mut cuts, text, span.range.start);
        add_cut(&mut cuts, text, span.range.end);
        proof {
            assert(inline.spans@[index as int] == *span);
        }
        index += 1;
    }
    let mut index: usize = 0;
    while index < inline.links.len()
        invariant
            index <= inline.links@.len(),
            text@ == inline.text@,
            len == utf8_len(text@),
            strictly_increasing(cuts@),
            forall|point: usize|
                #![trigger cuts@.contains(point)]
                cuts@.contains(point) <==> on_boundary(text@, point as int) && (point == 0 || point
                    == len || (exists|i: int|
                    0 <= i < inline.spans@.len() && ((#[trigger] inline.spans@[i]).range.start
                        == point || inline.spans@[i].range.end == point)) || (exists|i: int|
                    0 <= i < index && ((#[trigger] inline.links@[i]).range.start == point
                        || inline.links@[i].range.end == point))),
        decreases inline.links@.len() - index,
    {
        let link: &LinkSpan = &inline.links[index];
        add_cut(&mut cuts, text, link.range.start);
        add_cut(&mut cuts, text, link.range.end);
        proof {
            assert(inline.links@[index as int] == *link);
        }
        index += 1;
    }
    proof {
        let is_point = |at: int| is_cut(*inline, at);
        assert forall|i: int| 0 <= i < cuts@.len() implies #[trigger] cuts@[i] <= len
            && on_boundary(inline.text@, cuts@[i] as int) by {
            assert(cuts@.contains(cuts@[i]));
            let _ = lemma_boundary_prefix(text@, cuts@[i] as int);
        }
        assert forall|at: int|
            #![trigger is_point(at)]
            0 <= at <= len implies (is_point(at) <==> cuts@.contains(at as usize)) by {}
        lemma_points_are_unique(cuts@, is_point, len as int);
    }
    cuts
}

fn styles(spans: &Vec<StyleSpan>, start: usize, end: usize) -> (names: Vec<Value>)
    ensures
        json_items(names@) == styles_over(spans@, start as int, end as int),
{
    let mut names: Vec<Value> = Vec::new();
    let mut index: usize = 0;
    proof {
        assert(spans@.take(0) =~= Seq::<StyleSpan>::empty());
        assert(json_items(names@) =~= seq![]);
    }
    while index < spans.len()
        invariant
            index <= spans@.len(),
            json_items(names@) == styles_over(spans@.take(index as int), start as int, end as int),
        decreases spans@.len() - index,
    {
        let span: &StyleSpan = &spans[index];
        let ghost before = names@;
        if span.range.start <= start && span.range.end >= end {
            let name: Value = json_str(style_name(span.style));
            names.push(name);
            proof {
                assert(json_items(names@) =~= json_items(before).push(json_view(name)));
            }
        }
        proof {
            assert(spans@.take(index + 1).drop_last() =~= spans@.take(index as int));
        }
        index += 1;
    }
    assert(spans@.take(spans@.len() as int) =~= spans@);
    names
}

fn link(links: &Vec<LinkSpan>, start: usize, end: usize) -> (url: Value)
    ensures
        json_view(url) == link_over(links@, start as int, end as int),
{
    let mut index: usize = 0;
    proof {
        assert(links@.skip(0) =~= links@);
    }
    while index < links.len()
        invariant
            index <= links@.len(),
            link_over(links@, start as int, end as int) == link_over(
                links@.skip(index as int),
                start as int,
                end as int,
            ),
        decreases links@.len() - index,
    {
        let span: &LinkSpan = &links[index];
        if span.range.start <= start && span.range.end >= end {
            return json_str(span.url.as_str());
        }
        proof {
            assert(links@.skip(index as int).drop_first() =~= links@.skip(index + 1));
        }
        index += 1;
    }
    json_null()
}

/// Inline markdown as a list of styled runs.
pub fn runs(inline: &Inline) -> (out: Vec<Value>)
    ensures
        json_items(out@) == runs_view(*inline),
{
    let cuts: Vec<usize> = cuts(inline);
    let mut out: Vec<Value> = Vec::new();
    let mut index: usize = 1;
    while index < cuts.len()
        invariant
            1 <= index,
            cuts@ == cuts_of(*inline),
            strictly_increasing(cuts@),
            forall|i: int| 0 <= i < cuts@.len() ==> on_boundary(
                inline.text@,
                #[trigger] cuts@[i] as int,
            ),
            out@.len() == index - 1,
            index <= cuts@.len() || index == 1,
            forall|i: int|
                0 <= i < out@.len() ==> json_view(#[trigger] out@[i]) == run_view(
                    *inline,
                    cuts@[i] as int,
                    cuts@[i + 1] as int,
                ),
        decreases cuts@.len() - index,
    {
        let start: usize = cuts[index - 1];
        let end: usize = cuts[index];
        assert(on_boundary(inline.text@, cuts@[index - 1] as int));
        assert(on_boundary(inline.text@, cuts@[index as int] as int));
        let text: Value = json_text(slice(inline.text.as_str(), start, end));
        let styles: Value = json_list(styles(&inline.spans, start, end));
        let url: Value = link(&inline.links, start, end);
        let fields: Vec<(String, Value)> = vec![
            field("text", text),
            field("styles", styles),
            field("url", url),
        ];
        assert(json_fields(fields@) =~= seq![
            ("text"@, json_view(text)),
            ("styles"@, json_view(styles)),
            ("url"@, json_view(url)),
        ]);
        out.push(json_object(fields));
        index += 1;
    }
    assert(json_items(out@) =~= runs_view(*inline));
    out
}

/// The texts that runs carry, one after another.
pub open spec fn run_texts(runs: Seq<JsonView>) -> Seq<char>
    decreases runs.len(),
{
    if runs.len() == 0 {
        seq![]
    } else {
        run_texts(runs.drop_last()) + member_text(runs.last(), "text"@)->0
    }
}

proof fn lemma_run_text(inline: Inline, start: int, end: int)
    ensures
        member_text(run_view(inline, start, end), "text"@) == Some(
            text_between(inline.text@, start, end),
        ),
{
    reveal_strlit("text");
    reveal_strlit("styles");
    reveal_strlit("url");
    assert("text"@.len() != "styles"@.len());
    assert("text"@.len() != "url"@.len());
    let fields = seq![
        ("text"@, JsonView::Text(text_between(inline.text@, start, end))),
        ("styles"@, JsonView::List(styles_over(inline.spans@, start, end))),
        ("url"@, link_over(inline.links@, start, end)),
    ];
    let two = fields.drop_last();
    let one = two.drop_last();
    assert(one.drop_last() =~= Seq::<(Seq<char>, JsonView)>::empty());
    assert(members_of(one) == members_of(one.drop_last()).insert(one.last().0, one.last().1));
    assert(members_of(two) == members_of(one).insert(two.last().0, two.last().1));
    assert(members_of(fields) == members_of(two).insert(fields.last().0, fields.last().1));
}

/// The texts of the runs between cuts are the pieces between the cuts.
pub proof fn lemma_run_texts(inline: Inline, cuts: Seq<usize>)
    ensures
        run_texts(runs_between(inline, cuts)) == joined_pieces(inline.text@, cuts),
    decreases cuts.len(),
{
    let runs = runs_between(inline, cuts);
    if cuts.len() >= 2 {
        assert(runs.drop_last() =~= runs_between(inline, cuts.drop_last()));
        lemma_run_texts(inline, cuts.drop_last());
        lemma_run_text(inline, cuts[cuts.len() - 2] as int, cuts.last() as int);
    }
}

/// Nothing is lost in the runs: their texts, one after another, are the visible text.
pub proof fn runs_carry_the_whole_text(inline: Inline)
    requires
        utf8_len(inline.text@) <= usize::MAX,
    ensures
        run_texts(runs_view(inline)) == inline.text@,
{
    let is_point = |at: int| is_cut(inline, at);
    let len = utf8_len(inline.text@) as int;
    lemma_ends_are_boundaries(inline.text@);
    lemma_points_in_order(is_point, len);
    let cuts = cuts_of(inline);
    assert(is_point(0) && is_point(len));
    assert(cuts.contains(0usize));
    assert(cuts.contains(len as usize));
    let first = choose|i: int| 0 <= i < cuts.len() && cuts[i] == 0usize;
    let last = choose|i: int| 0 <= i < cuts.len() && cuts[i] == len as usize;
    assert(first == 0) by {
        if first > 0 {
            assert(cuts[0] < cuts[first]);
        }
    }
    assert(last == cuts.len() - 1) by {
        if last < cuts.len() - 1 {
            assert(cuts[last] < cuts[cuts.len() - 1]);
        }
    }
    assert forall|i: int| 0 <= i < cuts.len() implies on_boundary(
        inline.text@,
        #[trigger] cuts[i] as int,
    ) by {
        assert(is_point(cuts[i] as int));
    }
    lemma_pieces_tile(inline.text@, cuts);
    lemma_whole_piece(inline.text@);
    lemma_run_texts(inline, cuts);
}

// -- blocks --------------------------------------------------------------------

/// The runs of each cell of a row.
pub open spec fn cells_view(cells: Seq<Inline>) -> JsonView {
    JsonView::List(cells.map_values(|cell: Inline| JsonView::List(runs_view(cell))))
}

/// The cells of each row of a table.
pub open spec fn rows_view(rows: Seq<Vec<Inline>>) -> JsonView {
    JsonView::List(rows.map_values(|row: Vec<Inline>| cells_view(row@)))
}

/// One block as the frontend draws it.
pub open spec fn block_view(block: Block) -> JsonView {
    match block {
        Block::Heading(level, inline) => object_of(
            seq![
                ("kind"@, JsonView::Text("heading"@)),
                ("level"@, JsonView::Natural(level)),
                ("runs"@, JsonView::List(runs_view(inline))),
            ],
        ),
        Block::Paragraph(inline) => object_of(
            seq![
                ("kind"@, JsonView::Text("paragraph"@)),
                ("runs"@, JsonView::List(runs_view(inline))),
            ],
        ),
        Block::Bullet(inline) => object_of(
            seq![
                ("kind"@, JsonView::Text("bullet"@)),
                ("runs"@, JsonView::List(runs_view(inline))),
            ],
        ),
        Block::Numbered(number, inline) => object_of(
            seq![
                ("kind"@, JsonView::Text("numbered"@)),
                ("number"@, JsonView::Natural(number)),
                ("runs"@, JsonView::List(runs_view(inline))),
            ],
        ),
        Block::Quote(inline) => object_of(
            seq![
                ("kind"@, JsonView::Text("quote"@)),
                ("runs"@, JsonView::List(runs_view(inline))),
            ],
        ),
        Block::Code(text) => object_of(
            seq![("kind"@, JsonView::Text("code"@)), ("text"@, JsonView::Text(text@))],
        ),
        Block::Table(headers, rows) => object_of(
            seq![
                ("kind"@, JsonView::Text("table"@)),
                ("headers"@, cells_view(headers@)),
                ("rows"@, rows_view(rows@)),
            ],
        ),
        Block::Separator => object_of(seq![("kind"@, JsonView::Text("separator"@))]),
    }
}

fn cells(row: &Vec<Inline>) -> (value: Value)
    ensures
        json_view(value) == cells_view(row@),
{
    let mut out: Vec<Value> = Vec::new();
    let mut index: usize = 0;
    while index < row.len()
        invariant
            index <= row@.len(),
            out@.len() == index,
            forall|i: int|
                0 <= i < index ==> json_view(#[trigger] out@[i]) == JsonView::List(
                    runs_view(row@[i]),
                ),
        decreases row@.len() - index,
    {
        out.push(json_list(runs(&row[index])));
        index += 1;
    }
    assert(json_items(out@) =~= row@.map_values(|cell: Inline| JsonView::List(runs_view(cell))));
    json_list(out)
}

/// One block as the frontend draws it.
pub fn block_value(one: &Block) -> (value: Value)
    ensures
        json_view(value) == block_view(*one),
{
    match one {
        Block::Heading(level, inline) => {
            let kind: Value = json_str("heading");
            let level: Value = json_number(*level);
            let runs: Value = json_list(runs(inline));
            let fields: Vec<(String, Value)> = vec![
                field("kind", kind),
                field("level", level),
                field("runs", runs),
            ];
            assert(json_fields(fields@) =~= seq![
                ("kind"@, json_view(kind)),
                ("level"@, json_view(level)),
                ("runs"@, json_view(runs)),
            ]);
            json_object(fields)
        },
        Block::Paragraph(inline) => kind_with_runs("paragraph", inline),
        Block::Bullet(inline) => kind_with_runs("bullet", inline),
        Block::Numbered(number, inline) => {
            let kind: Value = json_str("numbered");
            let number: Value = json_number(*number);
            let runs: Value = json_list(runs(inline));
            let fields: Vec<(String, Value)> = vec![
                field("kind", kind),
                field("number", number),
                field("runs", runs),
            ];
            assert(json_fields(fields@) =~= seq![
                ("kind"@, json_view(kind)),
                ("number"@, json_view(number)),
                ("runs"@, json_view(runs)),
            ]);
            json_object(fields)
        },
        Block::Quote(inline) => kind_with_runs("quote", inline),
        Block::Code(text) => {
            let kind: Value = json_str("code");
            let text: Value = json_str(text.as_str());
            let fields: Vec<(String, Value)> = vec![field("kind", kind), field("text", text)];
            assert(json_fields(fields@) =~= seq![
                ("kind"@, json_view(kind)),
                ("text"@, json_view(text)),
            ]);
            json_object(fields)
        },
        Block::Table(headers, rows) => {
            let kind: Value = json_str("table");
            let headers: Value = cells(headers);
            let mut out: Vec<Value> = Vec::new();
            let mut index: usize = 0;
            while index < rows.len()
                invariant
                    index <= rows@.len(),
                    out@.len() == index,
                    forall|i: int|
                        0 <= i < index ==> json_view(#[trigger] out@[i]) == cells_view(rows@[i]@),
                decreases rows@.len() - index,
            {
                out.push(cells(&rows[index]));
                index += 1;
            }
            assert(json_items(out@) =~= rows@.map_values(|row: Vec<Inline>| cells_view(row@)));
            let rows: Value = json_list(out);
            let fields: Vec<(String, Value)> = vec![
                field("kind", kind),
                field("headers", headers),
                field("rows", rows),
            ];
            assert(json_fields(fields@) =~= seq![
                ("kind"@, json_view(kind)),
                ("headers"@, json_view(headers)),
                ("rows"@, json_view(rows)),
            ]);
            json_object(fields)
        },
        Block::Separator => {
            let kind: Value = json_str("separator");
            let fields: Vec<(String, Value)> = vec![field("kind", kind)];
            assert(json_fields(fields@) =~= seq![("kind"@, json_view(kind))]);
            json_object(fields)
        },
    }
}

fn kind_with_runs(kind: &str, inline: &Inline) -> (value: Value)
    ensures
        json_view(value) == object_of(
            seq![
                ("kind"@, JsonView::Text(kind@)),
                ("runs"@, JsonView::List(runs_view(*inline))),
            ],
        ),
{
    let kind: Value = json_str(kind);
    let runs: Value = json_list(runs(inline));
    let fields: Vec<(String, Value)> = vec![field("kind", kind), field("runs", runs)];
    assert(json_fields(fields@) =~= seq![("kind"@, json_view(kind)), ("runs"@, json_view(runs))]);
    json_object(fields)
}

/// The blocks of one message, as the frontend draws them.
pub fn blocks(parsed: &Vec<Block>) -> (out: Vec<Value>)
    ensures
        json_items(out@) == parsed@.map_values(|one: Block| block_view(one)),
{
    let mut out: Vec<Value> = Vec::new();
    let mut index: usize = 0;
    while index < parsed.len()
        invariant
            index <= parsed@.len(),
            out@.len() == index,
            forall|i: int| 0 <= i < index ==> json_view(#[trigger] out@[i]) == block_view(parsed@[i]),
        decreases parsed@.len() - index,
    {
        out.push(block_value(&parsed[index]));
        index += 1;
    }
    assert(json_items(out@) =~= parsed@.map_values(|one: Block| block_view(one)));
    out
}

/// What is handed back for the markdown of one message: its blocks.
pub open spec fn blocks_payload_view(parsed: Seq<Block>) -> JsonView {
    object_of(
        seq![("blocks"@, JsonView::List(parsed.map_values(|one: Block| block_view(one))))],
    )
}

/// What is handed back for the markdown of one message.
pub fn blocks_payload(parsed: &Vec<Block>) -> (payload: Value)
    ensures
        json_view(payload) == blocks_payload_view(parsed@),
{
    let drawn: Value = json_list(blocks(parsed));
    let fields: Vec<(String, Value)> = vec![field("blocks", drawn)];
    assert(json_fields(fields@) =~= seq![("blocks"@, json_view(drawn))]);
    json_object(fields)
}

} // verus!
