use crate::charts::{ChartRow, ChartTable};
use crate::dataquality::DataQuality;
use crate::errors::VisualAcuityError;
use crate::tabular::{
    chars_of, decimal_between, digits_between, fraction_value, parse_decimal, parse_fraction_digits,
};
use crate::text::{micros_text, push_micros, push_text};
use crate::parser::decorator::{from_items, Content};
use crate::structure::{ParsedItem, ParsedItemCollection};
use crate::vectors::reversed;
use vstd::string::*;
use crate::text::trimmed;
use vstd::prelude::*;

verus! {

/// Whether validation turns the item into plain text: it is of a kind
/// that a chart can hold, and no chart holds a row under its text.
pub open spec fn demoted(item: ParsedItem, charts: ChartTable) -> bool {
    match item.row_key() {
        Some(key) => charts.row_for(trimmed(key)) is None,
        None => false,
    }
}

/// Whether `r` is what validation makes of `input`: the plain text of
/// its stretch of the input where the item is turned into plain text,
/// and `input` itself where it is not.
pub open spec fn is_validated<'a>(
    input: Content<'a, ParsedItem>,
    charts: ChartTable,
    r: Content<'a, ParsedItem>,
) -> bool {
    if demoted(input.content, charts) {
        &&& r.content matches ParsedItem::Text(s) && s@ == input.span()
        &&& r.input == input.input
        &&& r.left == input.left
        &&& r.right == input.right
        &&& r.data_quality == input.data_quality
    } else {
        r == input
    }
}

/// Turns an item that no chart knows back into the plain text that it
/// was read from.
pub fn validate<'a>(input: Content<'a, ParsedItem>, charts: &ChartTable) -> (r: Content<
    'a,
    ParsedItem,
>)
    requires
        input.wf(),
    ensures
        is_validated(input, *charts, r),
{
    let known = match &input.content {
        ParsedItem::SnellenFraction(s) => ChartRow::find(charts, s.as_str()).is_some(),
        ParsedItem::Jaeger(s) => ChartRow::find(charts, s.as_str()).is_some(),
        ParsedItem::Teller(s) => ChartRow::find(charts, s.as_str()).is_some(),
        ParsedItem::ETDRS(s) => ChartRow::find(charts, s.as_str()).is_some(),
        ParsedItem::NearTotalLoss(s, _) => ChartRow::find(charts, s.as_str()).is_some(),
        _ => true,
    };
    if known {
        input
    } else {
        let text = input.input_string();
        Content {
            content: ParsedItem::Text(text),
            input: input.input,
            left: input.left,
            right: input.right,
            data_quality: input.data_quality,
        }
    }
}

/// Plain text stays as it is under validation, and what validation
/// has made of an item it leaves alone when applied once more.
pub proof fn lemma_validate_idempotent<'a>(
    input: Content<'a, ParsedItem>,
    charts: ChartTable,
    once: Content<'a, ParsedItem>,
    twice: Content<'a, ParsedItem>,
)
    requires
        is_validated(input, charts, once),
        is_validated(once, charts, twice),
    ensures
        twice == once,
        input.content is Text ==> once == input,
{
}

/// Whether the item is plain text once it is validated.
pub open spec fn text_after<'a>(item: Content<'a, ParsedItem>, charts: ChartTable) -> bool {
    item.content is Text || demoted(item.content, charts)
}

/// Whether the item is plain text without a character once it is
/// validated.
pub open spec fn empty_after<'a>(item: Content<'a, ParsedItem>, charts: ChartTable) -> bool {
    if demoted(item.content, charts) {
        item.left == item.right
    } else {
        item.content matches ParsedItem::Text(s) && s@.len() == 0
    }
}

/// What becomes of a run of items when adjacent plain texts are
/// merged: the items from `first` to `last` become one item. Where
/// `first` is `last` the item is kept as validation left it; else the
/// run is one plain text that spans from the start of the first item
/// to the end of the last.
pub struct Piece {
    pub first: int,
    pub last: int,
}

/// Whether the piece is plain text.
pub open spec fn piece_is_text<'a>(
    items: Seq<Content<'a, ParsedItem>>,
    charts: ChartTable,
    piece: Piece,
) -> bool {
    piece.first < piece.last || text_after(items[piece.first], charts)
}

/// The pieces that the first `upto` items come to. An item that is
/// empty plain text is left out. Plain text that follows a piece of
/// plain text is merged with it, and the merged piece is left out
/// where it spans no character.
pub open spec fn merged_pieces<'a>(
    items: Seq<Content<'a, ParsedItem>>,
    charts: ChartTable,
    upto: nat,
) -> Seq<Piece>
    decreases upto,
{
    if upto == 0 {
        Seq::empty()
    } else {
        let before = merged_pieces(items, charts, (upto - 1) as nat);
        let next = items[upto - 1];
        if empty_after(next, charts) {
            before
        } else if before.len() == 0 {
            seq![Piece { first: upto - 1, last: upto - 1 }]
        } else if piece_is_text(items, charts, before.last()) && text_after(next, charts) {
            if items[before.last().first].left == next.right {
                before.drop_last()
            } else {
                before.drop_last().push(Piece { first: before.last().first, last: upto - 1 })
            }
        } else {
            before.push(Piece { first: upto - 1, last: upto - 1 })
        }
    }
}

/// Whether `out` is the item that `piece` stands for.
pub open spec fn realizes<'a>(
    items: Seq<Content<'a, ParsedItem>>,
    charts: ChartTable,
    piece: Piece,
    out: Content<'a, ParsedItem>,
) -> bool {
    if piece.first == piece.last {
        is_validated(items[piece.first], charts, out)
    } else {
        &&& out.content matches ParsedItem::Text(s) && s@ == items[piece.last].input@.subrange(
            items[piece.first].left as int,
            items[piece.last].right as int,
        )
        &&& out.input == items[piece.last].input
        &&& out.left == items[piece.first].left
        &&& out.right == items[piece.last].right
        &&& out.data_quality == items[piece.last].data_quality
    }
}

/// Whether `out` is the content of the item that `piece` stands for.
pub open spec fn realizes_content<'a>(
    items: Seq<Content<'a, ParsedItem>>,
    charts: ChartTable,
    piece: Piece,
    out: ParsedItem,
) -> bool {
    if piece.first < piece.last {
        out matches ParsedItem::Text(s) && s@ == items[piece.last].input@.subrange(
            items[piece.first].left as int,
            items[piece.last].right as int,
        )
    } else if demoted(items[piece.first].content, charts) {
        out matches ParsedItem::Text(s) && s@ == items[piece.first].span()
    } else {
        out == items[piece.first].content
    }
}

/// The greatest end of the first `upto` pieces, and 0 where there is
/// none.
pub open spec fn pieces_right<'a>(
    items: Seq<Content<'a, ParsedItem>>,
    pieces: Seq<Piece>,
    upto: nat,
) -> usize
    decreases upto,
{
    if upto == 0 {
        0
    } else if items[pieces[upto - 1].last].right > pieces_right(items, pieces, (upto - 1) as nat) {
        items[pieces[upto - 1].last].right
    } else {
        pieces_right(items, pieces, (upto - 1) as nat)
    }
}

/// The best data quality of the first `upto` pieces, and `NoValue`
/// where there is none. A piece has the quality of its last item.
pub open spec fn pieces_quality<'a>(
    items: Seq<Content<'a, ParsedItem>>,
    pieces: Seq<Piece>,
    upto: nat,
) -> DataQuality
    decreases upto,
{
    if upto == 0 {
        DataQuality::NoValue
    } else {
        pieces_quality(items, pieces, (upto - 1) as nat).spec_max(
            items[pieces[upto - 1].last].data_quality,
        )
    }
}

/// Whether the items can be merged: each stretch lies within its
/// input, and no item starts after the end of a later one.
pub open spec fn mergeable<'a>(items: Seq<Content<'a, ParsedItem>>) -> bool {
    &&& forall|i: int| 0 <= i < items.len() ==> (#[trigger] items[i]).wf()
    &&& forall|i: int, j: int|
        0 <= i < j < items.len() ==> (#[trigger] items[i]).left <= (#[trigger] items[j]).right
}

/// Whether the item is plain text.
fn is_text(item: &Content<ParsedItem>) -> (r: bool)
    ensures
        r == (item.content is Text),
{
    match &item.content {
        ParsedItem::Text(_) => true,
        _ => false,
    }
}

/// Whether the item is plain text without a character.
fn is_empty_text(item: &Content<ParsedItem>) -> (r: bool)
    ensures
        r == (item.content matches ParsedItem::Text(s) && s@.len() == 0),
{
    match &item.content {
        ParsedItem::Text(s) => s.as_str().unicode_len() == 0,
        _ => false,
    }
}

/// One plain text in place of two that follow each other: it spans
/// from the start of the first to the end of the second.
pub fn merge_text<'a>(prev: Content<'a, ParsedItem>, next: Content<'a, ParsedItem>) -> (r: Content<
    'a,
    ParsedItem,
>)
    requires
        prev.left <= next.right <= next.input@.len(),
    ensures
        r.content matches ParsedItem::Text(s) && s@ == next.input@.subrange(
            prev.left as int,
            next.right as int,
        ),
        r.input == next.input,
        r.left == prev.left,
        r.right == next.right,
        r.data_quality == next.data_quality,
{
    let text = next.input.substring_char(prev.left, next.right).to_owned();
    Content {
        content: ParsedItem::Text(text),
        input: next.input,
        left: prev.left,
        right: next.right,
        data_quality: next.data_quality,
    }
}

/// Validates the items and merges plain texts that follow each other.
/// The result holds the items that are left, in their order.
pub fn merge_consecutive_texts<'a>(
    items: Vec<Content<'a, ParsedItem>>,
    charts: &ChartTable,
) -> (r: Content<'a, ParsedItemCollection>)
    requires
        mergeable(items@),
    ensures
        r.content.0@.len() == merged_pieces(items@, *charts, items@.len()).len(),
        forall|j: int|
            0 <= j < r.content.0@.len() ==> realizes_content(
                items@,
                *charts,
                #[trigger] merged_pieces(items@, *charts, items@.len())[j],
                r.content.0@[j],
            ),
        r.left == 0,
        r.right == pieces_right(
            items@,
            merged_pieces(items@, *charts, items@.len()),
            r.content.0@.len(),
        ),
        r.data_quality == pieces_quality(
            items@,
            merged_pieces(items@, *charts, items@.len()),
            r.content.0@.len(),
        ),
        r.content.0@.len() > 0 ==> r.input == items@[merged_pieces(
            items@,
            *charts,
            items@.len(),
        ).last().last].input,
        r.content.0@.len() == 0 ==> r.input@.len() == 0,
{
    let ghost n = items@.len();
    let ghost mut pieces: Seq<Piece> = Seq::empty();
    let mut rest = reversed(items);
    let mut accum: Vec<Content<'a, ParsedItem>> = Vec::new();
    while rest.len() > 0
        invariant
            n == items@.len(),
            mergeable(items@),
            rest@.len() <= n,
            forall|k: int| 0 <= k < rest@.len() ==> rest@[k] == items@[n - 1 - k],
            pieces == merged_pieces(items@, *charts, (n - rest@.len()) as nat),
            accum@.len() == pieces.len(),
            forall|j: int|
                0 <= j < pieces.len() ==> 0 <= (#[trigger] pieces[j]).first <= pieces[j].last < n
                    - rest@.len(),
            forall|j: int|
                0 <= j < pieces.len() ==> realizes(items@, *charts, #[trigger] pieces[j], accum@[j]),
        decreases rest@.len(),
    {
        let ghost done = n - rest@.len();
        match rest.pop() {
            Some(item) => {
                let next = validate(item, charts);
                assert(is_validated(items@[done], *charts, next));
                assert((next.content matches ParsedItem::Text(s) && s@.len() == 0) == empty_after(
                    items@[done],
                    *charts,
                )) by {
                    if demoted(items@[done].content, *charts) {
                        assert(items@[done].wf());
                    }
                }
                if !is_empty_text(&next) {
                    match accum.pop() {
                        None => {
                            accum.push(next);
                            proof {
                                pieces = seq![Piece { first: done, last: done }];
                            }
                        },
                        Some(prev) => {
                            let ghost last = pieces.last();
                            assert(realizes(items@, *charts, last, prev));
                            assert((prev.content is Text) == piece_is_text(items@, *charts, last));
                            if is_text(&prev) && is_text(&next) {
                                assert(prev.left == items@[last.first].left);
                                assert(items@[last.first].left <= items@[done].right);
                                assert(items@[done].wf());
                                if prev.left == next.right {
                                    proof {
                                        pieces = pieces.drop_last();
                                    }
                                } else {
                                    let merged = merge_text(prev, next);
                                    accum.push(merged);
                                    proof {
                                        pieces = pieces.drop_last().push(
                                            Piece { first: last.first, last: done },
                                        );
                                    }
                                }
                            } else {
                                accum.push(prev);
                                accum.push(next);
                                proof {
                                    pieces = pieces.push(Piece { first: done, last: done });
                                }
                            }
                        },
                    }
                }
            },
            None => {},
        }
    }
    let ghost kept = accum@;
    let gathered = from_items(accum);
    proof {
        lemma_gathered(items@, *charts, pieces, kept, pieces.len());
    }
    Content {
        content: ParsedItemCollection(gathered.content),
        input: gathered.input,
        left: gathered.left,
        right: gathered.right,
        data_quality: gathered.data_quality,
    }
}

/// The end and the data quality that are gathered from the merged
/// items are those of the pieces.
proof fn lemma_gathered<'a>(
    items: Seq<Content<'a, ParsedItem>>,
    charts: ChartTable,
    pieces: Seq<Piece>,
    kept: Seq<Content<'a, ParsedItem>>,
    upto: nat,
)
    requires
        upto <= pieces.len(),
        kept.len() == pieces.len(),
        forall|j: int| 0 <= j < pieces.len() ==> realizes(items, charts, #[trigger] pieces[j], kept[j]),
    ensures
        crate::parser::decorator::max_right(kept, upto) == pieces_right(items, pieces, upto),
        crate::parser::decorator::max_quality(kept, upto) == pieces_quality(items, pieces, upto),
    decreases upto,
{
    if upto > 0 {
        lemma_gathered(items, charts, pieces, kept, (upto - 1) as nat);
        assert(realizes(items, charts, pieces[upto - 1], kept[upto - 1]));
    }
}

/// Whether a character is a number of any script, as
/// `char::is_numeric` tells.
pub uninterp spec fn numeric(c: char) -> bool;

/// Calls `char::is_numeric` of the standard library. What it returns
/// depends on the character alone; it is named, not described.
#[verifier::external_body]
fn is_numeric(c: char) -> (r: bool)
    ensures
        r == numeric(c),
{
    c.is_numeric()
}

/// Whether a character can stand in a number: it is numeric or a
/// point.
pub open spec fn in_number(c: char) -> bool {
    numeric(c) || c == '.'
}

/// The first place from `from` on at which `s` holds a character that
/// can stand in a number, or one that cannot, as `wanted` says; the
/// length of `s` where there is none.
pub open spec fn next_change(s: Seq<char>, from: int, wanted: bool) -> int
    decreases s.len() - from,
{
    if from >= s.len() {
        s.len() as int
    } else if in_number(s[from]) == wanted {
        from
    } else {
        next_change(s, from + 1, wanted)
    }
}

/// The number of millionths that the characters of `s` from `from` up
/// to `to` stand for: a decimal number, or a point and digits.
pub open spec fn number_between(s: Seq<char>, from: int, to: int) -> Option<nat> {
    if from < to && s[from] == '.' {
        if from + 1 < to && digits_between(s, from + 1, to) {
            Some(fraction_value(s, from + 1, to, 100_000))
        } else {
            None
        }
    } else {
        decimal_between(s, from, to)
    }
}

/// The numbers that stand in `s` from `from` on, in millionths. A
/// number is a stretch of numeric characters and points that no such
/// character precedes or follows. Stretches that are no decimal number
/// with the digits 0 to 9, or whose number does not fit in 64 bits,
/// are passed over.
pub open spec fn decimals_from(s: Seq<char>, from: int) -> Seq<u64>
    decreases s.len() - from,
{
    let start = next_change(s, from, true);
    let end = next_change(s, start, false);
    if from < 0 || start < from || start >= s.len() || end <= start || end > s.len() {
        Seq::empty()
    } else {
        match number_between(s, start, end) {
            Some(v) => if v <= u64::MAX {
                seq![v as u64] + decimals_from(s, end)
            } else {
                decimals_from(s, end)
            },
            None => decimals_from(s, end),
        }
    }
}

/// The first place from `from` on at which a number starts or ends.
fn find_change(chars: &Vec<char>, from: usize, wanted: bool) -> (r: usize)
    requires
        from <= chars@.len(),
    ensures
        r == next_change(chars@, from as int, wanted),
        from <= r <= chars@.len(),
        r < chars@.len() ==> in_number(chars@[r as int]) == wanted,
{
    let mut i: usize = from;
    while i < chars.len()
        invariant
            from <= i <= chars@.len(),
            next_change(chars@, from as int, wanted) == next_change(chars@, i as int, wanted),
        decreases chars@.len() - i,
    {
        let c = chars[i];
        if (is_numeric(c) || c == '.') == wanted {
            return i;
        }
        i += 1;
    }
    i
}

/// The numbers that stand in a text, in millionths.
pub fn iter_decimals(s: &str) -> (r: Vec<u64>)
    ensures
        r@ == decimals_from(s@, 0),
{
    let chars = chars_of(s);
    let mut found: Vec<u64> = Vec::new();
    let mut from: usize = 0;
    loop
        invariant
            chars@ == s@,
            from <= chars@.len(),
            decimals_from(s@, 0) == found@ + decimals_from(s@, from as int),
        decreases chars@.len() - from,
    {
        let start = find_change(&chars, from, true);
        if start >= chars.len() {
            assert(found@ + Seq::<u64>::empty() =~= found@);
            return found;
        }
        let end = find_change(&chars, start, false);
        assert(end > start);
        let value = if chars[start] == '.' {
            if start + 1 < end {
                parse_fraction_digits(&chars, start + 1, end)
            } else {
                None
            }
        } else {
            parse_decimal(&chars, start, end)
        };
        let ghost before = found@;
        match value {
            Some(v) => {
                found.push(v);
                assert(found@ + decimals_from(s@, end as int) =~= before + (seq![v] + decimals_from(
                    s@,
                    end as int,
                )));
            },
            None => {},
        }
        from = end;
    }
}

/// The texts of the first `upto` numbers, each after the first
/// preceded by a comma and a space.
pub open spec fn joined_numbers(numbers: Seq<u64>, upto: nat) -> Seq<char>
    decreases upto,
{
    if upto == 0 {
        Seq::empty()
    } else if upto == 1 {
        micros_text(numbers[0] as nat)
    } else {
        joined_numbers(numbers, (upto - 1) as nat) + seq![',', ' '] + micros_text(
            numbers[upto - 1] as nat,
        )
    }
}

/// The one number that stands in a text, in millionths. A text without
/// a number has no value; one with several is reported with its
/// numbers in square brackets.
pub fn extract_float(s: &str) -> (r: Result<u64, VisualAcuityError>)
    ensures
        if decimals_from(s@, 0).len() == 0 {
            r matches Err(VisualAcuityError::NoValue)
        } else if decimals_from(s@, 0).len() == 1 {
            r == Ok::<u64, VisualAcuityError>(decimals_from(s@, 0)[0])
        } else {
            r matches Err(VisualAcuityError::MultipleValues(t)) && t@ == seq!['[']
                + joined_numbers(decimals_from(s@, 0), decimals_from(s@, 0).len()) + seq![']']
        },
{
    let numbers = iter_decimals(s);
    if numbers.len() == 0 {
        Err(VisualAcuityError::NoValue)
    } else if numbers.len() == 1 {
        Ok(numbers[0])
    } else {
        let mut out = "[".to_owned();
        proof {
            reveal_strlit("[");
            reveal_strlit("]");
            reveal_strlit(", ");
        }
        let ghost start = out@;
        assert(start =~= seq!['[']);
        let mut i: usize = 0;
        while i < numbers.len()
            invariant
                i <= numbers@.len(),
                out@ == start + joined_numbers(numbers@, i as nat),
                ", "@ =~= seq![',', ' '],
            decreases numbers@.len() - i,
        {
            if i > 0 {
                push_text(&mut out, ", ");
            }
            push_micros(&mut out, numbers[i] as u128);
            i += 1;
            assert(out@ =~= start + joined_numbers(numbers@, i as nat));
        }
        push_text(&mut out, "]");
        assert(out@ =~= seq!['['] + joined_numbers(numbers@, numbers@.len()) + seq![']']);
        Err(VisualAcuityError::MultipleValues(out))
    }
}

/// The first `count` numbers that stand in a text, in millionths. A
/// text with fewer numbers is reported as a parse error.
pub fn extract_floats(s: &str, count: usize) -> (r: Result<Vec<u64>, VisualAcuityError>)
    ensures
        if decimals_from(s@, 0).len() >= count {
            r matches Ok(v) && v@ == decimals_from(s@, 0).subrange(0, count as int)
        } else {
            r matches Err(VisualAcuityError::ParseError(t)) && t@ == s@
        },
{
    let mut numbers = iter_decimals(s);
    if numbers.len() >= count {
        numbers.truncate(count);
        Ok(numbers)
    } else {
        Err(VisualAcuityError::ParseError(s.to_owned()))
    }
}

} // verus!
