use crate::charts::ChartTable;
use crate::dataquality::DataQuality;
use crate::errors::VisualAcuityError;
use crate::parser::decorator::Content;
use crate::parser::grammar_helpers::{
    merge_consecutive_texts, mergeable, merged_pieces, pieces_quality, realizes_content,
};
use crate::structure::{ParsedItem, ParsedItemCollection};
use crate::text::push_text;
use crate::vectors::reversed;
use crate::visit::assembly::EntryMetadata;
use vstd::prelude::*;
use vstd::string::*;

verus! {

/// One item as the front end hands it over: what was recognised, the
/// stretch of the text that it was read from, in characters, and how
/// well it was recognised.
#[derive(Debug, Clone, PartialEq)]
pub struct Token {
    pub item: ParsedItem,
    pub left: usize,
    pub right: usize,
    pub data_quality: DataQuality,
}

/// Whether the stretches of the tokens lie within a text of `len`
/// characters, and no token starts after the end of a later one.
pub open spec fn tokens_fit(tokens: Seq<Token>, len: nat) -> bool {
    &&& forall|i: int|
        0 <= i < tokens.len() ==> (#[trigger] tokens[i]).left <= tokens[i].right <= len
    &&& forall|i: int, j: int|
        0 <= i < j < tokens.len() ==> (#[trigger] tokens[i]).left <= (#[trigger] tokens[j]).right
}

/// The tokens as contents of the text `input`.
pub open spec fn contents_of<'a>(tokens: Seq<Token>, input: &'a str) -> Seq<
    Content<'a, ParsedItem>,
> {
    Seq::new(
        tokens.len(),
        |i: int|
            Content {
                content: tokens[i].item,
                input,
                left: tokens[i].left,
                right: tokens[i].right,
                data_quality: tokens[i].data_quality,
            },
    )
}

/// The greatest start among the first `upto` tokens, and 0 where there
/// is none.
pub open spec fn max_left(tokens: Seq<Token>, upto: nat) -> usize
    decreases upto,
{
    if upto == 0 {
        0
    } else if tokens[upto - 1].left > max_left(tokens, (upto - 1) as nat) {
        tokens[upto - 1].left
    } else {
        max_left(tokens, (upto - 1) as nat)
    }
}

/// No token among the first `upto` starts after `max_left`.
proof fn lemma_max_left(tokens: Seq<Token>, upto: nat, i: int)
    requires
        0 <= i < upto <= tokens.len(),
    ensures
        tokens[i].left <= max_left(tokens, upto),
    decreases upto,
{
    if i < upto - 1 {
        lemma_max_left(tokens, (upto - 1) as nat, i);
    }
}

/// Some token among the first `upto` starts at `max_left`.
proof fn lemma_max_left_is_one(tokens: Seq<Token>, upto: nat)
    requires
        0 < upto <= tokens.len(),
    ensures
        exists|i: int| 0 <= i < upto && (#[trigger] tokens[i]).left == max_left(tokens, upto),
        max_left(tokens, upto) >= 0,
    decreases upto,
{
    if upto > 1 {
        lemma_max_left_is_one(tokens, (upto - 1) as nat);
        if tokens[upto - 1].left > max_left(tokens, (upto - 1) as nat) {
            assert(tokens[upto - 1].left == max_left(tokens, upto));
        } else {
            let i = choose|i: int|
                0 <= i < upto - 1 && (#[trigger] tokens[i]).left == max_left(
                    tokens,
                    (upto - 1) as nat,
                );
            assert(tokens[i].left == max_left(tokens, upto));
        }
    } else {
        assert(tokens[0].left == max_left(tokens, upto)) by {
            reveal_with_fuel(max_left, 2);
        }
    }
}

/// Whether the stretches of the tokens are in order for a text of
/// `len` characters.
pub fn check_tokens(tokens: &Vec<Token>, len: usize) -> (r: bool)
    ensures
        r == tokens_fit(tokens@, len as nat),
{
    let mut greatest: usize = 0;
    let mut i: usize = 0;
    while i < tokens.len()
        invariant
            i <= tokens.len(),
            greatest == max_left(tokens@, i as nat),
            forall|k: int| 0 <= k < i ==> (#[trigger] tokens@[k]).left <= tokens@[k].right <= len,
            forall|j: int, k: int|
                0 <= j < k < i ==> (#[trigger] tokens@[j]).left <= (#[trigger] tokens@[k]).right,
        decreases tokens.len() - i,
    {
        let token = &tokens[i];
        if token.left > token.right || token.right > len {
            return false;
        }
        if greatest > token.right {
            proof {
                lemma_max_left_is_one(tokens@, i as nat);
            }
            return false;
        }
        proof {
            assert forall|j: int| 0 <= j < i implies (#[trigger] tokens@[j]).left <= tokens@[i as int].right
            by {
                lemma_max_left(tokens@, i as nat, j);
            }
        }
        if token.left > greatest {
            greatest = token.left;
        }
        i += 1;
    }
    true
}

/// What the front end has made of a text, with a failure in place of
/// tokens whose stretches are not in order.
pub open spec fn usable(out: Result<Vec<Token>, VisualAcuityError>, notes: Seq<char>) -> Result<
    Seq<Token>,
    Seq<char>,
> {
    match out {
        Ok(tokens) => if tokens_fit(tokens@, notes.len()) {
            Ok(tokens@)
        } else {
            Err(notes)
        },
        Err(e) => Err(e@.text()),
    }
}

/// Whether `r` holds the items of the text `notes`, given what the
/// front end has made of it. Tokens are validated and plain texts that
/// follow each other are merged. Where the front end has failed, the
/// text is kept as one unhandled item that holds a space and the words
/// of the failure, and the data quality is "fuzzy".
pub open spec fn is_parsed_text<'a>(
    out: Result<Vec<Token>, VisualAcuityError>,
    notes: &'a str,
    charts: ChartTable,
    r: Content<'a, ParsedItemCollection>,
) -> bool {
    &&& r.input == notes
    &&& r.left == 0
    &&& r.right == notes@.len()
    &&& match usable(out, notes@) {
        Ok(tokens) => {
            let items = contents_of(tokens, notes);
            let pieces = merged_pieces(items, charts, items.len());
            &&& r.content.0@.len() == pieces.len()
            &&& forall|j: int|
                0 <= j < pieces.len() ==> realizes_content(
                    items,
                    charts,
                    #[trigger] pieces[j],
                    r.content.0@[j],
                )
            &&& r.data_quality == pieces_quality(items, pieces, pieces.len())
        },
        Err(words) => {
            &&& r.content.0@.len() == 1
            &&& r.content.0@[0] matches ParsedItem::Unhandled(s) && s@ == seq![' '] + words
            &&& r.data_quality == DataQuality::ConvertibleFuzzy
        },
    }
}

/// A text that could not be read, kept as one unhandled item.
fn unhandled<'a>(words: &str, notes: &'a str) -> (r: Content<'a, ParsedItemCollection>)
    ensures
        r.input == notes,
        r.left == 0,
        r.right == notes@.len(),
        r.content.0@.len() == 1,
        r.content.0@[0] matches ParsedItem::Unhandled(s) && s@ == seq![' '] + words@,
        r.data_quality == DataQuality::ConvertibleFuzzy,
{
    let mut text = " ".to_owned();
    proof {
        reveal_strlit(" ");
    }
    assert(text@ =~= seq![' ']);
    push_text(&mut text, words);
    let mut items: Vec<ParsedItem> = Vec::new();
    items.push(ParsedItem::Unhandled(text));
    Content::new(ParsedItemCollection(items), notes, DataQuality::ConvertibleFuzzy)
}

/// The items of the text `notes`, given what the front end has made
/// of it.
pub fn collect_text<'a>(
    out: Result<Vec<Token>, VisualAcuityError>,
    notes: &'a str,
    charts: &ChartTable,
) -> (r: Content<'a, ParsedItemCollection>)
    ensures
        is_parsed_text(out, notes, *charts, r),
{
    match out {
        Ok(tokens) => {
            let len = notes.unicode_len();
            if !check_tokens(&tokens, len) {
                return unhandled(notes, notes);
            }
            let ghost given = tokens@;
            let ghost n = given.len();
            let mut rest = reversed(tokens);
            let mut items: Vec<Content<'a, ParsedItem>> = Vec::new();
            while rest.len() > 0
                invariant
                    n == given.len(),
                    rest@.len() <= n,
                    forall|k: int| 0 <= k < rest@.len() ==> rest@[k] == given[n - 1 - k],
                    items@.len() == n - rest@.len(),
                    forall|i: int|
                        0 <= i < items@.len() ==> items@[i] == contents_of(given, notes)[i],
                decreases rest@.len(),
            {
                match rest.pop() {
                    Some(token) => {
                        items.push(
                            Content {
                                content: token.item,
                                input: notes,
                                left: token.left,
                                right: token.right,
                                data_quality: token.data_quality,
                            },
                        );
                    },
                    None => {},
                }
            }
            assert(items@ =~= contents_of(given, notes));
            assert(mergeable(items@)) by {
                assert forall|i: int| 0 <= i < items@.len() implies (#[trigger] items@[i]).wf() by {
                    assert(given[i].left <= given[i].right);
                }
                assert forall|i: int, j: int| 0 <= i < j < items@.len() implies (
                #[trigger] items@[i]).left <= (#[trigger] items@[j]).right by {
                    assert(given[i].left <= given[j].right);
                }
            }
            let merged = merge_consecutive_texts(items, charts);
            Content::new(merged.content, notes, merged.data_quality)
        },
        Err(e) => {
            let words = e.to_text();
            unhandled(words.as_str(), notes)
        },
    }
}

/// What the items read in the name of a field say about the field:
/// each of the first `upto` items is added in its turn to what is
/// known by default.
pub open spec fn folded(items: Seq<ParsedItem>, upto: nat) -> EntryMetadata
    decreases upto,
{
    if upto == 0 {
        EntryMetadata {
            laterality: crate::visit::metadata::Laterality::Unknown,
            distance_of_measurement: crate::visit::metadata::DistanceOfMeasurement::Unknown,
            correction: crate::visit::metadata::Correction::Unknown,
            pinhole: crate::visit::metadata::PinHole::Unknown,
        }
    } else {
        folded(items, (upto - 1) as nat).with_item(items[upto - 1])
    }
}

/// What the items read in the name of a field say about the field.
pub fn collect_metadata(items: Vec<ParsedItem>) -> (r: EntryMetadata)
    ensures
        r == folded(items@, items@.len()),
{
    let ghost n = items@.len();
    let mut result = EntryMetadata::default();
    let mut rest = reversed(items);
    while rest.len() > 0
        invariant
            n == items@.len(),
            rest@.len() <= n,
            forall|k: int| 0 <= k < rest@.len() ==> rest@[k] == items@[n - 1 - k],
            result == folded(items@, (n - rest@.len()) as nat),
        decreases rest@.len(),
    {
        match rest.pop() {
            Some(item) => {
                result = result.with(item);
            },
            None => {},
        }
    }
    result
}

} // verus!
