use crate::cache::LruCacher;
use crate::charts::ChartTable;
use crate::errors::VisualAcuityError;
use crate::logmar::serves_ratios;
use crate::parser::decorator::Content;
use crate::parser::wrapper::{collect_metadata, collect_text, folded, is_parsed_text, Token};
use crate::structure::{ParsedItem, ParsedItemCollection};
use crate::text::{lowercase, to_lowercase, trim, trimmed};
use crate::textmap::Entry;
use crate::visit::assembly::{Visit, VisitNote};
use crate::visitinput::{
    compiles, is_merged, plus_pattern, ColumnMerger, VisitInput, VisitInputMerged,
};
use vstd::prelude::*;
use vstd::string::*;

verus! {

/// The outcome of reading one field: its record, no record where the
/// field is empty, or the failure to read the name of the field.
#[derive(Debug, PartialEq)]
pub struct NoteResult(pub Result<Option<VisitNote>, VisualAcuityError>);

impl NoteResult {
    /// Whether two outcomes say the same.
    pub open spec fn same(self, other: NoteResult) -> bool {
        match (self.0, other.0) {
            (Ok(Some(a)), Ok(Some(b))) => a.same(b),
            (Ok(None), Ok(None)) => true,
            (Err(a), Err(b)) => a@ == b@,
            _ => false,
        }
    }
}

impl Clone for NoteResult {
    fn clone(&self) -> (r: NoteResult)
        ensures
            r.same(*self),
    {
        match &self.0 {
            Ok(Some(note)) => NoteResult(Ok(Some(note.clone()))),
            Ok(None) => NoteResult(Ok(None)),
            Err(e) => NoteResult(Err(e.clone())),
        }
    }
}

/// Outcomes that say the same as one outcome say the same as each
/// other.
pub proof fn lemma_same_outcomes(a: NoteResult, b: NoteResult, c: NoteResult)
    requires
        a.same(b),
        b.same(c),
    ensures
        a.same(c),
        b.same(a),
        a.same(a),
{
}

/// Whether the front ends can be called on every text, and the
/// function that supplies logarithms on every ratio.
pub open spec fn front_ends_total<
    N: Fn(&str) -> Result<Vec<Token>, VisualAcuityError>,
    K: Fn(&str) -> Result<Vec<ParsedItem>, VisualAcuityError>,
    L: Fn(u64, u64) -> i64,
>(notes_parser: &N, key_parser: &K, log_mar_of: &L) -> bool {
    &&& forall|s: &str| #[trigger] notes_parser.requires((s,))
    &&& forall|s: &str| #[trigger] key_parser.requires((s,))
    &&& serves_ratios(log_mar_of)
}

/// Whether `r` holds the items of the text `notes`: the front end was
/// given the text in lower case, and `r` is what its answer comes to.
pub open spec fn text_is<'a, N: Fn(&str) -> Result<Vec<Token>, VisualAcuityError>>(
    notes_parser: &N,
    charts: ChartTable,
    notes: &'a str,
    r: Content<'a, ParsedItemCollection>,
) -> bool {
    exists|lowered: &str, out: Result<Vec<Token>, VisualAcuityError>|
        {
            &&& lowered@ == lowercase(notes@)
            &&& #[trigger] notes_parser.ensures((lowered,), out)
            &&& is_parsed_text(out, notes, charts, r)
        }
}

/// Whether `v` is the outcome of reading the field with the name
/// `key` and the texts `text` and `text_plus`: the failure of the
/// front end on the name in lower case, or else the record made from
/// what the name says and from the items of the two texts.
pub open spec fn note_is<
    'a,
    N: Fn(&str) -> Result<Vec<Token>, VisualAcuityError>,
    K: Fn(&str) -> Result<Vec<ParsedItem>, VisualAcuityError>,
    L: Fn(u64, u64) -> i64,
>(
    notes_parser: &N,
    key_parser: &K,
    log_mar_of: &L,
    charts: ChartTable,
    key: &'a str,
    text: &'a str,
    text_plus: &'a str,
    v: NoteResult,
) -> bool {
    exists|
        lowered: &str,
        key_out: Result<Vec<ParsedItem>, VisualAcuityError>,
        first: Content<'a, ParsedItemCollection>,
        second: Content<'a, ParsedItemCollection>,
    |
        {
            &&& lowered@ == lowercase(key@)
            &&& #[trigger] key_parser.ensures((lowered,), key_out)
            &&& #[trigger] text_is(notes_parser, charts, text, first)
            &&& #[trigger] text_is(notes_parser, charts, text_plus, second)
            &&& match key_out {
                Err(e) => v.0 matches Err(failure) && failure == e,
                Ok(items) => v.0 matches Ok(Some(note)) && note.describes(
                    folded(items@, items@.len()),
                    text@,
                    text_plus@,
                    first.data_quality,
                    second.data_quality,
                    first.content.0@ + second.content.0@,
                    charts,
                    log_mar_of,
                ),
            }
        }
}

/// Whether `v` is the outcome of reading a field with the name and
/// the texts that are given by their characters.
pub open spec fn fresh<
    N: Fn(&str) -> Result<Vec<Token>, VisualAcuityError>,
    K: Fn(&str) -> Result<Vec<ParsedItem>, VisualAcuityError>,
    L: Fn(u64, u64) -> i64,
>(
    notes_parser: &N,
    key_parser: &K,
    log_mar_of: &L,
    charts: ChartTable,
    key: Seq<char>,
    text: Seq<char>,
    text_plus: Seq<char>,
    v: NoteResult,
) -> bool {
    exists|k: &str, t: &str, p: &str|
        {
            &&& k@ == key
            &&& t@ == text
            &&& p@ == text_plus
            &&& #[trigger] note_is(notes_parser, key_parser, log_mar_of, charts, k, t, p, v)
        }
}

/// The key under which the outcome of a field is kept: its name and
/// its two texts in lower case.
pub open spec fn cache_key_of(key: Seq<char>, text: Seq<char>, text_plus: Seq<char>) -> Seq<
    Seq<char>,
> {
    seq![lowercase(key), lowercase(text), lowercase(text_plus)]
}

/// Whether `v` says the same as the outcome of reading some field
/// that is kept under `cache_key`.
pub open spec fn remembered<
    N: Fn(&str) -> Result<Vec<Token>, VisualAcuityError>,
    K: Fn(&str) -> Result<Vec<ParsedItem>, VisualAcuityError>,
    L: Fn(u64, u64) -> i64,
>(
    notes_parser: &N,
    key_parser: &K,
    log_mar_of: &L,
    charts: ChartTable,
    cache_key: Seq<Seq<char>>,
    v: NoteResult,
) -> bool {
    exists|key: Seq<char>, text: Seq<char>, text_plus: Seq<char>, original: NoteResult|
        {
            &&& cache_key == cache_key_of(key, text, text_plus)
            &&& #[trigger] fresh(
                notes_parser,
                key_parser,
                log_mar_of,
                charts,
                key,
                text,
                text_plus,
                original,
            )
            &&& v.same(original)
        }
}

/// Reads a text that has no white space around it.
fn read_text<'a, N: Fn(&str) -> Result<Vec<Token>, VisualAcuityError>>(
    notes_parser: &N,
    charts: &ChartTable,
    notes: &'a str,
) -> (r: Content<'a, ParsedItemCollection>)
    requires
        forall|s: &str| #[trigger] notes_parser.requires((s,)),
    ensures
        text_is(notes_parser, *charts, notes, r),
{
    let lowered = to_lowercase(notes);
    let out = notes_parser(lowered.as_str());
    collect_text(out, notes, charts)
}

/// Reads one field whose name and texts have no white space around
/// them.
fn compute_note<
    N: Fn(&str) -> Result<Vec<Token>, VisualAcuityError>,
    K: Fn(&str) -> Result<Vec<ParsedItem>, VisualAcuityError>,
    L: Fn(u64, u64) -> i64,
>(
    notes_parser: &N,
    key_parser: &K,
    log_mar_of: &L,
    charts: &ChartTable,
    key: &str,
    text: &str,
    text_plus: &str,
) -> (r: NoteResult)
    requires
        front_ends_total(notes_parser, key_parser, log_mar_of),
    ensures
        fresh(notes_parser, key_parser, log_mar_of, *charts, key@, text@, text_plus@, r),
{
    let parsed_text = read_text(notes_parser, charts, text);
    let parsed_text_plus = read_text(notes_parser, charts, text_plus);
    let lowered = to_lowercase(key);
    let lowered_key = lowered.as_str();
    let key_out = key_parser(lowered_key);
    let ghost first = parsed_text;
    let ghost second = parsed_text_plus;
    let r = match key_out {
        Ok(items) => {
            let metadata = collect_metadata(items);
            match VisitNote::new(metadata, parsed_text, parsed_text_plus, charts, log_mar_of) {
                Ok(note) => NoteResult(Ok(Some(note))),
                Err(e) => NoteResult(Err(e)),
            }
        },
        Err(e) => NoteResult(Err(e)),
    };
    proof {
        assert(text_is(notes_parser, *charts, text, first));
        assert(text_is(notes_parser, *charts, text_plus, second));
        assert(key_parser.ensures((lowered_key,), key_out));
        assert(note_is(notes_parser, key_parser, log_mar_of, *charts, key, text, text_plus, r));
    }
    r
}

/// The failures among the first `upto` outcomes, in their order.
pub open spec fn failures(outcomes: Seq<NoteResult>, upto: nat) -> Seq<VisualAcuityError>
    decreases upto,
{
    if upto == 0 {
        Seq::empty()
    } else {
        match outcomes[upto - 1].0 {
            Err(e) => failures(outcomes, (upto - 1) as nat).push(e),
            Ok(_) => failures(outcomes, (upto - 1) as nat),
        }
    }
}

/// Whether `r` gathers the outcomes of the fields `fields`: the
/// records by the names of the fields where no field has failed, and
/// else all failures together.
pub open spec fn gathers(
    fields: Seq<Entry<(String, String)>>,
    outcomes: Seq<NoteResult>,
    r: Result<Visit, VisualAcuityError>,
) -> bool {
    if failures(outcomes, outcomes.len()).len() == 0 {
        &&& r matches Ok(visit)
        &&& visit.0@.len() == fields.len()
        &&& forall|i: int|
            0 <= i < fields.len() ==> (#[trigger] visit.0@[i]).0@ == fields[i].key@
                && outcomes[i].0 == Ok::<Option<VisitNote>, VisualAcuityError>(visit.0@[i].1)
    } else {
        r matches Err(VisualAcuityError::MultipleErrors(errors)) && errors@ == failures(
            outcomes,
            outcomes.len(),
        )
    }
}

/// Whether a field has no text but white space.
pub open spec fn is_blank(field: Entry<(String, String)>) -> bool {
    trimmed(field.value.0@).len() == 0 && trimmed(field.value.1@).len() == 0
}

/// The key under which the outcome of a field is kept.
pub open spec fn key_of_field(field: Entry<(String, String)>) -> Seq<Seq<char>> {
    cache_key_of(trimmed(field.key@), trimmed(field.value.0@), trimmed(field.value.1@))
}

/// The keys of those of the first `upto` fields that are not blank, in
/// their order.
pub open spec fn field_keys(fields: Seq<Entry<(String, String)>>, upto: nat) -> Seq<Seq<Seq<char>>>
    decreases upto,
{
    if upto == 0 {
        Seq::empty()
    } else if is_blank(fields[upto - 1]) {
        field_keys(fields, (upto - 1) as nat)
    } else {
        field_keys(fields, (upto - 1) as nat).push(key_of_field(fields[upto - 1]))
    }
}

/// The place, among the memories of a parser before and after each use,
/// of the memory after the field `j` was read.
pub open spec fn after_field(fields: Seq<Entry<(String, String)>>, j: int) -> int {
    field_keys(fields, j as nat).len() as int + 1
}

/// Whether `memories` holds the memory of a parser before and after
/// each use of the keys `keys`, in their order.
pub open spec fn is_chain(memories: Seq<LruCacher<NoteResult>>, keys: Seq<Seq<Seq<char>>>) -> bool {
    &&& memories.len() == keys.len() + 1
    &&& forall|i: int| 0 <= i < memories.len() ==> (#[trigger] memories[i]).wf()
    &&& forall|i: int|
        0 <= i < keys.len() ==> (#[trigger] memories[i]).used(memories[i + 1], keys[i])
}

/// Whether each outcome of a field that is not blank says the same as
/// what the memory held under the key of the field after the field
/// was read.
pub open spec fn outcomes_kept(
    fields: Seq<Entry<(String, String)>>,
    outcomes: Seq<NoteResult>,
    memories: Seq<LruCacher<NoteResult>>,
    upto: int,
) -> bool {
    forall|j: int|
        0 <= j < upto && !is_blank(#[trigger] fields[j]) ==> {
            &&& after_field(fields, j) < memories.len()
            &&& outcomes[j].same(
                memories[after_field(fields, j)].contents()[key_of_field(fields[j])],
            )
        }
}

/// Turns the notes of a visit into records.
pub struct Parser<N, K, L> {
    notes_parser: N,
    key_parser: K,
    log_mar_of: L,
    charts: ChartTable,
    cache: LruCacher<NoteResult>,
    column_merger: ColumnMerger,
}

impl<
    N: Fn(&str) -> Result<Vec<Token>, VisualAcuityError>,
    K: Fn(&str) -> Result<Vec<ParsedItem>, VisualAcuityError>,
    L: Fn(u64, u64) -> i64,
> Parser<N, K, L> {
    /// Whether the parser is in order: its front ends can be called on
    /// every text, and each outcome that it has kept says the same as
    /// the outcome of reading a field that is kept under its key.
    pub closed spec fn wf(self) -> bool {
        &&& front_ends_total(&self.notes_parser, &self.key_parser, &self.log_mar_of)
        &&& self.cache.wf()
        &&& self.column_merger.wf()
        &&& forall|cache_key: Seq<Seq<char>>| #[trigger]
            self.cache.contents().contains_key(cache_key) ==> remembered(
                &self.notes_parser,
                &self.key_parser,
                &self.log_mar_of,
                self.charts,
                cache_key,
                self.cache.contents()[cache_key],
            )
    }

    /// The outcomes that the parser has kept.
    pub closed spec fn memory(self) -> LruCacher<NoteResult> {
        self.cache
    }

    /// Whether the parser has kept an outcome under `cache_key`.
    pub open spec fn remembers(self, cache_key: Seq<Seq<char>>) -> bool {
        self.memory().contents().contains_key(cache_key)
    }

    /// The outcome that the parser has kept under `cache_key`.
    pub open spec fn kept(self, cache_key: Seq<Seq<char>>) -> NoteResult {
        self.memory().contents()[cache_key]
    }

    /// The memory of a parser that is in order is in order, and each
    /// outcome in it says the same as an outcome of reading a field
    /// that is kept under its key.
    pub proof fn lemma_memory(self)
        requires
            self.wf(),
        ensures
            self.memory().wf(),
            front_ends_total(&self.notes_front_end(), &self.key_front_end(), &self.logarithms()),
            forall|cache_key: Seq<Seq<char>>| #[trigger]
                self.remembers(cache_key) ==> self.recalls(cache_key, self.kept(cache_key)),
    {
    }

    /// The charts that the parser looks rows up in.
    pub closed spec fn tables(self) -> ChartTable {
        self.charts
    }

    /// The front end for texts.
    pub closed spec fn notes_front_end(self) -> N {
        self.notes_parser
    }

    /// The front end for the names of fields.
    pub closed spec fn key_front_end(self) -> K {
        self.key_parser
    }

    /// The function that supplies logarithms.
    pub closed spec fn logarithms(self) -> L {
        self.log_mar_of
    }

    /// Whether `v` is the outcome of reading the field with the given
    /// name and texts anew.
    pub open spec fn reads(
        self,
        key: Seq<char>,
        text: Seq<char>,
        text_plus: Seq<char>,
        v: NoteResult,
    ) -> bool {
        fresh(
            &self.notes_front_end(),
            &self.key_front_end(),
            &self.logarithms(),
            self.tables(),
            key,
            text,
            text_plus,
            v,
        )
    }

    /// Whether `v` says the same as an outcome of reading a field that
    /// is kept under `cache_key`.
    pub open spec fn recalls(self, cache_key: Seq<Seq<char>>, v: NoteResult) -> bool {
        remembered(
            &self.notes_front_end(),
            &self.key_front_end(),
            &self.logarithms(),
            self.tables(),
            cache_key,
            v,
        )
    }

    /// A parser with the given charts and front ends. It is made where
    /// the pattern for the names of fields that hold letters can be
    /// made, and the failure is a parse error where it cannot.
    pub fn new(charts: ChartTable, notes_parser: N, key_parser: K, log_mar_of: L) -> (r: Result<
        Self,
        VisualAcuityError,
    >)
        requires
            front_ends_total(&notes_parser, &key_parser, &log_mar_of),
        ensures
            r is Ok <==> compiles(plus_pattern()),
            r matches Ok(parser) ==> {
                &&& parser.wf()
                &&& parser.tables() == charts
                &&& parser.notes_front_end() == notes_parser
                &&& parser.key_front_end() == key_parser
                &&& parser.logarithms() == log_mar_of
                &&& parser.memory().capacity() == 999
                &&& parser.memory().size() == 0
                &&& forall|cache_key: Seq<Seq<char>>| !parser.remembers(cache_key)
            },
            r matches Err(e) ==> e matches VisualAcuityError::ParseError(s) && s@
                == plus_pattern(),
    {
        let cache_size: usize = 999;
        match ColumnMerger::new(cache_size) {
            Ok(column_merger) => Ok(
                Parser {
                    notes_parser,
                    key_parser,
                    log_mar_of,
                    charts,
                    cache: LruCacher::new(cache_size),
                    column_merger,
                },
            ),
            Err(e) => Err(e),
        }
    }

    /// Reads a text: the front end is given the text without the white
    /// space around it, in lower case.
    pub fn parse_text<'a>(&self, notes: &'a str) -> (r: Content<'a, ParsedItemCollection>)
        requires
            self.wf(),
        ensures
            r.input@ == trimmed(notes@),
            text_is(&self.notes_front_end(), self.tables(), r.input, r),
    {
        let notes = trim(notes);
        read_text(&self.notes_parser, &self.charts, notes)
    }

    /// Reads the name of a field: the front end is given the name in
    /// lower case, and what it recognises is gathered.
    pub fn parse_key(&self, key: &str) -> (r: Result<
        crate::visit::assembly::EntryMetadata,
        VisualAcuityError,
    >)
        requires
            self.wf(),
        ensures
            exists|lowered: &str, out: Result<Vec<ParsedItem>, VisualAcuityError>|
                {
                    &&& lowered@ == lowercase(key@)
                    &&& #[trigger] self.key_front_end().ensures((lowered,), out)
                    &&& match out {
                        Ok(items) => r == Ok::<
                            crate::visit::assembly::EntryMetadata,
                            VisualAcuityError,
                        >(folded(items@, items@.len())),
                        Err(e) => r matches Err(failure) && failure == e,
                    }
                },
    {
        let lowered = to_lowercase(key);
        let lowered_key = lowered.as_str();
        let out = (self.key_parser)(lowered_key);
        let ghost given = out;
        let r = match out {
            Ok(items) => Ok(collect_metadata(items)),
            Err(e) => Err(e),
        };
        assert(self.key_front_end().ensures((lowered_key,), given));
        r
    }

    /// Reads one field. White space around the name and the texts is
    /// ignored. A field whose texts are both empty has no record, and
    /// the memory of the parser stays as it is. Else the outcome is
    /// kept under the name and the texts in lower case: where one is
    /// kept already, it is handed out and the front ends are not
    /// called. An outcome that is kept under another key before and
    /// after the reading is the same outcome.
    pub fn parse_visit_note(&mut self, key: &str, text: &str, text_plus: &str) -> (r: Result<
        Option<VisitNote>,
        VisualAcuityError,
    >)
        requires
            old(self).wf(),
        ensures
            final(self).wf(),
            final(self).tables() == old(self).tables(),
            final(self).notes_front_end() == old(self).notes_front_end(),
            final(self).key_front_end() == old(self).key_front_end(),
            final(self).logarithms() == old(self).logarithms(),
            forall|other: Seq<Seq<char>>|
                old(self).remembers(other) && #[trigger] final(self).remembers(other) ==> final(
                    self).kept(other) == old(self).kept(other),
            trimmed(text@).len() == 0 && trimmed(text_plus@).len() == 0 ==> {
                &&& r is Ok && r->Ok_0 is None
                &&& final(self).memory() == old(self).memory()
            },
            !(trimmed(text@).len() == 0 && trimmed(text_plus@).len() == 0) ==> {
                let cache_key = cache_key_of(trimmed(key@), trimmed(text@), trimmed(text_plus@));
                &&& old(self).memory().used(final(self).memory(), cache_key)
                &&& final(self).remembers(cache_key)
                &&& NoteResult(r).same(final(self).kept(cache_key))
                &&& old(self).remembers(cache_key) ==> final(self).kept(cache_key) == old(
                    self,
                ).kept(cache_key)
                &&& final(self).recalls(cache_key, NoteResult(r))
                &&& !old(self).remembers(cache_key) ==> final(self).reads(
                    trimmed(key@),
                    trimmed(text@),
                    trimmed(text_plus@),
                    NoteResult(r),
                )
            },
    {
        let key = trim(key);
        let text = trim(text);
        let text_plus = trim(text_plus);
        if text.unicode_len() == 0 && text_plus.unicode_len() == 0 {
            return Ok(None);
        }
        let mut cache_key: Vec<String> = Vec::new();
        cache_key.push(to_lowercase(key));
        cache_key.push(to_lowercase(text));
        cache_key.push(to_lowercase(text_plus));
        assert(cache_key.deep_view() =~= cache_key_of(key@, text@, text_plus@));
        let notes_parser = &self.notes_parser;
        let key_parser = &self.key_parser;
        let log_mar_of = &self.log_mar_of;
        let charts = &self.charts;
        let ghost before = self.cache;
        let compute = || -> (v: NoteResult)
            ensures
                fresh(notes_parser, key_parser, log_mar_of, *charts, key@, text@, text_plus@, v),
            { compute_note(notes_parser, key_parser, log_mar_of, charts, key, text, text_plus) };
        let found = self.cache.get(&cache_key, compute);
        proof {
            let ck = cache_key_of(key@, text@, text_plus@);
            let stored = self.cache.contents()[ck];
            if before.contents().contains_key(ck) {
                let kept = before.contents()[ck];
                assert(remembered(notes_parser, key_parser, log_mar_of, *charts, ck, kept));
                assert(found.same(kept));
                assert(stored == kept);
                assert(remembered(notes_parser, key_parser, log_mar_of, *charts, ck, found));
            } else {
                assert(fresh(
                    notes_parser,
                    key_parser,
                    log_mar_of,
                    *charts,
                    key@,
                    text@,
                    text_plus@,
                    found,
                ));
                assert(stored.same(found));
                lemma_same_outcomes(stored, found, found);
                assert(remembered(notes_parser, key_parser, log_mar_of, *charts, ck, stored));
                assert(remembered(notes_parser, key_parser, log_mar_of, *charts, ck, found));
            }
        }
        found.0
    }

    /// Whether `v` is an outcome for the field with the given name and
    /// texts: no record where both texts are empty but for white
    /// space, and else what is recalled under the key of the field.
    pub open spec fn field_is(
        self,
        key: Seq<char>,
        text: Seq<char>,
        text_plus: Seq<char>,
        v: NoteResult,
    ) -> bool {
        if trimmed(text).len() == 0 && trimmed(text_plus).len() == 0 {
            v.0 is Ok && v.0->Ok_0 is None
        } else {
            self.recalls(cache_key_of(trimmed(key), trimmed(text), trimmed(text_plus)), v)
        }
    }

    /// Reads the fields of one visit. Each field is read together with
    /// the field that holds its letters. Where the name of a field
    /// cannot be read, all such failures are returned together in
    /// place of the records. The memory of the parser is used once for
    /// each field that is not blank, in the order of the fields.
    pub fn parse_visit(&mut self, visit_notes: &VisitInput) -> (r: Result<Visit, VisualAcuityError>)
        requires
            old(self).wf(),
            visit_notes.wf(),
        ensures
            final(self).wf(),
            final(self).tables() == old(self).tables(),
            final(self).notes_front_end() == old(self).notes_front_end(),
            final(self).key_front_end() == old(self).key_front_end(),
            final(self).logarithms() == old(self).logarithms(),
            exists|
                merged: VisitInputMerged,
                outcomes: Seq<NoteResult>,
                memories: Seq<LruCacher<NoteResult>>,
            |
                {
                    &&& is_merged(*visit_notes, merged)
                    &&& outcomes.len() == merged.0.entries@.len()
                    &&& forall|i: int|
                        0 <= i < outcomes.len() ==> final(self).field_is(
                            merged.0.entries@[i].key@,
                            merged.0.entries@[i].value.0@,
                            merged.0.entries@[i].value.1@,
                            #[trigger] outcomes[i],
                        )
                    &&& #[trigger] gathers(merged.0.entries@, outcomes, r)
                    &&& #[trigger] is_chain(
                        memories,
                        field_keys(merged.0.entries@, merged.0.entries@.len()),
                    )
                    &&& memories[0] == old(self).memory()
                    &&& memories.last() == final(self).memory()
                    &&& outcomes_kept(
                        merged.0.entries@,
                        outcomes,
                        memories,
                        outcomes.len() as int,
                    )
                },
    {
        let merged = self.column_merger.merge_plus_columns(visit_notes);
        let ghost merged_fields = merged;
        let fields = merged.into_iter();
        let mut notes: Vec<(String, Option<VisitNote>)> = Vec::new();
        let mut errors: Vec<VisualAcuityError> = Vec::new();
        let ghost mut outcomes: Seq<NoteResult> = Seq::empty();
        let ghost mut memories: Seq<LruCacher<NoteResult>> = seq![self.memory()];
        proof {
            self.lemma_memory();
        }
        let mut i: usize = 0;
        while i < fields.len()
            invariant
                i <= fields@.len(),
                self.wf(),
                is_chain(memories, field_keys(fields@, i as nat)),
                memories[0] == old(self).memory(),
                memories.last() == self.memory(),
                outcomes_kept(fields@, outcomes, memories, i as int),
                self.tables() == old(self).tables(),
                self.notes_front_end() == old(self).notes_front_end(),
                self.key_front_end() == old(self).key_front_end(),
                self.logarithms() == old(self).logarithms(),
                outcomes.len() == i,
                forall|j: int|
                    0 <= j < i ==> self.field_is(
                        fields@[j].key@,
                        fields@[j].value.0@,
                        fields@[j].value.1@,
                        #[trigger] outcomes[j],
                    ),
                errors@ == failures(outcomes, i as nat),
                errors@.len() == 0 ==> notes@.len() == i,
                errors@.len() == 0 ==> forall|j: int|
                    0 <= j < i ==> (#[trigger] notes@[j]).0@ == fields@[j].key@ && outcomes[j].0
                        == Ok::<Option<VisitNote>, VisualAcuityError>(notes@[j].1),
            decreases fields@.len() - i,
        {
            let field = &fields[i];
            let result = self.parse_visit_note(
                field.key.as_str(),
                field.value.0.as_str(),
                field.value.1.as_str(),
            );
            proof {
                let before = outcomes;
                outcomes = outcomes.push(NoteResult(result));
                let earlier = memories;
                self.lemma_memory();
                if !is_blank(fields@[i as int]) {
                    memories = memories.push(self.memory());
                    assert(earlier.last().used(self.memory(), key_of_field(fields@[i as int])));
                    assert forall|h: int|
                        0 <= h < field_keys(fields@, (i + 1) as nat).len() implies (
                    #[trigger] memories[h]).used(
                        memories[h + 1],
                        field_keys(fields@, (i + 1) as nat)[h],
                    ) by {
                        if h < earlier.len() - 1 {
                            assert(earlier[h].used(earlier[h + 1], field_keys(fields@, i as nat)[h]));
                        }
                    }
                }
                assert forall|j: int| 0 <= j < i + 1 && !is_blank(
                    #[trigger] fields@[j],
                ) implies after_field(fields@, j) < memories.len() && outcomes[j].same(
                    memories[after_field(fields@, j)].contents()[key_of_field(
                        fields@[j],
                    )],
                ) by {
                    if j < i {
                        assert(outcomes[j] == before[j]);
                        assert(memories[after_field(fields@, j)] == earlier[after_field(
                            fields@,
                            j,
                        )]);
                    }
                }
                assert forall|j: int| 0 <= j < i + 1 implies self.field_is(
                    fields@[j].key@,
                    fields@[j].value.0@,
                    fields@[j].value.1@,
                    #[trigger] outcomes[j],
                ) by {
                    if j < i {
                        assert(outcomes[j] == before[j]);
                    }
                }
                lemma_failures_prefix(before, outcomes, i as nat);
            }
            match result {
                Ok(note) => {
                    notes.push((field.key.clone(), note));
                },
                Err(e) => {
                    errors.push(e);
                },
            }
            i += 1;
        }
        let r = if errors.len() > 0 {
            Err(VisualAcuityError::MultipleErrors(errors))
        } else {
            Ok(Visit(notes))
        };
        proof {
            assert(gathers(merged_fields.0.entries@, outcomes, r));
            assert(is_chain(
                memories,
                field_keys(merged_fields.0.entries@, merged_fields.0.entries@.len()),
            ));
        }
        r
    }
}

/// A field that is read again gives the same outcome as the first
/// time, as long as fewer other fields were read in between than the
/// parser has room for: the second reading finds the outcome of the
/// first still kept and hands it out. `memories` holds the memory of
/// the parser before and after each reading of a field that is not
/// blank, and `keys` the key of each such reading; the first and the
/// last reading are of the same key.
pub proof fn lemma_read_again(
    memories: Seq<LruCacher<NoteResult>>,
    keys: Seq<Seq<Seq<char>>>,
    first: NoteResult,
    again: NoteResult,
)
    requires
        memories.len() == keys.len() + 1,
        keys.len() >= 2,
        keys[0] == keys.last(),
        forall|i: int| 0 <= i < memories.len() ==> (#[trigger] memories[i]).wf(),
        forall|i: int|
            0 <= i < keys.len() ==> (#[trigger] memories[i]).used(memories[i + 1], keys[i]),
        keys.len() - 2 < memories[0].capacity(),
        first.same(memories[1].contents()[keys[0]]),
        again.same(memories.last().contents()[keys[0]]),
    ensures
        memories[keys.len() - 1].contents().contains_key(keys[0]),
        again.same(first),
{
    LruCacher::lemma_used_again(memories, keys);
    let kept = memories[1].contents()[keys[0]];
    lemma_same_outcomes(first, kept, again);
    lemma_same_outcomes(again, kept, first);
}

/// The failures among the first outcomes do not depend on the
/// outcomes that follow.
pub proof fn lemma_failures_prefix(a: Seq<NoteResult>, b: Seq<NoteResult>, upto: nat)
    requires
        upto <= a.len(),
        upto <= b.len(),
        forall|i: int| 0 <= i < upto ==> a[i] == b[i],
    ensures
        failures(a, upto) == failures(b, upto),
    decreases upto,
{
    if upto > 0 {
        lemma_failures_prefix(a, b, (upto - 1) as nat);
    }
}

} // verus!
