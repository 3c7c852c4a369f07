use crate::cache::LruCacher;
use crate::errors::VisualAcuityError;
use crate::textmap::{Entry, TextMap};
use crate::vectors::reversed;
use vstd::prelude::*;

verus! {

/// The pattern `Regex` of the crate `regex`.
#[verifier::external_type_specification]
#[verifier::external_body]
pub struct ExRegex(regex::Regex);

/// The failure to make a pattern, `Error` of the crate `regex`.
#[verifier::external_type_specification]
#[verifier::external_body]
pub struct ExRegexError(regex::Error);

/// The text that a pattern was made from, as `Regex::as_str` gives it.
pub uninterp spec fn pattern_of(pattern: regex::Regex) -> Seq<char>;

/// What the first group of the pattern `pattern` holds when the
/// pattern is matched against `text`, as `Regex::captures` finds it;
/// nothing where the pattern or the group does not match.
pub uninterp spec fn first_group(pattern: Seq<char>, text: Seq<char>) -> Option<Seq<char>>;

/// A pattern as `Regex::new` makes it from its text, with nothing set
/// but what the crate sets by itself. `compile` is the only function
/// that makes one.
pub struct Pattern {
    regex: regex::Regex,
}

impl Pattern {
    /// The text that the pattern was made from.
    pub closed spec fn text(self) -> Seq<char> {
        pattern_of(self.regex)
    }
}

/// Whether a pattern can be made from the text `pattern`, as
/// `Regex::new` decides: the text is a pattern that the crate accepts,
/// and what is made of it is not larger than the crate allows.
pub uninterp spec fn compiles(pattern: Seq<char>) -> bool;

/// Calls `Regex::new`, which makes a pattern from its text or fails.
/// Whether it fails depends on the text alone. A pattern that was made
/// keeps the text that it was made from.
#[verifier::external_body]
fn compile(pattern: &str) -> (r: Result<Pattern, regex::Error>)
    ensures
        r is Ok <==> compiles(pattern@),
        r matches Ok(made) ==> pattern_of(made.regex) == pattern@,
{
    match regex::Regex::new(pattern) {
        Ok(regex) => Ok(Pattern { regex }),
        Err(e) => Err(e),
    }
}

/// Calls `Regex::captures` and `Captures::get` for the first group,
/// and hands out the text of the group.
#[verifier::external_body]
fn first_group_of(pattern: &Pattern, text: &str) -> (r: Option<String>)
    ensures
        text_of(r) == first_group(pattern_of(pattern.regex), text@),
{
    pattern.regex.captures(text).and_then(|c| c.get(1)).map(|m| m.as_str().to_string())
}

/// The characters of an optional text.
pub open spec fn text_of(value: Option<String>) -> Option<Seq<char>> {
    match value {
        Some(s) => Some(s@),
        None => None,
    }
}

/// The pattern of the name of a field that holds the letters read
/// beyond a line: any name, then `+/-`, `+` or ` plus` at its end, in
/// upper or lower case. The first group is the name of the field that
/// the letters belong to.
pub open spec fn plus_pattern() -> Seq<char> {
    r"(?i)^(.*?)\s*(\+/-|\+|\splus)$"@
}

/// The name of the field that the field `key` holds the letters of,
/// where `key` is the name of such a field.
pub open spec fn parent_of(key: Seq<char>) -> Option<Seq<char>> {
    first_group(plus_pattern(), key)
}

/// The mapping `before` with one more field: where the field holds
/// the letters of the field `parent`, it becomes the field that holds
/// the letters of `parent`; else it stands for itself, unless it is in
/// the mapping already.
pub open spec fn with_key(
    before: Map<Seq<char>, Option<Seq<char>>>,
    key: Seq<char>,
    parent: Option<Seq<char>>,
) -> Map<Seq<char>, Option<Seq<char>>> {
    match parent {
        Some(name) => before.insert(name, Some(key)),
        None => if before.contains_key(key) {
            before
        } else {
            before.insert(key, None)
        },
    }
}

/// For each field of a record that stands for itself or for which
/// letters are held, the name of the field that holds its letters. The
/// names `keys` are taken in their order, and a later name takes the
/// place of an earlier one.
pub open spec fn mapping_of(keys: Seq<Seq<char>>, upto: nat) -> Map<Seq<char>, Option<Seq<char>>>
    decreases upto,
{
    if upto == 0 {
        Map::empty()
    } else {
        with_key(mapping_of(keys, (upto - 1) as nat), keys[upto - 1], parent_of(keys[upto - 1]))
    }
}

/// Every field that holds letters has the field that its letters
/// belong to in the mapping, with a field that holds its letters; and
/// every other field is in the mapping itself.
pub proof fn lemma_mapping_covers(keys: Seq<Seq<char>>, upto: nat, i: int)
    requires
        0 <= i < upto <= keys.len(),
    ensures
        match parent_of(keys[i]) {
            Some(parent) => mapping_of(keys, upto).contains_key(parent) && mapping_of(
                keys,
                upto,
            )[parent] is Some,
            None => mapping_of(keys, upto).contains_key(keys[i]),
        },
    decreases upto,
{
    if i < upto - 1 {
        lemma_mapping_covers(keys, (upto - 1) as nat, i);
    }
}

/// What a mapping of names holds, texts as their characters.
pub open spec fn mapping_view(mapping: TextMap<Option<String>>) -> Map<
    Seq<char>,
    Option<Seq<char>>,
> {
    Map::new(
        |k: Seq<char>| mapping.contains_key(k),
        |k: Seq<char>| text_of(mapping.value_of(k)),
    )
}

/// Whether `mapping` is the mapping for the names `keys`.
pub open spec fn is_mapping(mapping: TextMap<Option<String>>, keys: Seq<Seq<char>>) -> bool {
    mapping.wf() && mapping_view(mapping) == mapping_of(keys, keys.len())
}

impl Clone for TextMap<Option<String>> {
    fn clone(&self) -> (r: Self)
        ensures
            r.entries@.len() == self.entries@.len(),
            forall|i: int|
                0 <= i < self.entries@.len() ==> (#[trigger] r.entries@[i]).key@
                    == self.entries@[i].key@ && text_of(r.entries@[i].value) == text_of(
                    self.entries@[i].value,
                ),
    {
        let mut out: Vec<Entry<Option<String>>> = Vec::new();
        let mut i: usize = 0;
        while i < self.entries.len()
            invariant
                i <= self.entries@.len(),
                out@.len() == i,
                forall|j: int|
                    0 <= j < i ==> (#[trigger] out@[j]).key@ == self.entries@[j].key@ && text_of(
                        out@[j].value,
                    ) == text_of(self.entries@[j].value),
            decreases self.entries@.len() - i,
        {
            let value = match &self.entries[i].value {
                Some(s) => Some(s.clone()),
                None => None,
            };
            out.push(Entry { key: self.entries[i].key.clone(), value });
            i += 1;
        }
        TextMap { entries: out }
    }
}

/// A copy of a mapping is the same mapping.
pub proof fn lemma_mapping_copy(
    a: TextMap<Option<String>>,
    b: TextMap<Option<String>>,
    keys: Seq<Seq<char>>,
)
    requires
        is_mapping(a, keys),
        cloned(a, b),
    ensures
        is_mapping(b, keys),
{
    if a != b {
        assert(b.entries@.len() == a.entries@.len());
        assert forall|i: int, j: int| 0 <= i < j < b.entries@.len() implies crate::textmap::precedes(
            #[trigger] b.entries@[i].key@,
            #[trigger] b.entries@[j].key@,
        ) by {
            assert(b.entries@[i].key@ == a.entries@[i].key@);
            assert(b.entries@[j].key@ == a.entries@[j].key@);
        }
        assert forall|k: Seq<char>| a.contains_key(k) <==> b.contains_key(k) by {
            if a.contains_key(k) {
                let i = a.index_of(k);
                assert(b.entries@[i].key@ == k);
            }
            if b.contains_key(k) {
                let i = b.index_of(k);
                assert(b.entries@[i].key@ == a.entries@[i].key@);
            }
        }
        assert forall|k: Seq<char>| a.contains_key(k) implies text_of(a.value_of(k)) == text_of(
            b.value_of(k),
        ) by {
            let i = a.index_of(k);
            a.lemma_place(i);
            assert(b.entries@[i].key@ == k);
            b.lemma_place(i);
        }
        assert(mapping_view(a) =~= mapping_view(b));
    }
}

/// The texts of the fields of one visit, by the names of the fields.
#[derive(PartialEq, Debug)]
pub struct VisitInput(pub TextMap<String>);

impl VisitInput {
    /// Whether no name occurs twice.
    pub open spec fn wf(self) -> bool {
        self.0.wf()
    }

    /// The text of the field `key` in characters, and no characters
    /// where there is no such field.
    pub open spec fn text_or_empty(self, key: Seq<char>) -> Seq<char> {
        if self.0.contains_key(key) {
            self.0.value_of(key)@
        } else {
            Seq::empty()
        }
    }

    /// The text of the field `key`.
    pub fn get_str(&self, key: &str) -> (r: Option<&str>)
        requires
            self.wf(),
        ensures
            match r {
                Some(text) => self.0.contains_key(key@) && text@ == self.0.value_of(key@)@,
                None => !self.0.contains_key(key@),
            },
    {
        match self.0.get(key) {
            Some(text) => Some(text.as_str()),
            None => None,
        }
    }

    /// The input that holds the pairs of a name and a text. Of two
    /// pairs with the same name the later one counts.
    pub fn from_pairs(pairs: Vec<(String, String)>) -> (r: VisitInput)
        ensures
            r.wf(),
            forall|k: Seq<char>|
                r.0.contains_key(k) <==> exists|i: int|
                    0 <= i < pairs@.len() && (#[trigger] pairs@[i]).0@ == k,
            forall|i: int|
                #![trigger pairs@[i]]
                0 <= i < pairs@.len() && (forall|j: int|
                    i < j < pairs@.len() ==> (#[trigger] pairs@[j]).0@ != pairs@[i].0@)
                    ==> r.0.value_of(pairs@[i].0@) == pairs@[i].1,
    {
        let ghost n = pairs@.len();
        let mut map: TextMap<String> = TextMap::new();
        let mut rest = reversed(pairs);
        while rest.len() > 0
            invariant
                n == pairs@.len(),
                rest@.len() <= n,
                forall|k: int| 0 <= k < rest@.len() ==> rest@[k] == pairs@[n - 1 - k],
                map.wf(),
                forall|k: Seq<char>|
                    map.contains_key(k) <==> exists|i: int|
                        0 <= i < n - rest@.len() && (#[trigger] pairs@[i]).0@ == k,
                forall|i: int|
                    #![trigger pairs@[i]]
                    0 <= i < n - rest@.len() && (forall|j: int|
                        i < j < n - rest@.len() ==> (#[trigger] pairs@[j]).0@ != pairs@[i].0@)
                        ==> map.value_of(pairs@[i].0@) == pairs@[i].1,
            decreases rest@.len(),
        {
            let ghost done = n - rest@.len();
            let ghost before = map;
            match rest.pop() {
                Some(pair) => {
                    assert(pair == pairs@[done]);
                    map.insert(pair.0, pair.1);
                    assert forall|k: Seq<char>| map.contains_key(k) implies exists|i: int|
                        0 <= i < done + 1 && (#[trigger] pairs@[i]).0@ == k by {
                        if k == pairs@[done].0@ {
                        } else {
                            let i = choose|i: int|
                                0 <= i < done && (#[trigger] pairs@[i]).0@ == k;
                            assert(pairs@[i].0@ == k);
                        }
                    }
                    assert forall|i: int|
                        #![trigger pairs@[i]]
                        0 <= i < done + 1 && (forall|j: int|
                            i < j < done + 1 ==> (#[trigger] pairs@[j]).0@ != pairs@[i].0@)
                        implies map.value_of(pairs@[i].0@) == pairs@[i].1 by {
                        if i < done {
                            assert(pairs@[done].0@ != pairs@[i].0@);
                            assert(before.contains_key(pairs@[i].0@));
                        }
                    }
                },
                None => {},
            }
        }
        VisitInput(map)
    }
}

/// The texts of the fields of one visit, each with the text of the
/// field that holds its letters.
#[derive(PartialEq, Debug)]
pub struct VisitInputMerged(pub TextMap<(String, String)>);

impl VisitInputMerged {
    /// The merged fields in the rising order of their names.
    pub fn into_iter(self) -> (r: Vec<Entry<(String, String)>>)
        ensures
            r == self.0.entries,
    {
        self.0.entries
    }
}

/// Whether `merged` holds the fields of `notes`, each with the text of
/// the field that holds its letters. A field that holds letters is not
/// listed by itself; the field that its letters belong to is, even
/// where `notes` has no such field, and then with an empty text.
pub open spec fn is_merged(notes: VisitInput, merged: VisitInputMerged) -> bool {
    let mapping = mapping_of(notes.0.keys(), notes.0.keys().len());
    &&& merged.0.wf()
    &&& forall|k: Seq<char>| merged.0.contains_key(k) <==> mapping.contains_key(k)
    &&& forall|k: Seq<char>| #[trigger]
        merged.0.contains_key(k) ==> {
            &&& merged.0.value_of(k).0@ == notes.text_or_empty(k)
            &&& merged.0.value_of(k).1@ == match mapping[k] {
                Some(companion) => notes.text_or_empty(companion),
                None => Seq::<char>::empty(),
            }
        }
}

/// A field that holds letters brings the field that its letters belong
/// to into the merged fields, and where the notes have no such field,
/// the text of that field is empty.
pub proof fn lemma_letters_without_field(notes: VisitInput, merged: VisitInputMerged, i: int)
    requires
        is_merged(notes, merged),
        0 <= i < notes.0.keys().len(),
        parent_of(notes.0.keys()[i]) is Some,
    ensures
        merged.0.contains_key(parent_of(notes.0.keys()[i])->Some_0),
        !notes.0.contains_key(parent_of(notes.0.keys()[i])->Some_0) ==> merged.0.value_of(
            parent_of(notes.0.keys()[i])->Some_0,
        ).0@ == Seq::<char>::empty(),
{
    lemma_mapping_covers(notes.0.keys(), notes.0.keys().len(), i);
}

/// Adds the field `key` to a mapping, given the field that its
/// letters belong to if it holds letters.
pub fn add_key(mapping: &mut TextMap<Option<String>>, key: &str, parent: Option<String>)
    requires
        old(mapping).wf(),
    ensures
        final(mapping).wf(),
        mapping_view(*final(mapping)) == with_key(
            mapping_view(*old(mapping)),
            key@,
            text_of(parent),
        ),
{
    let ghost before = *mapping;
    match parent {
        Some(name) => {
            mapping.insert(name, Some(key.to_owned()));
            assert(mapping_view(*mapping) =~= mapping_view(before).insert(name@, Some(key@)));
        },
        None => {
            if mapping.get(key).is_none() {
                mapping.insert(key.to_owned(), None);
                assert(mapping_view(*mapping) =~= mapping_view(before).insert(key@, None));
            }
        },
    }
}

/// Finds, for each field of a visit, the field that holds its letters.
pub struct ColumnMerger {
    pattern: Pattern,
    mapping_cache: LruCacher<TextMap<Option<String>>>,
}

impl ColumnMerger {
    /// Whether the merger is in order: its pattern is the one for the
    /// names of fields that hold letters, and each mapping that it has
    /// kept is the mapping for the names that it is kept under.
    pub closed spec fn wf(self) -> bool {
        &&& self.pattern.text() == plus_pattern()
        &&& self.mapping_cache.wf()
        &&& forall|keys: Seq<Seq<char>>| #[trigger]
            self.mapping_cache.contents().contains_key(keys) ==> is_mapping(
                self.mapping_cache.contents()[keys],
                keys,
            )
    }

    /// A merger that keeps at most `cache_size` mappings. It is made
    /// where the pattern for the names of fields that hold letters can
    /// be made, and the failure is a parse error that holds the pattern
    /// where it cannot.
    pub fn new(cache_size: usize) -> (r: Result<ColumnMerger, VisualAcuityError>)
        requires
            cache_size > 0,
        ensures
            r is Ok <==> compiles(plus_pattern()),
            r matches Ok(merger) ==> merger.wf(),
            r matches Err(e) ==> e matches VisualAcuityError::ParseError(s) && s@ == plus_pattern(),
    {
        match compile(r"(?i)^(.*?)\s*(\+/-|\+|\splus)$") {
            Ok(pattern) => Ok(ColumnMerger { pattern, mapping_cache: LruCacher::new(cache_size) }),
            Err(_) => Err(
                VisualAcuityError::ParseError(r"(?i)^(.*?)\s*(\+/-|\+|\splus)$".to_owned()),
            ),
        }
    }

    /// The mapping for the names of `collection`.
    fn build_mapping(pattern: &Pattern, collection: &VisitInput) -> (r: TextMap<
        Option<String>,
    >)
        requires
            pattern.text() == plus_pattern(),
            collection.wf(),
        ensures
            is_mapping(r, collection.0.keys()),
    {
        let mut mapping: TextMap<Option<String>> = TextMap::new();
        let ghost keys = collection.0.keys();
        assert(mapping_view(mapping) =~= mapping_of(keys, 0));
        let mut i: usize = 0;
        while i < collection.0.entries.len()
            invariant
                i <= collection.0.entries@.len(),
                keys == collection.0.keys(),
                pattern.text() == plus_pattern(),
                mapping.wf(),
                mapping_view(mapping) == mapping_of(keys, i as nat),
            decreases collection.0.entries@.len() - i,
        {
            let key = &collection.0.entries[i].key;
            assert(keys[i as int] == key@);
            let parent = first_group_of(pattern, key.as_str());
            add_key(&mut mapping, key.as_str(), parent);
            i += 1;
        }
        mapping
    }

    /// The names of the fields of `collection`, in their order.
    fn names(collection: &VisitInput) -> (r: Vec<String>)
        ensures
            r.deep_view() == collection.0.keys(),
    {
        let mut out: Vec<String> = Vec::new();
        let mut i: usize = 0;
        while i < collection.0.entries.len()
            invariant
                i <= collection.0.entries@.len(),
                out@.len() == i,
                forall|j: int| 0 <= j < i ==> out@[j]@ == collection.0.entries@[j].key@,
            decreases collection.0.entries@.len() - i,
        {
            out.push(collection.0.entries[i].key.clone());
            i += 1;
        }
        assert(out.deep_view() =~= collection.0.keys());
        out
    }

    /// For each field of `collection` that stands for itself or for
    /// which letters are held, the name of the field that holds its
    /// letters. The mapping is kept for the next record with the same
    /// names.
    pub fn key_mapping(&mut self, collection: &VisitInput) -> (r: TextMap<Option<String>>)
        requires
            old(self).wf(),
            collection.wf(),
        ensures
            final(self).wf(),
            is_mapping(r, collection.0.keys()),
    {
        let cache_key = Self::names(collection);
        let pattern = &self.pattern;
        let ghost before = self.mapping_cache;
        let compute = || -> (m: TextMap<Option<String>>)
            ensures
                is_mapping(m, collection.0.keys()),
            { Self::build_mapping(pattern, collection) };
        let r = self.mapping_cache.get(&cache_key, compute);
        proof {
            let keys = collection.0.keys();
            if before.contents().contains_key(keys) {
                lemma_mapping_copy(before.contents()[keys], r, keys);
            } else {
                lemma_mapping_copy(r, self.mapping_cache.contents()[keys], keys);
            }
        }
        r
    }

    /// The fields of `notes`, each with the text of the field that
    /// holds its letters.
    pub fn merge_plus_columns(&mut self, notes: &VisitInput) -> (r: VisitInputMerged)
        requires
            old(self).wf(),
            notes.wf(),
        ensures
            final(self).wf(),
            is_merged(*notes, r),
    {
        let mapping = self.key_mapping(notes);
        let ghost spec_mapping = mapping_of(notes.0.keys(), notes.0.keys().len());
        let mut merged: TextMap<(String, String)> = TextMap::new();
        let mut i: usize = 0;
        while i < mapping.entries.len()
            invariant
                i <= mapping.entries@.len(),
                notes.wf(),
                is_mapping(mapping, notes.0.keys()),
                spec_mapping == mapping_of(notes.0.keys(), notes.0.keys().len()),
                merged.wf(),
                forall|k: Seq<char>|
                    merged.contains_key(k) <==> exists|j: int|
                        0 <= j < i && (#[trigger] mapping.entries@[j]).key@ == k,
                forall|k: Seq<char>| #[trigger]
                    merged.contains_key(k) ==> {
                        &&& merged.value_of(k).0@ == notes.text_or_empty(k)
                        &&& merged.value_of(k).1@ == match spec_mapping[k] {
                            Some(companion) => notes.text_or_empty(companion),
                            None => Seq::<char>::empty(),
                        }
                    },
            decreases mapping.entries@.len() - i,
        {
            let entry = &mapping.entries[i];
            let ghost before = merged;
            proof {
                mapping.lemma_place(i as int);
                assert(mapping_view(mapping).contains_key(entry.key@));
                assert(mapping_view(mapping)[entry.key@] == text_of(entry.value));
            }
            let text = match notes.get_str(entry.key.as_str()) {
                Some(text) => text.to_owned(),
                None => String::new(),
            };
            let text_plus = match &entry.value {
                Some(companion) => match notes.get_str(companion.as_str()) {
                    Some(text) => text.to_owned(),
                    None => String::new(),
                },
                None => String::new(),
            };
            merged.insert(entry.key.clone(), (text, text_plus));
            assert forall|k: Seq<char>| merged.contains_key(k) implies exists|j: int|
                0 <= j < i + 1 && (#[trigger] mapping.entries@[j]).key@ == k by {
                if k != entry.key@ {
                    let j = choose|j: int| 0 <= j < i && (#[trigger] mapping.entries@[j]).key@ == k;
                    assert(mapping.entries@[j].key@ == k);
                }
            }
            i += 1;
        }
        proof {
            assert forall|k: Seq<char>| merged.contains_key(k) <==> spec_mapping.contains_key(k) by {
                if merged.contains_key(k) {
                    let j = choose|j: int|
                        0 <= j < mapping.entries@.len() && (#[trigger] mapping.entries@[j]).key@
                            == k;
                    assert(mapping.contains_key(k));
                    assert(mapping_view(mapping).contains_key(k));
                }
                if spec_mapping.contains_key(k) {
                    assert(mapping_view(mapping).contains_key(k));
                    assert(mapping.contains_key(k));
                    let j = mapping.index_of(k);
                    assert(mapping.entries@[j].key@ == k);
                }
            }
        }
        VisitInputMerged(merged)
    }
}

} // verus!
