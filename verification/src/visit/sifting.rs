use crate::charts::ChartTable;
use crate::errors::{ErrorView, OptionResult, VisualAcuityError};
use crate::structure::{Fraction, ParsedItem, ParsedItemCollection};
use crate::text::push_text;
use crate::vectors::reversed;
use crate::visit::metadata::{Correction, DistanceOfMeasurement, Laterality, PinHole};
use vstd::prelude::*;

verus! {

/// The category that an item is sorted into.
pub enum Bin {
    Acuity,
    OtherObservation,
    Unhandled,
    Context,
}

/// The category of an item: the kinds that can be the primary acuity
/// are acuities; visual responses, cross-references and reasons for
/// not taking an acuity are other observations; plain and unhandled
/// text is unhandled; the rest says something about the visit.
pub open spec fn bin_of(item: ParsedItem) -> Bin {
    if item.is_base() {
        Bin::Acuity
    } else if item.is_other_observation() {
        Bin::OtherObservation
    } else if item is Text || item is Unhandled {
        Bin::Unhandled
    } else {
        Bin::Context
    }
}

/// Those of the first `upto` items that belong to `bin`, in their
/// order.
pub open spec fn binned(items: Seq<ParsedItem>, bin: Bin, upto: nat) -> Seq<ParsedItem>
    decreases upto,
{
    if upto == 0 {
        Seq::empty()
    } else if bin_of(items[upto - 1]) == bin {
        binned(items, bin, (upto - 1) as nat).push(items[upto - 1])
    } else {
        binned(items, bin, (upto - 1) as nat)
    }
}

/// The counts of letters among the first `upto` items, in their order.
pub open spec fn letters_of(items: Seq<ParsedItem>, upto: nat) -> Seq<i32>
    decreases upto,
{
    if upto == 0 {
        Seq::empty()
    } else {
        match items[upto - 1] {
            ParsedItem::PlusLettersItem(n) => letters_of(items, (upto - 1) as nat).push(n),
            _ => letters_of(items, (upto - 1) as nat),
        }
    }
}

/// The lateralities among the first `upto` items, in their order.
pub open spec fn lateralities_of(items: Seq<ParsedItem>, upto: nat) -> Seq<Laterality>
    decreases upto,
{
    if upto == 0 {
        Seq::empty()
    } else {
        match items[upto - 1] {
            ParsedItem::LateralityItem(v) => lateralities_of(items, (upto - 1) as nat).push(v),
            _ => lateralities_of(items, (upto - 1) as nat),
        }
    }
}

/// The distances of measurement among the first `upto` items, in
/// their order.
pub open spec fn distances_of(items: Seq<ParsedItem>, upto: nat) -> Seq<DistanceOfMeasurement>
    decreases upto,
{
    if upto == 0 {
        Seq::empty()
    } else {
        match items[upto - 1] {
            ParsedItem::DistanceItem(v) => distances_of(items, (upto - 1) as nat).push(v),
            _ => distances_of(items, (upto - 1) as nat),
        }
    }
}

/// The corrections among the first `upto` items, in their order.
pub open spec fn corrections_of(items: Seq<ParsedItem>, upto: nat) -> Seq<Correction>
    decreases upto,
{
    if upto == 0 {
        Seq::empty()
    } else {
        match items[upto - 1] {
            ParsedItem::CorrectionItem(v) => corrections_of(items, (upto - 1) as nat).push(v),
            _ => corrections_of(items, (upto - 1) as nat),
        }
    }
}

/// The pin-hole marks among the first `upto` items, in their order.
pub open spec fn pin_holes_of(items: Seq<ParsedItem>, upto: nat) -> Seq<PinHole>
    decreases upto,
{
    if upto == 0 {
        Seq::empty()
    } else {
        match items[upto - 1] {
            ParsedItem::PinHoleItem(v) => pin_holes_of(items, (upto - 1) as nat).push(v),
            _ => pin_holes_of(items, (upto - 1) as nat),
        }
    }
}

/// Whether two acuities are equivalent: they have the same Snellen
/// equivalent, or neither has one and they read the same.
pub open spec fn same_class(a: ParsedItem, b: ParsedItem, charts: ChartTable) -> bool {
    match (a.snellen(charts), b.snellen(charts)) {
        (Some(x), Some(y)) => x == y,
        (None, None) => a.rendering() == b.rendering(),
        _ => false,
    }
}

/// Whether no later acuity is equivalent to the one at `i`.
pub open spec fn is_last_of_class(acuities: Seq<ParsedItem>, charts: ChartTable, i: int) -> bool {
    forall|j: int|
        i < j < acuities.len() ==> !same_class(acuities[i], #[trigger] acuities[j], charts)
}

/// The places below `upto` of the acuities that are the last of their
/// class, in rising order.
pub open spec fn survivors(acuities: Seq<ParsedItem>, charts: ChartTable, upto: nat) -> Seq<int>
    decreases upto,
{
    if upto == 0 {
        Seq::empty()
    } else if is_last_of_class(acuities, charts, upto - 1) {
        survivors(acuities, charts, (upto - 1) as nat).push(upto - 1)
    } else {
        survivors(acuities, charts, (upto - 1) as nat)
    }
}

/// The texts of the acuities at the first `upto` of `places`, each
/// after the first preceded by a comma and a space.
pub open spec fn joined_renderings(acuities: Seq<ParsedItem>, places: Seq<int>, upto: nat) -> Seq<
    char,
>
    decreases upto,
{
    if upto == 0 {
        Seq::empty()
    } else if upto == 1 {
        acuities[places[0]].rendering()
    } else {
        joined_renderings(acuities, places, (upto - 1) as nat) + seq![',', ' ']
            + acuities[places[upto - 1]].rendering()
    }
}

/// The text that reports a conflict between the acuities at `places`.
pub open spec fn conflict_of(acuities: Seq<ParsedItem>, places: Seq<int>) -> Seq<char> {
    seq!['['] + joined_renderings(acuities, places, places.len()) + seq![']']
}

/// The outcome of choosing the primary observation.
pub enum Selection {
    Missing,
    Chosen(ParsedItem),
    Conflict(Seq<char>),
}

/// The primary observation among the acuities and the other
/// observations. Of equivalent acuities only the last counts. Where
/// one acuity is left, it is chosen; where none is, the first of the
/// other observations is, if there is one; where several are, they
/// are in conflict.
pub open spec fn selected(
    acuities: Seq<ParsedItem>,
    others: Seq<ParsedItem>,
    charts: ChartTable,
) -> Selection {
    let places = survivors(acuities, charts, acuities.len());
    if places.len() == 0 {
        if others.len() > 0 {
            Selection::Chosen(others[0])
        } else {
            Selection::Missing
        }
    } else if places.len() == 1 {
        Selection::Chosen(acuities[places[0]])
    } else {
        Selection::Conflict(conflict_of(acuities, places))
    }
}

/// What is sorted into a category belongs to it and is one of the
/// items.
pub proof fn lemma_binned(items: Seq<ParsedItem>, bin: Bin, upto: nat, k: int)
    requires
        upto <= items.len(),
        0 <= k < binned(items, bin, upto).len(),
    ensures
        bin_of(binned(items, bin, upto)[k]) == bin,
        items.contains(binned(items, bin, upto)[k]),
    decreases upto,
{
    if upto > 0 {
        let before = binned(items, bin, (upto - 1) as nat);
        if k < before.len() {
            lemma_binned(items, bin, (upto - 1) as nat, k);
        } else {
            assert(items[upto - 1] == binned(items, bin, upto)[k]);
        }
    }
}

/// The places of the survivors are places of acuities.
pub proof fn lemma_survivors(acuities: Seq<ParsedItem>, charts: ChartTable, upto: nat, k: int)
    requires
        0 <= k < survivors(acuities, charts, upto).len(),
    ensures
        0 <= survivors(acuities, charts, upto)[k] < upto,
    decreases upto,
{
    if upto > 0 {
        let before = survivors(acuities, charts, (upto - 1) as nat);
        if k < before.len() {
            lemma_survivors(acuities, charts, (upto - 1) as nat, k);
        }
    }
}

/// The primary observation of a note is one of its items, and it is
/// an acuity or another observation: never a count of letters, a word
/// about the visit, or plain text.
pub proof fn lemma_base_is_observation(items: Seq<ParsedItem>, charts: ChartTable)
    ensures
        selected(
            binned(items, Bin::Acuity, items.len()),
            binned(items, Bin::OtherObservation, items.len()),
            charts,
        ) matches Selection::Chosen(item) ==> items.contains(item) && (item.is_base()
            || item.is_other_observation()),
{
    let acuities = binned(items, Bin::Acuity, items.len());
    let others = binned(items, Bin::OtherObservation, items.len());
    let places = survivors(acuities, charts, acuities.len());
    if places.len() == 0 {
        if others.len() > 0 {
            lemma_binned(items, Bin::OtherObservation, items.len(), 0);
        }
    } else if places.len() == 1 {
        lemma_survivors(acuities, charts, acuities.len(), 0);
        lemma_binned(items, Bin::Acuity, items.len(), places[0]);
    }
}

/// The items of a note, sorted by category.
pub struct SiftedParsedItems {
    pub acuities: Vec<ParsedItem>,
    pub other_observations: Vec<ParsedItem>,
    pub plus_letters: Vec<i32>,
    pub lateralities: Vec<Laterality>,
    pub distances: Vec<DistanceOfMeasurement>,
    pub corrections: Vec<Correction>,
    pub pin_hole: Vec<PinHole>,
    pub unhandled: Vec<ParsedItem>,
}

impl SiftedParsedItems {
    /// Whether `self` holds the items `items`, each in its category.
    pub open spec fn holds(self, items: Seq<ParsedItem>, upto: nat) -> bool {
        &&& self.acuities@ == binned(items, Bin::Acuity, upto)
        &&& self.other_observations@ == binned(items, Bin::OtherObservation, upto)
        &&& self.unhandled@ == binned(items, Bin::Unhandled, upto)
        &&& self.plus_letters@ == letters_of(items, upto)
        &&& self.lateralities@ == lateralities_of(items, upto)
        &&& self.distances@ == distances_of(items, upto)
        &&& self.corrections@ == corrections_of(items, upto)
        &&& self.pin_hole@ == pin_holes_of(items, upto)
    }

    /// The primary observation of the sifted items.
    pub open spec fn selection(self, charts: ChartTable) -> Selection {
        selected(self.acuities@, self.other_observations@, charts)
    }

    /// Sorts the items of a note into their categories, keeping their
    /// order within each.
    pub fn sift(parsed_notes: ParsedItemCollection) -> (r: SiftedParsedItems)
        ensures
            r.holds(parsed_notes.0@, parsed_notes.0@.len()),
    {
        let mut result = SiftedParsedItems {
            acuities: Vec::new(),
            other_observations: Vec::new(),
            plus_letters: Vec::new(),
            lateralities: Vec::new(),
            distances: Vec::new(),
            corrections: Vec::new(),
            pin_hole: Vec::new(),
            unhandled: Vec::new(),
        };
        let ghost items = parsed_notes.0@;
        let ghost n = items.len();
        let mut rest = reversed(parsed_notes.0);
        while rest.len() > 0
            invariant
                n == items.len(),
                rest@.len() <= n,
                forall|k: int| 0 <= k < rest@.len() ==> rest@[k] == items[n - 1 - k],
                result.holds(items, (n - rest@.len()) as nat),
            decreases rest@.len(),
        {
            match rest.pop() {
                Some(item) => match item {
                    ParsedItem::SnellenFraction(_) => result.acuities.push(item),
                    ParsedItem::Jaeger(_) => result.acuities.push(item),
                    ParsedItem::Teller(_) => result.acuities.push(item),
                    ParsedItem::ETDRS(_) => result.acuities.push(item),
                    ParsedItem::NearTotalLoss(_, _) => result.acuities.push(item),
                    ParsedItem::VisualResponse(_) => result.other_observations.push(item),
                    ParsedItem::CrossReferenceItem(_) => result.other_observations.push(item),
                    ParsedItem::NotTakenItem(_) => result.other_observations.push(item),
                    ParsedItem::PlusLettersItem(value) => result.plus_letters.push(value),
                    ParsedItem::DistanceItem(value) => result.distances.push(value),
                    ParsedItem::LateralityItem(value) => result.lateralities.push(value),
                    ParsedItem::CorrectionItem(value) => result.corrections.push(value),
                    ParsedItem::PinHoleItem(value) => result.pin_hole.push(value),
                    ParsedItem::Text(_) => result.unhandled.push(item),
                    ParsedItem::Unhandled(_) => result.unhandled.push(item),
                },
                None => {},
            }
        }
        result
    }

    /// Chooses the primary observation.
    pub fn base_acuity_<'a>(&'a self, charts: &ChartTable) -> (r: OptionResult<&'a ParsedItem>)
        ensures
            match self.selection(*charts) {
                Selection::Missing => r is Absent,
                Selection::Chosen(item) => r matches OptionResult::Present(found) && *found == item,
                Selection::Conflict(text) => r matches OptionResult::Failed(e) && e@
                    == ErrorView::MultipleValues(text),
            },
    {
        let acuities = references(&self.acuities);
        let others = references(&self.other_observations);
        select_base(&acuities, &others, charts)
    }
}

/// The items that the references point to.
pub open spec fn pointed(items: Seq<&ParsedItem>) -> Seq<ParsedItem> {
    Seq::new(items.len(), |i: int| *items[i])
}

/// References to the items, in their order.
fn references<'a>(items: &'a Vec<ParsedItem>) -> (r: Vec<&'a ParsedItem>)
    ensures
        pointed(r@) == items@,
{
    let mut out: Vec<&'a ParsedItem> = Vec::new();
    let mut i: usize = 0;
    while i < items.len()
        invariant
            i <= items@.len(),
            out@.len() == i,
            forall|k: int| 0 <= k < i ==> *out@[k] == items@[k],
        decreases items@.len() - i,
    {
        out.push(&items[i]);
        i += 1;
    }
    assert(pointed(out@) =~= items@);
    out
}

impl ParsedItemCollection {
    /// The counts of letters read beyond a line, in their order.
    pub fn plus_letters(&self) -> (r: Vec<i32>)
        ensures
            r@ == letters_of(self.0@, self.0@.len()),
    {
        let mut out: Vec<i32> = Vec::new();
        let mut i: usize = 0;
        while i < self.0.len()
            invariant
                i <= self.0@.len(),
                out@ == letters_of(self.0@, i as nat),
            decreases self.0@.len() - i,
        {
            match &self.0[i] {
                ParsedItem::PlusLettersItem(n) => out.push(*n),
                _ => {},
            }
            i += 1;
        }
        out
    }

    /// The lateralities that the items name, in their order.
    pub fn laterality(&self) -> (r: Vec<Laterality>)
        ensures
            r@ == lateralities_of(self.0@, self.0@.len()),
    {
        let mut out: Vec<Laterality> = Vec::new();
        let mut i: usize = 0;
        while i < self.0.len()
            invariant
                i <= self.0@.len(),
                out@ == lateralities_of(self.0@, i as nat),
            decreases self.0@.len() - i,
        {
            match &self.0[i] {
                ParsedItem::LateralityItem(v) => out.push(*v),
                _ => {},
            }
            i += 1;
        }
        out
    }

    /// The distances of measurement that the items name, in their
    /// order.
    pub fn distance(&self) -> (r: Vec<DistanceOfMeasurement>)
        ensures
            r@ == distances_of(self.0@, self.0@.len()),
    {
        let mut out: Vec<DistanceOfMeasurement> = Vec::new();
        let mut i: usize = 0;
        while i < self.0.len()
            invariant
                i <= self.0@.len(),
                out@ == distances_of(self.0@, i as nat),
            decreases self.0@.len() - i,
        {
            match &self.0[i] {
                ParsedItem::DistanceItem(v) => out.push(*v),
                _ => {},
            }
            i += 1;
        }
        out
    }

    /// The corrections that the items name, in their order.
    pub fn correction(&self) -> (r: Vec<Correction>)
        ensures
            r@ == corrections_of(self.0@, self.0@.len()),
    {
        let mut out: Vec<Correction> = Vec::new();
        let mut i: usize = 0;
        while i < self.0.len()
            invariant
                i <= self.0@.len(),
                out@ == corrections_of(self.0@, i as nat),
            decreases self.0@.len() - i,
        {
            match &self.0[i] {
                ParsedItem::CorrectionItem(v) => out.push(*v),
                _ => {},
            }
            i += 1;
        }
        out
    }

    /// Those of the items that belong to the category that `acuity`
    /// names: the acuities, or the other observations.
    fn observations<'a>(&'a self, acuity: bool) -> (r: Vec<&'a ParsedItem>)
        ensures
            acuity ==> pointed(r@) == binned(self.0@, Bin::Acuity, self.0@.len()),
            !acuity ==> pointed(r@) == binned(self.0@, Bin::OtherObservation, self.0@.len()),
    {
        let mut out: Vec<&'a ParsedItem> = Vec::new();
        let mut i: usize = 0;
        while i < self.0.len()
            invariant
                i <= self.0@.len(),
                acuity ==> pointed(out@) == binned(self.0@, Bin::Acuity, i as nat),
                !acuity ==> pointed(out@) == binned(self.0@, Bin::OtherObservation, i as nat),
            decreases self.0@.len() - i,
        {
            let item = &self.0[i];
            let ghost before = out@;
            let wanted = match item {
                ParsedItem::VisualResponse(_) => !acuity,
                ParsedItem::CrossReferenceItem(_) => !acuity,
                ParsedItem::NotTakenItem(_) => !acuity,
                _ => acuity && item.can_be_base(),
            };
            if wanted {
                out.push(item);
                assert(pointed(out@) =~= pointed(before).push(*item));
            }
            i += 1;
        }
        out
    }

    /// The primary observation among the items.
    pub fn base_acuity<'a>(&'a self, charts: &ChartTable) -> (r: OptionResult<&'a ParsedItem>)
        ensures
            match selected(
                binned(self.0@, Bin::Acuity, self.0@.len()),
                binned(self.0@, Bin::OtherObservation, self.0@.len()),
                *charts,
            ) {
                Selection::Missing => r is Absent,
                Selection::Chosen(item) => r matches OptionResult::Present(found) && *found == item,
                Selection::Conflict(text) => r matches OptionResult::Failed(e) && e@
                    == ErrorView::MultipleValues(text),
            },
    {
        let acuities = self.observations(true);
        let others = self.observations(false);
        select_base(&acuities, &others, charts)
    }
}

/// The text that reports a conflict between the acuities at
/// `places`.
fn conflict_message(texts: &Vec<String>, places: &Vec<usize>, Ghost(acuities): Ghost<
    Seq<ParsedItem>,
>, Ghost(ghost_places): Ghost<Seq<int>>) -> (r: String)
    requires
        texts@.len() == acuities.len(),
        forall|i: int| 0 <= i < texts@.len() ==> (#[trigger] texts@[i])@ == acuities[i].rendering(),
        places@.len() == ghost_places.len(),
        forall|k: int|
            0 <= k < places@.len() ==> (#[trigger] places@[k]) == ghost_places[k] && places@[k]
                < texts@.len(),
    ensures
        r@ == conflict_of(acuities, ghost_places),
{
    let mut out = "[".to_owned();
    proof {
        reveal_strlit("[");
        reveal_strlit("]");
        reveal_strlit(", ");
    }
    let ghost start = out@;
    assert(start =~= seq!['[']);
    let mut k: usize = 0;
    while k < places.len()
        invariant
            k <= places.len(),
            texts@.len() == acuities.len(),
            forall|i: int|
                0 <= i < texts@.len() ==> (#[trigger] texts@[i])@ == acuities[i].rendering(),
            places@.len() == ghost_places.len(),
            forall|k: int|
                0 <= k < places@.len() ==> (#[trigger] places@[k]) == ghost_places[k]
                    && places@[k] < texts@.len(),
            out@ == start + joined_renderings(acuities, ghost_places, k as nat),
            ", "@ =~= seq![',', ' '],
        decreases places.len() - k,
    {
        if k > 0 {
            push_text(&mut out, ", ");
        }
        push_text(&mut out, texts[places[k]].as_str());
        k += 1;
        assert(out@ =~= start + joined_renderings(acuities, ghost_places, k as nat));
    }
    push_text(&mut out, "]");
    assert(out@ =~= conflict_of(acuities, ghost_places));
    out
}

/// Chooses the primary observation among the acuities and the other
/// observations.
pub fn select_base<'a>(
    acuities: &Vec<&'a ParsedItem>,
    other_observations: &Vec<&'a ParsedItem>,
    charts: &ChartTable,
) -> (r: OptionResult<&'a ParsedItem>)
    ensures
        match selected(pointed(acuities@), pointed(other_observations@), *charts) {
            Selection::Missing => r is Absent,
            Selection::Chosen(item) => r matches OptionResult::Present(found) && *found == item,
            Selection::Conflict(text) => r matches OptionResult::Failed(e) && e@
                == ErrorView::MultipleValues(text),
        },
{
    let ghost items = pointed(acuities@);
    let n = acuities.len();
    let mut keys: Vec<Option<Fraction>> = Vec::new();
    let mut texts: Vec<String> = Vec::new();
    let mut i: usize = 0;
    while i < n
        invariant
            n == acuities@.len(),
            items == pointed(acuities@),
            i <= n,
            keys@.len() == i,
            texts@.len() == i,
            forall|k: int| 0 <= k < i ==> (#[trigger] keys@[k]) == items[k].snellen(*charts),
            forall|k: int|
                0 <= k < i ==> (#[trigger] texts@[k])@ == items[k].rendering(),
        decreases n - i,
    {
        match acuities[i].snellen_equivalent(charts) {
            Ok(fraction) => keys.push(Some(fraction)),
            Err(_) => keys.push(None),
        }
        texts.push(acuities[i].to_text());
        i += 1;
    }
    let mut places: Vec<usize> = Vec::new();
    let ghost mut ghost_places: Seq<int> = Seq::empty();
    let mut i: usize = 0;
    while i < n
        invariant
            n == acuities@.len(),
            items == pointed(acuities@),
            i <= n,
            keys@.len() == n,
            texts@.len() == n,
            forall|k: int| 0 <= k < n ==> (#[trigger] keys@[k]) == items[k].snellen(*charts),
            forall|k: int|
                0 <= k < n ==> (#[trigger] texts@[k])@ == items[k].rendering(),
            ghost_places == survivors(items, *charts, i as nat),
            places@.len() == ghost_places.len(),
            forall|k: int|
                0 <= k < places@.len() ==> (#[trigger] places@[k]) == ghost_places[k]
                    && places@[k] < n,
        decreases n - i,
    {
        let mut last = true;
        let mut j: usize = i + 1;
        while j < n
            invariant
                n == acuities@.len(),
            items == pointed(acuities@),
                i < j <= n,
                keys@.len() == n,
                texts@.len() == n,
                forall|k: int|
                    0 <= k < n ==> (#[trigger] keys@[k]) == items[k].snellen(*charts),
                forall|k: int|
                    0 <= k < n ==> (#[trigger] texts@[k])@ == items[k].rendering(),
                last == (forall|k: int|
                    i < k < j ==> !same_class(
                        items[i as int],
                        #[trigger] items[k],
                        *charts,
                    )),
            decreases n - j,
        {
            let same = match (&keys[i], &keys[j]) {
                (Some(x), Some(y)) => x.0 == y.0 && x.1 == y.1,
                (None, None) => texts[i] == texts[j],
                _ => false,
            };
            assert(same == same_class(items[i as int], items[j as int], *charts));
            if same {
                last = false;
            }
            j += 1;
        }
        if last {
            places.push(i);
            proof {
                ghost_places = ghost_places.push(i as int);
            }
        }
        i += 1;
    }
    if places.len() == 0 {
        if other_observations.len() > 0 {
            OptionResult::Present(other_observations[0])
        } else {
            OptionResult::Absent
        }
    } else if places.len() == 1 {
        OptionResult::Present(acuities[places[0]])
    } else {
        let text = conflict_message(
            &texts,
            &places,
            Ghost(items),
            Ghost(ghost_places),
        );
        OptionResult::Failed(VisualAcuityError::MultipleValues(text))
    }
}

} // verus!
