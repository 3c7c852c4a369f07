use crate::charts::ChartTable;
use crate::dataquality::DataQuality;
use crate::disambiguation::{disambiguate, disambiguated};
use crate::errors::{ErrorView, OptionResult, VisualAcuityError};
use crate::logmar::{serves_ratios, LogMarPlusLetters};
use crate::parser::decorator::Content;
use crate::structure::{Fraction, ParsedItem, ParsedItemCollection, VAFormat};
use crate::visit::metadata::{Correction, DistanceOfMeasurement, Laterality, PinHole};
use crate::visit::sifting::{Selection, SiftedParsedItems};
use vstd::prelude::*;

verus! {

/// What the name of a field says about its observations.
#[derive(PartialEq, Eq, Debug, Clone, Copy, Structural)]
pub struct EntryMetadata {
    pub laterality: Laterality,
    pub distance_of_measurement: DistanceOfMeasurement,
    pub correction: Correction,
    pub pinhole: PinHole,
}

impl Default for EntryMetadata {
    fn default() -> (r: EntryMetadata)
        ensures
            r == (EntryMetadata {
                laterality: Laterality::Unknown,
                distance_of_measurement: DistanceOfMeasurement::Unknown,
                correction: Correction::Unknown,
                pinhole: PinHole::Unknown,
            }),
    {
        EntryMetadata {
            laterality: Laterality::Unknown,
            distance_of_measurement: DistanceOfMeasurement::Unknown,
            correction: Correction::Unknown,
            pinhole: PinHole::Unknown,
        }
    }
}

impl EntryMetadata {
    /// The metadata with what `item` says added to it. A manifest
    /// correction implies a measurement at distance where the distance
    /// is not yet known.
    pub open spec fn with_item(self, item: ParsedItem) -> EntryMetadata {
        let implied = if item == ParsedItem::CorrectionItem(Correction::Manifest)
            && self.distance_of_measurement == DistanceOfMeasurement::Unknown {
            DistanceOfMeasurement::Distance
        } else {
            self.distance_of_measurement
        };
        match item {
            ParsedItem::CorrectionItem(correction) => EntryMetadata {
                correction,
                distance_of_measurement: implied,
                ..self
            },
            ParsedItem::DistanceItem(distance) => EntryMetadata {
                distance_of_measurement: distance,
                ..self
            },
            ParsedItem::LateralityItem(laterality) => EntryMetadata { laterality, ..self },
            ParsedItem::PinHoleItem(pinhole) => EntryMetadata { pinhole, ..self },
            _ => self,
        }
    }

    /// Adds what `item` says to the metadata.
    pub fn with(self, item: ParsedItem) -> (r: EntryMetadata)
        ensures
            r == self.with_item(item),
    {
        match item {
            ParsedItem::CorrectionItem(correction) => {
                let manifest = match correction {
                    Correction::Manifest => true,
                    _ => false,
                };
                let unknown = match self.distance_of_measurement {
                    DistanceOfMeasurement::Unknown => true,
                    _ => false,
                };
                let distance = if manifest && unknown {
                    DistanceOfMeasurement::Distance
                } else {
                    self.distance_of_measurement
                };
                EntryMetadata {
                    laterality: self.laterality,
                    distance_of_measurement: distance,
                    correction,
                    pinhole: self.pinhole,
                }
            },
            ParsedItem::DistanceItem(distance) => EntryMetadata {
                laterality: self.laterality,
                distance_of_measurement: distance,
                correction: self.correction,
                pinhole: self.pinhole,
            },
            ParsedItem::LateralityItem(laterality) => EntryMetadata {
                laterality,
                distance_of_measurement: self.distance_of_measurement,
                correction: self.correction,
                pinhole: self.pinhole,
            },
            ParsedItem::PinHoleItem(pinhole) => EntryMetadata {
                laterality: self.laterality,
                distance_of_measurement: self.distance_of_measurement,
                correction: self.correction,
                pinhole,
            },
            _ => self,
        }
    }
}

/// The record of one field of a visit. LogMAR values are whole counts
/// of millionths.
#[derive(PartialEq, Debug)]
pub struct VisitNote {
    pub text: String,
    pub text_plus: String,
    pub data_quality: DataQuality,
    pub laterality: Laterality,
    pub distance_of_measurement: DistanceOfMeasurement,
    pub correction: Correction,
    pub pinhole: PinHole,
    pub va_format: Result<VAFormat, VisualAcuityError>,
    pub plus_letters: Vec<i32>,
    pub extracted_value: String,
    pub snellen_equivalent: OptionResult<Fraction>,
    pub log_mar_base: OptionResult<i64>,
    pub log_mar_base_plus_letters: OptionResult<i64>,
}

impl Clone for VisitNote {
    fn clone(&self) -> (r: VisitNote)
        ensures
            r.same(*self),
    {
        VisitNote {
            text: self.text.clone(),
            text_plus: self.text_plus.clone(),
            data_quality: self.data_quality,
            laterality: self.laterality,
            distance_of_measurement: self.distance_of_measurement,
            correction: self.correction,
            pinhole: self.pinhole,
            va_format: match &self.va_format {
                Ok(v) => Ok(*v),
                Err(e) => Err(e.clone()),
            },
            plus_letters: self.plus_letters.clone(),
            extracted_value: self.extracted_value.clone(),
            snellen_equivalent: self.snellen_equivalent.clone(),
            log_mar_base: self.log_mar_base.clone(),
            log_mar_base_plus_letters: self.log_mar_base_plus_letters.clone(),
        }
    }
}

/// The records of the fields of one visit, by the names of the fields
/// in rising order. A field without text has no record.
#[derive(PartialEq, Debug)]
pub struct Visit(pub Vec<(String, Option<VisitNote>)>);

/// The formats of the items, in their order.
pub open spec fn formats_of(items: Seq<ParsedItem>) -> Seq<VAFormat> {
    Seq::new(items.len(), |i: int| VAFormat::of(items[i]))
}

/// The format of a record: that of the primary observation where one
/// was chosen; the conflict between the acuities where the choice was
/// in conflict, which is the conflict that the Snellen equivalent and
/// the LogMAR values of the record report; and, where there is no
/// primary observation, what the formats of all acuities and other
/// observations come to.
pub open spec fn format_for(
    selection: Selection,
    acuities: Seq<ParsedItem>,
    others: Seq<ParsedItem>,
) -> Result<VAFormat, Seq<char>> {
    match selection {
        Selection::Chosen(item) => Ok(VAFormat::of(item)),
        Selection::Conflict(text) => Err(text),
        Selection::Missing => disambiguated(formats_of(acuities + others)),
    }
}

/// The text of the value of a record: that of the primary observation,
/// the word "Error" where the choice was in conflict, and else that of
/// the first other observation, or nothing.
pub open spec fn value_text(selection: Selection, others: Seq<ParsedItem>) -> Seq<char> {
    match selection {
        Selection::Chosen(item) => item.rendering(),
        Selection::Conflict(_) => "Error"@,
        Selection::Missing => if others.len() > 0 {
            others[0].rendering()
        } else {
            Seq::empty()
        },
    }
}

/// The data quality of a record: "no value" without a primary
/// observation, "multiple" where the choice was in conflict, and else
/// the better of the qualities of the two texts, or "fuzzy" where
/// more than one count of letters was read.
pub open spec fn quality_for(
    selection: Selection,
    text: DataQuality,
    text_plus: DataQuality,
    letters: nat,
) -> DataQuality {
    match selection {
        Selection::Missing => DataQuality::NoValue,
        Selection::Conflict(_) => DataQuality::Multiple,
        Selection::Chosen(_) => if letters > 1 {
            DataQuality::ConvertibleFuzzy
        } else {
            text.spec_max(text_plus)
        },
    }
}

/// Whether `r` is the Snellen equivalent of a record.
pub open spec fn snellen_for(
    selection: Selection,
    charts: ChartTable,
    r: OptionResult<Fraction>,
) -> bool {
    match selection {
        Selection::Missing => r is Absent,
        Selection::Conflict(text) => r matches OptionResult::Failed(e) && e@
            == ErrorView::MultipleValues(text),
        Selection::Chosen(item) => match item.snellen(charts) {
            Some(fraction) => r == OptionResult::Present(fraction),
            None => r matches OptionResult::Failed(e) && e@ == ErrorView::NoSnellenEquivalent(
                item.rendering(),
            ),
        },
    }
}

/// Whether `r` is the LogMAR of a record.
pub open spec fn log_mar_for<L: Fn(u64, u64) -> i64>(
    selection: Selection,
    charts: ChartTable,
    log_mar_of: &L,
    r: OptionResult<i64>,
) -> bool {
    match selection {
        Selection::Missing => r is Absent,
        Selection::Conflict(text) => r matches OptionResult::Failed(e) && e@
            == ErrorView::MultipleValues(text),
        Selection::Chosen(item) => match r {
            OptionResult::Present(v) => item.log_mar_base_is(charts, log_mar_of, Ok(v)),
            OptionResult::Failed(e) => item.log_mar_base_is(charts, log_mar_of, Err(e)),
            OptionResult::Absent => false,
        },
    }
}

/// Whether `r` is the LogMAR with letters of a record.
pub open spec fn log_mar_plus_for<L: Fn(u64, u64) -> i64>(
    selection: Selection,
    letters: Seq<i32>,
    charts: ChartTable,
    log_mar_of: &L,
    r: OptionResult<i64>,
) -> bool {
    match selection {
        Selection::Missing => r is Absent,
        Selection::Conflict(text) => r matches OptionResult::Failed(e) && e@
            == ErrorView::MultipleValues(text),
        Selection::Chosen(item) => match r {
            OptionResult::Present(v) => item.log_mar_plus_letters_is(
                letters,
                charts,
                log_mar_of,
                Ok(v),
            ),
            OptionResult::Failed(e) => item.log_mar_plus_letters_is(
                letters,
                charts,
                log_mar_of,
                Err(e),
            ),
            OptionResult::Absent => false,
        },
    }
}

/// The text of the value of a record.
pub fn extract_value(item: &OptionResult<&ParsedItem>, other_observations: &Vec<ParsedItem>) -> (r:
    String)
    ensures
        match *item {
            OptionResult::Present(found) => r@ == found.rendering(),
            OptionResult::Failed(_) => r@ == "Error"@,
            OptionResult::Absent => if other_observations@.len() > 0 {
                r@ == other_observations@[0].rendering()
            } else {
                r@ == Seq::<char>::empty()
            },
        },
{
    match item {
        OptionResult::Present(found) => found.to_text(),
        OptionResult::Failed(_) => "Error".to_owned(),
        OptionResult::Absent => if other_observations.len() > 0 {
            other_observations[0].to_text()
        } else {
            String::new()
        },
    }
}

/// The format of a record.
pub fn get_va_format(
    base_acuity: &OptionResult<&ParsedItem>,
    acuities: &Vec<ParsedItem>,
    other_observations: &Vec<ParsedItem>,
) -> (r: Result<VAFormat, VisualAcuityError>)
    ensures
        match *base_acuity {
            OptionResult::Present(found) => r == Ok::<VAFormat, VisualAcuityError>(
                VAFormat::of(*found),
            ),
            _ => match disambiguated(formats_of(acuities@ + other_observations@)) {
                Ok(v) => r == Ok::<VAFormat, VisualAcuityError>(v),
                Err(text) => r matches Err(VisualAcuityError::MultipleValues(s)) && s@ == text,
            },
        },
{
    match base_acuity {
        OptionResult::Present(found) => Ok(VAFormat::from_item(found)),
        _ => {
            let mut formats: Vec<VAFormat> = Vec::new();
            let mut i: usize = 0;
            while i < acuities.len()
                invariant
                    i <= acuities.len(),
                    formats@.len() == i,
                    forall|k: int| 0 <= k < i ==> formats@[k] == VAFormat::of(acuities@[k]),
                decreases acuities.len() - i,
            {
                formats.push(VAFormat::from_item(&acuities[i]));
                i += 1;
            }
            let mut j: usize = 0;
            while j < other_observations.len()
                invariant
                    j <= other_observations.len(),
                    formats@.len() == acuities@.len() + j,
                    forall|k: int|
                        0 <= k < acuities@.len() ==> formats@[k] == VAFormat::of(acuities@[k]),
                    forall|k: int|
                        0 <= k < j ==> formats@[acuities@.len() + k] == VAFormat::of(
                            other_observations@[k],
                        ),
                decreases other_observations.len() - j,
            {
                formats.push(VAFormat::from_item(&other_observations[j]));
                j += 1;
            }
            assert(formats@ =~= formats_of(acuities@ + other_observations@));
            disambiguate(&formats)
        },
    }
}

impl VisitNote {
    /// Whether two records say the same, texts compared by their
    /// characters and failures by what they say.
    pub open spec fn same(self, other: VisitNote) -> bool {
        &&& self.text@ == other.text@
        &&& self.text_plus@ == other.text_plus@
        &&& self.data_quality == other.data_quality
        &&& self.laterality == other.laterality
        &&& self.distance_of_measurement == other.distance_of_measurement
        &&& self.correction == other.correction
        &&& self.pinhole == other.pinhole
        &&& match (self.va_format, other.va_format) {
            (Ok(a), Ok(b)) => a == b,
            (Err(a), Err(b)) => a@ == b@,
            _ => false,
        }
        &&& self.plus_letters@ == other.plus_letters@
        &&& self.extracted_value@ == other.extracted_value@
        &&& self.snellen_equivalent.same(other.snellen_equivalent)
        &&& self.log_mar_base.same(other.log_mar_base)
        &&& self.log_mar_base_plus_letters.same(other.log_mar_base_plus_letters)
    }

    /// Whether `self` is the record of a field with the metadata
    /// `metadata`, the texts `text` and `text_plus`, in which the
    /// items `items` were read with the data qualities `quality` and
    /// `quality_plus`.
    pub open spec fn describes<L: Fn(u64, u64) -> i64>(
        self,
        metadata: EntryMetadata,
        text: Seq<char>,
        text_plus: Seq<char>,
        quality: DataQuality,
        quality_plus: DataQuality,
        items: Seq<ParsedItem>,
        charts: ChartTable,
        log_mar_of: &L,
    ) -> bool {
        let acuities = crate::visit::sifting::binned(
            items,
            crate::visit::sifting::Bin::Acuity,
            items.len(),
        );
        let others = crate::visit::sifting::binned(
            items,
            crate::visit::sifting::Bin::OtherObservation,
            items.len(),
        );
        let letters = crate::visit::sifting::letters_of(items, items.len());
        let selection = crate::visit::sifting::selected(acuities, others, charts);
        &&& self.text@ == text
        &&& self.text_plus@ == text_plus
        &&& self.laterality == metadata.laterality
        &&& self.distance_of_measurement == metadata.distance_of_measurement
        &&& self.correction == metadata.correction
        &&& self.pinhole == metadata.pinhole
        &&& self.plus_letters@ == letters
        &&& self.data_quality == quality_for(selection, quality, quality_plus, letters.len())
        &&& self.extracted_value@ == value_text(selection, others)
        &&& match format_for(selection, acuities, others) {
            Ok(v) => self.va_format == Ok::<VAFormat, VisualAcuityError>(v),
            Err(t) => self.va_format matches Err(VisualAcuityError::MultipleValues(s)) && s@ == t,
        }
        &&& snellen_for(selection, charts, self.snellen_equivalent)
        &&& log_mar_for(selection, charts, log_mar_of, self.log_mar_base)
        &&& log_mar_plus_for(
            selection,
            letters,
            charts,
            log_mar_of,
            self.log_mar_base_plus_letters,
        )
    }

    /// Where the choice of the primary observation was in conflict, the
    /// format, the Snellen equivalent and both LogMAR values of the
    /// record report the same conflict, and the value of the record is
    /// the word "Error".
    pub proof fn lemma_conflict_is_shared<L: Fn(u64, u64) -> i64>(
        self,
        metadata: EntryMetadata,
        text: Seq<char>,
        text_plus: Seq<char>,
        quality: DataQuality,
        quality_plus: DataQuality,
        items: Seq<ParsedItem>,
        charts: ChartTable,
        log_mar_of: &L,
    )
        requires
            self.describes(
                metadata,
                text,
                text_plus,
                quality,
                quality_plus,
                items,
                charts,
                log_mar_of,
            ),
            crate::visit::sifting::selected(
                crate::visit::sifting::binned(
                    items,
                    crate::visit::sifting::Bin::Acuity,
                    items.len(),
                ),
                crate::visit::sifting::binned(
                    items,
                    crate::visit::sifting::Bin::OtherObservation,
                    items.len(),
                ),
                charts,
            ) is Conflict,
        ensures
            self.va_format is Err,
            self.va_format->Err_0@ is MultipleValues,
            self.snellen_equivalent matches OptionResult::Failed(e) && e@
                == self.va_format->Err_0@,
            self.log_mar_base matches OptionResult::Failed(e) && e@ == self.va_format->Err_0@,
            self.log_mar_base_plus_letters matches OptionResult::Failed(e) && e@
                == self.va_format->Err_0@,
            self.extracted_value@ == "Error"@,
            self.data_quality == DataQuality::Multiple,
    {
    }

    /// Makes the record of one field from its metadata and from the
    /// items that were read in its two texts.
    pub fn new<'a, L: Fn(u64, u64) -> i64>(
        entry_metadata: EntryMetadata,
        parsed_text: Content<'a, ParsedItemCollection>,
        parsed_text_plus: Content<'a, ParsedItemCollection>,
        charts: &ChartTable,
        log_mar_of: &L,
    ) -> (r: Result<VisitNote, VisualAcuityError>)
        requires
            serves_ratios(log_mar_of),
        ensures
            r matches Ok(note) && note.describes(
                entry_metadata,
                parsed_text.input@,
                parsed_text_plus.input@,
                parsed_text.data_quality,
                parsed_text_plus.data_quality,
                parsed_text.content.0@ + parsed_text_plus.content.0@,
                *charts,
                log_mar_of,
            ),
    {
        let quality = parsed_text.data_quality.max(parsed_text_plus.data_quality);
        let text = parsed_text.input.to_owned();
        let text_plus = parsed_text_plus.input.to_owned();
        let ghost items = parsed_text.content.0@ + parsed_text_plus.content.0@;
        let mut all = parsed_text.content.0;
        let mut second = parsed_text_plus.content.0;
        all.append(&mut second);
        assert(all@ =~= items);
        let sifted = SiftedParsedItems::sift(ParsedItemCollection(all));
        let base_acuity = sifted.base_acuity_(charts);
        let extracted_value = extract_value(&base_acuity, &sifted.other_observations);
        let va_format: Result<VAFormat, VisualAcuityError>;
        let snellen_equivalent: OptionResult<Fraction>;
        let log_mar_base: OptionResult<i64>;
        let log_mar_base_plus_letters: OptionResult<i64>;
        let data_quality: DataQuality;
        match base_acuity {
            OptionResult::Present(item) => {
                va_format = Ok(VAFormat::from_item(item));
                snellen_equivalent = OptionResult::from_result(item.snellen_equivalent(charts));
                log_mar_base = OptionResult::from_result(item.log_mar_base(charts, log_mar_of));
                log_mar_base_plus_letters = OptionResult::from_result(
                    item.log_mar_plus_letters(&sifted.plus_letters, charts, log_mar_of),
                );
                data_quality = if sifted.plus_letters.len() > 1 {
                    DataQuality::ConvertibleFuzzy
                } else {
                    quality
                };
            },
            OptionResult::Failed(e) => {
                va_format = Err(e.clone());
                snellen_equivalent = OptionResult::Failed(e.clone());
                log_mar_base = OptionResult::Failed(e.clone());
                log_mar_base_plus_letters = OptionResult::Failed(e);
                data_quality = DataQuality::Multiple;
            },
            OptionResult::Absent => {
                va_format = get_va_format(
                    &OptionResult::Absent,
                    &sifted.acuities,
                    &sifted.other_observations,
                );
                snellen_equivalent = OptionResult::Absent;
                log_mar_base = OptionResult::Absent;
                log_mar_base_plus_letters = OptionResult::Absent;
                data_quality = DataQuality::NoValue;
            },
        }
        Ok(
            VisitNote {
                text,
                text_plus,
                extracted_value,
                data_quality,
                distance_of_measurement: entry_metadata.distance_of_measurement,
                correction: entry_metadata.correction,
                pinhole: entry_metadata.pinhole,
                laterality: entry_metadata.laterality,
                plus_letters: sifted.plus_letters,
                va_format,
                snellen_equivalent,
                log_mar_base,
                log_mar_base_plus_letters,
            },
        )
    }
}

} // verus!
