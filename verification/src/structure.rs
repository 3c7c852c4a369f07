use crate::disambiguation::Category;
use crate::distanceunits::DistanceUnits;
use crate::errors::VisualAcuityError;
use crate::visit::metadata::{Correction, DistanceOfMeasurement, Laterality, PinHole};
use crate::text::{
    digits, int_text, micros_text, push_char, push_digits, push_int, push_micros, push_text,
};
use crate::tabular::{
    chars_of, decimal_between, drop_space, drop_spaces, find_char, first_at, parse_decimal,
    skip_space, skip_spaces,
};
use crate::textmap::precedes_from;
use vstd::prelude::*;

verus! {

/// A Snellen-style fraction. Both parts are whole counts of millionths,
/// so twenty over twelve and a half is `Fraction(20_000_000, 12_500_000)`.
#[derive(Clone, Copy, PartialEq, Eq, Debug, Hash, Structural)]
pub struct Fraction(pub u64, pub u64);

impl Fraction {
    /// The text of the fraction: the numerator, a stroke, the denominator.
    pub open spec fn rendering(self) -> Seq<char> {
        micros_text(self.0 as nat) + seq!['/'] + micros_text(self.1 as nat)
    }

    /// The fraction of two whole numbers.
    pub fn from_whole(numerator: u32, denominator: u32) -> (r: Fraction)
        ensures
            r.0 == numerator * 1_000_000,
            r.1 == denominator * 1_000_000,
    {
        Fraction(numerator as u64 * 1_000_000, denominator as u64 * 1_000_000)
    }

    /// The fraction that a text stands for: two decimal numbers with
    /// a stroke between them, with or without white space around each.
    /// Both numbers must fit in 64 bits as millionths.
    pub open spec fn of_text(s: Seq<char>) -> Option<Fraction> {
        let n = s.len() as int;
        let stroke = first_at(s, '/', 0, n);
        if stroke >= n {
            None
        } else {
            let a = skip_space(s, 0, stroke);
            let b = drop_space(s, a, stroke);
            let c = skip_space(s, stroke + 1, n);
            let d = drop_space(s, c, n);
            match (decimal_between(s, a, b), decimal_between(s, c, d)) {
                (Some(x), Some(y)) => if x <= u64::MAX && y <= u64::MAX {
                    Some(Fraction(x as u64, y as u64))
                } else {
                    None
                },
                _ => None,
            }
        }
    }

    /// Reads a fraction from a text.
    pub fn from_str(s: &str) -> (r: Result<Fraction, VisualAcuityError>)
        ensures
            match Fraction::of_text(s@) {
                Some(fraction) => r == Ok::<Fraction, VisualAcuityError>(fraction),
                None => r matches Err(VisualAcuityError::ParseError(t)) && t@ == s@,
            },
    {
        let chars = chars_of(s);
        let n = chars.len();
        let stroke = find_char(&chars, '/', 0, n);
        if stroke >= n {
            return Err(VisualAcuityError::ParseError(s.to_owned()));
        }
        let a = skip_spaces(&chars, 0, stroke);
        let b = drop_spaces(&chars, a, stroke);
        let c = skip_spaces(&chars, stroke + 1, n);
        let d = drop_spaces(&chars, c, n);
        match (parse_decimal(&chars, a, b), parse_decimal(&chars, c, d)) {
            (Some(x), Some(y)) => Ok(Fraction(x, y)),
            _ => Err(VisualAcuityError::ParseError(s.to_owned())),
        }
    }

    /// The text of the fraction.
    pub fn to_text(&self) -> (r: String)
        ensures
            r@ == self.rendering(),
    {
        let mut out = String::new();
        push_micros(&mut out, self.0 as u128);
        push_char(&mut out, '/');
        push_micros(&mut out, self.1 as u128);
        assert(out@ =~= self.rendering());
        out
    }
}

/// How an eye fixates and follows.
#[derive(Clone, Copy, Debug, PartialEq, Eq, Hash, Structural)]
pub enum FixationPreference {
    CSM,
    CUSM,
    CSUM,
    CUSUM,
    UCSM,
    UCUSM,
    UCSUM,
    UCUSUM,
    FixAndFollow,
    NoFixAndFollow,
    FixNoFollow,
    Prefers,
    Holds,
    Eccentric,
}

impl FixationPreference {
    /// The name of the value.
    pub open spec fn label(self) -> Seq<char> {
        match self {
            FixationPreference::CSM => "CSM"@,
            FixationPreference::CUSM => "CUSM"@,
            FixationPreference::CSUM => "CSUM"@,
            FixationPreference::CUSUM => "CUSUM"@,
            FixationPreference::UCSM => "UCSM"@,
            FixationPreference::UCUSM => "UCUSM"@,
            FixationPreference::UCSUM => "UCSUM"@,
            FixationPreference::UCUSUM => "UCUSUM"@,
            FixationPreference::FixAndFollow => "FixAndFollow"@,
            FixationPreference::NoFixAndFollow => "NoFixAndFollow"@,
            FixationPreference::FixNoFollow => "FixNoFollow"@,
            FixationPreference::Prefers => "Prefers"@,
            FixationPreference::Holds => "Holds"@,
            FixationPreference::Eccentric => "Eccentric"@,
        }
    }

    /// The name of the value, as a text.
    pub fn to_text(&self) -> (r: String)
        ensures
            r@ == self.label(),
    {
        match self {
            FixationPreference::CSM => "CSM".to_owned(),
            FixationPreference::CUSM => "CUSM".to_owned(),
            FixationPreference::CSUM => "CSUM".to_owned(),
            FixationPreference::CUSUM => "CUSUM".to_owned(),
            FixationPreference::UCSM => "UCSM".to_owned(),
            FixationPreference::UCUSM => "UCUSM".to_owned(),
            FixationPreference::UCSUM => "UCSUM".to_owned(),
            FixationPreference::UCUSUM => "UCUSUM".to_owned(),
            FixationPreference::FixAndFollow => "FixAndFollow".to_owned(),
            FixationPreference::NoFixAndFollow => "NoFixAndFollow".to_owned(),
            FixationPreference::FixNoFollow => "FixNoFollow".to_owned(),
            FixationPreference::Prefers => "Prefers".to_owned(),
            FixationPreference::Holds => "Holds".to_owned(),
            FixationPreference::Eccentric => "Eccentric".to_owned(),
        }
    }
}

/// Why no acuity was taken.
#[derive(Clone, Copy, Debug, PartialEq, Eq, Hash, Structural)]
pub enum NotTakenReason {
    NT,
    Unable,
    Refused,
    Sleeping,
    Prosthesis,
    SeeMR,
}

impl NotTakenReason {
    /// The name of the value.
    pub open spec fn label(self) -> Seq<char> {
        match self {
            NotTakenReason::NT => "NT"@,
            NotTakenReason::Unable => "Unable"@,
            NotTakenReason::Refused => "Refused"@,
            NotTakenReason::Sleeping => "Sleeping"@,
            NotTakenReason::Prosthesis => "Prosthesis"@,
            NotTakenReason::SeeMR => "SeeMR"@,
        }
    }

    /// The name of the value, as a text.
    pub fn to_text(&self) -> (r: String)
        ensures
            r@ == self.label(),
    {
        match self {
            NotTakenReason::NT => "NT".to_owned(),
            NotTakenReason::Unable => "Unable".to_owned(),
            NotTakenReason::Refused => "Refused".to_owned(),
            NotTakenReason::Sleeping => "Sleeping".to_owned(),
            NotTakenReason::Prosthesis => "Prosthesis".to_owned(),
            NotTakenReason::SeeMR => "SeeMR".to_owned(),
        }
    }
}

/// The method or notation in which an acuity was recorded.
#[derive(Clone, Copy, Debug, PartialEq, Eq, Hash, Structural)]
pub enum VAFormat {
    Unknown,
    Snellen,
    Jaeger,
    ETDRS,
    Teller,
    NearTotalLoss,
    VisualResponse,
    PinHole,
    Binocular,
    NotTaken,
    CrossReference,
}

impl Default for VAFormat {
    fn default() -> (r: VAFormat)
        ensures
            r == VAFormat::Unknown,
    {
        VAFormat::Unknown
    }
}

impl Category for VAFormat {
    open spec fn order(self) -> nat {
        match self {
            VAFormat::Unknown => 9,
            VAFormat::Snellen => 7,
            VAFormat::Jaeger => 3,
            VAFormat::ETDRS => 2,
            VAFormat::Teller => 8,
            VAFormat::NearTotalLoss => 4,
            VAFormat::VisualResponse => 10,
            VAFormat::PinHole => 6,
            VAFormat::Binocular => 0,
            VAFormat::NotTaken => 5,
            VAFormat::CrossReference => 1,
        }
    }

    open spec fn label(self) -> Seq<char> {
        match self {
            VAFormat::Unknown => "Unknown"@,
            VAFormat::Snellen => "Snellen"@,
            VAFormat::Jaeger => "Jaeger"@,
            VAFormat::ETDRS => "ETDRS"@,
            VAFormat::Teller => "Teller"@,
            VAFormat::NearTotalLoss => "NearTotalLoss"@,
            VAFormat::VisualResponse => "VisualResponse"@,
            VAFormat::PinHole => "PinHole"@,
            VAFormat::Binocular => "Binocular"@,
            VAFormat::NotTaken => "NotTaken"@,
            VAFormat::CrossReference => "CrossReference"@,
        }
    }

    open spec fn fallback() -> VAFormat {
        VAFormat::Unknown
    }

    open spec fn count() -> nat {
        11
    }

    proof fn lemma_order(a: VAFormat, b: VAFormat) {
    }

    proof fn lemma_sorted_by_name(a: VAFormat, b: VAFormat) {
        reveal_strlit("Unknown");
        assert("Unknown"@ =~= seq!['U', 'n', 'k', 'n', 'o', 'w', 'n']);
        reveal_strlit("Snellen");
        assert("Snellen"@ =~= seq!['S', 'n', 'e', 'l', 'l', 'e', 'n']);
        reveal_strlit("Jaeger");
        assert("Jaeger"@ =~= seq!['J', 'a', 'e', 'g', 'e', 'r']);
        reveal_strlit("ETDRS");
        assert("ETDRS"@ =~= seq!['E', 'T', 'D', 'R', 'S']);
        reveal_strlit("Teller");
        assert("Teller"@ =~= seq!['T', 'e', 'l', 'l', 'e', 'r']);
        reveal_strlit("NearTotalLoss");
        assert("NearTotalLoss"@ =~= seq!['N', 'e', 'a', 'r', 'T', 'o', 't', 'a', 'l', 'L', 'o', 's', 's']);
        reveal_strlit("VisualResponse");
        assert("VisualResponse"@ =~= seq!['V', 'i', 's', 'u', 'a', 'l', 'R', 'e', 's', 'p', 'o', 'n', 's', 'e']);
        reveal_strlit("PinHole");
        assert("PinHole"@ =~= seq!['P', 'i', 'n', 'H', 'o', 'l', 'e']);
        reveal_strlit("Binocular");
        assert("Binocular"@ =~= seq!['B', 'i', 'n', 'o', 'c', 'u', 'l', 'a', 'r']);
        reveal_strlit("NotTaken");
        assert("NotTaken"@ =~= seq!['N', 'o', 't', 'T', 'a', 'k', 'e', 'n']);
        reveal_strlit("CrossReference");
        assert("CrossReference"@ =~= seq!['C', 'r', 'o', 's', 's', 'R', 'e', 'f', 'e', 'r', 'e', 'n', 'c', 'e']);
        reveal_with_fuel(precedes_from, 16);
    }

    fn rank(&self) -> (r: u8) {
        match self {
            VAFormat::Unknown => 9,
            VAFormat::Snellen => 7,
            VAFormat::Jaeger => 3,
            VAFormat::ETDRS => 2,
            VAFormat::Teller => 8,
            VAFormat::NearTotalLoss => 4,
            VAFormat::VisualResponse => 10,
            VAFormat::PinHole => 6,
            VAFormat::Binocular => 0,
            VAFormat::NotTaken => 5,
            VAFormat::CrossReference => 1,
        }
    }

    fn total() -> (r: u8) {
        11
    }

    fn unknown() -> (r: VAFormat) {
        VAFormat::Unknown
    }

    fn to_text(&self) -> (r: String) {
        match self {
            VAFormat::Unknown => "Unknown".to_owned(),
            VAFormat::Snellen => "Snellen".to_owned(),
            VAFormat::Jaeger => "Jaeger".to_owned(),
            VAFormat::ETDRS => "ETDRS".to_owned(),
            VAFormat::Teller => "Teller".to_owned(),
            VAFormat::NearTotalLoss => "NearTotalLoss".to_owned(),
            VAFormat::VisualResponse => "VisualResponse".to_owned(),
            VAFormat::PinHole => "PinHole".to_owned(),
            VAFormat::Binocular => "Binocular".to_owned(),
            VAFormat::NotTaken => "NotTaken".to_owned(),
            VAFormat::CrossReference => "CrossReference".to_owned(),
        }
    }
}

/// A distance in millionths of a foot, rounded to the nearest hundredth
/// of a foot, halves upward.
pub open spec fn round_hundredth(feet: int) -> int {
    (feet + 5000) / 10000 * 10000
}

/// One recognised observation of a note.
#[derive(Hash, Clone, Debug, PartialEq, Eq)]
pub enum ParsedItem {
    SnellenFraction(String),
    Jaeger(String),
    Teller(String),
    ETDRS(String),
    NearTotalLoss(String, DistanceUnits),
    VisualResponse(String),
    CrossReferenceItem(String),
    PlusLettersItem(i32),
    NotTakenItem(NotTakenReason),
    DistanceItem(DistanceOfMeasurement),
    LateralityItem(Laterality),
    CorrectionItem(Correction),
    PinHoleItem(PinHole),
    Text(String),
    Unhandled(String),
}

impl ParsedItem {
    /// Whether the item can be the primary acuity of a record.
    pub open spec fn is_base(self) -> bool {
        self is SnellenFraction || self is Jaeger || self is Teller || self is ETDRS
            || self is NearTotalLoss
    }

    /// Whether the item is an observation that is no acuity.
    pub open spec fn is_other_observation(self) -> bool {
        self is VisualResponse || self is CrossReferenceItem || self is NotTakenItem
    }

    /// The canonical text of the item. Plain and unhandled text is not
    /// shown.
    pub open spec fn rendering(self) -> Seq<char> {
        match self {
            ParsedItem::SnellenFraction(s) => s@,
            ParsedItem::Jaeger(s) => s@,
            ParsedItem::Teller(s) => s@,
            ParsedItem::ETDRS(s) => s@,
            ParsedItem::VisualResponse(s) => s@,
            ParsedItem::CrossReferenceItem(s) => s@,
            ParsedItem::PlusLettersItem(n) => if n > 0 {
                seq!['+'] + digits(n as nat)
            } else {
                int_text(n as int)
            },
            ParsedItem::NearTotalLoss(method, distance) => match distance.feet_in_range() {
                Some(feet) => method@ + " @ "@ + micros_text(round_hundredth(feet as int) as nat)
                    + " feet"@,
                None => method@,
            },
            ParsedItem::NotTakenItem(reason) => reason.label(),
            ParsedItem::DistanceItem(d) => d.label(),
            ParsedItem::LateralityItem(l) => l.label(),
            ParsedItem::CorrectionItem(c) => c.label(),
            ParsedItem::PinHoleItem(p) => p.label(),
            ParsedItem::Text(_) => "[text]"@,
            ParsedItem::Unhandled(_) => "[text]"@,
        }
    }

    /// The text under which the item is looked up in the charts, where
    /// the item is of a kind that a chart can hold.
    pub open spec fn row_key(self) -> Option<Seq<char>> {
        match self {
            ParsedItem::SnellenFraction(s) => Some(s@),
            ParsedItem::ETDRS(s) => Some(s@),
            ParsedItem::Teller(s) => Some(s@),
            ParsedItem::Jaeger(s) => Some(s@),
            ParsedItem::NearTotalLoss(s, _) => Some(s@),
            _ => None,
        }
    }

    /// The distance at which the observation was made.
    pub open spec fn distance(self) -> DistanceUnits {
        match self {
            ParsedItem::NearTotalLoss(_, distance) => distance,
            _ => DistanceUnits::NotProvided,
        }
    }

    /// Whether the item can be the primary acuity of a record.
    pub fn can_be_base(&self) -> (r: bool)
        ensures
            r == self.is_base(),
    {
        match self {
            ParsedItem::SnellenFraction(_) => true,
            ParsedItem::Jaeger(_) => true,
            ParsedItem::Teller(_) => true,
            ParsedItem::ETDRS(_) => true,
            ParsedItem::NearTotalLoss(_, _) => true,
            _ => false,
        }
    }

    /// The canonical text of the item.
    pub fn to_text(&self) -> (r: String)
        ensures
            r@ == self.rendering(),
    {
        match self {
            ParsedItem::SnellenFraction(s) => s.clone(),
            ParsedItem::Jaeger(s) => s.clone(),
            ParsedItem::Teller(s) => s.clone(),
            ParsedItem::ETDRS(s) => s.clone(),
            ParsedItem::VisualResponse(s) => s.clone(),
            ParsedItem::CrossReferenceItem(s) => s.clone(),
            ParsedItem::PlusLettersItem(n) => {
                let mut out = String::new();
                if *n > 0 {
                    push_char(&mut out, '+');
                    push_digits(&mut out, *n as u128);
                } else {
                    push_int(&mut out, *n as i64);
                }
                assert(out@ =~= self.rendering());
                out
            },
            ParsedItem::NearTotalLoss(method, distance) => match distance.to_feet() {
                Ok(feet) => {
                    let mut out = method.clone();
                    push_text(&mut out, " @ ");
                    let rounded: u128 = (feet as u128 + 5000) / 10000 * 10000;
                    push_micros(&mut out, rounded);
                    push_text(&mut out, " feet");
                    assert(out@ =~= self.rendering());
                    out
                },
                Err(_) => method.clone(),
            },
            ParsedItem::NotTakenItem(reason) => reason.to_text(),
            ParsedItem::DistanceItem(d) => d.to_text(),
            ParsedItem::LateralityItem(l) => l.to_text(),
            ParsedItem::CorrectionItem(c) => c.to_text(),
            ParsedItem::PinHoleItem(p) => p.to_text(),
            ParsedItem::Text(_) => "[text]".to_owned(),
            ParsedItem::Unhandled(_) => "[text]".to_owned(),
        }
    }

    /// The text under which the item is looked up in the charts. An
    /// item of a kind that no chart holds has no Snellen equivalent.
    pub fn chart_row_key(&self) -> (r: Result<String, VisualAcuityError>)
        ensures
            match self.row_key() {
                Some(key) => r matches Ok(s) && s@ == key,
                None => r matches Err(VisualAcuityError::NoSnellenEquivalent(s)) && s@
                    == self.rendering(),
            },
    {
        match self {
            ParsedItem::SnellenFraction(s) => Ok(s.clone()),
            ParsedItem::ETDRS(s) => Ok(s.clone()),
            ParsedItem::Teller(s) => Ok(s.clone()),
            ParsedItem::Jaeger(s) => Ok(s.clone()),
            ParsedItem::NearTotalLoss(s, _) => Ok(s.clone()),
            _ => Err(VisualAcuityError::NoSnellenEquivalent(self.to_text())),
        }
    }

    /// The distance at which the observation was made: the one that a
    /// near-total-loss item carries, and else none.
    pub fn measurement_distance(&self) -> (r: DistanceUnits)
        ensures
            r.same(self.distance()),
    {
        match self {
            ParsedItem::NearTotalLoss(_, distance) => distance.clone(),
            _ => DistanceUnits::NotProvided,
        }
    }
}

/// The observations of one note, in the order in which they were read.
#[derive(PartialEq, Clone, Debug, Default)]
pub struct ParsedItemCollection(pub Vec<ParsedItem>);

impl ParsedItemCollection {
    /// The number of items.
    pub fn len(&self) -> (r: usize)
        ensures
            r == self.0@.len(),
    {
        self.0.len()
    }

    /// The items in their order.
    pub fn iter(&self) -> (r: &Vec<ParsedItem>)
        ensures
            r@ == self.0@,
    {
        &self.0
    }
}

impl VAFormat {
    /// The format that an item is written in.
    pub open spec fn of(item: ParsedItem) -> VAFormat {
        match item {
            ParsedItem::SnellenFraction(_) => VAFormat::Snellen,
            ParsedItem::Jaeger(_) => VAFormat::Jaeger,
            ParsedItem::Teller(_) => VAFormat::Teller,
            ParsedItem::ETDRS(_) => VAFormat::ETDRS,
            ParsedItem::NearTotalLoss(_, _) => VAFormat::NearTotalLoss,
            ParsedItem::VisualResponse(_) => VAFormat::VisualResponse,
            ParsedItem::PinHoleItem(_) => VAFormat::PinHole,
            ParsedItem::NotTakenItem(_) => VAFormat::NotTaken,
            ParsedItem::CrossReferenceItem(_) => VAFormat::CrossReference,
            _ => VAFormat::Unknown,
        }
    }

    /// The format that an item is written in.
    pub fn from_item(item: &ParsedItem) -> (r: VAFormat)
        ensures
            r == VAFormat::of(*item),
    {
        match item {
            ParsedItem::SnellenFraction(_) => VAFormat::Snellen,
            ParsedItem::Jaeger(_) => VAFormat::Jaeger,
            ParsedItem::Teller(_) => VAFormat::Teller,
            ParsedItem::ETDRS(_) => VAFormat::ETDRS,
            ParsedItem::NearTotalLoss(_, _) => VAFormat::NearTotalLoss,
            ParsedItem::VisualResponse(_) => VAFormat::VisualResponse,
            ParsedItem::PinHoleItem(_) => VAFormat::PinHole,
            ParsedItem::NotTakenItem(_) => VAFormat::NotTaken,
            ParsedItem::CrossReferenceItem(_) => VAFormat::CrossReference,
            _ => VAFormat::Unknown,
        }
    }
}

impl From<ParsedItem> for VAFormat {
    fn from(value: ParsedItem) -> (r: VAFormat) {
        VAFormat::from_item(&value)
    }
}

impl vstd::std_specs::convert::FromSpecImpl<ParsedItem> for VAFormat {
    open spec fn obeys_from_spec() -> bool {
        true
    }

    open spec fn from_spec(value: ParsedItem) -> VAFormat {
        VAFormat::of(value)
    }
}

} // verus!
