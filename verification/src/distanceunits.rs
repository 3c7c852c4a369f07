use crate::errors::VisualAcuityError;
use crate::tabular::{
    chars_of, decimal_between, end_of_digits, find_char, first_at, parse_decimal, skip_digits,
    skip_space, skip_spaces,
};
use vstd::prelude::*;

verus! {

/// A distance with its unit, or a range of distances. The numbers are
/// whole counts of millionths of the unit, so `Feet(1_500_000)` is one
/// foot and a half.
#[derive(Debug, PartialEq, Eq, Hash)]
pub enum DistanceUnits {
    NotProvided,
    Unhandled(String),
    Feet(u64),
    Inches(u64),
    Meters(u64),
    Centimeters(u64),
    FeetRange((u64, u64)),
    InchesRange((u64, u64)),
    MetersRange((u64, u64)),
    CentimetersRange((u64, u64)),
}

impl Clone for DistanceUnits {
    fn clone(&self) -> (r: DistanceUnits)
        ensures
            r.same(*self),
    {
        match self {
            DistanceUnits::NotProvided => DistanceUnits::NotProvided,
            DistanceUnits::Unhandled(s) => DistanceUnits::Unhandled(s.clone()),
            DistanceUnits::Feet(v) => DistanceUnits::Feet(*v),
            DistanceUnits::Inches(v) => DistanceUnits::Inches(*v),
            DistanceUnits::Meters(v) => DistanceUnits::Meters(*v),
            DistanceUnits::Centimeters(v) => DistanceUnits::Centimeters(*v),
            DistanceUnits::FeetRange(b) => DistanceUnits::FeetRange((b.0, b.1)),
            DistanceUnits::InchesRange(b) => DistanceUnits::InchesRange((b.0, b.1)),
            DistanceUnits::MetersRange(b) => DistanceUnits::MetersRange((b.0, b.1)),
            DistanceUnits::CentimetersRange(b) => DistanceUnits::CentimetersRange((b.0, b.1)),
        }
    }
}

/// Being the same distance is an equivalence.
pub proof fn lemma_same_distance(a: DistanceUnits, b: DistanceUnits, c: DistanceUnits)
    ensures
        a.same(a),
        a.same(b) ==> b.same(a),
        a.same(b) && b.same(c) ==> a.same(c),
{
}

impl Default for DistanceUnits {
    fn default() -> (r: DistanceUnits)
        ensures
            r == DistanceUnits::NotProvided,
    {
        DistanceUnits::NotProvided
    }
}

/// The arithmetic mean of two bounds, rounded down to a millionth.
pub open spec fn mean(low: u64, high: u64) -> int {
    (low + high) / 2
}

/// Inches to feet: a twelfth, rounded down to a millionth.
pub open spec fn feet_of_inches(inches: int) -> int {
    inches / 12
}

/// Meters to feet: times 3.28084, rounded down to a millionth.
pub open spec fn feet_of_meters(meters: int) -> int {
    meters * 328084 / 100000
}

/// Centimeters to feet: times 0.0328084, rounded down to a millionth.
pub open spec fn feet_of_centimeters(centimeters: int) -> int {
    centimeters * 328084 / 10000000
}

impl DistanceUnits {
    /// Whether two distances are the same, texts compared by their
    /// characters.
    pub open spec fn same(self, other: DistanceUnits) -> bool {
        match (self, other) {
            (DistanceUnits::Unhandled(a), DistanceUnits::Unhandled(b)) => a@ == b@,
            (DistanceUnits::Unhandled(_), _) => false,
            (_, DistanceUnits::Unhandled(_)) => false,
            _ => self == other,
        }
    }

    /// The distance in millionths of a foot, where the value has a unit.
    /// A range stands for the mean of its bounds.
    pub open spec fn feet(self) -> Option<int> {
        match self {
            DistanceUnits::NotProvided => None,
            DistanceUnits::Unhandled(_) => None,
            DistanceUnits::Feet(v) => Some(v as int),
            DistanceUnits::Inches(v) => Some(feet_of_inches(v as int)),
            DistanceUnits::Meters(v) => Some(feet_of_meters(v as int)),
            DistanceUnits::Centimeters(v) => Some(feet_of_centimeters(v as int)),
            DistanceUnits::FeetRange((low, high)) => Some(mean(low, high)),
            DistanceUnits::InchesRange((low, high)) => Some(feet_of_inches(mean(low, high))),
            DistanceUnits::MetersRange((low, high)) => Some(feet_of_meters(mean(low, high))),
            DistanceUnits::CentimetersRange((low, high)) => Some(
                feet_of_centimeters(mean(low, high)),
            ),
        }
    }

    /// The distance in millionths of a foot, where it has a unit and
    /// the result fits in 64 bits.
    pub open spec fn feet_in_range(self) -> Option<u64> {
        match self.feet() {
            Some(f) => if f <= u64::MAX {
                Some(f as u64)
            } else {
                None
            },
            None => None,
        }
    }

    /// The distance that a text of a chart stands for: a decimal
    /// number, then `cm` or `ft`, with or without white space before
    /// each, and then anything but a line feed.
    pub open spec fn of_text(s: Seq<char>) -> Option<DistanceUnits> {
        let n = s.len() as int;
        let a = skip_space(s, 0, n);
        let b = end_of_digits(s, a, n);
        let c = if b < n && s[b] == '.' {
            end_of_digits(s, b + 1, n)
        } else {
            b
        };
        let u = skip_space(s, c, n);
        if a < b && u + 2 <= n && first_at(s, '\n', u + 2, n) >= n {
            match decimal_between(s, a, c) {
                Some(v) => if v > u64::MAX {
                    None
                } else if s[u] == 'c' && s[u + 1] == 'm' {
                    Some(DistanceUnits::Centimeters(v as u64))
                } else if s[u] == 'f' && s[u + 1] == 't' {
                    Some(DistanceUnits::Feet(v as u64))
                } else {
                    None
                },
                None => None,
            }
        } else {
            None
        }
    }

    /// Reads a distance from a text of a chart.
    pub fn from_str(s: &str) -> (r: Result<DistanceUnits, VisualAcuityError>)
        ensures
            match DistanceUnits::of_text(s@) {
                Some(distance) => r == Ok::<DistanceUnits, VisualAcuityError>(distance),
                None => r matches Err(VisualAcuityError::ParseError(t)) && t@ == s@,
            },
    {
        let chars = chars_of(s);
        let n = chars.len();
        let a = skip_spaces(&chars, 0, n);
        let b = skip_digits(&chars, a, n);
        let c = if b < n && chars[b] == '.' {
            skip_digits(&chars, b + 1, n)
        } else {
            b
        };
        let u = skip_spaces(&chars, c, n);
        if a < b && n - u >= 2 && find_char(&chars, '\n', u + 2, n) >= n {
            match parse_decimal(&chars, a, c) {
                Some(v) => {
                    if chars[u] == 'c' && chars[u + 1] == 'm' {
                        return Ok(DistanceUnits::Centimeters(v));
                    }
                    if chars[u] == 'f' && chars[u + 1] == 't' {
                        return Ok(DistanceUnits::Feet(v));
                    }
                },
                None => {},
            }
        }
        Err(VisualAcuityError::ParseError(s.to_owned()))
    }

    /// Whether no distance was given.
    pub fn is_not_provided(&self) -> (r: bool)
        ensures
            r == (*self == DistanceUnits::NotProvided),
    {
        match self {
            DistanceUnits::NotProvided => true,
            _ => false,
        }
    }

    /// Whether two distances are the same.
    pub fn is_same(&self, other: &DistanceUnits) -> (r: bool)
        ensures
            r == self.same(*other),
    {
        match (self, other) {
            (DistanceUnits::NotProvided, DistanceUnits::NotProvided) => true,
            (DistanceUnits::Unhandled(a), DistanceUnits::Unhandled(b)) => *a == *b,
            (DistanceUnits::Feet(a), DistanceUnits::Feet(b)) => *a == *b,
            (DistanceUnits::Inches(a), DistanceUnits::Inches(b)) => *a == *b,
            (DistanceUnits::Meters(a), DistanceUnits::Meters(b)) => *a == *b,
            (DistanceUnits::Centimeters(a), DistanceUnits::Centimeters(b)) => *a == *b,
            (DistanceUnits::FeetRange(a), DistanceUnits::FeetRange(b)) => a.0 == b.0 && a.1 == b.1,
            (DistanceUnits::InchesRange(a), DistanceUnits::InchesRange(b)) => a.0 == b.0 && a.1
                == b.1,
            (DistanceUnits::MetersRange(a), DistanceUnits::MetersRange(b)) => a.0 == b.0 && a.1
                == b.1,
            (DistanceUnits::CentimetersRange(a), DistanceUnits::CentimetersRange(b)) => a.0 == b.0
                && a.1 == b.1,
            _ => false,
        }
    }

    /// Converts the distance to feet. A value without a unit has no
    /// conversion, nor has one whose conversion does not fit in 64 bits.
    pub fn to_feet(&self) -> (r: Result<u64, VisualAcuityError>)
        ensures
            match self.feet_in_range() {
                Some(f) => r == Ok::<u64, VisualAcuityError>(f),
                None => r matches Err(VisualAcuityError::DistanceConversionError),
            },
    {
        let wide: u128 = match self {
            DistanceUnits::NotProvided => {
                return Err(VisualAcuityError::DistanceConversionError);
            },
            DistanceUnits::Unhandled(_) => {
                return Err(VisualAcuityError::DistanceConversionError);
            },
            DistanceUnits::Feet(v) => *v as u128,
            DistanceUnits::Inches(v) => (*v as u128) / 12,
            DistanceUnits::Meters(v) => (*v as u128) * 328084 / 100000,
            DistanceUnits::Centimeters(v) => (*v as u128) * 328084 / 10000000,
            DistanceUnits::FeetRange(b) => (b.0 as u128 + b.1 as u128) / 2,
            DistanceUnits::InchesRange(b) => (b.0 as u128 + b.1 as u128) / 2 / 12,
            DistanceUnits::MetersRange(b) => (b.0 as u128 + b.1 as u128) / 2 * 328084 / 100000,
            DistanceUnits::CentimetersRange(b) => (b.0 as u128 + b.1 as u128) / 2 * 328084
                / 10000000,
        };
        if wide <= u64::MAX as u128 {
            Ok(wide as u64)
        } else {
            Err(VisualAcuityError::DistanceConversionError)
        }
    }
}

} // verus!
