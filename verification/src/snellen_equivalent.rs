use crate::charts::{ChartRow, ChartTable};
use crate::distanceunits::DistanceUnits;
use crate::errors::VisualAcuityError;
use crate::structure::{Fraction, ParsedItem};
use crate::text::{push_text, trimmed};
use vstd::prelude::*;

verus! {

/// The denominator of a chart fraction, read at `feet` where the chart
/// was made for `reference_feet`: the denominator times the reference
/// distance over the distance of the reading, cut down to a whole
/// number. All three are in millionths, and so is the result.
pub open spec fn scaled_denominator(denominator: u64, reference_feet: u64, feet: u64) -> int
    recommends
        feet > 0,
{
    (denominator * reference_feet) / (feet as int) / 1_000_000 * 1_000_000
}

impl ChartRow {
    /// The fraction of the row, where it has one that needs no distance.
    pub open spec fn own_fraction(self) -> Option<Fraction> {
        match self.fraction {
            Some(fraction) => if self.reference_distance == DistanceUnits::NotProvided {
                Some(fraction)
            } else {
                None
            },
            None => None,
        }
    }

    /// The text of the failure to give a Snellen equivalent for the row.
    pub open spec fn no_equivalent_text(self) -> Seq<char> {
        if self.fraction is Some {
            "Measurement distance required! "@ + self.description()
        } else {
            self.description()
        }
    }

    /// The Snellen equivalent of the row by itself: its fraction, unless
    /// the row has none or is bound to a reference distance.
    pub fn snellen_equivalent(&self) -> (r: Result<Fraction, VisualAcuityError>)
        ensures
            match self.own_fraction() {
                Some(fraction) => r == Ok::<Fraction, VisualAcuityError>(fraction),
                None => r matches Err(VisualAcuityError::NoSnellenEquivalent(s)) && s@
                    == self.no_equivalent_text(),
            },
    {
        match self.fraction {
            Some(fraction) => {
                if self.reference_distance.is_not_provided() {
                    Ok(fraction)
                } else {
                    let mut text = "Measurement distance required! ".to_owned();
                    let name = self.describe();
                    push_text(&mut text, name.as_str());
                    Err(VisualAcuityError::NoSnellenEquivalent(text))
                }
            },
            None => Err(VisualAcuityError::NoSnellenEquivalent(self.describe())),
        }
    }
}

impl ParsedItem {
    /// The chart row that the item stands for.
    pub open spec fn chart_row(self, charts: ChartTable) -> Option<ChartRow> {
        match self.row_key() {
            Some(key) => charts.row_for(trimmed(key)),
            None => None,
        }
    }

    /// The Snellen equivalent of the item: the fraction of its chart
    /// row, with the denominator scaled where the row is bound to a
    /// reference distance.
    pub open spec fn snellen(self, charts: ChartTable) -> Option<Fraction> {
        match self.chart_row(charts) {
            Some(row) => match row.fraction {
                Some(fraction) => if row.reference_distance == DistanceUnits::NotProvided {
                    Some(fraction)
                } else {
                    match (self.distance().feet_in_range(), row.reference_distance.feet_in_range()) {
                        (Some(feet), Some(reference_feet)) => if feet > 0 && scaled_denominator(
                            fraction.1,
                            reference_feet,
                            feet,
                        ) <= u64::MAX {
                            Some(
                                Fraction(
                                    fraction.0,
                                    scaled_denominator(fraction.1, reference_feet, feet) as u64,
                                ),
                            )
                        } else {
                            None
                        },
                        _ => None,
                    }
                },
                None => None,
            },
            None => None,
        }
    }

    /// The chart row that the item stands for. An item of a kind that
    /// no chart holds has no Snellen equivalent; one whose text no
    /// chart holds has no row.
    pub fn find_chart_row<'a>(&self, charts: &'a ChartTable) -> (r: Result<
        &'a ChartRow,
        VisualAcuityError,
    >)
        ensures
            match self.row_key() {
                None => r matches Err(VisualAcuityError::NoSnellenEquivalent(s)) && s@
                    == self.rendering(),
                Some(key) => match charts.row_for(trimmed(key)) {
                    Some(row) => r matches Ok(found) && *found == row,
                    None => r matches Err(VisualAcuityError::ChartRowNotFound(s)) && s@ == key,
                },
            },
    {
        match self.chart_row_key() {
            Ok(key) => match ChartRow::find(charts, key.as_str()) {
                Some(row) => Ok(row),
                None => Err(VisualAcuityError::ChartRowNotFound(key)),
            },
            Err(e) => Err(e),
        }
    }

    /// The distance of the reading in millionths of a foot.
    pub fn measured_feet(&self) -> (r: Option<u64>)
        ensures
            r == self.distance().feet_in_range(),
    {
        match self {
            ParsedItem::NearTotalLoss(_, distance) => match distance.to_feet() {
                Ok(feet) => Some(feet),
                Err(_) => None,
            },
            _ => None,
        }
    }

    /// The Snellen equivalent of the item. There is none where no chart
    /// row is found, where the row has no fraction, where a distance
    /// that is needed has no conversion to feet or is zero, and where
    /// the scaled denominator does not fit in 64 bits.
    pub fn snellen_equivalent(&self, charts: &ChartTable) -> (r: Result<
        Fraction,
        VisualAcuityError,
    >)
        ensures
            match self.snellen(*charts) {
                Some(fraction) => r == Ok::<Fraction, VisualAcuityError>(fraction),
                None => r matches Err(VisualAcuityError::NoSnellenEquivalent(s)) && s@
                    == self.rendering(),
            },
    {
        match self.find_chart_row(charts) {
            Ok(row) => match row.fraction {
                Some(fraction) => {
                    if row.reference_distance.is_not_provided() {
                        return Ok(fraction);
                    }
                    match (self.measured_feet(), row.reference_distance.to_feet()) {
                        (Some(feet), Ok(reference_feet)) => {
                            if feet > 0 {
                                assert(fraction.1 * reference_feet <= u64::MAX * u64::MAX)
                                    by (nonlinear_arith);
                                let product: u128 = fraction.1 as u128 * reference_feet as u128;
                                let whole: u128 = product / (feet as u128) / 1_000_000;
                                assert(whole * 1_000_000 == scaled_denominator(
                                    fraction.1,
                                    reference_feet,
                                    feet,
                                )) by (nonlinear_arith)
                                    requires
                                        feet > 0,
                                        product == fraction.1 * reference_feet,
                                        whole == product / (feet as u128) / 1_000_000,
                                ;
                                if whole <= 18_446_744_073_709u128 {
                                    return Ok(Fraction(fraction.0, (whole * 1_000_000) as u64));
                                }
                            }
                            Err(VisualAcuityError::NoSnellenEquivalent(self.to_text()))
                        },
                        _ => Err(VisualAcuityError::NoSnellenEquivalent(self.to_text())),
                    }
                },
                None => Err(VisualAcuityError::NoSnellenEquivalent(self.to_text())),
            },
            Err(_) => Err(VisualAcuityError::NoSnellenEquivalent(self.to_text())),
        }
    }
}

} // verus!
