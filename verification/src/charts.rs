use crate::distanceunits::DistanceUnits;
use crate::structure::Fraction;
use crate::text::{int_text, push_int, push_text, str_eq, trim, trimmed};
use vstd::prelude::*;

verus! {

/// One line of a chart. LogMAR values are whole counts of millionths.
/// `log_mar_derived` says that the LogMAR was not given with the line
/// but derived from its fraction. The three last fields are taken from
/// the neighbouring lines of the chart: the next line is the one
/// numbered one less, the previous line the one numbered one more.
#[derive(PartialEq, Debug)]
pub struct ChartRow {
    pub chart_name: String,
    pub row_number: i8,
    pub fraction: Option<Fraction>,
    pub reference_distance: DistanceUnits,
    pub log_mar: Option<i64>,
    pub log_mar_derived: bool,
    pub n_letters: Option<u8>,
    pub prev_log_mar: Option<i64>,
    pub next_log_mar: Option<i64>,
    pub next_n_letters: Option<u8>,
}

impl Clone for ChartRow {
    fn clone(&self) -> (r: ChartRow)
        ensures
            r.same(*self),
    {
        ChartRow {
            chart_name: self.chart_name.clone(),
            row_number: self.row_number,
            fraction: self.fraction,
            reference_distance: self.reference_distance.clone(),
            log_mar: self.log_mar,
            log_mar_derived: self.log_mar_derived,
            n_letters: self.n_letters,
            prev_log_mar: self.prev_log_mar,
            next_log_mar: self.next_log_mar,
            next_n_letters: self.next_n_letters,
        }
    }
}

impl ChartRow {
    /// Whether two rows hold the same values.
    pub open spec fn same(self, other: ChartRow) -> bool {
        &&& self.chart_name@ == other.chart_name@
        &&& self.row_number == other.row_number
        &&& self.fraction == other.fraction
        &&& self.reference_distance.same(other.reference_distance)
        &&& self.log_mar == other.log_mar
        &&& self.log_mar_derived == other.log_mar_derived
        &&& self.n_letters == other.n_letters
        &&& self.prev_log_mar == other.prev_log_mar
        &&& self.next_log_mar == other.next_log_mar
        &&& self.next_n_letters == other.next_n_letters
    }

    /// The words that name the row in a message: the chart and the
    /// number of the row.
    pub open spec fn description(self) -> Seq<char> {
        self.chart_name@ + " row "@ + int_text(self.row_number as int)
    }

    /// The words that name the row in a message.
    pub fn describe(&self) -> (r: String)
        ensures
            r@ == self.description(),
    {
        let mut out = self.chart_name.clone();
        push_text(&mut out, " row ");
        push_int(&mut out, self.row_number as i64);
        out
    }

    /// Whether two rows hold the same values.
    pub fn is_same(&self, other: &ChartRow) -> (r: bool)
        ensures
            r == self.same(*other),
    {
        self.chart_name == other.chart_name && self.row_number == other.row_number
            && same_fraction(&self.fraction, &other.fraction) && self.reference_distance.is_same(
            &other.reference_distance,
        ) && same_log_mar(&self.log_mar, &other.log_mar) && self.log_mar_derived
            == other.log_mar_derived && same_letters(
            &self.n_letters,
            &other.n_letters,
        ) && same_log_mar(&self.prev_log_mar, &other.prev_log_mar) && same_log_mar(
            &self.next_log_mar,
            &other.next_log_mar,
        ) && same_letters(&self.next_n_letters, &other.next_n_letters)
    }

    /// Looks a row up by its text in all charts, in the order of their
    /// priority. White space around the text is ignored.
    pub fn find<'a>(charts: &'a ChartTable, value: &str) -> (r: Option<&'a ChartRow>)
        ensures
            match r {
                Some(row) => charts.row_for(trimmed(value@)) == Some(*row),
                None => charts.row_for(trimmed(value@)) is None,
            },
    {
        let key = trim(value);
        let mut i: usize = 0;
        while i < charts.charts.len()
            invariant
                i <= charts.charts.len(),
                key@ == trimmed(value@),
                charts.row_from(key@, 0) == charts.row_from(key@, i as int),
            decreases charts.charts.len() - i,
        {
            match charts.charts[i].get_row(key) {
                Some(row) => {
                    return Some(row);
                },
                None => {},
            }
            i += 1;
        }
        None
    }
}

/// Holding the same values is an equivalence.
pub proof fn lemma_same_rows(a: ChartRow, b: ChartRow, c: ChartRow)
    ensures
        a.same(a),
        a.same(b) ==> b.same(a),
        a.same(b) && b.same(c) ==> a.same(c),
{
    crate::distanceunits::lemma_same_distance(
        a.reference_distance,
        b.reference_distance,
        c.reference_distance,
    );
}

/// Whether two optional fractions are the same.
fn same_fraction(a: &Option<Fraction>, b: &Option<Fraction>) -> (r: bool)
    ensures
        r == (*a == *b),
{
    match (a, b) {
        (Some(x), Some(y)) => x.0 == y.0 && x.1 == y.1,
        (None, None) => true,
        _ => false,
    }
}

/// Whether two optional LogMAR values are the same.
fn same_log_mar(a: &Option<i64>, b: &Option<i64>) -> (r: bool)
    ensures
        r == (*a == *b),
{
    match (a, b) {
        (Some(x), Some(y)) => *x == *y,
        (None, None) => true,
        _ => false,
    }
}

/// Whether two optional numbers of letters are the same.
fn same_letters(a: &Option<u8>, b: &Option<u8>) -> (r: bool)
    ensures
        r == (*a == *b),
{
    match (a, b) {
        (Some(x), Some(y)) => *x == *y,
        (None, None) => true,
        _ => false,
    }
}

/// The lines of one chart. A line can be known under several texts.
#[derive(PartialEq, Default, Debug)]
pub struct Chart {
    pub by_row_number: Vec<ChartRow>,
    pub by_text: Vec<(String, ChartRow)>,
}

impl Chart {
    /// The first line from index `from` on that is known under `text`.
    pub open spec fn row_from(self, text: Seq<char>, from: int) -> Option<ChartRow>
        decreases self.by_text@.len() - from,
    {
        if from < 0 || from >= self.by_text@.len() {
            None
        } else if self.by_text@[from].0@ == text {
            Some(self.by_text@[from].1)
        } else {
            self.row_from(text, from + 1)
        }
    }

    /// The line that is known under `text`.
    pub open spec fn row_of(self, text: Seq<char>) -> Option<ChartRow> {
        self.row_from(text, 0)
    }

    /// The line that is known under exactly the text `text`.
    pub fn get_row<'a>(&'a self, text: &str) -> (r: Option<&'a ChartRow>)
        ensures
            match r {
                Some(row) => self.row_of(text@) == Some(*row),
                None => self.row_of(text@) is None,
            },
    {
        let mut i: usize = 0;
        while i < self.by_text.len()
            invariant
                i <= self.by_text.len(),
                self.row_of(text@) == self.row_from(text@, i as int),
            decreases self.by_text.len() - i,
        {
            if str_eq(self.by_text[i].0.as_str(), text) {
                return Some(&self.by_text[i].1);
            }
            i += 1;
        }
        None
    }
}

/// The charts that rows are looked up in, the one with the highest
/// priority first.
#[derive(PartialEq, Default, Debug)]
pub struct ChartTable {
    pub charts: Vec<Chart>,
}

impl ChartTable {
    /// The line that the first chart from index `from` on holds under
    /// `text`.
    pub open spec fn row_from(self, text: Seq<char>, from: int) -> Option<ChartRow>
        decreases self.charts@.len() - from,
    {
        if from < 0 || from >= self.charts@.len() {
            None
        } else if self.charts@[from].row_of(text) is Some {
            self.charts@[from].row_of(text)
        } else {
            self.row_from(text, from + 1)
        }
    }

    /// The line that is meant by `text`: that of the first chart that
    /// holds a line under it.
    pub open spec fn row_for(self, text: Seq<char>) -> Option<ChartRow> {
        self.row_from(text, 0)
    }
}

} // verus!
