use crate::charts::{ChartRow, ChartTable};
use crate::distanceunits::DistanceUnits;
use crate::errors::VisualAcuityError;
use crate::structure::{Fraction, ParsedItem};
use crate::text::{push_text, trimmed};
use vstd::prelude::*;

verus! {

/// What the library asks of the function that supplies logarithms:
/// that it can be called on every ratio of two positive numbers. For a
/// numerator and a denominator in millionths, the function is to give
/// the LogMAR of their ratio, minus the logarithm to base ten of
/// numerator over denominator, in millionths.
pub open spec fn serves_ratios<L: Fn(u64, u64) -> i64>(log_mar_of: &L) -> bool {
    forall|n: u64, d: u64| n > 0 && d > 0 ==> #[trigger] log_mar_of.requires((n, d))
}

/// Whether a number fits in 64 bits with a sign.
pub open spec fn fits(v: int) -> bool {
    i64::MIN <= v <= i64::MAX
}

/// A LogMAR in millionths, rounded to the nearest tenth, halves away
/// from zero.
pub open spec fn round_tenth(v: int) -> int {
    if v >= 0 {
        (v + 50_000) / 100_000 * 100_000
    } else {
        -((-v + 50_000) / 100_000 * 100_000)
    }
}

/// The quotient of `a` by a positive `b`, rounded toward zero.
pub open spec fn toward_zero(a: int, b: int) -> int
    recommends
        b > 0,
{
    if a >= 0 {
        a / b
    } else {
        -((-a) / b)
    }
}

/// The LogMAR that is derived from a fraction, given the logarithm
/// `raw`: `raw` itself, or `raw` rounded to a tenth where `rounds` is
/// set. It is missing where it does not fit in 64 bits.
pub open spec fn derived_value(rounds: bool, raw: i64) -> Option<i64> {
    let v = if rounds {
        round_tenth(raw as int)
    } else {
        raw as int
    };
    if fits(v) {
        Some(v as i64)
    } else {
        None
    }
}

/// The LogMAR `base` moved by `adjustment`, where the sum fits in 64
/// bits.
pub open spec fn scaled_value(base: i64, adjustment: i64) -> Option<i64> {
    if fits(base + adjustment) {
        Some((base + adjustment) as i64)
    } else {
        None
    }
}

/// The state of a LogMAR while letters are added to it.
pub enum Running {
    Value(int),
    MissingNext,
    MissingPrevious,
    OutOfRange,
}

/// `raw`, rounded to a tenth where `rounds` is set.
pub fn derive_log_mar(rounds: bool, raw: i64) -> (r: Result<i64, VisualAcuityError>)
    ensures
        match derived_value(rounds, raw) {
            Some(v) => r == Ok::<i64, VisualAcuityError>(v),
            None => r matches Err(VisualAcuityError::NotImplemented),
        },
{
    if !rounds {
        return Ok(raw);
    }
    if raw >= 0 {
        let tenths: i128 = (raw as i128 + 50_000) / 100_000;
        let v: i128 = tenths * 100_000;
        if v <= i64::MAX as i128 {
            Ok(v as i64)
        } else {
            Err(VisualAcuityError::NotImplemented)
        }
    } else {
        let tenths: i128 = (-(raw as i128) + 50_000) / 100_000;
        let v: i128 = -(tenths * 100_000);
        if v >= i64::MIN as i128 {
            Ok(v as i64)
        } else {
            Err(VisualAcuityError::NotImplemented)
        }
    }
}

/// `base` moved by `adjustment`.
pub fn scale_log_mar(base: i64, adjustment: i64) -> (r: Result<i64, VisualAcuityError>)
    ensures
        match scaled_value(base, adjustment) {
            Some(v) => r == Ok::<i64, VisualAcuityError>(v),
            None => r matches Err(VisualAcuityError::NotImplemented),
        },
{
    let sum: i128 = base as i128 + adjustment as i128;
    if sum >= i64::MIN as i128 && sum <= i64::MAX as i128 {
        Ok(sum as i64)
    } else {
        Err(VisualAcuityError::NotImplemented)
    }
}

impl Fraction {
    /// Whether `r` is the LogMAR of the fraction: zero where numerator
    /// and denominator are equal, and else what `log_mar_of` gives for
    /// them. A fraction with one part zero has none.
    pub open spec fn log_mar_is<L: Fn(u64, u64) -> i64>(
        self,
        log_mar_of: &L,
        r: Result<i64, VisualAcuityError>,
    ) -> bool {
        if self.0 == self.1 {
            r == Ok::<i64, VisualAcuityError>(0)
        } else if self.0 == 0 || self.1 == 0 {
            r matches Err(VisualAcuityError::NotImplemented)
        } else {
            r matches Ok(v) && log_mar_of.ensures((self.0, self.1), v)
        }
    }

    /// The LogMAR of the fraction.
    pub fn log_mar_base<L: Fn(u64, u64) -> i64>(&self, log_mar_of: &L) -> (r: Result<
        i64,
        VisualAcuityError,
    >)
        requires
            serves_ratios(log_mar_of),
        ensures
            self.log_mar_is(log_mar_of, r),
    {
        if self.0 == self.1 {
            Ok(0)
        } else if self.0 == 0 || self.1 == 0 {
            Err(VisualAcuityError::NotImplemented)
        } else {
            Ok(log_mar_of(self.0, self.1))
        }
    }
}

impl ChartRow {
    /// Whether `r` is the LogMAR of the row: its own, or else the one
    /// of its fraction. A row without both, or with a fraction that is
    /// bound to a reference distance, has none.
    pub open spec fn log_mar_base_is<L: Fn(u64, u64) -> i64>(
        self,
        log_mar_of: &L,
        r: Result<i64, VisualAcuityError>,
    ) -> bool {
        match self.log_mar {
            Some(own) => r == Ok::<i64, VisualAcuityError>(own),
            None => match self.own_fraction() {
                Some(fraction) => fraction.log_mar_is(log_mar_of, r),
                None => r matches Err(VisualAcuityError::NotImplemented),
            },
        }
    }

    /// What one count of letters adds to the LogMAR of the row, in
    /// millionths: the count times the step to the next row over the
    /// letters of the next row, where the count is positive; the count
    /// times the step from the previous row over the letters of this
    /// row, where it is not. The quotient is rounded toward zero. It is
    /// missing where a value that it needs is, or a letter count is 0.
    pub open spec fn letter_step(self, delta: i32) -> Option<int> {
        if delta > 0 {
            match (self.next_log_mar, self.log_mar, self.next_n_letters) {
                (Some(next), Some(own), Some(letters)) => if letters > 0 {
                    Some(toward_zero(delta * (next - own), letters as int))
                } else {
                    None
                },
                _ => None,
            }
        } else {
            match (self.log_mar, self.prev_log_mar, self.n_letters) {
                (Some(own), Some(previous), Some(letters)) => if letters > 0 {
                    Some(toward_zero(delta * (own - previous), letters as int))
                } else {
                    None
                },
                _ => None,
            }
        }
    }

    /// The LogMAR `base` after the first `upto` counts of `deltas` were
    /// added in their order. The first count whose step is missing, or
    /// whose sum does not fit in 64 bits, ends the adding.
    pub open spec fn with_letters(self, base: i64, deltas: Seq<i32>, upto: nat) -> Running
        decreases upto,
    {
        if upto == 0 {
            Running::Value(base as int)
        } else {
            match self.with_letters(base, deltas, (upto - 1) as nat) {
                Running::Value(sum) => match self.letter_step(deltas[upto - 1]) {
                    Some(step) => if fits(sum + step) {
                        Running::Value(sum + step)
                    } else {
                        Running::OutOfRange
                    },
                    None => if deltas[upto - 1] > 0 {
                        Running::MissingNext
                    } else {
                        Running::MissingPrevious
                    },
                },
                other => other,
            }
        }
    }

    /// Whether `r` reports the state `state`.
    pub open spec fn reports(self, state: Running, r: Result<i64, VisualAcuityError>) -> bool {
        match state {
            Running::Value(sum) => r matches Ok(v) && v == sum,
            Running::MissingNext => r matches Err(VisualAcuityError::LogMarInvalidSnellenRow(s))
                && s@ == "Missing next row values: "@ + self.description(),
            Running::MissingPrevious => r matches Err(
                VisualAcuityError::LogMarInvalidSnellenRow(s),
            ) && s@ == "Missing previous row values: "@ + self.description(),
            Running::OutOfRange => r matches Err(VisualAcuityError::LogMarInvalidPlusLetters(s))
                && s@ == "Out of range: "@ + self.description(),
        }
    }

    /// Whether `r` is the LogMAR of the row with the letters `deltas`.
    pub open spec fn log_mar_plus_letters_is<L: Fn(u64, u64) -> i64>(
        self,
        deltas: Seq<i32>,
        log_mar_of: &L,
        r: Result<i64, VisualAcuityError>,
    ) -> bool {
        if deltas.len() == 0 {
            self.log_mar_base_is(log_mar_of, r)
        } else {
            match self.log_mar {
                Some(own) => self.reports(self.with_letters(own, deltas, deltas.len()), r),
                None => match self.own_fraction() {
                    Some(fraction) => if fraction.0 != fraction.1 && (fraction.0 == 0 || fraction.1
                        == 0) {
                        r matches Err(VisualAcuityError::NotImplemented)
                    } else if deltas[0] > 0 {
                        self.reports(Running::MissingNext, r)
                    } else {
                        self.reports(Running::MissingPrevious, r)
                    },
                    None => r matches Err(VisualAcuityError::NotImplemented),
                },
            }
        }
    }

    /// The LogMAR of the row.
    pub fn log_mar_base<L: Fn(u64, u64) -> i64>(&self, log_mar_of: &L) -> (r: Result<
        i64,
        VisualAcuityError,
    >)
        requires
            serves_ratios(log_mar_of),
        ensures
            self.log_mar_base_is(log_mar_of, r),
    {
        match self.log_mar {
            Some(own) => Ok(own),
            None => match self.snellen_equivalent() {
                Ok(fraction) => fraction.log_mar_base(log_mar_of),
                Err(_) => Err(VisualAcuityError::NotImplemented),
            },
        }
    }

    /// What one count of letters adds to the LogMAR of the row.
    pub fn step_for(&self, delta: i32) -> (r: Option<i128>)
        ensures
            match self.letter_step(delta) {
                Some(step) => r == Some(step as i128) && -0x1_0000_0000_0000_0000_0000_0000 < step
                    < 0x1_0000_0000_0000_0000_0000_0000,
                None => r is None,
            },
    {
        let (from, to, letters) = if delta > 0 {
            match (self.next_log_mar, self.log_mar, self.next_n_letters) {
                (Some(next), Some(own), Some(letters)) => (own, next, letters),
                _ => {
                    return None;
                },
            }
        } else {
            match (self.log_mar, self.prev_log_mar, self.n_letters) {
                (Some(own), Some(previous), Some(letters)) => (previous, own, letters),
                _ => {
                    return None;
                },
            }
        };
        if letters == 0 {
            return None;
        }
        let span: i128 = to as i128 - from as i128;
        assert(-0x1_0000_0000_0000_0000_0000_0000 < delta * span
            < 0x1_0000_0000_0000_0000_0000_0000) by (nonlinear_arith)
            requires
                -0x8000_0000 <= delta < 0x8000_0000,
                -0x1_0000_0000_0000_0000 < span < 0x1_0000_0000_0000_0000,
        ;
        let product: i128 = delta as i128 * span;
        if product >= 0 {
            let q: u128 = (product as u128) / (letters as u128);
            assert(q <= product) by (nonlinear_arith)
                requires
                    q == (product as int) / (letters as int),
                    product >= 0,
                    letters > 0,
            ;
            Some(q as i128)
        } else {
            let q: u128 = ((-product) as u128) / (letters as u128);
            assert(q <= -product) by (nonlinear_arith)
                requires
                    q == ((-product) as int) / (letters as int),
                    product < 0,
                    letters > 0,
            ;
            Some(-(q as i128))
        }
    }

    /// The failure for a row that lacks what a count of letters needs.
    fn missing(&self, next: bool) -> (r: VisualAcuityError)
        ensures
            next ==> self.reports(Running::MissingNext, Err(r)),
            !next ==> self.reports(Running::MissingPrevious, Err(r)),
    {
        let mut text = if next {
            "Missing next row values: ".to_owned()
        } else {
            "Missing previous row values: ".to_owned()
        };
        let name = self.describe();
        push_text(&mut text, name.as_str());
        VisualAcuityError::LogMarInvalidSnellenRow(text)
    }

    /// The failure for a LogMAR that does not fit in 64 bits.
    fn out_of_range(&self) -> (r: VisualAcuityError)
        ensures
            self.reports(Running::OutOfRange, Err(r)),
    {
        let mut text = "Out of range: ".to_owned();
        let name = self.describe();
        push_text(&mut text, name.as_str());
        VisualAcuityError::LogMarInvalidPlusLetters(text)
    }

    /// Adds the letters `deltas`, in their order, to the LogMAR `base`.
    pub fn add_plus_letters(&self, base: i64, deltas: &Vec<i32>) -> (r: Result<
        i64,
        VisualAcuityError,
    >)
        ensures
            self.reports(self.with_letters(base, deltas@, deltas@.len()), r),
    {
        let mut sum: i64 = base;
        let mut i: usize = 0;
        while i < deltas.len()
            invariant
                i <= deltas.len(),
                self.with_letters(base, deltas@, i as nat) == Running::Value(sum as int),
            decreases deltas.len() - i,
        {
            match self.step_for(deltas[i]) {
                Some(step) => {
                    let next: i128 = sum as i128 + step;
                    if next < i64::MIN as i128 || next > i64::MAX as i128 {
                        proof {
                            lemma_with_letters_stays(*self, base, deltas@, (i + 1) as nat);
                        }
                        return Err(self.out_of_range());
                    }
                    sum = next as i64;
                },
                None => {
                    proof {
                        lemma_with_letters_stays(*self, base, deltas@, (i + 1) as nat);
                    }
                    return Err(self.missing(deltas[i] > 0));
                },
            }
            i += 1;
        }
        Ok(sum)
    }

    /// The LogMAR of the row with the letters `deltas`: the LogMAR of
    /// the row where there are none, and else the row's own LogMAR
    /// with each count of letters added in its turn.
    pub fn with_plus_letters<L: Fn(u64, u64) -> i64>(
        &self,
        plus_letters: &Vec<i32>,
        log_mar_of: &L,
    ) -> (r: Result<i64, VisualAcuityError>)
        requires
            serves_ratios(log_mar_of),
        ensures
            self.log_mar_plus_letters_is(plus_letters@, log_mar_of, r),
    {
        if plus_letters.len() == 0 {
            return self.log_mar_base(log_mar_of);
        }
        match self.log_mar_base(log_mar_of) {
            Ok(base) => {
                proof {
                    if self.log_mar is None {
                        assert(self.letter_step(plus_letters@[0]) is None);
                        reveal_with_fuel(ChartRow::with_letters, 2);
                        lemma_with_letters_stays(*self, base, plus_letters@, 1);
                    }
                }
                self.add_plus_letters(base, plus_letters)
            },
            Err(e) => Err(e),
        }
    }
}

/// Where `y` is at least a whole `n` above `x`, its quotient by `n` is
/// greater.
proof fn lemma_quotient_gap(x: int, y: int, n: int)
    requires
        0 <= x,
        x + n <= y,
        n > 0,
    ensures
        0 <= x / n < y / n,
{
    vstd::arithmetic::div_mod::lemma_div_pos_is_pos(x, n);
    vstd::arithmetic::div_mod::lemma_div_plus_one(x, n);
    vstd::arithmetic::div_mod::lemma_div_is_ordered(n + x, y, n);
}

/// The more letters are read toward the next line, the lower the
/// LogMAR: of two positive counts of letters the greater one takes
/// more off. This holds where the row knows its own LogMAR, a lower
/// LogMAR of the next line and the letters of that line, and where a
/// letter is worth a millionth at least.
pub proof fn lemma_more_letters_lower(row: ChartRow, fewer: i32, more: i32)
    requires
        row.log_mar is Some,
        row.next_log_mar is Some,
        row.next_n_letters is Some,
        row.next_n_letters->Some_0 > 0,
        row.log_mar->Some_0 - row.next_log_mar->Some_0 >= row.next_n_letters->Some_0,
        0 < fewer < more,
    ensures
        row.letter_step(fewer) is Some,
        row.letter_step(more) is Some,
        row.letter_step(more)->Some_0 < row.letter_step(fewer)->Some_0 < 0,
{
    let gap = row.log_mar->Some_0 - row.next_log_mar->Some_0;
    let n = row.next_n_letters->Some_0 as int;
    assert(fewer * (row.next_log_mar->Some_0 - row.log_mar->Some_0) == -(fewer * gap))
        by (nonlinear_arith)
        requires
            gap == row.log_mar->Some_0 - row.next_log_mar->Some_0,
    ;
    assert(more * (row.next_log_mar->Some_0 - row.log_mar->Some_0) == -(more * gap))
        by (nonlinear_arith)
        requires
            gap == row.log_mar->Some_0 - row.next_log_mar->Some_0,
    ;
    assert(fewer * gap + n <= more * gap && fewer * gap >= n) by (nonlinear_arith)
        requires
            0 < fewer < more,
            gap >= n,
            n > 0,
    ;
    lemma_quotient_gap(fewer * gap, more * gap, n);
    lemma_quotient_gap(0, fewer * gap, n);
}

/// The more letters are missed, the higher the LogMAR: of two
/// negative counts of letters the one further from zero adds more.
/// This holds where the row knows its own LogMAR, a higher LogMAR of
/// the previous line and its own letters, and where a letter is worth
/// a millionth at least.
pub proof fn lemma_more_missed_letters_higher(row: ChartRow, fewer: i32, more: i32)
    requires
        row.log_mar is Some,
        row.prev_log_mar is Some,
        row.n_letters is Some,
        row.n_letters->Some_0 > 0,
        row.prev_log_mar->Some_0 - row.log_mar->Some_0 >= row.n_letters->Some_0,
        more < fewer < 0,
    ensures
        row.letter_step(fewer) is Some,
        row.letter_step(more) is Some,
        row.letter_step(more)->Some_0 > row.letter_step(fewer)->Some_0 > 0,
{
    let gap = row.prev_log_mar->Some_0 - row.log_mar->Some_0;
    let n = row.n_letters->Some_0 as int;
    assert(fewer * (row.log_mar->Some_0 - row.prev_log_mar->Some_0) == (-fewer) * gap)
        by (nonlinear_arith)
        requires
            gap == row.prev_log_mar->Some_0 - row.log_mar->Some_0,
    ;
    assert(more * (row.log_mar->Some_0 - row.prev_log_mar->Some_0) == (-more) * gap)
        by (nonlinear_arith)
        requires
            gap == row.prev_log_mar->Some_0 - row.log_mar->Some_0,
    ;
    assert((-fewer) * gap + n <= (-more) * gap && (-fewer) * gap >= n) by (nonlinear_arith)
        requires
            more < fewer < 0,
            gap >= n,
            n > 0,
    ;
    lemma_quotient_gap((-fewer) * gap, (-more) * gap, n);
    lemma_quotient_gap(0, (-fewer) * gap, n);
}

/// Once the adding has ended on a failure, further counts change
/// nothing.
pub proof fn lemma_with_letters_stays(row: ChartRow, base: i64, deltas: Seq<i32>, upto: nat)
    requires
        upto <= deltas.len(),
        !(row.with_letters(base, deltas, upto) is Value),
    ensures
        row.with_letters(base, deltas, deltas.len()) == row.with_letters(base, deltas, upto),
    decreases deltas.len() - upto,
{
    if upto < deltas.len() {
        lemma_with_letters_stays(row, base, deltas, upto + 1);
    }
}

impl ParsedItem {
    /// Whether a LogMAR that is derived from the fraction of a chart
    /// row is rounded to a tenth for this item.
    pub open spec fn rounds_derived(self) -> bool {
        self is ETDRS || self is NearTotalLoss
    }

    /// Whether `r` is the LogMAR of `row` for this item, before the
    /// distance of the reading is looked at: the row's own, or else the
    /// one derived from its fraction. A derived LogMAR is rounded to a
    /// tenth for the kinds of items that are read off letter counts.
    pub open spec fn row_log_mar_is<L: Fn(u64, u64) -> i64>(
        self,
        row: ChartRow,
        log_mar_of: &L,
        r: Result<i64, VisualAcuityError>,
    ) -> bool {
        match row.log_mar {
            Some(own) => if row.log_mar_derived {
                match derived_value(self.rounds_derived(), own) {
                    Some(v) => r == Ok::<i64, VisualAcuityError>(v),
                    None => r matches Err(VisualAcuityError::NotImplemented),
                }
            } else {
                r == Ok::<i64, VisualAcuityError>(own)
            },
            None => match row.own_fraction() {
                Some(fraction) => if fraction.0 == fraction.1 {
                    r == Ok::<i64, VisualAcuityError>(0)
                } else if fraction.0 == 0 || fraction.1 == 0 {
                    r matches Err(VisualAcuityError::NotImplemented)
                } else {
                    exists|raw: i64|
                        {
                            &&& #[trigger] log_mar_of.ensures((fraction.0, fraction.1), raw)
                            &&& match derived_value(self.rounds_derived(), raw) {
                                Some(v) => r == Ok::<i64, VisualAcuityError>(v),
                                None => r matches Err(VisualAcuityError::NotImplemented),
                            }
                        }
                },
                None => r matches Err(VisualAcuityError::NotImplemented),
            },
        }
    }

    /// Whether `r` is the LogMAR `base` of `row`, scaled to the distance
    /// of the reading. Where neither the item nor the row has a
    /// distance, nothing is scaled. Else both distances must convert to
    /// a positive number of feet, and what `log_mar_of` gives for the
    /// distance of the reading over that of the row is added.
    pub open spec fn scaled_is<L: Fn(u64, u64) -> i64>(
        self,
        row: ChartRow,
        log_mar_of: &L,
        base: i64,
        r: Result<i64, VisualAcuityError>,
    ) -> bool {
        if self.distance() == DistanceUnits::NotProvided && row.reference_distance
            == DistanceUnits::NotProvided {
            r == Ok::<i64, VisualAcuityError>(base)
        } else {
            match (self.distance().feet_in_range(), row.reference_distance.feet_in_range()) {
                (Some(feet), Some(reference_feet)) => if feet > 0 && reference_feet > 0 {
                    exists|adjustment: i64|
                        {
                            &&& #[trigger] log_mar_of.ensures((feet, reference_feet), adjustment)
                            &&& match scaled_value(base, adjustment) {
                                Some(v) => r == Ok::<i64, VisualAcuityError>(v),
                                None => r matches Err(VisualAcuityError::NotImplemented),
                            }
                        }
                } else {
                    r matches Err(VisualAcuityError::NotImplemented)
                },
                _ => r matches Err(VisualAcuityError::NotImplemented),
            }
        }
    }

    /// Whether `r` is the LogMAR of the item.
    pub open spec fn log_mar_base_is<L: Fn(u64, u64) -> i64>(
        self,
        charts: ChartTable,
        log_mar_of: &L,
        r: Result<i64, VisualAcuityError>,
    ) -> bool {
        match self.row_key() {
            None => r matches Err(VisualAcuityError::NoSnellenEquivalent(s)) && s@
                == self.rendering(),
            Some(key) => match charts.row_for(trimmed(key)) {
                None => r matches Err(VisualAcuityError::ChartRowNotFound(s)) && s@ == key,
                Some(row) => {
                    ||| exists|base: i64|
                        {
                            &&& #[trigger] self.row_log_mar_is(
                                row,
                                log_mar_of,
                                Ok::<i64, VisualAcuityError>(base),
                            )
                            &&& self.scaled_is(row, log_mar_of, base, r)
                        }
                    ||| {
                        &&& self.row_log_mar_is(
                            row,
                            log_mar_of,
                            Err::<i64, VisualAcuityError>(VisualAcuityError::NotImplemented),
                        )
                        &&& r matches Err(VisualAcuityError::NotImplemented)
                    }
                },
            },
        }
    }

    /// Whether `r` is the LogMAR of the item with the letters `deltas`.
    pub open spec fn log_mar_plus_letters_is<L: Fn(u64, u64) -> i64>(
        self,
        deltas: Seq<i32>,
        charts: ChartTable,
        log_mar_of: &L,
        r: Result<i64, VisualAcuityError>,
    ) -> bool {
        if deltas.len() == 0 {
            self.log_mar_base_is(charts, log_mar_of, r)
        } else {
            match self.row_key() {
                None => r matches Err(VisualAcuityError::NoSnellenEquivalent(s)) && s@
                    == self.rendering(),
                Some(key) => match charts.row_for(trimmed(key)) {
                    None => r matches Err(VisualAcuityError::ChartRowNotFound(s)) && s@ == key,
                    Some(row) => row.log_mar_plus_letters_is(deltas, log_mar_of, r),
                },
            }
        }
    }

    /// The LogMAR of `row` for this item before any scaling.
    fn row_log_mar<L: Fn(u64, u64) -> i64>(&self, row: &ChartRow, log_mar_of: &L) -> (r: Result<
        i64,
        VisualAcuityError,
    >)
        requires
            serves_ratios(log_mar_of),
        ensures
            self.row_log_mar_is(*row, log_mar_of, r),
            r matches Err(e) ==> e == VisualAcuityError::NotImplemented,
    {
        let rounds = match self {
            ParsedItem::ETDRS(_) => true,
            ParsedItem::NearTotalLoss(_, _) => true,
            _ => false,
        };
        match row.log_mar {
            Some(own) => {
                if row.log_mar_derived {
                    match derive_log_mar(rounds, own) {
                        Ok(v) => Ok(v),
                        Err(_) => Err(VisualAcuityError::NotImplemented),
                    }
                } else {
                    Ok(own)
                }
            },
            None => match row.snellen_equivalent() {
                Ok(fraction) => {
                    if fraction.0 == fraction.1 {
                        Ok(0)
                    } else if fraction.0 == 0 || fraction.1 == 0 {
                        Err(VisualAcuityError::NotImplemented)
                    } else {
                        let raw = log_mar_of(fraction.0, fraction.1);
                        match derive_log_mar(rounds, raw) {
                            Ok(v) => Ok(v),
                            Err(_) => Err(VisualAcuityError::NotImplemented),
                        }
                    }
                },
                Err(_) => Err(VisualAcuityError::NotImplemented),
            },
        }
    }

    /// The LogMAR `base` of `row`, scaled to the distance of the
    /// reading.
    fn scale<L: Fn(u64, u64) -> i64>(&self, row: &ChartRow, log_mar_of: &L, base: i64) -> (r:
        Result<i64, VisualAcuityError>)
        requires
            serves_ratios(log_mar_of),
        ensures
            self.scaled_is(*row, log_mar_of, base, r),
    {
        let unmeasured = match self {
            ParsedItem::NearTotalLoss(_, distance) => distance.is_not_provided(),
            _ => true,
        };
        if unmeasured && row.reference_distance.is_not_provided() {
            return Ok(base);
        }
        match (self.measured_feet(), row.reference_distance.to_feet()) {
            (Some(feet), Ok(reference_feet)) => {
                if feet > 0 && reference_feet > 0 {
                    let adjustment = log_mar_of(feet, reference_feet);
                    match scale_log_mar(base, adjustment) {
                        Ok(v) => Ok(v),
                        Err(_) => Err(VisualAcuityError::NotImplemented),
                    }
                } else {
                    Err(VisualAcuityError::NotImplemented)
                }
            },
            _ => Err(VisualAcuityError::NotImplemented),
        }
    }

    /// The LogMAR of the item: that of its chart row, scaled to the
    /// distance of the reading.
    pub fn log_mar_base<L: Fn(u64, u64) -> i64>(&self, charts: &ChartTable, log_mar_of: &L) -> (r:
        Result<i64, VisualAcuityError>)
        requires
            serves_ratios(log_mar_of),
        ensures
            self.log_mar_base_is(*charts, log_mar_of, r),
    {
        match self.find_chart_row(charts) {
            Ok(row) => match self.row_log_mar(row, log_mar_of) {
                Ok(base) => self.scale(row, log_mar_of, base),
                Err(_) => Err(VisualAcuityError::NotImplemented),
            },
            Err(e) => Err(e),
        }
    }
}

/// The LogMAR of an item falls with each letter read toward the next
/// line: the LogMAR with more letters is lower than that with fewer,
/// which is lower than the LogMAR of the row. This holds for an item
/// whose chart row knows its own LogMAR, a lower LogMAR of the next
/// line and the letters of that line, where a letter is worth a
/// millionth at least and the LogMAR with the letters fits in 64 bits.
pub proof fn lemma_letters_read_lower<L: Fn(u64, u64) -> i64>(
    item: ParsedItem,
    charts: ChartTable,
    log_mar_of: &L,
    fewer: i32,
    more: i32,
    with_fewer: Result<i64, VisualAcuityError>,
    with_more: Result<i64, VisualAcuityError>,
)
    requires
        item.chart_row(charts) is Some,
        item.chart_row(charts)->Some_0.log_mar is Some,
        item.chart_row(charts)->Some_0.next_log_mar is Some,
        item.chart_row(charts)->Some_0.next_n_letters is Some,
        item.chart_row(charts)->Some_0.next_n_letters->Some_0 > 0,
        item.chart_row(charts)->Some_0.log_mar->Some_0 - item.chart_row(
            charts,
        )->Some_0.next_log_mar->Some_0 >= item.chart_row(charts)->Some_0.next_n_letters->Some_0,
        0 < fewer < more,
        fits(
            item.chart_row(charts)->Some_0.log_mar->Some_0 + toward_zero(
                more * (item.chart_row(charts)->Some_0.next_log_mar->Some_0 - item.chart_row(
                    charts,
                )->Some_0.log_mar->Some_0),
                item.chart_row(charts)->Some_0.next_n_letters->Some_0 as int,
            ),
        ),
        item.log_mar_plus_letters_is(seq![fewer], charts, log_mar_of, with_fewer),
        item.log_mar_plus_letters_is(seq![more], charts, log_mar_of, with_more),
    ensures
        with_fewer is Ok,
        with_more is Ok,
        with_more->Ok_0 < with_fewer->Ok_0 < item.chart_row(charts)->Some_0.log_mar->Some_0,
{
    let row = item.chart_row(charts)->Some_0;
    lemma_more_letters_lower(row, fewer, more);
    reveal_with_fuel(ChartRow::with_letters, 2);
    assert(seq![fewer].len() == 1 && seq![fewer][0] == fewer);
    assert(seq![more].len() == 1 && seq![more][0] == more);
}

/// The LogMAR of an item rises with each letter missed toward the
/// previous line: the LogMAR with more letters missed is higher than
/// that with fewer, which is higher than the LogMAR of the row. This
/// holds for an item whose chart row knows its own LogMAR, a higher
/// LogMAR of the previous line and its own letters, where a letter is
/// worth a millionth at least and the LogMAR with the letters fits in
/// 64 bits.
pub proof fn lemma_letters_missed_higher<L: Fn(u64, u64) -> i64>(
    item: ParsedItem,
    charts: ChartTable,
    log_mar_of: &L,
    fewer: i32,
    more: i32,
    with_fewer: Result<i64, VisualAcuityError>,
    with_more: Result<i64, VisualAcuityError>,
)
    requires
        item.chart_row(charts) is Some,
        item.chart_row(charts)->Some_0.log_mar is Some,
        item.chart_row(charts)->Some_0.prev_log_mar is Some,
        item.chart_row(charts)->Some_0.n_letters is Some,
        item.chart_row(charts)->Some_0.n_letters->Some_0 > 0,
        item.chart_row(charts)->Some_0.prev_log_mar->Some_0 - item.chart_row(
            charts,
        )->Some_0.log_mar->Some_0 >= item.chart_row(charts)->Some_0.n_letters->Some_0,
        more < fewer < 0,
        fits(
            item.chart_row(charts)->Some_0.log_mar->Some_0 + toward_zero(
                more * (item.chart_row(charts)->Some_0.log_mar->Some_0 - item.chart_row(
                    charts,
                )->Some_0.prev_log_mar->Some_0),
                item.chart_row(charts)->Some_0.n_letters->Some_0 as int,
            ),
        ),
        item.log_mar_plus_letters_is(seq![fewer], charts, log_mar_of, with_fewer),
        item.log_mar_plus_letters_is(seq![more], charts, log_mar_of, with_more),
    ensures
        with_fewer is Ok,
        with_more is Ok,
        with_more->Ok_0 > with_fewer->Ok_0 > item.chart_row(charts)->Some_0.log_mar->Some_0,
{
    let row = item.chart_row(charts)->Some_0;
    lemma_more_missed_letters_higher(row, fewer, more);
    reveal_with_fuel(ChartRow::with_letters, 2);
    assert(seq![fewer].len() == 1 && seq![fewer][0] == fewer);
    assert(seq![more].len() == 1 && seq![more][0] == more);
}

/// What has a LogMAR that letters read beyond a line change.
pub trait LogMarPlusLetters<L: Fn(u64, u64) -> i64> {
    /// Whether `r` is the LogMAR with the letters `plus_letters`.
    spec fn plus_letters_is(
        &self,
        plus_letters: Seq<i32>,
        charts: ChartTable,
        log_mar_of: &L,
        r: Result<i64, VisualAcuityError>,
    ) -> bool;

    /// The LogMAR with the letters `plus_letters`.
    fn log_mar_plus_letters(
        &self,
        plus_letters: &Vec<i32>,
        charts: &ChartTable,
        log_mar_of: &L,
    ) -> (r: Result<i64, VisualAcuityError>)
        requires
            serves_ratios(log_mar_of),
        ensures
            self.plus_letters_is(plus_letters@, *charts, log_mar_of, r),
    ;
}

impl<L: Fn(u64, u64) -> i64> LogMarPlusLetters<L> for ParsedItem {
    open spec fn plus_letters_is(
        &self,
        plus_letters: Seq<i32>,
        charts: ChartTable,
        log_mar_of: &L,
        r: Result<i64, VisualAcuityError>,
    ) -> bool {
        self.log_mar_plus_letters_is(plus_letters, charts, log_mar_of, r)
    }

    /// The LogMAR of the item with the letters `plus_letters`: the
    /// LogMAR of the item where there are none, and else that of its
    /// chart row with the letters.
    fn log_mar_plus_letters(
        &self,
        plus_letters: &Vec<i32>,
        charts: &ChartTable,
        log_mar_of: &L,
    ) -> (r: Result<i64, VisualAcuityError>) {
        if plus_letters.len() == 0 {
            return self.log_mar_base(charts, log_mar_of);
        }
        match self.find_chart_row(charts) {
            Ok(row) => row.with_plus_letters(plus_letters, log_mar_of),
            Err(e) => Err(e),
        }
    }
}

impl<L: Fn(u64, u64) -> i64> LogMarPlusLetters<L> for ChartRow {
    open spec fn plus_letters_is(
        &self,
        plus_letters: Seq<i32>,
        charts: ChartTable,
        log_mar_of: &L,
        r: Result<i64, VisualAcuityError>,
    ) -> bool {
        self.log_mar_plus_letters_is(plus_letters, log_mar_of, r)
    }

    /// The LogMAR of the row with the letters `plus_letters`. The
    /// charts are not looked at.
    fn log_mar_plus_letters(
        &self,
        plus_letters: &Vec<i32>,
        charts: &ChartTable,
        log_mar_of: &L,
    ) -> (r: Result<i64, VisualAcuityError>) {
        self.with_plus_letters(plus_letters, log_mar_of)
    }
}

} // verus!
