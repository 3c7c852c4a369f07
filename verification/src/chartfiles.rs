use crate::charts::{lemma_same_rows, Chart, ChartRow, ChartTable};
use crate::text::str_eq;
use crate::distanceunits::DistanceUnits;
use crate::errors::VisualAcuityError;
use crate::logmar::serves_ratios;
use crate::structure::Fraction;
use crate::tabular::{
    chars_of, lines, lines_of, parse_signed, parse_signed_decimal, signed_between,
    signed_decimal_between, split, split_on,
};
use crate::text::{trim, trimmed};
use crate::textmap::TextMap;
use vstd::prelude::*;
use vstd::string::*;

verus! {

/// What a mapping from texts to texts holds, in characters.
pub open spec fn text_map_view(map: TextMap<String>) -> Map<Seq<char>, Seq<char>> {
    Map::new(|k: Seq<char>| map.contains_key(k), |k: Seq<char>| map.value_of(k)@)
}

/// The first `upto` columns of a line by the names of their columns.
/// Where a name occurs twice, the later column counts.
pub open spec fn zipped(header: Seq<Seq<char>>, columns: Seq<Seq<char>>, upto: nat) -> Map<
    Seq<char>,
    Seq<char>,
>
    decreases upto,
{
    if upto == 0 {
        Map::empty()
    } else {
        zipped(header, columns, (upto - 1) as nat).insert(header[upto - 1], columns[upto - 1])
    }
}

/// The columns of a line by the names of their columns. Columns are
/// separated by tabs; those without a name, and names without a
/// column, are left out.
pub open spec fn zipped_row(header: Seq<Seq<char>>, line: Seq<char>) -> Map<Seq<char>, Seq<char>> {
    let columns = split_on(line, '\t');
    zipped(
        header,
        columns,
        if header.len() < columns.len() {
            header.len()
        } else {
            columns.len()
        },
    )
}

/// The lines after the first among the first `upto` lines, without
/// the white space around them; lines that hold nothing else are left
/// out.
pub open spec fn table_lines(all: Seq<Seq<char>>, upto: nat) -> Seq<Seq<char>>
    decreases upto,
{
    if upto <= 1 {
        Seq::empty()
    } else if trimmed(all[upto - 1]).len() == 0 {
        table_lines(all, (upto - 1) as nat)
    } else {
        table_lines(all, (upto - 1) as nat).push(trimmed(all[upto - 1]))
    }
}

/// Whether `rows` holds the rows of the table `contents`: for each
/// line after the first that is not blank, the line and its columns by
/// the names that the first line gives them.
pub open spec fn is_table(contents: Seq<char>, rows: Seq<(String, TextMap<String>)>) -> bool {
    let all = lines_of(contents);
    let header = split_on(all[0], '\t');
    let kept = table_lines(all, all.len());
    &&& rows.len() == kept.len()
    &&& forall|j: int|
        0 <= j < rows.len() ==> {
            &&& (#[trigger] rows[j]).0@ == kept[j]
            &&& rows[j].1.wf()
            &&& text_map_view(rows[j].1) == zipped_row(header, kept[j])
        }
}

/// Reads a table whose columns are separated by tabs and whose first
/// line names the columns. The text must not be empty.
pub fn map_tsv(contents: &str) -> (r: Vec<(String, TextMap<String>)>)
    requires
        contents@.len() > 0,
    ensures
        is_table(contents@, r@),
{
    let all = lines(contents);
    let first = chars_of(all[0].as_str());
    let header = split(&first, '\t');
    let mut rows: Vec<(String, TextMap<String>)> = Vec::new();
    let mut i: usize = 1;
    while i < all.len()
        invariant
            1 <= i <= all@.len(),
            all.deep_view() == lines_of(contents@),
            header.deep_view() == split_on(all.deep_view()[0], '\t'),
            rows@.len() == table_lines(all.deep_view(), i as nat).len(),
            forall|j: int|
                0 <= j < rows@.len() ==> {
                    &&& (#[trigger] rows@[j]).0@ == table_lines(all.deep_view(), i as nat)[j]
                    &&& rows@[j].1.wf()
                    &&& text_map_view(rows@[j].1) == zipped_row(
                        header.deep_view(),
                        table_lines(all.deep_view(), i as nat)[j],
                    )
                },
        decreases all@.len() - i,
    {
        let line = trim(all[i].as_str());
        assert(all.deep_view()[i as int] == all@[i as int]@);
        if line.unicode_len() > 0 {
            let line_chars = chars_of(line);
            let columns = split(&line_chars, '\t');
            let count = if header.len() < columns.len() {
                header.len()
            } else {
                columns.len()
            };
            let mut fields: TextMap<String> = TextMap::new();
            assert(text_map_view(fields) =~= zipped(header.deep_view(), columns.deep_view(), 0));
            let mut k: usize = 0;
            while k < count
                invariant
                    k <= count,
                    count <= header@.len(),
                    count <= columns@.len(),
                    fields.wf(),
                    text_map_view(fields) == zipped(
                        header.deep_view(),
                        columns.deep_view(),
                        k as nat,
                    ),
                decreases count - k,
            {
                let ghost before = fields;
                fields.insert(header[k].clone(), columns[k].clone());
                assert(header.deep_view()[k as int] == header@[k as int]@);
                assert(columns.deep_view()[k as int] == columns@[k as int]@);
                assert(text_map_view(fields) =~= text_map_view(before).insert(
                    header@[k as int]@,
                    columns@[k as int]@,
                ));
                k += 1;
            }
            rows.push((line.to_owned(), fields));
        }
        i += 1;
    }
    rows
}

/// The text without the plus signs at its start.
pub open spec fn without_plus(s: Seq<char>) -> Seq<char>
    decreases s.len(),
{
    if s.len() > 0 && s[0] == '+' {
        without_plus(s.drop_first())
    } else {
        s
    }
}

/// The text of the column `name` without the white space around it,
/// where the row has such a column and more than white space in it.
pub open spec fn optional_field(fields: Map<Seq<char>, Seq<char>>, name: Seq<char>) -> Option<
    Seq<char>,
> {
    if fields.contains_key(name) && trimmed(fields[name]).len() > 0 {
        Some(trimmed(fields[name]))
    } else {
        None
    }
}

/// The text of the column "LogMAR": as for any column, but plus signs
/// at the start of the column are dropped first.
pub open spec fn log_mar_field(fields: Map<Seq<char>, Seq<char>>) -> Option<Seq<char>> {
    if fields.contains_key("LogMAR"@) && trimmed(without_plus(fields["LogMAR"@])).len() > 0 {
        Some(trimmed(without_plus(fields["LogMAR"@])))
    } else {
        None
    }
}

/// The number of a row that a text stands for: a whole number with or
/// without a sign, from -128 to 127.
pub open spec fn row_number_of(s: Seq<char>) -> Option<i8> {
    match signed_between(s, 0, s.len() as int) {
        Some(v) => if -128 <= v <= 127 {
            Some(v as i8)
        } else {
            None
        },
        None => None,
    }
}

/// The LogMAR in millionths that a text stands for: a decimal number
/// with or without a sign that fits in 64 bits as millionths.
pub open spec fn log_mar_of_text(s: Seq<char>) -> Option<i64> {
    match signed_decimal_between(s, 0, s.len() as int) {
        Some(v) => if i64::MIN <= v <= i64::MAX {
            Some(v as i64)
        } else {
            None
        },
        None => None,
    }
}

/// The number of letters that a text stands for: a whole number
/// without a minus sign, up to 255.
pub open spec fn letters_of_text(s: Seq<char>) -> Option<u8> {
    if s.len() > 0 && s[0] == '-' {
        None
    } else {
        match signed_between(s, 0, s.len() as int) {
            Some(v) => if 0 <= v <= 255 {
                Some(v as u8)
            } else {
                None
            },
            None => None,
        }
    }
}

/// What a row of a chart file says.
pub struct RowFields {
    pub number: i8,
    pub text: Seq<char>,
    pub fraction: Option<Fraction>,
    pub log_mar: Option<i64>,
    pub letters: Option<u8>,
    pub distance: DistanceUnits,
}

/// What stands in an optional column: nothing where the column is
/// missing or blank, its value where it can be read, and a failure
/// where it cannot.
pub open spec fn read_optional<T>(
    field: Option<Seq<char>>,
    read: spec_fn(Seq<char>) -> Option<T>,
) -> Option<Option<T>> {
    match field {
        None => Some(None),
        Some(text) => match read(text) {
            Some(v) => Some(Some(v)),
            None => None,
        },
    }
}

/// What the row with the columns `fields` says, where it can be read.
/// A row has the columns "Row" and "Text"; the columns "Fraction",
/// "LogMAR", "Letters" and "Distance" may be missing or blank.
pub open spec fn row_fields(fields: Map<Seq<char>, Seq<char>>) -> Option<RowFields> {
    if !fields.contains_key("Row"@) || !fields.contains_key("Text"@) {
        None
    } else {
        match (
            row_number_of(fields["Row"@]),
            read_optional(optional_field(fields, "Fraction"@), |t: Seq<char>| Fraction::of_text(t)),
            read_optional(log_mar_field(fields), |t: Seq<char>| log_mar_of_text(t)),
            read_optional(optional_field(fields, "Letters"@), |t: Seq<char>| letters_of_text(t)),
            read_optional(
                optional_field(fields, "Distance"@),
                |t: Seq<char>| DistanceUnits::of_text(t),
            ),
        ) {
            (Some(number), Some(fraction), Some(log_mar), Some(letters), Some(distance)) => Some(
                RowFields {
                    number,
                    text: fields["Text"@],
                    fraction,
                    log_mar,
                    letters,
                    distance: match distance {
                        Some(d) => d,
                        None => DistanceUnits::NotProvided,
                    },
                },
            ),
            _ => None,
        }
    }
}

/// Whether the row has a fraction that has no LogMAR: one part of it
/// is zero and the other is not.
pub open spec fn lacks_log_mar(fraction: Option<Fraction>) -> bool {
    match fraction {
        Some(f) => f.0 != f.1 && (f.0 == 0 || f.1 == 0),
        None => false,
    }
}

/// What the failure to read a row says: the name of the column "Row"
/// or "Text" where the row has no such column, and else the text of
/// the first column that cannot be read, in the order "Row",
/// "Fraction", "LogMAR", "Letters", "Distance". Nothing where every
/// column can be read.
pub open spec fn unreadable(fields: Map<Seq<char>, Seq<char>>) -> Option<Seq<char>> {
    if !fields.contains_key("Row"@) {
        Some("Row"@)
    } else if row_number_of(fields["Row"@]) is None {
        Some(fields["Row"@])
    } else if !fields.contains_key("Text"@) {
        Some("Text"@)
    } else if read_optional(
        optional_field(fields, "Fraction"@),
        |t: Seq<char>| Fraction::of_text(t),
    ) is None {
        optional_field(fields, "Fraction"@)
    } else if read_optional(log_mar_field(fields), |t: Seq<char>| log_mar_of_text(t)) is None {
        log_mar_field(fields)
    } else if read_optional(
        optional_field(fields, "Letters"@),
        |t: Seq<char>| letters_of_text(t),
    ) is None {
        optional_field(fields, "Letters"@)
    } else if read_optional(
        optional_field(fields, "Distance"@),
        |t: Seq<char>| DistanceUnits::of_text(t),
    ) is None {
        optional_field(fields, "Distance"@)
    } else {
        None
    }
}

/// A row says something exactly where each of its columns can be read.
pub proof fn lemma_unreadable(fields: Map<Seq<char>, Seq<char>>)
    ensures
        unreadable(fields) is None <==> row_fields(fields) is Some,
{
}

/// Whether `r` is what reading the row with the columns `fields` of
/// the chart `chart_name` gives. A row with a column that cannot be
/// read is reported as a parse error that holds what `unreadable`
/// says. A row that has a fraction but no LogMAR gets the LogMAR of
/// its fraction; where the fraction has none, because one of its parts
/// is zero and the other is not, the row is reported as not
/// implemented.
pub open spec fn is_parsed_row<L: Fn(u64, u64) -> i64>(
    chart_name: Seq<char>,
    fields: Map<Seq<char>, Seq<char>>,
    log_mar_of: &L,
    r: Result<(i8, String, ChartRow), VisualAcuityError>,
) -> bool {
    match row_fields(fields) {
        None => r matches Err(VisualAcuityError::ParseError(s)) && Some(s@) == unreadable(fields),
        Some(f) => if f.log_mar is None && lacks_log_mar(f.fraction) {
            r matches Err(VisualAcuityError::NotImplemented)
        } else {
            &&& r matches Ok((number, text, row))
            &&& number == f.number
            &&& text@ == f.text
            &&& row.chart_name@ == chart_name
            &&& row.row_number == f.number
            &&& row.fraction == f.fraction
            &&& row.reference_distance == f.distance
            &&& row.n_letters == f.letters
            &&& row.prev_log_mar is None
            &&& row.next_log_mar is None
            &&& row.next_n_letters is None
            &&& match (f.fraction, f.log_mar) {
                (Some(fraction), None) => {
                    &&& row.log_mar_derived
                    &&& row.log_mar matches Some(v) && fraction.log_mar_is(log_mar_of, Ok(v))
                },
                _ => !row.log_mar_derived && row.log_mar == f.log_mar,
            }
        },
    }
}

/// The text without the white space around it, unless nothing is left
/// of it then.
pub fn nonempty<'a>(s: Option<&'a str>) -> (r: Option<&'a str>)
    ensures
        match s {
            Some(text) => if trimmed(text@).len() > 0 {
                r matches Some(t) && t@ == trimmed(text@)
            } else {
                r is None
            },
            None => r is None,
        },
{
    match s {
        None => None,
        Some(text) => {
            let t = trim(text);
            if t.unicode_len() == 0 {
                None
            } else {
                Some(t)
            }
        },
    }
}

/// Reads an optional text with `parse`. A text that cannot be read is
/// reported as a parse error that holds the text.
pub fn parse_some<T, F: Fn(&str) -> Result<T, VisualAcuityError>>(s: Option<&str>, parse: F) -> (r:
    Result<Option<T>, VisualAcuityError>)
    requires
        s matches Some(text) ==> parse.requires((text,)),
    ensures
        match s {
            None => r matches Ok(v) && v is None,
            Some(text) => exists|out: Result<T, VisualAcuityError>|
                {
                    &&& #[trigger] parse.ensures((text,), out)
                    &&& match out {
                        Ok(v) => r == Ok::<Option<T>, VisualAcuityError>(Some(v)),
                        Err(_) => r matches Err(VisualAcuityError::ParseError(t)) && t@ == text@,
                    }
                },
        },
{
    match s {
        None => Ok(None),
        Some(text) => {
            let out = parse(text);
            let ghost given = out;
            let r = match out {
                Ok(v) => Ok(Some(v)),
                Err(_) => Err(VisualAcuityError::ParseError(text.to_owned())),
            };
            assert(parse.ensures((text,), given));
            r
        },
    }
}

/// Reads a LogMAR from a text.
pub fn parse_log_mar(s: &str) -> (r: Result<i64, VisualAcuityError>)
    ensures
        match log_mar_of_text(s@) {
            Some(v) => r == Ok::<i64, VisualAcuityError>(v),
            None => r matches Err(VisualAcuityError::ParseError(t)) && t@ == s@,
        },
{
    let chars = chars_of(s);
    match parse_signed_decimal(&chars, 0, chars.len()) {
        Some(v) => Ok(v),
        None => Err(VisualAcuityError::ParseError(s.to_owned())),
    }
}

/// Reads a number of letters from a text.
pub fn parse_letters(s: &str) -> (r: Result<u8, VisualAcuityError>)
    ensures
        match letters_of_text(s@) {
            Some(v) => r == Ok::<u8, VisualAcuityError>(v),
            None => r matches Err(VisualAcuityError::ParseError(t)) && t@ == s@,
        },
{
    let chars = chars_of(s);
    if chars.len() > 0 && chars[0] == '-' {
        return Err(VisualAcuityError::ParseError(s.to_owned()));
    }
    match parse_signed(&chars, 0, chars.len(), 0, 255) {
        Some(v) => Ok(v as u8),
        None => Err(VisualAcuityError::ParseError(s.to_owned())),
    }
}

/// Reads the number of a row from a text.
pub fn parse_row_number(s: &str) -> (r: Result<i8, VisualAcuityError>)
    ensures
        match row_number_of(s@) {
            Some(v) => r == Ok::<i8, VisualAcuityError>(v),
            None => r matches Err(VisualAcuityError::ParseError(t)) && t@ == s@,
        },
{
    let chars = chars_of(s);
    match parse_signed(&chars, 0, chars.len(), -128, 127) {
        Some(v) => Ok(v as i8),
        None => Err(VisualAcuityError::ParseError(s.to_owned())),
    }
}

/// The text without the plus signs at its start.
pub fn strip_plus(s: &str) -> (r: &str)
    ensures
        r@ == without_plus(s@),
{
    let n = s.unicode_len();
    let mut i: usize = 0;
    assert(s@.subrange(0, n as int) =~= s@);
    while i < n && s.get_char(i) == '+'
        invariant
            n == s@.len(),
            i <= n,
            without_plus(s@) == without_plus(s@.subrange(i as int, n as int)),
        decreases n - i,
    {
        assert(s@.subrange(i as int, n as int).drop_first() =~= s@.subrange(i as int + 1, n as int));
        i += 1;
    }
    s.substring_char(i, n)
}

/// A fraction and a LogMAR as they stand in a row, the LogMAR being
/// that of the fraction where the row has a fraction but no LogMAR.
pub fn fill_in_log_mar<L: Fn(u64, u64) -> i64>(
    fraction: Option<Fraction>,
    log_mar: Option<i64>,
    log_mar_of: &L,
) -> (r: Result<(Option<Fraction>, Option<i64>), VisualAcuityError>)
    requires
        serves_ratios(log_mar_of),
    ensures
        match (fraction, log_mar) {
            (Some(f), None) => match r {
                Ok((kept, filled)) => {
                    &&& kept == fraction
                    &&& filled matches Some(v) && f.log_mar_is(log_mar_of, Ok(v))
                },
                Err(e) => f.log_mar_is(log_mar_of, Err(e)),
            },
            _ => r matches Ok((kept, filled)) && kept == fraction && filled == log_mar,
        },
{
    match (fraction, log_mar) {
        (Some(f), None) => match f.log_mar_base(log_mar_of) {
            Ok(v) => Ok((Some(f), Some(v))),
            Err(e) => Err(e),
        },
        _ => Ok((fraction, log_mar)),
    }
}

/// The text of the column `name` of a row.
pub fn field<'a>(row: &'a TextMap<String>, name: &str) -> (r: Option<&'a str>)
    requires
        row.wf(),
    ensures
        match r {
            Some(text) => text_map_view(*row).contains_key(name@) && text@ == text_map_view(
                *row,
            )[name@],
            None => !text_map_view(*row).contains_key(name@),
        },
{
    match row.get(name) {
        Some(text) => Some(text.as_str()),
        None => None,
    }
}

/// Reads one row of a chart file: its number, its text, and what it
/// says of the chart line.
pub fn parse_row<L: Fn(u64, u64) -> i64>(
    chart_name: &str,
    row: &TextMap<String>,
    log_mar_of: &L,
) -> (r: Result<(i8, String, ChartRow), VisualAcuityError>)
    requires
        row.wf(),
        serves_ratios(log_mar_of),
    ensures
        is_parsed_row(chart_name@, text_map_view(*row), log_mar_of, r),
{
    let ghost fields = text_map_view(*row);
    let row_number = match field(row, "Row") {
        Some(text) => match parse_row_number(text) {
            Ok(number) => number,
            Err(e) => {
                return Err(e);
            },
        },
        None => {
            return Err(VisualAcuityError::ParseError("Row".to_owned()));
        },
    };
    let row_text = match field(row, "Text") {
        Some(text) => text,
        None => {
            return Err(VisualAcuityError::ParseError("Text".to_owned()));
        },
    };
    let fraction = match parse_some(nonempty(field(row, "Fraction")), Fraction::from_str) {
        Ok(value) => value,
        Err(e) => {
            return Err(e);
        },
    };
    assert(Some(fraction) == read_optional(
        optional_field(fields, "Fraction"@),
        |t: Seq<char>| Fraction::of_text(t),
    ));
    let log_mar_text = match field(row, "LogMAR") {
        Some(text) => Some(strip_plus(text)),
        None => None,
    };
    let log_mar = match parse_some(nonempty(log_mar_text), parse_log_mar) {
        Ok(value) => value,
        Err(e) => {
            return Err(e);
        },
    };
    assert(Some(log_mar) == read_optional(
        log_mar_field(fields),
        |t: Seq<char>| log_mar_of_text(t),
    ));
    let n_letters = match parse_some(nonempty(field(row, "Letters")), parse_letters) {
        Ok(value) => value,
        Err(e) => {
            return Err(e);
        },
    };
    assert(Some(n_letters) == read_optional(
        optional_field(fields, "Letters"@),
        |t: Seq<char>| letters_of_text(t),
    ));
    let distance = match parse_some(nonempty(field(row, "Distance")), DistanceUnits::from_str) {
        Ok(value) => value,
        Err(e) => {
            return Err(e);
        },
    };
    assert(Some(distance) == read_optional(
        optional_field(fields, "Distance"@),
        |t: Seq<char>| DistanceUnits::of_text(t),
    ));
    let reference_distance = match distance {
        Some(d) => d,
        None => DistanceUnits::NotProvided,
    };
    let log_mar_derived = fraction.is_some() && log_mar.is_none();
    let (fraction, log_mar) = match fill_in_log_mar(fraction, log_mar, log_mar_of) {
        Ok(pair) => pair,
        Err(e) => {
            return Err(e);
        },
    };
    let chart_row = ChartRow {
        chart_name: chart_name.to_owned(),
        row_number,
        fraction,
        reference_distance,
        log_mar,
        log_mar_derived,
        n_letters,
        prev_log_mar: None,
        next_log_mar: None,
        next_n_letters: None,
    };
    Ok((row_number, row_text.to_owned(), chart_row))
}

/// The number of letters of the last of the first `upto` rows that
/// has the number `number`.
pub open spec fn letters_at(parsed: Seq<(i8, String, ChartRow)>, number: int, upto: nat) -> Option<
    u8,
>
    decreases upto,
{
    if upto == 0 {
        None
    } else if parsed[upto - 1].0 == number {
        parsed[upto - 1].2.n_letters
    } else {
        letters_at(parsed, number, (upto - 1) as nat)
    }
}

/// The LogMAR of the last of the first `upto` rows that has the
/// number `number`.
pub open spec fn log_mar_at(parsed: Seq<(i8, String, ChartRow)>, number: int, upto: nat) -> Option<
    i64,
>
    decreases upto,
{
    if upto == 0 {
        None
    } else if parsed[upto - 1].0 == number {
        parsed[upto - 1].2.log_mar
    } else {
        log_mar_at(parsed, number, (upto - 1) as nat)
    }
}

/// The row at `i` with what its neighbours say: the next row is the
/// one whose number is one less, the previous row the one whose
/// number is one more.
pub open spec fn linked(parsed: Seq<(i8, String, ChartRow)>, i: int) -> ChartRow {
    ChartRow {
        next_n_letters: letters_at(parsed, parsed[i].0 - 1, parsed.len()),
        next_log_mar: log_mar_at(parsed, parsed[i].0 - 1, parsed.len()),
        prev_log_mar: log_mar_at(parsed, parsed[i].0 + 1, parsed.len()),
        ..parsed[i].2
    }
}

/// Whether the rows at `j` and `i` share their number or their text
/// and do not hold the same values.
pub open spec fn clash(parsed: Seq<(i8, String, ChartRow)>, j: int, i: int) -> bool {
    (parsed[j].0 == parsed[i].0 || parsed[j].1@ == parsed[i].1@) && !linked(parsed, j).same(
        linked(parsed, i),
    )
}

/// Whether the row at `i` clashes with a row before it.
pub open spec fn clashes(parsed: Seq<(i8, String, ChartRow)>, i: int) -> bool {
    exists|j: int| 0 <= j < i && #[trigger] clash(parsed, j, i)
}

/// Whether none of the first `upto` rows clashes with a row before it.
pub open spec fn agree(parsed: Seq<(i8, String, ChartRow)>, upto: int) -> bool {
    forall|i: int| 0 <= i < upto ==> !#[trigger] clashes(parsed, i)
}

/// Whether `chart` holds the first `upto` rows in their order, each
/// with what its neighbours say, once by their numbers and once by
/// their texts.
pub open spec fn holds_rows(parsed: Seq<(i8, String, ChartRow)>, chart: Chart, upto: int) -> bool {
    &&& chart.by_row_number@.len() == upto
    &&& chart.by_text@.len() == upto
    &&& forall|i: int|
        0 <= i < upto ==> (#[trigger] chart.by_row_number@[i]).same(linked(parsed, i))
    &&& forall|i: int|
        0 <= i < upto ==> (#[trigger] chart.by_text@[i]).0@ == parsed[i].1@ && chart.by_text@[i].1.same(
            linked(parsed, i),
        )
}

/// Whether `r` is the chart of the rows `parsed`, or the failure to
/// make it: the first row that clashes with a row before it is
/// reported.
pub open spec fn is_chart(
    parsed: Seq<(i8, String, ChartRow)>,
    r: Result<Chart, VisualAcuityError>,
) -> bool {
    if agree(parsed, parsed.len() as int) {
        r matches Ok(chart) && holds_rows(parsed, chart, parsed.len() as int)
    } else {
        r matches Err(VisualAcuityError::MultipleValues(s)) && exists|i: int|
            0 <= i < parsed.len() && agree(parsed, i) && #[trigger] clashes(parsed, i) && s@
                == linked(parsed, i).description()
    }
}

/// Among rows that agree, what is said of a number is what any row
/// with that number says.
pub proof fn lemma_at_number(parsed: Seq<(i8, String, ChartRow)>, number: int, upto: nat, j: int)
    requires
        upto <= parsed.len(),
        0 <= j < upto,
        parsed[j].0 == number,
        agree(parsed, parsed.len() as int),
    ensures
        log_mar_at(parsed, number, upto) == parsed[j].2.log_mar,
        letters_at(parsed, number, upto) == parsed[j].2.n_letters,
    decreases upto,
{
    if parsed[upto - 1].0 == number {
        if j < upto - 1 {
            assert(!clashes(parsed, upto - 1));
            assert(!clash(parsed, j, upto - 1));
        }
    } else {
        lemma_at_number(parsed, number, (upto - 1) as nat, j);
    }
}

/// Among rows that agree, the next row of a row is the row whose number
/// is one less, and the previous row the row whose number is one more:
/// a row has the LogMAR and the letters of the one as its next, and
/// the LogMAR of the other as its previous.
pub proof fn lemma_neighbours(parsed: Seq<(i8, String, ChartRow)>, i: int, j: int)
    requires
        agree(parsed, parsed.len() as int),
        0 <= i < parsed.len(),
        0 <= j < parsed.len(),
    ensures
        parsed[j].0 == parsed[i].0 - 1 ==> linked(parsed, i).next_log_mar == parsed[j].2.log_mar
            && linked(parsed, i).next_n_letters == parsed[j].2.n_letters,
        parsed[j].0 == parsed[i].0 + 1 ==> linked(parsed, i).prev_log_mar == parsed[j].2.log_mar,
        linked(parsed, i).log_mar == parsed[i].2.log_mar,
        linked(parsed, i).n_letters == parsed[i].2.n_letters,
{
    if parsed[j].0 == parsed[i].0 - 1 {
        lemma_at_number(parsed, parsed[i].0 - 1, parsed.len(), j);
    }
    if parsed[j].0 == parsed[i].0 + 1 {
        lemma_at_number(parsed, parsed[i].0 + 1, parsed.len(), j);
    }
}

/// The row that a chart holds under a text is one of its rows with
/// that text.
pub proof fn lemma_row_of(chart: Chart, text: Seq<char>, from: int, at: int)
    requires
        0 <= from <= at < chart.by_text@.len(),
        chart.by_text@[at].0@ == text,
    ensures
        chart.row_from(text, from) is Some,
        exists|m: int|
            from <= m <= at && (#[trigger] chart.by_text@[m]).0@ == text && chart.row_from(
                text,
                from,
            ) == Some(chart.by_text@[m].1),
    decreases at - from,
{
    if chart.by_text@[from].0@ == text {
        assert(chart.by_text@[from].0@ == text);
    } else {
        lemma_row_of(chart, text, from + 1, at);
        let m = choose|m: int|
            from + 1 <= m <= at && (#[trigger] chart.by_text@[m]).0@ == text && chart.row_from(
                text,
                from + 1,
            ) == Some(chart.by_text@[m].1);
        assert(chart.by_text@[m].0@ == text);
    }
}

/// In a chart that was made of rows, each row is found under its text
/// with its own LogMAR and letters, with the LogMAR and the letters of
/// the row numbered one less as its next, and with the LogMAR of the
/// row numbered one more as its previous.
pub proof fn lemma_chart_neighbours(
    parsed: Seq<(i8, String, ChartRow)>,
    chart: Chart,
    i: int,
    j: int,
)
    requires
        is_chart(parsed, Ok(chart)),
        0 <= i < parsed.len(),
        0 <= j < parsed.len(),
    ensures
        chart.row_of(parsed[i].1@) is Some,
        chart.row_of(parsed[j].1@) is Some,
        chart.row_of(parsed[i].1@)->Some_0.log_mar == parsed[i].2.log_mar,
        chart.row_of(parsed[i].1@)->Some_0.n_letters == parsed[i].2.n_letters,
        parsed[j].0 == parsed[i].0 - 1 ==> chart.row_of(parsed[i].1@)->Some_0.next_log_mar
            == chart.row_of(parsed[j].1@)->Some_0.log_mar && chart.row_of(
            parsed[i].1@,
        )->Some_0.next_n_letters == chart.row_of(parsed[j].1@)->Some_0.n_letters,
        parsed[j].0 == parsed[i].0 + 1 ==> chart.row_of(parsed[i].1@)->Some_0.prev_log_mar
            == chart.row_of(parsed[j].1@)->Some_0.log_mar,
{
    assert(agree(parsed, parsed.len() as int));
    lemma_found_row(parsed, chart, i);
    lemma_found_row(parsed, chart, j);
    lemma_neighbours(parsed, i, j);
    lemma_neighbours(parsed, j, i);
}

/// In a chart that was made of rows, the row found under the text of a
/// row holds the values of that row with what its neighbours say.
pub proof fn lemma_found_row(parsed: Seq<(i8, String, ChartRow)>, chart: Chart, i: int)
    requires
        agree(parsed, parsed.len() as int),
        holds_rows(parsed, chart, parsed.len() as int),
        0 <= i < parsed.len(),
    ensures
        chart.row_of(parsed[i].1@) is Some,
        chart.row_of(parsed[i].1@)->Some_0.same(linked(parsed, i)),
{
    let text = parsed[i].1@;
    assert(chart.by_text@[i].0@ == text);
    lemma_row_of(chart, text, 0, i);
    let m = choose|m: int|
        0 <= m <= i && (#[trigger] chart.by_text@[m]).0@ == text && chart.row_from(text, 0) == Some(
            chart.by_text@[m].1,
        );
    let found = chart.by_text@[m].1;
    assert(found.same(linked(parsed, m)));
    if m < i {
        assert(!clashes(parsed, i));
        assert(!clash(parsed, m, i));
    }
    lemma_same_rows(found, linked(parsed, m), linked(parsed, i));
}

/// The number of letters of the last row that has the number `number`.
fn letters_for(parsed: &Vec<(i8, String, ChartRow)>, number: i16) -> (r: Option<u8>)
    ensures
        r == letters_at(parsed@, number as int, parsed@.len()),
{
    let mut i: usize = parsed.len();
    while i > 0
        invariant
            i <= parsed@.len(),
            letters_at(parsed@, number as int, parsed@.len()) == letters_at(
                parsed@,
                number as int,
                i as nat,
            ),
        decreases i,
    {
        if parsed[i - 1].0 as i16 == number {
            return parsed[i - 1].2.n_letters;
        }
        i -= 1;
    }
    None
}

/// The LogMAR of the last row that has the number `number`.
fn log_mar_for(parsed: &Vec<(i8, String, ChartRow)>, number: i16) -> (r: Option<i64>)
    ensures
        r == log_mar_at(parsed@, number as int, parsed@.len()),
{
    let mut i: usize = parsed.len();
    while i > 0
        invariant
            i <= parsed@.len(),
            log_mar_at(parsed@, number as int, parsed@.len()) == log_mar_at(
                parsed@,
                number as int,
                i as nat,
            ),
        decreases i,
    {
        if parsed[i - 1].0 as i16 == number {
            return parsed[i - 1].2.log_mar;
        }
        i -= 1;
    }
    None
}

/// The row at `i` with what its neighbours say.
fn link(parsed: &Vec<(i8, String, ChartRow)>, i: usize) -> (r: ChartRow)
    requires
        i < parsed@.len(),
    ensures
        r.same(linked(parsed@, i as int)),
{
    let row = &parsed[i].2;
    let number = parsed[i].0 as i16;
    ChartRow {
        chart_name: row.chart_name.clone(),
        row_number: row.row_number,
        fraction: row.fraction,
        reference_distance: row.reference_distance.clone(),
        log_mar: row.log_mar,
        log_mar_derived: row.log_mar_derived,
        n_letters: row.n_letters,
        prev_log_mar: log_mar_for(parsed, number + 1),
        next_log_mar: log_mar_for(parsed, number - 1),
        next_n_letters: letters_for(parsed, number - 1),
    }
}

/// Makes a chart of rows: each row gets what its neighbours say, and
/// rows that share their number or their text must hold the same
/// values.
pub fn build_chart(parsed: &Vec<(i8, String, ChartRow)>) -> (r: Result<Chart, VisualAcuityError>)
    ensures
        is_chart(parsed@, r),
{
    let mut chart = Chart { by_row_number: Vec::new(), by_text: Vec::new() };
    let mut i: usize = 0;
    while i < parsed.len()
        invariant
            i <= parsed@.len(),
            agree(parsed@, i as int),
            holds_rows(parsed@, chart, i as int),
        decreases parsed@.len() - i,
    {
        let row = link(parsed, i);
        let ghost target = linked(parsed@, i as int);
        let mut j: usize = 0;
        while j < i
            invariant
                j <= i < parsed@.len(),
                agree(parsed@, i as int),
                holds_rows(parsed@, chart, i as int),
                row.same(target),
                target == linked(parsed@, i as int),
                forall|k: int| 0 <= k < j ==> !#[trigger] clash(parsed@, k, i as int),
            decreases i - j,
        {
            let shared = parsed[j].0 == parsed[i].0 || str_eq(
                parsed[j].1.as_str(),
                parsed[i].1.as_str(),
            );
            if shared {
                let agrees = chart.by_row_number[j].is_same(&row);
                proof {
                    let kept = chart.by_row_number@[j as int];
                    let earlier = linked(parsed@, j as int);
                    lemma_same_rows(kept, earlier, target);
                    lemma_same_rows(earlier, kept, row);
                    lemma_same_rows(kept, row, target);
                    lemma_same_rows(row, target, target);
                    lemma_same_rows(earlier, row, target);
                    lemma_same_rows(earlier, target, row);
                }
                if !agrees {
                    proof {
                        assert(clash(parsed@, j as int, i as int));
                        assert(clashes(parsed@, i as int));
                    }
                    return Err(VisualAcuityError::MultipleValues(row.describe()));
                }
            }
            j += 1;
        }
        assert(!clashes(parsed@, i as int));
        chart.by_row_number.push(row.clone());
        chart.by_text.push((parsed[i].1.clone(), row));
        proof {
            let kept = chart.by_row_number@[i as int];
            lemma_same_rows(kept, row, target);
        }
        i += 1;
    }
    Ok(chart)
}

/// One row of a chart file: the chart, the line, and the columns of
/// the line by their names.
pub struct SourceRow {
    pub chart: Seq<char>,
    pub line: Seq<char>,
    pub fields: Map<Seq<char>, Seq<char>>,
}

/// The rows of the file `content` of the chart `name`.
pub open spec fn table_rows(name: Seq<char>, content: Seq<char>) -> Seq<SourceRow> {
    let all = lines_of(content);
    let header = split_on(all[0], '\t');
    let kept = table_lines(all, all.len());
    Seq::new(
        kept.len(),
        |j: int| SourceRow { chart: name, line: kept[j], fields: zipped_row(header, kept[j]) },
    )
}

/// The rows of the first `upto` files, in their order. A file is a
/// pair of the name of its chart and its content.
pub open spec fn source_rows(contents: Seq<(String, String)>, upto: nat) -> Seq<SourceRow>
    decreases upto,
{
    if upto == 0 {
        Seq::empty()
    } else {
        source_rows(contents, (upto - 1) as nat) + table_rows(
            contents[upto - 1].0@,
            contents[upto - 1].1@,
        )
    }
}

/// Whether a row cannot be read.
pub open spec fn row_fails(fields: Map<Seq<char>, Seq<char>>) -> bool {
    match row_fields(fields) {
        None => true,
        Some(f) => f.log_mar is None && lacks_log_mar(f.fraction),
    }
}

/// Whether `parsed` holds what reading each of the rows gives.
pub open spec fn is_parsed<L: Fn(u64, u64) -> i64>(
    rows: Seq<SourceRow>,
    log_mar_of: &L,
    parsed: Seq<(i8, String, ChartRow)>,
) -> bool {
    &&& parsed.len() == rows.len()
    &&& forall|i: int|
        0 <= i < rows.len() ==> is_parsed_row(
            rows[i].chart,
            rows[i].fields,
            log_mar_of,
            Ok(#[trigger] parsed[i]),
        )
}

/// Whether `r` is the chart of the files `contents`, or the failure to
/// make it. An empty file is reported as a parse error without text;
/// the first row that cannot be read as a parse error with its line;
/// and the first row that clashes with a row before it as a conflict.
pub open spec fn is_parsed_files<L: Fn(u64, u64) -> i64>(
    contents: Seq<(String, String)>,
    log_mar_of: &L,
    r: Result<Chart, VisualAcuityError>,
) -> bool {
    let rows = source_rows(contents, contents.len());
    if exists|f: int| 0 <= f < contents.len() && (#[trigger] contents[f]).1@.len() == 0 {
        r matches Err(VisualAcuityError::ParseError(s)) && s@.len() == 0
    } else if exists|i: int| 0 <= i < rows.len() && row_fails((#[trigger] rows[i]).fields) {
        r matches Err(VisualAcuityError::ParseError(s)) && exists|i: int|
            {
                &&& 0 <= i < rows.len()
                &&& row_fails((#[trigger] rows[i]).fields)
                &&& forall|j: int| 0 <= j < i ==> !row_fails((#[trigger] rows[j]).fields)
                &&& s@ == rows[i].line
            }
    } else {
        exists|parsed: Seq<(i8, String, ChartRow)>|
            #[trigger] is_parsed(rows, log_mar_of, parsed) && is_chart(parsed, r)
    }
}

impl Chart {
    /// Makes a chart from the files that describe it.
    pub fn parse_files<L: Fn(u64, u64) -> i64>(
        contents: &Vec<(String, String)>,
        log_mar_of: &L,
    ) -> (r: Result<Chart, VisualAcuityError>)
        requires
            serves_ratios(log_mar_of),
        ensures
            is_parsed_files(contents@, log_mar_of, r),
    {
        let mut f: usize = 0;
        while f < contents.len()
            invariant
                f <= contents@.len(),
                forall|g: int| 0 <= g < f ==> (#[trigger] contents@[g]).1@.len() > 0,
            decreases contents@.len() - f,
        {
            if contents[f].1.as_str().unicode_len() == 0 {
                return Err(VisualAcuityError::ParseError(String::new()));
            }
            f += 1;
        }
        let mut parsed: Vec<(i8, String, ChartRow)> = Vec::new();
        let mut f: usize = 0;
        while f < contents.len()
            invariant
                f <= contents@.len(),
                serves_ratios(log_mar_of),
                forall|g: int| 0 <= g < contents@.len() ==> (#[trigger] contents@[g]).1@.len() > 0,
                is_parsed(source_rows(contents@, f as nat), log_mar_of, parsed@),
                forall|j: int|
                    0 <= j < source_rows(contents@, f as nat).len() ==> !row_fails(
                        (#[trigger] source_rows(contents@, f as nat)[j]).fields,
                    ),
            decreases contents@.len() - f,
        {
            let name = contents[f].0.as_str();
            let table = map_tsv(contents[f].1.as_str());
            let ghost before = source_rows(contents@, f as nat);
            let ghost here = table_rows(contents@[f as int].0@, contents@[f as int].1@);
            let mut j: usize = 0;
            while j < table.len()
                invariant
                    j <= table@.len(),
                    f < contents@.len(),
                    serves_ratios(log_mar_of),
                    forall|g: int|
                        0 <= g < contents@.len() ==> (#[trigger] contents@[g]).1@.len() > 0,
                    name@ == contents@[f as int].0@,
                    is_table(contents@[f as int].1@, table@),
                    before == source_rows(contents@, f as nat),
                    here == table_rows(contents@[f as int].0@, contents@[f as int].1@),
                    here.len() == table@.len(),
                    parsed@.len() == before.len() + j,
                    forall|i: int|
                        0 <= i < before.len() ==> is_parsed_row(
                            before[i].chart,
                            before[i].fields,
                            log_mar_of,
                            Ok(#[trigger] parsed@[i]),
                        ),
                    forall|i: int|
                        0 <= i < j ==> is_parsed_row(
                            here[i].chart,
                            here[i].fields,
                            log_mar_of,
                            Ok(#[trigger] parsed@[before.len() + i]),
                        ),
                    forall|i: int| 0 <= i < before.len() ==> !row_fails((#[trigger] before[i]).fields),
                    forall|i: int| 0 <= i < j ==> !row_fails((#[trigger] here[i]).fields),
                decreases table@.len() - j,
            {
                assert(here[j as int].fields == text_map_view(table@[j as int].1));
                assert(here[j as int].line == table@[j as int].0@);
                match parse_row(name, &table[j].1, log_mar_of) {
                    Ok(row) => {
                        parsed.push(row);
                    },
                    Err(_) => {
                        let r = Err(VisualAcuityError::ParseError(table[j].0.clone()));
                        proof {
                            let rows = source_rows(contents@, contents@.len());
                            lemma_source_rows_prefix(contents@, (f + 1) as nat, contents@.len());
                            let i = before.len() + j;
                            assert(source_rows(contents@, (f + 1) as nat) == before + here);
                            assert(rows[i as int] == here[j as int]);
                            assert(row_fails(rows[i as int].fields));
                            assert forall|k: int| 0 <= k < i implies !row_fails(
                                (#[trigger] rows[k]).fields,
                            ) by {
                                if k < before.len() {
                                    assert(rows[k] == before[k]);
                                } else {
                                    assert(rows[k] == here[k - before.len()]);
                                }
                            }
                        }
                        return r;
                    },
                }
                j += 1;
            }
            proof {
                let next = source_rows(contents@, (f + 1) as nat);
                assert(next == before + here);
                assert forall|i: int| 0 <= i < next.len() implies is_parsed_row(
                    next[i].chart,
                    next[i].fields,
                    log_mar_of,
                    Ok(#[trigger] parsed@[i]),
                ) by {
                    if i < before.len() {
                        assert(next[i] == before[i]);
                    } else {
                        assert(next[i] == here[i - before.len()]);
                        assert(parsed@[i] == parsed@[before.len() + (i - before.len())]);
                    }
                }
                assert forall|i: int| 0 <= i < next.len() implies !row_fails(
                    (#[trigger] next[i]).fields,
                ) by {
                    if i < before.len() {
                        assert(next[i] == before[i]);
                    } else {
                        assert(next[i] == here[i - before.len()]);
                    }
                }
            }
            f += 1;
        }
        let r = build_chart(&parsed);
        proof {
            assert(is_parsed(source_rows(contents@, contents@.len()), log_mar_of, parsed@));
        }
        r
    }
}

/// The rows of the first files are the first of the rows of all files.
pub proof fn lemma_source_rows_prefix(contents: Seq<(String, String)>, upto: nat, all: nat)
    requires
        upto <= all <= contents.len(),
    ensures
        source_rows(contents, upto).len() <= source_rows(contents, all).len(),
        forall|i: int|
            0 <= i < source_rows(contents, upto).len() ==> source_rows(contents, all)[i]
                == source_rows(contents, upto)[i],
    decreases all - upto,
{
    if upto < all {
        lemma_source_rows_prefix(contents, upto, (all - 1) as nat);
    }
}

/// The names of the charts that rows are looked up in, the one with
/// the highest priority first.
pub open spec fn priority() -> Seq<Seq<char>> {
    seq!["snellen"@, "bailey-lovie"@, "jaeger"@, "teller"@, "schulze-bonzel"@, "etdrs"@]
}

/// The name of the chart with the priority `p`.
pub fn priority_name(p: usize) -> (r: &'static str)
    requires
        p < 6,
    ensures
        r@ == priority()[p as int],
{
    if p == 0 {
        "snellen"
    } else if p == 1 {
        "bailey-lovie"
    } else if p == 2 {
        "jaeger"
    } else if p == 3 {
        "teller"
    } else if p == 4 {
        "schulze-bonzel"
    } else {
        "etdrs"
    }
}

/// The place of the last of the first `upto` sources that has the
/// name `name`. A source is a pair of the name of a chart and the
/// contents of its files.
pub open spec fn last_named(
    sources: Seq<(String, Vec<String>)>,
    name: Seq<char>,
    upto: nat,
) -> Option<int>
    decreases upto,
{
    if upto == 0 {
        None
    } else if sources[upto - 1].0@ == name {
        Some(upto - 1)
    } else {
        last_named(sources, name, (upto - 1) as nat)
    }
}

/// Whether `contents` pairs each of the files with the name `name`.
pub open spec fn is_named(
    name: Seq<char>,
    files: Seq<String>,
    contents: Seq<(String, String)>,
) -> bool {
    &&& contents.len() == files.len()
    &&& forall|i: int|
        0 <= i < files.len() ==> (#[trigger] contents[i]).0@ == name && contents[i].1@ == files[i]@
}

/// Whether `r` is the chart that the files `files` of the chart `name`
/// describe, or the failure to make it.
pub open spec fn is_predefined<L: Fn(u64, u64) -> i64>(
    name: Seq<char>,
    files: Seq<String>,
    log_mar_of: &L,
    r: Result<Chart, VisualAcuityError>,
) -> bool {
    exists|contents: Seq<(String, String)>|
        is_named(name, files, contents) && #[trigger] is_parsed_files(contents, log_mar_of, r)
}

/// Whether `r` is the chart `name` as the sources describe it. A chart
/// that no source describes is not found.
pub open spec fn is_loaded<L: Fn(u64, u64) -> i64>(
    sources: Seq<(String, Vec<String>)>,
    name: Seq<char>,
    log_mar_of: &L,
    r: Result<Chart, VisualAcuityError>,
) -> bool {
    match last_named(sources, name, sources.len()) {
        None => r matches Err(VisualAcuityError::ChartNotFound(s)) && s@ == name,
        Some(place) => is_predefined(name, sources[place].1@, log_mar_of, r),
    }
}

/// Whether the chart with the priority `p` can be made from the
/// sources.
pub open spec fn loads<L: Fn(u64, u64) -> i64>(
    sources: Seq<(String, Vec<String>)>,
    p: int,
    log_mar_of: &L,
) -> bool {
    exists|chart: Chart| #[trigger] is_loaded(sources, priority()[p], log_mar_of, Ok(chart))
}

/// Makes the chart `name` from its files.
pub fn load_predefined<L: Fn(u64, u64) -> i64>(
    name: &str,
    filenames: &Vec<String>,
    log_mar_of: &L,
) -> (r: Result<(String, Chart), VisualAcuityError>)
    requires
        serves_ratios(log_mar_of),
    ensures
        match r {
            Ok((kept, chart)) => kept@ == name@ && is_predefined(
                name@,
                filenames@,
                log_mar_of,
                Ok(chart),
            ),
            Err(e) => is_predefined(name@, filenames@, log_mar_of, Err(e)),
        },
{
    let mut contents: Vec<(String, String)> = Vec::new();
    let mut i: usize = 0;
    while i < filenames.len()
        invariant
            i <= filenames@.len(),
            is_named(name@, filenames@.subrange(0, i as int), contents@),
        decreases filenames@.len() - i,
    {
        contents.push((name.to_owned(), filenames[i].clone()));
        i += 1;
    }
    assert(filenames@.subrange(0, i as int) =~= filenames@);
    match Chart::parse_files(&contents, log_mar_of) {
        Ok(chart) => {
            assert(is_parsed_files(contents@, log_mar_of, Ok(chart)));
            Ok((name.to_owned(), chart))
        },
        Err(e) => {
            assert(is_parsed_files(contents@, log_mar_of, Err(e)));
            Err(e)
        },
    }
}

impl Chart {
    /// Makes the chart `name` as the sources describe it. Of several
    /// sources with the name the last one counts.
    pub fn load<L: Fn(u64, u64) -> i64>(
        name: &str,
        sources: &Vec<(String, Vec<String>)>,
        log_mar_of: &L,
    ) -> (r: Result<Chart, VisualAcuityError>)
        requires
            serves_ratios(log_mar_of),
        ensures
            is_loaded(sources@, name@, log_mar_of, r),
    {
        let mut i: usize = sources.len();
        while i > 0
            invariant
                i <= sources@.len(),
                serves_ratios(log_mar_of),
                last_named(sources@, name@, sources@.len()) == last_named(sources@, name@, i as nat),
            decreases i,
        {
            if str_eq(sources[i - 1].0.as_str(), name) {
                return match load_predefined(name, &sources[i - 1].1, log_mar_of) {
                    Ok(pair) => Ok(pair.1),
                    Err(e) => Err(e),
                };
            }
            i -= 1;
        }
        Err(VisualAcuityError::ChartNotFound(name.to_owned()))
    }
}

impl ChartTable {
    /// Makes the charts that rows are looked up in, in the order of
    /// their priority. The first chart that cannot be made is reported.
    pub fn load<L: Fn(u64, u64) -> i64>(sources: &Vec<(String, Vec<String>)>, log_mar_of: &L) -> (r:
        Result<ChartTable, VisualAcuityError>)
        requires
            serves_ratios(log_mar_of),
        ensures
            match r {
                Ok(table) => table.charts@.len() == priority().len() && forall|p: int|
                    0 <= p < priority().len() ==> is_loaded(
                        sources@,
                        priority()[p],
                        log_mar_of,
                        Ok(#[trigger] table.charts@[p]),
                    ),
                Err(e) => exists|p: int|
                    {
                        &&& 0 <= p < priority().len()
                        &&& #[trigger] is_loaded(sources@, priority()[p], log_mar_of, Err(e))
                        &&& forall|q: int|
                            0 <= q < p ==> #[trigger] loads(sources@, q, log_mar_of)
                    },
            },
    {
        let mut charts: Vec<Chart> = Vec::new();
        let mut p: usize = 0;
        while p < 6
            invariant
                p <= 6,
                serves_ratios(log_mar_of),
                charts@.len() == p,
                forall|q: int|
                    0 <= q < p ==> is_loaded(
                        sources@,
                        priority()[q],
                        log_mar_of,
                        Ok(#[trigger] charts@[q]),
                    ),
            decreases 6 - p,
        {
            match Chart::load(priority_name(p), sources, log_mar_of) {
                Ok(chart) => {
                    charts.push(chart);
                },
                Err(e) => {
                    assert(is_loaded(sources@, priority()[p as int], log_mar_of, Err(e)));
                    assert forall|q: int| 0 <= q < p implies #[trigger] loads(
                        sources@,
                        q,
                        log_mar_of,
                    ) by {
                        assert(is_loaded(sources@, priority()[q], log_mar_of, Ok(charts@[q])));
                    }
                    return Err(e);
                },
            }
            p += 1;
        }
        Ok(ChartTable { charts })
    }
}

} // verus!
