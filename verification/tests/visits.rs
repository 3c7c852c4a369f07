use visualacuity::chartfiles::map_tsv;
use visualacuity::charts::{Chart, ChartRow, ChartTable};
use visualacuity::dataquality::DataQuality;
use visualacuity::distanceunits::DistanceUnits;
use visualacuity::errors::{OptionResult, VisualAcuityError};
use visualacuity::parser::wrapper::Token;
use visualacuity::pipeline::Parser;
use visualacuity::structure::{Fraction, ParsedItem, VAFormat};
use visualacuity::visit::assembly::{Visit, VisitNote};
use visualacuity::visit::metadata::{Correction, DistanceOfMeasurement, Laterality, PinHole};
use visualacuity::visit::sifting::SiftedParsedItems;
use visualacuity::visitinput::VisitInput;

const HEADER: &str = "Row\tText\tFraction\tLogMAR\tLetters\tDistance\n";

fn log_mar_of(numerator: u64, denominator: u64) -> i64 {
    (-((numerator as f64) / (denominator as f64)).log10() * 1_000_000.0).round() as i64
}

fn sources() -> Vec<(String, Vec<String>)> {
    let snellen = format!(
        "{HEADER}9\t20/15\t20/15\t\t6\t\n10\t20/20\t20/20\t\t6\t\n11\t20/25\t20/25\t\t6\t\n12\t20/30\t20/30\t\t6\t\n13\t20/40\t20/40\t\t6\t\n"
    );
    let bailey_feet = format!("{HEADER}9\t20/16\t20/16\t-0.1\t5\t\n10\t20/20\t20/20\t0.0\t5\t\n11\t20/25\t20/25\t+0.1\t5\t\n");
    let bailey_meters = format!("{HEADER}9\t6/4.8\t20/16\t-0.1\t5\t\n10\t6/6\t20/20\t0.0\t5\t\n11\t6/7.5\t20/25\t+0.1\t5\t\n");
    let jaeger = format!("{HEADER}1\tJ1\t20/20\t\t\t\n2\tJ2\t20/25\t\t\t\n5\tJ5\t20/50\t\t\t\n");
    let teller_feet = format!("{HEADER}17\t20/23\t20/23\t\t\t\n");
    let teller_cycm = format!("{HEADER}17\t38 cy/cm\t20/23\t\t\t\n");
    let teller_card = format!("{HEADER}17\tCard 17\t20/23\t\t\t\n");
    let schulze = format!("{HEADER}1\tCF\t20/1500\t1.85387196\t\t30 cm\n2\tHM\t20/4000\t2.30103\t\t30 cm\n3\tLP\t\t\t\t\n4\tNLP\t\t\t\t\n");
    let etdrs = format!("{HEADER}58\t58 letters\t20/63\t\t\t\n70\t70 letters\t20/40\t0.3\t\t\n85\t85 letters\t20/20\t0.0\t\t\n");
    vec![
        ("etdrs".to_string(), vec![etdrs]),
        ("snellen".to_string(), vec![snellen]),
        ("bailey-lovie".to_string(), vec![bailey_feet, bailey_meters]),
        ("jaeger".to_string(), vec![jaeger]),
        ("teller".to_string(), vec![teller_feet, teller_cycm, teller_card]),
        ("schulze-bonzel".to_string(), vec![schulze]),
    ]
}

fn charts() -> ChartTable {
    ChartTable::load(&sources(), &log_mar_of).expect("the charts of the tests load")
}

fn token(item: ParsedItem, left: usize, right: usize) -> Token {
    Token { item, left, right, data_quality: DataQuality::Exact }
}

fn s(text: &str) -> String {
    text.to_string()
}

/// A front end for the texts of the tests.
fn notes_front_end(text: &str) -> Result<Vec<Token>, VisualAcuityError> {
    match text {
        "" => Ok(vec![]),
        "20/20" => Ok(vec![token(ParsedItem::SnellenFraction(s("20/20")), 0, 5)]),
        "-2" => Ok(vec![token(ParsedItem::PlusLettersItem(-2), 0, 2)]),
        "20/20 j5" => Ok(vec![
            token(ParsedItem::SnellenFraction(s("20/20")), 0, 5),
            token(ParsedItem::Jaeger(s("J5")), 6, 8),
        ]),
        "20/20 etdrs 85 letters" => Ok(vec![
            token(ParsedItem::SnellenFraction(s("20/20")), 0, 5),
            token(ParsedItem::Text(s("etdrs")), 6, 11),
            token(ParsedItem::ETDRS(s("85 letters")), 12, 22),
        ]),
        "20/987" => Ok(vec![token(ParsedItem::SnellenFraction(s("20/987")), 0, 6)]),
        "csm" => Ok(vec![token(ParsedItem::VisualResponse(s("CSM")), 0, 3)]),
        "nt" => Ok(vec![token(
            ParsedItem::NotTakenItem(visualacuity::structure::NotTakenReason::NT),
            0,
            2,
        )]),
        "58 letters" => Ok(vec![token(ParsedItem::ETDRS(s("58 letters")), 0, 10)]),
        "cf" => Ok(vec![token(ParsedItem::NearTotalLoss(s("CF"), DistanceUnits::NotProvided), 0, 2)]),
        "cf at 2 feet" => Ok(vec![token(
            ParsedItem::NearTotalLoss(s("CF"), DistanceUnits::Feet(2_000_000)),
            0,
            12,
        )]),
        "cf at 30cm" => Ok(vec![token(
            ParsedItem::NearTotalLoss(s("CF"), DistanceUnits::Centimeters(30_000_000)),
            0,
            10,
        )]),
        "20/40 +3 -2" => Ok(vec![
            token(ParsedItem::SnellenFraction(s("20/40")), 0, 5),
            token(ParsedItem::PlusLettersItem(3), 6, 8),
            token(ParsedItem::PlusLettersItem(-2), 9, 11),
        ]),
        "bad spans" => Ok(vec![token(ParsedItem::Text(s("bad")), 5, 3)]),
        other => Err(VisualAcuityError::ParseError(format!("unrecognised: {other}"))),
    }
}

/// A front end for the names of the fields of the tests.
fn key_front_end(key: &str) -> Result<Vec<ParsedItem>, VisualAcuityError> {
    let mut items = vec![];
    for word in key.split_whitespace() {
        match word {
            "both" => items.push(ParsedItem::LateralityItem(Laterality::OU)),
            "left" => items.push(ParsedItem::LateralityItem(Laterality::OS)),
            "right" => items.push(ParsedItem::LateralityItem(Laterality::OD)),
            "distance" => items.push(ParsedItem::DistanceItem(DistanceOfMeasurement::Distance)),
            "near" => items.push(ParsedItem::DistanceItem(DistanceOfMeasurement::Near)),
            "cc" => items.push(ParsedItem::CorrectionItem(Correction::CC)),
            "sc" => items.push(ParsedItem::CorrectionItem(Correction::SC)),
            "manifest" => items.push(ParsedItem::CorrectionItem(Correction::Manifest)),
            "broken" => return Err(VisualAcuityError::ParseError(s("broken"))),
            _ => {}
        }
    }
    Ok(items)
}

fn parse(pairs: &[(&str, &str)]) -> Result<Visit, VisualAcuityError> {
    let mut parser =
        Parser::new(charts(), notes_front_end, key_front_end, log_mar_of).expect("the parser is made");
    let input =
        VisitInput::from_pairs(pairs.iter().map(|(k, v)| (k.to_string(), v.to_string())).collect());
    parser.parse_visit(&input)
}

fn only_note(pairs: &[(&str, &str)]) -> VisitNote {
    let visit = parse(pairs).expect("the visit is read");
    assert_eq!(visit.0.len(), 1);
    visit.0.into_iter().next().unwrap().1.expect("the field has a record")
}

fn close(actual: &OptionResult<i64>, expected: f64) -> bool {
    match actual {
        OptionResult::Present(v) => ((*v as f64) / 1_000_000.0 - expected).abs() < 0.00005,
        _ => false,
    }
}

#[test]
fn test_visit_with_plus_column() {
    let visit = parse(&[("Both Eyes Distance CC", "20/20"), ("Both Eyes Distance CC +/-", "-2")])
        .expect("the visit is read");
    assert_eq!(visit.0.len(), 1);
    assert_eq!(visit.0[0].0, "Both Eyes Distance CC");
    let note = visit.0[0].1.clone().expect("the field has a record");
    assert_eq!(note.text, "20/20");
    assert_eq!(note.text_plus, "-2");
    assert_eq!(note.data_quality, DataQuality::Exact);
    assert_eq!(note.laterality, Laterality::OU);
    assert_eq!(note.distance_of_measurement, DistanceOfMeasurement::Distance);
    assert_eq!(note.correction, Correction::CC);
    assert_eq!(note.pinhole, PinHole::Unknown);
    assert_eq!(note.va_format, Ok(VAFormat::Snellen));
    assert_eq!(note.extracted_value, "20/20");
    assert_eq!(note.plus_letters, vec![-2]);
    assert_eq!(note.snellen_equivalent, OptionResult::Present(Fraction::from_whole(20, 20)));
    assert_eq!(note.log_mar_base, OptionResult::Present(0));
    assert!(close(&note.log_mar_base_plus_letters, 0.0323));
    assert_eq!(note.log_mar_base_plus_letters, OptionResult::Present(32303));
}

#[test]
fn test_visit_with_conflicting_methods() {
    let note = only_note(&[("X", "20/20 J5")]);
    assert_eq!(note.extracted_value, "Error");
    assert_eq!(note.data_quality, DataQuality::Multiple);
    let conflict = VisualAcuityError::MultipleValues(s("[20/20, J5]"));
    assert_eq!(note.va_format, Err(conflict.clone()));
    assert_eq!(note.snellen_equivalent, OptionResult::Failed(conflict.clone()));
    assert_eq!(note.log_mar_base, OptionResult::Failed(conflict.clone()));
    assert_eq!(note.log_mar_base_plus_letters, OptionResult::Failed(conflict));
}

#[test]
fn test_visit_equivalent_acuities_keep_the_last() {
    let note = only_note(&[("", "20/20 ETDRS 85 letters")]);
    assert_eq!(note.va_format, Ok(VAFormat::ETDRS));
    assert_eq!(note.extracted_value, "85 letters");
    assert_eq!(note.snellen_equivalent, OptionResult::Present(Fraction::from_whole(20, 20)));
    assert_eq!(note.log_mar_base, OptionResult::Present(0));
}

#[test]
fn test_visit_empty_field_has_no_record() {
    let visit = parse(&[("Left Eye", "   "), ("Right Eye", "20/20")]).expect("the visit is read");
    assert_eq!(visit.0.len(), 2);
    assert_eq!(visit.0[0].0, "Left Eye");
    assert_eq!(visit.0[0].1, None);
    assert_eq!(visit.0[1].0, "Right Eye");
    assert_eq!(visit.0[1].1.as_ref().map(|n| n.laterality), Some(Laterality::OD));
}

#[test]
fn test_visit_unknown_row_becomes_text() {
    let note = only_note(&[("Visual Acuity", "20/987")]);
    assert_eq!(note.data_quality, DataQuality::NoValue);
    assert_eq!(note.va_format, Ok(VAFormat::Unknown));
    assert_eq!(note.extracted_value, "");
    assert_eq!(note.snellen_equivalent, OptionResult::Absent);
    assert_eq!(note.log_mar_base, OptionResult::Absent);
    assert_eq!(note.log_mar_base_plus_letters, OptionResult::Absent);
}

#[test]
fn test_visit_other_observation_is_the_base() {
    let note = only_note(&[("Visual Acuity", "CSM")]);
    assert_eq!(note.data_quality, DataQuality::Exact);
    assert_eq!(note.va_format, Ok(VAFormat::VisualResponse));
    assert_eq!(note.extracted_value, "CSM");
    assert_eq!(
        note.snellen_equivalent,
        OptionResult::Failed(VisualAcuityError::NoSnellenEquivalent(s("CSM")))
    );
    let note = only_note(&[("", "NT")]);
    assert_eq!(note.extracted_value, "NT");
    assert_eq!(note.va_format, Ok(VAFormat::NotTaken));
}

#[test]
fn test_visit_two_counts_of_letters_are_fuzzy() {
    let note = only_note(&[("Visual Acuity", "20/40 +3 -2")]);
    assert_eq!(note.plus_letters, vec![3, -2]);
    assert_eq!(note.data_quality, DataQuality::ConvertibleFuzzy);
    assert_eq!(note.log_mar_base, OptionResult::Present(301030));
    // 3 letters toward 20/30 and 2 letters back toward 20/50, which the chart lacks.
    assert_eq!(
        note.log_mar_base_plus_letters,
        OptionResult::Failed(VisualAcuityError::LogMarInvalidSnellenRow(s(
            "Missing previous row values: snellen row 13"
        )))
    );
}

#[test]
fn test_visit_failing_names_are_gathered() {
    let result = parse(&[("broken a", "20/20"), ("fine", "20/20"), ("broken b", "20/20")]);
    assert_eq!(
        result,
        Err(VisualAcuityError::MultipleErrors(vec![
            VisualAcuityError::ParseError(s("broken")),
            VisualAcuityError::ParseError(s("broken")),
        ]))
    );
}

#[test]
fn test_visit_front_end_failure_is_kept_as_text() {
    let note = only_note(&[("Visual Acuity", "gibberish")]);
    assert_eq!(note.text, "gibberish");
    assert_eq!(note.data_quality, DataQuality::NoValue);
    assert_eq!(note.extracted_value, "");
    let note = only_note(&[("Visual Acuity", "bad spans")]);
    assert_eq!(note.data_quality, DataQuality::NoValue);
}

#[test]
fn test_visit_metadata_from_the_name() {
    let note = only_note(&[("Manifest Both Eyes", "20/20")]);
    assert_eq!(note.correction, Correction::Manifest);
    assert_eq!(note.distance_of_measurement, DistanceOfMeasurement::Distance);
    let note = only_note(&[("Manifest Both Eyes Near", "20/20")]);
    assert_eq!(note.distance_of_measurement, DistanceOfMeasurement::Near);
    let note = only_note(&[("Visual Acuity", "20/20")]);
    assert_eq!(note.correction, Correction::Unknown);
    assert_eq!(note.laterality, Laterality::Unknown);
}

#[test]
fn test_visit_near_total_loss() {
    let note = only_note(&[("", "CF")]);
    assert_eq!(note.va_format, Ok(VAFormat::NearTotalLoss));
    assert_eq!(note.extracted_value, "CF");
    assert_eq!(
        note.snellen_equivalent,
        OptionResult::Failed(VisualAcuityError::NoSnellenEquivalent(s("CF")))
    );
    assert_eq!(note.log_mar_base, OptionResult::Failed(VisualAcuityError::NotImplemented));
    let note = only_note(&[("", "CF at 2 feet")]);
    assert_eq!(note.extracted_value, "CF @ 2 feet");
    assert_eq!(note.snellen_equivalent, OptionResult::Present(Fraction::from_whole(20, 738)));
    let note = only_note(&[("", "CF at 30cm")]);
    assert_eq!(note.extracted_value, "CF @ 0.98 feet");
    assert_eq!(note.snellen_equivalent, OptionResult::Present(Fraction::from_whole(20, 1500)));
    assert!(close(&note.log_mar_base, 1.85387196));
}

#[test]
fn test_visit_derived_log_mar_is_rounded_for_etdrs() {
    let note = only_note(&[("", "58 letters")]);
    assert_eq!(note.snellen_equivalent, OptionResult::Present(Fraction::from_whole(20, 63)));
    assert_eq!(note.log_mar_base, OptionResult::Present(500000));
}

#[test]
fn test_cache_does_not_ask_the_front_end_twice() {
    let calls = std::cell::Cell::new(0u32);
    let counting = |text: &str| {
        calls.set(calls.get() + 1);
        notes_front_end(text)
    };
    let mut parser =
        Parser::new(charts(), counting, key_front_end, log_mar_of).expect("the parser is made");
    let first = parser.parse_visit_note("Right Eye", "20/20", "");
    let asked = calls.get();
    assert_eq!(asked, 2);
    let second = parser.parse_visit_note("  RIGHT eye ", " 20/20  ", "");
    assert_eq!(calls.get(), asked);
    assert_eq!(first, second);
    let third = parser.parse_visit_note("Left Eye", "20/20", "");
    assert_eq!(calls.get(), asked + 2);
    assert_ne!(first, third);
    // Reading other fields in between does not make the parser forget.
    let fourth = parser.parse_visit_note("right EYE", "20/20", " ");
    assert_eq!(calls.get(), asked + 2);
    assert_eq!(first, fourth);
    // A blank field is not read at all.
    assert_eq!(parser.parse_visit_note("Right Eye", " ", ""), Ok(None));
    assert_eq!(calls.get(), asked + 2);
}

#[test]
fn test_base_and_plus_letters() {
    let parser =
        Parser::new(charts(), notes_front_end, key_front_end, log_mar_of).expect("the parser is made");
    let parsed_notes = parser.parse_text("CSM").content;
    let tables = charts();
    let sifted = SiftedParsedItems::sift(parsed_notes);
    assert_eq!(vec![ParsedItem::VisualResponse(s("CSM"))], sifted.other_observations);
    assert_eq!(
        OptionResult::Present(&ParsedItem::VisualResponse(s("CSM"))),
        sifted.base_acuity_(&tables)
    );
}

#[test]
fn test_load() {
    let bailey_lovie = Chart::load("bailey-lovie", &sources(), &log_mar_of).expect("the chart loads");
    let actual = bailey_lovie.get_row("20/20").and_then(|r| r.next_log_mar);
    assert_eq!(actual, Some(-100_000));
}

#[test]
fn test_snellen_logmar() {
    let chart = Chart::load("bailey-lovie", &sources(), &log_mar_of).expect("the chart loads");
    let va = chart.get_row("20/20").expect("");
    assert_eq!(va.log_mar_base(&log_mar_of), Ok(0));
}

#[test]
fn test_snellen_equivalent() {
    let chart = Chart::load("bailey-lovie", &sources(), &log_mar_of).expect("the chart loads");
    let va = chart.get_row("20/20").expect("");
    assert_eq!(va.snellen_equivalent(), Ok(Fraction::from_whole(20, 20)));
}

#[test]
fn test_test_teller() {
    let tables = charts();
    assert_eq!(
        ParsedItem::SnellenFraction(s("20/23")).snellen_equivalent(&tables),
        Ok(Fraction::from_whole(20, 23)),
        "20/23 fraction"
    );
    assert_eq!(
        ParsedItem::SnellenFraction(s("20/23")).log_mar_base(&tables, &log_mar_of),
        Ok(60698),
        "20/23 logmar"
    );
    assert_eq!(
        ParsedItem::SnellenFraction(s("38 cy/cm")).snellen_equivalent(&tables),
        Ok(Fraction::from_whole(20, 23)),
        "38 cy/cm fraction"
    );
    assert_eq!(
        ParsedItem::SnellenFraction(s("38 cy/cm")).log_mar_base(&tables, &log_mar_of),
        Ok(60698),
        "38 cy/cm logmar"
    );
    assert_eq!(
        ParsedItem::SnellenFraction(s("Card 17")).snellen_equivalent(&tables),
        Ok(Fraction::from_whole(20, 23)),
        "Card 17 fraction"
    );
    assert_eq!(
        ParsedItem::SnellenFraction(s("Card 17")).log_mar_base(&tables, &log_mar_of),
        Ok(60698),
        "Card 17 logmar"
    );
}

#[test]
fn tests_parser_test_teller() {
    let tables = charts();
    assert_eq!(
        ParsedItem::SnellenFraction(s("20/23")).snellen_equivalent(&tables),
        Ok(Fraction::from_whole(20, 23)),
        "20/23 fraction"
    );
    assert_eq!(
        ParsedItem::SnellenFraction(s("20/23")).log_mar_base(&tables, &log_mar_of),
        Ok(60698),
        "20/23 logmar"
    );
    assert_eq!(
        ParsedItem::SnellenFraction(s("38 cy/cm")).snellen_equivalent(&tables),
        Ok(Fraction::from_whole(20, 23)),
        "38 cy/cm fraction"
    );
    assert_eq!(
        ParsedItem::SnellenFraction(s("38 cy/cm")).log_mar_base(&tables, &log_mar_of),
        Ok(60698),
        "38 cy/cm logmar"
    );
    assert_eq!(
        ParsedItem::SnellenFraction(s("Card 17")).snellen_equivalent(&tables),
        Ok(Fraction::from_whole(20, 23)),
        "Card 17 fraction"
    );
    assert_eq!(
        ParsedItem::SnellenFraction(s("Card 17")).log_mar_base(&tables, &log_mar_of),
        Ok(60698),
        "Card 17 logmar"
    );
}

#[test]
fn test_teller_rows() {
    let tables = charts();
    let row = ChartRow::find(&tables, " Card 17 ").expect("the row is found");
    assert_eq!(row.chart_name, "teller");
    assert_eq!(row.row_number, 17);
    assert_eq!(row.fraction, Some(Fraction::from_whole(20, 23)));
    assert_eq!(row.log_mar, Some(60698));
    let item = ParsedItem::Teller(s("Card 17"));
    assert_eq!(item.snellen_equivalent(&tables), Ok(Fraction::from_whole(20, 23)));
}

#[test]
fn test_chart_adjacency() {
    let tables = charts();
    let row = ChartRow::find(&tables, "20/20").expect("the row is found");
    let better = ChartRow::find(&tables, "20/15").expect("the row is found");
    assert_eq!(row.chart_name, "snellen");
    assert_eq!(row.next_log_mar, better.log_mar);
    assert_eq!(row.next_n_letters, better.n_letters);
    let base = row.with_plus_letters(&vec![], &log_mar_of).unwrap();
    let mut last = base;
    for letters in 1..=5 {
        let value = row.with_plus_letters(&vec![letters], &log_mar_of).unwrap();
        assert!(value < last);
        last = value;
    }
    let mut last = base;
    for letters in 1..=5 {
        let value = row.with_plus_letters(&vec![-letters], &log_mar_of).unwrap();
        assert!(value > last);
        last = value;
    }
}

#[test]
fn test_chart_priority_and_conflicts() {
    let tables = charts();
    // "20/20" stands in the first two charts; the first one counts.
    assert_eq!(ChartRow::find(&tables, "20/20").map(|r| r.chart_name.clone()), Some(s("snellen")));
    assert_eq!(ChartRow::find(&tables, "20/16").map(|r| r.chart_name.clone()), Some(s("bailey-lovie")));
    assert!(ChartRow::find(&tables, "20/987").is_none());
    let mut missing = sources();
    missing.retain(|(name, _)| name != "jaeger");
    assert_eq!(
        ChartTable::load(&missing, &log_mar_of),
        Err(VisualAcuityError::ChartNotFound(s("jaeger")))
    );
    let clash = vec![(s("x"), format!("{HEADER}1\tA\t20/20\t\t\t\n1\tB\t20/25\t\t\t\n"))];
    assert_eq!(
        Chart::parse_files(&clash, &log_mar_of),
        Err(VisualAcuityError::MultipleValues(s("x row 1")))
    );
    let unreadable = vec![(s("x"), format!("{HEADER}1\tA\t20/20\t\t\t\nten\tB\t20/25\t\t\t\n"))];
    assert_eq!(
        Chart::parse_files(&unreadable, &log_mar_of),
        Err(VisualAcuityError::ParseError(s("ten\tB\t20/25")))
    );
    let empty = vec![(s("x"), s(""))];
    assert_eq!(Chart::parse_files(&empty, &log_mar_of), Err(VisualAcuityError::ParseError(s(""))));
}

#[test]
fn test_map_tsv() {
    let rows = map_tsv("A\tB\tC\r\n1\t2\t3\r\n\r\n  x\ty  \n");
    assert_eq!(rows.len(), 2);
    assert_eq!(rows[0].0, "1\t2\t3");
    assert_eq!(rows[0].1.get("A").map(|v| v.as_str()), Some("1"));
    assert_eq!(rows[0].1.get("C").map(|v| v.as_str()), Some("3"));
    assert_eq!(rows[1].0, "x\ty");
    assert_eq!(rows[1].1.get("B").map(|v| v.as_str()), Some("y"));
    assert_eq!(rows[1].1.get("C"), None);
}

fn row(pairs: &[(&str, &str)]) -> visualacuity::textmap::TextMap<String> {
    let mut fields = visualacuity::textmap::TextMap::new();
    for (name, text) in pairs {
        fields.insert(name.to_string(), text.to_string());
    }
    fields
}

#[test]
fn test_parse_row() {
    use_row_ok();
    let parse = |pairs: &[(&str, &str)]| {
        visualacuity::chartfiles::parse_row("snellen", &row(pairs), &log_mar_of).map(|r| (r.0, r.1))
    };
    assert_eq!(parse(&[("Text", "20/20")]), Err(VisualAcuityError::ParseError(s("Row"))));
    assert_eq!(parse(&[("Row", "x1"), ("Text", "20/20")]), Err(VisualAcuityError::ParseError(s("x1"))));
    assert_eq!(parse(&[("Row", "200"), ("Text", "20/20")]), Err(VisualAcuityError::ParseError(s("200"))));
    assert_eq!(parse(&[("Row", "1")]), Err(VisualAcuityError::ParseError(s("Text"))));
    assert_eq!(
        parse(&[("Row", "1"), ("Text", "a"), ("Fraction", " 20:20 "), ("Letters", "x")]),
        Err(VisualAcuityError::ParseError(s("20:20")))
    );
    assert_eq!(
        parse(&[("Row", "1"), ("Text", "a"), ("LogMAR", "++zero")]),
        Err(VisualAcuityError::ParseError(s("zero")))
    );
    assert_eq!(
        parse(&[("Row", "1"), ("Text", "a"), ("Letters", "-0")]),
        Err(VisualAcuityError::ParseError(s("-0")))
    );
    assert_eq!(
        parse(&[("Row", "1"), ("Text", "a"), ("Distance", "3 yards")]),
        Err(VisualAcuityError::ParseError(s("3 yards")))
    );
    assert_eq!(
        parse(&[("Row", "1"), ("Text", "a"), ("Fraction", "0/20")]),
        Err(VisualAcuityError::NotImplemented)
    );
    assert_eq!(parse(&[("Row", "-1"), ("Text", " a "), ("Fraction", "0/0")]), Ok((-1, s(" a "))));
}

fn use_row_ok() {
    let fields = row(&[
        ("Row", "+10"),
        ("Text", "20/20"),
        ("Fraction", "20/40"),
        ("LogMAR", " "),
        ("Letters", "+5"),
        ("Distance", "30 cm"),
    ]);
    let (number, text, parsed) =
        visualacuity::chartfiles::parse_row("snellen", &fields, &log_mar_of).expect("the row is read");
    assert_eq!((number, text.as_str()), (10, "20/20"));
    assert_eq!(parsed.chart_name, "snellen");
    assert_eq!(parsed.fraction, Some(Fraction::from_whole(20, 40)));
    assert_eq!(parsed.log_mar, Some(301030));
    assert!(parsed.log_mar_derived);
    assert_eq!(parsed.n_letters, Some(5));
    assert_eq!(parsed.reference_distance, DistanceUnits::Centimeters(30_000_000));
    assert_eq!((parsed.prev_log_mar, parsed.next_log_mar, parsed.next_n_letters), (None, None, None));
}

#[test]
fn test_visit_conflict_is_shared() {
    let note = only_note(&[("", "20/20 J5")]);
    let conflict = match &note.va_format {
        Err(VisualAcuityError::MultipleValues(text)) => VisualAcuityError::MultipleValues(text.clone()),
        other => panic!("the format is {other:?}"),
    };
    assert_eq!(note.snellen_equivalent, OptionResult::Failed(conflict.clone()));
    assert_eq!(note.log_mar_base, OptionResult::Failed(conflict.clone()));
    assert_eq!(note.log_mar_base_plus_letters, OptionResult::Failed(conflict));
    // Without a primary observation the formats of the items decide.
    let note = only_note(&[("", "20/987")]);
    assert_eq!(note.va_format, Ok(VAFormat::Unknown));
}
