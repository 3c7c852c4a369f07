use visualacuity::charts::ChartTable;
use visualacuity::dataquality::DataQuality;
use visualacuity::distanceunits::DistanceUnits;
use visualacuity::errors::VisualAcuityError;
use visualacuity::parser::decorator::{from_items, Content};
use visualacuity::parser::grammar_helpers::{
    extract_float, extract_floats, iter_decimals, merge_consecutive_texts, validate,
};
use visualacuity::structure::{Fraction, NotTakenReason, ParsedItem, VAFormat};
use visualacuity::visit::metadata::{Correction, DistanceOfMeasurement, Laterality, PinHole};

fn s(text: &str) -> String {
    text.to_string()
}

fn no_charts() -> ChartTable {
    ChartTable { charts: vec![] }
}

fn content<'a>(item: ParsedItem, input: &'a str, left: usize, right: usize) -> Content<'a, ParsedItem> {
    Content { content: item, input, left, right, data_quality: DataQuality::ConvertibleFuzzy }
}

#[test]
fn test_merge_texts() {
    let test_cases = [(
        vec![
            Content {
                content: ParsedItem::Text("asdf".to_string()),
                left: 0,
                right: 4,
                input: "asdf qwerty",
                data_quality: DataQuality::ConvertibleFuzzy,
            },
            Content {
                content: ParsedItem::Text("qwerty".to_string()),
                left: 5,
                right: 11,
                input: "asdf qwerty",
                data_quality: DataQuality::ConvertibleFuzzy,
            },
        ],
        vec![ParsedItem::Text("asdf qwerty".to_string())],
    )];
    for (va, expected) in test_cases {
        let actual = merge_consecutive_texts(va, &no_charts()).content;
        assert_eq!(actual.0, expected);
    }
}

#[test]
fn test_validate_turns_unknown_rows_into_text() {
    let input = "ok 20/987 x";
    let item = content(ParsedItem::SnellenFraction(s("20/987")), input, 3, 9);
    let once = validate(item, &no_charts());
    assert_eq!(once.content, ParsedItem::Text(s("20/987")));
    assert_eq!((once.left, once.right), (3, 9));
    let twice = validate(once.clone(), &no_charts());
    assert_eq!(twice, once);
    let kept = validate(content(ParsedItem::PlusLettersItem(2), input, 0, 2), &no_charts());
    assert_eq!(kept.content, ParsedItem::PlusLettersItem(2));
}

#[test]
fn test_merge_drops_empty_text_and_keeps_others() {
    let input = "ab 20/987 +1 cd";
    let items = vec![
        content(ParsedItem::Text(s("ab")), input, 0, 2),
        content(ParsedItem::Text(s("")), input, 2, 2),
        content(ParsedItem::SnellenFraction(s("20/987")), input, 3, 9),
        content(ParsedItem::PlusLettersItem(1), input, 10, 12),
        content(ParsedItem::Text(s("cd")), input, 13, 15),
    ];
    let merged = merge_consecutive_texts(items, &no_charts());
    assert_eq!(
        merged.content.0,
        vec![ParsedItem::Text(s("ab 20/987")), ParsedItem::PlusLettersItem(1), ParsedItem::Text(s("cd"))]
    );
    assert_eq!(merged.left, 0);
    assert_eq!(merged.right, 15);
    assert_eq!(merged.data_quality, DataQuality::ConvertibleFuzzy);
    assert_eq!(merged.input, input);
}

#[test]
fn test_content_helpers() {
    let whole = Content::new(7u32, "héllo wörld", DataQuality::Exact);
    assert_eq!((whole.left, whole.right), (0, 11));
    assert_eq!(whole.input_string(), "héllo wörld");
    let part = Content { content: 7u32, input: "héllo wörld", left: 6, right: 11, data_quality: DataQuality::Exact };
    assert_eq!(part.input_string(), "wörld");
    let mapped = part.map(|v| v + 1);
    assert_eq!(mapped.content, 8);
    assert_eq!((mapped.left, mapped.right), (6, 11));
    let gathered = from_items(vec![
        Content { content: 1u8, input: "a", left: 0, right: 3, data_quality: DataQuality::Exact },
        Content { content: 2u8, input: "b", left: 1, right: 2, data_quality: DataQuality::CrossReference },
    ]);
    assert_eq!(gathered.content, vec![1, 2]);
    assert_eq!(gathered.input, "b");
    assert_eq!((gathered.left, gathered.right), (0, 3));
    assert_eq!(gathered.data_quality, DataQuality::Exact);
    let none = from_items(Vec::<Content<u8>>::new());
    assert_eq!(none.input, "");
    assert_eq!(none.data_quality, DataQuality::NoValue);
}

#[test]
fn test_item_texts() {
    assert_eq!(ParsedItem::SnellenFraction(s("20/20")).to_text(), "20/20");
    assert_eq!(ParsedItem::PlusLettersItem(3).to_text(), "+3");
    assert_eq!(ParsedItem::PlusLettersItem(-2).to_text(), "-2");
    assert_eq!(ParsedItem::PlusLettersItem(0).to_text(), "0");
    assert_eq!(ParsedItem::PlusLettersItem(i32::MIN).to_text(), "-2147483648");
    assert_eq!(ParsedItem::NearTotalLoss(s("CF"), DistanceUnits::Feet(2_000_000)).to_text(), "CF @ 2 feet");
    assert_eq!(
        ParsedItem::NearTotalLoss(s("HM"), DistanceUnits::Centimeters(30_000_000)).to_text(),
        "HM @ 0.98 feet"
    );
    assert_eq!(ParsedItem::NearTotalLoss(s("HM"), DistanceUnits::Inches(18_060_000)).to_text(), "HM @ 1.51 feet");
    assert_eq!(ParsedItem::NearTotalLoss(s("LP"), DistanceUnits::NotProvided).to_text(), "LP");
    assert_eq!(ParsedItem::NotTakenItem(NotTakenReason::SeeMR).to_text(), "SeeMR");
    assert_eq!(ParsedItem::LateralityItem(Laterality::OU).to_text(), "OU");
    assert_eq!(ParsedItem::DistanceItem(DistanceOfMeasurement::Near).to_text(), "Near");
    assert_eq!(ParsedItem::CorrectionItem(Correction::Manifest).to_text(), "Manifest");
    assert_eq!(ParsedItem::PinHoleItem(PinHole::Without).to_text(), "Without");
    assert_eq!(ParsedItem::Text(s("a name")).to_text(), "[text]");
    assert_eq!(ParsedItem::Unhandled(s("a name")).to_text(), "[text]");
    assert_eq!(Fraction(20_000_000, 12_500_000).to_text(), "20/12.5");
    assert_eq!(Fraction(6_000_000, 7_050_000).to_text(), "6/7.05");
    assert_eq!(Fraction(1, 1_000_001).to_text(), "0.000001/1.000001");
}

#[test]
fn test_item_kinds() {
    assert!(ParsedItem::ETDRS(s("58 letters")).can_be_base());
    assert!(!ParsedItem::VisualResponse(s("CSM")).can_be_base());
    assert_eq!(ParsedItem::Teller(s("Card 17")).chart_row_key(), Ok(s("Card 17")));
    assert_eq!(ParsedItem::NearTotalLoss(s("CF"), DistanceUnits::Feet(3_000_000)).chart_row_key(), Ok(s("CF")));
    assert_eq!(
        ParsedItem::VisualResponse(s("CSM")).chart_row_key(),
        Err(VisualAcuityError::NoSnellenEquivalent(s("CSM")))
    );
    assert_eq!(
        ParsedItem::NearTotalLoss(s("CF"), DistanceUnits::Feet(3_000_000)).measurement_distance(),
        DistanceUnits::Feet(3_000_000)
    );
    assert_eq!(ParsedItem::Jaeger(s("J1")).measurement_distance(), DistanceUnits::NotProvided);
    assert_eq!(VAFormat::from(ParsedItem::Jaeger(s("J1"))), VAFormat::Jaeger);
    assert_eq!(VAFormat::from(ParsedItem::PinHoleItem(PinHole::With)), VAFormat::PinHole);
    assert_eq!(VAFormat::from(ParsedItem::Text(s("x"))), VAFormat::Unknown);
    assert_eq!(
        ParsedItem::Jaeger(s("J9")).find_chart_row(&no_charts()),
        Err(VisualAcuityError::ChartRowNotFound(s("J9")))
    );
}

#[test]
fn test_fraction_from_text() {
    assert_eq!(Fraction::from_str("20/20"), Ok(Fraction::from_whole(20, 20)));
    assert_eq!(Fraction::from_str("  6 / 7.5 "), Ok(Fraction(6_000_000, 7_500_000)));
    assert_eq!(Fraction::from_str("20./12.1234567"), Ok(Fraction(20_000_000, 12_123_456)));
    for bad in ["20", "/20", "20/", "a/b", "20/2/0", "-20/20", "20/.5", "99999999999999/1"] {
        assert_eq!(Fraction::from_str(bad), Err(VisualAcuityError::ParseError(s(bad))), "{bad}");
    }
}

#[test]
fn test_distance_from_text() {
    assert_eq!(DistanceUnits::from_str("30 cm"), Ok(DistanceUnits::Centimeters(30_000_000)));
    assert_eq!(DistanceUnits::from_str(" 1.5ft away"), Ok(DistanceUnits::Feet(1_500_000)));
    assert_eq!(DistanceUnits::from_str("2.ft"), Ok(DistanceUnits::Feet(2_000_000)));
    for bad in ["", "cm", "30", "30 m", "30 Cm", "3 ft\nx", ".5 ft"] {
        assert_eq!(DistanceUnits::from_str(bad), Err(VisualAcuityError::ParseError(s(bad))), "{bad:?}");
    }
}

#[test]
fn test_numbers_in_text() {
    assert_eq!(iter_decimals("20/23 (38.0 cy/cm) Card 17"), vec![20_000_000, 23_000_000, 38_000_000, 17_000_000]);
    assert_eq!(iter_decimals("a .5 b 1.2.3 c . d 7. e"), vec![500_000, 7_000_000]);
    assert_eq!(iter_decimals("no numbers"), Vec::<u64>::new());
    assert_eq!(extract_float("Card 17"), Ok(17_000_000));
    assert_eq!(extract_float("Card"), Err(VisualAcuityError::NoValue));
    assert_eq!(extract_float("6.5 of 12"), Err(VisualAcuityError::MultipleValues(s("[6.5, 12]"))));
    assert_eq!(extract_floats("20/23", 2), Ok(vec![20_000_000, 23_000_000]));
    assert_eq!(extract_floats("20/23/3", 2), Ok(vec![20_000_000, 23_000_000]));
    assert_eq!(extract_floats("20", 2), Err(VisualAcuityError::ParseError(s("20"))));
}

#[test]
fn test_collection_accessors() {
    let items = visualacuity::structure::ParsedItemCollection(vec![
        ParsedItem::LateralityItem(Laterality::OD),
        ParsedItem::VisualResponse(s("CSM")),
        ParsedItem::PlusLettersItem(2),
        ParsedItem::CorrectionItem(Correction::SC),
        ParsedItem::PlusLettersItem(-1),
        ParsedItem::DistanceItem(DistanceOfMeasurement::Near),
        ParsedItem::LateralityItem(Laterality::OU),
    ]);
    assert_eq!(items.len(), 7);
    assert_eq!(items.iter().len(), 7);
    assert_eq!(items.plus_letters(), vec![2, -1]);
    assert_eq!(items.laterality(), vec![Laterality::OD, Laterality::OU]);
    assert_eq!(items.correction(), vec![Correction::SC]);
    assert_eq!(items.distance(), vec![DistanceOfMeasurement::Near]);
    assert_eq!(
        items.base_acuity(&no_charts()),
        visualacuity::errors::OptionResult::Present(&ParsedItem::VisualResponse(s("CSM")))
    );
    let conflict = visualacuity::structure::ParsedItemCollection(vec![
        ParsedItem::Jaeger(s("J1")),
        ParsedItem::Jaeger(s("J1")),
        ParsedItem::Jaeger(s("J2")),
    ]);
    assert_eq!(
        conflict.base_acuity(&no_charts()),
        visualacuity::errors::OptionResult::Failed(VisualAcuityError::MultipleValues(s("[J1, J2]")))
    );
}
