use visualacuity::cache::LruCacher;
use visualacuity::dataquality::DataQuality;
use visualacuity::disambiguation::{disambiguate, distinct_sorted, Category};
use visualacuity::distanceunits::DistanceUnits;
use visualacuity::errors::{OptionResult, VisualAcuityError};
use visualacuity::logmar::{derive_log_mar, scale_log_mar};
use visualacuity::structure::{Fraction, ParsedItem, VAFormat};
use visualacuity::visit::assembly::EntryMetadata;
use visualacuity::visit::metadata::{Correction, DistanceOfMeasurement, Laterality, PinHole};

fn s(text: &str) -> String {
    text.to_string()
}

fn log_mar_of(numerator: u64, denominator: u64) -> i64 {
    (-((numerator as f64) / (denominator as f64)).log10() * 1_000_000.0).round() as i64
}

fn feet(distance: DistanceUnits) -> f64 {
    distance.to_feet().expect("the distance has a unit") as f64 / 1_000_000.0
}

fn round_places(value: f64, places: i32) -> f64 {
    let scalar = 10.0_f64.powi(places);
    (value * scalar).round() / scalar
}

#[test]
fn test_test_distance_conversion() {
    assert_eq!(DistanceUnits::Centimeters(30_000_000).to_feet(), Ok(984_252));
    assert_eq!(DistanceUnits::Meters(300_000).to_feet(), Ok(984_252));
}

#[test]
fn tests_parser_test_distance_conversion() {
    assert_eq!(round_places(feet(DistanceUnits::Centimeters(30_000_000)), 4), 0.9843);
    assert_eq!(round_places(feet(DistanceUnits::Meters(300_000)), 4), 0.9843);
}

#[test]
fn test_distance_to_feet() {
    assert_eq!(DistanceUnits::Feet(1_500_000).to_feet(), Ok(1_500_000));
    assert_eq!(DistanceUnits::Inches(18_000_000).to_feet(), Ok(1_500_000));
    assert_eq!(DistanceUnits::Inches(1_000_000).to_feet(), Ok(83_333));
    assert_eq!(DistanceUnits::Meters(1_000_000).to_feet(), Ok(3_280_840));
    assert_eq!(DistanceUnits::Centimeters(1_000_000).to_feet(), Ok(32_808));
    assert_eq!(DistanceUnits::FeetRange((2_000_000, 3_000_001)).to_feet(), Ok(2_500_000));
    assert_eq!(DistanceUnits::InchesRange((12_000_000, 36_000_000)).to_feet(), Ok(2_000_000));
    assert_eq!(DistanceUnits::MetersRange((1_000_000, 3_000_000)).to_feet(), Ok(6_561_680));
    assert_eq!(DistanceUnits::CentimetersRange((20_000_000, 40_000_000)).to_feet(), Ok(984_252));
    assert_eq!(DistanceUnits::FeetRange((u64::MAX, u64::MAX)).to_feet(), Ok(u64::MAX));
    assert_eq!(DistanceUnits::NotProvided.to_feet(), Err(VisualAcuityError::DistanceConversionError));
    assert_eq!(
        DistanceUnits::Unhandled(s("CF @ face")).to_feet(),
        Err(VisualAcuityError::DistanceConversionError)
    );
    assert_eq!(DistanceUnits::Meters(u64::MAX).to_feet(), Err(VisualAcuityError::DistanceConversionError));
    assert_eq!(DistanceUnits::default(), DistanceUnits::NotProvided);
}

#[test]
fn test_fraction_log_mar() {
    for n in [1u64, 20_000_000, u64::MAX] {
        assert_eq!(Fraction(n, n).log_mar_base(&log_mar_of), Ok(0));
    }
    assert_eq!(Fraction(0, 0).log_mar_base(&log_mar_of), Ok(0));
    let value = Fraction::from_whole(20, 40).log_mar_base(&log_mar_of).unwrap();
    assert!((value as f64 / 1_000_000.0 - 0.301).abs() < 0.0005);
    assert_eq!(value, 301030);
    assert_eq!(Fraction::from_whole(0, 40).log_mar_base(&log_mar_of), Err(VisualAcuityError::NotImplemented));
    assert_eq!(Fraction::from_whole(20, 0).log_mar_base(&log_mar_of), Err(VisualAcuityError::NotImplemented));
}

#[test]
fn test_log_mar_rounding_and_scaling() {
    assert_eq!(derive_log_mar(false, 498_311), Ok(498_311));
    assert_eq!(derive_log_mar(true, 498_311), Ok(500_000));
    assert_eq!(derive_log_mar(true, 449_999), Ok(400_000));
    assert_eq!(derive_log_mar(true, 450_000), Ok(500_000));
    assert_eq!(derive_log_mar(true, -150_000), Ok(-200_000));
    assert_eq!(derive_log_mar(true, -149_999), Ok(-100_000));
    assert_eq!(derive_log_mar(true, i64::MAX), Err(VisualAcuityError::NotImplemented));
    assert_eq!(derive_log_mar(true, i64::MIN), Err(VisualAcuityError::NotImplemented));
    assert_eq!(scale_log_mar(1_853_872, -484_015), Ok(1_369_857));
    assert_eq!(scale_log_mar(i64::MAX, 1), Err(VisualAcuityError::NotImplemented));
}

#[test]
fn test_disambiguation() {
    assert_eq!(disambiguate::<Laterality>(&vec![]), Ok(Laterality::Unknown));
    assert_eq!(disambiguate(&vec![Laterality::OS, Laterality::OS, Laterality::OS]), Ok(Laterality::OS));
    assert_eq!(
        disambiguate(&vec![Laterality::OU, Laterality::OS, Laterality::OU]),
        Err(VisualAcuityError::MultipleValues(s("[OS, OU]")))
    );
    assert_eq!(
        disambiguate(&vec![Correction::SC, Correction::CC]),
        Err(VisualAcuityError::MultipleValues(s("[CC, SC]")))
    );
    assert_eq!(
        disambiguate(&vec![VAFormat::Snellen, VAFormat::NearTotalLoss, VAFormat::ETDRS]),
        Err(VisualAcuityError::MultipleValues(s("[ETDRS, NearTotalLoss, Snellen]")))
    );
    assert_eq!(disambiguate(&vec![PinHole::Unknown]), Ok(PinHole::Unknown));
    assert_eq!(
        disambiguate(&vec![DistanceOfMeasurement::Unknown, DistanceOfMeasurement::Near]),
        Err(VisualAcuityError::MultipleValues(s("[Near, Unknown]")))
    );
    assert_eq!(
        distinct_sorted(&vec![VAFormat::Teller, VAFormat::Binocular, VAFormat::Teller]),
        vec![VAFormat::Binocular, VAFormat::Teller]
    );
}

#[test]
fn test_category_names_are_sorted() {
    let formats = [
        VAFormat::Unknown,
        VAFormat::Snellen,
        VAFormat::Jaeger,
        VAFormat::ETDRS,
        VAFormat::Teller,
        VAFormat::NearTotalLoss,
        VAFormat::VisualResponse,
        VAFormat::PinHole,
        VAFormat::Binocular,
        VAFormat::NotTaken,
        VAFormat::CrossReference,
    ];
    assert_eq!(formats.len(), VAFormat::total() as usize);
    for a in formats {
        for b in formats {
            assert_eq!(a.rank() < b.rank(), a.to_text() < b.to_text());
        }
    }
    let lateralities = [Laterality::Unknown, Laterality::OS, Laterality::OD, Laterality::OU];
    for a in lateralities {
        for b in lateralities {
            assert_eq!(a.rank() < b.rank(), a.to_text() < b.to_text());
        }
    }
    let corrections = [Correction::Unknown, Correction::CC, Correction::SC, Correction::Manifest];
    for a in corrections {
        for b in corrections {
            assert_eq!(a.rank() < b.rank(), a.to_text() < b.to_text());
        }
    }
    assert_eq!(Laterality::default(), Laterality::Unknown);
    assert_eq!(VAFormat::unknown(), VAFormat::Unknown);
}

#[test]
fn test_option_result() {
    let present: OptionResult<u32> = OptionResult::Present(2);
    let absent: OptionResult<u32> = OptionResult::Absent;
    let failed: OptionResult<u32> = OptionResult::Failed(VisualAcuityError::NoValue);
    assert_eq!(present.clone().map(|v| v + 1), OptionResult::Present(3));
    assert_eq!(absent.clone().map(|v| v + 1), OptionResult::Absent);
    assert_eq!(failed.clone().map(|v| v + 1), OptionResult::Failed(VisualAcuityError::NoValue));
    assert_eq!(present.clone().then(|v| OptionResult::Present(v * 2)), OptionResult::Present(4));
    assert_eq!(present.clone().then(|_| OptionResult::<u32>::Absent), OptionResult::Absent);
    assert_eq!(absent.clone().then(|v| OptionResult::Present(v * 2)), OptionResult::Absent);
    assert_eq!(
        failed.clone().map_err(|_| VisualAcuityError::NotImplemented),
        OptionResult::Failed(VisualAcuityError::NotImplemented)
    );
    assert_eq!(present.clone().map_err(|_| VisualAcuityError::NotImplemented), present);
    assert_eq!(OptionResult::<u32>::default(), OptionResult::Absent);
    assert_eq!(OptionResult::from_option(Some(1)), OptionResult::Present(1));
    assert_eq!(OptionResult::<u8>::from_result(Err(VisualAcuityError::NoValue)), failed.map(|_| 0u8));
}

#[test]
fn test_error_texts() {
    assert_eq!(VisualAcuityError::ParseError(s("bad input")).to_text(), "bad input");
    assert_eq!(VisualAcuityError::NoValue.to_text(), "NoValue");
    assert_eq!(VisualAcuityError::MultipleValues(s("[a, b]")).to_text(), "MultipleValues: [a, b]");
    assert_eq!(VisualAcuityError::MultipleErrors(vec![VisualAcuityError::NoValue]).to_text(), "MultipleErrors");
    let nested = VisualAcuityError::MultipleErrors(vec![
        VisualAcuityError::ChartNotFound(s("x")),
        VisualAcuityError::MultipleErrors(vec![VisualAcuityError::Unreachable]),
    ]);
    assert_eq!(nested.clone(), nested);
}

#[test]
fn test_entry_metadata() {
    let start = EntryMetadata::default();
    let manifest = start.with(ParsedItem::CorrectionItem(Correction::Manifest));
    assert_eq!(manifest.correction, Correction::Manifest);
    assert_eq!(manifest.distance_of_measurement, DistanceOfMeasurement::Distance);
    let near = start
        .with(ParsedItem::DistanceItem(DistanceOfMeasurement::Near))
        .with(ParsedItem::CorrectionItem(Correction::Manifest));
    assert_eq!(near.distance_of_measurement, DistanceOfMeasurement::Near);
    let other = start
        .with(ParsedItem::LateralityItem(Laterality::OD))
        .with(ParsedItem::PinHoleItem(PinHole::With))
        .with(ParsedItem::CorrectionItem(Correction::CC))
        .with(ParsedItem::Text(s("ignored")));
    assert_eq!(
        other,
        EntryMetadata {
            laterality: Laterality::OD,
            distance_of_measurement: DistanceOfMeasurement::Unknown,
            correction: Correction::CC,
            pinhole: PinHole::With,
        }
    );
}

#[test]
fn test_data_quality_order() {
    assert!(DataQuality::NoValue < DataQuality::CrossReference);
    assert!(DataQuality::CrossReference < DataQuality::Exact);
    assert!(DataQuality::Exact < DataQuality::Multiple);
    assert!(DataQuality::Multiple < DataQuality::ConvertibleConfident);
    assert!(DataQuality::ConvertibleConfident < DataQuality::ConvertibleFuzzy);
    assert_eq!(DataQuality::Exact.max(DataQuality::ConvertibleFuzzy), DataQuality::ConvertibleFuzzy);
    assert_eq!(DataQuality::Multiple.max(DataQuality::Exact), DataQuality::Multiple);
    assert_eq!(DataQuality::default(), DataQuality::NoValue);
    assert_eq!(DataQuality::ConvertibleFuzzy.level(), 5);
}

#[test]
fn test_cache_keeps_the_values_used_last() {
    let key = |name: &str| vec![s(name)];
    let mut cache: LruCacher<u32> = LruCacher::new(2);
    let calls = std::cell::Cell::new(0u32);
    let count = |value: u32| {
        let calls = &calls;
        move || {
            calls.set(calls.get() + 1);
            value
        }
    };
    assert_eq!(cache.get(&key("a"), count(1)), 1);
    assert_eq!(cache.get(&key("b"), count(2)), 2);
    assert_eq!(cache.get(&key("a"), count(10)), 1);
    assert_eq!(calls.get(), 2);
    // "b" was not used for the longest time and makes room for "c".
    assert_eq!(cache.get(&key("c"), count(3)), 3);
    assert_eq!(cache.get(&key("a"), count(11)), 1);
    assert_eq!(cache.get(&key("c"), count(12)), 3);
    assert_eq!(calls.get(), 3);
    assert_eq!(cache.get(&key("b"), count(20)), 20);
    assert_eq!(calls.get(), 4);
    // A key is told by all of its texts.
    assert_eq!(cache.get(&vec![s("b"), s("")], count(30)), 30);
}

#[test]
fn test_plus_letters_on_a_row() {
    let row = visualacuity::charts::ChartRow {
        chart_name: s("snellen"),
        row_number: 10,
        fraction: Some(Fraction::from_whole(20, 20)),
        reference_distance: DistanceUnits::NotProvided,
        log_mar: Some(0),
        log_mar_derived: true,
        n_letters: Some(6),
        prev_log_mar: Some(96_910),
        next_log_mar: None,
        next_n_letters: Some(6),
    };
    assert_eq!(row.with_plus_letters(&vec![], &log_mar_of), Ok(0));
    assert_eq!(row.with_plus_letters(&vec![-2], &log_mar_of), Ok(32_303));
    assert_eq!(row.with_plus_letters(&vec![-2, -1, 0], &log_mar_of), Ok(32_303 + 16_151));
    assert_eq!(
        row.with_plus_letters(&vec![-1, 2, -1], &log_mar_of),
        Err(VisualAcuityError::LogMarInvalidSnellenRow(s("Missing next row values: snellen row 10")))
    );
    assert_eq!(
        row.add_plus_letters(i64::MAX, &vec![-1]),
        Err(VisualAcuityError::LogMarInvalidPlusLetters(s("Out of range: snellen row 10")))
    );
    let bare = visualacuity::charts::ChartRow { n_letters: Some(0), ..row.clone() };
    assert_eq!(
        bare.with_plus_letters(&vec![-1], &log_mar_of),
        Err(VisualAcuityError::LogMarInvalidSnellenRow(s("Missing previous row values: snellen row 10")))
    );
    assert_eq!(row.describe(), "snellen row 10");
    assert_eq!(row.step_for(-3), Some(48_455));
    assert_eq!(row.step_for(3), None);
}

#[test]
fn test_cache_of_two() {
    let key = |name: &str| vec![s(name)];
    let mut cache: LruCacher<i32> = LruCacher::new(2);
    let results = vec![
        cache.get(&key("1"), || 10),
        cache.get(&key("2"), || 20),
        cache.get(&key("1"), || 11),
        cache.get(&key("3"), || 30),
        cache.get(&key("1"), || 12),
        cache.get(&key("2"), || 21),
    ];
    assert_eq!(results, vec![10, 20, 10, 30, 10, 21]);
}
