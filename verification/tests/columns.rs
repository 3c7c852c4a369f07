use visualacuity::textmap::{text_precedes, TextMap};
use visualacuity::visitinput::{add_key, ColumnMerger, VisitInput};

fn input(pairs: &[(&str, &str)]) -> VisitInput {
    VisitInput::from_pairs(pairs.iter().map(|(k, v)| (k.to_string(), v.to_string())).collect())
}

fn merged(pairs: &[(&str, &str)]) -> Vec<(String, (String, String))> {
    let mut column_merger = ColumnMerger::new(1).expect("the pattern is made");
    let merged = column_merger.merge_plus_columns(&input(pairs));
    merged.into_iter().into_iter().map(|entry| (entry.key, entry.value)).collect()
}

fn expected(triples: &[(&str, (&str, &str))]) -> Vec<(String, (String, String))> {
    triples.iter().map(|(k, (a, b))| (k.to_string(), (a.to_string(), b.to_string()))).collect()
}

#[test]
fn test_merge_plus_columns() {
    assert_eq!(
        merged(&[("Left Eye Distance SC", "20/20"), ("Left Eye Distance SC Plus", "-2")]),
        expected(&[("Left Eye Distance SC", ("20/20", "-2"))])
    );
    assert_eq!(
        merged(&[("Right Eye Distance CC", "20/20"), ("Right Eye Distance CC +/-", "-2")]),
        expected(&[("Right Eye Distance CC", ("20/20", "-2"))])
    );
    assert_eq!(
        merged(&[
            ("Both Eyes Distance CC", "20/20"),
            ("Both Eyes Distance CC +/-", "-2"),
            ("Both Eyes Distance SC", "20/20"),
            ("Both Eyes Distance SC Plus", "-1"),
            ("Both Eyes Near CC", "J1+"),
            ("Both Eyes Near CC asdf", "J2"),
            ("Comments", "Forgot glasses today"),
        ]),
        expected(&[
            ("Both Eyes Distance CC", ("20/20", "-2")),
            ("Both Eyes Distance SC", ("20/20", "-1")),
            ("Both Eyes Near CC", ("J1+", "")),
            ("Both Eyes Near CC asdf", ("J2", "")),
            ("Comments", ("Forgot glasses today", "")),
        ])
    );
    assert_eq!(
        merged(&[("Left Eye Distance SC Plus", "-2")]),
        expected(&[("Left Eye Distance SC", ("", "-2"))])
    );
}

#[test]
fn test_merge_round_trip() {
    assert_eq!(merged(&[("F", "20/20"), ("F +/-", "-2")]), expected(&[("F", ("20/20", "-2"))]));
    assert_eq!(merged(&[("F +", "-1")]), expected(&[("F", ("", "-1"))]));
    assert_eq!(merged(&[("F PLUS", "+2"), ("F", "20/30")]), expected(&[("F", ("20/30", "+2"))]));
    // Of several fields with letters for one field the last name counts.
    assert_eq!(
        merged(&[("F", "20/30"), ("F +", "+1"), ("F +/-", "+2"), ("F plus", "+3")]),
        expected(&[("F", ("20/30", "+3"))])
    );
    assert_eq!(merged(&[("Fplus", "x")]), expected(&[("Fplus", ("x", ""))]));
}

#[test]
fn test_key_mapping_is_kept() {
    let mut column_merger = ColumnMerger::new(2).expect("the pattern is made");
    let notes = input(&[("A", "1"), ("A +", "2"), ("B", "3")]);
    let first = column_merger.key_mapping(&notes);
    let second = column_merger.key_mapping(&input(&[("B", "x"), ("A +", "y"), ("A", "z")]));
    assert_eq!(first, second);
    let keys: Vec<(&str, Option<&str>)> =
        first.entries.iter().map(|e| (e.key.as_str(), e.value.as_deref())).collect();
    assert_eq!(keys, vec![("A", Some("A +")), ("B", None)]);
}

#[test]
fn test_visit_input() {
    let notes = input(&[("b", "2"), ("a", "1"), ("b", "3"), ("", "0")]);
    assert_eq!(notes.get_str("a"), Some("1"));
    assert_eq!(notes.get_str("b"), Some("3"));
    assert_eq!(notes.get_str(""), Some("0"));
    assert_eq!(notes.get_str("c"), None);
    let keys: Vec<&str> = notes.0.entries.iter().map(|e| e.key.as_str()).collect();
    assert_eq!(keys, vec!["", "a", "b"]);
}

#[test]
fn test_text_order() {
    let mut texts = vec!["b", "", "a", "ab", "B", "é", "a\u{10000}", "aé"];
    for a in texts.clone() {
        for b in texts.clone() {
            assert_eq!(text_precedes(a, b), a < b, "{a:?} {b:?}");
        }
    }
    let mut map: TextMap<u32> = TextMap::new();
    for (i, text) in texts.iter().enumerate() {
        map.insert(text.to_string(), i as u32);
    }
    texts.sort();
    let keys: Vec<&str> = map.entries.iter().map(|e| e.key.as_str()).collect();
    assert_eq!(keys, texts);
    assert_eq!(map.get("ab"), Some(&3));
    assert_eq!(map.get("abc"), None);
    assert_eq!(map.len(), 8);
}

#[test]
fn test_add_key() {
    let mut mapping: TextMap<Option<String>> = TextMap::new();
    add_key(&mut mapping, "F", None);
    add_key(&mut mapping, "F +", Some("F".to_string()));
    add_key(&mut mapping, "F", None);
    add_key(&mut mapping, "G plus", Some("G".to_string()));
    add_key(&mut mapping, "G +/-", Some("G".to_string()));
    add_key(&mut mapping, "H", None);
    let keys: Vec<(&str, Option<&str>)> =
        mapping.entries.iter().map(|e| (e.key.as_str(), e.value.as_deref())).collect();
    assert_eq!(keys, vec![("F", Some("F +")), ("G", Some("G +/-")), ("H", None)]);
}
