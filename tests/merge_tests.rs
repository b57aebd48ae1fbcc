use prelude_parser::error::PreludeError;
use prelude_parser::merge::{default_common_fields, merge};
use prelude_parser::record::{Field, Record};
use prelude_parser::scalar::Scalar;

fn text(s: &str) -> Scalar {
    Scalar::Text(s.to_string())
}

fn rec(fields: Vec<(&str, Scalar)>) -> Record {
    Record { fields: fields.into_iter().map(|(k, v)| Field { key: k.to_string(), value: v }).collect() }
}

fn rendered(r: &Record) -> Vec<(String, String)> {
    r.fields.iter().map(|f| (f.key.clone(), f.value.render())).collect()
}

fn pairs(v: &[(&str, &str)]) -> Vec<(String, String)> {
    v.iter().map(|(a, b)| (a.to_string(), b.to_string())).collect()
}

#[test]
fn overlay_replaces_fields_and_strips_common_ones() {
    let primary = vec![rec(vec![("sbjid", text("1")), ("formnum", text("1")), ("x", text("old"))])];
    let supp = vec![rec(vec![
        ("sbjid", text("1")),
        ("formnum", text("1")),
        ("x", text("new")),
        ("study_name", text("S")),
    ])];
    let out = merge(primary, &supp, false, None).unwrap();
    assert_eq!(rendered(&out[0]), pairs(&[("sbjid", "1"), ("formnum", "1"), ("x", "new")]));
}

#[test]
fn explicit_common_fields_replace_the_default() {
    let primary = vec![rec(vec![("sbjid", text("1")), ("formnum", text("1"))])];
    let supp = vec![rec(vec![("sbjid", text("1")), ("formnum", text("1")), ("study_name", text("S")), ("y", text("v"))])];
    let common = vec!["y".to_string()];
    let out = merge(primary, &supp, false, Some(&common)).unwrap();
    assert_eq!(rendered(&out[0]), pairs(&[("sbjid", "1"), ("formnum", "1"), ("study_name", "S")]));
}

#[test]
fn unmatched_records_are_dropped_or_kept() {
    let primary = vec![
        rec(vec![("sbjid", text("1")), ("formnum", text("1")), ("x", text("a"))]),
        rec(vec![("sbjid", text("2")), ("formnum", text("1")), ("x", text("b"))]),
    ];
    let supp = vec![
        rec(vec![("sbjid", text("9")), ("formnum", text("9")), ("x", text("z"))]),
        rec(vec![("sbjid", text("2")), ("formnum", text("1")), ("x", text("c"))]),
    ];
    let out = merge(primary, &supp, false, None).unwrap();
    assert_eq!(out.len(), 2);
    assert_eq!(rendered(&out[0]), pairs(&[("sbjid", "1"), ("formnum", "1"), ("x", "a")]));
    assert_eq!(rendered(&out[1]), pairs(&[("sbjid", "2"), ("formnum", "1"), ("x", "c")]));
}

#[test]
fn one_supplementary_record_may_match_several() {
    let primary = vec![
        rec(vec![("sbjid", text("1")), ("formnum", text("1"))]),
        rec(vec![("sbjid", text("1")), ("formnum", text("1"))]),
    ];
    let supp = vec![rec(vec![("sbjid", text("1")), ("formnum", text("1")), ("n", text("v"))])];
    let out = merge(primary, &supp, false, None).unwrap();
    assert_eq!(rendered(&out[0]), rendered(&out[1]));
    assert_eq!(out[0].fields.len(), 3);
}

#[test]
fn keys_compare_as_text() {
    let primary = vec![rec(vec![("sbjid", Scalar::Integer(7)), ("formnum", Scalar::Integer(1))])];
    let supp = vec![rec(vec![("sbjid", text("7")), ("formnum", text("1")), ("n", text("v"))])];
    let out = merge(primary, &supp, false, None).unwrap();
    assert_eq!(out[0].fields.len(), 3);
}

#[test]
fn missing_key_field_fails_the_whole_merge() {
    let primary = vec![rec(vec![("sbjid", text("1")), ("formnum", text("1"))])];
    let supp = vec![
        rec(vec![("sbjid", text("1")), ("formnum", text("1")), ("x", text("v"))]),
        rec(vec![("sbjid", text("1"))]),
    ];
    assert!(matches!(
        merge(primary.clone(), &supp, false, None),
        Err(PreludeError::MissingMergeKeyField(f)) if f == "formnum"
    ));
    let supp = vec![rec(vec![("formnum", text("1"))])];
    assert!(matches!(
        merge(primary, &supp, false, None),
        Err(PreludeError::MissingMergeKeyField(f)) if f == "sbjid"
    ));
}

#[test]
fn default_common_fields_follow_the_mode() {
    let long = default_common_fields(false);
    let short = default_common_fields(true);
    assert_eq!(long.len(), 10);
    assert_eq!(short.len(), 10);
    assert!(long.contains(&"study_name".to_string()));
    assert!(short.contains(&"studyname".to_string()));
}
