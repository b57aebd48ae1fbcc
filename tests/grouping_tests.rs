use prelude_parser::error::PreludeError;
use prelude_parser::parser::{parse_xml, parse_xml_pandas, validate_file};
use prelude_parser::record::{group_columns, group_records, RawField, RawForm, Record};
use prelude_parser::scalar::Scalar;

fn get<'a>(r: &'a Record, k: &str) -> Option<&'a Scalar> {
    r.fields.iter().find(|f| f.key == k).map(|f| &f.value)
}

fn as_u64(v: Option<&Scalar>) -> u64 {
    match v {
        Some(Scalar::Integer(n)) => *n,
        other => panic!("{:?}", other),
    }
}

#[test]
fn groups_keep_first_seen_order_and_occurrence_order() {
    let text = "<export><A><x>1</x></A><B><y>2</y></B><A><x>3</x></A></export>";
    let rs = parse_xml(text, false).unwrap();
    assert_eq!(rs.groups.len(), 2);
    assert_eq!(rs.groups[0].name, "a");
    assert_eq!(rs.groups[1].name, "b");
    assert_eq!(rs.groups[0].records.len(), 2);
    assert_eq!(as_u64(get(&rs.groups[0].records[0], "x")), 1);
    assert_eq!(as_u64(get(&rs.groups[0].records[1], "x")), 3);
    assert_eq!(as_u64(get(&rs.groups[1].records[0], "y")), 2);
}

#[test]
fn keys_and_names_are_normalized_by_mode() {
    let text = "<export><Demographics><subjectId>7</subjectId><visitDate>15-Jan-2024</visitDate></Demographics></export>";
    let rs = parse_xml(text, false).unwrap();
    assert_eq!(rs.groups[0].name, "demographics");
    let keys: Vec<&str> = rs.groups[0].records[0].fields.iter().map(|f| f.key.as_str()).collect();
    assert_eq!(keys, vec!["subject_id", "visit_date"]);
    let rs = parse_xml(text, true).unwrap();
    let keys: Vec<&str> = rs.groups[0].records[0].fields.iter().map(|f| f.key.as_str()).collect();
    assert_eq!(keys, vec!["subjectid", "visitdate"]);
}

#[test]
fn whitespace_between_forms_is_no_form() {
    let text = "<export>\n  <A>\n    <x>1</x>\n  </A>\n</export>\n";
    let rs = parse_xml(text, false).unwrap();
    assert_eq!(rs.groups.len(), 1);
    assert_eq!(rs.groups[0].records[0].fields.len(), 1);
}

#[test]
fn field_without_text_is_null() {
    let rs = parse_xml("<r><F><x/><y></y></F></r>", false).unwrap();
    let rec = &rs.groups[0].records[0];
    assert!(matches!(get(rec, "x"), Some(Scalar::Null)));
    assert!(matches!(get(rec, "y"), Some(Scalar::Null)));
}

#[test]
fn repeated_key_keeps_place_and_takes_last_value() {
    let rs = parse_xml("<r><F><x>1</x><y>2</y><x>3</x></F></r>", false).unwrap();
    let rec = &rs.groups[0].records[0];
    assert_eq!(rec.fields.len(), 2);
    assert_eq!(rec.fields[0].key, "x");
    assert_eq!(as_u64(Some(&rec.fields[0].value)), 3);
}

#[test]
fn malformed_document_is_a_parsing_error() {
    assert!(matches!(parse_xml("<a><b></a>", false), Err(PreludeError::Parsing(_))));
    assert!(matches!(parse_xml_pandas("", false), Err(PreludeError::Parsing(_))));
}

#[test]
fn empty_form_and_field_names_are_dropped() {
    let forms = vec![
        RawForm {
            tag: String::new(),
            fields: vec![RawField { tag: "x".to_string(), text: Some("1".to_string()) }],
        },
        RawForm {
            tag: "F".to_string(),
            fields: vec![
                RawField { tag: String::new(), text: Some("1".to_string()) },
                RawField { tag: "y".to_string(), text: None },
            ],
        },
    ];
    let rs = group_records(&forms, false);
    assert_eq!(rs.groups.len(), 1);
    assert_eq!(rs.groups[0].name, "f");
    assert_eq!(rs.groups[0].records[0].fields.len(), 1);
    let cs = group_columns(&forms, false);
    assert_eq!(cs.columns.len(), 2);
    assert_eq!(cs.columns[0].name, "x");
    assert_eq!(cs.columns[1].name, "y");
}

#[test]
fn columns_run_across_forms() {
    let text = "<r><A><x>1</x><y>a</y></A><B><x>2</x></B><A><x>3</x></A></r>";
    let cs = parse_xml_pandas(text, false).unwrap();
    assert_eq!(cs.columns.len(), 2);
    assert_eq!(cs.columns[0].name, "x");
    let xs: Vec<u64> = cs.columns[0].values.iter().map(|v| as_u64(Some(v))).collect();
    assert_eq!(xs, vec![1, 2, 3]);
    assert_eq!(cs.columns[1].values.len(), 1);
}

#[test]
fn missing_file_is_reported_before_extension() {
    assert!(matches!(validate_file("a.txt", false, Some("txt")), Err(PreludeError::FileNotFound(p)) if p == "a.txt"));
    assert!(matches!(validate_file("a", false, None), Err(PreludeError::FileNotFound(_))));
}

#[test]
fn existing_file_with_other_extension_is_invalid_type() {
    assert!(matches!(validate_file("a.txt", true, Some("txt")), Err(PreludeError::InvalidFileType(p)) if p == "a.txt"));
    assert!(matches!(validate_file("a", true, None), Err(PreludeError::InvalidFileType(_))));
    assert!(matches!(validate_file("a.XML", true, Some("XML")), Err(PreludeError::InvalidFileType(_))));
    assert!(validate_file("a.xml", true, Some("xml")).is_ok());
}
