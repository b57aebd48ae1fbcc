use prelude_parser::normalize::{normalize, to_snake};

#[test]
fn test_to_snake() {
    assert_eq!(
        to_snake("i_communications_Details"),
        String::from("i_communications_details")
    );
}

#[test]
fn to_snake_splits_camel_case() {
    assert_eq!(to_snake("StudyName"), "study_name");
    assert_eq!(to_snake("siteId"), "site_id");
    assert_eq!(to_snake("formNumber"), "form_number");
}

#[test]
fn to_snake_adds_no_separator_at_the_ends_or_twice() {
    assert_eq!(to_snake("A"), "a");
    assert_eq!(to_snake("AB"), "a_b");
    assert_eq!(to_snake("a_B"), "a_b");
    assert_eq!(to_snake("abc"), "abc");
}

#[test]
fn to_snake_of_empty_is_empty() {
    assert_eq!(to_snake(""), "");
}

#[test]
fn short_names_only_lower_case() {
    assert_eq!(normalize("StudyName", true), "studyname");
    assert_eq!(normalize("StudyName", false), "study_name");
    assert_eq!(normalize("", true), "");
}

#[test]
fn normalize_twice_is_normalize_once() {
    for s in ["StudyName", "i_communications_Details", "ABC", "x", "", "a_B_c", "SubjectID"] {
        for m in [true, false] {
            let once = normalize(s, m);
            assert_eq!(normalize(&once, m), once);
        }
    }
}
