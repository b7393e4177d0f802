use scholarships::assoc::AssocMap;
use scholarships::students::{
    can_access_file, check_file_access, check_provider, file_key_owner, first_item_field, merge_student_items,
    student_data_item, AccessError, collect_completed_students, data_sort_key, file_object_key, file_sort_key,
    file_sort_prefix, group_input_files, is_provider, pdf_file_name, student_id_from_key,
    student_info_record, student_key, typst_literal, typst_source, zip_entry_name, zip_name_hint,
};
use scholarships::value::ValueType;

fn text(s: &str) -> ValueType {
    ValueType::String(Some(s.to_string()))
}

fn item(fields: &[(&str, &str)]) -> AssocMap<ValueType> {
    let mut m = AssocMap::new();
    for (k, v) in fields {
        m.insert(k.to_string(), text(v));
    }
    m
}

fn text_of(v: Option<&ValueType>) -> Option<String> {
    match v {
        Some(ValueType::String(Some(s))) => Some(s.clone()),
        _ => None,
    }
}

#[test]
fn student_keys_round_trip() {
    assert_eq!(student_key("abc-123"), "STUDENT#abc-123");
    assert_eq!(student_id_from_key(&student_key("abc-123")), "abc-123");
    assert_eq!(student_id_from_key("STUDENT#x#STUDENT#y"), "x#y");
    assert_eq!(student_id_from_key("plain"), "plain");
}

#[test]
fn sort_keys() {
    assert_eq!(data_sort_key("demographics"), "DEMOGRAPHICS");
    assert_eq!(data_sort_key("Work_Experience"), "WORK_EXPERIENCE");
    assert_eq!(file_sort_key("f1", "essay", "a.pdf"), "FILE#f1#essay#a.pdf");
    assert_eq!(file_sort_prefix("f1", "essay"), "FILE#f1#essay");
    assert!(file_sort_key("f1", "essay", "a.pdf").starts_with(&file_sort_prefix("f1", "essay")));
    assert_eq!(file_object_key("f1", "sub", "essay", "a.pdf"), "f1/sub/essay/a.pdf");
}

#[test]
fn file_access_rules() {
    let none: Vec<String> = Vec::new();
    let providers = vec!["Students".to_string(), "ScholarshipProviders".to_string()];
    assert!(is_provider(&providers));
    assert!(!is_provider(&none));
    assert!(!is_provider(&vec!["scholarshipproviders".to_string()]));
    let key = file_object_key("f1", "owner", "essay", "a.pdf");
    assert!(can_access_file(&key, "owner", &none));
    assert!(!can_access_file(&key, "stranger", &none));
    assert!(can_access_file(&key, "stranger", &providers));
}

#[test]
fn completed_students_gathered() {
    let items = vec![
        item(&[("HK", "STUDENT#s1"), ("SK", "DEMOGRAPHICS"), ("first_name", "Ann"), ("town", "Middlebury")]),
        item(&[("HK", "STUDENT#s2"), ("SK", "ACADEMICS"), ("gpa", "3.5")]),
        item(&[("HK", "STUDENT#s1"), ("SK", "ACADEMICS"), ("town", "Southbury"), ("gpa", "3.9")]),
    ];
    let r = collect_completed_students(items);
    assert_eq!(r.len(), 1);
    assert!(!r.contains_key("s2"));
    let s1 = r.get("s1").unwrap();
    assert_eq!(text_of(s1.get("first_name")), Some("Ann".to_string()));
    assert_eq!(text_of(s1.get("town")), Some("Southbury".to_string()));
    assert_eq!(text_of(s1.get("gpa")), Some("3.9".to_string()));
    assert!(!s1.contains_key("HK"));
    assert!(!s1.contains_key("SK"));
}

#[test]
fn input_files_grouped_by_student() {
    let items = vec![
        item(&[("HK", "STUDENT#s1"), ("file_key", "f/s1/essay/a.pdf")]),
        item(&[("HK", "STUDENT#s2"), ("file_key", "f/s2/essay/b.pdf")]),
        item(&[("HK", "STUDENT#s1"), ("file_key", "f/s1/essay/c.pdf")]),
    ];
    let r = group_input_files(items);
    assert_eq!(r.get("s1"), Some(&vec!["f/s1/essay/a.pdf".to_string(), "f/s1/essay/c.pdf".to_string()]));
    assert_eq!(r.get("s2"), Some(&vec!["f/s2/essay/b.pdf".to_string()]));
    assert_eq!(r.len(), 2);
}

#[test]
fn info_record_last_item_wins() {
    let items = vec![item(&[("a", "1"), ("b", "2")]), item(&[("b", "3")])];
    let r = student_info_record(items, text("work"), text("extra"));
    assert_eq!(text_of(r.get("a")), Some("1".to_string()));
    assert_eq!(text_of(r.get("b")), Some("3".to_string()));
    assert_eq!(text_of(r.get("work_experience")), Some("work".to_string()));
    assert_eq!(text_of(r.get("extracurricular")), Some("extra".to_string()));
    assert_eq!(r.len(), 4);
}

#[test]
fn download_names() {
    assert_eq!(
        zip_entry_name("Ann", "Lee", "form/sub/essay/My Essay.final.pdf"),
        "Ann Lee - My Essay.pdf"
    );
    assert_eq!(zip_entry_name("Ann", "Lee", "noext"), "Ann Lee - noext.noext");
    let long = "x".repeat(200);
    let name = zip_entry_name("Ann", "Lee", &format!("f/s/i/{}.docx", long));
    assert_eq!(name.chars().count(), 150 + 5);
    assert!(name.ends_with(".docx"));
    assert!(name.starts_with("Ann Lee - xxx"));
    assert_eq!(zip_name_hint("Ann", "Lee", "Files"), "AnnLee_Files.zip");
    assert_eq!(pdf_file_name("Ann", "Lee"), "AnnLee_Application.pdf");
}

#[test]
fn typst_conversion() {
    assert_eq!(typst_literal(r#"{"a":[1,2]}"#), r#"("a":(1,2),)"#);
    assert_eq!(typst_literal(r#"[{"x":1}]"#), r#"(("x":1),)"#);
    assert_eq!(typst_literal("plain"), "plain");
    let v = typst_literal(r#"{"l":[{"k":[]}]}"#);
    assert!(!v.contains('{') && !v.contains('}') && !v.contains('[') && !v.contains(']'));
    assert_eq!(typst_source("(a: 1)", "= Title"), "#let student = (a: 1)\n= Title");
}

#[test]
fn access_checks() {
    let none: Vec<String> = Vec::new();
    let providers = vec!["ScholarshipProviders".to_string()];
    let key = "f/owner/essay/a.pdf";
    assert_eq!(check_file_access(key, "owner", &none), Ok(()));
    assert_eq!(check_file_access(key, "other", &none), Err(AccessError::NotOwnerOrProvider));
    assert_eq!(check_file_access(key, "other", &providers), Ok(()));
    assert_eq!(check_provider(&providers, AccessError::NotProvider), Ok(()));
    assert_eq!(check_provider(&none, AccessError::NotInProviderGroup), Err(AccessError::NotInProviderGroup));
    assert_eq!(AccessError::NotOwnerOrProvider.message(), "Access denied: user is not the student or a provider");
    assert_eq!(AccessError::NotProvider.message(), "Access denied: user is not a provider");
    assert_eq!(AccessError::NotInProviderGroup.message(), "User is not in the ScholarshipProviders group");
}

#[test]
fn data_item_carries_keys() {
    let r = student_data_item("s1", "demographics", item(&[("first_name", "Ann"), ("HK", "old")]));
    assert_eq!(text_of(r.get("HK")), Some("STUDENT#s1".to_string()));
    assert_eq!(text_of(r.get("SK")), Some("DEMOGRAPHICS".to_string()));
    assert_eq!(text_of(r.get("first_name")), Some("Ann".to_string()));
    assert_eq!(r.len(), 3);
}

#[test]
fn merged_items_and_first_field() {
    let merged = merge_student_items(vec![item(&[("a", "1"), ("b", "2")]), item(&[("a", "9")])]);
    assert_eq!(text_of(merged.get("a")), Some("9".to_string()));
    assert_eq!(text_of(merged.get("b")), Some("2".to_string()));
    let empty: Vec<AssocMap<ValueType>> = Vec::new();
    assert_eq!(merge_student_items(empty).len(), 0);
    let v = first_item_field(vec![item(&[("extracurricular", "chess")]), item(&[("extracurricular", "no")])], "extracurricular", text(""));
    assert_eq!(text_of(Some(&v)), Some("chess".to_string()));
    let v = first_item_field(vec![item(&[("other", "x")])], "extracurricular", text("none"));
    assert_eq!(text_of(Some(&v)), Some("none".to_string()));
    let v = first_item_field(Vec::new(), "extracurricular", text("none"));
    assert_eq!(text_of(Some(&v)), Some("none".to_string()));
}

#[test]
fn stored_answers_gathered_back() {
    let answers = item(&[("first_name", "Ann"), ("town", "Middlebury")]);
    let stored = student_data_item("abc", "demographics", answers);
    let gathered = collect_completed_students(vec![stored]);
    let record = gathered.get("abc").unwrap();
    assert_eq!(record.len(), 2);
    assert_eq!(text_of(record.get("first_name")), Some("Ann".to_string()));
    assert_eq!(text_of(record.get("town")), Some("Middlebury".to_string()));
}

#[test]
fn access_needs_the_owner_segment() {
    let none: Vec<String> = Vec::new();
    assert!(!can_access_file("f/bob/i/n", "b", &none));
    assert_eq!(check_file_access("f/bob/i/n", "b", &none), Err(AccessError::NotOwnerOrProvider));
    assert_eq!(check_file_access("f/bob/i/n", "bob", &none), Ok(()));
    assert_eq!(check_file_access("bob/f/i/n", "bob", &none), Err(AccessError::NotOwnerOrProvider));
    assert_eq!(file_key_owner("form/owner/input/a.pdf"), Some("owner".to_string()));
    assert_eq!(file_key_owner("form/owner"), Some("owner".to_string()));
    assert_eq!(file_key_owner("nokey"), None);
}
