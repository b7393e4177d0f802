use scholarships::assoc::AssocMap;
use scholarships::forms::{
    check_upload_fields, create_unique_id, file_field_names, form_can_submit, get_number_texts,
    new_scholarship, scholarship_display_name, scholarship_submission, storage_failure_message,
    upload_field_role, NumberListError, StorageFailure, UploadError, UploadField, UploadFieldRole,
    UploadRequest, ValidationState,
};
use scholarships::value::{ExpandableInfo, ValueType};

fn text(s: &str) -> ValueType {
    ValueType::String(Some(s.to_string()))
}

fn number(s: &str) -> ValueType {
    ValueType::Number(Some(s.to_string()))
}

#[test]
fn unique_id_strips_white_space() {
    let id = create_unique_id(&"sports".to_string(), &"Field Hockey".to_string());
    assert_eq!(id, "sports-FieldHockey");
}

#[test]
fn unique_id_strips_every_white_space() {
    let id = create_unique_id(&"towns".to_string(), &" New\tMilford\n\u{a0}CT ".to_string());
    assert_eq!(id, "towns-NewMilfordCT");
    assert_eq!(create_unique_id(&"x".to_string(), &String::new()), "x-");
}

#[test]
fn unique_ids_differ_for_different_values() {
    let a = create_unique_id(&"sports".to_string(), &"Golf".to_string());
    let b = create_unique_id(&"sports".to_string(), &"Ski".to_string());
    assert_ne!(a, b);
}

#[test]
fn form_submits_only_when_all_valid() {
    assert!(form_can_submit(&vec![]));
    assert!(form_can_submit(&vec![ValidationState::Valid, ValidationState::Valid]));
    assert!(!form_can_submit(&vec![
        ValidationState::Valid,
        ValidationState::Invalid("Required".to_string()),
    ]));
}

#[test]
fn upload_roles_by_name() {
    assert_eq!(upload_field_role("access_token"), UploadFieldRole::AccessToken);
    assert_eq!(upload_field_role("form_id"), UploadFieldRole::FormId);
    assert_eq!(upload_field_role("essay"), UploadFieldRole::File);
}

#[test]
fn upload_checks_in_order() {
    assert_eq!(check_upload_fields("", "", "", ""), Err(UploadError::MissingAccessToken));
    assert_eq!(check_upload_fields("t", "", "", ""), Err(UploadError::MissingFormId));
    assert_eq!(check_upload_fields("t", "f", "", "i"), Err(UploadError::MissingFile));
    assert_eq!(check_upload_fields("t", "f", "a.pdf", ""), Err(UploadError::MissingInputName));
    assert_eq!(check_upload_fields("t", "f", "a.pdf", "i"), Ok(()));
    assert_eq!(UploadError::MissingAccessToken.message(), "Missing access token");
    assert_eq!(UploadError::MissingFormId.message(), "Missing form ID");
    assert_eq!(UploadError::MissingFile.message(), "Missing file");
    assert_eq!(UploadError::MissingInputName.message(), "Missing input file");
}

#[test]
fn display_name_or_fallback() {
    let mut s = ExpandableInfo::new("id".to_string());
    assert_eq!(scholarship_display_name(&s, "Scholarship"), "Scholarship");
    s.data.insert("name".to_string(), ValueType::String(None));
    assert_eq!(scholarship_display_name(&s, "Scholarship"), "Scholarship");
    s.data.insert("name".to_string(), text("Award"));
    assert_eq!(scholarship_display_name(&s, "Scholarship"), "Award");
}

#[test]
fn submission_adds_requirements() {
    let mut form: AssocMap<ValueType> = AssocMap::new();
    form.insert("name".to_string(), text("Award"));
    form.insert("requirements".to_string(), text("old"));
    let mut chosen: AssocMap<ValueType> = AssocMap::new();
    chosen.insert("major".to_string(), ValueType::List(Some(vec![text("major_music")])));
    let info = scholarship_submission("sch-1".to_string(), form, chosen);
    assert_eq!(info.subject, "sch-1");
    assert_eq!(info.data.len(), 2);
    match info.data.get("requirements") {
        Some(ValueType::Mapping(Some(m))) => assert!(m.contains_key("major")),
        _ => panic!("the chosen requirements are sent"),
    }
}

#[test]
fn number_texts_of_a_list() {
    let mut s = ExpandableInfo::new("st".to_string());
    s.data.insert("hours".to_string(), ValueType::List(Some(vec![number("10"), number("2.5")])));
    s.data.insert("mixed".to_string(), ValueType::List(Some(vec![number("1"), text("x")])));
    s.data.insert("flat".to_string(), number("3"));
    assert_eq!(get_number_texts(&s, &"hours".to_string()), Ok(vec!["10".to_string(), "2.5".to_string()]));
    assert_eq!(get_number_texts(&s, &"mixed".to_string()), Err(NumberListError::NotANumber));
    assert_eq!(get_number_texts(&s, &"flat".to_string()), Err(NumberListError::NotFound));
    assert_eq!(get_number_texts(&s, &"missing".to_string()), Err(NumberListError::NotFound));
    assert_eq!(NumberListError::NotFound.message(), "Couldn't find the list");
    assert_eq!(NumberListError::NotANumber.message(), "List contains non-number values");
}

#[test]
fn file_part_names_required() {
    assert_eq!(file_field_names(None, Some("a.pdf".to_string())), Err(UploadError::NoInputName));
    assert_eq!(file_field_names(Some("essay".to_string()), None), Err(UploadError::NoFileName));
    assert_eq!(
        file_field_names(Some("essay".to_string()), Some("a.pdf".to_string())),
        Ok(("essay".to_string(), "a.pdf".to_string()))
    );
    assert_eq!(UploadError::NoInputName.message(), "Couldn't find input name");
    assert_eq!(UploadError::NoFileName.message(), "Couldn't find file name");
}

#[test]
fn upload_request_keeps_last_file() {
    let mut req = UploadRequest::new();
    assert_eq!(req.check(), Err(UploadError::MissingAccessToken));
    req.record(UploadField::AccessToken("tok".to_string()));
    assert_eq!(req.check(), Err(UploadError::MissingFormId));
    req.record(UploadField::FormId("financial_info".to_string()));
    assert_eq!(req.check(), Err(UploadError::MissingFile));
    req.record(UploadField::File {
        input_name: "fafsa".to_string(),
        file_name: "first.pdf".to_string(),
        bytes: vec![1, 2],
    });
    req.record(UploadField::File {
        input_name: "fafsa".to_string(),
        file_name: "second.pdf".to_string(),
        bytes: vec![3],
    });
    assert_eq!(req.check(), Ok(()));
    assert_eq!(req.file_name, "second.pdf");
    assert_eq!(req.file_bytes, vec![3]);
    assert_eq!(req.access_token, "tok");
}

#[test]
fn storage_messages() {
    assert_eq!(storage_failure_message(StorageFailure::FilePut, "denied"), "Couldn't put file to S3: denied");
    assert_eq!(
        storage_failure_message(StorageFailure::EntryPut, "x"),
        "Couldn't put file to Dynamo, file rolled back: x"
    );
    assert_eq!(storage_failure_message(StorageFailure::FileRollback, ""), "Couldn't roll back S3 operation: ");
    assert_eq!(
        storage_failure_message(StorageFailure::EntryRollback, "y"),
        "Couldn't roll back Dynamo operation: y"
    );
}

#[test]
fn new_scholarship_record() {
    let s = new_scholarship("prov".to_string(), "Testing Scholarship".to_string());
    assert_eq!(s.subject, "testing");
    assert_eq!(s.data.len(), 2);
    assert!(matches!(s.data.get("provider_id"), Some(ValueType::String(Some(p))) if p == "prov"));
    assert!(matches!(s.data.get("scholarship_name"), Some(ValueType::String(Some(n))) if n == "Testing Scholarship"));
}
