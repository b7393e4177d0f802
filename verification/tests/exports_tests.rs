use scholarships::assoc::AssocMap;
use scholarships::exports::{
    display_text_of, join_with, provider_contact_item, resolve_scholarship, resolve_scholarships, scholarship_csv,
    ResolvedScholarshipInfo,
};
use scholarships::value::{ExpandableInfo, ValueType};

fn text(s: &str) -> ValueType {
    ValueType::String(Some(s.to_string()))
}

fn record(fields: &[(&str, &str)]) -> AssocMap<ValueType> {
    let mut m = AssocMap::new();
    for (k, v) in fields {
        m.insert(k.to_string(), text(v));
    }
    m
}

fn relations() -> Vec<AssocMap<ValueType>> {
    vec![
        record(&[("id", "major_music"), ("display_text", "Music")]),
        record(&[("id", "sports_golf"), ("display_text", "Golf")]),
        record(&[("id", "sports_ski"), ("display_text", "Ski")]),
        record(&[("id", "major_music"), ("display_text", "Second")]),
    ]
}

fn contacts() -> Vec<AssocMap<ValueType>> {
    vec![
        record(&[("subject", "p1"), ("contact_email", "p1@x.org"), ("first_name", "Pat"), ("last_name", "One")]),
        record(&[("subject", "p2"), ("contact_email", "p2@x.org"), ("first_name", "Sam"), ("last_name", "Two")]),
    ]
}

fn scholarship(provider: &str) -> ExpandableInfo {
    let mut s = ExpandableInfo::new("sch1".to_string());
    s.data.insert("name".to_string(), text("Town Award"));
    s.data.insert("provider_id".to_string(), text(provider));
    let mut req: AssocMap<ValueType> = AssocMap::new();
    req.insert(
        "sports_participation".to_string(),
        ValueType::List(Some(vec![text("sports_golf"), text("sports_ski")])),
    );
    req.insert("major".to_string(), ValueType::List(Some(vec![text("major_music"), text("unknown")])));
    req.insert("gpa".to_string(), ValueType::List(Some(vec![])));
    s.data.insert("requirements".to_string(), ValueType::Mapping(Some(req)));
    s
}

#[test]
fn join_puts_separator_between() {
    let parts = vec!["a".to_string(), "b".to_string(), "c".to_string()];
    assert_eq!(join_with(&parts, "; "), "a; b; c");
    assert_eq!(join_with(&vec!["only".to_string()], "; "), "only");
    assert_eq!(join_with(&Vec::new(), "; "), "");
}

#[test]
fn display_text_first_match() {
    let rel = relations();
    assert_eq!(display_text_of(&rel, "major_music"), "Music");
    assert_eq!(display_text_of(&rel, "sports_ski"), "Ski");
    assert_eq!(display_text_of(&rel, "nothing"), "");
}

#[test]
fn resolve_fills_contact_and_categories() {
    let r = resolve_scholarship(&scholarship("p2"), &contacts(), &relations());
    assert_eq!(r.contact_email, "p2@x.org");
    assert_eq!(r.first_name, "Sam");
    assert_eq!(r.last_name, "Two");
    assert_eq!(r.scholarship_name, "Town Award");
    assert_eq!(r.sports_requirements, "Golf; Ski");
    assert_eq!(r.major_requirements, "Music; ");
    assert_eq!(r.gpa_requirements, "");
    assert_eq!(r.additional_requirements, "");
    assert_eq!(r.community_requirements, "");
    assert_eq!(r.residency_requirements, "");
}

#[test]
fn resolve_without_provider_contact() {
    let r = resolve_scholarship(&scholarship("p9"), &contacts(), &relations());
    assert_eq!(r.contact_email, "");
    assert_eq!(r.first_name, "");
    assert_eq!(r.scholarship_name, "Town Award");
    let all = resolve_scholarships(&vec![scholarship("p1"), scholarship("p2")], &contacts(), &relations());
    assert_eq!(all.len(), 2);
    assert_eq!(all[0].first_name, "Pat");
    assert_eq!(all[1].first_name, "Sam");
}

fn row(name: &str, sports: &str) -> ResolvedScholarshipInfo {
    ResolvedScholarshipInfo {
        contact_email: "e@x.org".to_string(),
        first_name: "Pat".to_string(),
        last_name: "One".to_string(),
        scholarship_name: name.to_string(),
        sports_requirements: sports.to_string(),
        gpa_requirements: String::new(),
        major_requirements: String::new(),
        additional_requirements: String::new(),
        community_requirements: String::new(),
        residency_requirements: String::new(),
    }
}

#[test]
fn csv_has_header_and_rows() {
    let bytes = scholarship_csv(&vec![row("Award", "Golf; Ski"), row("Prize, Big", "")]).unwrap();
    let text = String::from_utf8(bytes).unwrap();
    assert_eq!(
        text,
        "contact_email,first_name,last_name,scholarship_name,sports_requirements,gpa_requirements,major_requirements,additional_requirements,community_requirements,residency_requirements\n\
         e@x.org,Pat,One,Award,Golf; Ski,,,,,\n\
         e@x.org,Pat,One,\"Prize, Big\",,,,,,\n"
    );
}

#[test]
fn csv_of_no_rows_is_empty() {
    assert_eq!(scholarship_csv(&Vec::new()).unwrap(), Vec::<u8>::new());
}

#[test]
fn contact_item_gets_subject() {
    let item = provider_contact_item("p7".to_string(), record(&[("contact_email", "a@b.c"), ("subject", "old")]));
    assert_eq!(item.len(), 2);
    assert!(matches!(item.get("subject"), Some(ValueType::String(Some(s))) if s == "p7"));
}

#[test]
fn one_scholarship_export() {
    let mut s = ExpandableInfo::new("s1".to_string());
    s.data.insert("provider_id".to_string(), text("p1"));
    s.data.insert("name".to_string(), text("Alpha"));
    let mut req: AssocMap<ValueType> = AssocMap::new();
    req.insert(
        "sports_participation".to_string(),
        ValueType::List(Some(vec![text("sports_football"), text("sports_soccer")])),
    );
    req.insert("gpa".to_string(), ValueType::List(Some(vec![text("gpa_3")])));
    s.data.insert("requirements".to_string(), ValueType::Mapping(Some(req)));
    let contacts = vec![record(&[("subject", "p1"), ("first_name", "Ann"), ("last_name", "Lee"), ("contact_email", "ann@x.org")])];
    let relations = vec![
        record(&[("id", "sports_football"), ("display_text", "Football")]),
        record(&[("id", "sports_soccer"), ("display_text", "Soccer")]),
        record(&[("id", "gpa_3"), ("display_text", "GPA >= 3.0")]),
    ];
    let rows = resolve_scholarships(&vec![s], &contacts, &relations);
    let text_out = String::from_utf8(scholarship_csv(&rows).unwrap()).unwrap();
    let lines: Vec<&str> = text_out.lines().collect();
    assert_eq!(lines.len(), 2);
    assert_eq!(lines[1], "ann@x.org,Ann,Lee,Alpha,Football; Soccer,GPA >= 3.0,,,,");
}
