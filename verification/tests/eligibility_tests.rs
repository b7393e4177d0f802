use scholarships::assoc::AssocMap;
use scholarships::comparison::{create_major_comparison, ComparisonData};
use scholarships::eligibility::{
    applicant_meets_groups, applicant_requirement_groups, comparison_test_report,
    eligible_scholarships, find_requirement, get_eligible_students, group_is_met,
    requirement_selection, requires_essay, requires_fafsa, resolve_requirement_ids,
    student_meets_groups, student_requirement_groups, test_scholarship,
};
use scholarships::value::{ExpandableInfo, ValueType};

fn catalog() -> Vec<ComparisonData> {
    vec![
        create_major_comparison("a", "A"),
        create_major_comparison("b", "B"),
        create_major_comparison("c", "C"),
    ]
}

fn text(s: &str) -> ValueType {
    ValueType::String(Some(s.to_string()))
}

fn id_list(ids: &[&str]) -> ValueType {
    ValueType::List(Some(ids.iter().map(|s| text(s)).collect()))
}

fn scholarship(name: &str, selection: Vec<(&str, ValueType)>) -> ExpandableInfo {
    let mut info = ExpandableInfo::new(name.to_string());
    info.data.insert("name".to_string(), text(name));
    let mut req: AssocMap<ValueType> = AssocMap::new();
    for (k, v) in selection {
        req.insert(k.to_string(), v);
    }
    info.data.insert("requirements".to_string(), ValueType::Mapping(Some(req)));
    info
}

fn listed(name: &str, ids: &[&str]) -> ExpandableInfo {
    let mut info = ExpandableInfo::new(name.to_string());
    info.data.insert("name".to_string(), text(name));
    info.data.insert("requirements".to_string(), id_list(ids));
    info
}

fn ok(bs: &[bool]) -> Vec<Result<bool, String>> {
    bs.iter().map(|b| Ok(*b)).collect()
}

#[test]
fn find_requirement_by_id() {
    let cat = catalog();
    assert_eq!(find_requirement(&cat, "b"), Some(1));
    assert_eq!(find_requirement(&cat, "zz"), None);
}

#[test]
fn resolve_skips_unknown_ids() {
    let cat = catalog();
    let ids = vec!["b".to_string(), "zz".to_string(), "a".to_string()];
    assert_eq!(resolve_requirement_ids(&ids, &cat), vec![1, 0]);
}

#[test]
fn requirement_groups_in_both_views() {
    let cat = catalog();
    let s = scholarship(
        "S",
        vec![
            ("major", id_list(&["a", "b"])),
            ("residency", id_list(&["c"])),
            ("misc", text("a")),
        ],
    );
    assert_eq!(applicant_requirement_groups(&s, &cat), vec![vec![0, 1], vec![2]]);
    assert_eq!(student_requirement_groups(&s, &cat), vec![vec![0, 1], vec![2], vec![]]);
    assert!(requirement_selection(&s).is_some());
    let plain = ExpandableInfo::new("none".to_string());
    assert!(requirement_selection(&plain).is_none());
    assert!(applicant_requirement_groups(&plain, &cat).is_empty());
}

#[test]
fn group_met_by_one_passing_requirement() {
    assert!(group_is_met(&vec![0, 1], &ok(&[false, true])));
    assert!(!group_is_met(&vec![0, 1], &ok(&[false, false])));
    assert!(!group_is_met(&vec![], &ok(&[true])));
    assert!(!group_is_met(&vec![5], &ok(&[true])));
    assert!(!group_is_met(&vec![0], &vec![Err("bad".to_string())]));
}

#[test]
fn empty_group_differs_between_views() {
    let groups = vec![vec![], vec![1]];
    let outs = ok(&[false, true]);
    assert!(applicant_meets_groups(&groups, &outs));
    assert!(!student_meets_groups(&groups, &outs));
    let none: Vec<Vec<usize>> = Vec::new();
    assert!(applicant_meets_groups(&none, &outs));
    assert!(student_meets_groups(&none, &outs));
}

#[test]
fn eligible_students_checks_groups_and_uploads() {
    let cat = catalog();
    let s = scholarship("S", vec![("major", id_list(&["a", "b"]))]);
    let mut students: AssocMap<AssocMap<ValueType>> = AssocMap::new();
    for id in ["s1", "s2", "s3", "s4"] {
        let mut rec: AssocMap<ValueType> = AssocMap::new();
        rec.insert("first_name".to_string(), text(id));
        students.insert(id.to_string(), rec);
    }
    let mut outcomes: AssocMap<Vec<Result<bool, String>>> = AssocMap::new();
    outcomes.insert("s1".to_string(), ok(&[false, true, false]));
    outcomes.insert("s2".to_string(), ok(&[false, false, true]));
    outcomes.insert("s3".to_string(), ok(&[true, false, false]));
    outcomes.insert("s4".to_string(), ok(&[true, true, true]));
    let mut fafsa: AssocMap<Vec<String>> = AssocMap::new();
    fafsa.insert("s1".to_string(), vec!["f".to_string()]);
    fafsa.insert("s2".to_string(), vec!["f".to_string()]);
    fafsa.insert("s4".to_string(), vec!["f".to_string()]);
    let essays: AssocMap<Vec<String>> = AssocMap::new();
    let r = get_eligible_students(students, &s, &cat, &outcomes, false, true, &fafsa, &essays);
    assert!(r.contains_key("s1"));
    assert!(!r.contains_key("s2"));
    assert!(!r.contains_key("s3"));
    assert!(r.contains_key("s4"));
    assert_eq!(r.len(), 2);
    match r.get("s1").unwrap().get("first_name") {
        Some(ValueType::String(Some(n))) => assert_eq!(n, "s1"),
        _ => panic!("the record is kept"),
    }
}

#[test]
fn eligible_students_need_essay_when_required() {
    let cat = catalog();
    let s = scholarship("S", vec![]);
    let mut students: AssocMap<AssocMap<ValueType>> = AssocMap::new();
    students.insert("s1".to_string(), AssocMap::new());
    students.insert("s2".to_string(), AssocMap::new());
    let outcomes: AssocMap<Vec<Result<bool, String>>> = AssocMap::new();
    let fafsa: AssocMap<Vec<String>> = AssocMap::new();
    let mut essays: AssocMap<Vec<String>> = AssocMap::new();
    essays.insert("s2".to_string(), vec!["e".to_string()]);
    let r = get_eligible_students(students, &s, &cat, &outcomes, true, false, &fafsa, &essays);
    assert!(!r.contains_key("s1"));
    assert!(r.contains_key("s2"));
}

#[test]
fn no_requirements_everyone_qualifies() {
    let cat = catalog();
    let s = scholarship("Open", vec![]);
    let mut students: AssocMap<AssocMap<ValueType>> = AssocMap::new();
    students.insert("x".to_string(), AssocMap::new());
    students.insert("y".to_string(), AssocMap::new());
    let outcomes: AssocMap<Vec<Result<bool, String>>> = AssocMap::new();
    let empty: AssocMap<Vec<String>> = AssocMap::new();
    let r = get_eligible_students(students, &s, &cat, &outcomes, false, false, &empty, &empty);
    assert_eq!(r.len(), 2);
    let found = eligible_scholarships(vec![scholarship("Open", vec![])], &cat, &ok(&[false, false, false]));
    assert_eq!(found.len(), 1);
}

#[test]
fn eligible_scholarships_in_order() {
    let cat = catalog();
    let list = vec![
        scholarship("One", vec![("major", id_list(&["a"]))]),
        scholarship("Two", vec![("major", id_list(&["b"]))]),
        scholarship("Three", vec![("major", id_list(&["c"])), ("misc", id_list(&["a"]))]),
        scholarship("Four", vec![("major", id_list(&[]))]),
    ];
    let found = eligible_scholarships(list, &cat, &ok(&[true, false, true]));
    let names: Vec<String> = found.iter().map(|s| s.subject.clone()).collect();
    assert_eq!(names, vec!["One", "Three"]);
}

#[test]
fn test_scholarship_outcomes() {
    let cat = catalog();
    let outs = vec![Ok(true), Ok(false), Err("no town".to_string())];
    assert_eq!(test_scholarship(&listed("P", &["a"]), &cat, &outs), Ok(true));
    assert_eq!(test_scholarship(&listed("Q", &["a", "b"]), &cat, &outs), Ok(false));
    assert_eq!(test_scholarship(&listed("R", &["b", "c", "zz"]), &cat, &outs), Err("no town".to_string()));
    assert_eq!(test_scholarship(&listed("T", &["zz"]), &cat, &outs), Err(String::new()));
    assert_eq!(test_scholarship(&listed("U", &[]), &cat, &outs), Ok(true));
    let untested = ExpandableInfo::new("V".to_string());
    assert_eq!(test_scholarship(&untested, &cat, &outs), Ok(true));
}

#[test]
fn report_lists_qualifying_and_failing() {
    let cat = catalog();
    let outs = vec![Ok(true), Ok(false), Err("no town".to_string())];
    let list = vec![listed("P", &["a"]), listed("Q", &["b"]), listed("R", &["c"])];
    let report = comparison_test_report(&list, &cat, &outs);
    assert_eq!(report, "Scholarship results: \n\nP\nno town");
    let none: Vec<ExpandableInfo> = Vec::new();
    assert_eq!(comparison_test_report(&none, &cat, &outs), "Scholarship results: \n");
}

#[test]
fn fafsa_and_essay_flags() {
    let mut s = ExpandableInfo::new("s".to_string());
    assert!(!requires_fafsa(&s));
    assert!(!requires_essay(&s));
    s.data.insert("fafsa_required".to_string(), text("Yes"));
    s.data.insert("essay_prompt".to_string(), text("Why?"));
    assert!(requires_fafsa(&s));
    assert!(requires_essay(&s));
    s.data.insert("fafsa_required".to_string(), text("No"));
    s.data.insert("essay_prompt".to_string(), text(""));
    assert!(!requires_fafsa(&s));
    assert!(!requires_essay(&s));
}

#[test]
fn submitted_requirements_read_back() {
    let cat = catalog();
    let mut form: AssocMap<ValueType> = AssocMap::new();
    form.insert("name".to_string(), text("Award"));
    let mut chosen: AssocMap<ValueType> = AssocMap::new();
    chosen.insert("major".to_string(), id_list(&["b", "c"]));
    chosen.insert("residency".to_string(), id_list(&["a"]));
    let info = scholarships::forms::scholarship_submission("sch".to_string(), form, chosen);
    let read = requirement_selection(&info).unwrap();
    let keys: Vec<String> = read.entries().iter().map(|e| e.0.clone()).collect();
    assert_eq!(keys, vec!["major", "residency"]);
    assert_eq!(applicant_requirement_groups(&info, &cat), vec![vec![1, 2], vec![0]]);
}

#[test]
fn added_requirement_admits_no_one() {
    let cat = catalog();
    let make_students = || {
        let mut students: AssocMap<AssocMap<ValueType>> = AssocMap::new();
        for id in ["s1", "s2", "s3"] {
            students.insert(id.to_string(), AssocMap::new());
        }
        students
    };
    let mut outcomes: AssocMap<Vec<Result<bool, String>>> = AssocMap::new();
    outcomes.insert("s1".to_string(), ok(&[true, true, false]));
    outcomes.insert("s2".to_string(), ok(&[true, false, true]));
    outcomes.insert("s3".to_string(), ok(&[false, true, true]));
    let empty: AssocMap<Vec<String>> = AssocMap::new();
    let before = scholarship("S", vec![("major", id_list(&["a"]))]);
    let after = scholarship("S", vec![("major", id_list(&["a"])), ("residency", id_list(&["c"]))]);
    let r1 = get_eligible_students(make_students(), &before, &cat, &outcomes, false, false, &empty, &empty);
    let r2 = get_eligible_students(make_students(), &after, &cat, &outcomes, false, false, &empty, &empty);
    assert!(r1.contains_key("s1") && r1.contains_key("s2") && !r1.contains_key("s3"));
    assert!(!r2.contains_key("s1") && r2.contains_key("s2") && !r2.contains_key("s3"));
}
