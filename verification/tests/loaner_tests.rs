use scholarships::loaner::{
    check_in_prompt, loan_time_display, loaner_form, loaner_return_entry, loaners_return_list, stamp_borrow_entry,
    LoanerForm, LoanerKioskState, LoanerReturnOutput,
};
use scholarships::value::{ExpandableInfo, ValueType};

fn text(s: &str) -> ValueType {
    ValueType::String(Some(s.to_string()))
}

fn loan(subject: &str, first: &str, last: &str, date: &str) -> ExpandableInfo {
    let mut info = ExpandableInfo::new(subject.to_string());
    info.data.insert("first_name".to_string(), text(first));
    info.data.insert("last_name".to_string(), text(last));
    info.data.insert("date_taken".to_string(), text(date));
    info
}

#[test]
fn loaner_forms_by_name() {
    assert_eq!(loaner_form("borrowing"), LoanerForm::Borrowing);
    assert_eq!(loaner_form("returning"), LoanerForm::Returning);
    assert_eq!(loaner_form("other"), LoanerForm::Placeholder);
    assert_eq!(loaner_form(""), LoanerForm::Placeholder);
    assert_ne!(LoanerKioskState::UserEntry, LoanerKioskState::Complete);
}

#[test]
fn return_entry_reads_fields() {
    let e = loaner_return_entry(loan("l1", "Ann", "Lee", "09:30, 01/02/2025"));
    assert_eq!(e.subject, "l1");
    assert_eq!(e.first_name, "Ann");
    assert_eq!(e.last_name, "Lee");
    assert_eq!(e.date, "09:30, 01/02/2025");
    let mut odd = loan("l2", "Bo", "Ray", "x");
    odd.data.insert("last_name".to_string(), ValueType::Number(Some("7".to_string())));
    odd.data.insert("date_taken".to_string(), ValueType::String(None));
    let e = loaner_return_entry(odd);
    assert_eq!(e.last_name, "");
    assert_eq!(e.date, "");
}

#[test]
fn return_list_in_order() {
    let list = loaners_return_list(vec![loan("a", "A", "One", "d1"), loan("b", "B", "Two", "d2")]);
    assert_eq!(list.len(), 2);
    assert_eq!(list[0].subject, "a");
    assert_eq!(list[1].last_name, "Two");
    assert!(loaners_return_list(Vec::new()).is_empty());
}

#[test]
fn check_in_question() {
    let s = LoanerReturnOutput {
        subject: "a".to_string(),
        first_name: "Ann".to_string(),
        last_name: "Lee".to_string(),
        date: String::new(),
    };
    assert_eq!(check_in_prompt(&Some(s)), "Are you sure want to check in Ann Lee?");
    assert_eq!(check_in_prompt(&None), "There is no student selected.");
}

#[test]
fn borrow_entry_gets_time() {
    let mut input = ExpandableInfo::new("new".to_string());
    input.data.insert("first_name".to_string(), text("Ann"));
    let r = stamp_borrow_entry(input, "14:05, 03/04/2025".to_string());
    assert_eq!(r.subject, "new");
    assert_eq!(r.data.len(), 2);
    match r.data.get("date_taken") {
        Some(ValueType::String(Some(t))) => assert_eq!(t, "14:05, 03/04/2025"),
        _ => panic!("the time is stored"),
    }
}

#[test]
fn loan_time_in_eastern_time() {
    assert_eq!(loan_time_display("14:05, 03/04/2025"), Some(" 9:05 AM, 03/04/2025".to_string()));
    assert_eq!(loan_time_display("02:30, 01/01/2025"), Some(" 9:30 PM, 12/31/2024".to_string()));
    assert_eq!(loan_time_display("not a time"), None);
}
