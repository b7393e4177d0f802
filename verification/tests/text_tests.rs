use scholarships::students::student_id_from_key;
use scholarships::text::{
    after_first_piece, char_vec, concatenate, contains_str, first_piece, is_whitespace, last_piece, remove_whitespace,
    take_chars,
};
use scholarships::value::{get_text, text_value, ExpandableInfo, ValueError, ValueType};

#[test]
fn white_space_matches_std() {
    for n in 0u32..=0x3100 {
        if let Some(c) = char::from_u32(n) {
            assert_eq!(is_whitespace(c), c.is_whitespace(), "at {:x}", n);
        }
    }
    assert!(!is_whitespace('\u{feff}'));
    assert!(!is_whitespace('\u{10ffff}'));
}

#[test]
fn remove_white_space_keeps_others() {
    assert_eq!(remove_whitespace(" a b\u{2003}c\r\n"), "abc");
    assert_eq!(remove_whitespace(""), "");
}

#[test]
fn replace_and_contains() {
    assert_eq!(student_id_from_key("STUDENT#STUDENT#x"), "x");
    assert_eq!(student_id_from_key("STUDENSTUDENT#T#y"), "STUDENT#y");
    assert_eq!(student_id_from_key("xyz"), "xyz");
    assert!(contains_str("hello", "ell"));
    assert!(contains_str("hello", ""));
    assert!(!contains_str("hello", "hello!"));
}

#[test]
fn pieces_and_prefixes() {
    assert_eq!(last_piece("a/b/c", '/'), "c");
    assert_eq!(last_piece("a/b/", '/'), "");
    assert_eq!(last_piece("abc", '/'), "abc");
    assert_eq!(first_piece("x.tar.gz", '.'), "x");
    assert_eq!(first_piece(".hidden", '.'), "");
    assert_eq!(take_chars("héllo", 2), "hé");
    assert_eq!(take_chars("hi", 5), "hi");
    assert_eq!(concatenate("ab", "cd"), "abcd");
    assert_eq!(char_vec("héy"), vec!['h', 'é', 'y']);
}

#[test]
fn value_kinds() {
    let s = ValueType::String(Some("x".to_string()));
    assert_eq!(s.as_string(), Ok(Some("x".to_string())));
    assert_eq!(ValueType::String(None).as_string(), Ok(None));
    assert!(matches!(ValueType::Number(Some("1".to_string())).as_string(), Err(ValueError::WrongKind)));
    let l = ValueType::List(Some(vec![]));
    assert!(matches!(l.as_list(), Ok(Some(v)) if v.is_empty()));
    assert!(matches!(s.as_list(), Err(ValueError::WrongKind)));
    assert!(matches!(ValueType::Mapping(None).as_map(), Ok(None)));
    assert!(matches!(l.as_map(), Err(ValueError::WrongKind)));
    assert_eq!(text_value(Some(&s)), "x");
    assert_eq!(text_value(Some(&ValueType::Number(Some("1".to_string())))), "");
    assert_eq!(text_value(None), "");
    let mut info = ExpandableInfo::new("subj".to_string());
    assert_eq!(info.data.len(), 0);
    info.data.insert("k".to_string(), s);
    assert_eq!(get_text(&info.data, "k"), "x");
    assert_eq!(get_text(&info.data, "missing"), "");
}

#[test]
fn after_first_piece_splits_once() {
    assert_eq!(after_first_piece("a/b/c", '/'), Some("b/c".to_string()));
    assert_eq!(after_first_piece("/x", '/'), Some("x".to_string()));
    assert_eq!(after_first_piece("ab/", '/'), Some(String::new()));
    assert_eq!(after_first_piece("abc", '/'), None);
}
