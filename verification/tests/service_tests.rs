use scholarships::archive::student_archive;
use scholarships::service::{accept_claims, after_put, check_token_use, jwks_url, require_key, require_kid, token_key_id, TokenClaims, pdf_data_url, NextStep, PutOutcome, TokenError};

#[test]
fn jwks_address() {
    assert_eq!(
        jwks_url("us-east-1_abc", "us-east-1"),
        "https://cognito-idp.us-east-1.amazonaws.com/us-east-1_abc/.well-known/jwks.json"
    );
}

#[test]
fn only_access_tokens() {
    assert!(matches!(check_token_use("access"), Ok(())));
    assert!(matches!(check_token_use("id"), Err(TokenError::TokenTypeMismatch)));
    assert!(matches!(check_token_use(""), Err(TokenError::TokenTypeMismatch)));
    assert!(matches!(require_kid(Some("k1".to_string())), Ok(k) if k == "k1"));
    assert!(matches!(require_kid(None), Err(TokenError::MissingKid)));
    assert_eq!(TokenError::InvalidHeader("bad base64".to_string()).message(), "Invalid token header: bad base64");
    assert_eq!(TokenError::MissingKid.message(), "Missing kid header");
    assert_eq!(TokenError::NoMatchingKey.message(), "Couldn't find matching key in JWKS");
    assert_eq!(TokenError::InvalidToken.message(), "Invalid token found");
    assert_eq!(TokenError::TokenTypeMismatch.message(), "Token type mismatch");
}

#[test]
fn pdf_data_address() {
    assert_eq!(pdf_data_url(b"hi"), "data:application/pdf;base64,aGk=");
    assert_eq!(pdf_data_url(b""), "data:application/pdf;base64,");
    assert_eq!(pdf_data_url(b"Man"), "data:application/pdf;base64,TWFu");
    assert_eq!(pdf_data_url(&[0xff, 0xfe, 0x00, 0x01]), "data:application/pdf;base64,//4AAQ==");
}

fn is_uuid(s: &str) -> bool {
    s.len() == 36
        && s.chars().enumerate().all(|(i, c)| {
            if i == 8 || i == 13 || i == 18 || i == 23 {
                c == '-'
            } else {
                c.is_ascii_digit() || ('a'..='f').contains(&c)
            }
        })
}

#[test]
fn after_put_steps() {
    let id = "old-id".to_string();
    match after_put(&id, PutOutcome::Stored, "Unknown error") {
        NextStep::Finish(x) => assert_eq!(x, "old-id"),
        _ => panic!("a stored item is done"),
    }
    let taken = PutOutcome::Refused {
        code: Some("ConditionalCheckFailedException".to_string()),
        message: Some("taken".to_string()),
    };
    match after_put(&id, taken, "Unknown error") {
        NextStep::Retry(x) => {
            assert!(is_uuid(&x));
            assert_ne!(x, "old-id");
        }
        _ => panic!("a taken identifier is retried"),
    }
    let other = PutOutcome::Refused { code: Some("Throttled".to_string()), message: Some("slow down".to_string()) };
    match after_put(&id, other, "Unknown error") {
        NextStep::Abort(m) => assert_eq!(m, "slow down"),
        _ => panic!("other refusals give up"),
    }
    match after_put(&id, PutOutcome::Refused { code: None, message: None }, "Unknown error") {
        NextStep::Abort(m) => assert_eq!(m, "Unknown error"),
        _ => panic!("other refusals give up"),
    }
}

#[test]
fn archive_holds_named_files() {
    let files = vec![
        ("f/s/essay/My Essay.pdf".to_string(), b"essay bytes".to_vec()),
        ("f/s/fafsa/form.pdf".to_string(), b"fafsa".to_vec()),
    ];
    let bytes = student_archive("Ann", "Lee", &files).unwrap();
    assert_eq!(&bytes[0..4], b"PK\x03\x04");
    let find = |needle: &[u8]| bytes.windows(needle.len()).any(|w| w == needle);
    assert!(find(b"Ann Lee - My Essay.pdf"));
    assert!(find(b"Ann Lee - form.pdf"));
    let again = student_archive("Ann", "Lee", &files).unwrap();
    assert_eq!(bytes, again);
}

#[test]
fn archive_of_no_files() {
    let bytes = student_archive("Ann", "Lee", &Vec::new()).unwrap();
    assert_eq!(&bytes[0..4], b"PK\x05\x06");
}

#[test]
fn token_key_names() {
    let with_kid = "eyJhbGciOiJSUzI1NiIsInR5cCI6IkpXVCIsImtpZCI6ImsxIn0.e30.c2ln";
    let without_kid = "eyJhbGciOiJSUzI1NiIsInR5cCI6IkpXVCJ9.e30.c2ln";
    assert!(matches!(token_key_id(with_kid), Ok(k) if k == "k1"));
    assert!(matches!(token_key_id(without_kid), Err(TokenError::MissingKid)));
    assert!(matches!(token_key_id("garbage"), Err(TokenError::InvalidHeader(_))));
    assert!(matches!(require_key(Some(3)), Ok(3)));
    assert!(matches!(require_key::<u8>(None), Err(TokenError::NoMatchingKey)));
    let claims = |u: &str| TokenClaims { subject: "s".to_string(), groups: vec![], token_use: u.to_string() };
    assert!(matches!(accept_claims(Some(claims("access"))), Ok(c) if c.subject == "s"));
    assert!(matches!(accept_claims(Some(claims("id"))), Err(TokenError::TokenTypeMismatch)));
    assert!(matches!(accept_claims(None), Err(TokenError::InvalidToken)));
}

#[test]
fn archive_refuses_duplicate_names() {
    let files = vec![
        ("f/s/essay/a.pdf".to_string(), b"one".to_vec()),
        ("f/s/other/a.pdf".to_string(), b"two".to_vec()),
    ];
    assert!(student_archive("Ann", "Lee", &files).is_err());
}
