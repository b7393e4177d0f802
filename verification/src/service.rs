//! Rules of the server side that sit between requests: where the signing keys
//! are published, which tokens are accepted, what to do after a conditional
//! write, and how a generated document is handed to the browser.
use vstd::prelude::*;
use base64::Engine;
use crate::text::{owned, concatenate, str_equal};

verus! {

broadcast use vstd::string::group_string_axioms;

/// The address of the key set of a user pool:
/// `https://cognito-idp.<region>.amazonaws.com/<pool>/.well-known/jwks.json`.
pub fn jwks_url(user_pool_id: &str, region: &str) -> (r: String)
    ensures
        r@ == "https://cognito-idp."@ + region@ + ".amazonaws.com/"@ + user_pool_id@
            + "/.well-known/jwks.json"@,
{
    let a = concatenate("https://cognito-idp.", region);
    let b = concatenate(a.as_str(), ".amazonaws.com/");
    let c = concatenate(b.as_str(), user_pool_id);
    concatenate(c.as_str(), "/.well-known/jwks.json")
}

/// Why a token is refused.
#[derive(Debug)]
pub enum TokenError {
    /// The token's header could not be read, for the given reason.
    InvalidHeader(String),
    /// The token's header names no key.
    MissingKid,
    /// The key set holds no key of the name the header gives.
    NoMatchingKey,
    /// The token did not decode or its signature did not check out.
    InvalidToken,
    /// The token is not an access token.
    TokenTypeMismatch,
}

impl TokenError {
    /// The message given back for the error.
    pub fn message(&self) -> (r: String)
        ensures
            r@ == match self {
                TokenError::InvalidHeader(e) => "Invalid token header: "@ + e@,
                TokenError::MissingKid => "Missing kid header"@,
                TokenError::NoMatchingKey => "Couldn't find matching key in JWKS"@,
                TokenError::InvalidToken => "Invalid token found"@,
                TokenError::TokenTypeMismatch => "Token type mismatch"@,
            },
    {
        match self {
            TokenError::InvalidHeader(e) => concatenate("Invalid token header: ", e.as_str()),
            TokenError::MissingKid => owned("Missing kid header"),
            TokenError::NoMatchingKey => owned("Couldn't find matching key in JWKS"),
            TokenError::InvalidToken => owned("Invalid token found"),
            TokenError::TokenTypeMismatch => owned("Token type mismatch"),
        }
    }
}

/// The name of the key that signed a token, which its header must give.
pub fn require_kid(kid: Option<String>) -> (r: Result<String, TokenError>)
    ensures
        match kid {
            Some(k) => r == Ok::<String, TokenError>(k),
            None => r == Err::<String, TokenError>(TokenError::MissingKid),
        },
{
    match kid {
        Some(k) => Ok(k),
        None => Err(TokenError::MissingKid),
    }
}

/// A header that reads and names the key `o`, or none.
pub open spec fn header_read(o: Option<String>) -> Result<Option<Seq<char>>, Seq<char>> {
    Ok(
        match o {
            Some(k) => Some(k@),
            None => None,
        },
    )
}

/// A header that does not read, for the reason `e`.
pub open spec fn header_unread(e: String) -> Result<Option<Seq<char>>, Seq<char>> {
    Err(e@)
}

/// What the header of a token gives: the name of its key (`None` when it
/// names none), or why the header does not read.
pub uninterp spec fn token_header(token: Seq<char>) -> Result<Option<Seq<char>>, Seq<char>>;

/// Reads a token's header (`jsonwebtoken::decode_header`) and gives back the
/// name of its key, or the reason the header does not read: the result is
/// `token_header` of the token.
#[verifier::external_body]
fn decode_token_kid(token: &str) -> (r: Result<Option<String>, String>)
    ensures
        r matches Ok(o) ==> token_header(token@) == header_read(o),
        r matches Err(e) ==> token_header(token@) == header_unread(e),
{
    match jsonwebtoken::decode_header(token) {
        Ok(header) => Ok(header.kid),
        Err(e) => Err(e.to_string()),
    }
}

/// The name of the key that signed a token: an invalid header is refused
/// with its reason, a header without a key name is refused.
pub fn token_key_id(token: &str) -> (r: Result<String, TokenError>)
    ensures
        match token_header(token@) {
            Err(e) => r matches Err(TokenError::InvalidHeader(m)) && m@ == e,
            Ok(None) => r matches Err(TokenError::MissingKid),
            Ok(Some(k)) => r matches Ok(x) && x@ == k,
        },
{
    match decode_token_kid(token) {
        Err(e) => Err(TokenError::InvalidHeader(e)),
        Ok(kid) => require_kid(kid),
    }
}

/// The key of the key set that a token names, which must be there.
pub fn require_key<T>(found: Option<T>) -> (r: Result<T, TokenError>)
    ensures
        match found {
            Some(k) => r == Ok::<T, TokenError>(k),
            None => r matches Err(TokenError::NoMatchingKey),
        },
{
    match found {
        Some(k) => Ok(k),
        None => Err(TokenError::NoMatchingKey),
    }
}

/// The claims of a token whose signature checked out.
pub struct TokenClaims {
    pub subject: String,
    pub groups: Vec<String>,
    pub token_use: String,
}

/// The claims of a token, given what checking its signature and expiry gave
/// (`None` when they did not check out; that outcome depends on the time):
/// a token that did not check out is refused, and a token that did is
/// accepted only when it is an access token.
pub fn accept_claims(decoded: Option<TokenClaims>) -> (r: Result<TokenClaims, TokenError>)
    ensures
        match decoded {
            None => r matches Err(TokenError::InvalidToken),
            Some(c) => if c.token_use@ == "access"@ {
                r == Ok::<TokenClaims, TokenError>(c)
            } else {
                r matches Err(TokenError::TokenTypeMismatch)
            },
        },
{
    match decoded {
        None => Err(TokenError::InvalidToken),
        Some(c) => match check_token_use(c.token_use.as_str()) {
            Ok(()) => Ok(c),
            Err(e) => Err(e),
        },
    }
}

/// Only access tokens are accepted.
pub fn check_token_use(token_use: &str) -> (r: Result<(), TokenError>)
    ensures
        r == (if token_use@ == "access"@ {
            Ok::<(), TokenError>(())
        } else {
            Err(TokenError::TokenTypeMismatch)
        }),
{
    if str_equal(token_use, "access") {
        Ok(())
    } else {
        Err(TokenError::TokenTypeMismatch)
    }
}

/// The character of the standard base64 alphabet for the six-bit value `n`.
pub open spec fn base64_digit(n: int) -> char {
    if n < 26 {
        (('A' as int) + n) as char
    } else if n < 52 {
        (('a' as int) + (n - 26)) as char
    } else if n < 62 {
        (('0' as int) + (n - 52)) as char
    } else if n == 62 {
        '+'
    } else {
        '/'
    }
}

/// The standard base64 encoding of `b`, with `=` padding.
pub open spec fn base64_standard(b: Seq<u8>) -> Seq<char>
    decreases b.len(),
{
    if b.len() == 0 {
        Seq::empty()
    } else {
        let x = b[0] as int;
        if b.len() == 1 {
            seq![base64_digit(x / 4), base64_digit((x % 4) * 16), '=', '=']
        } else {
            let y = b[1] as int;
            if b.len() == 2 {
                seq![
                    base64_digit(x / 4),
                    base64_digit((x % 4) * 16 + y / 16),
                    base64_digit((y % 16) * 4),
                    '=',
                ]
            } else {
                let z = b[2] as int;
                seq![
                    base64_digit(x / 4),
                    base64_digit((x % 4) * 16 + y / 16),
                    base64_digit((y % 16) * 4 + z / 64),
                    base64_digit(z % 64),
                ] + base64_standard(b.skip(3))
            }
        }
    }
}

/// Encodes `bytes` in standard base64 with padding
/// (`general_purpose::STANDARD.encode`).
#[verifier::external_body]
fn base64_encode(bytes: &[u8]) -> (r: String)
    ensures
        r@ == base64_standard(bytes@),
{
    base64::engine::general_purpose::STANDARD.encode(bytes)
}

/// The data address under which a browser opens a PDF document.
pub fn pdf_data_url(bytes: &[u8]) -> (r: String)
    ensures
        r@ == "data:application/pdf;base64,"@ + base64_standard(bytes@),
{
    let encoded = base64_encode(bytes);
    concatenate("data:application/pdf;base64,", encoded.as_str())
}

/// The lowercase hexadecimal digits.
pub open spec fn is_lower_hex(c: char) -> bool {
    ('0' <= c && c <= '9') || ('a' <= c && c <= 'f')
}

/// `s` is a UUID in its hyphenated lowercase form.
pub open spec fn is_hyphenated_uuid(s: Seq<char>) -> bool {
    &&& s.len() == 36
    &&& forall|i: int|
        0 <= i < 36 ==> if i == 8 || i == 13 || i == 18 || i == 23 {
            #[trigger] s[i] == '-'
        } else {
            is_lower_hex(s[i])
        }
}

/// A fresh random identifier (`Uuid::new_v4`, written in its hyphenated
/// lowercase form). Only its form is stated: the value is random.
#[verifier::external_body]
pub(crate) fn fresh_id() -> (r: String)
    ensures
        is_hyphenated_uuid(r@),
{
    uuid::Uuid::new_v4().to_string()
}

/// How a conditional write of a new item went.
pub enum PutOutcome {
    /// The item was stored.
    Stored,
    /// The write was refused, with the service's error code and message.
    Refused { code: Option<String>, message: Option<String> },
}

/// What to do after a conditional write of a new item.
pub enum NextStep {
    /// Done: the item is stored under this identifier.
    Finish(String),
    /// The identifier was taken: write again under this new identifier.
    Retry(String),
    /// Give up with this message.
    Abort(String),
}

/// The error code of a refused conditional write.
pub open spec fn taken_code() -> Seq<char> {
    "ConditionalCheckFailedException"@
}

/// After a write that must not replace an existing item: a stored item is
/// done; an item refused because its identifier is taken is written again
/// under a fresh identifier; any other refusal gives up with the service's
/// message, or `fallback` when there is none.
pub fn after_put(current_id: &String, outcome: PutOutcome, fallback: &str) -> (r: NextStep)
    ensures
        match outcome {
            PutOutcome::Stored => r matches NextStep::Finish(id) && id@ == current_id@,
            PutOutcome::Refused { code, message } => {
                if code matches Some(c) && c@ == taken_code() {
                    r matches NextStep::Retry(id) && is_hyphenated_uuid(id@)
                } else {
                    r matches NextStep::Abort(m) && m@ == match message {
                        Some(x) => x@,
                        None => fallback@,
                    }
                }
            },
        },
{
    match outcome {
        PutOutcome::Stored => NextStep::Finish(current_id.clone()),
        PutOutcome::Refused { code, message } => {
            let taken = match &code {
                Some(c) => str_equal(c.as_str(), "ConditionalCheckFailedException"),
                None => false,
            };
            if taken {
                NextStep::Retry(fresh_id())
            } else {
                match message {
                    Some(m) => NextStep::Abort(m),
                    None => NextStep::Abort(owned(fallback)),
                }
            }
        },
    }
}

} // verus!
