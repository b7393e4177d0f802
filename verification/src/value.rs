//! The values that the application's records hold.
use vstd::prelude::*;
use crate::assoc::AssocMap;

verus! {

/// A field of a record: text, a number kept as its decimal text, a list, or a
/// nested record. Each kind may be present but empty (`None`).
pub enum ValueType {
    String(Option<String>),
    Number(Option<String>),
    List(Option<Vec<ValueType>>),
    Mapping(Option<AssocMap<ValueType>>),
}

/// Why a value could not be read as the kind that was asked for.
#[derive(Debug, PartialEq, Eq, Structural)]
pub enum ValueError {
    /// The value is of another kind.
    WrongKind,
}

/// The text that a field holds: that of a present `String` value, else empty.
pub open spec fn text_of(v: Option<ValueType>) -> Seq<char> {
    match v {
        Some(ValueType::String(Some(s))) => s@,
        _ => Seq::empty(),
    }
}

/// The text stored under `key` in `m`, or the empty text.
pub open spec fn field_text(m: Map<Seq<char>, ValueType>, key: Seq<char>) -> Seq<char> {
    if m.contains_key(key) {
        text_of(Some(m[key]))
    } else {
        Seq::empty()
    }
}

impl ValueType {
    /// The optional text of a `String` value; any other kind is an error.
    pub fn as_string(&self) -> (r: Result<Option<String>, ValueError>)
        ensures
            match self {
                ValueType::String(o) => r matches Ok(x) && match (o, x) {
                    (Some(a), Some(b)) => a@ == b@,
                    (None, None) => true,
                    _ => false,
                },
                _ => r == Err::<Option<String>, ValueError>(ValueError::WrongKind),
            },
    {
        match self {
            ValueType::String(Some(s)) => Ok(Some(s.clone())),
            ValueType::String(None) => Ok(None),
            _ => Err(ValueError::WrongKind),
        }
    }

    /// The optional items of a `List` value; any other kind is an error.
    pub fn as_list(&self) -> (r: Result<Option<&Vec<ValueType>>, ValueError>)
        ensures
            match self {
                ValueType::List(Some(l)) => r == Ok::<Option<&Vec<ValueType>>, ValueError>(Some(l)),
                ValueType::List(None) => r == Ok::<Option<&Vec<ValueType>>, ValueError>(None),
                _ => r == Err::<Option<&Vec<ValueType>>, ValueError>(ValueError::WrongKind),
            },
    {
        match self {
            ValueType::List(Some(l)) => Ok(Some(l)),
            ValueType::List(None) => Ok(None),
            _ => Err(ValueError::WrongKind),
        }
    }

    /// The optional record of a `Mapping` value; any other kind is an error.
    pub fn as_map(&self) -> (r: Result<Option<&AssocMap<ValueType>>, ValueError>)
        ensures
            match self {
                ValueType::Mapping(Some(m)) => r == Ok::<Option<&AssocMap<ValueType>>, ValueError>(
                    Some(m),
                ),
                ValueType::Mapping(None) => r == Ok::<Option<&AssocMap<ValueType>>, ValueError>(None),
                _ => r == Err::<Option<&AssocMap<ValueType>>, ValueError>(ValueError::WrongKind),
            },
    {
        match self {
            ValueType::Mapping(Some(m)) => Ok(Some(m)),
            ValueType::Mapping(None) => Ok(None),
            _ => Err(ValueError::WrongKind),
        }
    }
}

/// The text of a field, empty when the field is missing, empty or not text.
pub fn text_value(v: Option<&ValueType>) -> (r: String)
    ensures
        r@ == text_of(
            match v {
                Some(x) => Some(*x),
                None => None,
            },
        ),
{
    match v {
        Some(ValueType::String(Some(s))) => s.clone(),
        _ => String::new(),
    }
}

/// The text stored under `key`, empty when it is missing, empty or not text.
pub fn get_text(m: &AssocMap<ValueType>, key: &str) -> (r: String)
    ensures
        r@ == field_text(m@, key@),
{
    text_value(m.get(key))
}

/// A record with an identifying subject and a map of named fields.
pub struct ExpandableInfo {
    pub subject: String,
    pub data: AssocMap<ValueType>,
}

impl ExpandableInfo {
    /// A record with the given subject and no fields.
    pub fn new(subject: String) -> (r: Self)
        ensures
            r.subject == subject,
            r.data@ == Map::<Seq<char>, ValueType>::empty(),
    {
        ExpandableInfo { subject, data: AssocMap::new() }
    }
}

} // verus!
