//! The rules behind the application's forms: element identifiers, whether a
//! form may be submitted, the checks on an uploaded file, and what a form
//! sends.
use vstd::prelude::*;
use crate::assoc::AssocMap;
use crate::text::{owned, concatenate, remove_whitespace, strip_white_space, str_equal};
use crate::value::{ValueType, ExpandableInfo, text_of};

verus! {

broadcast use vstd::string::group_string_axioms;

/// A unique identifier for an option of a checkbox, radio or chips list:
/// the list's name, a dash, and the option's value without white space.
pub fn create_unique_id(name: &String, value: &String) -> (r: String)
    ensures
        r@ == name@ + "-"@ + strip_white_space(value@),
{
    let stripped = remove_whitespace(value.as_str());
    let a = concatenate(name.as_str(), "-");
    concatenate(a.as_str(), stripped.as_str())
}

/// The state of one input of a form.
pub enum ValidationState {
    /// A valid input.
    Valid,
    /// An invalid input, with the message to show.
    Invalid(String),
}

/// A form may be submitted when every input is valid.
pub fn form_can_submit(states: &Vec<ValidationState>) -> (r: bool)
    ensures
        r == (forall|i: int| 0 <= i < states@.len() ==> #[trigger] states@[i] is Valid),
{
    let mut ok = true;
    for i in 0..states.len()
        invariant
            ok == (forall|j: int| 0 <= j < i ==> #[trigger] states@[j] is Valid),
    {
        let valid = match &states[i] {
            ValidationState::Valid => true,
            ValidationState::Invalid(_) => false,
        };
        ok = valid && ok;
    }
    ok
}

/// What a part of an upload request carries.
#[derive(PartialEq, Eq, Structural, Debug)]
pub enum UploadFieldRole {
    AccessToken,
    FormId,
    File,
}

/// The part named `access_token` carries the access token, the part named
/// `form_id` the form's identifier, and any other part the file.
pub fn upload_field_role(name: &str) -> (r: UploadFieldRole)
    ensures
        r == (if name@ == "access_token"@ {
            UploadFieldRole::AccessToken
        } else if name@ == "form_id"@ {
            UploadFieldRole::FormId
        } else {
            UploadFieldRole::File
        }),
{
    if str_equal(name, "access_token") {
        UploadFieldRole::AccessToken
    } else if str_equal(name, "form_id") {
        UploadFieldRole::FormId
    } else {
        UploadFieldRole::File
    }
}

/// What an upload request lacks.
#[derive(PartialEq, Eq, Structural, Debug)]
pub enum UploadError {
    MissingAccessToken,
    MissingFormId,
    MissingFile,
    MissingInputName,
    /// A file part came without a part name.
    NoInputName,
    /// A file part came without a file name.
    NoFileName,
}

impl UploadError {
    /// The message given back for the error.
    pub fn message(&self) -> (r: String)
        ensures
            r@ == match self {
                UploadError::MissingAccessToken => "Missing access token"@,
                UploadError::MissingFormId => "Missing form ID"@,
                UploadError::MissingFile => "Missing file"@,
                UploadError::MissingInputName => "Missing input file"@,
                UploadError::NoInputName => "Couldn't find input name"@,
                UploadError::NoFileName => "Couldn't find file name"@,
            },
    {
        match self {
            UploadError::MissingAccessToken => owned("Missing access token"),
            UploadError::MissingFormId => owned("Missing form ID"),
            UploadError::MissingFile => owned("Missing file"),
            UploadError::MissingInputName => owned("Missing input file"),
            UploadError::NoInputName => owned("Couldn't find input name"),
            UploadError::NoFileName => owned("Couldn't find file name"),
        }
    }
}

/// The input's name and the file's name of a file part: its part name, which
/// must be there, then its file name, which must be there too.
pub fn file_field_names(name: Option<String>, file_name: Option<String>) -> (r: Result<
    (String, String),
    UploadError,
>)
    ensures
        match (name, file_name) {
            (None, _) => r == Err::<(String, String), UploadError>(UploadError::NoInputName),
            (Some(_), None) => r == Err::<(String, String), UploadError>(UploadError::NoFileName),
            (Some(n), Some(f)) => r matches Ok(p) && p.0 == n && p.1 == f,
        },
{
    match name {
        None => Err(UploadError::NoInputName),
        Some(n) => match file_name {
            None => Err(UploadError::NoFileName),
            Some(f) => Ok((n, f)),
        },
    }
}

/// One part of an upload request, read.
pub enum UploadField {
    AccessToken(String),
    FormId(String),
    File { input_name: String, file_name: String, bytes: Vec<u8> },
}

/// What an upload request carried so far. A later part replaces what an
/// earlier part of the same kind carried, so of several files only the last
/// one is kept.
pub struct UploadRequest {
    pub access_token: String,
    pub form_id: String,
    pub input_name: String,
    pub file_name: String,
    pub file_bytes: Vec<u8>,
}

impl UploadRequest {
    /// A request that carried nothing yet.
    pub fn new() -> (r: Self)
        ensures
            r.access_token@.len() == 0,
            r.form_id@.len() == 0,
            r.input_name@.len() == 0,
            r.file_name@.len() == 0,
            r.file_bytes@.len() == 0,
    {
        UploadRequest {
            access_token: String::new(),
            form_id: String::new(),
            input_name: String::new(),
            file_name: String::new(),
            file_bytes: Vec::new(),
        }
    }

    /// Takes in one part of the request.
    pub fn record(&mut self, field: UploadField)
        ensures
            match field {
                UploadField::AccessToken(t) => *final(self) == (UploadRequest { access_token: t, ..*old(self) }),
                UploadField::FormId(f) => *final(self) == (UploadRequest { form_id: f, ..*old(self) }),
                UploadField::File { input_name, file_name, bytes } => *final(self) == (UploadRequest {
                    input_name,
                    file_name,
                    file_bytes: bytes,
                    ..*old(self)
                }),
            },
    {
        match field {
            UploadField::AccessToken(t) => {
                self.access_token = t;
            },
            UploadField::FormId(f) => {
                self.form_id = f;
            },
            UploadField::File { input_name, file_name, bytes } => {
                self.input_name = input_name;
                self.file_name = file_name;
                self.file_bytes = bytes;
            },
        }
    }

    /// Checks that the request carried everything (`check_upload_fields`).
    pub fn check(&self) -> (r: Result<(), UploadError>)
        ensures
            r == (if self.access_token@.len() == 0 {
                Err(UploadError::MissingAccessToken)
            } else if self.form_id@.len() == 0 {
                Err(UploadError::MissingFormId)
            } else if self.file_name@.len() == 0 {
                Err(UploadError::MissingFile)
            } else if self.input_name@.len() == 0 {
                Err(UploadError::MissingInputName)
            } else {
                Ok(())
            }),
    {
        check_upload_fields(
            self.access_token.as_str(),
            self.form_id.as_str(),
            self.file_name.as_str(),
            self.input_name.as_str(),
        )
    }
}

/// A step of storing or removing an uploaded file that the storage services
/// refused.
pub enum StorageFailure {
    /// Putting the file into the bucket.
    FilePut,
    /// Putting the file's entry into the table; the file was taken out again.
    EntryPut,
    /// Taking the file out again after its entry could not be put.
    FileRollback,
    /// Putting the entry back after the file could not be deleted.
    EntryRollback,
}

/// The message given back when a step failed with the service's `detail`.
pub fn storage_failure_message(failure: StorageFailure, detail: &str) -> (r: String)
    ensures
        r@ == match failure {
            StorageFailure::FilePut => "Couldn't put file to S3: "@,
            StorageFailure::EntryPut => "Couldn't put file to Dynamo, file rolled back: "@,
            StorageFailure::FileRollback => "Couldn't roll back S3 operation: "@,
            StorageFailure::EntryRollback => "Couldn't roll back Dynamo operation: "@,
        } + detail@,
{
    let head = match failure {
        StorageFailure::FilePut => "Couldn't put file to S3: ",
        StorageFailure::EntryPut => "Couldn't put file to Dynamo, file rolled back: ",
        StorageFailure::FileRollback => "Couldn't roll back S3 operation: ",
        StorageFailure::EntryRollback => "Couldn't roll back Dynamo operation: ",
    };
    concatenate(head, detail)
}

/// Checks that an upload request carried everything, in this order: the access
/// token, the form's identifier, the file's name and the input's name.
pub fn check_upload_fields(
    access_token: &str,
    form_id: &str,
    file_name: &str,
    input_name: &str,
) -> (r: Result<(), UploadError>)
    ensures
        r == (if access_token@.len() == 0 {
            Err(UploadError::MissingAccessToken)
        } else if form_id@.len() == 0 {
            Err(UploadError::MissingFormId)
        } else if file_name@.len() == 0 {
            Err(UploadError::MissingFile)
        } else if input_name@.len() == 0 {
            Err(UploadError::MissingInputName)
        } else {
            Ok(())
        }),
{
    if access_token.is_empty() {
        Err(UploadError::MissingAccessToken)
    } else if form_id.is_empty() {
        Err(UploadError::MissingFormId)
    } else if file_name.is_empty() {
        Err(UploadError::MissingFile)
    } else if input_name.is_empty() {
        Err(UploadError::MissingInputName)
    } else {
        Ok(())
    }
}

/// The text of the field `name` of a record, or `fallback` when it is
/// missing, empty or not text.
pub open spec fn name_or(data: Map<Seq<char>, ValueType>, fallback: Seq<char>) -> Seq<char> {
    if data.contains_key("name"@) && (data["name"@] matches ValueType::String(Some(_))) {
        text_of(Some(data["name"@]))
    } else {
        fallback
    }
}

/// The name of a scholarship to show, or `fallback` when it has none.
pub fn scholarship_display_name(scholarship: &ExpandableInfo, fallback: &str) -> (r: String)
    ensures
        r@ == name_or(scholarship.data@, fallback@),
{
    match scholarship.data.get("name") {
        Some(ValueType::String(Some(s))) => s.clone(),
        _ => owned(fallback),
    }
}

/// What the scholarship form sends: the scholarship with the form's fields,
/// and the chosen requirements under `requirements`.
pub fn scholarship_submission(
    scholarship_id: String,
    form_data: AssocMap<ValueType>,
    chosen: AssocMap<ValueType>,
) -> (r: ExpandableInfo)
    ensures
        r.subject == scholarship_id,
        r.data@ == form_data@.insert("requirements"@, ValueType::Mapping(Some(chosen))),
{
    let mut info = ExpandableInfo::new(scholarship_id);
    info.data = form_data;
    info.data.insert(owned("requirements"), ValueType::Mapping(Some(chosen)));
    info
}

/// A new scholarship of a provider, as first stored: the provisional
/// identifier `testing`, the provider and the scholarship's name.
pub fn new_scholarship(provider_id: String, scholarship_name: String) -> (r: ExpandableInfo)
    ensures
        r.subject@ == "testing"@,
        r.data@ == Map::<Seq<char>, ValueType>::empty().insert(
            "provider_id"@,
            ValueType::String(Some(provider_id)),
        ).insert("scholarship_name"@, ValueType::String(Some(scholarship_name))),
{
    let mut item = ExpandableInfo::new(owned("testing"));
    item.data.insert(owned("provider_id"), ValueType::String(Some(provider_id)));
    item.data.insert(owned("scholarship_name"), ValueType::String(Some(scholarship_name)));
    item
}

/// Why a list of numbers could not be read from a record.
#[derive(PartialEq, Eq, Structural, Debug)]
pub enum NumberListError {
    /// The field is missing or is not a present list.
    NotFound,
    /// An item of the list is not a present number.
    NotANumber,
}

impl NumberListError {
    /// The message given back for the error.
    pub fn message(&self) -> (r: String)
        ensures
            r@ == match self {
                NumberListError::NotFound => "Couldn't find the list"@,
                NumberListError::NotANumber => "List contains non-number values"@,
            },
    {
        match self {
            NumberListError::NotFound => owned("Couldn't find the list"),
            NumberListError::NotANumber => owned("List contains non-number values"),
        }
    }
}

/// The number texts of a list field: `Ok` with each item's text when the field
/// `member` is a present list of present numbers.
pub fn get_number_texts(student_info: &ExpandableInfo, member: &String) -> (r: Result<
    Vec<String>,
    NumberListError,
>)
    ensures
        match r {
            Ok(v) => student_info.data@.contains_key(member@) && (student_info.data@[member@] matches ValueType::List(
                Some(l),
            ) && v@.len() == l@.len() && forall|i: int|
                0 <= i < l@.len() ==> (#[trigger] l@[i] matches ValueType::Number(Some(n)) && n@
                    == v@[i]@)),
            Err(NumberListError::NotFound) => !(student_info.data@.contains_key(member@) && (
            student_info.data@[member@] matches ValueType::List(Some(_)))),
            Err(NumberListError::NotANumber) => student_info.data@.contains_key(member@) && (
            student_info.data@[member@] matches ValueType::List(Some(l)) && exists|i: int|
                0 <= i < l@.len() && !(#[trigger] l@[i] matches ValueType::Number(Some(_)))),
        },
{
    match student_info.data.get(member.as_str()) {
        Some(ValueType::List(Some(list))) => {
            assert(student_info.data@.contains_key(member@));
            assert(student_info.data@[member@] == ValueType::List(Some(*list)));
            let mut out: Vec<String> = Vec::new();
            for i in 0..list.len()
                invariant
                    student_info.data@.contains_key(member@),
                    student_info.data@[member@] == ValueType::List(Some(*list)),
                    out@.len() == i,
                    forall|j: int|
                        0 <= j < i ==> (#[trigger] list@[j] matches ValueType::Number(Some(n)) && n@
                            == out@[j]@),
            {
                match &list[i] {
                    ValueType::Number(Some(n)) => {
                        out.push(n.clone());
                    },
                    _ => {
                        assert(!(list@[i as int] matches ValueType::Number(Some(_))));
                        assert(exists|k: int|
                            0 <= k < list@.len() && !(#[trigger] list@[k] matches ValueType::Number(Some(_))));
                        return Err(NumberListError::NotANumber);
                    },
                }
            }
            Ok(out)
        },
        _ => Err(NumberListError::NotFound),
    }
}

} // verus!
