//! Students' records in the application table: the keys under which they are
//! stored, gathering a student's forms into one record, who may read a file,
//! and the names given to downloaded files.
//!
//! Every item of the table has a hash key `HK` of the form `STUDENT#<subject>`
//! and a sort key `SK`: the form's name in upper case for form answers, or
//! `FILE#<form>#<input>#<file name>` for an uploaded file.
use vstd::prelude::*;
use crate::assoc::AssocMap;
use crate::text::{
    owned, concatenate, replace_str, replace_all, contains_seq, to_uppercase, after_first,
    after_first_piece,
    uppercase, take_chars, last_piece, first_piece, after_last, before_first, str_equal,
};
use crate::value::{ValueType, field_text, get_text};

verus! {

broadcast use vstd::string::group_string_axioms;

/// The prefix of every student's hash key.
pub open spec fn student_prefix() -> Seq<char> {
    "STUDENT#"@
}

/// The hash key of the student `subject`: `STUDENT#<subject>`.
pub fn student_key(subject: &str) -> (r: String)
    ensures
        r@ == student_prefix() + subject@,
{
    concatenate("STUDENT#", subject)
}

/// The student identifier a hash key stands for: the key with every
/// occurrence of `STUDENT#` taken out.
pub open spec fn student_id_of_key(hk: Seq<char>) -> Seq<char> {
    replace_all(hk, student_prefix(), Seq::empty())
}

/// The student identifier of the hash key `hk` (`STUDENT#` taken out).
pub fn student_id_from_key(hk: &str) -> (r: String)
    ensures
        r@ == student_id_of_key(hk@),
{
    proof {
        reveal_strlit("STUDENT#");
        reveal_strlit("");
        assert(""@ =~= Seq::<char>::empty());
    }
    replace_str(hk, "STUDENT#", "")
}

/// The sort key of a student's answers to the form `data_type`: its name in
/// upper case.
pub fn data_sort_key(data_type: &str) -> (r: String)
    ensures
        r@ == uppercase(data_type@),
{
    to_uppercase(data_type)
}

/// The sort key of an uploaded file: `FILE#<form>#<input>#<file name>`.
pub fn file_sort_key(form_id: &str, input_name: &str, file_name: &str) -> (r: String)
    ensures
        r@ == "FILE#"@ + form_id@ + "#"@ + input_name@ + "#"@ + file_name@,
{
    let a = concatenate("FILE#", form_id);
    let b = concatenate(a.as_str(), "#");
    let c = concatenate(b.as_str(), input_name);
    let d = concatenate(c.as_str(), "#");
    concatenate(d.as_str(), file_name)
}

/// The sort-key prefix that selects the files uploaded to one input:
/// `FILE#<form>#<input>`.
pub fn file_sort_prefix(form_name: &str, input_name: &str) -> (r: String)
    ensures
        r@ == "FILE#"@ + form_name@ + "#"@ + input_name@,
{
    let a = concatenate("FILE#", form_name);
    let b = concatenate(a.as_str(), "#");
    concatenate(b.as_str(), input_name)
}

/// The storage key of an uploaded file: `<form>/<subject>/<input>/<file name>`.
pub fn file_object_key(form_id: &str, subject: &str, input_name: &str, file_name: &str) -> (r: String)
    ensures
        r@ == form_id@ + "/"@ + subject@ + "/"@ + input_name@ + "/"@ + file_name@,
{
    let a = concatenate(form_id, "/");
    let b = concatenate(a.as_str(), subject);
    let c = concatenate(b.as_str(), "/");
    let d = concatenate(c.as_str(), input_name);
    let e = concatenate(d.as_str(), "/");
    concatenate(e.as_str(), file_name)
}

/// The name of the group of scholarship providers.
pub open spec fn provider_group() -> Seq<char> {
    "ScholarshipProviders"@
}

/// The user's groups include the scholarship providers.
pub open spec fn in_provider_group(groups: Seq<String>) -> bool {
    exists|i: int| 0 <= i < groups.len() && #[trigger] groups[i]@ == provider_group()
}

/// Whether the user's groups include the scholarship providers.
pub fn is_provider(groups: &Vec<String>) -> (r: bool)
    ensures
        r == in_provider_group(groups@),
{
    let mut i: usize = 0;
    while i < groups.len()
        invariant
            i <= groups@.len(),
            forall|j: int| 0 <= j < i ==> #[trigger] groups@[j]@ != provider_group(),
        decreases groups@.len() - i,
    {
        if str_equal(groups[i].as_str(), "ScholarshipProviders") {
            return true;
        }
        i = i + 1;
    }
    false
}

/// The owner of the file stored under the key `<form>/<subject>/<input>/<file
/// name>`: the key's second `/`-separated piece; none when the key holds no
/// `/`.
pub open spec fn key_owner(k: Seq<char>) -> Option<Seq<char>> {
    match after_first(k, '/') {
        Some(rest) => Some(before_first(rest, '/')),
        None => None,
    }
}

/// The owner named in a file's storage key (its second `/`-separated piece).
pub fn file_key_owner(file_key: &str) -> (r: Option<String>)
    ensures
        match r {
            Some(o) => key_owner(file_key@) == Some(o@),
            None => key_owner(file_key@) is None,
        },
{
    match after_first_piece(file_key, '/') {
        Some(rest) => Some(first_piece(rest.as_str(), '/')),
        None => None,
    }
}

/// Whether a user may read the file stored under `file_key`: the user owns it
/// (the key's second piece is the user's subject), or the user is a
/// scholarship provider.
pub fn can_access_file(file_key: &str, subject: &str, groups: &Vec<String>) -> (r: bool)
    ensures
        r == (key_owner(file_key@) == Some(subject@) || in_provider_group(groups@)),
{
    let owns = match file_key_owner(file_key) {
        Some(o) => str_equal(o.as_str(), subject),
        None => false,
    };
    owns || is_provider(groups)
}

/// Why a user may not have what they asked for.
#[derive(PartialEq, Eq, Structural, Debug)]
pub enum AccessError {
    /// The user neither owns the file nor is a scholarship provider.
    NotOwnerOrProvider,
    /// The user is not a scholarship provider.
    NotProvider,
    /// The user is not in the scholarship providers' group.
    NotInProviderGroup,
}

impl AccessError {
    /// The message given back for the error.
    pub fn message(&self) -> (r: String)
        ensures
            r@ == match self {
                AccessError::NotOwnerOrProvider => "Access denied: user is not the student or a provider"@,
                AccessError::NotProvider => "Access denied: user is not a provider"@,
                AccessError::NotInProviderGroup => "User is not in the ScholarshipProviders group"@,
            },
    {
        match self {
            AccessError::NotOwnerOrProvider => owned("Access denied: user is not the student or a provider"),
            AccessError::NotProvider => owned("Access denied: user is not a provider"),
            AccessError::NotInProviderGroup => owned("User is not in the ScholarshipProviders group"),
        }
    }
}

/// Admits the user to the file stored under `file_key` when the user owns it
/// (the key's second piece is the user's subject) or is a scholarship
/// provider.
pub fn check_file_access(file_key: &str, subject: &str, groups: &Vec<String>) -> (r: Result<(), AccessError>)
    ensures
        r == (if key_owner(file_key@) == Some(subject@) || in_provider_group(groups@) {
            Ok::<(), AccessError>(())
        } else {
            Err(AccessError::NotOwnerOrProvider)
        }),
{
    if can_access_file(file_key, subject, groups) {
        Ok(())
    } else {
        Err(AccessError::NotOwnerOrProvider)
    }
}

/// Admits a scholarship provider; anyone else is refused with `refusal`.
pub fn check_provider(groups: &Vec<String>, refusal: AccessError) -> (r: Result<(), AccessError>)
    ensures
        r == (if in_provider_group(groups@) {
            Ok::<(), AccessError>(())
        } else {
            Err(refusal)
        }),
{
    if is_provider(groups) {
        Ok(())
    } else {
        Err(refusal)
    }
}

/// `v` is a present text equal to `t`.
pub open spec fn holds_text(v: ValueType, t: Seq<char>) -> bool {
    v matches ValueType::String(Some(s)) && s@ == t
}

/// The table item that stores a student's answers to the form `data_type`:
/// the answers with the student's hash key and the form's sort key.
pub fn student_data_item(subject: &str, data_type: &str, data: AssocMap<ValueType>) -> (r: AssocMap<ValueType>)
    ensures
        r@.dom() == data@.dom().insert("HK"@).insert("SK"@),
        holds_text(r@["HK"@], student_prefix() + subject@),
        holds_text(r@["SK"@], uppercase(data_type@)),
        forall|k: Seq<char>| k != "HK"@ && k != "SK"@ && #[trigger] data@.contains_key(k) ==> r@[k] == data@[k],
{
    proof {
        reveal_strlit("HK");
        reveal_strlit("SK");
        assert("HK"@[0] != "SK"@[0]);
    }
    let mut item = data;
    let hk = student_key(subject);
    let sk = data_sort_key(data_type);
    item.insert(owned("HK"), ValueType::String(Some(hk)));
    item.insert(owned("SK"), ValueType::String(Some(sk)));
    item
}

/// A student's items merged into one record, a later item's value replacing an
/// earlier one's under the same name.
pub fn merge_student_items<V>(items: Vec<AssocMap<V>>) -> (r: AssocMap<V>)
    ensures
        r@ == merge_all(items@),
{
    let ghost all = items@;
    let mut data: AssocMap<V> = AssocMap::new();
    for item in it: items
        invariant
            it.seq() == all,
            data@ == merge_all(all.take(it.index())),
    {
        proof {
            assert(all.take(it.index() + 1).drop_last() =~= all.take(it.index()));
            assert(all.take(it.index() + 1).last() == item);
        }
        data.extend(item);
    }
    assert(all.take(all.len() as int) =~= all);
    data
}

/// The field `key` of the first of `items`, or `default` when there is no item
/// or the first one lacks the field.
pub fn first_item_field<V>(items: Vec<AssocMap<V>>, key: &str, default: V) -> (r: V)
    ensures
        r == (if items@.len() > 0 && items@[0]@.contains_key(key@) {
            items@[0]@[key@]
        } else {
            default
        }),
{
    let mut items = items;
    if items.len() == 0 {
        return default;
    }
    let mut first = items.swap_remove(0);
    match first.remove(key) {
        Some(v) => v,
        None => default,
    }
}

/// The student that a table item belongs to.
pub open spec fn item_student(item: Map<Seq<char>, ValueType>) -> Seq<char> {
    student_id_of_key(field_text(item, "HK"@))
}

/// The answers an item holds: all its fields but the two keys.
pub open spec fn item_fields(item: Map<Seq<char>, ValueType>) -> Map<Seq<char>, ValueType> {
    item.remove("HK"@).remove("SK"@)
}

/// Each student's answers gathered from `items`: the fields of a student's
/// items, a later item's value replacing an earlier one's under the same name.
pub open spec fn gather_students(items: Seq<AssocMap<ValueType>>) -> Map<
    Seq<char>,
    Map<Seq<char>, ValueType>,
>
    decreases items.len(),
{
    if items.len() == 0 {
        Map::empty()
    } else {
        let prev = gather_students(items.drop_last());
        let it = items.last()@;
        let id = item_student(it);
        let f = item_fields(it);
        prev.insert(
            id,
            if prev.contains_key(id) {
                prev[id].union_prefer_right(f)
            } else {
                f
            },
        )
    }
}

/// The students that completed the demographics form, with all their answers:
/// those whose gathered answers hold a `first_name`.
pub fn collect_completed_students(items: Vec<AssocMap<ValueType>>) -> (r: AssocMap<AssocMap<ValueType>>)
    ensures
        forall|id: Seq<char>| #[trigger] r@.contains_key(id) == (gather_students(items@).contains_key(id)
            && gather_students(items@)[id].contains_key("first_name"@)),
        forall|id: Seq<char>| #[trigger] r@.contains_key(id) ==> r@[id]@ == gather_students(items@)[id],
{
    let ghost all = items@;
    let mut gathered: AssocMap<AssocMap<ValueType>> = AssocMap::new();
    for item in it: items
        invariant
            it.seq() == all,
            forall|id: Seq<char>| #[trigger] gathered@.contains_key(id) == gather_students(all.take(
                it.index(),
            )).contains_key(id),
            forall|id: Seq<char>| #[trigger] gathered@.contains_key(id) ==> gathered@[id]@
                == gather_students(all.take(it.index()))[id],
    {
        proof {
            assert(all.take(it.index() + 1).drop_last() =~= all.take(it.index()));
            assert(all.take(it.index() + 1).last() == item);
        }
        let ghost prev = gather_students(all.take(it.index()));
        let mut fields = item;
        let hk = get_text(&fields, "HK");
        let id = student_id_from_key(hk.as_str());
        let ghost f0 = fields@;
        fields.remove("HK");
        fields.remove("SK");
        assert(fields@ == item_fields(f0));
        match gathered.remove(id.as_str()) {
            Some(mut existing) => {
                existing.extend(fields);
                gathered.insert(id, existing);
            },
            None => {
                gathered.insert(id, fields);
            },
        }
        proof {
            let next = gather_students(all.take(it.index() + 1));
            assert forall|k: Seq<char>| #[trigger] gathered@.contains_key(k) == next.contains_key(k) by {}
            assert forall|k: Seq<char>| #[trigger] gathered@.contains_key(k) implies gathered@[k]@
                == next[k] by {}
        }
    }
    assert(all.take(all.len() as int) =~= all);
    let ghost g = gather_students(all);
    let ghost gm = gathered@;
    let entries = gathered.into_entries();
    assert(crate::assoc::key_map(entries@) == gm);
    let ghost es = entries@;
    let mut r: AssocMap<AssocMap<ValueType>> = AssocMap::new();
    for e in it: entries
        invariant
            it.seq() == es,
            crate::assoc::distinct_keys(es),
            forall|id: Seq<char>| #[trigger] crate::assoc::key_map(es).contains_key(id) == g.contains_key(id),
            forall|id: Seq<char>| #[trigger] crate::assoc::key_map(es).contains_key(id) ==> crate::assoc::key_map(
                es,
            )[id]@ == g[id],
            forall|id: Seq<char>| #[trigger] r@.contains_key(id) == (crate::assoc::has_key(
                es.take(it.index()),
                id,
            ) && g[id].contains_key("first_name"@)),
            forall|id: Seq<char>| #[trigger] r@.contains_key(id) ==> r@[id]@ == g[id],
    {
        let ghost i = it.index();
        proof {
            crate::assoc::lemma_key_map_at(es, i);
            assert(e == es[i]);
            assert forall|k: Seq<char>| #[trigger] crate::assoc::has_key(es.take(i + 1), k) == (
            crate::assoc::has_key(es.take(i), k) || k == e.0@) by {
                let pre = es.take(i);
                let post = es.take(i + 1);
                if crate::assoc::has_key(post, k) {
                    let j = choose|j: int| 0 <= j < post.len() && #[trigger] post[j].0@ == k;
                    if j < i {
                        assert(pre[j] == post[j]);
                    }
                }
                if crate::assoc::has_key(pre, k) {
                    let j = choose|j: int| 0 <= j < pre.len() && #[trigger] pre[j].0@ == k;
                    assert(pre[j] == post[j]);
                }
                if k == e.0@ {
                    assert(post[i] == es[i]);
                }
            }
            assert(crate::assoc::has_key(es, e.0@));
        }
        let (id, record) = e;
        if record.contains_key("first_name") {
            r.insert(id, record);
        }
    }
    proof {
        assert(es.take(es.len() as int) =~= es);
        assert forall|id: Seq<char>| #[trigger] crate::assoc::has_key(es, id) == g.contains_key(id) by {
            assert(crate::assoc::key_map(es).contains_key(id) == crate::assoc::has_key(es, id));
        }
    }
    r
}

/// Each student's uploaded file keys gathered from file items, in order.
pub open spec fn gather_files(items: Seq<AssocMap<ValueType>>) -> Map<Seq<char>, Seq<Seq<char>>>
    decreases items.len(),
{
    if items.len() == 0 {
        Map::empty()
    } else {
        let prev = gather_files(items.drop_last());
        let it = items.last()@;
        let id = item_student(it);
        let key = field_text(it, "file_key"@);
        prev.insert(
            id,
            if prev.contains_key(id) {
                prev[id]
            } else {
                Seq::empty()
            }.push(key),
        )
    }
}

/// The file keys of file items, grouped by the student that uploaded them.
pub fn group_input_files(items: Vec<AssocMap<ValueType>>) -> (r: AssocMap<Vec<String>>)
    ensures
        forall|id: Seq<char>| #[trigger] r@.contains_key(id) == gather_files(items@).contains_key(id),
        forall|id: Seq<char>| #[trigger] r@.contains_key(id) ==> r@[id]@.map_values(|s: String| s@)
            == gather_files(items@)[id],
{
    let ghost all = items@;
    let mut groups: AssocMap<Vec<String>> = AssocMap::new();
    for i in 0..items.len()
        invariant
            all == items@,
            forall|id: Seq<char>| #[trigger] groups@.contains_key(id) == gather_files(all.take(i as int)).contains_key(id),
            forall|id: Seq<char>| #[trigger] groups@.contains_key(id) ==> groups@[id]@.map_values(
                |s: String| s@,
            ) == gather_files(all.take(i as int))[id],
    {
        proof {
            assert(all.take(i + 1).drop_last() =~= all.take(i as int));
            assert(all.take(i + 1).last() == items@[i as int]);
        }
        let item = &items[i];
        let hk = get_text(item, "HK");
        let id = student_id_from_key(hk.as_str());
        let file_key = get_text(item, "file_key");
        let ghost old_groups = groups@;
        groups.push_to(id, file_key);
        proof {
            let next = gather_files(all.take(i + 1));
            assert forall|k: Seq<char>| #[trigger] groups@.contains_key(k) == next.contains_key(k) by {}
            assert forall|k: Seq<char>| #[trigger] groups@.contains_key(k) implies groups@[k]@.map_values(
                |s: String| s@,
            ) == next[k] by {
                if k == id@ {
                    if old_groups.contains_key(k) {
                        assert(groups@[k]@.map_values(|s: String| s@) =~= old_groups[k]@.map_values(
                            |s: String| s@,
                        ).push(file_key@));
                    } else {
                        assert(groups@[k]@.map_values(|s: String| s@) =~= Seq::<Seq<char>>::empty().push(
                            file_key@,
                        ));
                    }
                }
            }
        }
    }
    assert(all.take(all.len() as int) =~= all);
    groups
}

/// The fields of `items` merged into one record, a later item's value
/// replacing an earlier one's under the same name.
pub open spec fn merge_all<V>(items: Seq<AssocMap<V>>) -> Map<Seq<char>, V>
    decreases items.len(),
{
    if items.len() == 0 {
        Map::empty()
    } else {
        merge_all(items.drop_last()).union_prefer_right(items.last()@)
    }
}

/// A student's items joined into one record, with the work experience and
/// extracurricular entries set to the given values.
pub fn student_info_record<V>(items: Vec<AssocMap<V>>, work_experience: V, extracurricular: V) -> (r:
    AssocMap<V>)
    ensures
        r@ == merge_all(items@).insert("work_experience"@, work_experience).insert(
            "extracurricular"@,
            extracurricular,
        ),
{
    let mut data = merge_student_items(items);
    data.insert(owned("work_experience"), work_experience);
    data.insert(owned("extracurricular"), extracurricular);
    data
}

/// The longest name, in characters, given to a downloaded file before its
/// extension.
pub open spec fn name_limit() -> nat {
    150
}

/// The name under which an uploaded file goes into a student's download: the
/// student's name, a dash and the file's base name (its last path piece up to
/// its first dot), cut to 150 characters, then a dot and the extension (the
/// key's last dot piece).
pub open spec fn archive_entry_name(first: Seq<char>, last: Seq<char>, key: Seq<char>) -> Seq<char> {
    let base = before_first(after_last(key, '/'), '.');
    let full = first + " "@ + last + " - "@ + base;
    let cut = if name_limit() <= full.len() {
        full.take(name_limit() as int)
    } else {
        full
    };
    cut + "."@ + after_last(key, '.')
}

/// The name of the file `key` in a student's download.
pub fn zip_entry_name(first_name: &str, last_name: &str, key: &str) -> (r: String)
    ensures
        r@ == archive_entry_name(first_name@, last_name@, key@),
{
    let file_part = last_piece(key, '/');
    let base = first_piece(file_part.as_str(), '.');
    let ext = last_piece(key, '.');
    let a = concatenate(first_name, " ");
    let b = concatenate(a.as_str(), last_name);
    let c = concatenate(b.as_str(), " - ");
    let full = concatenate(c.as_str(), base.as_str());
    let cut = take_chars(full.as_str(), 150);
    let d = concatenate(cut.as_str(), ".");
    concatenate(d.as_str(), ext.as_str())
}

/// The suggested name of a student's download:
/// `<first><last>_<postfix>.zip`.
pub fn zip_name_hint(first_name: &str, last_name: &str, postfix: &str) -> (r: String)
    ensures
        r@ == first_name@ + last_name@ + "_"@ + postfix@ + ".zip"@,
{
    let a = concatenate(first_name, last_name);
    let b = concatenate(a.as_str(), "_");
    let c = concatenate(b.as_str(), postfix);
    concatenate(c.as_str(), ".zip")
}

/// The name of a student's application document:
/// `<first><last>_Application.pdf`.
pub fn pdf_file_name(first_name: &str, last_name: &str) -> (r: String)
    ensures
        r@ == first_name@ + last_name@ + "_Application.pdf"@,
{
    let a = concatenate(first_name, last_name);
    concatenate(a.as_str(), "_Application.pdf")
}

/// A JSON text turned into a document-language value: braces and brackets
/// become parentheses, then every `))` becomes `),)` so that a list of one
/// record keeps its trailing comma.
pub open spec fn typst_value(json: Seq<char>) -> Seq<char> {
    let a = replace_all(json, "{"@, "("@);
    let b = replace_all(a, "}"@, ")"@);
    let c = replace_all(b, "["@, "("@);
    let d = replace_all(c, "]"@, ")"@);
    replace_all(d, "))"@, "),)"@)
}

/// Turns a student's record in JSON into a value of the document language.
pub fn typst_literal(json: &str) -> (r: String)
    ensures
        r@ == typst_value(json@),
{
    proof {
        reveal_strlit("{");
        reveal_strlit("}");
        reveal_strlit("[");
        reveal_strlit("]");
        reveal_strlit("))");
    }
    let a = replace_str(json, "{", "(");
    let b = replace_str(a.as_str(), "}", ")");
    let c = replace_str(b.as_str(), "[", "(");
    let d = replace_str(c.as_str(), "]", ")");
    replace_str(d.as_str(), "))", "),)")
}

/// The source of a student's application document: the binding of `student`
/// to their record, then the template.
pub fn typst_source(student_value: &str, template: &str) -> (r: String)
    ensures
        r@ == "#let student = "@ + student_value@ + "\n"@ + template@,
{
    let a = concatenate("#let student = ", student_value);
    let b = concatenate(a.as_str(), "\n");
    concatenate(b.as_str(), template)
}

} // verus!
