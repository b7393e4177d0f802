//! The scholarship export: each scholarship with its provider's contact and
//! the display texts of the requirements it chose, written as CSV.
use vstd::prelude::*;
use crate::assoc::AssocMap;
use crate::eligibility::requirement_entries;
use crate::text::{append_str, owned, str_equal};
use crate::value::{ValueType, ExpandableInfo, field_text, get_text, text_of, text_value};

verus! {

broadcast use vstd::string::group_string_axioms;

/// The outside type `indexmap::IndexMap`, declared so that it can stand in
/// signatures; Verus sees nothing inside it.
#[verifier::external_type_specification]
#[verifier::external_body]
#[verifier::reject_recursive_types(K)]
#[verifier::reject_recursive_types(V)]
#[verifier::reject_recursive_types(S)]
pub struct ExIndexMap<K, V, S>(indexmap::IndexMap<K, V, S>);

/// What an index map of requirement names holds: each category's names.
pub uninterp spec fn requirement_index(m: indexmap::IndexMap<String, Vec<String>>) -> Map<
    Seq<char>,
    Seq<Seq<char>>,
>;

/// The names of `v`, in order.
pub open spec fn names_of(v: Vec<String>) -> Seq<Seq<char>> {
    v@.map_values(|s: String| s@)
}

/// An empty index map (`IndexMap::new`).
#[verifier::external_body]
fn index_map_new() -> (r: indexmap::IndexMap<String, Vec<String>>)
    ensures
        requirement_index(r).dom() == Set::<Seq<char>>::empty(),
{
    indexmap::IndexMap::new()
}

/// Stores `value` under `key` (`IndexMap::insert`), replacing a value stored
/// under an equal key.
#[verifier::external_body]
fn index_map_insert(m: &mut indexmap::IndexMap<String, Vec<String>>, key: String, value: Vec<String>)
    ensures
        requirement_index(*final(m)) == requirement_index(*old(m)).insert(key@, names_of(value)),
{
    m.insert(key, value);
}

/// The value stored under `key` (`IndexMap::get`).
#[verifier::external_body]
fn index_map_get<'a>(m: &'a indexmap::IndexMap<String, Vec<String>>, key: &str) -> (r: Option<
    &'a Vec<String>,
>)
    ensures
        r is Some == requirement_index(*m).contains_key(key@),
        r matches Some(v) ==> names_of(*v) == requirement_index(*m)[key@],
{
    m.get(key)
}

/// A CSV writer with the default settings (`csv::Writer`) writing into an
/// in-memory buffer.
#[verifier::external_body]
pub struct CsvBuffer {
    writer: csv::Writer<Vec<u8>>,
}

/// The records that a CSV buffer holds, each a sequence of fields: those whose
/// writes succeeded, in order.
pub uninterp spec fn csv_records(w: CsvBuffer) -> Seq<Seq<Seq<char>>>;

/// Whether a write into the CSV buffer has failed. A failed write may leave
/// part of its record in the buffer, so nothing is stated of such a buffer's
/// bytes.
pub uninterp spec fn csv_failed(w: CsvBuffer) -> bool;

/// The bytes that a CSV writer with the default settings produces for the
/// given records.
pub uninterp spec fn csv_bytes(records: Seq<Seq<Seq<char>>>) -> Seq<u8>;

/// A CSV writer with the default settings into an empty buffer
/// (`Writer::from_writer`).
#[verifier::external_body]
fn csv_writer() -> (r: CsvBuffer)
    ensures
        csv_records(r) == Seq::<Seq<Seq<char>>>::empty(),
        !csv_failed(r),
{
    CsvBuffer { writer: csv::Writer::from_writer(Vec::new()) }
}

/// Writes one record (`Writer::write_record`). When it succeeds, the record
/// follows those written before. Writing into memory cannot fail, and the
/// default writer is not flexible, so a write into a buffer where no write
/// failed fails only when its number of fields differs from that of the first
/// record; after a failure, nothing is stated of the records.
#[verifier::external_body]
fn csv_write_record(w: &mut CsvBuffer, fields: &Vec<String>) -> (r: Result<(), ExportError>)
    ensures
        r is Ok ==> csv_records(*final(w)) == csv_records(*old(w)).push(names_of(*fields)),
        r is Ok ==> csv_failed(*final(w)) == csv_failed(*old(w)),
        r is Err ==> csv_failed(*final(w)),
        r is Err ==> csv_failed(*old(w)) || (csv_records(*old(w)).len() > 0 && csv_records(*old(w))[0].len()
            != fields@.len()),
{
    match w.writer.write_record(fields) {
        Ok(()) => Ok(()),
        Err(_) => Err(ExportError::Csv),
    }
}

/// Flushes the writer and hands back its buffer (`Writer::into_inner`).
/// Flushing into memory cannot fail. When no write failed, the bytes are those
/// of the records written, and none when there is no record.
#[verifier::external_body]
fn csv_into_bytes(w: CsvBuffer) -> (r: Result<Vec<u8>, ExportError>)
    ensures
        r is Ok,
        r matches Ok(b) ==> (!csv_failed(w) ==> b@ == csv_bytes(csv_records(w))),
        r matches Ok(b) ==> (!csv_failed(w) && csv_records(w).len() == 0 ==> b@.len() == 0),
{
    match w.writer.into_inner() {
        Ok(b) => Ok(b),
        Err(_) => Err(ExportError::Csv),
    }
}

/// A scholarship as it appears in the export.
pub struct ResolvedScholarshipInfo {
    pub contact_email: String,
    pub first_name: String,
    pub last_name: String,
    pub scholarship_name: String,
    pub sports_requirements: String,
    pub gpa_requirements: String,
    pub major_requirements: String,
    pub additional_requirements: String,
    pub community_requirements: String,
    pub residency_requirements: String,
}

/// Why the export could not be written.
#[derive(Debug, PartialEq, Eq, Structural)]
pub enum ExportError {
    /// The CSV writer reported an error.
    Csv,
}

/// The texts of `parts` joined with `sep` between them.
pub open spec fn join(parts: Seq<Seq<char>>, sep: Seq<char>) -> Seq<char>
    decreases parts.len(),
{
    if parts.len() == 0 {
        Seq::empty()
    } else if parts.len() == 1 {
        parts[0]
    } else {
        join(parts.drop_last(), sep) + sep + parts.last()
    }
}

/// The index of the first record of `s` whose field `key` has the text `value`,
/// or -1.
pub open spec fn first_with_text(s: Seq<AssocMap<ValueType>>, key: Seq<char>, value: Seq<char>) -> int
    decreases s.len(),
{
    if s.len() == 0 {
        -1
    } else {
        let p = first_with_text(s.drop_last(), key, value);
        if p >= 0 {
            p
        } else if field_text(s.last()@, key) == value {
            s.len() - 1
        } else {
            -1
        }
    }
}

/// The display text of the requirement `id` among `relations`, empty when no
/// requirement has that identifier.
pub open spec fn display_text_for(relations: Seq<AssocMap<ValueType>>, id: Seq<char>) -> Seq<char> {
    let p = first_with_text(relations, "id"@, id);
    if p >= 0 {
        field_text(relations[p]@, "display_text"@)
    } else {
        Seq::empty()
    }
}

/// The items of a requirement list value; none when it is not a present list.
pub open spec fn list_items(v: ValueType) -> Seq<ValueType> {
    match v {
        ValueType::List(Some(l)) => l@,
        _ => Seq::empty(),
    }
}

/// The display texts of the requirements chosen in a list value.
pub open spec fn chosen_names(v: ValueType, relations: Seq<AssocMap<ValueType>>) -> Seq<Seq<char>> {
    list_items(v).map_values(|item: ValueType| display_text_for(relations, text_of(Some(item))))
}

/// Each category of a requirement selection mapped to the display texts of
/// its chosen requirements.
pub open spec fn resolved_requirements(
    entries: Seq<(String, ValueType)>,
    relations: Seq<AssocMap<ValueType>>,
) -> Map<Seq<char>, Seq<Seq<char>>>
    decreases entries.len(),
{
    if entries.len() == 0 {
        Map::empty()
    } else {
        resolved_requirements(entries.drop_last(), relations).insert(
            entries.last().0@,
            chosen_names(entries.last().1, relations),
        )
    }
}

/// The export text of a category: its names joined with `; `, or empty.
pub open spec fn category_text(resolved: Map<Seq<char>, Seq<Seq<char>>>, category: Seq<char>) -> Seq<char> {
    if resolved.contains_key(category) {
        join(resolved[category], "; "@)
    } else {
        Seq::empty()
    }
}

/// The provider contact of a scholarship: the first contact whose `subject` is
/// the scholarship's `provider_id`, or no fields.
pub open spec fn provider_contact(
    scholarship: ExpandableInfo,
    contacts: Seq<AssocMap<ValueType>>,
) -> Map<Seq<char>, ValueType> {
    let p = first_with_text(contacts, "subject"@, field_text(scholarship.data@, "provider_id"@));
    if p >= 0 {
        contacts[p]@
    } else {
        Map::empty()
    }
}

/// The stored record of a provider's contact: the contact's fields with the
/// provider's identifier under `subject`.
pub fn provider_contact_item(id: String, contact: AssocMap<ValueType>) -> (r: AssocMap<ValueType>)
    ensures
        r@ == contact@.insert("subject"@, ValueType::String(Some(id))),
{
    let mut item = contact;
    item.insert(owned("subject"), ValueType::String(Some(id)));
    item
}

/// `r` is `scholarship` as the export shows it.
pub open spec fn is_resolved(
    r: ResolvedScholarshipInfo,
    scholarship: ExpandableInfo,
    contacts: Seq<AssocMap<ValueType>>,
    relations: Seq<AssocMap<ValueType>>,
) -> bool {
    let contact = provider_contact(scholarship, contacts);
    let resolved = resolved_requirements(requirement_entries(scholarship), relations);
    &&& r.contact_email@ == field_text(contact, "contact_email"@)
    &&& r.first_name@ == field_text(contact, "first_name"@)
    &&& r.last_name@ == field_text(contact, "last_name"@)
    &&& r.scholarship_name@ == field_text(scholarship.data@, "name"@)
    &&& r.sports_requirements@ == category_text(resolved, "sports_participation"@)
    &&& r.gpa_requirements@ == category_text(resolved, "gpa"@)
    &&& r.major_requirements@ == category_text(resolved, "major"@)
    &&& r.additional_requirements@ == category_text(resolved, "misc"@)
    &&& r.community_requirements@ == category_text(resolved, "community_service"@)
    &&& r.residency_requirements@ == category_text(resolved, "residency"@)
}

/// The texts of `parts` joined with `sep` between them (`join`).
pub fn join_with(parts: &Vec<String>, sep: &str) -> (r: String)
    ensures
        r@ == join(names_of(*parts), sep@),
{
    let ghost ps = names_of(*parts);
    let mut r = String::new();
    for i in 0..parts.len()
        invariant
            ps == names_of(*parts),
            r@ == join(ps.take(i as int), sep@),
    {
        assert(ps.take(i + 1).drop_last() =~= ps.take(i as int));
        assert(ps.take(i + 1).last() == parts@[i as int]@);
        if i > 0 {
            append_str(&mut r, sep);
        } else {
            assert(ps.take(1)[0] == ps[0]);
        }
        append_str(&mut r, parts[i].as_str());
    }
    assert(ps.take(parts.len() as int) =~= ps);
    r
}

/// The index of the first record whose field `key` has the text `value`.
fn find_by_text(records: &Vec<AssocMap<ValueType>>, key: &str, value: &str) -> (r: Option<usize>)
    ensures
        match r {
            Some(i) => i < records@.len() && i == first_with_text(records@, key@, value@),
            None => first_with_text(records@, key@, value@) == -1,
        },
{
    let mut i: usize = 0;
    while i < records.len()
        invariant
            i <= records@.len(),
            first_with_text(records@.take(i as int), key@, value@) == -1,
        decreases records@.len() - i,
    {
        assert(records@.take(i + 1).drop_last() =~= records@.take(i as int));
        assert(records@.take(i + 1).last() == records@[i as int]);
        let t = get_text(&records[i], key);
        if str_equal(t.as_str(), value) {
            proof {
                lemma_first_with_text_prefix(records@, i + 1, key@, value@);
            }
            return Some(i);
        }
        i = i + 1;
    }
    assert(records@.take(records@.len() as int) =~= records@);
    None
}

proof fn lemma_first_with_text_prefix(s: Seq<AssocMap<ValueType>>, n: int, key: Seq<char>, value: Seq<char>)
    requires
        0 <= n <= s.len(),
        first_with_text(s.take(n), key, value) >= 0,
    ensures
        first_with_text(s, key, value) == first_with_text(s.take(n), key, value),
    decreases s.len() - n,
{
    if n < s.len() {
        assert(s.take(n + 1).drop_last() =~= s.take(n));
        assert(first_with_text(s.take(n + 1), key, value) == first_with_text(s.take(n), key, value));
        lemma_first_with_text_prefix(s, n + 1, key, value);
    } else {
        assert(s.take(n) =~= s);
    }
}

/// The display text of the requirement `id` among `relations`.
pub fn display_text_of(relations: &Vec<AssocMap<ValueType>>, id: &str) -> (r: String)
    ensures
        r@ == display_text_for(relations@, id@),
{
    match find_by_text(relations, "id", id) {
        Some(i) => get_text(&relations[i], "display_text"),
        None => String::new(),
    }
}

/// The display texts of the requirements chosen in the list value `v`.
fn chosen_requirement_names(v: &ValueType, relations: &Vec<AssocMap<ValueType>>) -> (r: Vec<String>)
    ensures
        names_of(r) == chosen_names(*v, relations@),
{
    let mut r: Vec<String> = Vec::new();
    match v {
        ValueType::List(Some(l)) => {
            for i in 0..l.len()
                invariant
                    names_of(r) == l@.take(i as int).map_values(
                        |item: ValueType| display_text_for(relations@, text_of(Some(item))),
                    ),
            {
                let id = text_value(Some(&l[i]));
                assert(id@ == text_of(Some(l@[i as int])));
                let name = display_text_of(relations, id.as_str());
                let ghost before = names_of(r);
                r.push(name);
                assert(names_of(r) =~= before.push(name@));
                assert(l@.take(i + 1) =~= l@.take(i as int).push(l@[i as int]));
                assert(names_of(r) =~= l@.take(i + 1).map_values(
                    |item: ValueType| display_text_for(relations@, text_of(Some(item))),
                ));
            }
            assert(l@.take(l@.len() as int) =~= l@);
        },
        _ => {
            assert(names_of(r) =~= chosen_names(*v, relations@));
        },
    }
    r
}

/// The export text of `category`: its names joined with `; `, or empty.
fn category_export_text(resolved: &indexmap::IndexMap<String, Vec<String>>, category: &str) -> (r: String)
    ensures
        r@ == category_text(requirement_index(*resolved), category@),
{
    match index_map_get(resolved, category) {
        Some(list) => join_with(list, "; "),
        None => String::new(),
    }
}

/// A scholarship as the export shows it: its provider's contact, its name, and
/// for each category the display texts of its chosen requirements.
pub fn resolve_scholarship(
    scholarship: &ExpandableInfo,
    contacts: &Vec<AssocMap<ValueType>>,
    relations: &Vec<AssocMap<ValueType>>,
) -> (r: ResolvedScholarshipInfo)
    ensures
        is_resolved(r, *scholarship, contacts@, relations@),
{
    let empty_entries: Vec<(String, ValueType)> = Vec::new();
    let entries = match crate::eligibility::requirement_selection(scholarship) {
        Some(m) => m.entries(),
        None => &empty_entries,
    };
    let ghost es = requirement_entries(*scholarship);
    let mut resolved = index_map_new();
    assert(requirement_index(resolved) =~= resolved_requirements(es.take(0), relations@));
    for i in 0..entries.len()
        invariant
            entries@ == es,
            requirement_index(resolved) == resolved_requirements(es.take(i as int), relations@),
    {
        assert(es.take(i + 1).drop_last() =~= es.take(i as int));
        assert(es.take(i + 1).last() == es[i as int]);
        let names = chosen_requirement_names(&entries[i].1, relations);
        index_map_insert(&mut resolved, entries[i].0.clone(), names);
    }
    assert(es.take(es.len() as int) =~= es);
    let provider_id = get_text(&scholarship.data, "provider_id");
    let empty_contact: AssocMap<ValueType> = AssocMap::new();
    let contact = match find_by_text(contacts, "subject", provider_id.as_str()) {
        Some(i) => &contacts[i],
        None => &empty_contact,
    };
    assert(contact@ == provider_contact(*scholarship, contacts@));
    ResolvedScholarshipInfo {
        contact_email: get_text(contact, "contact_email"),
        first_name: get_text(contact, "first_name"),
        last_name: get_text(contact, "last_name"),
        scholarship_name: get_text(&scholarship.data, "name"),
        sports_requirements: category_export_text(&resolved, "sports_participation"),
        gpa_requirements: category_export_text(&resolved, "gpa"),
        major_requirements: category_export_text(&resolved, "major"),
        additional_requirements: category_export_text(&resolved, "misc"),
        community_requirements: category_export_text(&resolved, "community_service"),
        residency_requirements: category_export_text(&resolved, "residency"),
    }
}

/// Every scholarship as the export shows it, in order.
pub fn resolve_scholarships(
    scholarships: &Vec<ExpandableInfo>,
    contacts: &Vec<AssocMap<ValueType>>,
    relations: &Vec<AssocMap<ValueType>>,
) -> (r: Vec<ResolvedScholarshipInfo>)
    ensures
        r@.len() == scholarships@.len(),
        forall|i: int|
            0 <= i < r@.len() ==> is_resolved(#[trigger] r@[i], scholarships@[i], contacts@, relations@),
{
    let mut r: Vec<ResolvedScholarshipInfo> = Vec::new();
    for i in 0..scholarships.len()
        invariant
            r@.len() == i,
            forall|j: int|
                0 <= j < i ==> is_resolved(#[trigger] r@[j], scholarships@[j], contacts@, relations@),
    {
        r.push(resolve_scholarship(&scholarships[i], contacts, relations));
    }
    r
}

/// The column names of the export, in order.
pub open spec fn export_header() -> Seq<Seq<char>> {
    seq![
        "contact_email"@,
        "first_name"@,
        "last_name"@,
        "scholarship_name"@,
        "sports_requirements"@,
        "gpa_requirements"@,
        "major_requirements"@,
        "additional_requirements"@,
        "community_requirements"@,
        "residency_requirements"@,
    ]
}

/// The fields of a row of the export, in column order.
pub open spec fn export_row(r: ResolvedScholarshipInfo) -> Seq<Seq<char>> {
    seq![
        r.contact_email@,
        r.first_name@,
        r.last_name@,
        r.scholarship_name@,
        r.sports_requirements@,
        r.gpa_requirements@,
        r.major_requirements@,
        r.additional_requirements@,
        r.community_requirements@,
        r.residency_requirements@,
    ]
}

/// The records of the export: the header and one row per scholarship; nothing
/// when there are no scholarships.
pub open spec fn export_records(rows: Seq<ResolvedScholarshipInfo>) -> Seq<Seq<Seq<char>>> {
    if rows.len() == 0 {
        Seq::empty()
    } else {
        seq![export_header()] + rows.map_values(|r: ResolvedScholarshipInfo| export_row(r))
    }
}

fn header_fields() -> (r: Vec<String>)
    ensures
        names_of(r) == export_header(),
{
    let mut v = Vec::new();
    v.push(owned("contact_email"));
    v.push(owned("first_name"));
    v.push(owned("last_name"));
    v.push(owned("scholarship_name"));
    v.push(owned("sports_requirements"));
    v.push(owned("gpa_requirements"));
    v.push(owned("major_requirements"));
    v.push(owned("additional_requirements"));
    v.push(owned("community_requirements"));
    v.push(owned("residency_requirements"));
    assert(names_of(v) =~= export_header());
    v
}

fn row_fields(r: &ResolvedScholarshipInfo) -> (v: Vec<String>)
    ensures
        names_of(v) == export_row(*r),
{
    let mut v = Vec::new();
    v.push(r.contact_email.clone());
    v.push(r.first_name.clone());
    v.push(r.last_name.clone());
    v.push(r.scholarship_name.clone());
    v.push(r.sports_requirements.clone());
    v.push(r.gpa_requirements.clone());
    v.push(r.major_requirements.clone());
    v.push(r.additional_requirements.clone());
    v.push(r.community_requirements.clone());
    v.push(r.residency_requirements.clone());
    assert(names_of(v) =~= export_row(*r));
    v
}

/// The export as CSV: a header row, then one row per scholarship (no output at
/// all when there are none).
pub fn scholarship_csv(rows: &Vec<ResolvedScholarshipInfo>) -> (r: Result<Vec<u8>, ExportError>)
    ensures
        r matches Ok(b) && b@ == csv_bytes(export_records(rows@)),
        rows@.len() == 0 ==> (r matches Ok(b) && b@.len() == 0),
{
    let mut writer = csv_writer();
    if rows.len() > 0 {
        let header = header_fields();
        assert(header@.len() == names_of(header).len());
        match csv_write_record(&mut writer, &header) {
            Ok(()) => {},
            Err(e) => {
                proof {
                    assert(false);
                }
                return Err(e);
            },
        }
    }
    let ghost start = csv_records(writer);
    for i in 0..rows.len()
        invariant
            start == (if rows@.len() == 0 {
                Seq::<Seq<Seq<char>>>::empty()
            } else {
                seq![export_header()]
            }),
            csv_records(writer) == start + rows@.take(i as int).map_values(
                |r: ResolvedScholarshipInfo| export_row(r),
            ),
            !csv_failed(writer),
    {
        let fields = row_fields(&rows[i]);
        assert(fields@.len() == names_of(fields).len());
        assert(csv_records(writer)[0] == export_header());
        match csv_write_record(&mut writer, &fields) {
            Ok(()) => {},
            Err(e) => {
                proof {
                    assert(false);
                }
                return Err(e);
            },
        }
        assert(rows@.take(i + 1).map_values(|r: ResolvedScholarshipInfo| export_row(r)) =~= rows@.take(
            i as int,
        ).map_values(|r: ResolvedScholarshipInfo| export_row(r)).push(export_row(rows@[i as int])));
    }
    assert(rows@.take(rows@.len() as int) =~= rows@);
    assert(csv_records(writer) =~= export_records(rows@));
    csv_into_bytes(writer)
}

} // verus!
