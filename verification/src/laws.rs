//! Properties of the library that relate several of its functions or hold of
//! all their inputs.
use vstd::prelude::*;
use crate::assoc::AssocMap;
use crate::comparison::{ComparisonData, in_category};
use crate::eligibility::{
    applicant_is_eligible, applicant_requirements_met, applicant_view_groups, group_passed,
    report_lines, requirement_entries, scholarship_test_outcome, student_requirements_met,
    student_view_groups,
};
use crate::students::{
    archive_entry_name, gather_files, holds_text, in_provider_group, item_fields, item_student,
    key_owner, merge_all, student_id_of_key, student_prefix, typst_value,
};
use crate::text::{after_first, before_first, contains_seq, replace_all, strip_white_space};
use crate::value::{ExpandableInfo, ValueType, field_text};
use crate::exports::{ResolvedScholarshipInfo, chosen_names, is_resolved, join, resolved_requirements};

verus! {

/// Replacing a pattern that does not occur changes nothing.
pub proof fn lemma_replace_absent(s: Seq<char>, p: Seq<char>, r: Seq<char>)
    requires
        p.len() > 0,
        !contains_seq(s, p),
    ensures
        replace_all(s, p, r) == s,
    decreases s.len(),
{
    if s.len() > 0 {
        if p.len() <= s.len() && s.take(p.len() as int) == p {
            assert(s.subrange(0, 0 + p.len() as int) == s.take(p.len() as int));
        }
        let t = s.skip(1);
        assert(!contains_seq(t, p)) by {
            if contains_seq(t, p) {
                let i = choose|i: int| 0 <= i && i + p.len() <= t.len() && #[trigger] t.subrange(i, i + p.len()) == p;
                assert(s.subrange(i + 1, i + 1 + p.len()) =~= t.subrange(i, i + p.len()));
            }
        }
        lemma_replace_absent(t, p, r);
        assert(seq![s[0]] + t =~= s);
    }
}

/// A student's identifier read back from their hash key is the identifier
/// itself, when it does not contain the key prefix `STUDENT#`.
pub proof fn law_student_key_round_trip(subject: Seq<char>)
    requires
        !contains_seq(subject, student_prefix()),
    ensures
        student_id_of_key(student_prefix() + subject) == subject,
{
    reveal_strlit("STUDENT#");
    let p = student_prefix();
    let s = p + subject;
    assert(s.take(p.len() as int) =~= p);
    assert(s.skip(p.len() as int) =~= subject);
    lemma_replace_absent(subject, p, Seq::empty());
    assert(Seq::<char>::empty() + subject =~= subject);
}

/// A file uploaded to an input is selected by that input's sort-key prefix:
/// the prefix `FILE#<form>#<input>` begins the file's sort key
/// `FILE#<form>#<input>#<file name>`.
pub proof fn law_upload_found_by_prefix(form: Seq<char>, input: Seq<char>, file_name: Seq<char>)
    ensures
        ("FILE#"@ + form + "#"@ + input).is_prefix_of(
            "FILE#"@ + form + "#"@ + input + "#"@ + file_name,
        ),
{
    let a = "FILE#"@ + form + "#"@ + input;
    let b = a + "#"@ + file_name;
    assert(b =~= a + ("#"@ + file_name));
    assert(b.take(a.len() as int) =~= a);
}

/// The part after the first `c` of `a`, `c` and `rest`, where `a` holds no
/// `c`, is `rest`; the part before it is `a`.
proof fn lemma_split_at_first(a: Seq<char>, c: char, rest: Seq<char>)
    requires
        !a.contains(c),
    ensures
        after_first(a + seq![c] + rest, c) == Some(rest),
        before_first(a + seq![c] + rest, c) == a,
    decreases a.len(),
{
    let s = a + seq![c] + rest;
    if a.len() == 0 {
        assert(s =~= seq![c] + rest);
        assert(s.skip(1) =~= rest);
    } else {
        assert(a[0] != c);
        let t = a.skip(1);
        assert(!t.contains(c)) by {
            if t.contains(c) {
                let k = choose|k: int| 0 <= k < t.len() && t[k] == c;
                assert(a[k + 1] == c);
            }
        }
        lemma_split_at_first(t, c, rest);
        assert(s.skip(1) =~= t + seq![c] + rest);
        assert(seq![s[0]] + before_first(s.skip(1), c) =~= a);
    }
}

/// The owner of an uploaded file may always read it: its storage key
/// `<form>/<subject>/<input>/<file name>` names the owner's subject as its
/// owner, when the form and the subject hold no `/`.
pub proof fn law_owner_reads_own_file(form: Seq<char>, subject: Seq<char>, input: Seq<char>, file_name: Seq<char>)
    requires
        !form.contains('/'),
        !subject.contains('/'),
    ensures
        key_owner(form + "/"@ + subject + "/"@ + input + "/"@ + file_name) == Some(subject),
{
    reveal_strlit("/");
    let rest = subject + "/"@ + input + "/"@ + file_name;
    let tail = input + "/"@ + file_name;
    assert(form + "/"@ + subject + "/"@ + input + "/"@ + file_name =~= form + seq!['/'] + rest);
    lemma_split_at_first(form, '/', rest);
    assert(rest =~= subject + seq!['/'] + tail);
    lemma_split_at_first(subject, '/', tail);
}

/// Two options of one list get different identifiers unless their values
/// differ only in white space.
pub proof fn law_unique_ids_distinguish_values(name: Seq<char>, v1: Seq<char>, v2: Seq<char>)
    requires
        strip_white_space(v1) != strip_white_space(v2),
    ensures
        name + "-"@ + strip_white_space(v1) != name + "-"@ + strip_white_space(v2),
{
    let a = name + "-"@;
    let x = a + strip_white_space(v1);
    let y = a + strip_white_space(v2);
    if x == y {
        assert(x.skip(a.len() as int) =~= strip_white_space(v1));
        assert(y.skip(a.len() as int) =~= strip_white_space(v2));
    }
}

/// A scholarship that sets no requirements is met by every student, in both
/// the applicants view and a student's view.
pub proof fn law_no_requirements_everyone_qualifies(
    scholarship: ExpandableInfo,
    catalog: Seq<ComparisonData>,
    outcomes: Seq<Result<bool, String>>,
)
    requires
        requirement_entries(scholarship).len() == 0,
    ensures
        applicant_requirements_met(applicant_view_groups(requirement_entries(scholarship), catalog), outcomes),
        student_requirements_met(student_view_groups(requirement_entries(scholarship), catalog), outcomes),
{
}

/// When testing, a scholarship without a list of requirements qualifies every
/// student.
pub proof fn law_untested_scholarship_qualifies(
    scholarship: ExpandableInfo,
    catalog: Seq<ComparisonData>,
    outcomes: Seq<Result<bool, String>>,
)
    requires
        !(scholarship.data@.contains_key("requirements"@) && (scholarship.data@["requirements"@] matches ValueType::List(Some(_)))),
    ensures
        scholarship_test_outcome(scholarship, catalog, outcomes) == Ok::<bool, Seq<char>>(true),
{
}

/// An eligible applicant uploaded the FAFSA and the essay whenever the
/// scholarship requires them.
pub proof fn law_eligible_applicant_uploaded(
    id: Seq<char>,
    groups: Seq<Seq<int>>,
    outcomes: Map<Seq<char>, Vec<Result<bool, String>>>,
    essay_required: bool,
    fafsa_required: bool,
    fafsa_list: Map<Seq<char>, Vec<String>>,
    essay_list: Map<Seq<char>, Vec<String>>,
)
    requires
        applicant_is_eligible(id, groups, outcomes, essay_required, fafsa_required, fafsa_list, essay_list),
    ensures
        fafsa_required ==> fafsa_list.contains_key(id),
        essay_required ==> essay_list.contains_key(id),
{
}

/// Every requirement is in the group of its own category.
pub proof fn law_requirement_in_own_category(items: Seq<ComparisonData>, i: int)
    requires
        0 <= i < items.len(),
    ensures
        in_category(items, items[i].category@).contains(items[i]),
    decreases items.len(),
{
    let k = items[i].category@;
    if i == items.len() - 1 {
        assert(in_category(items, k) == in_category(items.drop_last(), k).push(items[i]));
        assert(in_category(items, k)[in_category(items, k).len() - 1] == items[i]);
    } else {
        assert(items.drop_last()[i] == items[i]);
        law_requirement_in_own_category(items.drop_last(), i);
        let prev = in_category(items.drop_last(), k);
        let j = choose|j: int| 0 <= j < prev.len() && prev[j] == items[i];
        if items.last().category@ == k {
            assert(in_category(items, k)[j] == items[i]);
        }
    }
}

/// When a student's items are joined, a field takes its value from the last
/// item that holds it.
pub proof fn law_last_item_wins<V>(items: Seq<AssocMap<V>>, j: int, key: Seq<char>)
    requires
        0 <= j < items.len(),
        items[j]@.contains_key(key),
        forall|l: int| j < l < items.len() ==> !(#[trigger] items[l]@).contains_key(key),
    ensures
        merge_all(items).contains_key(key),
        merge_all(items)[key] == items[j]@[key],
    decreases items.len(),
{
    if j < items.len() - 1 {
        assert forall|l: int| j < l < items.drop_last().len() implies !(#[trigger] items.drop_last()[l]@).contains_key(key) by {
            assert(items.drop_last()[l] == items[l]);
        }
        assert(items.drop_last()[j] == items[j]);
        law_last_item_wins(items.drop_last(), j, key);
        assert(!items[items.len() - 1]@.contains_key(key));
    }
}

/// A downloaded file's name is at most 150 characters before its extension.
pub proof fn law_download_name_bounded(first: Seq<char>, last: Seq<char>, key: Seq<char>)
    ensures
        archive_entry_name(first, last, key).len() <= 150 + 1 + crate::text::after_last(key, '.').len(),
{
    reveal_strlit(".");
}

/// `s` holds no brace or bracket.
pub open spec fn has_no_brackets(s: Seq<char>) -> bool {
    forall|i: int| 0 <= i < s.len() ==> #[trigger] s[i] != '{' && s[i] != '}' && s[i] != '[' && s[i] != ']'
}

/// Replacing any pattern by a text without `c` in a text without `c` keeps it
/// free of `c`; replacing the one-character pattern `c` removes it.
proof fn lemma_replace_keeps_out(s: Seq<char>, p: Seq<char>, r: Seq<char>, c: char)
    requires
        p.len() > 0,
        forall|i: int| 0 <= i < r.len() ==> r[i] != c,
        p == seq![c] || (forall|i: int| 0 <= i < s.len() ==> s[i] != c),
    ensures
        forall|i: int| 0 <= i < replace_all(s, p, r).len() ==> #[trigger] replace_all(s, p, r)[i] != c,
    decreases s.len(),
{
    if s.len() > 0 {
        let t = if p.len() <= s.len() && s.take(p.len() as int) == p {
            s.skip(p.len() as int)
        } else {
            s.skip(1)
        };
        if p != seq![c] {
            assert forall|i: int| 0 <= i < t.len() implies t[i] != c by {
                if p.len() <= s.len() && s.take(p.len() as int) == p {
                    assert(t[i] == s[i + p.len()]);
                } else {
                    assert(t[i] == s[i + 1]);
                }
            }
        }
        lemma_replace_keeps_out(t, p, r, c);
        let rest = replace_all(t, p, r);
        if p.len() <= s.len() && s.take(p.len() as int) == p {
            assert(replace_all(s, p, r) == r + rest);
            assert forall|i: int| 0 <= i < (r + rest).len() implies #[trigger] (r + rest)[i] != c by {
                if i < r.len() {
                    assert((r + rest)[i] == r[i]);
                } else {
                    assert((r + rest)[i] == rest[i - r.len()]);
                }
            }
        } else {
            if p == seq![c] {
                assert(s.take(1) =~= seq![s[0]]);
            }
            assert(s[0] != c);
            assert(replace_all(s, p, r) == seq![s[0]] + rest);
            assert forall|i: int| 0 <= i < (seq![s[0]] + rest).len() implies #[trigger] (seq![s[0]] + rest)[i] != c by {
                if i >= 1 {
                    assert((seq![s[0]] + rest)[i] == rest[i - 1]);
                }
            }
        }
    }
}

/// A record turned into a document-language value holds no brace or bracket.
pub proof fn law_typst_value_has_no_brackets(json: Seq<char>)
    ensures
        has_no_brackets(typst_value(json)),
{
    reveal_strlit("{");
    reveal_strlit("}");
    reveal_strlit("[");
    reveal_strlit("]");
    reveal_strlit("(");
    reveal_strlit(")");
    reveal_strlit("))");
    reveal_strlit("),)");
    let a = replace_all(json, "{"@, "("@);
    let b = replace_all(a, "}"@, ")"@);
    let c = replace_all(b, "["@, "("@);
    let d = replace_all(c, "]"@, ")"@);
    let e = replace_all(d, "))"@, "),)"@);
    assert("{"@ =~= seq!['{']);
    assert("}"@ =~= seq!['}']);
    assert("["@ =~= seq!['[']);
    assert("]"@ =~= seq![']']);
    lemma_replace_keeps_out(json, "{"@, "("@, '{');
    lemma_replace_keeps_out(a, "}"@, ")"@, '{');
    lemma_replace_keeps_out(a, "}"@, ")"@, '}');
    lemma_replace_keeps_out(b, "["@, "("@, '{');
    lemma_replace_keeps_out(b, "["@, "("@, '}');
    lemma_replace_keeps_out(b, "["@, "("@, '[');
    lemma_replace_keeps_out(c, "]"@, ")"@, '{');
    lemma_replace_keeps_out(c, "]"@, ")"@, '}');
    lemma_replace_keeps_out(c, "]"@, ")"@, '[');
    lemma_replace_keeps_out(c, "]"@, ")"@, ']');
    lemma_replace_keeps_out(d, "))"@, "),)"@, '{');
    lemma_replace_keeps_out(d, "))"@, "),)"@, '}');
    lemma_replace_keeps_out(d, "))"@, "),)"@, '[');
    lemma_replace_keeps_out(d, "))"@, "),)"@, ']');
}

/// The requirements that the scholarship form sends are the ones that the
/// eligibility checks and the export read back from the scholarship.
pub proof fn law_submitted_requirements_read_back(
    scholarship: ExpandableInfo,
    form: Map<Seq<char>, ValueType>,
    chosen: AssocMap<ValueType>,
)
    requires
        scholarship.data@ == form.insert("requirements"@, ValueType::Mapping(Some(chosen))),
    ensures
        requirement_entries(scholarship) == chosen.entry_seq(),
{
}

/// A student's answers stored under their hash key and a form's sort key are
/// gathered back under the student's identifier, without the two keys, when
/// the identifier does not contain `STUDENT#`.
pub proof fn law_stored_answers_gathered_back(
    subject: Seq<char>,
    answers: Map<Seq<char>, ValueType>,
    item: Map<Seq<char>, ValueType>,
)
    requires
        !contains_seq(subject, student_prefix()),
        item.dom() == answers.dom().insert("HK"@).insert("SK"@),
        holds_text(item["HK"@], student_prefix() + subject),
        forall|k: Seq<char>| k != "HK"@ && k != "SK"@ && #[trigger] answers.contains_key(k) ==> item[k] == answers[k],
    ensures
        item_student(item) == subject,
        item_fields(item) == answers.remove("HK"@).remove("SK"@),
{
    assert(field_text(item, "HK"@) == student_prefix() + subject);
    law_student_key_round_trip(subject);
    assert(item_fields(item) =~= answers.remove("HK"@).remove("SK"@));
}

/// Adding a requirement category to a scholarship, or starting to require the
/// FAFSA or an essay, never makes an applicant eligible who was not.
pub proof fn law_added_requirement_admits_no_one(
    id: Seq<char>,
    entries: Seq<(String, ValueType)>,
    added: (String, ValueType),
    catalog: Seq<ComparisonData>,
    outcomes: Map<Seq<char>, Vec<Result<bool, String>>>,
    essay_required: bool,
    fafsa_required: bool,
    essay_required_after: bool,
    fafsa_required_after: bool,
    fafsa_list: Map<Seq<char>, Vec<String>>,
    essay_list: Map<Seq<char>, Vec<String>>,
)
    requires
        essay_required ==> essay_required_after,
        fafsa_required ==> fafsa_required_after,
    ensures
        applicant_is_eligible(
            id,
            applicant_view_groups(entries.push(added), catalog),
            outcomes,
            essay_required_after,
            fafsa_required_after,
            fafsa_list,
            essay_list,
        ) ==> applicant_is_eligible(
            id,
            applicant_view_groups(entries, catalog),
            outcomes,
            essay_required,
            fafsa_required,
            fafsa_list,
            essay_list,
        ),
{
    let before = applicant_view_groups(entries, catalog);
    let after = applicant_view_groups(entries.push(added), catalog);
    assert(entries.push(added).drop_last() =~= entries);
    assert(entries.push(added).last() == added);
    assert forall|g: int| 0 <= g < before.len() implies #[trigger] after[g] == before[g] by {}
    assert(after.len() >= before.len());
    let outs = crate::eligibility::outcomes_for(outcomes, id);
    if applicant_requirements_met(after, outs) {
        assert forall|g: int| 0 <= g < before.len() implies (#[trigger] before[g]).len() == 0
            || crate::eligibility::group_passed(before[g], outs) by {
            assert(after[g] == before[g]);
        }
    }
}

/// A requirement group is met as soon as any one of its requirements passed,
/// wherever it stands in the group.
pub proof fn law_any_passing_requirement_meets_group(
    group: Seq<int>,
    outs: Seq<Result<bool, String>>,
    j: int,
)
    requires
        0 <= j < group.len(),
        0 <= group[j] < outs.len(),
        outs[group[j]] == Ok::<bool, String>(true),
    ensures
        group_passed(group, outs),
{
    assert(crate::eligibility::passed(outs, group[j]));
}

/// A requirement group is met only when one of its requirements passed.
pub proof fn law_met_group_has_passing_requirement(group: Seq<int>, outs: Seq<Result<bool, String>>)
    requires
        group_passed(group, outs),
    ensures
        exists|j: int| 0 <= j < group.len() && 0 <= #[trigger] group[j] < outs.len() && outs[group[j]]
            == Ok::<bool, String>(true),
{
    let j = choose|j: int| 0 <= j < group.len() && crate::eligibility::passed(outs, #[trigger] group[j]);
    assert(0 <= group[j] < outs.len() && outs[group[j]] == Ok::<bool, String>(true));
}

/// A user is a scholarship provider exactly when one of their groups, at any
/// place in the list, is `ScholarshipProviders`.
pub proof fn law_provider_by_any_group(groups: Seq<String>)
    ensures
        in_provider_group(groups) <==> exists|i: int| 0 <= i < groups.len() && (#[trigger] groups[i])@
            == "ScholarshipProviders"@,
{
}

/// How many of `items` belong to the student `id`.
pub open spec fn count_items_of(items: Seq<AssocMap<ValueType>>, id: Seq<char>) -> nat
    decreases items.len(),
{
    if items.len() == 0 {
        0
    } else {
        count_items_of(items.drop_last(), id) + if item_student(items.last()@) == id {
            1nat
        } else {
            0nat
        }
    }
}

/// Every file item's key is gathered into its student's list: a student's list
/// has one key per item of theirs, and the `n`-th item of a student gives the
/// `n`-th key of their list.
pub proof fn law_every_file_gathered(items: Seq<AssocMap<ValueType>>, i: int)
    requires
        0 <= i < items.len(),
    ensures
        gather_files(items).contains_key(item_student(items[i]@)),
        gather_files(items)[item_student(items[i]@)].len() == count_items_of(items, item_student(items[i]@)),
        gather_files(items)[item_student(items[i]@)][count_items_of(items.take(i), item_student(items[i]@)) as int]
            == field_text(items[i]@, "file_key"@),
    decreases items.len(),
{
    let id = item_student(items[i]@);
    let pre = items.drop_last();
    lemma_gathered_count(items, id);
    lemma_gathered_count(pre, id);
    let n = items.len() - 1;
    let prev = gather_files(pre);
    if i == n {
        assert(items.take(i) =~= pre);
        assert(items.last() == items[i]);
        let old_list = if prev.contains_key(id) { prev[id] } else { Seq::<Seq<char>>::empty() };
        assert(gather_files(items)[id] == old_list.push(field_text(items[i]@, "file_key"@)));
        assert(old_list.len() == count_items_of(pre, id));
    } else {
        assert(pre[i] == items[i]);
        assert(pre.take(i) =~= items.take(i));
        law_every_file_gathered(pre, i);
        let c = count_items_of(items.take(i), id) as int;
        lemma_count_before_item(pre, i, id);
        if item_student(items.last()@) == id {
            assert(gather_files(items)[id] == prev[id].push(field_text(items.last()@, "file_key"@)));
            assert(gather_files(items)[id][c] == prev[id][c]);
        } else {
            assert(gather_files(items)[id] == prev[id]);
        }
    }
}

/// Fewer items of a student come before one of their items than there are in
/// all.
proof fn lemma_count_before_item(items: Seq<AssocMap<ValueType>>, k: int, id: Seq<char>)
    requires
        0 <= k < items.len(),
        item_student(items[k]@) == id,
    ensures
        count_items_of(items.take(k), id) < count_items_of(items, id),
    decreases items.len(),
{
    if k == items.len() - 1 {
        assert(items.take(k) =~= items.drop_last());
    } else {
        assert(items.drop_last()[k] == items[k]);
        assert(items.drop_last().take(k) =~= items.take(k));
        lemma_count_before_item(items.drop_last(), k, id);
    }
}

/// The list gathered for a student has one key per item of theirs.
proof fn lemma_gathered_count(items: Seq<AssocMap<ValueType>>, id: Seq<char>)
    ensures
        gather_files(items).contains_key(id) <==> count_items_of(items, id) > 0,
        gather_files(items).contains_key(id) ==> gather_files(items)[id].len() == count_items_of(items, id),
    decreases items.len(),
{
    if items.len() > 0 {
        lemma_gathered_count(items.drop_last(), id);
    }
}

/// The report names each scholarship the student qualifies for (each has a
/// name) by its `name` field, and every line of the report is such a name or the message of a
/// scholarship that could not be tested.
pub proof fn law_report_lines_are_names_or_messages(
    scholarships: Seq<ExpandableInfo>,
    catalog: Seq<ComparisonData>,
    outs: Seq<Result<bool, String>>,
)
    requires
        forall|i: int|
            0 <= i < scholarships.len() && scholarship_test_outcome(#[trigger] scholarships[i], catalog, outs)
                == Ok::<bool, Seq<char>>(true) ==> crate::eligibility::has_name(scholarships[i]),
    ensures
        forall|i: int|
            0 <= i < scholarships.len() && scholarship_test_outcome(#[trigger] scholarships[i], catalog, outs)
                == Ok::<bool, Seq<char>>(true) ==> report_lines(scholarships, catalog, outs).contains(
                field_text(scholarships[i].data@, "name"@),
            ),
        forall|l: int|
            #![trigger report_lines(scholarships, catalog, outs)[l]]
            0 <= l < report_lines(scholarships, catalog, outs).len() ==> exists|i: int|
                0 <= i < scholarships.len() && ((scholarship_test_outcome(#[trigger] scholarships[i], catalog, outs)
                    == Ok::<bool, Seq<char>>(true) && report_lines(scholarships, catalog, outs)[l] == field_text(
                    scholarships[i].data@,
                    "name"@,
                )) || scholarship_test_outcome(scholarships[i], catalog, outs) == Err::<bool, Seq<char>>(
                    report_lines(scholarships, catalog, outs)[l],
                )),
    decreases scholarships.len(),
{
    if scholarships.len() > 0 {
        let pre = scholarships.drop_last();
        let last = scholarships.last();
        assert forall|i: int|
            0 <= i < pre.len() && scholarship_test_outcome(#[trigger] pre[i], catalog, outs)
                == Ok::<bool, Seq<char>>(true) implies crate::eligibility::has_name(pre[i]) by {
            assert(pre[i] == scholarships[i]);
        }
        law_report_lines_are_names_or_messages(pre, catalog, outs);
        let rp = report_lines(pre, catalog, outs);
        let r = report_lines(scholarships, catalog, outs);
        assert forall|i: int|
            0 <= i < scholarships.len() && scholarship_test_outcome(#[trigger] scholarships[i], catalog, outs)
                == Ok::<bool, Seq<char>>(true) implies r.contains(field_text(scholarships[i].data@, "name"@)) by {
            if i < scholarships.len() - 1 {
                assert(pre[i] == scholarships[i]);
                let k = choose|k: int| 0 <= k < rp.len() && rp[k] == field_text(pre[i].data@, "name"@);
                assert(r[k] == rp[k]);
            } else {
                assert(r[r.len() - 1] == field_text(last.data@, "name"@));
            }
        }
        assert forall|l: int| #![trigger r[l]] 0 <= l < r.len() implies exists|i: int|
            0 <= i < scholarships.len() && ((scholarship_test_outcome(#[trigger] scholarships[i], catalog, outs)
                == Ok::<bool, Seq<char>>(true) && r[l] == field_text(scholarships[i].data@, "name"@))
                || scholarship_test_outcome(scholarships[i], catalog, outs) == Err::<bool, Seq<char>>(r[l])) by {
            if l < rp.len() {
                assert(r[l] == rp[l]);
                let i = choose|i: int|
                    0 <= i < pre.len() && ((scholarship_test_outcome(#[trigger] pre[i], catalog, outs)
                        == Ok::<bool, Seq<char>>(true) && rp[l] == field_text(pre[i].data@, "name"@))
                        || scholarship_test_outcome(pre[i], catalog, outs) == Err::<bool, Seq<char>>(rp[l]));
                assert(pre[i] == scholarships[i]);
            } else {
                let i = scholarships.len() - 1;
                assert(scholarships[i] == last);
            }
        }
    }
}

/// A category that no entry names has no resolved names; the names resolved
/// for a category are those of the last entry that names it.
proof fn lemma_resolved_absent(
    entries: Seq<(String, ValueType)>,
    relations: Seq<AssocMap<ValueType>>,
    k: Seq<char>,
)
    ensures
        (forall|j: int| 0 <= j < entries.len() ==> (#[trigger] entries[j]).0@ != k) ==> !resolved_requirements(
            entries,
            relations,
        ).contains_key(k),
    decreases entries.len(),
{
    if entries.len() > 0 {
        if forall|j: int| 0 <= j < entries.len() ==> (#[trigger] entries[j]).0@ != k {
            assert forall|j: int| 0 <= j < entries.drop_last().len() implies (#[trigger] entries.drop_last()[j]).0@
                != k by {
                assert(entries.drop_last()[j] == entries[j]);
            }
            assert(entries.last() == entries[entries.len() - 1]);
        }
        lemma_resolved_absent(entries.drop_last(), relations, k);
    }
}

/// The names resolved for the category of the entry `i`, when no later entry
/// names that category, are the display texts chosen in entry `i`.
proof fn lemma_resolved_last_entry(
    entries: Seq<(String, ValueType)>,
    relations: Seq<AssocMap<ValueType>>,
    i: int,
)
    requires
        0 <= i < entries.len(),
        forall|j: int| i < j < entries.len() ==> (#[trigger] entries[j]).0@ != entries[i].0@,
    ensures
        resolved_requirements(entries, relations).contains_key(entries[i].0@),
        resolved_requirements(entries, relations)[entries[i].0@] == chosen_names(entries[i].1, relations),
    decreases entries.len(),
{
    if i < entries.len() - 1 {
        let pre = entries.drop_last();
        assert(pre[i] == entries[i]);
        assert forall|j: int| i < j < pre.len() implies (#[trigger] pre[j]).0@ != pre[i].0@ by {
            assert(pre[j] == entries[j]);
        }
        assert(entries.last() == entries[entries.len() - 1]);
        lemma_resolved_last_entry(pre, relations, i);
    }
}

/// A column of the export is empty when no entry of the scholarship's
/// requirements names the column's category (`sports_participation`, `gpa`,
/// `major`, `misc`, `community_service` or `residency`, in column order).
pub proof fn law_export_column_empty_without_category(
    r: ResolvedScholarshipInfo,
    scholarship: ExpandableInfo,
    contacts: Seq<AssocMap<ValueType>>,
    relations: Seq<AssocMap<ValueType>>,
)
    requires
        is_resolved(r, scholarship, contacts, relations),
    ensures
        (forall|j: int| 0 <= j < requirement_entries(scholarship).len() ==> (#[trigger] requirement_entries(scholarship)[j]).0@ != "sports_participation"@) ==> r.sports_requirements@.len() == 0,
        (forall|j: int| 0 <= j < requirement_entries(scholarship).len() ==> (#[trigger] requirement_entries(scholarship)[j]).0@ != "gpa"@) ==> r.gpa_requirements@.len() == 0,
        (forall|j: int| 0 <= j < requirement_entries(scholarship).len() ==> (#[trigger] requirement_entries(scholarship)[j]).0@ != "major"@) ==> r.major_requirements@.len() == 0,
        (forall|j: int| 0 <= j < requirement_entries(scholarship).len() ==> (#[trigger] requirement_entries(scholarship)[j]).0@ != "misc"@) ==> r.additional_requirements@.len() == 0,
        (forall|j: int| 0 <= j < requirement_entries(scholarship).len() ==> (#[trigger] requirement_entries(scholarship)[j]).0@ != "community_service"@) ==> r.community_requirements@.len() == 0,
        (forall|j: int| 0 <= j < requirement_entries(scholarship).len() ==> (#[trigger] requirement_entries(scholarship)[j]).0@ != "residency"@) ==> r.residency_requirements@.len() == 0,
{
    let es = requirement_entries(scholarship);
    lemma_resolved_absent(es, relations, "sports_participation"@);
    lemma_resolved_absent(es, relations, "gpa"@);
    lemma_resolved_absent(es, relations, "major"@);
    lemma_resolved_absent(es, relations, "misc"@);
    lemma_resolved_absent(es, relations, "community_service"@);
    lemma_resolved_absent(es, relations, "residency"@);
}

/// Each column of the export holds the requirements chosen in its own
/// category: the display texts chosen in the category's last entry, joined
/// with `; `. The columns are, in
/// order, the categories `sports_participation`, `gpa`, `major`, `misc`,
/// `community_service` and `residency`.
pub proof fn law_export_columns_follow_categories(
    r: ResolvedScholarshipInfo,
    scholarship: ExpandableInfo,
    contacts: Seq<AssocMap<ValueType>>,
    relations: Seq<AssocMap<ValueType>>,
    i: int,
)
    requires
        is_resolved(r, scholarship, contacts, relations),
        0 <= i < requirement_entries(scholarship).len(),
        forall|j: int|
            i < j < requirement_entries(scholarship).len() ==> (#[trigger] requirement_entries(scholarship)[j]).0@
                != requirement_entries(scholarship)[i].0@,
    ensures
        requirement_entries(scholarship)[i].0@ == "sports_participation"@ ==> r.sports_requirements@ == join(chosen_names(requirement_entries(scholarship)[i].1, relations), "; "@),
        requirement_entries(scholarship)[i].0@ == "gpa"@ ==> r.gpa_requirements@ == join(chosen_names(requirement_entries(scholarship)[i].1, relations), "; "@),
        requirement_entries(scholarship)[i].0@ == "major"@ ==> r.major_requirements@ == join(chosen_names(requirement_entries(scholarship)[i].1, relations), "; "@),
        requirement_entries(scholarship)[i].0@ == "misc"@ ==> r.additional_requirements@ == join(chosen_names(requirement_entries(scholarship)[i].1, relations), "; "@),
        requirement_entries(scholarship)[i].0@ == "community_service"@ ==> r.community_requirements@ == join(chosen_names(requirement_entries(scholarship)[i].1, relations), "; "@),
        requirement_entries(scholarship)[i].0@ == "residency"@ ==> r.residency_requirements@ == join(chosen_names(requirement_entries(scholarship)[i].1, relations), "; "@),
{
    let es = requirement_entries(scholarship);
    lemma_resolved_last_entry(es, relations, i);
}

} // verus!
