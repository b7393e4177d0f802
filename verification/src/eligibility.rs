//! Deciding which students meet a scholarship's requirements, and which
//! scholarships a student meets.
//!
//! A scholarship's field `requirements` maps each requirement category to the
//! list of the requirement identifiers chosen in it. A student meets a
//! category when one of its requirements passes on the student's record.
//!
//! Whether one requirement passes on one student is given to these functions
//! as an outcome per requirement of the catalog: `outcomes[i]` is what the
//! catalog's `i`-th requirement gave on the student (`Ok(passed)`, or
//! `Err(message)` when it could not be evaluated). A requirement without an
//! outcome counts as not evaluated, with an empty message.
use vstd::prelude::*;
use crate::assoc::AssocMap;
use crate::comparison::ComparisonData;
use crate::text::str_equal;
use vstd::string::StrSliceExecFns;
use crate::value::{ValueType, ExpandableInfo, field_text, get_text};

verus! {

broadcast use vstd::string::group_string_axioms;

/// The first index of a requirement with identifier `id` in `cat`, or -1.
pub open spec fn first_with_id(cat: Seq<ComparisonData>, id: Seq<char>) -> int
    decreases cat.len(),
{
    if cat.len() == 0 {
        -1
    } else {
        let p = first_with_id(cat.drop_last(), id);
        if p >= 0 {
            p
        } else if cat.last().id@ == id {
            cat.len() - 1
        } else {
            -1
        }
    }
}

/// The catalog indices of `ids`, leaving out identifiers that name no
/// requirement.
pub open spec fn resolve(ids: Seq<Seq<char>>, cat: Seq<ComparisonData>) -> Seq<int>
    decreases ids.len(),
{
    if ids.len() == 0 {
        Seq::empty()
    } else {
        let p = first_with_id(cat, ids.last());
        if p >= 0 {
            resolve(ids.drop_last(), cat).push(p)
        } else {
            resolve(ids.drop_last(), cat)
        }
    }
}

/// The present texts among `l`, in order; other items are left out.
pub open spec fn present_texts(l: Seq<ValueType>) -> Seq<Seq<char>>
    decreases l.len(),
{
    if l.len() == 0 {
        Seq::empty()
    } else {
        match l.last() {
            ValueType::String(Some(s)) => present_texts(l.drop_last()).push(s@),
            _ => present_texts(l.drop_last()),
        }
    }
}

/// The text of each item of `l`, the empty text for items that are not text.
pub open spec fn item_texts(l: Seq<ValueType>) -> Seq<Seq<char>> {
    l.map_values(|v: ValueType| crate::value::text_of(Some(v)))
}

/// The entries of the requirement selection of `info`: those of its field
/// `requirements` when that is a present record, else none.
pub open spec fn requirement_entries(info: ExpandableInfo) -> Seq<(String, ValueType)> {
    if info.data@.contains_key("requirements"@) {
        match info.data@["requirements"@] {
            ValueType::Mapping(Some(m)) => m.entry_seq(),
            _ => Seq::empty(),
        }
    } else {
        Seq::empty()
    }
}

/// Requirement groups as the applicants view reads them: one group for each
/// category whose value is a present list, holding the resolved identifiers
/// among its present texts.
pub open spec fn applicant_view_groups(entries: Seq<(String, ValueType)>, cat: Seq<ComparisonData>) -> Seq<
    Seq<int>,
>
    decreases entries.len(),
{
    if entries.len() == 0 {
        Seq::empty()
    } else {
        let prev = applicant_view_groups(entries.drop_last(), cat);
        match entries.last().1 {
            ValueType::List(Some(l)) => prev.push(resolve(present_texts(l@), cat)),
            _ => prev,
        }
    }
}

/// Requirement groups as a student's view reads them: one group for every
/// category, holding the resolved identifiers among the texts of its list (an
/// item that is not text reads as the empty identifier; a value that is not
/// a present list reads as an empty list).
pub open spec fn student_view_groups(entries: Seq<(String, ValueType)>, cat: Seq<ComparisonData>) -> Seq<
    Seq<int>,
>
    decreases entries.len(),
{
    if entries.len() == 0 {
        Seq::empty()
    } else {
        let prev = student_view_groups(entries.drop_last(), cat);
        match entries.last().1 {
            ValueType::List(Some(l)) => prev.push(resolve(item_texts(l@), cat)),
            _ => prev.push(Seq::empty()),
        }
    }
}

/// Requirement `idx` passed on the student whose outcomes are `outs`.
pub open spec fn passed(outs: Seq<Result<bool, String>>, idx: int) -> bool {
    0 <= idx < outs.len() && outs[idx] matches Ok(true)
}

/// Some requirement of `group` passed.
pub open spec fn group_passed(group: Seq<int>, outs: Seq<Result<bool, String>>) -> bool {
    exists|j: int| 0 <= j < group.len() && passed(outs, #[trigger] group[j])
}

/// Every group is empty or has a requirement that passed.
pub open spec fn applicant_requirements_met(groups: Seq<Seq<int>>, outs: Seq<Result<bool, String>>) -> bool {
    forall|g: int| 0 <= g < groups.len() ==> (#[trigger] groups[g]).len() == 0 || group_passed(groups[g], outs)
}

/// Every group has a requirement that passed (an empty group is not met).
pub open spec fn student_requirements_met(groups: Seq<Seq<int>>, outs: Seq<Result<bool, String>>) -> bool {
    forall|g: int| 0 <= g < groups.len() ==> group_passed(#[trigger] groups[g], outs)
}

/// The index of the first requirement of `catalog` with identifier `id`.
pub fn find_requirement(catalog: &Vec<ComparisonData>, id: &str) -> (r: Option<usize>)
    ensures
        match r {
            Some(i) => i == first_with_id(catalog@, id@),
            None => first_with_id(catalog@, id@) == -1,
        },
{
    let mut i: usize = 0;
    while i < catalog.len()
        invariant
            i <= catalog@.len(),
            first_with_id(catalog@.take(i as int), id@) == -1,
        decreases catalog@.len() - i,
    {
        assert(catalog@.take(i + 1).drop_last() =~= catalog@.take(i as int));
        if str_equal(catalog[i].id.as_str(), id) {
            proof {
                lemma_first_with_id_prefix(catalog@, i + 1, id@);
            }
            return Some(i);
        }
        i = i + 1;
    }
    assert(catalog@.take(catalog@.len() as int) =~= catalog@);
    None
}

/// The first index in a prefix is the first index in the whole, when the
/// prefix has one.
pub proof fn lemma_first_with_id_prefix(cat: Seq<ComparisonData>, n: int, id: Seq<char>)
    requires
        0 <= n <= cat.len(),
        first_with_id(cat.take(n), id) >= 0,
    ensures
        first_with_id(cat, id) == first_with_id(cat.take(n), id),
    decreases cat.len() - n,
{
    if n < cat.len() {
        assert(cat.take(n + 1).drop_last() =~= cat.take(n));
        assert(first_with_id(cat.take(n + 1), id) == first_with_id(cat.take(n), id));
        lemma_first_with_id_prefix(cat, n + 1, id);
    } else {
        assert(cat.take(n) =~= cat);
    }
}

/// The catalog indices of `ids`, leaving out identifiers that name no
/// requirement.
pub fn resolve_requirement_ids(ids: &Vec<String>, catalog: &Vec<ComparisonData>) -> (r: Vec<usize>)
    ensures
        r@.map_values(|i: usize| i as int) == resolve(ids@.map_values(|s: String| s@), catalog@),
{
    let ghost idv = ids@.map_values(|s: String| s@);
    let mut r: Vec<usize> = Vec::new();
    for i in 0..ids.len()
        invariant
            idv == ids@.map_values(|s: String| s@),
            r@.map_values(|i: usize| i as int) == resolve(idv.take(i as int), catalog@),
    {
        assert(idv.take(i + 1).drop_last() =~= idv.take(i as int));
        assert(idv.take(i + 1).last() == ids@[i as int]@);
        match find_requirement(catalog, ids[i].as_str()) {
            Some(j) => {
                r.push(j);
                assert(r@.map_values(|i: usize| i as int) =~= resolve(idv.take(i as int), catalog@).push(
                    j as int,
                ));
            },
            None => {},
        }
    }
    assert(idv.take(ids@.len() as int) =~= idv);
    r
}

/// The present texts among `l`.
fn present_text_items(l: &Vec<ValueType>) -> (r: Vec<String>)
    ensures
        r@.map_values(|s: String| s@) == present_texts(l@),
{
    let mut r: Vec<String> = Vec::new();
    for i in 0..l.len()
        invariant
            r@.map_values(|s: String| s@) == present_texts(l@.take(i as int)),
    {
        assert(l@.take(i + 1).drop_last() =~= l@.take(i as int));
        assert(l@.take(i + 1).last() == l@[i as int]);
        match &l[i] {
            ValueType::String(Some(s)) => {
                r.push(s.clone());
                assert(r@.map_values(|s: String| s@) =~= present_texts(l@.take(i as int)).push(s@));
            },
            _ => {},
        }
    }
    assert(l@.take(l@.len() as int) =~= l@);
    r
}

/// The text of each item of `l`, empty for items that are not text.
fn item_text_values(l: &Vec<ValueType>) -> (r: Vec<String>)
    ensures
        r@.map_values(|s: String| s@) == item_texts(l@),
{
    let mut r: Vec<String> = Vec::new();
    for i in 0..l.len()
        invariant
            r@.map_values(|s: String| s@) == item_texts(l@.take(i as int)),
    {
        let t = crate::value::text_value(Some(&l[i]));
        r.push(t);
        assert(item_texts(l@.take(i + 1)) =~= item_texts(l@.take(i as int)).push(t@));
        assert(r@.map_values(|s: String| s@) =~= item_texts(l@.take(i as int)).push(t@));
    }
    assert(l@.take(l@.len() as int) =~= l@);
    r
}

/// The requirement selection of a scholarship, when its field `requirements`
/// is a present record.
pub fn requirement_selection(info: &ExpandableInfo) -> (r: Option<&AssocMap<ValueType>>)
    ensures
        match r {
            Some(m) => m.entry_seq() == requirement_entries(*info),
            None => requirement_entries(*info) == Seq::<(String, ValueType)>::empty(),
        },
{
    match info.data.get("requirements") {
        Some(ValueType::Mapping(Some(m))) => Some(m),
        _ => None,
    }
}

/// The requirement groups of a scholarship as the applicants view reads them.
pub fn applicant_requirement_groups(info: &ExpandableInfo, catalog: &Vec<ComparisonData>) -> (r: Vec<
    Vec<usize>,
>)
    ensures
        r@.len() == applicant_view_groups(requirement_entries(*info), catalog@).len(),
        forall|g: int|
            0 <= g < r@.len() ==> (#[trigger] r@[g])@.map_values(|i: usize| i as int)
                == applicant_view_groups(requirement_entries(*info), catalog@)[g],
{
    let mut r: Vec<Vec<usize>> = Vec::new();
    let empty: Vec<(String, ValueType)> = Vec::new();
    let entries = match requirement_selection(info) {
        Some(m) => m.entries(),
        None => &empty,
    };
    let ghost es = requirement_entries(*info);
    assert(entries@ == es);
    for i in 0..entries.len()
        invariant
            entries@ == es,
            r@.len() == applicant_view_groups(es.take(i as int), catalog@).len(),
            forall|g: int|
                0 <= g < r@.len() ==> (#[trigger] r@[g])@.map_values(|i: usize| i as int)
                    == applicant_view_groups(es.take(i as int), catalog@)[g],
    {
        assert(es.take(i + 1).drop_last() =~= es.take(i as int));
        assert(es.take(i + 1).last() == es[i as int]);
        match &entries[i].1 {
            ValueType::List(Some(l)) => {
                let ids = present_text_items(l);
                let group = resolve_requirement_ids(&ids, catalog);
                r.push(group);
            },
            _ => {},
        }
    }
    assert(es.take(es.len() as int) =~= es);
    r
}

/// The requirement groups of a scholarship as a student's view reads them.
pub fn student_requirement_groups(info: &ExpandableInfo, catalog: &Vec<ComparisonData>) -> (r: Vec<
    Vec<usize>,
>)
    ensures
        r@.len() == student_view_groups(requirement_entries(*info), catalog@).len(),
        forall|g: int|
            0 <= g < r@.len() ==> (#[trigger] r@[g])@.map_values(|i: usize| i as int)
                == student_view_groups(requirement_entries(*info), catalog@)[g],
{
    let mut r: Vec<Vec<usize>> = Vec::new();
    let empty: Vec<(String, ValueType)> = Vec::new();
    let entries = match requirement_selection(info) {
        Some(m) => m.entries(),
        None => &empty,
    };
    let ghost es = requirement_entries(*info);
    assert(entries@ == es);
    for i in 0..entries.len()
        invariant
            entries@ == es,
            r@.len() == student_view_groups(es.take(i as int), catalog@).len(),
            forall|g: int|
                0 <= g < r@.len() ==> (#[trigger] r@[g])@.map_values(|i: usize| i as int)
                    == student_view_groups(es.take(i as int), catalog@)[g],
    {
        assert(es.take(i + 1).drop_last() =~= es.take(i as int));
        assert(es.take(i + 1).last() == es[i as int]);
        match &entries[i].1 {
            ValueType::List(Some(l)) => {
                let ids = item_text_values(l);
                let group = resolve_requirement_ids(&ids, catalog);
                r.push(group);
            },
            _ => {
                let group: Vec<usize> = Vec::new();
                assert(group@.map_values(|i: usize| i as int) =~= Seq::<int>::empty());
                r.push(group);
            },
        }
    }
    assert(es.take(es.len() as int) =~= es);
    r
}

/// Whether some requirement of `group` passed.
pub fn group_is_met(group: &Vec<usize>, outcomes: &Vec<Result<bool, String>>) -> (r: bool)
    ensures
        r == group_passed(group@.map_values(|i: usize| i as int), outcomes@),
{
    let ghost gv = group@.map_values(|i: usize| i as int);
    let mut k: usize = 0;
    while k < group.len()
        invariant
            gv == group@.map_values(|i: usize| i as int),
            k <= group@.len(),
            forall|j: int| 0 <= j < k ==> !passed(outcomes@, #[trigger] gv[j]),
        decreases group@.len() - k,
    {
        let idx = group[k];
        if idx < outcomes.len() {
            match &outcomes[idx] {
                Ok(true) => {
                    assert(passed(outcomes@, gv[k as int]));
                    return true;
                },
                _ => {},
            }
        }
        k = k + 1;
    }
    false
}

/// Whether a student meets every requirement group in the applicants view:
/// each group is empty or has a requirement that passed.
pub fn applicant_meets_groups(groups: &Vec<Vec<usize>>, outcomes: &Vec<Result<bool, String>>) -> (r: bool)
    ensures
        r == applicant_requirements_met(
            groups@.map_values(|g: Vec<usize>| g@.map_values(|i: usize| i as int)),
            outcomes@,
        ),
{
    let ghost gs = groups@.map_values(|g: Vec<usize>| g@.map_values(|i: usize| i as int));
    let mut k: usize = 0;
    while k < groups.len()
        invariant
            gs == groups@.map_values(|g: Vec<usize>| g@.map_values(|i: usize| i as int)),
            k <= groups@.len(),
            forall|j: int| 0 <= j < k ==> (#[trigger] gs[j]).len() == 0 || group_passed(gs[j], outcomes@),
        decreases groups@.len() - k,
    {
        let g = &groups[k];
        if g.len() != 0 && !group_is_met(g, outcomes) {
            assert(!((gs[k as int]).len() == 0 || group_passed(gs[k as int], outcomes@)));
            return false;
        }
        k = k + 1;
    }
    true
}

/// Whether a student meets every requirement group in a student's view: each
/// group has a requirement that passed.
pub fn student_meets_groups(groups: &Vec<Vec<usize>>, outcomes: &Vec<Result<bool, String>>) -> (r: bool)
    ensures
        r == student_requirements_met(
            groups@.map_values(|g: Vec<usize>| g@.map_values(|i: usize| i as int)),
            outcomes@,
        ),
{
    let ghost gs = groups@.map_values(|g: Vec<usize>| g@.map_values(|i: usize| i as int));
    let mut k: usize = 0;
    while k < groups.len()
        invariant
            gs == groups@.map_values(|g: Vec<usize>| g@.map_values(|i: usize| i as int)),
            k <= groups@.len(),
            forall|j: int| 0 <= j < k ==> group_passed(#[trigger] gs[j], outcomes@),
        decreases groups@.len() - k,
    {
        if !group_is_met(&groups[k], outcomes) {
            assert(!group_passed(gs[k as int], outcomes@));
            return false;
        }
        k = k + 1;
    }
    true
}

/// The outcomes recorded for the student `id`, none when there are none.
pub open spec fn outcomes_for(
    outcomes: Map<Seq<char>, Vec<Result<bool, String>>>,
    id: Seq<char>,
) -> Seq<Result<bool, String>> {
    if outcomes.contains_key(id) {
        outcomes[id]@
    } else {
        Seq::empty()
    }
}

/// The student `id` is eligible in the applicants view: they uploaded the
/// FAFSA and the essay where these are required, and they meet every group.
pub open spec fn applicant_is_eligible(
    id: Seq<char>,
    groups: Seq<Seq<int>>,
    outcomes: Map<Seq<char>, Vec<Result<bool, String>>>,
    essay_required: bool,
    fafsa_required: bool,
    fafsa_list: Map<Seq<char>, Vec<String>>,
    essay_list: Map<Seq<char>, Vec<String>>,
) -> bool {
    &&& !(fafsa_required && !fafsa_list.contains_key(id))
    &&& !(essay_required && !essay_list.contains_key(id))
    &&& applicant_requirements_met(groups, outcomes_for(outcomes, id))
}

/// The students that are eligible for `scholarship`, with their records.
///
/// `outcomes` holds, for each student, the outcome of each requirement of
/// `requirements` on that student's record. `fafsa_list` and `essay_list`
/// hold, for each student that uploaded one, their uploaded files.
pub fn get_eligible_students(
    students: AssocMap<AssocMap<ValueType>>,
    scholarship: &ExpandableInfo,
    requirements: &Vec<ComparisonData>,
    outcomes: &AssocMap<Vec<Result<bool, String>>>,
    essay_required: bool,
    fafsa_required: bool,
    fafsa_list: &AssocMap<Vec<String>>,
    essay_list: &AssocMap<Vec<String>>,
) -> (r: AssocMap<AssocMap<ValueType>>)
    ensures
        forall|k: Seq<char>| #[trigger] r@.contains_key(k) == (students@.contains_key(k) && applicant_is_eligible(
            k,
            applicant_view_groups(requirement_entries(*scholarship), requirements@),
            outcomes@,
            essay_required,
            fafsa_required,
            fafsa_list@,
            essay_list@,
        )),
        forall|k: Seq<char>| #[trigger] r@.contains_key(k) ==> r@[k] == students@[k],
{
    let groups = applicant_requirement_groups(scholarship, requirements);
    let ghost gs = groups@.map_values(|g: Vec<usize>| g@.map_values(|i: usize| i as int));
    assert(gs =~= applicant_view_groups(requirement_entries(*scholarship), requirements@));
    let ghost sm = students@;
    let entries = students.into_entries();
    let ghost es = entries@;
    let mut r: AssocMap<AssocMap<ValueType>> = AssocMap::new();
    let no_outcomes: Vec<Result<bool, String>> = Vec::new();
    for e in it: entries
        invariant
            it.seq() == es,
            distinct_keys_of(es),
            sm == crate::assoc::key_map(es),
            gs == groups@.map_values(|g: Vec<usize>| g@.map_values(|i: usize| i as int)),
            no_outcomes@ == Seq::<Result<bool, String>>::empty(),
            forall|k: Seq<char>| #[trigger] r@.contains_key(k) == (crate::assoc::has_key(
                es.take(it.index()),
                k,
            ) && applicant_is_eligible(
                k,
                gs,
                outcomes@,
                essay_required,
                fafsa_required,
                fafsa_list@,
                essay_list@,
            )),
            forall|k: Seq<char>| #[trigger] r@.contains_key(k) ==> r@[k] == sm[k],
    {
        let ghost i = it.index();
        proof {
            crate::assoc::lemma_key_map_at(es, i);
            assert(e == es[i]);
        }
        let (id, record) = e;
        let id_ref = id.as_str();
        let mut eligible = true;
        if fafsa_required && !fafsa_list.contains_key(id_ref) {
            eligible = false;
        }
        if essay_required && !essay_list.contains_key(id_ref) {
            eligible = false;
        }
        if eligible {
            let outs = match outcomes.get(id_ref) {
                Some(o) => o,
                None => &no_outcomes,
            };
            assert(outs@ == outcomes_for(outcomes@, id@));
            eligible = applicant_meets_groups(&groups, outs);
        }
        assert(eligible == applicant_is_eligible(
            id@,
            gs,
            outcomes@,
            essay_required,
            fafsa_required,
            fafsa_list@,
            essay_list@,
        ));
        proof {
            assert forall|k: Seq<char>| #[trigger] crate::assoc::has_key(es.take(i + 1), k) == (
            crate::assoc::has_key(es.take(i), k) || k == id@) by {
                let pre = es.take(i);
                let post = es.take(i + 1);
                if crate::assoc::has_key(post, k) {
                    let j = choose|j: int| 0 <= j < post.len() && #[trigger] post[j].0@ == k;
                    if j < i {
                        assert(pre[j] == post[j]);
                    }
                }
                if crate::assoc::has_key(pre, k) {
                    let j = choose|j: int| 0 <= j < pre.len() && #[trigger] pre[j].0@ == k;
                    assert(pre[j] == post[j]);
                }
                if k == id@ {
                    assert(post[i] == es[i]);
                }
            }
        }
        if eligible {
            r.insert(id, record);
        }
    }
    assert(es.take(es.len() as int) =~= es);
    r
}

/// The keys of `s` are distinct.
pub open spec fn distinct_keys_of<V>(s: Seq<(String, V)>) -> bool {
    crate::assoc::distinct_keys(s)
}

/// The scholarships among `s` whose requirements the student meets (in a
/// student's view), in order.
pub open spec fn met_scholarships(
    s: Seq<ExpandableInfo>,
    cat: Seq<ComparisonData>,
    outs: Seq<Result<bool, String>>,
) -> Seq<ExpandableInfo>
    decreases s.len(),
{
    if s.len() == 0 {
        Seq::empty()
    } else {
        let prev = met_scholarships(s.drop_last(), cat, outs);
        if student_requirements_met(student_view_groups(requirement_entries(s.last()), cat), outs) {
            prev.push(s.last())
        } else {
            prev
        }
    }
}

/// The scholarships whose requirements a student meets, in their order.
/// `outcomes` holds the outcome of each requirement of `requirements` on the
/// student's record.
pub fn eligible_scholarships(
    scholarships: Vec<ExpandableInfo>,
    requirements: &Vec<ComparisonData>,
    outcomes: &Vec<Result<bool, String>>,
) -> (r: Vec<ExpandableInfo>)
    ensures
        r@ == met_scholarships(scholarships@, requirements@, outcomes@),
{
    let ghost all = scholarships@;
    let mut r: Vec<ExpandableInfo> = Vec::new();
    for s in it: scholarships
        invariant
            it.seq() == all,
            r@ == met_scholarships(all.take(it.index()), requirements@, outcomes@),
    {
        proof {
            assert(all.take(it.index() + 1).drop_last() =~= all.take(it.index()));
            assert(all.take(it.index() + 1).last() == s);
        }
        let groups = student_requirement_groups(&s, requirements);
        let ghost gs = groups@.map_values(|g: Vec<usize>| g@.map_values(|i: usize| i as int));
        assert(gs =~= student_view_groups(requirement_entries(s), requirements@));
        if student_meets_groups(&groups, outcomes) {
            r.push(s);
        }
    }
    assert(all.take(all.len() as int) =~= all);
    r
}

/// What one entry of a requirement list gives: the outcome of the requirement
/// it names, or an error with an empty message when it names none.
pub open spec fn entry_outcome(
    v: ValueType,
    cat: Seq<ComparisonData>,
    outs: Seq<Result<bool, String>>,
) -> Result<bool, Seq<char>> {
    match v {
        ValueType::String(Some(id)) => {
            let p = first_with_id(cat, id@);
            if p >= 0 && p < outs.len() {
                match outs[p] {
                    Ok(b) => Ok(b),
                    Err(e) => Err(e@),
                }
            } else {
                Err(Seq::empty())
            }
        },
        _ => Err(Seq::empty()),
    }
}

/// The outcome of a requirement list: the first error if there is one, else
/// whether every requirement passed.
pub open spec fn list_outcome(
    l: Seq<ValueType>,
    cat: Seq<ComparisonData>,
    outs: Seq<Result<bool, String>>,
) -> Result<bool, Seq<char>>
    decreases l.len(),
{
    if l.len() == 0 {
        Ok(true)
    } else {
        match entry_outcome(l[0], cat, outs) {
            Err(e) => Err(e),
            Ok(b) => match list_outcome(l.drop_first(), cat, outs) {
                Err(e) => Err(e),
                Ok(rest) => Ok(b && rest),
            },
        }
    }
}

/// The outcome of testing a scholarship whose field `requirements` is a list
/// of requirement identifiers; without such a list the student qualifies.
pub open spec fn scholarship_test_outcome(
    info: ExpandableInfo,
    cat: Seq<ComparisonData>,
    outs: Seq<Result<bool, String>>,
) -> Result<bool, Seq<char>> {
    if info.data@.contains_key("requirements"@) {
        match info.data@["requirements"@] {
            ValueType::List(Some(l)) => list_outcome(l@, cat, outs),
            _ => Ok(true),
        }
    } else {
        Ok(true)
    }
}

proof fn lemma_list_outcome_split(l: Seq<ValueType>, i: int, cat: Seq<ComparisonData>, outs: Seq<Result<bool, String>>)
    requires
        0 <= i < l.len(),
        list_outcome(l.take(i), cat, outs) matches Ok(_),
    ensures
        list_outcome(l.take(i + 1), cat, outs) == match entry_outcome(l[i], cat, outs) {
            Err(e) => Err(e),
            Ok(b) => Ok(list_outcome(l.take(i), cat, outs) == Ok::<bool, Seq<char>>(true) && b),
        },
    decreases i,
{
    if i > 0 {
        let t = l.drop_first();
        assert(l.take(i).drop_first() =~= t.take(i - 1));
        assert(l.take(i + 1).drop_first() =~= t.take(i));
        assert(l.take(i)[0] == l[0]);
        assert(l.take(i + 1)[0] == l[0]);
        assert(t[i - 1] == l[i]);
        assert(list_outcome(l.take(i), cat, outs) == match entry_outcome(l[0], cat, outs) {
            Err(e) => Err(e),
            Ok(b) => match list_outcome(t.take(i - 1), cat, outs) {
                Err(e) => Err(e),
                Ok(rest) => Ok(b && rest),
            },
        });
        lemma_list_outcome_split(t, i - 1, cat, outs);
        assert(list_outcome(l.take(i + 1), cat, outs) == match entry_outcome(l[0], cat, outs) {
            Err(e) => Err(e),
            Ok(b) => match list_outcome(t.take(i), cat, outs) {
                Err(e) => Err(e),
                Ok(rest) => Ok(b && rest),
            },
        });
    } else {
        let t = l.take(1);
        assert(t.drop_first() =~= Seq::<ValueType>::empty());
        assert(t[0] == l[0]);
        assert(list_outcome(t.drop_first(), cat, outs) == Ok::<bool, Seq<char>>(true));
        assert(l.take(0) =~= Seq::<ValueType>::empty());
        assert(list_outcome(l.take(0), cat, outs) == Ok::<bool, Seq<char>>(true));
    }
}

proof fn lemma_list_outcome_error_prefix(l: Seq<ValueType>, n: int, cat: Seq<ComparisonData>, outs: Seq<Result<bool, String>>)
    requires
        0 <= n <= l.len(),
        list_outcome(l.take(n), cat, outs) matches Err(_),
    ensures
        list_outcome(l, cat, outs) == list_outcome(l.take(n), cat, outs),
    decreases n,
{
    if n > 0 {
        let t = l.drop_first();
        assert(l.take(n).drop_first() =~= t.take(n - 1));
        assert(l.take(n)[0] == l[0]);
        if entry_outcome(l[0], cat, outs) matches Ok(_) {
            lemma_list_outcome_error_prefix(t, n - 1, cat, outs);
        }
    } else {
        assert(l.take(0) =~= Seq::<ValueType>::empty());
    }
}

/// Tests a scholarship against a student: `Ok(true)` when every listed
/// requirement passed, `Ok(false)` when one failed, `Err(message)` for the
/// first requirement that could not be evaluated. `outcomes` holds the outcome
/// of each requirement of `requirements` on the student's record.
pub fn test_scholarship(
    scholarship: &ExpandableInfo,
    requirements: &Vec<ComparisonData>,
    outcomes: &Vec<Result<bool, String>>,
) -> (r: Result<bool, String>)
    ensures
        match (r, scholarship_test_outcome(*scholarship, requirements@, outcomes@)) {
            (Ok(a), Ok(b)) => a == b,
            (Err(a), Err(b)) => a@ == b,
            _ => false,
        },
{
    let list = match scholarship.data.get("requirements") {
        Some(ValueType::List(Some(l))) => l,
        _ => {
            return Ok(true);
        },
    };
    assert(scholarship_test_outcome(*scholarship, requirements@, outcomes@) == list_outcome(
        list@,
        requirements@,
        outcomes@,
    ));
    let mut all_passed = true;
    let mut i: usize = 0;
    while i < list.len()
        invariant
            scholarship_test_outcome(*scholarship, requirements@, outcomes@) == list_outcome(
                list@,
                requirements@,
                outcomes@,
            ),
            i <= list@.len(),
            list_outcome(list@.take(i as int), requirements@, outcomes@) == Ok::<bool, Seq<char>>(all_passed),
        decreases list@.len() - i,
    {
        proof {
            lemma_list_outcome_split(list@, i as int, requirements@, outcomes@);
        }
        let outcome: Result<bool, String> = match &list[i] {
            ValueType::String(Some(id)) => match find_requirement(requirements, id.as_str()) {
                Some(j) => {
                    if j < outcomes.len() {
                        match &outcomes[j] {
                            Ok(b) => Ok(*b),
                            Err(e) => Err(e.clone()),
                        }
                    } else {
                        Err(String::new())
                    }
                },
                None => Err(String::new()),
            },
            _ => Err(String::new()),
        };
        assert(match outcome {
            Ok(b) => entry_outcome(list@[i as int], requirements@, outcomes@) == Ok::<bool, Seq<char>>(b),
            Err(x) => entry_outcome(list@[i as int], requirements@, outcomes@) == Err::<bool, Seq<char>>(x@),
        });
        match outcome {
            Ok(true) => {},
            Ok(false) => {
                all_passed = false;
            },
            Err(e) => {
                proof {
                    assert(list_outcome(list@.take(i + 1), requirements@, outcomes@) == Err::<bool, Seq<char>>(e@));
                    lemma_list_outcome_error_prefix(list@, i + 1, requirements@, outcomes@);
                }
                return Err(e);
            },
        }
        i = i + 1;
    }
    assert(list@.take(list@.len() as int) =~= list@);
    Ok(all_passed)
}

/// The name of a scholarship: its field `name` is a present text.
pub open spec fn has_name(info: ExpandableInfo) -> bool {
    info.data@.contains_key("name"@) && (info.data@["name"@] matches ValueType::String(Some(_)))
}

/// The report lines of the scholarships `s` after the header line: the name of
/// each scholarship the student qualifies for, and the message of each that
/// could not be tested.
pub open spec fn report_lines(
    s: Seq<ExpandableInfo>,
    cat: Seq<ComparisonData>,
    outs: Seq<Result<bool, String>>,
) -> Seq<Seq<char>>
    decreases s.len(),
{
    if s.len() == 0 {
        Seq::empty()
    } else {
        let prev = report_lines(s.drop_last(), cat, outs);
        match scholarship_test_outcome(s.last(), cat, outs) {
            Ok(true) => prev.push(crate::value::text_of(Some(s.last().data@["name"@]))),
            Ok(false) => prev,
            Err(e) => prev.push(e),
        }
    }
}

/// The report of testing every scholarship against a student: a header line,
/// then one line per scholarship the student qualifies for (its name) or that
/// could not be tested (the message), joined with line breaks. Every
/// scholarship the student qualifies for must have a name.
pub fn comparison_test_report(
    scholarships: &Vec<ExpandableInfo>,
    requirements: &Vec<ComparisonData>,
    outcomes: &Vec<Result<bool, String>>,
) -> (r: String)
    requires
        forall|i: int|
            0 <= i < scholarships@.len() && scholarship_test_outcome(
                #[trigger] scholarships@[i],
                requirements@,
                outcomes@,
            ) == Ok::<bool, Seq<char>>(true) ==> has_name(scholarships@[i]),
    ensures
        r@ == crate::exports::join(
            seq!["Scholarship results: \n"@] + report_lines(scholarships@, requirements@, outcomes@),
            "\n"@,
        ),
{
    let mut lines: Vec<String> = Vec::new();
    lines.push(crate::text::owned("Scholarship results: \n"));
    for i in 0..scholarships.len()
        invariant
            forall|j: int|
                0 <= j < scholarships@.len() && scholarship_test_outcome(
                    #[trigger] scholarships@[j],
                    requirements@,
                    outcomes@,
                ) == Ok::<bool, Seq<char>>(true) ==> has_name(scholarships@[j]),
            crate::exports::names_of(lines) == seq!["Scholarship results: \n"@] + report_lines(
                scholarships@.take(i as int),
                requirements@,
                outcomes@,
            ),
    {
        let ghost pre = scholarships@.take(i as int);
        proof {
            assert(scholarships@.take(i + 1).drop_last() =~= pre);
            assert(scholarships@.take(i + 1).last() == scholarships@[i as int]);
        }
        let ghost before = crate::exports::names_of(lines);
        match test_scholarship(&scholarships[i], requirements, outcomes) {
            Ok(true) => {
                let name = match scholarships[i].data.get("name") {
                    Some(ValueType::String(Some(n))) => n.clone(),
                    _ => {
                        proof {
                            assert(has_name(scholarships@[i as int]));
                        }
                        String::new()
                    },
                };
                lines.push(name);
                assert(crate::exports::names_of(lines) =~= before.push(name@));
            },
            Ok(false) => {},
            Err(e) => {
                lines.push(e);
                assert(crate::exports::names_of(lines) =~= before.push(e@));
            },
        }
        assert(crate::exports::names_of(lines) =~= seq!["Scholarship results: \n"@] + report_lines(
            scholarships@.take(i + 1),
            requirements@,
            outcomes@,
        ));
    }
    assert(scholarships@.take(scholarships@.len() as int) =~= scholarships@);
    crate::exports::join_with(&lines, "\n")
}

/// Whether the scholarship asks for the student's FAFSA: its field
/// `fafsa_required` is the text `Yes`.
pub fn requires_fafsa(scholarship: &ExpandableInfo) -> (r: bool)
    ensures
        r == (field_text(scholarship.data@, "fafsa_required"@) == "Yes"@),
{
    let t = get_text(&scholarship.data, "fafsa_required");
    str_equal(t.as_str(), "Yes")
}

/// Whether the scholarship asks for an essay: its field `essay_prompt` is a
/// non-empty text.
pub fn requires_essay(scholarship: &ExpandableInfo) -> (r: bool)
    ensures
        r == (field_text(scholarship.data@, "essay_prompt"@).len() > 0),
{
    let t = get_text(&scholarship.data, "essay_prompt");
    t.as_str().unicode_len() > 0
}

} // verus!
