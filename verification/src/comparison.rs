//! Scholarship requirements ("comparisons"): what a requirement checks, the
//! built-in catalog of requirements, and grouping them by category.
use vstd::prelude::*;
use crate::assoc::AssocMap;
use crate::text::{owned, push_char, to_lowercase, lowercase, is_ascii_text, ascii_lowercase};
use crate::value::ValueType;

verus! {

broadcast use vstd::string::group_string_axioms;

/// How a number in a student's record is held against the requirement's value.
#[derive(PartialEq, Eq, Structural)]
pub enum NumberComparison {
    GreaterThanOrEqual,
}

/// How a text in a student's record is held against the requirement's value.
#[derive(PartialEq, Eq, Structural)]
pub enum TextComparison {
    Contains,
    Matches,
}

/// How a list of texts is held against the requirement's value.
#[derive(PartialEq, Eq, Structural)]
pub enum TextListComparison {
    Contains,
}

/// How a list of numbers is held against the requirement's value.
pub enum NumberListComparison {
    Sum(Box<NumberComparison>),
}

/// How a list of records is reduced to one field of each before comparing.
pub enum MapListComparison {
    FlattenToTextList(String, Box<TextListComparison>),
    FlattenToNumberList(String, Box<NumberListComparison>),
}

/// The kind of check a requirement performs.
pub enum ComparisonType {
    Number(NumberComparison),
    Text(TextComparison),
    MapList(MapListComparison),
}

/// A requirement that a scholarship may set: it checks the field
/// `data_member` of a student's record against `target`.
pub struct ComparisonData {
    pub id: String,
    pub data_member: String,
    pub comparison: ComparisonType,
    pub target: ValueType,
    pub category: String,
    pub display_text: String,
}

impl ComparisonData {
    /// A requirement with the given fields.
    pub fn new(
        id: &str,
        data_member: &str,
        comparison: ComparisonType,
        target: ValueType,
        category: &str,
        display_text: &str,
    ) -> (r: Self)
        ensures
            r.id@ == id@,
            r.data_member@ == data_member@,
            r.comparison == comparison,
            r.target == target,
            r.category@ == category@,
            r.display_text@ == display_text@,
    {
        ComparisonData {
            id: owned(id),
            data_member: owned(data_member),
            comparison,
            target,
            category: owned(category),
            display_text: owned(display_text),
        }
    }
}

/// `v` is a present text equal to `t`.
pub open spec fn is_text(v: ValueType, t: Seq<char>) -> bool {
    v matches ValueType::String(Some(s)) && s@ == t
}

/// `v` is a present number written as `t`.
pub open spec fn is_number(v: ValueType, t: Seq<char>) -> bool {
    v matches ValueType::Number(Some(s)) && s@ == t
}

/// The identifying fields of `c` are these.
pub open spec fn has_fields(
    c: ComparisonData,
    id: Seq<char>,
    member: Seq<char>,
    category: Seq<char>,
    display: Seq<char>,
) -> bool {
    &&& c.id@ == id
    &&& c.data_member@ == member
    &&& c.category@ == category
    &&& c.display_text@ == display
}

/// `c` flattens a list of records to their `field` texts and asks whether the
/// list contains the target.
pub open spec fn flattens_to_text_contains(c: ComparisonType, field: Seq<char>) -> bool {
    c matches ComparisonType::MapList(MapListComparison::FlattenToTextList(f, b)) && f@ == field
        && *b == TextListComparison::Contains
}

/// `c` flattens a list of records to their `field` numbers and asks whether
/// their sum is at least the target.
pub open spec fn flattens_to_sum_at_least(c: ComparisonType, field: Seq<char>) -> bool {
    c matches ComparisonType::MapList(MapListComparison::FlattenToNumberList(f, b)) && f@ == field
        && (*b matches NumberListComparison::Sum(n) && *n == NumberComparison::GreaterThanOrEqual)
}

/// The sports of the catalog: each requirement's identifier and the sport.
pub open spec fn sport_entries() -> Seq<(Seq<char>, Seq<char>)> {
    seq![
        ("sports_football"@, "Football"@),
        ("sports_soccer"@, "Soccer"@),
        ("sports_cheerleading"@, "Cheerleading"@),
        ("sports_field_hockey"@, "Field Hockey"@),
        ("sports_swimming"@, "Swimming"@),
        ("sports_golf"@, "Golf"@),
        ("sports_basketball"@, "Basketball"@),
        ("sports_track"@, "Track"@),
        ("sports_gymnastics"@, "Gymnastics"@),
        ("sports_ice_hockey"@, "Ice Hockey"@),
        ("sports_ski"@, "Ski"@),
        ("sports_wrestling"@, "Wrestling"@),
        ("sports_lacrosse"@, "Lacrosse"@),
        ("sports_softball"@, "Softball"@),
        ("sports_tennis"@, "Tennis"@),
    ]
}

/// `c` requires participation in the sport `name`.
pub open spec fn is_sport_requirement(c: ComparisonData, id: Seq<char>, name: Seq<char>) -> bool {
    &&& has_fields(c, id, "sports_participation"@, "Sports Participation"@, name)
    &&& flattens_to_text_contains(c.comparison, "sport_name"@)
    &&& is_text(c.target, name)
}

/// `s` is the sports part of the catalog.
pub open spec fn is_sports_catalog(s: Seq<ComparisonData>) -> bool {
    &&& s.len() == sport_entries().len()
    &&& forall|i: int|
        0 <= i < s.len() ==> is_sport_requirement(
            #[trigger] s[i],
            sport_entries()[i].0,
            sport_entries()[i].1,
        )
}

fn sport_requirement(id: &str, name: &str) -> (r: ComparisonData)
    ensures
        is_sport_requirement(r, id@, name@),
{
    ComparisonData::new(
        id,
        "sports_participation",
        ComparisonType::MapList(
            MapListComparison::FlattenToTextList(
                owned("sport_name"),
                Box::new(TextListComparison::Contains),
            ),
        ),
        ValueType::String(Some(owned(name))),
        "Sports Participation",
        name,
    )
}

/// The requirements of participating in each sport of the catalog.
pub fn create_sports_comparisons() -> (r: Vec<ComparisonData>)
    ensures
        is_sports_catalog(r@),
{
    let mut v = Vec::new();
    v.push(sport_requirement("sports_football", "Football"));
    v.push(sport_requirement("sports_soccer", "Soccer"));
    v.push(sport_requirement("sports_cheerleading", "Cheerleading"));
    v.push(sport_requirement("sports_field_hockey", "Field Hockey"));
    v.push(sport_requirement("sports_swimming", "Swimming"));
    v.push(sport_requirement("sports_golf", "Golf"));
    v.push(sport_requirement("sports_basketball", "Basketball"));
    v.push(sport_requirement("sports_track", "Track"));
    v.push(sport_requirement("sports_gymnastics", "Gymnastics"));
    v.push(sport_requirement("sports_ice_hockey", "Ice Hockey"));
    v.push(sport_requirement("sports_ski", "Ski"));
    v.push(sport_requirement("sports_wrestling", "Wrestling"));
    v.push(sport_requirement("sports_lacrosse", "Lacrosse"));
    v.push(sport_requirement("sports_softball", "Softball"));
    v.push(sport_requirement("sports_tennis", "Tennis"));
    v
}

/// The majors of the catalog.
pub open spec fn major_names() -> Seq<Seq<char>> {
    seq![
        "Music"@,
        "Education"@,
        "Special Education"@,
        "Speech Pathology"@,
        "School Psychology"@,
        "School Counseling"@,
        "Occupational Therapy"@,
        "Physical Therapy"@,
        "Nursing"@,
        "Allied Health"@,
        "Fine/Performing Arts"@,
        "Writing/Communication"@,
        "History"@,
        "Government"@,
        "Political Science"@,
        "Social Work"@,
        "Sports Medicine"@,
        "Athletic Training"@,
        "Horticulture"@,
        "Conservation Studies"@,
        "Ecology"@,
        "Environmental Studies"@,
        "Urban Planning"@,
        "Landscaping"@,
        "Legal Studies"@,
        "Criminal Justice"@,
    ]
}

/// `s` with each space and slash replaced by an underscore.
pub open spec fn underscore_separators(s: Seq<char>) -> Seq<char> {
    s.map_values(|c: char| if c == ' ' || c == '/' { '_' } else { c })
}

/// The identifier of the requirement of studying the major `name`.
pub open spec fn major_id(name: Seq<char>) -> Seq<char> {
    "major_"@ + underscore_separators(lowercase(name))
}

/// The identifier of the requirement of studying the major `name` when `name`
/// is ASCII: `major_` and the name with its capitals made small and its spaces
/// and slashes made underscores.
pub open spec fn major_key(name: Seq<char>) -> Seq<char> {
    "major_"@ + underscore_separators(ascii_lowercase(name))
}

/// `c` requires the major text to contain `name`.
pub open spec fn is_major_requirement(c: ComparisonData, id: Seq<char>, name: Seq<char>) -> bool {
    &&& has_fields(c, id, "major"@, "Majors"@, name)
    &&& c.comparison == ComparisonType::Text(TextComparison::Contains)
    &&& is_text(c.target, name)
}

/// `s` is the majors part of the catalog.
pub open spec fn is_majors_catalog(s: Seq<ComparisonData>) -> bool {
    &&& s.len() == major_names().len()
    &&& forall|i: int|
        0 <= i < s.len() ==> is_major_requirement(
            #[trigger] s[i],
            major_id(major_names()[i]),
            major_names()[i],
        )
}

/// The names of the catalog's majors are ASCII.
#[verifier::rlimit(50)]
proof fn lemma_major_names_ascii()
    ensures
        forall|i: int| 0 <= i < major_names().len() ==> is_ascii_text(#[trigger] major_names()[i]),
{
    reveal_strlit("Music");
    reveal_strlit("Education");
    reveal_strlit("Special Education");
    reveal_strlit("Speech Pathology");
    reveal_strlit("School Psychology");
    reveal_strlit("School Counseling");
    reveal_strlit("Occupational Therapy");
    reveal_strlit("Physical Therapy");
    reveal_strlit("Nursing");
    reveal_strlit("Allied Health");
    reveal_strlit("Fine/Performing Arts");
    reveal_strlit("Writing/Communication");
    reveal_strlit("History");
    reveal_strlit("Government");
    reveal_strlit("Political Science");
    reveal_strlit("Social Work");
    reveal_strlit("Sports Medicine");
    reveal_strlit("Athletic Training");
    reveal_strlit("Horticulture");
    reveal_strlit("Conservation Studies");
    reveal_strlit("Ecology");
    reveal_strlit("Environmental Studies");
    reveal_strlit("Urban Planning");
    reveal_strlit("Landscaping");
    reveal_strlit("Legal Studies");
    reveal_strlit("Criminal Justice");
    reveal_with_fuel(is_ascii_text, 30);
    assert(is_ascii_text("Music"@));
    assert(is_ascii_text("Education"@));
    assert(is_ascii_text("Special Education"@));
    assert(is_ascii_text("Speech Pathology"@));
    assert(is_ascii_text("School Psychology"@));
    assert(is_ascii_text("School Counseling"@));
    assert(is_ascii_text("Occupational Therapy"@));
    assert(is_ascii_text("Physical Therapy"@));
    assert(is_ascii_text("Nursing"@));
    assert(is_ascii_text("Allied Health"@));
    assert(is_ascii_text("Fine/Performing Arts"@));
    assert(is_ascii_text("Writing/Communication"@));
    assert(is_ascii_text("History"@));
    assert(is_ascii_text("Government"@));
    assert(is_ascii_text("Political Science"@));
    assert(is_ascii_text("Social Work"@));
    assert(is_ascii_text("Sports Medicine"@));
    assert(is_ascii_text("Athletic Training"@));
    assert(is_ascii_text("Horticulture"@));
    assert(is_ascii_text("Conservation Studies"@));
    assert(is_ascii_text("Ecology"@));
    assert(is_ascii_text("Environmental Studies"@));
    assert(is_ascii_text("Urban Planning"@));
    assert(is_ascii_text("Landscaping"@));
    assert(is_ascii_text("Legal Studies"@));
    assert(is_ascii_text("Criminal Justice"@));
}

/// The requirement of studying the major `display_text`, identified by `id`.
pub fn create_major_comparison(id: &str, display_text: &str) -> (r: ComparisonData)
    ensures
        is_major_requirement(r, id@, display_text@),
{
    ComparisonData::new(
        id,
        "major",
        ComparisonType::Text(TextComparison::Contains),
        ValueType::String(Some(owned(display_text))),
        "Majors",
        display_text,
    )
}

/// The identifier of the requirement of studying the major `name`: `major_`
/// followed by the lowercased name with spaces and slashes turned into
/// underscores.
pub fn major_comparison_id(name: &str) -> (r: String)
    ensures
        r@ == major_id(name@),
        is_ascii_text(name@) ==> r@ == major_key(name@),
{
    let lower = to_lowercase(name);
    let mut r = owned("major_");
    let ghost prefix = r@;
    for c in it: lower.chars()
        invariant
            it.seq() == lower@,
            prefix == "major_"@,
            r@ == prefix + underscore_separators(lower@.take(it.index())),
    {
        let d = if c == ' ' || c == '/' {
            '_'
        } else {
            c
        };
        push_char(&mut r, d);
        assert(underscore_separators(lower@.take(it.index() + 1)) =~= underscore_separators(
            lower@.take(it.index()),
        ).push(d));
    }
    assert(lower@.take(lower@.len() as int) =~= lower@);
    r
}

/// The requirements of studying each major of the catalog.
pub fn create_major_comparisons() -> (r: Vec<ComparisonData>)
    ensures
        is_majors_catalog(r@),
        forall|j: int| 0 <= j < r@.len() ==> (#[trigger] r@[j]).id@ == major_key(major_names()[j]),
        forall|i: int, j: int| 0 <= i < j < r@.len() ==> (#[trigger] r@[i]).id@ != (#[trigger] r@[j]).id@,
{
    let mut names: Vec<&str> = Vec::new();
    names.push("Music");
    names.push("Education");
    names.push("Special Education");
    names.push("Speech Pathology");
    names.push("School Psychology");
    names.push("School Counseling");
    names.push("Occupational Therapy");
    names.push("Physical Therapy");
    names.push("Nursing");
    names.push("Allied Health");
    names.push("Fine/Performing Arts");
    names.push("Writing/Communication");
    names.push("History");
    names.push("Government");
    names.push("Political Science");
    names.push("Social Work");
    names.push("Sports Medicine");
    names.push("Athletic Training");
    names.push("Horticulture");
    names.push("Conservation Studies");
    names.push("Ecology");
    names.push("Environmental Studies");
    names.push("Urban Planning");
    names.push("Landscaping");
    names.push("Legal Studies");
    names.push("Criminal Justice");
    assert(names@.map_values(|s: &str| s@) =~= major_names());
    let mut r: Vec<ComparisonData> = Vec::new();
    proof {
        lemma_major_names_ascii();
    }
    for i in 0..names.len()
        invariant
            names@.map_values(|s: &str| s@) == major_names(),
            forall|j: int| 0 <= j < major_names().len() ==> is_ascii_text(#[trigger] major_names()[j]),
            forall|j: int| 0 <= j < i ==> (#[trigger] r@[j]).id@ == major_key(major_names()[j]),
            r@.len() == i,
            forall|j: int|
                0 <= j < i ==> is_major_requirement(
                    #[trigger] r@[j],
                    major_id(major_names()[j]),
                    major_names()[j],
                ),
    {
        let name = names[i];
        assert(name@ == major_names()[i as int]);
        let id = major_comparison_id(name);
        r.push(create_major_comparison(id.as_str(), name));
    }
    proof {
        lemma_major_positions();
        assert forall|i: int, j: int| 0 <= i < j < r@.len() implies (#[trigger] r@[i]).id@
            != (#[trigger] r@[j]).id@ by {
            assert(catalog_position(major_key(major_names()[i])) == 25 + i);
            assert(catalog_position(major_key(major_names()[j])) == 25 + j);
        }
    }
    r
}

/// The requirements of the catalog that are neither sports nor majors.
pub open spec fn is_general_catalog(s: Seq<ComparisonData>) -> bool {
    &&& s.len() == 10
    &&& has_fields(s[0], "gpa_3"@, "weighted_gpa"@, "GPA Limits"@, "GPA >= 3.0"@)
    &&& s[0].comparison == ComparisonType::Number(NumberComparison::GreaterThanOrEqual)
    &&& is_number(s[0].target, "3"@)
    &&& has_fields(
        s[1],
        "math_sat_comp"@,
        "math_sat"@,
        "Academic Information"@,
        "Math SAT Score > 650"@,
    )
    &&& s[1].comparison == ComparisonType::Number(NumberComparison::GreaterThanOrEqual)
    &&& is_number(s[1].target, "650"@)
    &&& has_fields(
        s[2],
        "service_hours_20"@,
        "community_involvement"@,
        "Community Service"@,
        "20+ service hours"@,
    )
    &&& flattens_to_sum_at_least(s[2].comparison, "service_hours"@)
    &&& is_number(s[2].target, "20"@)
    &&& has_fields(
        s[3],
        "service_hours_25"@,
        "community_involvement"@,
        "Community Service"@,
        "25+ service hours"@,
    )
    &&& flattens_to_sum_at_least(s[3].comparison, "service_hours"@)
    &&& is_number(s[3].target, "25"@)
    &&& has_fields(
        s[4],
        "service_hours_30"@,
        "community_involvement"@,
        "Community Service"@,
        "30+ service hours"@,
    )
    &&& flattens_to_sum_at_least(s[4].comparison, "service_hours"@)
    &&& is_number(s[4].target, "30"@)
    &&& has_fields(s[5], "residency_middlebury"@, "town"@, "Residency"@, "Middlebury"@)
    &&& s[5].comparison == ComparisonType::Text(TextComparison::Matches)
    &&& is_text(s[5].target, "Middlebury"@)
    &&& has_fields(s[6], "residency_southbury"@, "town"@, "Residency"@, "Southbury"@)
    &&& s[6].comparison == ComparisonType::Text(TextComparison::Matches)
    &&& is_text(s[6].target, "Southbury"@)
    &&& has_fields(
        s[7],
        "attended_bas"@,
        "attended_bas"@,
        "Additional Eligibility Factors"@,
        "Attended BAS"@,
    )
    &&& s[7].comparison == ComparisonType::Text(TextComparison::Matches)
    &&& is_text(s[7].target, "Yes"@)
    &&& has_fields(
        s[8],
        "midd_south"@,
        "middsouth_church"@,
        "Additional Eligibility Factors"@,
        "Member of Midd-South Church"@,
    )
    &&& s[8].comparison == ComparisonType::Text(TextComparison::Matches)
    &&& is_text(s[8].target, "Yes"@)
    &&& has_fields(
        s[9],
        "family_military"@,
        "family_military_service"@,
        "Additional Eligibility Factors"@,
        "Family with Military Service"@,
    )
    &&& s[9].comparison == ComparisonType::Text(TextComparison::Matches)
    &&& is_text(s[9].target, "Yes"@)
}

fn number_requirement(
    id: &str,
    member: &str,
    target: &str,
    category: &str,
    display: &str,
) -> (r: ComparisonData)
    ensures
        has_fields(r, id@, member@, category@, display@),
        r.comparison == ComparisonType::Number(NumberComparison::GreaterThanOrEqual),
        is_number(r.target, target@),
{
    ComparisonData::new(
        id,
        member,
        ComparisonType::Number(NumberComparison::GreaterThanOrEqual),
        ValueType::Number(Some(owned(target))),
        category,
        display,
    )
}

fn service_hours_requirement(id: &str, target: &str, display: &str) -> (r: ComparisonData)
    ensures
        has_fields(r, id@, "community_involvement"@, "Community Service"@, display@),
        flattens_to_sum_at_least(r.comparison, "service_hours"@),
        is_number(r.target, target@),
{
    ComparisonData::new(
        id,
        "community_involvement",
        ComparisonType::MapList(
            MapListComparison::FlattenToNumberList(
                owned("service_hours"),
                Box::new(NumberListComparison::Sum(Box::new(NumberComparison::GreaterThanOrEqual))),
            ),
        ),
        ValueType::Number(Some(owned(target))),
        "Community Service",
        display,
    )
}

fn text_match_requirement(
    id: &str,
    member: &str,
    target: &str,
    category: &str,
    display: &str,
) -> (r: ComparisonData)
    ensures
        has_fields(r, id@, member@, category@, display@),
        r.comparison == ComparisonType::Text(TextComparison::Matches),
        is_text(r.target, target@),
{
    ComparisonData::new(
        id,
        member,
        ComparisonType::Text(TextComparison::Matches),
        ValueType::String(Some(owned(target))),
        category,
        display,
    )
}

/// The place of an identifier in the catalog, read off its length and a few
/// of its characters; -1 for a text of no length the catalog uses.
spec fn catalog_position(s: Seq<char>) -> int {
    if s.len() == 5 {
        0
    } else if s.len() == 10 {
        if s[0] == 'm' {
            8
        } else {
            20
        }
    } else if s.len() == 11 {
        if s[0] == 'm' {
            25
        } else {
            15
        }
    } else if s.len() == 12 {
        if s[0] == 'a' {
            7
        } else {
            17
        }
    } else if s.len() == 13 {
        if s[11] == 'e' {
            11
        } else if s[11] == 'g' {
            45
        } else if s[11] == 'i' {
            24
        } else if s[11] == 'm' {
            1
        } else if s[11] == 'n' {
            33
        } else {
            37
        }
    } else if s.len() == 15 {
        if s[7] == 'd' {
            26
        } else if s[7] == 'f' {
            10
        } else if s[7] == 'l' {
            22
        } else if s[7] == 'm' {
            9
        } else {
            if s[8] == 'o' {
                23
            } else {
                14
            }
        }
    } else if s.len() == 16 {
        if s[15] == '0' {
            if s[14] == '2' {
                2
            } else {
                4
            }
        } else if s[15] == '5' {
            3
        } else if s[15] == 'g' {
            21
        } else {
            38
        }
    } else if s.len() == 17 {
        if s[7] == 'a' {
            48
        } else if s[7] == 'b' {
            16
        } else if s[7] == 'g' {
            18
        } else if s[7] == 'i' {
            19
        } else {
            40
        }
    } else if s.len() == 18 {
        43
    } else if s.len() == 19 {
        if s[8] == 'g' {
            49
        } else if s[8] == 'h' {
            12
        } else if s[8] == 'i' {
            13
        } else if s[8] == 'l' {
            34
        } else {
            6
        }
    } else if s.len() == 20 {
        if s[0] == 'm' {
            47
        } else {
            5
        }
    } else if s.len() == 21 {
        41
    } else if s.len() == 22 {
        if s[6] == 'c' {
            50
        } else if s[6] == 'p' {
            32
        } else {
            28
        }
    } else if s.len() == 23 {
        if s[14] == '_' {
            42
        } else if s[14] == 'e' {
            27
        } else if s[14] == 'l' {
            39
        } else if s[14] == 'o' {
            30
        } else {
            29
        }
    } else if s.len() == 26 {
        if s[6] == 'c' {
            44
        } else if s[6] == 'f' {
            35
        } else {
            31
        }
    } else if s.len() == 27 {
        if s[6] == 'e' {
            46
        } else {
            36
        }
    } else {
        -1
    }
}

proof fn lemma_general_positions()
    ensures
        catalog_position("gpa_3"@) == 0,
        catalog_position("math_sat_comp"@) == 1,
        catalog_position("service_hours_20"@) == 2,
        catalog_position("service_hours_25"@) == 3,
        catalog_position("service_hours_30"@) == 4,
        catalog_position("residency_middlebury"@) == 5,
        catalog_position("residency_southbury"@) == 6,
        catalog_position("attended_bas"@) == 7,
        catalog_position("midd_south"@) == 8,
        catalog_position("family_military"@) == 9,
{
    reveal_strlit("gpa_3");
    reveal_strlit("math_sat_comp");
    reveal_strlit("service_hours_20");
    reveal_strlit("service_hours_25");
    reveal_strlit("service_hours_30");
    reveal_strlit("residency_middlebury");
    reveal_strlit("residency_southbury");
    reveal_strlit("attended_bas");
    reveal_strlit("midd_south");
    reveal_strlit("family_military");
}

#[verifier::rlimit(50)]
proof fn lemma_sport_positions()
    ensures
        forall|i: int| 0 <= i < sport_entries().len() ==> catalog_position(#[trigger] sport_entries()[i].0) == 10 + i,
{
    reveal_strlit("sports_football");
    reveal_strlit("sports_soccer");
    reveal_strlit("sports_cheerleading");
    reveal_strlit("sports_field_hockey");
    reveal_strlit("sports_swimming");
    reveal_strlit("sports_golf");
    reveal_strlit("sports_basketball");
    reveal_strlit("sports_track");
    reveal_strlit("sports_gymnastics");
    reveal_strlit("sports_ice_hockey");
    reveal_strlit("sports_ski");
    reveal_strlit("sports_wrestling");
    reveal_strlit("sports_lacrosse");
    reveal_strlit("sports_softball");
    reveal_strlit("sports_tennis");
    assert(catalog_position("sports_football"@) == 10);
    assert(catalog_position("sports_soccer"@) == 11);
    assert(catalog_position("sports_cheerleading"@) == 12);
    assert(catalog_position("sports_field_hockey"@) == 13);
    assert(catalog_position("sports_swimming"@) == 14);
    assert(catalog_position("sports_golf"@) == 15);
    assert(catalog_position("sports_basketball"@) == 16);
    assert(catalog_position("sports_track"@) == 17);
    assert(catalog_position("sports_gymnastics"@) == 18);
    assert(catalog_position("sports_ice_hockey"@) == 19);
    assert(catalog_position("sports_ski"@) == 20);
    assert(catalog_position("sports_wrestling"@) == 21);
    assert(catalog_position("sports_lacrosse"@) == 22);
    assert(catalog_position("sports_softball"@) == 23);
    assert(catalog_position("sports_tennis"@) == 24);
}

#[verifier::rlimit(100)]
proof fn lemma_major_positions()
    ensures
        forall|i: int| 0 <= i < major_names().len() ==> catalog_position(major_key(#[trigger] major_names()[i])) == 25 + i,
{
    reveal_strlit("major_");
    reveal_strlit("Music");
    reveal_strlit("Education");
    reveal_strlit("Special Education");
    reveal_strlit("Speech Pathology");
    reveal_strlit("School Psychology");
    reveal_strlit("School Counseling");
    reveal_strlit("Occupational Therapy");
    reveal_strlit("Physical Therapy");
    reveal_strlit("Nursing");
    reveal_strlit("Allied Health");
    reveal_strlit("Fine/Performing Arts");
    reveal_strlit("Writing/Communication");
    reveal_strlit("History");
    reveal_strlit("Government");
    reveal_strlit("Political Science");
    reveal_strlit("Social Work");
    reveal_strlit("Sports Medicine");
    reveal_strlit("Athletic Training");
    reveal_strlit("Horticulture");
    reveal_strlit("Conservation Studies");
    reveal_strlit("Ecology");
    reveal_strlit("Environmental Studies");
    reveal_strlit("Urban Planning");
    reveal_strlit("Landscaping");
    reveal_strlit("Legal Studies");
    reveal_strlit("Criminal Justice");
    assert(catalog_position(major_key("Music"@)) == 25);
    assert(catalog_position(major_key("Education"@)) == 26);
    assert(catalog_position(major_key("Special Education"@)) == 27);
    assert(catalog_position(major_key("Speech Pathology"@)) == 28);
    assert(catalog_position(major_key("School Psychology"@)) == 29);
    assert(catalog_position(major_key("School Counseling"@)) == 30);
    assert(catalog_position(major_key("Occupational Therapy"@)) == 31);
    assert(catalog_position(major_key("Physical Therapy"@)) == 32);
    assert(catalog_position(major_key("Nursing"@)) == 33);
    assert(catalog_position(major_key("Allied Health"@)) == 34);
    assert(catalog_position(major_key("Fine/Performing Arts"@)) == 35);
    assert(catalog_position(major_key("Writing/Communication"@)) == 36);
    assert(catalog_position(major_key("History"@)) == 37);
    assert(catalog_position(major_key("Government"@)) == 38);
    assert(catalog_position(major_key("Political Science"@)) == 39);
    assert(catalog_position(major_key("Social Work"@)) == 40);
    assert(catalog_position(major_key("Sports Medicine"@)) == 41);
    assert(catalog_position(major_key("Athletic Training"@)) == 42);
    assert(catalog_position(major_key("Horticulture"@)) == 43);
    assert(catalog_position(major_key("Conservation Studies"@)) == 44);
    assert(catalog_position(major_key("Ecology"@)) == 45);
    assert(catalog_position(major_key("Environmental Studies"@)) == 46);
    assert(catalog_position(major_key("Urban Planning"@)) == 47);
    assert(catalog_position(major_key("Landscaping"@)) == 48);
    assert(catalog_position(major_key("Legal Studies"@)) == 49);
    assert(catalog_position(major_key("Criminal Justice"@)) == 50);
}

/// The whole catalog of requirements: the general ones, then the sports, then
/// the majors.
pub fn make_comp_list() -> (r: Vec<ComparisonData>)
    ensures
        r@.len() == 51,
        is_general_catalog(r@.subrange(0, 10)),
        is_sports_catalog(r@.subrange(10, 25)),
        is_majors_catalog(r@.subrange(25, 51)),
        forall|i: int, j: int| 0 <= i < j < r@.len() ==> (#[trigger] r@[i]).id@ != (#[trigger] r@[j]).id@,
{
    let mut comp_list = Vec::new();
    comp_list.push(number_requirement("gpa_3", "weighted_gpa", "3", "GPA Limits", "GPA >= 3.0"));
    comp_list.push(
        number_requirement(
            "math_sat_comp",
            "math_sat",
            "650",
            "Academic Information",
            "Math SAT Score > 650",
        ),
    );
    comp_list.push(service_hours_requirement("service_hours_20", "20", "20+ service hours"));
    comp_list.push(service_hours_requirement("service_hours_25", "25", "25+ service hours"));
    comp_list.push(service_hours_requirement("service_hours_30", "30", "30+ service hours"));
    comp_list.push(
        text_match_requirement("residency_middlebury", "town", "Middlebury", "Residency", "Middlebury"),
    );
    comp_list.push(
        text_match_requirement("residency_southbury", "town", "Southbury", "Residency", "Southbury"),
    );
    comp_list.push(
        text_match_requirement(
            "attended_bas",
            "attended_bas",
            "Yes",
            "Additional Eligibility Factors",
            "Attended BAS",
        ),
    );
    comp_list.push(
        text_match_requirement(
            "midd_south",
            "middsouth_church",
            "Yes",
            "Additional Eligibility Factors",
            "Member of Midd-South Church",
        ),
    );
    comp_list.push(
        text_match_requirement(
            "family_military",
            "family_military_service",
            "Yes",
            "Additional Eligibility Factors",
            "Family with Military Service",
        ),
    );
    let ghost general = comp_list@;
    let mut sports_comps = create_sports_comparisons();
    let ghost sports = sports_comps@;
    let mut major_comps = create_major_comparisons();
    let ghost majors = major_comps@;
    comp_list.append(&mut sports_comps);
    comp_list.append(&mut major_comps);
    assert(comp_list@.subrange(0, 10) =~= general);
    assert(comp_list@.subrange(10, 25) =~= sports);
    assert(comp_list@.subrange(25, 51) =~= majors);
    proof {
        lemma_general_positions();
        lemma_sport_positions();
        lemma_major_positions();
        let all = comp_list@;
        assert forall|k: int| 0 <= k < 51 implies catalog_position(#[trigger] all[k].id@) == k by {
            if k < 10 {
                assert(all[k] == general[k]);
            } else if k < 25 {
                assert(all[k] == sports[k - 10]);
                assert(all.subrange(10, 25)[k - 10] == all[k]);
            } else {
                assert(all[k] == majors[k - 25]);
            }
        }
        assert forall|i: int, j: int| 0 <= i < j < all.len() implies (#[trigger] all[i]).id@
            != (#[trigger] all[j]).id@ by {
            assert(catalog_position(all[i].id@) == i);
            assert(catalog_position(all[j].id@) == j);
        }
    }
    comp_list
}

/// The requirements among `s` whose category is `k`, in order.
pub open spec fn in_category(s: Seq<ComparisonData>, k: Seq<char>) -> Seq<ComparisonData>
    decreases s.len(),
{
    if s.len() == 0 {
        Seq::empty()
    } else if s.last().category@ == k {
        in_category(s.drop_last(), k).push(s.last())
    } else {
        in_category(s.drop_last(), k)
    }
}

/// Some requirement among `s` has the category `k`.
pub open spec fn has_category(s: Seq<ComparisonData>, k: Seq<char>) -> bool {
    exists|i: int| 0 <= i < s.len() && #[trigger] s[i].category@ == k
}

/// Groups requirements by category: each category that occurs maps to its
/// requirements, in the order they came in.
pub fn categorize_comparisons(items: Vec<ComparisonData>) -> (r: AssocMap<Vec<ComparisonData>>)
    ensures
        forall|k: Seq<char>| #[trigger] r@.contains_key(k) == has_category(items@, k),
        forall|k: Seq<char>| #[trigger] r@.contains_key(k) ==> r@[k]@ == in_category(items@, k),
{
    let ghost all = items@;
    let mut groups: AssocMap<Vec<ComparisonData>> = AssocMap::new();
    for c in it: items
        invariant
            it.seq() == all,
            forall|k: Seq<char>| #[trigger] groups@.contains_key(k) == has_category(all.take(it.index()), k),
            forall|k: Seq<char>| #[trigger] groups@.contains_key(k) ==> groups@[k]@ == in_category(
                all.take(it.index()),
                k,
            ),
    {
        let ghost i = it.index();
        let ghost pre = all.take(i);
        let ghost post = all.take(i + 1);
        let ghost old_groups = groups@;
        proof {
            assert(post.drop_last() =~= pre);
            assert(post.last() == c);
        }
        let key = c.category.clone();
        groups.push_to(key, c);
        proof {
            assert forall|k: Seq<char>| #[trigger] groups@.contains_key(k) == has_category(post, k) by {
                if has_category(post, k) {
                    let j = choose|j: int| 0 <= j < post.len() && #[trigger] post[j].category@ == k;
                    if j < i {
                        assert(pre[j] == post[j]);
                    }
                }
                if has_category(pre, k) {
                    let j = choose|j: int| 0 <= j < pre.len() && #[trigger] pre[j].category@ == k;
                    assert(pre[j] == post[j]);
                }
            }
            assert forall|k: Seq<char>| #[trigger] groups@.contains_key(k) implies groups@[k]@
                == in_category(post, k) by {
                if k != c.category@ {
                    assert(in_category(post, k) == in_category(pre, k));
                } else if !old_groups.contains_key(k) {
                    assert(in_category(pre, k) =~= Seq::<ComparisonData>::empty()) by {
                        lemma_in_category_empty(pre, k);
                    }
                }
            }
        }
    }
    assert(all.take(all.len() as int) =~= all);
    groups
}

proof fn lemma_in_category_empty(s: Seq<ComparisonData>, k: Seq<char>)
    requires
        !has_category(s, k),
    ensures
        in_category(s, k) == Seq::<ComparisonData>::empty(),
    decreases s.len(),
{
    if s.len() > 0 {
        assert forall|j: int| 0 <= j < s.drop_last().len() implies #[trigger] s.drop_last()[j].category@
            != k by {
            assert(s.drop_last()[j] == s[j]);
        }
        lemma_in_category_empty(s.drop_last(), k);
        assert(s[s.len() - 1].category@ != k);
    }
}

/// The identifiers of `s`, in order.
pub open spec fn ids_of(s: Seq<ComparisonData>) -> Seq<Seq<char>> {
    s.map_values(|c: ComparisonData| c.id@)
}

/// The display texts of `s`, in order.
pub open spec fn texts_of(s: Seq<ComparisonData>) -> Seq<Seq<char>> {
    s.map_values(|c: ComparisonData| c.display_text@)
}

/// The requirements of `category` in `groups`, none when it is missing.
pub open spec fn group_of(groups: Map<Seq<char>, Vec<ComparisonData>>, category: Seq<char>) -> Seq<
    ComparisonData,
> {
    if groups.contains_key(category) {
        groups[category]@
    } else {
        Seq::empty()
    }
}

/// The identifiers of the requirements of `category`, in order.
pub fn category_ids(groups: &AssocMap<Vec<ComparisonData>>, category: &str) -> (r: Vec<String>)
    ensures
        r@.map_values(|s: String| s@) == ids_of(group_of(groups@, category@)),
{
    let mut r: Vec<String> = Vec::new();
    match groups.get(category) {
        Some(list) => {
            for i in 0..list.len()
                invariant
                    list@ == group_of(groups@, category@),
                    r@.map_values(|s: String| s@) == ids_of(list@.take(i as int)),
            {
                r.push(list[i].id.clone());
                assert(ids_of(list@.take(i + 1)) =~= ids_of(list@.take(i as int)).push(list@[i as int].id@));
                assert(r@.map_values(|s: String| s@) =~= ids_of(list@.take(i as int)).push(list@[i as int].id@));
            }
            assert(list@.take(list@.len() as int) =~= list@);
        },
        None => {
            assert(r@.map_values(|s: String| s@) =~= ids_of(Seq::<ComparisonData>::empty()));
        },
    }
    r
}

/// The display texts of the requirements of `category`, in order.
pub fn category_texts(groups: &AssocMap<Vec<ComparisonData>>, category: &str) -> (r: Vec<String>)
    ensures
        r@.map_values(|s: String| s@) == texts_of(group_of(groups@, category@)),
{
    let mut r: Vec<String> = Vec::new();
    match groups.get(category) {
        Some(list) => {
            for i in 0..list.len()
                invariant
                    list@ == group_of(groups@, category@),
                    r@.map_values(|s: String| s@) == texts_of(list@.take(i as int)),
            {
                r.push(list[i].display_text.clone());
                assert(texts_of(list@.take(i + 1)) =~= texts_of(list@.take(i as int)).push(
                    list@[i as int].display_text@,
                ));
                assert(r@.map_values(|s: String| s@) =~= texts_of(list@.take(i as int)).push(
                    list@[i as int].display_text@,
                ));
            }
            assert(list@.take(list@.len() as int) =~= list@);
        },
        None => {
            assert(r@.map_values(|s: String| s@) =~= texts_of(Seq::<ComparisonData>::empty()));
        },
    }
    r
}

} // verus!
