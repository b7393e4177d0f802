use scholarships::comparison::{
    categorize_comparisons, category_ids, category_texts, create_major_comparison,
    create_major_comparisons, create_sports_comparisons, major_comparison_id, make_comp_list,
    ComparisonType, MapListComparison, NumberComparison, NumberListComparison, TextComparison,
    TextListComparison,
};
use scholarships::value::ValueType;

fn text_target(v: &ValueType) -> Option<String> {
    match v {
        ValueType::String(Some(s)) => Some(s.clone()),
        _ => None,
    }
}

fn number_target(v: &ValueType) -> Option<String> {
    match v {
        ValueType::Number(Some(s)) => Some(s.clone()),
        _ => None,
    }
}

#[test]
fn major_id_lowercases_and_underscores() {
    assert_eq!(major_comparison_id("Fine/Performing Arts"), "major_fine_performing_arts");
    assert_eq!(major_comparison_id("Special Education"), "major_special_education");
    assert_eq!(major_comparison_id("Music"), "major_music");
    assert_eq!(major_comparison_id(""), "major_");
}

#[test]
fn single_major_comparison_fields() {
    let c = create_major_comparison("major_x", "Xylophone");
    assert_eq!(c.id, "major_x");
    assert_eq!(c.data_member, "major");
    assert_eq!(c.category, "Majors");
    assert_eq!(c.display_text, "Xylophone");
    assert!(matches!(c.comparison, ComparisonType::Text(TextComparison::Contains)));
    assert_eq!(text_target(&c.target), Some("Xylophone".to_string()));
}

#[test]
fn sports_catalog_holds_fifteen_sports() {
    let s = create_sports_comparisons();
    assert_eq!(s.len(), 15);
    assert_eq!(s[0].id, "sports_football");
    assert_eq!(s[3].id, "sports_field_hockey");
    assert_eq!(s[3].display_text, "Field Hockey");
    assert_eq!(s[14].id, "sports_tennis");
    for c in &s {
        assert_eq!(c.data_member, "sports_participation");
        assert_eq!(c.category, "Sports Participation");
        assert_eq!(text_target(&c.target), Some(c.display_text.clone()));
        match &c.comparison {
            ComparisonType::MapList(MapListComparison::FlattenToTextList(field, inner)) => {
                assert_eq!(field, "sport_name");
                assert!(matches!(**inner, TextListComparison::Contains));
            }
            _ => panic!("a sport is checked on the list of sports"),
        }
    }
}

#[test]
fn majors_catalog_ids_follow_names() {
    let m = create_major_comparisons();
    assert_eq!(m.len(), 26);
    assert_eq!(m[0].id, "major_music");
    assert_eq!(m[10].id, "major_fine_performing_arts");
    assert_eq!(m[10].display_text, "Fine/Performing Arts");
    assert_eq!(m[11].id, "major_writing_communication");
    assert_eq!(m[25].id, "major_criminal_justice");
    for c in &m {
        assert_eq!(c.id, major_comparison_id(&c.display_text));
        assert_eq!(c.category, "Majors");
    }
}

#[test]
fn full_catalog_layout() {
    let all = make_comp_list();
    assert_eq!(all.len(), 51);
    assert_eq!(all[0].id, "gpa_3");
    assert_eq!(all[0].data_member, "weighted_gpa");
    assert!(matches!(all[0].comparison, ComparisonType::Number(NumberComparison::GreaterThanOrEqual)));
    assert_eq!(number_target(&all[0].target), Some("3".to_string()));
    assert_eq!(all[1].id, "math_sat_comp");
    assert_eq!(number_target(&all[1].target), Some("650".to_string()));
    assert_eq!(all[2].id, "service_hours_20");
    match &all[2].comparison {
        ComparisonType::MapList(MapListComparison::FlattenToNumberList(field, inner)) => {
            assert_eq!(field, "service_hours");
            assert!(matches!(**inner, NumberListComparison::Sum(_)));
        }
        _ => panic!("service hours are summed"),
    }
    assert_eq!(number_target(&all[4].target), Some("30".to_string()));
    assert_eq!(all[5].id, "residency_middlebury");
    assert!(matches!(all[5].comparison, ComparisonType::Text(TextComparison::Matches)));
    assert_eq!(text_target(&all[9].target), Some("Yes".to_string()));
    assert_eq!(all[9].data_member, "family_military_service");
    assert_eq!(all[10].id, "sports_football");
    assert_eq!(all[25].id, "major_music");
    assert_eq!(all[50].id, "major_criminal_justice");
}

#[test]
fn categories_group_in_catalog_order() {
    let groups = categorize_comparisons(make_comp_list());
    assert_eq!(groups.len(), 7);
    assert_eq!(
        category_ids(&groups, "Community Service"),
        vec!["service_hours_20", "service_hours_25", "service_hours_30"]
    );
    assert_eq!(category_texts(&groups, "Residency"), vec!["Middlebury", "Southbury"]);
    assert_eq!(category_ids(&groups, "GPA Limits"), vec!["gpa_3"]);
    assert_eq!(category_ids(&groups, "Sports Participation").len(), 15);
    assert_eq!(category_ids(&groups, "Majors").len(), 26);
    assert_eq!(
        category_texts(&groups, "Additional Eligibility Factors"),
        vec!["Attended BAS", "Member of Midd-South Church", "Family with Military Service"]
    );
    assert!(category_ids(&groups, "Nothing").is_empty());
    assert!(category_texts(&groups, "Nothing").is_empty());
}

#[test]
fn categories_of_empty_catalog() {
    let groups = categorize_comparisons(Vec::new());
    assert_eq!(groups.len(), 0);
    assert!(category_ids(&groups, "Majors").is_empty());
}

#[test]
fn requirement_found_in_own_category() {
    let all = make_comp_list();
    let ids: Vec<String> = all.iter().map(|c| c.id.clone()).collect();
    let cats: Vec<String> = all.iter().map(|c| c.category.clone()).collect();
    let groups = categorize_comparisons(all);
    for (id, cat) in ids.iter().zip(cats.iter()) {
        assert!(category_ids(&groups, cat).contains(id));
    }
}

#[test]
fn catalog_ids_are_distinct() {
    let all = make_comp_list();
    let ids: std::collections::HashSet<String> = all.iter().map(|c| c.id.clone()).collect();
    assert_eq!(ids.len(), 51);
    let majors = create_major_comparisons();
    let major_ids: std::collections::HashSet<String> = majors.iter().map(|c| c.id.clone()).collect();
    assert_eq!(major_ids.len(), 26);
}
