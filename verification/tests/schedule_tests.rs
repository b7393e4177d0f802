use scholarships::schedule::{get_important_dates, span_moments, DateSpan, MomentSpan};

#[test]
fn season_dates_in_order() {
    let dates = get_important_dates();
    assert_eq!(dates.len(), 5);
    assert_eq!(dates[0].title, "Provider Forms Open");
    match &dates[0].date {
        DateSpan::Range(s, e) => {
            assert_eq!(s, "2026-01-20T07:15:00-05:00");
            assert_eq!(e, "2026-03-03T23:59:00-05:00");
        }
        _ => panic!("the provider forms are open over a range"),
    }
    assert_eq!(dates[2].description, "Start date may change if available sooner.");
    match &dates[4].date {
        DateSpan::Single(s) => assert_eq!(s, "2026-06-09T00:00:00-05:00"),
        _ => panic!("the awards night is one day"),
    }
    assert_eq!(dates[4].description, "Time TBD");
    assert_eq!(dates[0].id.len(), 36);
    assert_ne!(dates[0].id, dates[1].id);
}

#[test]
fn season_moments_read() {
    let dates = get_important_dates();
    match span_moments(&dates[0].date) {
        Some(MomentSpan::Range(start, _)) => assert_eq!(start, (1768911300, -18000)),
        _ => panic!("the provider forms open over a range"),
    }
    match span_moments(&dates[4].date) {
        Some(MomentSpan::Single(m)) => assert_eq!(m, (1780981200, -18000)),
        _ => panic!("the awards night is one moment"),
    }
    assert!(span_moments(&DateSpan::Single("yesterday".to_string())).is_none());
    assert!(span_moments(&DateSpan::Range("2026-01-20T07:15:00-05:00".to_string(), "later".to_string())).is_none());
}
