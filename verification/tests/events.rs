use gahyar::events::{holiday_key, CalendarEvent, EventStore};

fn event(year: i32, month: u32, day: u32, title: &str) -> CalendarEvent {
    CalendarEvent {
        jalali_year: year,
        jalali_month: month,
        jalali_day: day,
        title: title.to_string(),
        description: String::new(),
        category: String::new(),
        official_holiday: false,
    }
}

fn store() -> EventStore {
    EventStore::from_parts(
        1405,
        0,
        "test".to_string(),
        vec![
            event(1405, 1, 1, "nowruz"),
            event(1405, 1, 13, "nature"),
            event(1405, 1, 1, "second"),
            event(1404, 1, 1, "last year"),
        ],
        vec!["1405-01-01".to_string(), "1405-01-13".to_string()],
    )
}

#[test]
fn events_are_found_by_day_and_month_in_order() {
    let s = store();
    let day: Vec<&str> = s.events_for_day(1405, 1, 1).iter().map(|e| e.title.as_str()).collect();
    assert_eq!(day, vec!["nowruz", "second"]);
    let month: Vec<&str> = s.events_for_month(1405, 1).iter().map(|e| e.title.as_str()).collect();
    assert_eq!(month, vec!["nowruz", "nature", "second"]);
    assert!(s.events_for_day(1405, 2, 1).is_empty());
}

#[test]
fn holidays_are_matched_by_padded_keys() {
    let s = store();
    assert!(s.is_official_holiday(1405, 1, 1));
    assert!(s.is_official_holiday(1405, 1, 13));
    assert!(!s.is_official_holiday(1405, 1, 2));
    assert_eq!(holiday_key(1405, 1, 1), "1405-01-01");
    assert_eq!(holiday_key(5, 12, 30), "0005-12-30");
    assert_eq!(holiday_key(-1, 1, 1), "-001-01-01");
    assert_eq!(holiday_key(12345, 100, 7), "12345-100-07");
}

#[test]
fn event_count_prefers_the_declared_count() {
    assert_eq!(store().event_count, 4);
    let declared = EventStore::from_parts(1405, 9, String::new(), Vec::new(), Vec::new());
    assert_eq!(declared.event_count, 9);
    let failed = EventStore::unreadable("broken".to_string());
    assert_eq!((failed.source_year, failed.event_count), (1405, 0));
    assert_eq!(failed.source_label, "broken");
    assert!(!failed.is_official_holiday(1405, 1, 1));
}

#[test]
fn day_events_are_the_month_events_of_that_day() {
    let s = store();
    for day in 1..=31u32 {
        let from_day: Vec<&str> =
            s.events_for_day(1405, 1, day).iter().map(|e| e.title.as_str()).collect();
        let from_month: Vec<&str> = s
            .events_for_month(1405, 1)
            .iter()
            .filter(|e| e.jalali_day == day)
            .map(|e| e.title.as_str())
            .collect();
        assert_eq!(from_day, from_month);
    }
}
