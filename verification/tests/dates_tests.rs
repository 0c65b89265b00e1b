use club_bot::dates::{beautify_date, ordinal_day_text, parse_event_date, EventDate};

fn date(year: i32, month: u32, day: u32, hour: u32, minute: u32) -> EventDate {
    EventDate::new(year, month, day, hour, minute).expect("a real date")
}

#[test]
fn date_is_shown_with_weekday_ordinal_month_and_time() {
    assert_eq!(
        beautify_date(&date(2030, 7, 16, 15, 0)),
        "Tuesday, 16th of July at 15:00"
    );
    assert_eq!(
        beautify_date(&date(2030, 1, 1, 9, 5)),
        "Tuesday, 1st of January at 09:05"
    );
    assert_eq!(
        beautify_date(&date(2030, 3, 22, 23, 59)),
        "Friday, 22nd of March at 23:59"
    );
    assert_eq!(
        beautify_date(&date(2031, 5, 3, 0, 0)),
        "Saturday, 3rd of May at 00:00"
    );
    assert_eq!(
        beautify_date(&date(2030, 12, 31, 12, 30)),
        "Tuesday, 31st of December at 12:30"
    );
    assert_eq!(
        beautify_date(&date(1970, 1, 1, 0, 0)),
        "Thursday, 1st of January at 00:00"
    );
    assert_eq!(
        beautify_date(&date(-1, 3, 1, 0, 0)),
        "Monday, 1st of March at 00:00"
    );
}

#[test]
fn ordinal_days_take_english_suffixes() {
    let expected = [
        (1, "1st"),
        (2, "2nd"),
        (3, "3rd"),
        (4, "4th"),
        (11, "11th"),
        (12, "12th"),
        (13, "13th"),
        (21, "21st"),
        (22, "22nd"),
        (23, "23rd"),
        (30, "30th"),
        (31, "31st"),
    ];
    for (day, text) in expected {
        assert_eq!(ordinal_day_text(day), text);
    }
}

#[test]
fn only_real_dates_can_be_made() {
    assert!(EventDate::new(2023, 2, 29, 10, 0).is_none());
    assert!(EventDate::new(2024, 2, 29, 10, 0).is_some());
    assert!(EventDate::new(2023, 4, 31, 10, 0).is_none());
    assert!(EventDate::new(2023, 13, 1, 10, 0).is_none());
    assert!(EventDate::new(2023, 1, 1, 24, 0).is_none());
    assert!(EventDate::new(2023, 1, 1, 23, 60).is_none());
    assert!(EventDate::new(1900, 2, 29, 0, 0).is_none());
    assert!(EventDate::new(2000, 2, 29, 0, 0).is_some());
    assert!(EventDate::new(262142, 12, 31, 0, 0).is_some());
    assert!(EventDate::new(262143, 1, 1, 0, 0).is_none());
    assert!(EventDate::new(-262143, 1, 1, 0, 0).is_some());
    assert!(EventDate::new(-262144, 12, 31, 0, 0).is_none());
    let d = date(2023, 7, 16, 15, 30);
    assert_eq!(
        (d.year(), d.month(), d.day(), d.hour(), d.minute()),
        (2023, 7, 16, 15, 30)
    );
}

#[test]
fn event_dates_are_read_in_the_bot_format() {
    assert_eq!(
        parse_event_date("2023.07.16 15:00"),
        Some(date(2023, 7, 16, 15, 0))
    );
    assert_eq!(parse_event_date("2030-01-01 15:00"), None);
    assert_eq!(parse_event_date("2023.02.30 15:00"), None);
    assert_eq!(parse_event_date("tomorrow"), None);
}

#[test]
fn dates_are_ordered_by_time() {
    let a = date(2030, 7, 16, 15, 0);
    assert!(date(2030, 7, 16, 15, 1).is_after(&a));
    assert!(date(2031, 1, 1, 0, 0).is_after(&a));
    assert!(!a.is_after(&a));
    assert!(!date(2030, 7, 15, 23, 59).is_after(&a));
}
