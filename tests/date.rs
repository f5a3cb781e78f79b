use people_db::{Date, Person, Sport};

fn ymd(y: i32, m: u32, d: u32) -> Date {
    Date::from_ymd(y, m, d).unwrap()
}

#[test]
fn from_ymd_checks_the_calendar() {
    assert!(Date::from_ymd(2024, 2, 29).is_some());
    assert!(Date::from_ymd(2023, 2, 29).is_none());
    assert!(Date::from_ymd(1900, 2, 29).is_none());
    assert!(Date::from_ymd(2000, 13, 1).is_none());
    assert!(Date::from_ymd(2000, 4, 31).is_none());
}

#[test]
fn text_form() {
    assert_eq!(ymd(2000, 1, 1).to_text(), "2000-01-01");
    assert_eq!(ymd(987, 12, 5).to_text(), "0987-12-05");
    assert_eq!(ymd(12345, 6, 7).to_text(), "+12345-06-07");
    assert_eq!(ymd(-1, 3, 4).to_text(), "-0001-03-04");
}

#[test]
fn parse_reads_the_text_form() {
    assert_eq!(Date::parse("2024-06-15"), Some(ymd(2024, 6, 15)));
    assert_eq!(Date::parse("not-a-date"), None);
    assert_eq!(Date::parse("2023-02-29"), None);
    for d in [ymd(2000, 1, 1), ymd(987, 12, 5), ymd(12345, 6, 7), ymd(-1, 3, 4)] {
        assert_eq!(Date::parse(&d.to_text()), Some(d));
    }
}

#[test]
fn days_between_dates() {
    assert_eq!(ymd(2024, 6, 15).days_since(&ymd(2000, 1, 1)), 8932);
    assert_eq!(ymd(2000, 1, 1).days_since(&ymd(2024, 6, 15)), -8932);
    assert_eq!(ymd(2001, 1, 1).days_since(&ymd(2000, 1, 1)), 366);
}

fn person_born(d: Date) -> Person {
    Person::with_id(0, "A".to_string(), "B".to_string(), d, Sport::Golf)
}

#[test]
fn age_scenario() {
    let p = person_born(ymd(2000, 1, 1));
    assert_eq!(p.age_on(&ymd(2024, 6, 15)), 24);
}

#[test]
fn age_counts_days_over_365() {
    let p = person_born(ymd(2000, 1, 1));
    // 364 days later: not yet one year.
    assert_eq!(p.age_on(&ymd(2000, 12, 30)), 0);
    assert_eq!(p.age_on(&ymd(2000, 12, 31)), 1);
    // A birth date after "today" rounds down.
    assert_eq!(p.age_on(&ymd(1999, 12, 31)), -1);
}

#[test]
fn age_today_is_not_negative_for_past_birth() {
    let p = person_born(ymd(1900, 1, 1));
    assert!(p.get_age() >= 100);
}
