use people_db::{
    build_sport_menu, capitalize_first, custom_sport, sport_labels, table_rows, Date, Person,
    Sport,
};

fn ymd(y: i32, m: u32, d: u32) -> Date {
    Date::from_ymd(y, m, d).unwrap()
}

#[test]
fn capitalize_first_letter() {
    assert_eq!(capitalize_first("water polo"), "Water polo");
    assert_eq!(capitalize_first(""), "");
    assert_eq!(capitalize_first("élan"), "Élan");
    assert_eq!(capitalize_first("9 pins"), "9 pins");
}

#[test]
fn label_of_other_is_its_text() {
    assert_eq!(Sport::Other("Kite Surfing".into()).label(), "Kite Surfing");
    assert_eq!(sport_labels().len(), 23);
    assert_eq!(Sport::WaterPolo.label(), "Water polo");
}

#[test]
fn age_cell_of_a_future_birth_date() {
    let people = vec![Person::with_id(1, "A".into(), "B".into(), ymd(2030, 1, 1), Sport::Golf)];
    let rows = table_rows(&people, &ymd(2024, 6, 15));
    assert_eq!(rows[0].age, "-6");
    assert_eq!(rows[0].favorite_sport, "⛳ Golf");
}

#[test]
fn table_rows_show_records() {
    let people = vec![
        Person::with_id(5, "Ada".into(), "Lovelace".into(), ymd(2000, 1, 1), Sport::Other("chess".into())),
        Person::with_id(6, "Alan".into(), "Turing".into(), ymd(2020, 1, 1), Sport::Golf),
    ];
    let rows = table_rows(&people, &ymd(2024, 6, 15));
    assert_eq!(rows.len(), 2);
    assert_eq!(rows[0].idx, "0");
    assert_eq!(rows[1].idx, "1");
    assert_eq!(rows[0].first_name, "Ada");
    assert_eq!(rows[0].age, "24");
    assert_eq!(rows[1].age, "4");
    assert_eq!(rows[0].favorite_sport, " chess");
    assert!(rows[1].favorite_sport.starts_with("⛳ "));
}

fn labels(names: &[&str]) -> Vec<String> {
    names.iter().map(|s| s.to_string()).collect()
}

fn english_labels() -> Vec<String> {
    labels(&[
        "Baseball", "Soccer", "Basketball", "Tennis", "Golf", "Hockey", "Cricket", "Rugby",
        "Handball", "Football", "Volleyball", "Water polo", "Equestrian", "Swimming", "Running",
        "Cycling", "Skating", "Skateboarding", "Surfing", "Skiing", "Snowboarding", "Rowing",
        "Wrestling",
    ])
}

#[test]
fn menu_is_sorted_with_other_last() {
    let menu = build_sport_menu(&english_labels(), None);
    assert_eq!(menu.options.len(), 24);
    assert_eq!(menu.options[0], "Baseball ⚾");
    assert_eq!(menu.choices[0], Some(Sport::Baseball));
    assert_eq!(menu.options[1], "Basketball 🏀");
    assert_eq!(menu.options[22], "Wrestling 🤼");
    assert_eq!(menu.options[23], "Other...");
    assert_eq!(menu.choices[23], None);
}

#[test]
fn menu_puts_default_first() {
    let menu = build_sport_menu(&english_labels(), Some(&Sport::Tennis));
    assert_eq!(menu.options[0], "Tennis 🎾");
    assert_eq!(menu.choices[0], Some(Sport::Tennis));
    assert_eq!(menu.options[1], "Baseball ⚾");
    assert_eq!(menu.options[23], "Other...");
    let other = build_sport_menu(&english_labels(), Some(&Sport::Other("chess".into())));
    assert_eq!(other.options[0], "Other...");
    assert_eq!(other.options[1], "Baseball ⚾");
    assert_eq!(other.options.len(), 24);
}

#[test]
fn menu_keeps_equal_labels_in_catalog_order() {
    let mut same = english_labels();
    same[3] = "Zz".to_string();
    same[1] = "Zz".to_string();
    let menu = build_sport_menu(&same, None);
    assert_eq!(menu.choices[21], Some(Sport::Soccer));
    assert_eq!(menu.choices[22], Some(Sport::Tennis));
}

#[test]
fn custom_sport_answers() {
    assert_eq!(custom_sport("   "), None);
    assert_eq!(custom_sport(" Kite Surfing\n"), Some(Sport::Other("Kite Surfing".to_string())));
}
