use people_db::{dialog_birth_date, dialog_sport, Date, Sport};

#[test]
fn dialog_date_needs_the_full_shape() {
    assert_eq!(dialog_birth_date("2000-02-29"), Date::from_ymd(2000, 2, 29).unwrap());
    assert_eq!(dialog_birth_date("2000-2-29"), Date::from_ymd(1900, 1, 1).unwrap());
    assert_eq!(dialog_birth_date(" 2000-02-29"), Date::from_ymd(1900, 1, 1).unwrap());
    assert_eq!(dialog_birth_date("2001-02-29"), Date::from_ymd(1900, 1, 1).unwrap());
    assert_eq!(dialog_birth_date(""), Date::from_ymd(1900, 1, 1).unwrap());
}

#[test]
fn dialog_sport_by_position() {
    assert_eq!(dialog_sport(Some(0), "ignored"), Sport::Baseball);
    assert_eq!(dialog_sport(Some(22), ""), Sport::Wrestling);
    assert_eq!(dialog_sport(Some(23), " Water_Polo "), Sport::WaterPolo);
    assert_eq!(dialog_sport(Some(23), "Chess"), Sport::Other("chess".to_string()));
    assert_eq!(dialog_sport(Some(24), "Chess"), Sport::Other("Unknown".to_string()));
    assert_eq!(dialog_sport(None, "Chess"), Sport::Other("Unknown".to_string()));
}
