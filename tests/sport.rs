use people_db::Sport;

#[test]
fn catalog_has_fixed_order() {
    let all = Sport::all_known_sports();
    assert_eq!(all.len(), 23);
    assert_eq!(all[0], Sport::Baseball);
    assert_eq!(all[11], Sport::WaterPolo);
    assert_eq!(all[22], Sport::Wrestling);
}

#[test]
fn canonical_names_parse_back() {
    for sport in Sport::all_known_sports() {
        let name = sport.canonical_name();
        assert_eq!(Sport::from_string(&name), sport);
    }
}

#[test]
fn water_polo_spellings() {
    assert_eq!(Sport::from_string("water polo"), Sport::WaterPolo);
    assert_eq!(Sport::from_string("water_polo"), Sport::WaterPolo);
    assert_eq!(Sport::from_string("Water Polo"), Sport::WaterPolo);
}

#[test]
fn parse_trims_and_ignores_case() {
    assert_eq!(Sport::from_string("  GOLF \t"), Sport::Golf);
    assert_eq!(Sport::from_string("sKiInG"), Sport::Skiing);
}

#[test]
fn unknown_text_is_kept_trimmed_and_lower_cased() {
    assert_eq!(
        Sport::from_string("  Kite Surfing "),
        Sport::Other("kite surfing".to_string())
    );
    assert_eq!(Sport::from_string(""), Sport::Other(String::new()));
    assert_eq!(Sport::from_string("ÉPÉE"), Sport::Other("épée".to_string()));
}

#[test]
fn from_key_matches_exact_keys_only() {
    assert_eq!(Sport::from_key("rowing"), Sport::Rowing);
    assert_eq!(Sport::from_key("Rowing"), Sport::Other("Rowing".to_string()));
}

#[test]
fn glyphs() {
    assert_eq!(Sport::Baseball.emoji(), "⚾");
    assert_eq!(Sport::WaterPolo.emoji(), "🤽");
    assert_eq!(Sport::Other("chess".to_string()).emoji(), "");
}

#[test]
fn canonical_name_of_other_is_unchanged() {
    assert_eq!(Sport::Other("Kite Surfing".to_string()).canonical_name(), "Kite Surfing");
    assert_eq!(Sport::WaterPolo.canonical_name(), "Water polo");
}

#[test]
fn unicode_whitespace_is_trimmed() {
    assert_eq!(Sport::from_string("\u{a0}Golf\u{2028}"), Sport::Golf);
    assert_eq!(Sport::from_string("\u{200b}golf"), Sport::Other("\u{200b}golf".to_string()));
}
