use people_db::{
    add_person, delete_person, edit_person, Date, FormatError, IdGenerator, Person, Sport,
    StoreError,
};

fn ymd(y: i32, m: u32, d: u32) -> Date {
    Date::from_ymd(y, m, d).unwrap()
}

fn sample(ids: &mut IdGenerator) -> Vec<Person> {
    vec![
        Person::new(ids, "Ada".to_string(), "Lovelace".to_string(), ymd(1815, 12, 10), Sport::Rowing),
        Person::new(
            ids,
            "Grace, Rear Admiral".to_string(),
            "Hop\"per".to_string(),
            ymd(1906, 12, 9),
            Sport::Other("kite surfing".to_string()),
        ),
        Person::new(ids, "Alan".to_string(), "Turing".to_string(), ymd(1912, 6, 23), Sport::WaterPolo),
    ]
}

#[test]
fn successive_creations_get_distinct_ids() {
    let mut ids = IdGenerator::new();
    let a = Person::new(&mut ids, "A".into(), "B".into(), ymd(2000, 1, 1), Sport::Golf);
    let b = Person::new(&mut ids, "A".into(), "B".into(), ymd(2000, 1, 1), Sport::Golf);
    assert_ne!(a.id, b.id);
    assert_eq!(a.id, 0);
    assert_eq!(b.id, 1);
}

#[test]
fn loads_never_reuse_ids() {
    let mut ids = IdGenerator::new();
    let people = sample(&mut ids);
    let bytes = Person::to_csv_bytes(&people);
    let first = Person::from_csv_bytes(&bytes, &mut ids).unwrap();
    let second = Person::from_csv_bytes(&bytes, &mut ids).unwrap();
    let mut all: Vec<u32> = people.iter().map(|p| p.id).collect();
    all.extend(first.iter().map(|p| p.id));
    all.extend(second.iter().map(|p| p.id));
    let mut sorted = all.clone();
    sorted.sort();
    sorted.dedup();
    assert_eq!(sorted.len(), all.len());
}

#[test]
fn add_appends() {
    let mut ids = IdGenerator::new();
    let mut people = sample(&mut ids);
    let p = Person::new(&mut ids, "New".into(), "One".into(), ymd(2001, 2, 3), Sport::Golf);
    assert!(add_person(&mut people, p.clone()).is_ok());
    assert_eq!(people.len(), 4);
    assert_eq!(people[3], p);
}

#[test]
fn delete_out_of_bounds_leaves_sequence() {
    let mut ids = IdGenerator::new();
    let mut people = sample(&mut ids);
    let before = people.clone();
    assert_eq!(delete_person(&mut people, 3), Err(StoreError::IndexOutOfBounds(3)));
    assert_eq!(people, before);
    assert_eq!(delete_person(&mut people, 1), Ok(()));
    assert_eq!(people, vec![before[0].clone(), before[2].clone()]);
}

#[test]
fn edit_replaces_only_its_position() {
    let mut ids = IdGenerator::new();
    let mut people = sample(&mut ids);
    let before = people.clone();
    let mut changed = people[1].clone();
    changed.first_name = "Grace".to_string();
    assert_eq!(edit_person(&mut people, 1, changed.clone()), Ok(()));
    assert_eq!(people[0], before[0]);
    assert_eq!(people[1], changed);
    assert_eq!(people[2], before[2]);
    assert_eq!(
        edit_person(&mut people, 5, changed),
        Err(StoreError::IndexOutOfBounds(5))
    );
}

#[test]
fn written_file_form() {
    let mut ids = IdGenerator::new();
    let people = vec![Person::new(&mut ids, "Ada".into(), "Lovelace".into(), ymd(1815, 12, 10), Sport::WaterPolo)];
    let bytes = Person::to_csv_bytes(&people);
    assert_eq!(
        String::from_utf8(bytes).unwrap(),
        "first_name,last_name,date_of_birth,favorite_sport\nAda,Lovelace,1815-12-10,Water polo\n"
    );
}

#[test]
fn save_then_load_round_trip() {
    let mut ids = IdGenerator::new();
    let people = sample(&mut ids);
    let bytes = Person::to_csv_bytes(&people);
    let loaded = Person::from_csv_bytes(&bytes, &mut ids).unwrap();
    assert_eq!(loaded.len(), people.len());
    for (a, b) in people.iter().zip(loaded.iter()) {
        assert_eq!(a.first_name, b.first_name);
        assert_eq!(a.last_name, b.last_name);
        assert_eq!(a.date_of_birth, b.date_of_birth);
        assert_eq!(a.favorite_sport.canonical_name(), b.favorite_sport.canonical_name());
        assert_ne!(a.id, b.id);
    }
}

#[test]
fn empty_file_loads_as_empty() {
    let mut ids = IdGenerator::new();
    let bytes = Person::empty_file_bytes();
    assert_eq!(String::from_utf8(bytes.clone()).unwrap(), "first_name,last_name,date_of_birth,favorite_sport\n");
    assert_eq!(Person::from_csv_bytes(&bytes, &mut ids), Ok(vec![]));
    assert_eq!(Person::from_csv_bytes(b"", &mut ids), Ok(vec![]));
}

#[test]
fn bad_date_fails_whole_load() {
    let mut ids = IdGenerator::new();
    let text = "first_name,last_name,date_of_birth,favorite_sport\nAda,Lovelace,1815-12-10,Rowing\nAlan,Turing,not-a-date,Running\n";
    assert_eq!(
        Person::from_csv_bytes(text.as_bytes(), &mut ids),
        Err(StoreError::Format(FormatError::Date { row: 1, text: "not-a-date".to_string() }))
    );
}

#[test]
fn columns_go_by_header_and_ids_are_fresh() {
    let mut ids = IdGenerator::new();
    ids.fresh();
    let text = "id,favorite_sport,date_of_birth,last_name,first_name\n99,  Water Polo ,2000-01-01,Lovelace,Ada\n";
    let loaded = Person::from_csv_bytes(text.as_bytes(), &mut ids).unwrap();
    assert_eq!(loaded.len(), 1);
    assert_eq!(loaded[0].id, 1);
    assert_eq!(loaded[0].first_name, "Ada");
    assert_eq!(loaded[0].last_name, "Lovelace");
    assert_eq!(loaded[0].date_of_birth, ymd(2000, 1, 1));
    assert_eq!(loaded[0].favorite_sport, Sport::WaterPolo);
}

#[test]
fn missing_or_doubled_column_is_a_format_error() {
    let mut ids = IdGenerator::new();
    let missing = "first_name,last_name,favorite_sport\nAda,Lovelace,Rowing\n";
    assert_eq!(
        Person::from_csv_bytes(missing.as_bytes(), &mut ids),
        Err(StoreError::Format(FormatError::Column("date_of_birth".to_string())))
    );
    let doubled = "first_name,first_name,last_name,date_of_birth,favorite_sport\nA,B,C,2000-01-01,Golf\n";
    assert_eq!(
        Person::from_csv_bytes(doubled.as_bytes(), &mut ids),
        Err(StoreError::Format(FormatError::Column("first_name".to_string())))
    );
}

#[test]
fn ragged_rows_are_malformed() {
    let mut ids = IdGenerator::new();
    let text = "first_name,last_name,date_of_birth,favorite_sport\nAda,Lovelace\n";
    assert!(matches!(
        Person::from_csv_bytes(text.as_bytes(), &mut ids),
        Err(StoreError::Format(FormatError::Malformed(_)))
    ));
}

#[test]
fn from_table_reads_rows() {
    let mut ids = IdGenerator::new();
    let header: Vec<String> = ["first_name", "last_name", "date_of_birth", "favorite_sport"]
        .iter()
        .map(|s| s.to_string())
        .collect();
    let rows = vec![vec!["A".to_string(), "B".to_string(), "1999-09-09".to_string(), "CHESS".to_string()]];
    let people = Person::from_table(&header, &rows, &mut ids).unwrap();
    assert_eq!(people[0].favorite_sport, Sport::Other("chess".to_string()));
    assert_eq!(people[0].date_of_birth, ymd(1999, 9, 9));
}

#[test]
fn csv_fields_of_a_record() {
    let p = Person::with_id(7, "A".into(), "B".into(), ymd(999, 1, 2), Sport::Other("Kite".into()));
    assert_eq!(p.csv_fields(), vec!["A", "B", "0999-01-02", "Kite"]);
    assert_eq!(p.get_favorite_sport_emoji(), "");
}
