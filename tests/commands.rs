use people_db::{
    apply_command, create_person_from_args, CommandOutcome, Commands, Date, IdGenerator, Person,
    Sport, StoreError,
};

fn ymd(y: i32, m: u32, d: u32) -> Date {
    Date::from_ymd(y, m, d).unwrap()
}

fn two(ids: &mut IdGenerator) -> Vec<Person> {
    vec![
        Person::new(ids, "Ada".into(), "Lovelace".into(), ymd(1815, 12, 10), Sport::Rowing),
        Person::new(ids, "Alan".into(), "Turing".into(), ymd(1912, 6, 23), Sport::Running),
    ]
}

#[test]
fn defaults_of_new_records() {
    let mut ids = IdGenerator::new();
    let p = create_person_from_args(&mut ids, None, None, None, None).unwrap();
    assert_eq!(p.first_name, "Unknown");
    assert_eq!(p.last_name, "Unknown");
    assert_eq!(p.date_of_birth, ymd(1900, 1, 1));
    assert_eq!(p.favorite_sport, Sport::Other("Unknown".to_string()));
}

#[test]
fn new_record_from_given_fields() {
    let mut ids = IdGenerator::new();
    let p = create_person_from_args(
        &mut ids,
        Some("Ada".into()),
        Some("Lovelace".into()),
        Some("1815-12-10".into()),
        Some("Water Polo".into()),
    )
    .unwrap();
    assert_eq!(p.first_name, "Ada");
    assert_eq!(p.date_of_birth, ymd(1815, 12, 10));
    assert_eq!(p.favorite_sport, Sport::WaterPolo);
}

#[test]
fn new_record_with_bad_date_gets_default_date() {
    let mut ids = IdGenerator::new();
    let p = create_person_from_args(&mut ids, Some("Ada".into()), None, Some("1815/12/10".into()), None)
        .unwrap();
    assert_eq!(p.first_name, "Ada");
    assert_eq!(p.date_of_birth, ymd(1900, 1, 1));
    assert_eq!(ids.remaining(), u32::MAX - 1);
}

#[test]
fn new_command_with_bad_date_appends_default_date() {
    let mut ids = IdGenerator::new();
    let mut people = two(&mut ids);
    let cmd = Commands::New {
        first_name: None,
        last_name: None,
        date_of_birth: Some("yesterday".into()),
        favorite_sport: None,
    };
    assert_eq!(apply_command(&mut people, &mut ids, cmd), Ok(CommandOutcome::Save));
    assert_eq!(people.len(), 3);
    assert_eq!(people[2].date_of_birth, ymd(1900, 1, 1));
}

#[test]
fn print_and_list_change_nothing() {
    let mut ids = IdGenerator::new();
    let mut people = two(&mut ids);
    let before = people.clone();
    assert_eq!(apply_command(&mut people, &mut ids, Commands::Print), Ok(CommandOutcome::Print));
    assert_eq!(apply_command(&mut people, &mut ids, Commands::List), Ok(CommandOutcome::Print));
    assert_eq!(people, before);
}

#[test]
fn delete_command() {
    let mut ids = IdGenerator::new();
    let mut people = two(&mut ids);
    assert_eq!(
        apply_command(&mut people, &mut ids, Commands::Delete { index: 2 }),
        Err(StoreError::IndexOutOfBounds(2))
    );
    assert_eq!(
        apply_command(&mut people, &mut ids, Commands::Delete { index: 0 }),
        Ok(CommandOutcome::Save)
    );
    assert_eq!(people.len(), 1);
    assert_eq!(people[0].first_name, "Alan");
}

#[test]
fn edit_command_changes_given_fields() {
    let mut ids = IdGenerator::new();
    let mut people = two(&mut ids);
    let before = people.clone();
    let cmd = Commands::Edit {
        index: 1,
        first_name: None,
        last_name: Some("Mathison Turing".into()),
        date_of_birth: Some("1912-06-24".into()),
        favorite_sport: Some("cycling".into()),
    };
    assert_eq!(apply_command(&mut people, &mut ids, cmd), Ok(CommandOutcome::Save));
    assert_eq!(people[0], before[0]);
    assert_eq!(people[1].id, before[1].id);
    assert_eq!(people[1].first_name, "Alan");
    assert_eq!(people[1].last_name, "Mathison Turing");
    assert_eq!(people[1].date_of_birth, ymd(1912, 6, 24));
    assert_eq!(people[1].favorite_sport, Sport::Cycling);
}

#[test]
fn edit_command_failures_change_nothing() {
    let mut ids = IdGenerator::new();
    let mut people = two(&mut ids);
    let before = people.clone();
    let bad_index = Commands::Edit {
        index: 9,
        first_name: Some("X".into()),
        last_name: None,
        date_of_birth: None,
        favorite_sport: None,
    };
    assert_eq!(apply_command(&mut people, &mut ids, bad_index), Err(StoreError::IndexOutOfBounds(9)));
    let bad_date = Commands::Edit {
        index: 0,
        first_name: Some("X".into()),
        last_name: None,
        date_of_birth: Some("yesterday".into()),
        favorite_sport: None,
    };
    assert_eq!(
        apply_command(&mut people, &mut ids, bad_date),
        Err(StoreError::InvalidDate("yesterday".to_string()))
    );
    assert_eq!(people, before);
}

#[test]
fn new_command_appends() {
    let mut ids = IdGenerator::new();
    let mut people = two(&mut ids);
    let cmd = Commands::New {
        first_name: Some("Grace".into()),
        last_name: None,
        date_of_birth: None,
        favorite_sport: Some("Sailing".into()),
    };
    assert_eq!(apply_command(&mut people, &mut ids, cmd), Ok(CommandOutcome::Save));
    assert_eq!(people.len(), 3);
    assert_eq!(people[2].id, 2);
    assert_eq!(people[2].first_name, "Grace");
    assert_eq!(people[2].last_name, "Unknown");
    assert_eq!(people[2].favorite_sport, Sport::Other("sailing".to_string()));
}
