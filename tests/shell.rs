use people_db::{
    create_from_answers, edit_from_answers, is_affirmative, parse_shell_line, Date, IdGenerator,
    Person, ShellCommand, Sport,
};

fn ymd(y: i32, m: u32, d: u32) -> Date {
    Date::from_ymd(y, m, d).unwrap()
}

#[test]
fn shell_lines() {
    assert_eq!(parse_shell_line("   "), None);
    assert_eq!(parse_shell_line("q"), Some(ShellCommand::Exit));
    assert_eq!(parse_shell_line("  quit now"), Some(ShellCommand::Exit));
    assert_eq!(parse_shell_line("w"), Some(ShellCommand::Save));
    assert_eq!(parse_shell_line("p"), Some(ShellCommand::Print));
    assert_eq!(parse_shell_line("delete 3"), Some(ShellCommand::Delete(Some(3))));
    assert_eq!(parse_shell_line("d\t+12"), Some(ShellCommand::Delete(Some(12))));
    assert_eq!(parse_shell_line("d x"), Some(ShellCommand::Delete(None)));
    assert_eq!(parse_shell_line("d -1"), Some(ShellCommand::Delete(None)));
    assert_eq!(parse_shell_line("edit"), Some(ShellCommand::Edit(None)));
    assert_eq!(parse_shell_line("e 0"), Some(ShellCommand::Edit(Some(0))));
    assert_eq!(parse_shell_line("n"), Some(ShellCommand::New));
    assert_eq!(parse_shell_line("help"), Some(ShellCommand::Help));
    assert_eq!(parse_shell_line("Print"), Some(ShellCommand::Unknown("Print".to_string())));
}

#[test]
fn yes_answers() {
    assert!(is_affirmative("y\n"));
    assert!(is_affirmative("  YES "));
    assert!(!is_affirmative("no"));
    assert!(!is_affirmative(""));
}

#[test]
fn edit_answers() {
    let old = Person::with_id(4, "Ada".into(), "Lovelace".into(), ymd(1815, 12, 10), Sport::Rowing);
    let (p, refused) = edit_from_answers(&old, "  ", " King ", "1815-12-11\n", None);
    assert!(!refused);
    assert_eq!(p.id, 4);
    assert_eq!(p.first_name, "Ada");
    assert_eq!(p.last_name, "King");
    assert_eq!(p.date_of_birth, ymd(1815, 12, 11));
    assert_eq!(p.favorite_sport, Sport::Rowing);
    let (q, refused) = edit_from_answers(&old, "", "", "soon", Some(Sport::Golf));
    assert!(refused);
    assert_eq!(q.date_of_birth, old.date_of_birth);
    assert_eq!(q.favorite_sport, Sport::Golf);
}

#[test]
fn new_record_answers() {
    let mut ids = IdGenerator::new();
    let (p, refused) = create_from_answers(&mut ids, " Ada\n", "Lovelace", "oops", None).unwrap();
    assert!(refused);
    assert_eq!(p.id, 0);
    assert_eq!(p.first_name, "Ada");
    assert_eq!(p.date_of_birth, ymd(1900, 1, 1));
    assert_eq!(p.favorite_sport, Sport::Other("Unknown".to_string()));
    let (q, refused) = create_from_answers(&mut ids, "A", "B", " 2000-02-29 ", Some(Sport::Surfing)).unwrap();
    assert!(!refused);
    assert_eq!(q.id, 1);
    assert_eq!(q.date_of_birth, ymd(2000, 2, 29));
    assert_eq!(q.favorite_sport, Sport::Surfing);
}

#[test]
fn session_decisions() {
    let mut people = vec![
        Person::with_id(0, "A".into(), "B".into(), ymd(2000, 1, 1), Sport::Golf),
        Person::with_id(1, "C".into(), "D".into(), ymd(2001, 1, 1), Sport::Rowing),
    ];
    let mut session = people_db::Session::new();
    assert_eq!(session.prompt(), "> ");
    assert_eq!(session.handle(ShellCommand::Exit, &mut people), people_db::ShellAction::Quit);
    assert_eq!(session.handle(ShellCommand::Edit(Some(2)), &mut people), people_db::ShellAction::OutOfBounds);
    assert_eq!(session.handle(ShellCommand::Edit(Some(1)), &mut people), people_db::ShellAction::BeginEdit(1));
    assert_eq!(session.handle(ShellCommand::Delete(None), &mut people), people_db::ShellAction::DeleteUsage);
    assert_eq!(session.handle(ShellCommand::Delete(Some(5)), &mut people), people_db::ShellAction::OutOfBounds);
    assert!(!session.unsaved);
    assert_eq!(session.handle(ShellCommand::Delete(Some(0)), &mut people), people_db::ShellAction::Deleted(0));
    assert_eq!(people.len(), 1);
    assert!(session.unsaved);
    assert_eq!(session.prompt(), "> (unsaved) ");
    assert_eq!(session.handle(ShellCommand::Exit, &mut people), people_db::ShellAction::ConfirmQuit);
    assert!(session.confirm_quit(" Yes\n"));
    assert!(!session.confirm_quit("n"));
    session.saved();
    assert!(!session.unsaved);
    let p = Person::with_id(9, "E".into(), "F".into(), ymd(2002, 1, 1), Sport::Golf);
    assert_eq!(session.finish_edit(&mut people, 3, p.clone()), Err(people_db::StoreError::IndexOutOfBounds(3)));
    assert!(!session.unsaved);
    assert_eq!(session.finish_edit(&mut people, 0, p.clone()), Ok(()));
    assert_eq!(people[0], p);
    assert!(session.unsaved);
    session.saved();
    session.finish_new(&mut people, p.clone());
    assert_eq!(people.len(), 2);
    assert!(session.unsaved);
}

#[test]
fn unicode_whitespace_separates_words() {
    assert_eq!(parse_shell_line("d\u{3000}4"), Some(ShellCommand::Delete(Some(4))));
    assert_eq!(parse_shell_line("\u{a0}e\u{2009}\u{2009}7\u{85}"), Some(ShellCommand::Edit(Some(7))));
}
