//! Commands on a file of records, as the command line gives them, and what
//! each does to the records.

use crate::date::{read_date, Date};
use crate::error::StoreError;
use crate::person::{add_person, delete_person, edit_person, IdGenerator, Person};
use crate::sport::{text_category, Category, Sport};
use vstd::prelude::*;

verus! {

/// A command of the one-shot command line.
#[derive(Debug, PartialEq, Eq)]
pub enum Commands {
    /// Show the records.
    Print,
    /// Show the records (another name for `Print`).
    List,
    /// Delete the record at a position.
    Delete { index: usize },
    /// Change the given fields of the record at a position.
    Edit {
        index: usize,
        first_name: Option<String>,
        last_name: Option<String>,
        date_of_birth: Option<String>,
        favorite_sport: Option<String>,
    },
    /// Add a record; fields left out take their defaults.
    New {
        first_name: Option<String>,
        last_name: Option<String>,
        date_of_birth: Option<String>,
        favorite_sport: Option<String>,
    },
}

/// The command line: the file of records and, optionally, a command on it
/// (without one, the interactive shell runs).
#[derive(Debug, PartialEq, Eq)]
pub struct Cli {
    pub file: String,
    pub command: Option<Commands>,
}

/// What is left to do after a command was applied.
#[derive(Debug, PartialEq, Eq, Clone, Copy)]
pub enum CommandOutcome {
    /// Show the records.
    Print,
    /// Write the records back to the file.
    Save,
}

pub open spec fn unknown_text() -> Seq<char> {
    "Unknown"@
}

/// The date that a text reads as, as a `Date`.
pub open spec fn date_of(t: Seq<char>) -> Date {
    let ymd = read_date(t)->0;
    Date { year: ymd.0 as i32, month: ymd.1 as u32, day: ymd.2 as u32 }
}

/// A given date text that does not read as a date.
pub open spec fn bad_date(date_of_birth: Option<String>) -> bool {
    date_of_birth matches Some(t) && read_date(t@) is None
}

/// `p` holds the given fields, and the defaults for those left out: the
/// names `Unknown`, the birth date 1900-01-01 (also where the given date
/// does not read as one) and a sport outside the catalog named `Unknown`.
pub open spec fn built_from_args(
    p: Person,
    first_name: Option<String>,
    last_name: Option<String>,
    date_of_birth: Option<String>,
    favorite_sport: Option<String>,
) -> bool {
    &&& p.first_name@ == (match first_name { Some(f) => f@, None => unknown_text() })
    &&& p.last_name@ == (match last_name { Some(l) => l@, None => unknown_text() })
    &&& p.date_of_birth == (match date_of_birth {
        Some(t) => if read_date(t@) is Some {
            date_of(t@)
        } else {
            Date { year: 1900, month: 1, day: 1 }
        },
        None => Date { year: 1900, month: 1, day: 1 },
    })
    &&& p.wf()
    &&& p.favorite_sport@ == (match favorite_sport {
        Some(s) => text_category(s@),
        None => Category::Custom(unknown_text()),
    })
}

/// `p` is `old` with the given fields put in place.
pub open spec fn edited_with(
    p: Person,
    old: Person,
    first_name: Option<String>,
    last_name: Option<String>,
    date_of_birth: Option<String>,
    favorite_sport: Option<String>,
) -> bool {
    &&& p.id == old.id
    &&& p.first_name == (match first_name { Some(f) => f, None => old.first_name })
    &&& p.last_name == (match last_name { Some(l) => l, None => old.last_name })
    &&& p.date_of_birth == (match date_of_birth { Some(t) => date_of(t@), None => old.date_of_birth })
    &&& (match favorite_sport {
        Some(s) => p.favorite_sport@ == text_category(s@),
        None => p.favorite_sport == old.favorite_sport,
    })
}

/// Reads a given date text; `Err` with the text where it does not read.
fn read_date_arg(t: &String) -> (r: Result<Date, StoreError>)
    ensures
        read_date(t@) is Some ==> r is Ok && r->Ok_0 == date_of(t@) && r->Ok_0.wf(),
        read_date(t@) is None ==> r == Err::<Date, StoreError>(StoreError::InvalidDate(*t)),
{
    match Date::parse(t.as_str()) {
        Some(d) => Ok(d),
        None => Err(StoreError::InvalidDate(t.clone())),
    }
}

/// A new record from the command line's fields, with the next identifier;
/// fields left out, and a date that does not read as one, take their
/// defaults. Fails only when the generator has no identifier left.
pub fn create_person_from_args(
    ids: &mut IdGenerator,
    first_name: Option<String>,
    last_name: Option<String>,
    date_of_birth: Option<String>,
    favorite_sport: Option<String>,
) -> (r: Result<Person, StoreError>)
    ensures
        !old(ids).can_issue(1) ==> r == Err::<Person, StoreError>(StoreError::IdsExhausted),
        r is Err ==> final(ids).next_id() == old(ids).next_id(),
        old(ids).can_issue(1) ==> r is Ok,
        r matches Ok(p) ==> p.id == old(ids).next_id() && final(ids).next_id() == old(ids).next_id() + 1
            && built_from_args(p, first_name, last_name, date_of_birth, favorite_sport),
{
    if ids.remaining() == 0 {
        return Err(StoreError::IdsExhausted);
    }
    let date_of_birth = match &date_of_birth {
        Some(t) => match Date::parse(t.as_str()) {
            Some(d) => d,
            None => Date::unknown_birth_date(),
        },
        None => Date::unknown_birth_date(),
    };
    let first_name = match first_name {
        Some(f) => f,
        None => "Unknown".to_owned(),
    };
    let last_name = match last_name {
        Some(l) => l,
        None => "Unknown".to_owned(),
    };
    let favorite_sport = match &favorite_sport {
        Some(s) => Sport::from_string(s.as_str()),
        None => Sport::Other("Unknown".to_owned()),
    };
    Ok(Person::new(ids, first_name, last_name, date_of_birth, favorite_sport))
}

/// Applies a command to the records and says what is left to do. A command
/// that fails leaves the records as they were. `New` fails only when no
/// identifier is left; `Edit` fails on a position past the end and on a
/// given date that does not read as one.
pub fn apply_command(people: &mut Vec<Person>, ids: &mut IdGenerator, command: Commands) -> (r: Result<CommandOutcome, StoreError>)
    ensures
        r is Err ==> final(people)@ == old(people)@ && final(ids).next_id() == old(ids).next_id(),
        (command is Print || command is List) ==> r == Ok::<CommandOutcome, StoreError>(CommandOutcome::Print)
            && final(people)@ == old(people)@,
        command matches Commands::Delete { index } ==> {
            &&& index < old(people).len() ==> r == Ok::<CommandOutcome, StoreError>(CommandOutcome::Save)
                && final(people)@ == old(people)@.remove(index as int)
            &&& index >= old(people).len() ==> r == Err::<CommandOutcome, StoreError>(StoreError::IndexOutOfBounds(index))
        },
        command matches Commands::Edit { index, first_name, last_name, date_of_birth, favorite_sport } ==> {
            &&& index >= old(people).len() ==> r == Err::<CommandOutcome, StoreError>(StoreError::IndexOutOfBounds(index))
            &&& index < old(people).len() && bad_date(date_of_birth) ==> (r matches Err(StoreError::InvalidDate(t))
                && date_of_birth == Some(t))
            &&& index < old(people).len() && !bad_date(date_of_birth) ==> {
                &&& r == Ok::<CommandOutcome, StoreError>(CommandOutcome::Save)
                &&& final(people).len() == old(people).len()
                &&& edited_with(final(people)[index as int], old(people)[index as int], first_name, last_name, date_of_birth, favorite_sport)
                &&& forall|j: int| 0 <= j < old(people).len() && j != index ==> #[trigger] final(people)[j] == old(people)[j]
            }
        },
        command matches Commands::New { first_name, last_name, date_of_birth, favorite_sport } ==> {
            &&& !old(ids).can_issue(1) ==> r == Err::<CommandOutcome, StoreError>(StoreError::IdsExhausted)
            &&& old(ids).can_issue(1) ==> {
                &&& r == Ok::<CommandOutcome, StoreError>(CommandOutcome::Save)
                &&& final(people).len() == old(people).len() + 1
                &&& final(people)@.drop_last() == old(people)@
                &&& final(people)@.last().id == old(ids).next_id()
                &&& final(ids).next_id() == old(ids).next_id() + 1
                &&& built_from_args(final(people)@.last(), first_name, last_name, date_of_birth, favorite_sport)
            }
        },
{
    match command {
        Commands::Print | Commands::List => Ok(CommandOutcome::Print),
        Commands::Delete { index } => match delete_person(people, index) {
            Ok(()) => Ok(CommandOutcome::Save),
            Err(e) => Err(e),
        },
        Commands::Edit { index, first_name, last_name, date_of_birth, favorite_sport } => {
            if index >= people.len() {
                return Err(StoreError::IndexOutOfBounds(index));
            }
            let mut person = people[index].clone();
            if let Some(f) = first_name {
                person.first_name = f;
            }
            if let Some(l) = last_name {
                person.last_name = l;
            }
            if let Some(t) = &date_of_birth {
                match read_date_arg(t) {
                    Ok(d) => {
                        person.date_of_birth = d;
                    },
                    Err(e) => return Err(e),
                }
            }
            if let Some(s) = &favorite_sport {
                person.favorite_sport = Sport::from_string(s.as_str());
            }
            match edit_person(people, index, person) {
                Ok(()) => Ok(CommandOutcome::Save),
                Err(e) => Err(e),
            }
        },
        Commands::New { first_name, last_name, date_of_birth, favorite_sport } => {
            match create_person_from_args(ids, first_name, last_name, date_of_birth, favorite_sport) {
                Ok(p) => match add_person(people, p) {
                    Ok(()) => Ok(CommandOutcome::Save),
                    Err(e) => Err(e),
                },
                Err(e) => Err(e),
            }
        },
    }
}

} // verus!
