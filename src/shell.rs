//! The decisions of the interactive shell: what a typed line asks for, and
//! what the answers to its prompts make of a record. Reading lines and
//! printing stay with the caller.

use crate::date::{read_date, Date};
use crate::error::StoreError;
use crate::person::{add_person, delete_person, edit_person, IdGenerator, Person};
use crate::sport::{Category, Sport};
use crate::text::{is_white_space, lowered, same_text, trimmed};
use vstd::prelude::*;

verus! {

/// Length of the run of characters other than whitespace that starts the
/// text.
pub open spec fn word_len(s: Seq<char>) -> nat
    decreases s.len(),
{
    if s.len() == 0 || is_white_space(s[0]) {
        0
    } else {
        1 + word_len(s.drop_first())
    }
}

/// The first word of a text is no longer than the text, and not empty
/// where the text starts with a character other than whitespace.
pub proof fn lemma_word_len(s: Seq<char>)
    ensures
        word_len(s) <= s.len(),
        s.len() > 0 && !is_white_space(s[0]) ==> word_len(s) >= 1,
    decreases s.len(),
{
    if s.len() > 0 && !is_white_space(s[0]) {
        lemma_word_len(s.drop_first());
    }
}

/// The words of a line: its runs of characters other than whitespace, in
/// order.
pub open spec fn words_of(s: Seq<char>) -> Seq<Seq<char>>
    decreases s.len(),
{
    if s.len() == 0 {
        Seq::empty()
    } else if is_white_space(s[0]) {
        words_of(s.drop_first())
    } else {
        proof {
            lemma_word_len(s);
        }
        seq![s.subrange(0, word_len(s) as int)] + words_of(s.subrange(word_len(s) as int, s.len() as int))
    }
}

pub open spec fn is_digit(c: char) -> bool {
    '0' <= c <= '9'
}

/// Value of a text of decimal digits.
pub open spec fn digits_value(s: Seq<char>) -> nat
    decreases s.len(),
{
    if s.len() == 0 {
        0
    } else {
        digits_value(s.drop_last()) * 10 + ((s.last() as u32) - 48) as nat
    }
}

/// The index that a text gives as `usize::from_str` reads it: an optional
/// `+` and at least one decimal digit, with a value that fits a `usize`.
pub open spec fn index_value(s: Seq<char>) -> Option<int> {
    let d = if s.len() > 0 && s[0] == '+' { s.drop_first() } else { s };
    if d.len() > 0 && (forall|i: int| 0 <= i < d.len() ==> is_digit(#[trigger] d[i]))
        && digits_value(d) <= usize::MAX {
        Some(digits_value(d) as int)
    } else {
        None
    }
}

/// A command of the interactive shell.
#[derive(Debug, PartialEq, Eq)]
pub enum ShellCommand {
    /// Leave the shell.
    Exit,
    /// Write the records to the file.
    Save,
    /// Show the records.
    Print,
    /// Delete the record at a position; `None` where no position was given
    /// or it did not read as one.
    Delete(Option<usize>),
    /// Edit the record at a position; `None` as for `Delete`.
    Edit(Option<usize>),
    /// Add a record.
    New,
    /// Show the commands.
    Help,
    /// A word that names no command.
    Unknown(String),
}

pub open spec fn is_one_of(w: Seq<char>, names: Seq<Seq<char>>) -> bool {
    exists|i: int| 0 <= i < names.len() && names[i] == w
}

/// The position that the second word gives, if any.
pub open spec fn index_arg(words: Seq<Seq<char>>) -> Option<usize> {
    if words.len() >= 2 && index_value(words[1]) is Some {
        Some(index_value(words[1])->0 as usize)
    } else {
        None
    }
}

/// The command that a line's words ask for; `None` for a line without words.
pub open spec fn command_of(words: Seq<Seq<char>>) -> Option<ShellCommand> {
    if words.len() == 0 {
        None
    } else {
        let w = words[0];
        if is_one_of(w, seq!["exit"@, "quit"@, "q"@]) {
            Some(ShellCommand::Exit)
        } else if is_one_of(w, seq!["save"@, "write"@, "s"@, "w"@]) {
            Some(ShellCommand::Save)
        } else if is_one_of(w, seq!["print"@, "p"@, "list"@, "l"@]) {
            Some(ShellCommand::Print)
        } else if is_one_of(w, seq!["delete"@, "d"@]) {
            Some(ShellCommand::Delete(index_arg(words)))
        } else if is_one_of(w, seq!["edit"@, "e"@]) {
            Some(ShellCommand::Edit(index_arg(words)))
        } else if is_one_of(w, seq!["new"@, "n"@]) {
            Some(ShellCommand::New)
        } else if is_one_of(w, seq!["help"@, "h"@]) {
            Some(ShellCommand::Help)
        } else {
            None
        }
    }
}

/// Relies on `str::split_whitespace`: the line's runs of characters
/// without Unicode's White_Space property, as texts.
#[verifier::external_body]
fn split_words(line: &str) -> (r: Vec<String>)
    ensures
        r.deep_view() == words_of(line@),
{
    line.split_whitespace().map(String::from).collect()
}

/// Relies on `usize::from_str`: an optional `+` and decimal digits whose
/// value fits, else an error.
#[verifier::external_body]
fn parse_usize(s: &str) -> (r: Option<usize>)
    ensures
        r is Some <==> index_value(s@) is Some,
        r is Some ==> r->0 == index_value(s@)->0,
{
    s.parse::<usize>().ok()
}

/// Whether `w` is one of `names`.
fn word_is_one_of(w: &str, names: &[&str]) -> (r: bool)
    ensures
        r == exists|i: int| 0 <= i < names@.len() && (#[trigger] names@[i])@ == w@,
{
    let mut i: usize = 0;
    while i < names.len()
        invariant
            i <= names@.len(),
            forall|j: int| 0 <= j < i ==> (#[trigger] names@[j])@ != w@,
        decreases names@.len() - i,
    {
        if same_text(w, names[i]) {
            return true;
        }
        i = i + 1;
    }
    false
}

/// The command that the words of a line ask for: the first word names it
/// (`exit`/`quit`/`q`, `save`/`write`/`s`/`w`, `print`/`p`/`list`/`l`,
/// `delete`/`d`, `edit`/`e`, `new`/`n`, `help`/`h`), the second gives the
/// position for `delete` and `edit`. `None` for a line without words.
pub fn parse_shell_words(words: &Vec<String>) -> (r: Option<ShellCommand>)
    ensures
        words.len() == 0 ==> r is None,
        command_of(words.deep_view()) matches Some(c) ==> r == Some(c),
        words.len() > 0 && command_of(words.deep_view()) is None ==> (r matches Some(ShellCommand::Unknown(u))
            && u@ == words[0]@),
{
    let ghost ws = words.deep_view();
    if words.len() == 0 {
        return None;
    }
    let w = words[0].as_str();
    assert(ws[0] == w@);
    let index = if words.len() >= 2 {
        assert(ws[1] == words[1]@);
        parse_usize(words[1].as_str())
    } else {
        None
    };
    assert(index == index_arg(ws));
    let exit_names: [&str; 3] = ["exit", "quit", "q"];
    let save_names: [&str; 4] = ["save", "write", "s", "w"];
    let print_names: [&str; 4] = ["print", "p", "list", "l"];
    let delete_names: [&str; 2] = ["delete", "d"];
    let edit_names: [&str; 2] = ["edit", "e"];
    let new_names: [&str; 2] = ["new", "n"];
    let help_names: [&str; 2] = ["help", "h"];
    if word_is_one_of(w, &exit_names) {
        Some(ShellCommand::Exit)
    } else if word_is_one_of(w, &save_names) {
        Some(ShellCommand::Save)
    } else if word_is_one_of(w, &print_names) {
        Some(ShellCommand::Print)
    } else if word_is_one_of(w, &delete_names) {
        Some(ShellCommand::Delete(index))
    } else if word_is_one_of(w, &edit_names) {
        Some(ShellCommand::Edit(index))
    } else if word_is_one_of(w, &new_names) {
        Some(ShellCommand::New)
    } else if word_is_one_of(w, &help_names) {
        Some(ShellCommand::Help)
    } else {
        Some(ShellCommand::Unknown(words[0].clone()))
    }
}

/// The command that a typed line asks for, as `parse_shell_words` reads
/// its words.
pub fn parse_shell_line(line: &str) -> (r: Option<ShellCommand>)
    ensures
        words_of(line@).len() == 0 ==> r is None,
        command_of(words_of(line@)) matches Some(c) ==> r == Some(c),
        words_of(line@).len() > 0 && command_of(words_of(line@)) is None ==> (r matches Some(
            ShellCommand::Unknown(u),
        ) && u@ == words_of(line@)[0]),
{
    let words = split_words(line);
    parse_shell_words(&words)
}

/// The answer, trimmed and in lower case, is `y` or `yes`.
pub open spec fn affirmative(answer: Seq<char>) -> bool {
    lowered(trimmed(answer)) == "y"@ || lowered(trimmed(answer)) == "yes"@
}

/// Whether an answer to a yes/no question says yes.
pub fn is_affirmative(answer: &str) -> (r: bool)
    ensures
        r == affirmative(answer@),
{
    let a = crate::text::to_lower(crate::text::trim(answer));
    same_text(a.as_str(), "y") || same_text(a.as_str(), "yes")
}

/// A typed answer, trimmed; empty where the answer keeps the old value.
pub open spec fn answer_of(input: Seq<char>) -> Seq<char> {
    trimmed(input)
}

/// `p` is `old` changed by the answers to the edit prompts: a name answer
/// that is blank after trimming keeps the old name, any other replaces it
/// with the trimmed text; a date answer replaces the date where it reads
/// as one; the sport, where one was chosen, replaces the old one.
pub open spec fn edited_by_answers(
    p: Person,
    old: Person,
    first: Seq<char>,
    last: Seq<char>,
    date: Seq<char>,
    sport: Option<Sport>,
) -> bool {
    &&& p.id == old.id
    &&& p.first_name@ == if answer_of(first).len() == 0 { old.first_name@ } else { answer_of(first) }
    &&& p.last_name@ == if answer_of(last).len() == 0 { old.last_name@ } else { answer_of(last) }
    &&& p.date_of_birth == if answer_of(date).len() != 0 && read_date(answer_of(date)) is Some {
        crate::cli::date_of(answer_of(date))
    } else {
        old.date_of_birth
    }
    &&& p.favorite_sport == match sport {
        Some(s) => s,
        None => old.favorite_sport,
    }
}

/// A date answer that was given and does not read as a date.
pub open spec fn date_answer_refused(date: Seq<char>) -> bool {
    answer_of(date).len() != 0 && read_date(answer_of(date)) is None
}

/// Applies the answers to the edit prompts to a copy of `old`; also says
/// whether a date answer was refused (the old date is then kept).
pub fn edit_from_answers(old: &Person, first: &str, last: &str, date: &str, sport: Option<Sport>) -> (r: (Person, bool))
    requires
        old.wf(),
    ensures
        edited_by_answers(r.0, *old, first@, last@, date@, sport),
        r.0.wf(),
        r.1 == date_answer_refused(date@),
{
    let mut p = old.clone();
    let f = crate::text::trim(first);
    if f.unicode_len() != 0 {
        p.first_name = f.to_owned();
    }
    let l = crate::text::trim(last);
    if l.unicode_len() != 0 {
        p.last_name = l.to_owned();
    }
    let d = crate::text::trim(date);
    let mut refused = false;
    if d.unicode_len() != 0 {
        match Date::parse(d) {
            Some(parsed) => {
                p.date_of_birth = parsed;
            },
            None => {
                refused = true;
            },
        }
    }
    if let Some(s) = sport {
        p.favorite_sport = s;
    }
    (p, refused)
}

/// `p` is the record that the answers to the new-record prompts give: the
/// trimmed names, the date where it reads as one (else 1900-01-01), and the
/// chosen sport (else a sport outside the catalog named `Unknown`).
pub open spec fn created_by_answers(
    p: Person,
    first: Seq<char>,
    last: Seq<char>,
    date: Seq<char>,
    sport: Option<Sport>,
) -> bool {
    &&& p.first_name@ == answer_of(first)
    &&& p.last_name@ == answer_of(last)
    &&& p.date_of_birth == if read_date(answer_of(date)) is Some {
        crate::cli::date_of(answer_of(date))
    } else {
        Date { year: 1900, month: 1, day: 1 }
    }
    &&& p.wf()
    &&& match sport {
        Some(s) => p.favorite_sport == s,
        None => p.favorite_sport@ == Category::Custom("Unknown"@),
    }
}

/// A new record from the answers to the new-record prompts, with the next
/// identifier; also says whether the date answer was refused (1900-01-01
/// is then used).
pub fn create_from_answers(
    ids: &mut IdGenerator,
    first: &str,
    last: &str,
    date: &str,
    sport: Option<Sport>,
) -> (r: Result<(Person, bool), StoreError>)
    ensures
        !old(ids).can_issue(1) ==> r == Err::<(Person, bool), StoreError>(StoreError::IdsExhausted)
            && final(ids).next_id() == old(ids).next_id(),
        old(ids).can_issue(1) ==> r is Ok,
        r matches Ok((p, refused)) ==> {
            &&& p.id == old(ids).next_id()
            &&& final(ids).next_id() == old(ids).next_id() + 1
            &&& created_by_answers(p, first@, last@, date@, sport)
            &&& refused == (read_date(answer_of(date@)) is None)
        },
{
    if ids.remaining() == 0 {
        return Err(StoreError::IdsExhausted);
    }
    let first_name = crate::text::trim(first).to_owned();
    let last_name = crate::text::trim(last).to_owned();
    let (date_of_birth, refused) = match Date::parse(crate::text::trim(date)) {
        Some(d) => (d, false),
        None => (Date::unknown_birth_date(), true),
    };
    let favorite_sport = match sport {
        Some(s) => s,
        None => Sport::Other("Unknown".to_owned()),
    };
    Ok((Person::new(ids, first_name, last_name, date_of_birth, favorite_sport), refused))
}

/// What the shell does next, after a command was decided on.
#[derive(Debug, PartialEq, Eq)]
pub enum ShellAction {
    /// Leave the shell.
    Quit,
    /// Ask whether to leave although there are unsaved changes; the answer
    /// goes to `Session::confirm_quit`.
    ConfirmQuit,
    /// Write the records to the file; on success, call `Session::saved`.
    Save,
    /// Show the records.
    Print,
    /// The record at this position was deleted.
    Deleted(usize),
    /// The position given is past the end of the records.
    OutOfBounds,
    /// `delete` came without a position.
    DeleteUsage,
    /// `edit` came without a position.
    EditUsage,
    /// Ask for the changes to the record at this position, then call
    /// `Session::finish_edit`.
    BeginEdit(usize),
    /// Ask for a new record, then call `Session::finish_new`.
    BeginNew,
    /// Show the commands.
    Help,
    /// The word names no command.
    Unknown(String),
}

/// The state of a shell session: whether the records hold changes that
/// were not saved yet.
#[derive(Debug, PartialEq, Eq)]
pub struct Session {
    pub unsaved: bool,
}

impl Session {
    /// A session on records just read: nothing unsaved.
    pub fn new() -> (r: Session)
        ensures
            !r.unsaved,
    {
        Session { unsaved: false }
    }

    /// The prompt, which shows whether there are unsaved changes.
    pub fn prompt(&self) -> (r: &'static str)
        ensures
            self.unsaved ==> r@ == "> (unsaved) "@,
            !self.unsaved ==> r@ == "> "@,
    {
        if self.unsaved {
            "> (unsaved) "
        } else {
            "> "
        }
    }

    /// Decides what a command does. A deletion is carried out here; an
    /// edit or a new record is asked for by the caller and finished with
    /// `finish_edit` or `finish_new`.
    pub fn handle(&mut self, command: ShellCommand, people: &mut Vec<Person>) -> (r: ShellAction)
        ensures
            command is Exit && old(self).unsaved ==> r == ShellAction::ConfirmQuit,
            command is Exit && !old(self).unsaved ==> r == ShellAction::Quit,
            command is Save ==> r == ShellAction::Save,
            command is Print ==> r == ShellAction::Print,
            command is New ==> r == ShellAction::BeginNew,
            command is Help ==> r == ShellAction::Help,
            command matches ShellCommand::Unknown(w) ==> r == ShellAction::Unknown(w),
            command == ShellCommand::Delete(None) ==> r == ShellAction::DeleteUsage,
            command == ShellCommand::Edit(None) ==> r == ShellAction::EditUsage,
            command matches ShellCommand::Delete(Some(i)) ==> {
                &&& i < old(people).len() ==> r == ShellAction::Deleted(i) && final(self).unsaved
                    && final(people)@ == old(people)@.remove(i as int)
                &&& i >= old(people).len() ==> r == ShellAction::OutOfBounds
            },
            command matches ShellCommand::Edit(Some(i)) ==> {
                &&& i < old(people).len() ==> r == ShellAction::BeginEdit(i)
                &&& i >= old(people).len() ==> r == ShellAction::OutOfBounds
            },
            !(r is Deleted) ==> final(people)@ == old(people)@ && *final(self) == *old(self),
    {
        match command {
            ShellCommand::Exit => {
                if self.unsaved {
                    ShellAction::ConfirmQuit
                } else {
                    ShellAction::Quit
                }
            },
            ShellCommand::Save => ShellAction::Save,
            ShellCommand::Print => ShellAction::Print,
            ShellCommand::Delete(Some(i)) => match delete_person(people, i) {
                Ok(()) => {
                    self.unsaved = true;
                    ShellAction::Deleted(i)
                },
                Err(_) => ShellAction::OutOfBounds,
            },
            ShellCommand::Delete(None) => ShellAction::DeleteUsage,
            ShellCommand::Edit(Some(i)) => {
                if i < people.len() {
                    ShellAction::BeginEdit(i)
                } else {
                    ShellAction::OutOfBounds
                }
            },
            ShellCommand::Edit(None) => ShellAction::EditUsage,
            ShellCommand::New => ShellAction::BeginNew,
            ShellCommand::Help => ShellAction::Help,
            ShellCommand::Unknown(w) => ShellAction::Unknown(w),
        }
    }

    /// Whether to leave, given the answer to the question of `ConfirmQuit`.
    pub fn confirm_quit(&self, answer: &str) -> (r: bool)
        ensures
            r == affirmative(answer@),
    {
        is_affirmative(answer)
    }

    /// The records were written to the file.
    pub fn saved(&mut self)
        ensures
            !final(self).unsaved,
    {
        self.unsaved = false;
    }

    /// Puts the edited record in place; the records then hold unsaved
    /// changes.
    pub fn finish_edit(&mut self, people: &mut Vec<Person>, index: usize, person: Person) -> (r: Result<(), StoreError>)
        ensures
            index < old(people).len() ==> r is Ok && final(people)@ == old(people)@.update(index as int, person)
                && final(self).unsaved,
            index >= old(people).len() ==> r == Err::<(), StoreError>(StoreError::IndexOutOfBounds(index))
                && final(people)@ == old(people)@ && *final(self) == *old(self),
    {
        let r = edit_person(people, index, person);
        if r.is_ok() {
            self.unsaved = true;
        }
        r
    }

    /// Appends the new record; the records then hold unsaved changes.
    pub fn finish_new(&mut self, people: &mut Vec<Person>, person: Person)
        ensures
            final(people)@ == old(people)@.push(person),
            final(self).unsaved,
    {
        let _ = add_person(people, person);
        self.unsaved = true;
    }
}

} // verus!
