//! A small store of person records: names, a birth date and a favourite
//! sport, kept in memory as an ordered sequence and exchanged with a
//! comma-separated text file.

pub mod cli;
pub mod date;
pub mod delimited;
pub mod dialog;
pub mod display;
pub mod error;
pub mod person;
pub mod shell;
pub mod sport;
pub mod text;

pub use cli::{apply_command, create_person_from_args, Cli, CommandOutcome, Commands};
pub use date::Date;
pub use dialog::{dialog_birth_date, dialog_sport};
pub use display::{
    build_sport_menu, capitalize_first, custom_sport, sport_labels, table_rows, PersonTableRow,
    SportMenu,
};
pub use error::{FormatError, StoreError};
pub use person::{add_person, delete_person, edit_person, IdGenerator, Person};
pub use shell::{
    create_from_answers, edit_from_answers, is_affirmative, parse_shell_line, parse_shell_words,
    Session, ShellAction, ShellCommand,
};
pub use sport::Sport;
