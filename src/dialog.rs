//! The decisions of the record dialog of a graphical front-end: which date
//! and which sport the dialog's fields give.

use crate::date::{read_date, Date};
use crate::sport::{text_category, Category, Sport, KNOWN_SPORTS};
use crate::text::is_ascii_text;
use vstd::prelude::*;

verus! {

/// Whether the regex crate matches `^\d{4}-\d{2}-\d{2}$` in the text.
pub uninterp spec fn date_shaped(s: Seq<char>) -> bool;

pub open spec fn is_ascii_digit(c: char) -> bool {
    '0' <= c <= '9'
}

/// Four digits, a dash, two digits, a dash, two digits.
pub open spec fn ascii_date_shape(s: Seq<char>) -> bool {
    &&& s.len() == 10
    &&& s[4] == '-' && s[7] == '-'
    &&& forall|i: int| 0 <= i < 10 && i != 4 && i != 7 ==> is_ascii_digit(#[trigger] s[i])
}

/// Relies on `regex::Regex::new` and `Regex::is_match` with the pattern
/// `^\d{4}-\d{2}-\d{2}$`: `\d` is any Unicode decimal digit, so on ASCII
/// text it is `0` to `9`, and the anchors make the whole text match.
#[verifier::external_body]
fn has_date_shape(s: &str) -> (r: bool)
    ensures
        r == date_shaped(s@),
        is_ascii_text(s@) ==> r == ascii_date_shape(s@),
{
    regex::Regex::new(r"^\d{4}-\d{2}-\d{2}$").expect("a valid pattern").is_match(s)
}

/// The birth date that the dialog's date field gives: the date it reads
/// as, where it has the `dddd-dd-dd` shape and reads as a date, else
/// 1900-01-01.
pub fn dialog_birth_date(text: &str) -> (r: Date)
    ensures
        r.wf(),
        date_shaped(text@) && read_date(text@) is Some ==> r@ == read_date(text@)->0,
        !(date_shaped(text@) && read_date(text@) is Some) ==> r == Date::unknown_birth_date_spec(),
{
    if has_date_shape(text) {
        match Date::parse(text) {
            Some(d) => d,
            None => Date::unknown_birth_date(),
        }
    } else {
        Date::unknown_birth_date()
    }
}

/// The sport that the dialog gives: the catalog sport at the chosen
/// position of the sports list, or, where its last entry ("Other") is
/// chosen, the sport that the typed text names; a sport outside the
/// catalog named `Unknown` where nothing, or a position past the list, is
/// chosen.
pub fn dialog_sport(active: Option<u32>, custom: &str) -> (r: Sport)
    ensures
        active is Some && active->0 < KNOWN_SPORTS ==> r@ == Category::Known(active->0 as int),
        active == Some(KNOWN_SPORTS as u32) ==> r@ == text_category(custom@),
        (active is None || active->0 > KNOWN_SPORTS) ==> r@ == Category::Custom("Unknown"@),
{
    match active {
        Some(i) => {
            if i == KNOWN_SPORTS as u32 {
                Sport::from_string(custom)
            } else if (i as usize) < KNOWN_SPORTS {
                Sport::known(i as usize)
            } else {
                Sport::Other("Unknown".to_owned())
            }
        },
        None => Sport::Other("Unknown".to_owned()),
    }
}

} // verus!
