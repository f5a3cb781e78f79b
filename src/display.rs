//! How records and sports are shown: localized sport labels, table rows,
//! and the menu of sports that the shell offers.

use crate::date::{decimal, Date};
use crate::person::{age_in_years, Person};
use crate::sport::{canonical_text, glyph, known_glyph, known_name_text, Category, Sport, KNOWN_SPORTS};
use crate::text::trimmed;
use vstd::prelude::*;

verus! {

/// What `char::to_uppercase` makes of a character, as a text.
pub uninterp spec fn upper_of(c: char) -> Seq<char>;

/// The character as a text in upper case: on ASCII, `a` to `z` become `A`
/// to `Z` and the others stay.
pub open spec fn upper_text(c: char) -> Seq<char> {
    if 'a' <= c <= 'z' {
        seq![((c as u32) - 32) as char]
    } else if (c as u32) < 128 {
        seq![c]
    } else {
        upper_of(c)
    }
}

/// The text with its first character in upper case.
pub open spec fn capitalized(s: Seq<char>) -> Seq<char> {
    if s.len() == 0 {
        s
    } else {
        upper_text(s[0]) + s.drop_first()
    }
}

/// Decimal text of a signed number.
pub open spec fn signed_decimal(n: int) -> Seq<char> {
    if n < 0 {
        seq!['-'] + decimal((-n) as nat)
    } else {
        decimal(n as nat)
    }
}

/// Relies on `gettextrs::gettext`: the message catalog's text for `msgid` in the
/// current locale, or `msgid` itself where there is none. The result
/// depends on the locale, so nothing is stated of it. It panics on a
/// `msgid` that holds a NUL character, and where the catalog holds text
/// that is not UTF-8.
#[verifier::external_body]
fn localize(msgid: &str) -> (r: String)
    requires
        forall|i: int| 0 <= i < msgid@.len() ==> #[trigger] msgid@[i] != '\0',
{
    gettextrs::gettext(msgid)
}

/// Relies on `char::to_uppercase`, collected into a text: on ASCII it maps
/// `a` to `z` to `A` to `Z` and keeps the other characters.
#[verifier::external_body]
fn uppercase_char(c: char) -> (r: String)
    ensures
        'a' <= c <= 'z' ==> r@ == seq![((c as u32) - 32) as char],
        !('a' <= c <= 'z') && (c as u32) < 128 ==> r@ == seq![c],
        (c as u32) >= 128 ==> r@ == upper_of(c),
{
    c.to_uppercase().collect()
}

/// Relies on `usize`'s `to_string`: its decimal digits.
#[verifier::external_body]
fn usize_text(n: usize) -> (r: String)
    ensures
        r@ == decimal(n as nat),
{
    n.to_string()
}

/// Relies on `i64`'s `to_string`: a `-` for negative numbers, then the
/// decimal digits of the magnitude.
#[verifier::external_body]
fn i64_text(n: i64) -> (r: String)
    ensures
        r@ == signed_decimal(n as int),
{
    n.to_string()
}

impl Sport {
    /// The label shown for the sport: a catalog sport's name localized for
    /// the current locale, or a sport's own text, unchanged.
    /// Panics where the locale's message catalog holds text that is not
    /// UTF-8.
    pub fn label(&self) -> (r: String)
        ensures
            self is Other ==> r@ == canonical_text(self@),
    {
        match self {
            Sport::Other(t) => t.clone(),
            _ => {
                let i = self.position();
                proof {
                    crate::sport::lemma_known_name_text(i as int);
                }
                localize(known_name_text(i))
            },
        }
    }
}

/// The labels of the catalog's sports, in catalog order. Panics as
/// `Sport::label` does.
pub fn sport_labels() -> (r: Vec<String>)
    ensures
        r.len() == KNOWN_SPORTS,
{
    let mut r: Vec<String> = Vec::new();
    let mut i: usize = 0;
    while i < KNOWN_SPORTS
        invariant
            i <= KNOWN_SPORTS,
            r.len() == i,
        decreases KNOWN_SPORTS - i,
    {
        r.push(Sport::known(i).label());
        i = i + 1;
    }
    r
}

/// The text with its first character in upper case.
pub fn capitalize_first(s: &str) -> (r: String)
    ensures
        r@ == capitalized(s@),
{
    let n = s.unicode_len();
    if n == 0 {
        return String::new();
    }
    let first = s.get_char(0);
    let rest = s.substring_char(1, n);
    let r = uppercase_char(first).concat(rest);
    assert(r@ == capitalized(s@));
    r
}

/// A row of the table of records, every cell as text.
#[derive(Debug, PartialEq, Eq)]
pub struct PersonTableRow {
    pub idx: String,
    pub first_name: String,
    pub last_name: String,
    pub age: String,
    pub favorite_sport: String,
}

/// The cell of a sport: its glyph, a space, then its label (for a sport
/// outside the catalog, its own text).
pub open spec fn sport_cell(cell: Seq<char>, s: Category) -> bool {
    &&& cell.len() >= glyph(s).len() + 1
    &&& cell.subrange(0, glyph(s).len() + 1int) == glyph(s) + seq![' ']
    &&& s is Custom ==> cell == glyph(s) + seq![' '] + canonical_text(s)
}

/// The sport's cell text. Panics as `Sport::label` does.
pub fn sport_cell_text(s: &Sport) -> (r: String)
    ensures
        sport_cell(r@, s@),
{
    let glyph_text = s.emoji();
    let label = s.label();
    let r = glyph_text.to_owned().concat(" ").concat(label.as_str());
    proof {
        reveal_strlit(" ");
        assert(r@ =~= glyph(s@) + seq![' '] + label@);
        assert(r@.subrange(0, glyph(s@).len() + 1int) =~= glyph(s@) + seq![' ']);
    }
    r
}

/// The table rows for the records, in sequence order: position, names,
/// age on `today` and sport. Panics as `Sport::label` does.
pub fn table_rows(people: &Vec<Person>, today: &Date) -> (r: Vec<PersonTableRow>)
    requires
        forall|i: int| 0 <= i < people.len() ==> (#[trigger] people[i]).wf(),
        today.wf(),
    ensures
        r.len() == people.len(),
        forall|i: int| #![trigger r[i]] 0 <= i < people.len() ==> {
            &&& r[i].idx@ == decimal(i as nat)
            &&& r[i].first_name == people[i].first_name
            &&& r[i].last_name == people[i].last_name
            &&& r[i].age@ == signed_decimal(age_in_years(people[i].date_of_birth, *today))
            &&& sport_cell(r[i].favorite_sport@, people[i].favorite_sport@)
        },
{
    let mut r: Vec<PersonTableRow> = Vec::new();
    let mut i: usize = 0;
    while i < people.len()
        invariant
            i <= people.len(),
            r.len() == i,
            forall|k: int| 0 <= k < people.len() ==> (#[trigger] people[k]).wf(),
            today.wf(),
            forall|k: int| #![trigger r[k]] 0 <= k < i ==> {
                &&& r[k].idx@ == decimal(k as nat)
                &&& r[k].first_name == people[k].first_name
                &&& r[k].last_name == people[k].last_name
                &&& r[k].age@ == signed_decimal(age_in_years(people[k].date_of_birth, *today))
                &&& sport_cell(r[k].favorite_sport@, people[k].favorite_sport@)
            },
        decreases people.len() - i,
    {
        let p = &people[i];
        let row = PersonTableRow {
            idx: usize_text(i),
            first_name: p.first_name.clone(),
            last_name: p.last_name.clone(),
            age: i64_text(p.age_on(today)),
            favorite_sport: sport_cell_text(&p.favorite_sport),
        };
        r.push(row);
        i = i + 1;
    }
    r
}

/// `a` comes before `b` in the order of `str`'s `Ord`: by characters, a
/// prefix first.
pub open spec fn text_lt(a: Seq<char>, b: Seq<char>) -> bool
    decreases a.len(),
{
    if a.len() == 0 {
        b.len() > 0
    } else if b.len() == 0 {
        false
    } else if a[0] != b[0] {
        (a[0] as u32) < (b[0] as u32)
    } else {
        text_lt(a.drop_first(), b.drop_first())
    }
}

/// Catalog position `i` comes before `j` when its label does, or when the
/// labels are equal and `i < j`.
pub open spec fn label_before(labels: Seq<Seq<char>>, i: int, j: int) -> bool {
    text_lt(labels[i], labels[j]) || (labels[i] == labels[j] && i < j)
}

/// `ord` lists the positions of `labels` in the order of their labels,
/// equal labels in position order.
pub open spec fn is_label_order(labels: Seq<Seq<char>>, ord: Seq<int>) -> bool {
    &&& ord.len() == labels.len()
    &&& forall|k: int| 0 <= k < ord.len() ==> 0 <= #[trigger] ord[k] < labels.len()
    &&& forall|k: int, l: int| 0 <= k < l < ord.len() ==> label_before(labels, #[trigger] ord[k], #[trigger] ord[l])
}

/// Relies on `slice::sort_by`, a stable sort, with `str`'s order on the
/// labels: positions listed in increasing order come out sorted by label,
/// equal labels keeping their (increasing) order.
#[verifier::external_body]
fn sort_by_label(positions: &mut Vec<usize>, labels: &Vec<String>)
    requires
        old(positions).len() == labels.len(),
        forall|i: int| 0 <= i < old(positions).len() ==> #[trigger] old(positions)[i] == i,
    ensures
        is_label_order(labels.deep_view(), final(positions)@.map_values(|i: usize| i as int)),
{
    positions.sort_by(|a, b| labels[*a].cmp(&labels[*b]));
}

/// The positions `0..labels.len()` sorted by label, equal labels in
/// position order.
fn positions_by_label(labels: &Vec<String>) -> (r: Vec<usize>)
    ensures
        is_label_order(labels.deep_view(), r@.map_values(|i: usize| i as int)),
{
    let mut r: Vec<usize> = Vec::new();
    let mut i: usize = 0;
    while i < labels.len()
        invariant
            i <= labels.len(),
            r.len() == i,
            forall|j: int| 0 <= j < i ==> #[trigger] r[j] == j,
        decreases labels.len() - i,
    {
        r.push(i);
        i = i + 1;
    }
    sort_by_label(&mut r, labels);
    r
}

proof fn lemma_text_lt_irreflexive(a: Seq<char>)
    ensures
        !text_lt(a, a),
    decreases a.len(),
{
    if a.len() > 0 {
        lemma_text_lt_irreflexive(a.drop_first());
    }
}

pub open spec fn as_positions(s: Seq<Option<usize>>) -> Seq<Option<int>> {
    s.map_values(|o: Option<usize>| match o {
        Some(i) => Some(i as int),
        None => None,
    })
}

/// The text of the menu entry that stands for choosing another sport.
pub open spec fn other_option() -> Seq<char> {
    "Other..."@
}

/// The menu entry of the catalog's sport at position `i`: its label with
/// the first character in upper case, a space and its glyph.
pub open spec fn option_text(labels: Seq<Seq<char>>, i: int) -> Seq<char> {
    capitalized(labels[i]) + seq![' '] + known_glyph(i)
}

/// The menu's entries as catalog positions (`None` for "Other..."): the
/// sports in label order and "Other..." last, then the entry of the
/// default moved to the front.
pub open spec fn menu_positions(ord: Seq<int>, default: Option<Category>) -> Seq<Option<int>> {
    let base = ord.map_values(|i: int| Some(i)).push(None);
    match default {
        None => base,
        Some(Category::Custom(_)) => base.remove(ord.len() as int).insert(0, None),
        Some(Category::Known(d)) => if exists|p: int| 0 <= p < ord.len() && ord[p] == d {
            base.remove(choose|p: int| 0 <= p < ord.len() && ord[p] == d).insert(0, Some(d))
        } else {
            base
        },
    }
}

/// The sports menu of the shell: the entries shown, and what each one
/// chooses (`None` for "Other...", where the user types a sport).
pub struct SportMenu {
    pub options: Vec<String>,
    pub choices: Vec<Option<Sport>>,
}

/// The menu holds one entry for each of `positions`, as `option_text` and
/// the catalog say.
pub open spec fn menu_shows(m: SportMenu, labels: Seq<Seq<char>>, positions: Seq<Option<int>>) -> bool {
    &&& m.options.len() == positions.len()
    &&& m.choices.len() == positions.len()
    &&& forall|k: int| 0 <= k < positions.len() ==> #[trigger] entry_shows(m.options@, m.choices@, labels, positions[k], k)
}

/// Entry `k` of the menu shows position `p` as `option_text` and the catalog say.
pub open spec fn entry_shows(m_options: Seq<String>, m_choices: Seq<Option<Sport>>, labels: Seq<Seq<char>>, p: Option<int>, k: int) -> bool {
    match p {
        None => m_options[k]@ == other_option() && m_choices[k] is None,
        Some(i) => m_options[k]@ == option_text(labels, i) && (m_choices[k] matches Some(s)
            && s@ == Category::Known(i)),
    }
}

/// The sports menu for the given labels of the catalog's sports (as
/// `Sport::label` gives them): the sports in label order, then
/// "Other...", with the default's entry moved to the front.
pub fn build_sport_menu(labels: &Vec<String>, default: Option<&Sport>) -> (r: SportMenu)
    requires
        labels.len() == KNOWN_SPORTS,
    ensures
        exists|ord: Seq<int>| is_label_order(labels.deep_view(), ord) && menu_shows(
            r,
            labels.deep_view(),
            menu_positions(ord, match default { Some(s) => Some(s@), None => None }),
        ),
{
    let ghost lv = labels.deep_view();
    let ord = positions_by_label(labels);
    let ghost ordv = ord@.map_values(|i: usize| i as int);
    let mut base: Vec<Option<usize>> = Vec::new();
    let mut k: usize = 0;
    while k < ord.len()
        invariant
            k <= ord.len(),
            ord.len() == KNOWN_SPORTS,
            ordv == ord@.map_values(|i: usize| i as int),
            is_label_order(lv, ordv),
            lv.len() == KNOWN_SPORTS,
            base@.len() == k,
            forall|j: int| 0 <= j < k ==> #[trigger] base@[j] == Some(ord@[j]),
        decreases ord.len() - k,
    {
        base.push(Some(ord[k]));
        k = k + 1;
    }
    base.push(None);
    let ghost basev = ordv.map_values(|i: int| Some(i)).push(None);
    let ghost dv: Option<Category> = match default { Some(s) => Some(s@), None => None };
    assert(as_positions(base@) =~= basev);
    match default {
        None => {},
        Some(Sport::Other(_)) => {
            base.remove(ord.len());
            base.insert(0, None);
            assert(as_positions(base@) =~= basev.remove(ordv.len() as int).insert(0, None));
        },
        Some(d) => {
            let di = d.position();
            let mut p: usize = 0;
            while p < ord.len() && ord[p] != di
                invariant
                    p <= ord.len(),
                    forall|j: int| 0 <= j < p ==> ord@[j] != di,
                decreases ord.len() - p,
            {
                p = p + 1;
            }
            if p < ord.len() {
                proof {
                    assert(ordv[p as int] == di as int);
                    let q = choose|q: int| 0 <= q < ordv.len() && ordv[q] == di as int;
                    if q != p as int {
                        if q < p as int {
                            assert(label_before(lv, ordv[q], ordv[p as int]));
                        } else {
                            assert(label_before(lv, ordv[p as int], ordv[q]));
                        }
                        lemma_text_lt_irreflexive(lv[di as int]);
                    }
                }
                base.remove(p);
                base.insert(0, Some(di));
                assert(as_positions(base@) =~= basev.remove(p as int).insert(0, Some(di as int)));
            } else {
                assert forall|q: int| 0 <= q < ordv.len() implies ordv[q] != di as int by {
                    assert(ordv[q] == ord@[q] as int);
                }
            }
        },
    }
    let ghost pv = menu_positions(ordv, dv);
    assert(as_positions(base@) == pv);
    assert forall|j: int| 0 <= j < base@.len() && (#[trigger] base@[j]) is Some implies base@[j]->0 < KNOWN_SPORTS by {
        assert(as_positions(base@)[j] == pv[j]);
    }
    let mut options: Vec<String> = Vec::new();
    let mut choices: Vec<Option<Sport>> = Vec::new();
    let mut k: usize = 0;
    while k < base.len()
        invariant
            k <= base.len(),
            lv == labels.deep_view(),
            labels.len() == KNOWN_SPORTS,
            as_positions(base@) == pv,
            forall|j: int| 0 <= j < base@.len() && (#[trigger] base@[j]) is Some ==> base@[j]->0 < KNOWN_SPORTS,
            options.len() == k,
            choices.len() == k,
            forall|j: int| 0 <= j < k ==> #[trigger] entry_shows(options@, choices@, lv, pv[j], j),
        decreases base.len() - k,
    {
        assert(as_positions(base@)[k as int] == pv[k as int]);
        let ghost o0 = options@;
        let ghost c0 = choices@;
        match base[k] {
            None => {
                options.push("Other...".to_owned());
                choices.push(None);
            },
            Some(i) => {
                let sport = Sport::known(i);
                assert(lv[i as int] == labels[i as int]@);
                let text = capitalize_first(labels[i].as_str()).concat(" ").concat(sport.emoji());
                proof {
                    reveal_strlit(" ");
                    assert(text@ =~= option_text(lv, i as int));
                }
                options.push(text);
                choices.push(Some(sport));
            },
        }
        assert(entry_shows(options@, choices@, lv, pv[k as int], k as int));
        assert forall|j: int| 0 <= j < k + 1 implies #[trigger] entry_shows(options@, choices@, lv, pv[j], j) by {
            if j < k {
                assert(entry_shows(o0, c0, lv, pv[j], j));
                assert(options@[j] == o0[j]);
                assert(choices@[j] == c0[j]);
            }
        }
        k = k + 1;
    }
    assert(is_label_order(lv, ordv));
    let r = SportMenu { options, choices };
    assert(menu_shows(r, lv, pv));
    r
}

/// The sport that a typed answer to "Other..." gives: `None` for an answer
/// that is blank after trimming, else a sport outside the catalog holding
/// the trimmed answer as typed.
pub fn custom_sport(answer: &str) -> (r: Option<Sport>)
    ensures
        trimmed(answer@).len() == 0 ==> r is None,
        trimmed(answer@).len() > 0 ==> (r matches Some(Sport::Other(t)) && t@ == trimmed(answer@)),
{
    let t = crate::text::trim(answer);
    if t.unicode_len() == 0 {
        None
    } else {
        Some(Sport::Other(t.to_owned()))
    }
}

} // verus!
