//! Person records, the identifiers they carry, the operations on an ordered
//! sequence of them, and their exchange with comma-separated text.

use crate::date::{earliest_today, lemma_text_injective, read_date, Date};
use crate::delimited::{csv_record, csv_table, decode_table, encode_record, error_message};
use crate::error::{FormatError, StoreError};
use crate::sport::{
    canonical_text, glyph, lemma_canonical_name_parses, text_category, Category, Sport,
};
use crate::text::same_text;
use vstd::prelude::*;

verus! {

/// Hands out record identifiers, each one once and in increasing order.
/// A store keeps one generator for all its records, so that no two records
/// ever share an identifier, across creations and loads alike.
#[derive(Debug)]
pub struct IdGenerator {
    next: u32,
}

impl IdGenerator {
    /// The identifier that the generator hands out next.
    pub closed spec fn next_id(&self) -> int {
        self.next as int
    }

    /// The generator can still hand out `n` identifiers.
    pub open spec fn can_issue(&self, n: int) -> bool {
        self.next_id() + n <= u32::MAX as int
    }

    pub fn new() -> (r: IdGenerator)
        ensures
            r.next_id() == 0,
    {
        IdGenerator { next: 0 }
    }

    /// How many identifiers the generator can still hand out.
    pub fn remaining(&self) -> (r: u32)
        ensures
            r == u32::MAX as int - self.next_id(),
    {
        u32::MAX - self.next
    }

    /// The next identifier.
    pub fn fresh(&mut self) -> (r: u32)
        requires
            old(self).can_issue(1),
        ensures
            r == old(self).next_id(),
            final(self).next_id() == old(self).next_id() + 1,
    {
        let r = self.next;
        self.next = self.next + 1;
        r
    }
}

/// `id` was handed out while a generator went from state `a` to state `b`.
pub open spec fn issued_between(id: int, a: IdGenerator, b: IdGenerator) -> bool {
    a.next_id() <= id < b.next_id()
}

/// An identifier handed out while a generator went from `a` to `b` differs
/// from every identifier handed out after that, while it went on from `b`
/// to `c`: two creations or loads in turn never give equal identifiers.
pub proof fn lemma_ids_never_repeat(
    first: int,
    second: int,
    a: IdGenerator,
    b: IdGenerator,
    c: IdGenerator,
)
    requires
        issued_between(first, a, b),
        issued_between(second, b, c),
    ensures
        first != second,
{
}

/// One record.
#[derive(Debug, PartialEq, Eq)]
pub struct Person {
    pub id: u32,
    pub first_name: String,
    pub last_name: String,
    pub date_of_birth: Date,
    pub favorite_sport: Sport,
}

impl Clone for Person {
    fn clone(&self) -> (r: Self)
        ensures
            r == *self,
    {
        Person {
            id: self.id,
            first_name: self.first_name.clone(),
            last_name: self.last_name.clone(),
            date_of_birth: self.date_of_birth,
            favorite_sport: self.favorite_sport.clone(),
        }
    }
}

/// Whole years from `birth` to `today`: the days between them divided by
/// 365, rounded down.
pub open spec fn age_in_years(birth: Date, today: Date) -> int {
    (today.days() - birth.days()) / 365
}

impl Person {
    /// The birth date is a day that exists.
    pub open spec fn wf(&self) -> bool {
        self.date_of_birth.wf()
    }

    /// A record with the next identifier of `ids`.
    pub fn new(
        ids: &mut IdGenerator,
        first_name: String,
        last_name: String,
        date_of_birth: Date,
        favorite_sport: Sport,
    ) -> (r: Person)
        requires
            old(ids).can_issue(1),
        ensures
            r.id == old(ids).next_id(),
            final(ids).next_id() == old(ids).next_id() + 1,
            issued_between(r.id as int, *old(ids), *final(ids)),
            r.first_name == first_name,
            r.last_name == last_name,
            r.date_of_birth == date_of_birth,
            r.favorite_sport == favorite_sport,
    {
        let id = ids.fresh();
        Person { id, first_name, last_name, date_of_birth, favorite_sport }
    }

    /// A record with the given identifier.
    pub fn with_id(
        id: u32,
        first_name: String,
        last_name: String,
        date_of_birth: Date,
        favorite_sport: Sport,
    ) -> (r: Person)
        ensures
            r == (Person { id, first_name, last_name, date_of_birth, favorite_sport }),
    {
        Person { id, first_name, last_name, date_of_birth, favorite_sport }
    }

    /// Age in whole years on the day `today`: the days since the birth date
    /// divided by 365, rounded down.
    pub fn age_on(&self, today: &Date) -> (r: i64)
        requires
            self.wf(),
            today.wf(),
        ensures
            r == age_in_years(self.date_of_birth, *today),
    {
        let days = today.days_since(&self.date_of_birth);
        proof {
            lemma_day_span(self.date_of_birth, *today);
        }
        if days >= 0 {
            days / 365
        } else {
            let before = -days;
            let q = (before + 364) / 365;
            proof {
                lemma_floor_of_negative(before as int);
            }
            -q
        }
    }

    /// Age in whole years today, by the local clock. Panics as
    /// `Date::today` does.
    pub fn get_age(&self) -> (r: i64)
        requires
            self.wf(),
        ensures
            exists|today: Date| today.wf() && today.days() >= earliest_today() && r == age_in_years(
                self.date_of_birth,
                today,
            ),
    {
        let today = Date::today();
        self.age_on(&today)
    }

    /// The glyph of the favourite sport.
    pub fn get_favorite_sport_emoji(&self) -> (r: &'static str)
        ensures
            r@ == glyph(self.favorite_sport@),
    {
        self.favorite_sport.emoji()
    }
}

/// Day numbers of dates that exist lie within chrono's range, so spans
/// between them fit an `i64` with room to spare.
proof fn lemma_day_span(a: Date, b: Date)
    requires
        a.wf(),
        b.wf(),
    ensures
        -200_000_000 <= b.days() - a.days() <= 200_000_000,
{
    lemma_day_number_bounds(a);
    lemma_day_number_bounds(b);
}

proof fn lemma_day_number_bounds(d: Date)
    requires
        d.wf(),
    ensures
        -100_000_000 <= d.days() <= 100_000_000,
{
    let y = d.year as int;
    let m = d.month as int;
    let y1 = if m <= 2 { y - 1 } else { y };
    let era = y1 / 400;
    let yoe = y1 - era * 400;
    assert(-700 <= era <= 700) by (nonlinear_arith)
        requires
            era == y1 / 400,
            -262144 <= y1 <= 262142,
    ;
    assert(0 <= yoe < 400) by (nonlinear_arith)
        requires
            era == y1 / 400,
            yoe == y1 - era * 400,
    ;
    assert(-102_267_900 <= era * 146097 <= 102_267_900) by (nonlinear_arith)
        requires
            -700 <= era <= 700,
    ;
}

/// For `n > 0`, `-n / 365` rounded down is `-((n + 364) / 365)`.
proof fn lemma_floor_of_negative(n: int)
    requires
        n > 0,
    ensures
        (-n) / 365 == -((n + 364) / 365),
{
    let q = (n + 364) / 365;
    let r = (n + 364) % 365;
    assert(n + 364 == q * 365 + r && 0 <= r < 365);
    assert(-n == (-q) * 365 + (364 - r));
    assert((-n) / 365 == -q) by (nonlinear_arith)
        requires
            -n == (-q) * 365 + (364 - r),
            0 <= 364 - r < 365,
    ;
}

/// Appends `person` at the end.
pub fn add_person(people: &mut Vec<Person>, person: Person) -> (r: Result<(), StoreError>)
    ensures
        r is Ok,
        final(people)@ == old(people)@.push(person),
{
    people.push(person);
    Ok(())
}

/// Removes the record at `index`; fails, changing nothing, when `index` is
/// not below the length.
pub fn delete_person(people: &mut Vec<Person>, index: usize) -> (r: Result<(), StoreError>)
    ensures
        index < old(people).len() ==> r is Ok && final(people)@ == old(people)@.remove(index as int),
        index >= old(people).len() ==> r == Err::<(), StoreError>(StoreError::IndexOutOfBounds(index))
            && final(people)@ == old(people)@,
{
    if index < people.len() {
        people.remove(index);
        Ok(())
    } else {
        Err(StoreError::IndexOutOfBounds(index))
    }
}

/// Puts `person` in place of the record at `index`; fails, changing
/// nothing, when `index` is not below the length.
pub fn edit_person(people: &mut Vec<Person>, index: usize, person: Person) -> (r: Result<(), StoreError>)
    ensures
        index < old(people).len() ==> r is Ok && final(people)@ == old(people)@.update(index as int, person),
        index < old(people).len() ==> final(people).len() == old(people).len()
            && final(people)[index as int] == person
            && forall|j: int| 0 <= j < old(people).len() && j != index ==> #[trigger] final(people)[j] == old(people)[j],
        index >= old(people).len() ==> r == Err::<(), StoreError>(StoreError::IndexOutOfBounds(index))
            && final(people)@ == old(people)@,
{
    if index < people.len() {
        people.set(index, person);
        Ok(())
    } else {
        Err(StoreError::IndexOutOfBounds(index))
    }
}

pub open spec fn first_name_column() -> Seq<char> {
    "first_name"@
}

pub open spec fn last_name_column() -> Seq<char> {
    "last_name"@
}

pub open spec fn birth_date_column() -> Seq<char> {
    "date_of_birth"@
}

pub open spec fn sport_column() -> Seq<char> {
    "favorite_sport"@
}

/// The header row of a file of records.
pub open spec fn header_fields() -> Seq<Seq<char>> {
    seq![first_name_column(), last_name_column(), birth_date_column(), sport_column()]
}

/// The fields that a record is written as: its names, its birth date as
/// `YYYY-MM-DD` and the canonical name of its sport. The identifier is not
/// written.
pub open spec fn row_of(p: Person) -> Seq<Seq<char>> {
    seq![p.first_name@, p.last_name@, p.date_of_birth.text(), canonical_text(p.favorite_sport@)]
}

pub open spec fn people_rows(people: Seq<Person>) -> Seq<Seq<Seq<char>>> {
    people.map_values(|p: Person| row_of(p))
}

/// The bytes of the given records, one after another.
pub open spec fn records_bytes(rows: Seq<Seq<Seq<char>>>) -> Seq<u8>
    decreases rows.len(),
{
    if rows.len() == 0 {
        Seq::empty()
    } else {
        records_bytes(rows.drop_last()) + csv_record(rows.last())
    }
}

/// The whole file for a sequence of records: the header row, then one row
/// per record in sequence order.
pub open spec fn file_bytes(people: Seq<Person>) -> Seq<u8> {
    csv_record(header_fields()) + records_bytes(people_rows(people))
}

/// Number of header fields among the first `n` that equal `name`.
pub open spec fn count_in(h: Seq<Seq<char>>, name: Seq<char>, n: int) -> int
    decreases n,
{
    if n <= 0 {
        0
    } else {
        count_in(h, name, n - 1) + if h[n - 1] == name { 1int } else { 0 }
    }
}

/// Position of the first of the first `n` header fields that equals `name`.
pub open spec fn first_in(h: Seq<Seq<char>>, name: Seq<char>, n: int) -> Option<int>
    decreases n,
{
    if n <= 0 {
        None
    } else {
        match first_in(h, name, n - 1) {
            Some(i) => Some(i),
            None => if h[n - 1] == name { Some(n - 1) } else { None },
        }
    }
}

/// The header holds the column `name` exactly once.
pub open spec fn has_column(h: Seq<Seq<char>>, name: Seq<char>) -> bool {
    count_in(h, name, h.len() as int) == 1
}

/// Position of the column `name` in the header.
pub open spec fn column(h: Seq<Seq<char>>, name: Seq<char>) -> int {
    match first_in(h, name, h.len() as int) {
        Some(i) => i,
        None => 0,
    }
}

/// The first column of a record that the header does not hold exactly once.
pub open spec fn first_bad_column(h: Seq<Seq<char>>) -> Option<Seq<char>> {
    if !has_column(h, first_name_column()) {
        Some(first_name_column())
    } else if !has_column(h, last_name_column()) {
        Some(last_name_column())
    } else if !has_column(h, birth_date_column()) {
        Some(birth_date_column())
    } else if !has_column(h, sport_column()) {
        Some(sport_column())
    } else {
        None
    }
}

/// The field of `row` under the header's column `name`.
pub open spec fn field(h: Seq<Seq<char>>, row: Seq<Seq<char>>, name: Seq<char>) -> Seq<char> {
    row[column(h, name)]
}

/// The birth date of the row reads as a date.
pub open spec fn row_date_reads(h: Seq<Seq<char>>, row: Seq<Seq<char>>) -> bool {
    read_date(field(h, row, birth_date_column())) is Some
}

/// `p` is the record read from `row` under header `h`, with identifier `id`.
pub open spec fn read_from_row(p: Person, h: Seq<Seq<char>>, row: Seq<Seq<char>>, id: int) -> bool {
    &&& p.id == id
    &&& p.wf()
    &&& p.first_name@ == field(h, row, first_name_column())
    &&& p.last_name@ == field(h, row, last_name_column())
    &&& read_date(field(h, row, birth_date_column())) == Some(p.date_of_birth@)
    &&& p.favorite_sport@ == text_category(field(h, row, sport_column()))
}

/// What reading the records of a table gives, and where it leaves an
/// identifier generator that stood at `before`. Columns are found by their
/// header names, in any order; other columns (an identifier column among
/// them) are passed over, and every record gets a fresh identifier.
pub open spec fn table_outcome(
    h: Seq<Seq<char>>,
    rows: Seq<Seq<Seq<char>>>,
    before: int,
    r: Result<Vec<Person>, StoreError>,
    after: int,
) -> bool {
    if rows.len() == 0 {
        r is Ok && r->Ok_0.len() == 0 && after == before
    } else if first_bad_column(h) is Some {
        &&& r matches Err(StoreError::Format(FormatError::Column(name)))
        &&& name@ == first_bad_column(h)->0
        &&& after == before
    } else if before + rows.len() > u32::MAX as int {
        &&& r matches Err(StoreError::IdsExhausted)
        &&& after == before
    } else if exists|k: int| 0 <= k < rows.len() && !row_date_reads(h, #[trigger] rows[k]) {
        &&& r matches Err(StoreError::Format(FormatError::Date { row, text }))
        &&& row < rows.len()
        &&& !row_date_reads(h, rows[row as int])
        &&& forall|j: int| 0 <= j < row ==> row_date_reads(h, #[trigger] rows[j])
        &&& text@ == field(h, rows[row as int], birth_date_column())
        &&& after == before + row
    } else {
        &&& r matches Ok(people)
        &&& people.len() == rows.len()
        &&& forall|i: int| 0 <= i < rows.len() ==> read_from_row(#[trigger] people[i], h, rows[i], before + i)
        &&& after == before + rows.len()
    }
}

fn header_record() -> (r: Vec<String>)
    ensures
        r.deep_view() == header_fields(),
{
    let r = vec![
        "first_name".to_owned(),
        "last_name".to_owned(),
        "date_of_birth".to_owned(),
        "favorite_sport".to_owned(),
    ];
    assert(r.deep_view() =~= header_fields());
    r
}

/// Position of the column `name` in the header, where it is there once.
fn find_column(header: &Vec<String>, name: &str) -> (r: Option<usize>)
    ensures
        r is Some <==> has_column(header.deep_view(), name@),
        r is Some ==> r->0 == column(header.deep_view(), name@) && r->0 < header.len(),
{
    let ghost h = header.deep_view();
    let mut count: usize = 0;
    let mut first: Option<usize> = None;
    let mut j: usize = 0;
    while j < header.len()
        invariant
            h == header.deep_view(),
            j <= header.len(),
            count == count_in(h, name@, j as int),
            count <= j,
            first is Some <==> first_in(h, name@, j as int) is Some,
            first is Some ==> first->0 == first_in(h, name@, j as int)->0 && first->0 < j,
        decreases header.len() - j,
    {
        assert(h[j as int] == header[j as int]@);
        if same_text(header[j].as_str(), name) {
            count = count + 1;
            if first.is_none() {
                first = Some(j);
            }
        }
        j = j + 1;
    }
    if count == 1 {
        proof {
            lemma_count_first(h, name@, h.len() as int);
        }
        first
    } else {
        None
    }
}

proof fn lemma_count_first(h: Seq<Seq<char>>, name: Seq<char>, n: int)
    requires
        0 <= n <= h.len(),
    ensures
        count_in(h, name, n) >= 1 <==> first_in(h, name, n) is Some,
    decreases n,
{
    if n > 0 {
        lemma_count_first(h, name, n - 1);
        assert(count_in(h, name, n - 1) >= 0) by {
            lemma_count_nonneg(h, name, n - 1);
        }
    }
}

proof fn lemma_count_nonneg(h: Seq<Seq<char>>, name: Seq<char>, n: int)
    ensures
        count_in(h, name, n) >= 0,
    decreases n,
{
    if n > 0 {
        lemma_count_nonneg(h, name, n - 1);
    }
}

impl Person {
    /// The fields that the record is written as.
    pub fn csv_fields(&self) -> (r: Vec<String>)
        requires
            self.wf(),
        ensures
            r.deep_view() == row_of(*self),
    {
        let r = vec![
            self.first_name.clone(),
            self.last_name.clone(),
            self.date_of_birth.to_text(),
            self.favorite_sport.canonical_name(),
        ];
        assert(r.deep_view() =~= row_of(*self));
        r
    }

    /// The file for an empty sequence of records: the header row alone.
    pub fn empty_file_bytes() -> (r: Vec<u8>)
        ensures
            r@ == file_bytes(Seq::empty()),
    {
        proof {
            assert(people_rows(Seq::<Person>::empty()) =~= Seq::empty());
        }
        encode_record(&header_record())
    }

    /// The whole file for `people`: the header row, then one row per
    /// record, in sequence order.
    pub fn to_csv_bytes(people: &Vec<Person>) -> (r: Vec<u8>)
        requires
            forall|i: int| 0 <= i < people.len() ==> (#[trigger] people[i]).wf(),
        ensures
            r@ == file_bytes(people@),
    {
        let mut out = encode_record(&header_record());
        let mut i: usize = 0;
        while i < people.len()
            invariant
                i <= people.len(),
                forall|k: int| 0 <= k < people.len() ==> (#[trigger] people[k]).wf(),
                out@ == csv_record(header_fields()) + records_bytes(people_rows(people@.subrange(0, i as int))),
            decreases people.len() - i,
        {
            let mut line = encode_record(&people[i].csv_fields());
            proof {
                let before = people_rows(people@.subrange(0, i as int));
                let after = people_rows(people@.subrange(0, i + 1));
                assert(after.drop_last() =~= before);
                assert(after.last() == row_of(people[i as int]));
            }
            out.append(&mut line);
            proof {
                assert(out@ =~= csv_record(header_fields()) + records_bytes(people_rows(people@.subrange(0, i + 1))));
            }
            i = i + 1;
        }
        assert(people@.subrange(0, people.len() as int) =~= people@);
        out
    }

    /// The records of a table: a header and data rows of the same width.
    pub fn from_table(header: &Vec<String>, rows: &Vec<Vec<String>>, ids: &mut IdGenerator) -> (r: Result<Vec<Person>, StoreError>)
        requires
            forall|i: int| 0 <= i < rows.len() ==> (#[trigger] rows[i]).len() == header.len(),
        ensures
            table_outcome(header.deep_view(), rows.deep_view(), old(ids).next_id(), r, final(ids).next_id()),
    {
        let ghost h = header.deep_view();
        let ghost rs = rows.deep_view();
        let ghost before = ids.next_id();
        if rows.len() == 0 {
            return Ok(Vec::new());
        }
        let cf = match find_column(header, "first_name") {
            Some(c) => c,
            None => return Err(StoreError::Format(FormatError::Column("first_name".to_owned()))),
        };
        let cl = match find_column(header, "last_name") {
            Some(c) => c,
            None => return Err(StoreError::Format(FormatError::Column("last_name".to_owned()))),
        };
        let cd = match find_column(header, "date_of_birth") {
            Some(c) => c,
            None => return Err(StoreError::Format(FormatError::Column("date_of_birth".to_owned()))),
        };
        let cs = match find_column(header, "favorite_sport") {
            Some(c) => c,
            None => return Err(StoreError::Format(FormatError::Column("favorite_sport".to_owned()))),
        };
        if (ids.remaining() as usize) < rows.len() {
            return Err(StoreError::IdsExhausted);
        }
        let mut people: Vec<Person> = Vec::new();
        let mut i: usize = 0;
        while i < rows.len()
            invariant
                h == header.deep_view(),
                rs == rows.deep_view(),
                rs.len() == rows.len(),
                forall|k: int| 0 <= k < rows.len() ==> (#[trigger] rows[k]).len() == header.len(),
                first_bad_column(h) is None,
                cf == column(h, first_name_column()),
                cl == column(h, last_name_column()),
                cd == column(h, birth_date_column()),
                cs == column(h, sport_column()),
                cf < header.len() && cl < header.len() && cd < header.len() && cs < header.len(),
                i <= rows.len(),
                people.len() == i,
                before + rows.len() <= u32::MAX as int,
                ids.next_id() == before + i,
                before == old(ids).next_id(),
                forall|k: int| 0 <= k < i ==> row_date_reads(h, #[trigger] rs[k]),
                forall|k: int| 0 <= k < i ==> read_from_row(#[trigger] people[k], h, rs[k], before + k),
            decreases rows.len() - i,
        {
            let row = &rows[i];
            assert(rs[i as int] == row.deep_view());
            assert(rs[i as int][cd as int] == row[cd as int]@);
            assert(rs[i as int][cf as int] == row[cf as int]@);
            assert(rs[i as int][cl as int] == row[cl as int]@);
            assert(rs[i as int][cs as int] == row[cs as int]@);
            let date_of_birth = match Date::parse(row[cd].as_str()) {
                Some(d) => d,
                None => {
                    let text = row[cd].clone();
                    assert(!row_date_reads(h, rs[i as int]));
                    assert(text@ == field(h, rs[i as int], birth_date_column()));
                    assert(exists|k: int| 0 <= k < rs.len() && !row_date_reads(h, #[trigger] rs[k]));
                    return Err(StoreError::Format(FormatError::Date { row: i, text }));
                },
            };
            let sport = Sport::from_string(row[cs].as_str());
            let id = ids.fresh();
            let p = Person::with_id(id, row[cf].clone(), row[cl].clone(), date_of_birth, sport);
            people.push(p);
            i = i + 1;
        }
        assert(!exists|k: int| 0 <= k < rs.len() && !row_date_reads(h, #[trigger] rs[k]));
        Ok(people)
    }

    /// The records of a file's text. Fails when the text is not
    /// well-formed comma-separated text, and as `from_table` says. The text
    /// that `to_csv_bytes` writes for some records reads back, where the
    /// generator has enough identifiers left, as records with fresh
    /// identifiers and the same names and birth dates, and sports as
    /// `same_records` says.
    pub fn from_csv_bytes(data: &[u8], ids: &mut IdGenerator) -> (r: Result<Vec<Person>, StoreError>)
        ensures
            csv_table(data@) is None ==> (r matches Err(StoreError::Format(FormatError::Malformed(_)))),
            csv_table(data@) is None ==> final(ids).next_id() == old(ids).next_id(),
            csv_table(data@) matches Some((h, rows)) ==> table_outcome(h, rows, old(ids).next_id(), r, final(ids).next_id()),
            forall|people: Seq<Person>|
                #![trigger file_bytes(people)]
                data@ == file_bytes(people) && all_wf(people)
                    && old(ids).next_id() + people.len() <= u32::MAX as int ==> (r is Ok
                    && same_records(r->Ok_0@, people, old(ids).next_id())),
    {
        let ghost before = ids.next_id();
        let ghost d = data@;
        match decode_table(data) {
            Ok((header, rows)) => {
                let r = Person::from_table(&header, &rows, ids);
                proof {
                    assert forall|people: Seq<Person>|
                        #![trigger file_bytes(people)]
                        d == file_bytes(people) && all_wf(people)
                            && before + people.len() <= u32::MAX as int implies (r is Ok
                            && same_records(r->Ok_0@, people, before)) by {
                        lemma_rows_width(people);
                        lemma_rows_read_back(people, before, r, ids.next_id());
                    }
                }
                r
            },
            Err(e) => {
                proof {
                    assert forall|people: Seq<Person>|
                        #![trigger file_bytes(people)]
                        d == file_bytes(people) && all_wf(people)
                            && before + people.len() <= u32::MAX as int implies false by {
                        lemma_rows_width(people);
                    }
                }
                Err(StoreError::Format(FormatError::Malformed(error_message(&e))))
            },
        }
    }
}

/// The rows that records are written as have the header's width.
proof fn lemma_rows_width(people: Seq<Person>)
    ensures
        forall|i: int| 0 <= i < people_rows(people).len() ==> (#[trigger] people_rows(people)[i]).len()
            == header_fields().len(),
{
}

/// Every record's birth date exists, so that the records can be written.
pub open spec fn all_wf(people: Seq<Person>) -> bool {
    forall|i: int| 0 <= i < people.len() ==> (#[trigger] people[i]).wf()
}

/// `loaded` holds the records of `people`, in order, with the identifiers
/// from `first_id` on, the names and birth dates kept, and each sport as its
/// written name reads back: the same sport, unless it lies outside the
/// catalog and its text does not read back as itself.
pub open spec fn same_records(loaded: Seq<Person>, people: Seq<Person>, first_id: int) -> bool {
    &&& loaded.len() == people.len()
    &&& forall|i: int| #![trigger loaded[i]] 0 <= i < people.len() ==> {
        &&& loaded[i].id == first_id + i
        &&& loaded[i].first_name@ == people[i].first_name@
        &&& loaded[i].last_name@ == people[i].last_name@
        &&& loaded[i].date_of_birth == people[i].date_of_birth
        &&& loaded[i].favorite_sport@ == text_category(canonical_text(people[i].favorite_sport@))
        &&& reads_back(people[i].favorite_sport@) ==> loaded[i].favorite_sport@ == people[i].favorite_sport@
    }
}

/// A sport outside the catalog whose text reads back as itself: trimmed, in
/// lower case, and naming no catalog sport. Catalog sports always do.
pub open spec fn reads_back(s: Category) -> bool {
    s matches Category::Custom(t) ==> text_category(t) == s
}

proof fn lemma_header_columns()
    ensures
        first_bad_column(header_fields()) is None,
        column(header_fields(), first_name_column()) == 0,
        column(header_fields(), last_name_column()) == 1,
        column(header_fields(), birth_date_column()) == 2,
        column(header_fields(), sport_column()) == 3,
{
    reveal_strlit("first_name");
    reveal_strlit("last_name");
    reveal_strlit("date_of_birth");
    reveal_strlit("favorite_sport");
    let h = header_fields();
    assert(h[0] != h[1] && h[0] != h[2] && h[0] != h[3]) by {
        assert(h[0].len() != h[1].len() || h[0][0] != h[1][0]);
        assert(h[0].len() != h[2].len());
        assert(h[0].len() != h[3].len());
    }
    assert(h[1] != h[2] && h[1] != h[3]) by {
        assert(h[1].len() != h[2].len());
        assert(h[1].len() != h[3].len());
    }
    assert(h[2] != h[3]) by {
        assert(h[2].len() != h[3].len());
    }
    reveal_with_fuel(count_in, 5);
    reveal_with_fuel(first_in, 5);
}

/// Reading back the header and rows that records are written as gives the
/// records again, in order, each with a fresh identifier: the same names and
/// the same birth dates; the same sports too, but for a sport outside the
/// catalog whose text does not read back as itself, which comes back as its
/// written text reads.
pub proof fn lemma_rows_read_back(
    people: Seq<Person>,
    before: int,
    r: Result<Vec<Person>, StoreError>,
    after: int,
)
    requires
        all_wf(people),
        before + people.len() <= u32::MAX as int,
        table_outcome(header_fields(), people_rows(people), before, r, after),
    ensures
        r is Ok,
        after == before + people.len(),
        same_records(r->Ok_0@, people, before),
{
    let h = header_fields();
    let rows = people_rows(people);
    lemma_header_columns();
    assert forall|k: int| 0 <= k < rows.len() implies row_date_reads(h, #[trigger] rows[k]) by {
        let d = people[k].date_of_birth;
        assert(rows[k] == row_of(people[k]));
        assert(field(h, rows[k], birth_date_column()) == d.text());
        let c = choose|c: Date| c.wf() && #[trigger] c.text() == d.text();
        lemma_text_injective(c, d);
    }
    if people.len() > 0 {
        let loaded = r->Ok_0;
        assert forall|i: int| #![trigger loaded[i]] 0 <= i < people.len() implies {
            &&& loaded[i].date_of_birth == people[i].date_of_birth
            &&& loaded[i].favorite_sport@ == text_category(canonical_text(people[i].favorite_sport@))
            &&& reads_back(people[i].favorite_sport@) ==> loaded[i].favorite_sport@ == people[i].favorite_sport@
        } by {
            let p = people[i];
            assert(rows[i] == row_of(p));
            assert(read_from_row(loaded[i], h, rows[i], before + i));
            let c = choose|c: Date| c.wf() && #[trigger] c.text() == p.date_of_birth.text();
            lemma_text_injective(c, p.date_of_birth);
            match p.favorite_sport@ {
                Category::Known(j) => {
                    lemma_canonical_name_parses(j);
                },
                Category::Custom(_) => {},
            }
        }
        assert forall|i: int| #![trigger loaded[i]] 0 <= i < people.len() implies {
            &&& loaded[i].first_name@ == people[i].first_name@
            &&& loaded[i].last_name@ == people[i].last_name@
        } by {
            assert(rows[i] == row_of(people[i]));
            assert(read_from_row(loaded[i], h, rows[i], before + i));
        }
    }
}

} // verus!
