//! The favourite-sport category: a fixed catalog of known sports and an
//! open fallback that holds any other label.

use crate::text::{ascii_lower, is_ascii_text, lowered, same_text, trimmed};
use vstd::prelude::*;

verus! {

/// Number of sports in the catalog.
pub const KNOWN_SPORTS: usize = 23;

/// The canonical (English) name of the catalog's sport at position `i`.
pub open spec fn known_name(i: int) -> Seq<char> {
    if i == 0 {
        "Baseball"@
    } else if i == 1 {
        "Soccer"@
    } else if i == 2 {
        "Basketball"@
    } else if i == 3 {
        "Tennis"@
    } else if i == 4 {
        "Golf"@
    } else if i == 5 {
        "Hockey"@
    } else if i == 6 {
        "Cricket"@
    } else if i == 7 {
        "Rugby"@
    } else if i == 8 {
        "Handball"@
    } else if i == 9 {
        "Football"@
    } else if i == 10 {
        "Volleyball"@
    } else if i == 11 {
        "Water polo"@
    } else if i == 12 {
        "Equestrian"@
    } else if i == 13 {
        "Swimming"@
    } else if i == 14 {
        "Running"@
    } else if i == 15 {
        "Cycling"@
    } else if i == 16 {
        "Skating"@
    } else if i == 17 {
        "Skateboarding"@
    } else if i == 18 {
        "Surfing"@
    } else if i == 19 {
        "Skiing"@
    } else if i == 20 {
        "Snowboarding"@
    } else if i == 21 {
        "Rowing"@
    } else if i == 22 {
        "Wrestling"@
    } else {
        ""@
    }
}

/// The lower-case text that selects the catalog's sport at position `i`.
pub open spec fn known_key(i: int) -> Seq<char> {
    if i == 0 {
        "baseball"@
    } else if i == 1 {
        "soccer"@
    } else if i == 2 {
        "basketball"@
    } else if i == 3 {
        "tennis"@
    } else if i == 4 {
        "golf"@
    } else if i == 5 {
        "hockey"@
    } else if i == 6 {
        "cricket"@
    } else if i == 7 {
        "rugby"@
    } else if i == 8 {
        "handball"@
    } else if i == 9 {
        "football"@
    } else if i == 10 {
        "volleyball"@
    } else if i == 11 {
        "water polo"@
    } else if i == 12 {
        "equestrian"@
    } else if i == 13 {
        "swimming"@
    } else if i == 14 {
        "running"@
    } else if i == 15 {
        "cycling"@
    } else if i == 16 {
        "skating"@
    } else if i == 17 {
        "skateboarding"@
    } else if i == 18 {
        "surfing"@
    } else if i == 19 {
        "skiing"@
    } else if i == 20 {
        "snowboarding"@
    } else if i == 21 {
        "rowing"@
    } else if i == 22 {
        "wrestling"@
    } else {
        ""@
    }
}

/// The glyph shown beside the catalog's sport at position `i`.
pub open spec fn known_glyph(i: int) -> Seq<char> {
    if i == 0 {
        "⚾"@
    } else if i == 1 {
        "⚽"@
    } else if i == 2 {
        "🏀"@
    } else if i == 3 {
        "🎾"@
    } else if i == 4 {
        "⛳"@
    } else if i == 5 {
        "🏒"@
    } else if i == 6 {
        "🏏"@
    } else if i == 7 {
        "🏉"@
    } else if i == 8 {
        "🤾"@
    } else if i == 9 {
        "🏈"@
    } else if i == 10 {
        "🏐"@
    } else if i == 11 {
        "🤽"@
    } else if i == 12 {
        "🐎"@
    } else if i == 13 {
        "🏊"@
    } else if i == 14 {
        "🏃"@
    } else if i == 15 {
        "🚴"@
    } else if i == 16 {
        "🛼"@
    } else if i == 17 {
        "🛹"@
    } else if i == 18 {
        "🏄"@
    } else if i == 19 {
        "🎿"@
    } else if i == 20 {
        "🏂"@
    } else if i == 21 {
        "🚣"@
    } else if i == 22 {
        "🤼"@
    } else {
        ""@
    }
}

/// Position of the first catalog key from `i` on that equals `k`.
pub open spec fn key_position(k: Seq<char>, i: int) -> Option<int>
    decreases 23 - i,
{
    if i < 0 || i >= 23 {
        None
    } else if known_key(i) == k {
        Some(i)
    } else {
        key_position(k, i + 1)
    }
}

/// The second spelling accepted for water polo.
pub open spec fn water_polo_synonym() -> Seq<char> {
    "water_polo"@
}

/// Position of water polo in the catalog.
pub open spec fn water_polo_position() -> int {
    11
}

/// A sport as the contracts see it: a catalog position, or the text of a
/// sport outside the catalog.
pub enum Category {
    Known(int),
    Custom(Seq<char>),
}

/// The category that a lower-case, trimmed key selects.
pub open spec fn key_category(k: Seq<char>) -> Category {
    match key_position(k, 0) {
        Some(i) => Category::Known(i),
        None => if k == water_polo_synonym() {
            Category::Known(water_polo_position())
        } else {
            Category::Custom(k)
        },
    }
}

/// The category that a text selects: trimmed, then lower-cased, then looked up.
pub open spec fn text_category(s: Seq<char>) -> Category {
    key_category(lowered(trimmed(s)))
}

/// The canonical text of a category.
pub open spec fn canonical_text(c: Category) -> Seq<char> {
    match c {
        Category::Known(i) => known_name(i),
        Category::Custom(t) => t,
    }
}

pub open spec fn glyph(c: Category) -> Seq<char> {
    match c {
        Category::Known(i) => known_glyph(i),
        Category::Custom(t) => Seq::empty(),
    }
}

/// A favourite sport.
#[derive(Debug, PartialEq, Eq, Hash)]
pub enum Sport {
    Baseball,
    Soccer,
    Basketball,
    Tennis,
    Golf,
    Hockey,
    Cricket,
    Rugby,
    Handball,
    Football,
    Volleyball,
    WaterPolo,
    Equestrian,
    Swimming,
    Running,
    Cycling,
    Skating,
    Skateboarding,
    Surfing,
    Skiing,
    Snowboarding,
    Rowing,
    Wrestling,
    Other(String),
}

impl View for Sport {
    type V = Category;

    open spec fn view(&self) -> Category {
        match self {
            Sport::Baseball => Category::Known(0),
            Sport::Soccer => Category::Known(1),
            Sport::Basketball => Category::Known(2),
            Sport::Tennis => Category::Known(3),
            Sport::Golf => Category::Known(4),
            Sport::Hockey => Category::Known(5),
            Sport::Cricket => Category::Known(6),
            Sport::Rugby => Category::Known(7),
            Sport::Handball => Category::Known(8),
            Sport::Football => Category::Known(9),
            Sport::Volleyball => Category::Known(10),
            Sport::WaterPolo => Category::Known(11),
            Sport::Equestrian => Category::Known(12),
            Sport::Swimming => Category::Known(13),
            Sport::Running => Category::Known(14),
            Sport::Cycling => Category::Known(15),
            Sport::Skating => Category::Known(16),
            Sport::Skateboarding => Category::Known(17),
            Sport::Surfing => Category::Known(18),
            Sport::Skiing => Category::Known(19),
            Sport::Snowboarding => Category::Known(20),
            Sport::Rowing => Category::Known(21),
            Sport::Wrestling => Category::Known(22),
            Sport::Other(t) => Category::Custom(t@),
        }
    }
}

impl Clone for Sport {
    fn clone(&self) -> (r: Self)
        ensures
            r == *self,
    {
        match self {
            Sport::Baseball => Sport::Baseball,
            Sport::Soccer => Sport::Soccer,
            Sport::Basketball => Sport::Basketball,
            Sport::Tennis => Sport::Tennis,
            Sport::Golf => Sport::Golf,
            Sport::Hockey => Sport::Hockey,
            Sport::Cricket => Sport::Cricket,
            Sport::Rugby => Sport::Rugby,
            Sport::Handball => Sport::Handball,
            Sport::Football => Sport::Football,
            Sport::Volleyball => Sport::Volleyball,
            Sport::WaterPolo => Sport::WaterPolo,
            Sport::Equestrian => Sport::Equestrian,
            Sport::Swimming => Sport::Swimming,
            Sport::Running => Sport::Running,
            Sport::Cycling => Sport::Cycling,
            Sport::Skating => Sport::Skating,
            Sport::Skateboarding => Sport::Skateboarding,
            Sport::Surfing => Sport::Surfing,
            Sport::Skiing => Sport::Skiing,
            Sport::Snowboarding => Sport::Snowboarding,
            Sport::Rowing => Sport::Rowing,
            Sport::Wrestling => Sport::Wrestling,
            Sport::Other(t) => Sport::Other(t.clone()),
        }
    }
}

impl Sport {
    /// The catalog's sport at position `i`.
    pub fn known(i: usize) -> (r: Sport)
        requires
            i < KNOWN_SPORTS,
        ensures
            r@ == Category::Known(i as int),
    {
        match i {
            0 => Sport::Baseball,
            1 => Sport::Soccer,
            2 => Sport::Basketball,
            3 => Sport::Tennis,
            4 => Sport::Golf,
            5 => Sport::Hockey,
            6 => Sport::Cricket,
            7 => Sport::Rugby,
            8 => Sport::Handball,
            9 => Sport::Football,
            10 => Sport::Volleyball,
            11 => Sport::WaterPolo,
            12 => Sport::Equestrian,
            13 => Sport::Swimming,
            14 => Sport::Running,
            15 => Sport::Cycling,
            16 => Sport::Skating,
            17 => Sport::Skateboarding,
            18 => Sport::Surfing,
            19 => Sport::Skiing,
            20 => Sport::Snowboarding,
            21 => Sport::Rowing,
            _ => Sport::Wrestling,
        }
    }

    /// The glyph shown beside the sport; empty for a sport outside the
    /// catalog.
    pub fn emoji(&self) -> (r: &'static str)
        ensures
            r@ == glyph(self@),
    {
        match self {
            Sport::Baseball => "⚾",
            Sport::Soccer => "⚽",
            Sport::Basketball => "🏀",
            Sport::Tennis => "🎾",
            Sport::Golf => "⛳",
            Sport::Hockey => "🏒",
            Sport::Cricket => "🏏",
            Sport::Rugby => "🏉",
            Sport::Handball => "🤾",
            Sport::Football => "🏈",
            Sport::Volleyball => "🏐",
            Sport::WaterPolo => "🤽",
            Sport::Equestrian => "🐎",
            Sport::Swimming => "🏊",
            Sport::Running => "🏃",
            Sport::Cycling => "🚴",
            Sport::Skating => "🛼",
            Sport::Skateboarding => "🛹",
            Sport::Surfing => "🏄",
            Sport::Skiing => "🎿",
            Sport::Snowboarding => "🏂",
            Sport::Rowing => "🚣",
            Sport::Wrestling => "🤼",
            Sport::Other(_) => {
                proof {
                    reveal_strlit("");
                }
                ""
            },
        }
    }

    /// The whole catalog, in its fixed order.
    pub fn all_known_sports() -> (r: Vec<Sport>)
        ensures
            r.len() == KNOWN_SPORTS,
            forall|i: int| 0 <= i < KNOWN_SPORTS ==> (#[trigger] r[i])@ == Category::Known(i),
    {
        let mut r: Vec<Sport> = Vec::new();
        let mut i: usize = 0;
        while i < KNOWN_SPORTS
            invariant
                i <= KNOWN_SPORTS,
                r.len() == i,
                forall|j: int| 0 <= j < i ==> (#[trigger] r[j])@ == Category::Known(j),
            decreases KNOWN_SPORTS - i,
        {
            r.push(Sport::known(i));
            i = i + 1;
        }
        r
    }

    /// The sport that a lower-case, trimmed key selects: a catalog sport
    /// whose key it is (or the `water_polo` spelling), else a sport outside
    /// the catalog that holds the key.
    pub fn from_key(k: &str) -> (r: Sport)
        ensures
            r@ == key_category(k@),
    {
        let mut i: usize = 0;
        while i < KNOWN_SPORTS
            invariant
                i <= KNOWN_SPORTS,
                key_position(k@, 0) == key_position(k@, i as int),
            decreases KNOWN_SPORTS - i,
        {
            if same_text(k, known_key_text(i)) {
                return Sport::known(i);
            }
            i = i + 1;
        }
        if same_text(k, "water_polo") {
            return Sport::WaterPolo;
        }
        Sport::Other(k.to_owned())
    }

    /// The sport that a text names: the text is trimmed and lower-cased,
    /// then looked up as by `from_key`. A sport outside the catalog keeps
    /// the trimmed, lower-cased text.
    pub fn from_string(s: &str) -> (r: Sport)
        ensures
            r@ == text_category(s@),
    {
        let key = crate::text::to_lower(crate::text::trim(s));
        Sport::from_key(key.as_str())
    }

    /// The canonical English name of a catalog sport, or the text of a sport
    /// outside the catalog, unchanged.
    pub fn canonical_name(&self) -> (r: String)
        ensures
            r@ == canonical_text(self@),
    {
        match self {
            Sport::Other(t) => t.clone(),
            _ => known_name_text(self.position()).to_owned(),
        }
    }

    /// Catalog position of a known sport.
    pub(crate) fn position(&self) -> (r: usize)
        requires
            !(self is Other),
        ensures
            r < KNOWN_SPORTS,
            self@ == Category::Known(r as int),
    {
        match self {
            Sport::Baseball => 0,
            Sport::Soccer => 1,
            Sport::Basketball => 2,
            Sport::Tennis => 3,
            Sport::Golf => 4,
            Sport::Hockey => 5,
            Sport::Cricket => 6,
            Sport::Rugby => 7,
            Sport::Handball => 8,
            Sport::Football => 9,
            Sport::Volleyball => 10,
            Sport::WaterPolo => 11,
            Sport::Equestrian => 12,
            Sport::Swimming => 13,
            Sport::Running => 14,
            Sport::Cycling => 15,
            Sport::Skating => 16,
            Sport::Skateboarding => 17,
            Sport::Surfing => 18,
            Sport::Skiing => 19,
            Sport::Snowboarding => 20,
            Sport::Rowing => 21,
            Sport::Wrestling => 22,
            Sport::Other(_) => 0,
        }
    }
}

/// Canonical name of the catalog's sport at position `i`.
pub(crate) fn known_name_text(i: usize) -> (r: &'static str)
    requires
        i < KNOWN_SPORTS,
    ensures
        r@ == known_name(i as int),
{
    match i {
            0 => "Baseball",
            1 => "Soccer",
            2 => "Basketball",
            3 => "Tennis",
            4 => "Golf",
            5 => "Hockey",
            6 => "Cricket",
            7 => "Rugby",
            8 => "Handball",
            9 => "Football",
            10 => "Volleyball",
            11 => "Water polo",
            12 => "Equestrian",
            13 => "Swimming",
            14 => "Running",
            15 => "Cycling",
            16 => "Skating",
            17 => "Skateboarding",
            18 => "Surfing",
            19 => "Skiing",
            20 => "Snowboarding",
            21 => "Rowing",
        _ => "Wrestling",
    }
}

/// Key of the catalog's sport at position `i`.
fn known_key_text(i: usize) -> (r: &'static str)
    requires
        i < KNOWN_SPORTS,
    ensures
        r@ == known_key(i as int),
{
    match i {
            0 => "baseball",
            1 => "soccer",
            2 => "basketball",
            3 => "tennis",
            4 => "golf",
            5 => "hockey",
            6 => "cricket",
            7 => "rugby",
            8 => "handball",
            9 => "football",
            10 => "volleyball",
            11 => "water polo",
            12 => "equestrian",
            13 => "swimming",
            14 => "running",
            15 => "cycling",
            16 => "skating",
            17 => "skateboarding",
            18 => "surfing",
            19 => "skiing",
            20 => "snowboarding",
            21 => "rowing",
        _ => "wrestling",
    }
}

/// A text that, trimmed and lower-cased, is neither a catalog key nor the
/// `water_polo` spelling is read as a sport outside the catalog that holds
/// that trimmed, lower-cased text.
pub proof fn lemma_unknown_text_kept(s: Seq<char>)
    requires
        key_position(lowered(trimmed(s)), 0) is None,
        lowered(trimmed(s)) != water_polo_synonym(),
    ensures
        text_category(s) == Category::Custom(lowered(trimmed(s))),
{
}

/// The canonical name of each catalog sport is read back as that sport.
pub proof fn lemma_canonical_name_parses(i: int)
    requires
        0 <= i < KNOWN_SPORTS,
    ensures
        text_category(known_name(i)) == Category::Known(i),
{
    lemma_known_name_text(i);
    lemma_keys_distinct(i);
}

pub(crate) proof fn lemma_known_name_text(i: int)
    requires
        0 <= i < KNOWN_SPORTS,
    ensures
        forall|j: int| 0 <= j < known_name(i).len() ==> #[trigger] known_name(i)[j] != '\0',
        trimmed(known_name(i)) == known_name(i),
        is_ascii_text(known_name(i)),
        ascii_lower(known_name(i)) == known_key(i),
{
    {
        reveal_strlit("Baseball");
        reveal_strlit("baseball");
        reveal_strlit("Soccer");
        reveal_strlit("soccer");
        reveal_strlit("Basketball");
        reveal_strlit("basketball");
        reveal_strlit("Tennis");
        reveal_strlit("tennis");
        reveal_strlit("Golf");
        reveal_strlit("golf");
        reveal_strlit("Hockey");
        reveal_strlit("hockey");
        reveal_strlit("Cricket");
        reveal_strlit("cricket");
        reveal_strlit("Rugby");
        reveal_strlit("rugby");
        reveal_strlit("Handball");
        reveal_strlit("handball");
        reveal_strlit("Football");
        reveal_strlit("football");
        reveal_strlit("Volleyball");
        reveal_strlit("volleyball");
        reveal_strlit("Water polo");
        reveal_strlit("water polo");
        reveal_strlit("Equestrian");
        reveal_strlit("equestrian");
        reveal_strlit("Swimming");
        reveal_strlit("swimming");
        reveal_strlit("Running");
        reveal_strlit("running");
        reveal_strlit("Cycling");
        reveal_strlit("cycling");
        reveal_strlit("Skating");
        reveal_strlit("skating");
        reveal_strlit("Skateboarding");
        reveal_strlit("skateboarding");
        reveal_strlit("Surfing");
        reveal_strlit("surfing");
        reveal_strlit("Skiing");
        reveal_strlit("skiing");
        reveal_strlit("Snowboarding");
        reveal_strlit("snowboarding");
        reveal_strlit("Rowing");
        reveal_strlit("rowing");
        reveal_strlit("Wrestling");
        reveal_strlit("wrestling");
    }
    assert(ascii_lower(known_name(i)) =~= known_key(i));
}

/// Catalog keys differ: no two share their length and first two characters.
proof fn lemma_keys_distinct(i: int)
    requires
        0 <= i < KNOWN_SPORTS,
    ensures
        key_position(known_key(i), 0) == Some(i),
{
    {
        reveal_strlit("baseball");
        reveal_strlit("soccer");
        reveal_strlit("basketball");
        reveal_strlit("tennis");
        reveal_strlit("golf");
        reveal_strlit("hockey");
        reveal_strlit("cricket");
        reveal_strlit("rugby");
        reveal_strlit("handball");
        reveal_strlit("football");
        reveal_strlit("volleyball");
        reveal_strlit("water polo");
        reveal_strlit("equestrian");
        reveal_strlit("swimming");
        reveal_strlit("running");
        reveal_strlit("cycling");
        reveal_strlit("skating");
        reveal_strlit("skateboarding");
        reveal_strlit("surfing");
        reveal_strlit("skiing");
        reveal_strlit("snowboarding");
        reveal_strlit("rowing");
        reveal_strlit("wrestling");
    }
    assert forall|j: int| 0 <= j < i implies known_key(j) != known_key(i) by {
        assert(known_key(j).len() != known_key(i).len() || known_key(j)[0] != known_key(i)[0]
            || known_key(j)[1] != known_key(i)[1]);
    }
    reveal_with_fuel(key_position, 24);
}

} // verus!
