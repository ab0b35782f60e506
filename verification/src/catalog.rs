use vstd::prelude::*;

use crate::text::{chars_equal, chars_of, push_chars, starts_with, to_lowercase, lowercase};

verus! {

/// How many stations the player knows.
pub const STATION_COUNT: usize = 4;

/// How many accent colours the player offers.
pub const THEME_COUNT: usize = 12;

/// One of the predefined radio stations, by its place in the catalogue.
#[derive(Clone, Copy, Debug, PartialEq, Eq, Structural)]
pub struct Station {
    pub index: usize,
}

/// One of the accent colours, by its place in the catalogue.
#[derive(Clone, Copy, Debug, PartialEq, Eq, Structural)]
pub struct Theme {
    pub index: usize,
}

/// The short key a station is chosen by.
pub open spec fn station_key(i: int) -> Seq<char> {
    if i == 0 {
        "nts1"@
    } else if i == 1 {
        "nts2"@
    } else if i == 2 {
        "worldwide"@
    } else {
        "fip"@
    }
}

/// The display name of a station.
pub open spec fn station_label(i: int) -> Seq<char> {
    if i == 0 {
        "NTS 1"@
    } else if i == 1 {
        "NTS 2"@
    } else if i == 2 {
        "Worldwide FM"@
    } else {
        "FIP"@
    }
}

/// The stream address of a station.
pub open spec fn station_stream(i: int) -> Seq<char> {
    if i == 0 {
        "https://stream-relay-geo.ntslive.net/stream?client=direct"@
    } else if i == 1 {
        "https://stream-relay-geo.ntslive.net/stream2?client=direct"@
    } else if i == 2 {
        "https://worldwide-fm.radiocult.fm/stream"@
    } else {
        "https://icecast.radiofrance.fr/fip-hifi.aac?id=radiofrance"@
    }
}

/// The name of an accent colour.
pub open spec fn theme_name(i: int) -> Seq<char> {
    if i == 0 {
        "cyan"@
    } else if i == 1 {
        "red"@
    } else if i == 2 {
        "yellow"@
    } else if i == 3 {
        "green"@
    } else if i == 4 {
        "blue"@
    } else if i == 5 {
        "pink"@
    } else if i == 6 {
        "magenta"@
    } else if i == 7 {
        "white"@
    } else if i == 8 {
        "grey"@
    } else if i == 9 {
        "dark-grey"@
    } else if i == 10 {
        "orange"@
    } else {
        "brown"@
    }
}

impl Station {
    /// The station is one of the catalogue's.
    pub open spec fn wf(self) -> bool {
        self.index < STATION_COUNT
    }

    /// The station at place `index` of the catalogue.
    pub fn at(index: usize) -> (s: Station)
        requires
            index < STATION_COUNT,
        ensures
            s.index == index,
            s.wf(),
    {
        Station { index }
    }

    /// The short key the station is chosen by.
    pub fn key(self) -> (k: &'static str)
        requires
            self.wf(),
        ensures
            k@ == station_key(self.index as int),
    {
        if self.index == 0 {
            "nts1"
        } else if self.index == 1 {
            "nts2"
        } else if self.index == 2 {
            "worldwide"
        } else {
            "fip"
        }
    }

    /// The display name of the station.
    pub fn label(self) -> (l: &'static str)
        requires
            self.wf(),
        ensures
            l@ == station_label(self.index as int),
    {
        if self.index == 0 {
            "NTS 1"
        } else if self.index == 1 {
            "NTS 2"
        } else if self.index == 2 {
            "Worldwide FM"
        } else {
            "FIP"
        }
    }

    /// The stream address of the station.
    pub fn stream(self) -> (u: &'static str)
        requires
            self.wf(),
        ensures
            u@ == station_stream(self.index as int),
    {
        if self.index == 0 {
            "https://stream-relay-geo.ntslive.net/stream?client=direct"
        } else if self.index == 1 {
            "https://stream-relay-geo.ntslive.net/stream2?client=direct"
        } else if self.index == 2 {
            "https://worldwide-fm.radiocult.fm/stream"
        } else {
            "https://icecast.radiofrance.fr/fip-hifi.aac?id=radiofrance"
        }
    }
}

impl Theme {
    /// The colour is one of the catalogue's.
    pub open spec fn wf(self) -> bool {
        self.index < THEME_COUNT
    }

    /// The colour at place `index` of the catalogue.
    pub fn at(index: usize) -> (t: Theme)
        requires
            index < THEME_COUNT,
        ensures
            t.index == index,
            t.wf(),
    {
        Theme { index }
    }

    /// The name of the colour.
    pub fn name(self) -> (n: &'static str)
        requires
            self.wf(),
        ensures
            n@ == theme_name(self.index as int),
    {
        if self.index == 0 {
            "cyan"
        } else if self.index == 1 {
            "red"
        } else if self.index == 2 {
            "yellow"
        } else if self.index == 3 {
            "green"
        } else if self.index == 4 {
            "blue"
        } else if self.index == 5 {
            "pink"
        } else if self.index == 6 {
            "magenta"
        } else if self.index == 7 {
            "white"
        } else if self.index == 8 {
            "grey"
        } else if self.index == 9 {
            "dark-grey"
        } else if self.index == 10 {
            "orange"
        } else {
            "brown"
        }
    }
}


// ---------------------------------------------------------------------------
// Finding stations and colours
// ---------------------------------------------------------------------------

/// Station `i` answers to `query`: its key or its lower-cased label equals the
/// query or starts with it.
pub open spec fn station_matches(i: int, query: Seq<char>) -> bool {
    let key = station_key(i);
    let label = lowercase(station_label(i));
    key == query || label == query || query.is_prefix_of(key) || query.is_prefix_of(label)
}

/// The first station, in catalogue order, that answers to `query`.
pub open spec fn first_station_match(query: Seq<char>, r: Option<Station>) -> bool {
    match r {
        Some(s) => s.wf() && station_matches(s.index as int, query) && forall|j: int|
            0 <= j < s.index ==> !#[trigger] station_matches(j, query),
        None => forall|j: int| 0 <= j < STATION_COUNT ==> !#[trigger] station_matches(j, query),
    }
}

/// The first station from place `i` on that answers to `query`.
pub open spec fn station_search(query: Seq<char>, i: int) -> Option<Station>
    decreases STATION_COUNT - i,
{
    if i < 0 || i >= STATION_COUNT {
        None
    } else if station_matches(i, query) {
        Some(Station { index: i as usize })
    } else {
        station_search(query, i + 1)
    }
}

/// A station found by a search is one of the catalogue's, and it answers to
/// the query.
pub proof fn station_search_finds_catalogue_station(query: Seq<char>, i: int)
    ensures
        station_search(query, i) matches Some(s) ==> s.wf() && station_matches(
            s.index as int,
            query,
        ),
    decreases STATION_COUNT - i,
{
    if 0 <= i < STATION_COUNT && !station_matches(i, query) {
        station_search_finds_catalogue_station(query, i + 1);
    }
}

/// The station that `query` picks.
pub open spec fn find_station(query: Seq<char>) -> Option<Station> {
    station_search(query, 0)
}

/// Looks a station up by key or name, or by the start of either: the first
/// station, in catalogue order, that answers to the query.
pub fn match_station(query: &[char]) -> (r: Option<Station>)
    ensures
        r == find_station(query@),
        first_station_match(query@, r),
{
    let mut i: usize = 0;
    while i < STATION_COUNT
        invariant
            i <= STATION_COUNT,
            station_search(query@, 0) == station_search(query@, i as int),
            forall|j: int| 0 <= j < i ==> !#[trigger] station_matches(j, query@),
        decreases STATION_COUNT - i,
    {
        let st = Station::at(i);
        let key = chars_of(st.key());
        let label = to_lowercase(&chars_of(st.label()));
        if chars_equal(&key, query) || chars_equal(&label, query) || starts_with(&key, query)
            || starts_with(&label, query) {
            return Some(st);
        }
        i = i + 1;
    }
    None
}

/// Colour `i` answers to `query`: its name equals the query or starts with it.
pub open spec fn theme_matches(i: int, query: Seq<char>) -> bool {
    theme_name(i) == query || query.is_prefix_of(theme_name(i))
}

/// The first colour, in catalogue order, that answers to `query`.
pub open spec fn first_theme_match(query: Seq<char>, r: Option<Theme>) -> bool {
    match r {
        Some(t) => t.wf() && theme_matches(t.index as int, query) && forall|j: int|
            0 <= j < t.index ==> !#[trigger] theme_matches(j, query),
        None => forall|j: int| 0 <= j < THEME_COUNT ==> !#[trigger] theme_matches(j, query),
    }
}

/// The first colour from place `i` on that answers to `query`.
pub open spec fn theme_search(query: Seq<char>, i: int) -> Option<Theme>
    decreases THEME_COUNT - i,
{
    if i < 0 || i >= THEME_COUNT {
        None
    } else if theme_matches(i, query) {
        Some(Theme { index: i as usize })
    } else {
        theme_search(query, i + 1)
    }
}

/// A colour found by a search is one of the catalogue's, and it answers to
/// the query.
pub proof fn theme_search_finds_catalogue_theme(query: Seq<char>, i: int)
    ensures
        theme_search(query, i) matches Some(t) ==> t.wf() && theme_matches(t.index as int, query),
    decreases THEME_COUNT - i,
{
    if 0 <= i < THEME_COUNT && !theme_matches(i, query) {
        theme_search_finds_catalogue_theme(query, i + 1);
    }
}

/// The colour that `query` picks.
pub open spec fn find_theme(query: Seq<char>) -> Option<Theme> {
    theme_search(query, 0)
}

/// Looks a colour up by its name or the start of it: the first colour, in
/// catalogue order, that answers to the query.
pub fn match_theme(query: &[char]) -> (r: Option<Theme>)
    ensures
        r == find_theme(query@),
        first_theme_match(query@, r),
{
    let mut i: usize = 0;
    while i < THEME_COUNT
        invariant
            i <= THEME_COUNT,
            theme_search(query@, 0) == theme_search(query@, i as int),
            forall|j: int| 0 <= j < i ==> !#[trigger] theme_matches(j, query@),
        decreases THEME_COUNT - i,
    {
        let t = Theme::at(i);
        let name = chars_of(t.name());
        if chars_equal(&name, query) || starts_with(&name, query) {
            return Some(t);
        }
        i = i + 1;
    }
    None
}

/// Typing a colour's full name picks that colour: no colour listed before it
/// has a name that equals it or starts with it.
pub proof fn full_color_name_picks_it(i: int)
    requires
        0 <= i < THEME_COUNT,
    ensures
        find_theme(theme_name(i)) == Some(Theme { index: i as usize }),
{
    reveal_strlit("cyan");
    reveal_strlit("red");
    reveal_strlit("yellow");
    reveal_strlit("green");
    reveal_strlit("blue");
    reveal_strlit("pink");
    reveal_strlit("magenta");
    reveal_strlit("white");
    reveal_strlit("grey");
    reveal_strlit("dark-grey");
    reveal_strlit("orange");
    reveal_strlit("brown");
    assert forall|j: int| 0 <= j < i implies !#[trigger] theme_matches(j, theme_name(i)) by {
        let a = theme_name(j);
        let b = theme_name(i);
        assert(a != b || b.len() > a.len() || b[0] != a[0] || b[1] != a[1] || b[2] != a[2] || b[3] != a[3]);
        if b.is_prefix_of(a) {
            assert(b[0] == a[0]);
            assert(b[1] == a[1]);
            assert(b[2] == a[2]);
            assert(b[3] == a[3]);
        }
    }
    lemma_theme_search_skips(theme_name(i), i);
}

proof fn lemma_theme_search_skips(q: Seq<char>, i: int)
    requires
        0 <= i < THEME_COUNT,
        theme_matches(i, q),
        forall|j: int| 0 <= j < i ==> !#[trigger] theme_matches(j, q),
    ensures
        theme_search(q, 0) == Some(Theme { index: i as usize }),
{
    lemma_theme_search_up(q, i, 0);
}

proof fn lemma_theme_search_up(q: Seq<char>, i: int, k: int)
    requires
        0 <= k <= i < THEME_COUNT,
        theme_matches(i, q),
        forall|j: int| 0 <= j < i ==> !#[trigger] theme_matches(j, q),
    ensures
        theme_search(q, k) == Some(Theme { index: i as usize }),
    decreases i - k,
{
    if k < i {
        lemma_theme_search_up(q, i, k + 1);
        assert(!theme_matches(k, q));
    }
}

/// The place of the station after `current` (wrapping round), or of the first
/// station when nothing plays.
pub open spec fn next_index(current: Option<Station>) -> int {
    match current {
        Some(s) => (s.index + 1) % (STATION_COUNT as int),
        None => 0,
    }
}

/// The station that `/next` switches to.
pub fn next_station(current: Option<Station>) -> (s: Station)
    requires
        current matches Some(c) ==> c.wf(),
    ensures
        s.wf(),
        s.index == next_index(current),
{
    match current {
        Some(c) => Station::at((c.index + 1) % STATION_COUNT),
        None => Station::at(0),
    }
}

/// Pressing `/next` as many times as there are stations comes back to the
/// station one started from, and every station is visited on the way.
pub proof fn next_station_cycles(s: Station)
    requires
        s.wf(),
    ensures
        ({
            let s1 = Station { index: next_index(Some(s)) as usize };
            let s2 = Station { index: next_index(Some(s1)) as usize };
            let s3 = Station { index: next_index(Some(s2)) as usize };
            &&& next_index(Some(s3)) == s.index
            &&& s.index != s1.index && s.index != s2.index && s.index != s3.index
            &&& s1.index != s2.index && s1.index != s3.index && s2.index != s3.index
        }),
{
}

// ---------------------------------------------------------------------------
// Listings
// ---------------------------------------------------------------------------

/// The items joined with `sep` between consecutive ones.
pub open spec fn joined(items: Seq<Seq<char>>, sep: Seq<char>) -> Seq<char>
    decreases items.len(),
{
    if items.len() == 0 {
        Seq::empty()
    } else if items.len() == 1 {
        items[0]
    } else {
        joined(items.drop_last(), sep) + sep + items.last()
    }
}

/// All station keys, in catalogue order.
pub open spec fn station_keys() -> Seq<Seq<char>> {
    Seq::new(STATION_COUNT as nat, |i: int| station_key(i))
}

/// All colour names, in catalogue order.
pub open spec fn theme_names() -> Seq<Seq<char>> {
    Seq::new(THEME_COUNT as nat, |i: int| theme_name(i))
}

/// Appends the station keys, separated by `", "`.
pub fn push_station_keys(s: &mut String)
    ensures
        final(s)@ == old(s)@ + joined(station_keys(), ", "@),
{
    let ghost start = s@;
    let mut i: usize = 0;
    while i < STATION_COUNT
        invariant
            i <= STATION_COUNT,
            s@ == start + joined(station_keys().subrange(0, i as int), ", "@),
        decreases STATION_COUNT - i,
    {
        if i > 0 {
            push_chars(s, &chars_of(", "));
        }
        push_chars(s, &chars_of(Station::at(i).key()));
        proof {
            let items = station_keys().subrange(0, i + 1);
            assert(items.drop_last() =~= station_keys().subrange(0, i as int));
            assert(s@ =~= start + joined(items, ", "@));
        }
        i = i + 1;
    }
    assert(station_keys().subrange(0, STATION_COUNT as int) =~= station_keys());
}

/// Appends the colour names, separated by `", "`.
pub fn push_theme_names(s: &mut String)
    ensures
        final(s)@ == old(s)@ + joined(theme_names(), ", "@),
{
    let ghost start = s@;
    let mut i: usize = 0;
    while i < THEME_COUNT
        invariant
            i <= THEME_COUNT,
            s@ == start + joined(theme_names().subrange(0, i as int), ", "@),
        decreases THEME_COUNT - i,
    {
        if i > 0 {
            push_chars(s, &chars_of(", "));
        }
        push_chars(s, &chars_of(Theme::at(i).name()));
        proof {
            let items = theme_names().subrange(0, i + 1);
            assert(items.drop_last() =~= theme_names().subrange(0, i as int));
            assert(s@ =~= start + joined(items, ", "@));
        }
        i = i + 1;
    }
    assert(theme_names().subrange(0, THEME_COUNT as int) =~= theme_names());
}

} // verus!
