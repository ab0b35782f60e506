use vstd::prelude::*;

use crate::catalog::Station;
use crate::text::{chars_equal, chars_of, push_chars};

verus! {

/// A JSON document as the metadata services send it: numbers are kept as the
/// unsigned integer they denote, if they denote one.
pub enum Json {
    Null,
    Bool(bool),
    Number(Option<u64>),
    Str(String),
    Array(Vec<Json>),
    Object(Vec<(String, Json)>),
}

/// The value behind an optional reference.
pub open spec fn opt(r: Option<&Json>) -> Option<Json> {
    match r {
        Some(x) => Some(*x),
        None => None,
    }
}

/// The value of the first member named `key`.
pub open spec fn lookup(entries: Seq<(String, Json)>, key: Seq<char>) -> Option<Json>
    decreases entries.len(),
{
    if entries.len() == 0 {
        None
    } else if entries[0].0@ == key {
        Some(entries[0].1)
    } else {
        lookup(entries.drop_first(), key)
    }
}

/// The member `key` of an object; nothing for a missing member or a value
/// that is not an object.
pub open spec fn field(v: Option<Json>, key: Seq<char>) -> Option<Json> {
    match v {
        Some(Json::Object(entries)) => lookup(entries@, key),
        _ => None,
    }
}

/// The text of a string value.
pub open spec fn as_text(v: Option<Json>) -> Option<Seq<char>> {
    match v {
        Some(Json::Str(s)) => Some(s@),
        _ => None,
    }
}

/// The elements of an array value.
pub open spec fn as_list(v: Option<Json>) -> Option<Seq<Json>> {
    match v {
        Some(Json::Array(a)) => Some(a@),
        _ => None,
    }
}

/// The unsigned integer a number value denotes.
pub open spec fn as_count(v: Option<Json>) -> Option<u64> {
    match v {
        Some(Json::Number(n)) => n,
        _ => None,
    }
}

/// The text, or `default` when there is none.
pub open spec fn text_or(t: Option<Seq<char>>, default: Seq<char>) -> Seq<char> {
    match t {
        Some(s) => s,
        None => default,
    }
}

/// A title, followed by ` — ` and a detail when the detail is not empty.
pub open spec fn titled(title: Seq<char>, detail: Seq<char>) -> Seq<char> {
    if detail.len() == 0 {
        title
    } else {
        title + " — "@ + detail
    }
}

/// The member `key` of an object.
pub fn get_field<'a>(v: Option<&'a Json>, key: &str) -> (r: Option<&'a Json>)
    ensures
        opt(r) == field(opt(v), key@),
{
    match v {
        Some(Json::Object(entries)) => {
            assert(field(opt(v), key@) == lookup(entries@, key@));
            let k = chars_of(key);
            let n = entries.len();
            let mut i: usize = 0;
            assert(entries@.subrange(0, n as int) =~= entries@);
            while i < n
                invariant
                    i <= n,
                    n == entries@.len(),
                    k@ == key@,
                    field(opt(v), key@) == lookup(entries@, key@),
                    lookup(entries@, key@) == lookup(entries@.subrange(i as int, n as int), key@),
                decreases n - i,
            {
                assert(entries@.subrange(i as int, n as int).drop_first() =~= entries@.subrange(
                    i + 1,
                    n as int,
                ));
                assert(entries@.subrange(i as int, n as int)[0] == entries@[i as int]);
                if chars_equal(&chars_of(entries[i].0.as_str()), &k) {
                    assert(entries@[i as int].0@ == key@);
                    assert(lookup(entries@.subrange(i as int, n as int), key@) == Some(entries@[i as int].1));
                    return Some(&entries[i].1);
                }
                i = i + 1;
            }
            None
        },
        _ => None,
    }
}

/// The text of a string value.
pub fn get_text<'a>(v: Option<&'a Json>) -> (r: Option<&'a String>)
    ensures
        match r {
            Some(s) => as_text(opt(v)) == Some(s@),
            None => as_text(opt(v)) is None,
        },
{
    match v {
        Some(Json::Str(s)) => Some(s),
        _ => None,
    }
}

/// The elements of an array value.
pub fn get_list<'a>(v: Option<&'a Json>) -> (r: Option<&'a Vec<Json>>)
    ensures
        match r {
            Some(a) => as_list(opt(v)) == Some(a@),
            None => as_list(opt(v)) is None,
        },
{
    match v {
        Some(Json::Array(a)) => Some(a),
        _ => None,
    }
}

/// The unsigned integer a number value denotes.
pub fn get_count(v: Option<&Json>) -> (r: Option<u64>)
    ensures
        r == as_count(opt(v)),
{
    match v {
        Some(Json::Number(n)) => *n,
        _ => None,
    }
}

fn text_or_default(t: Option<&String>, default: &str) -> (s: Vec<char>)
    ensures
        s@ == text_or(
            match t {
                Some(x) => Some(x@),
                None => None,
            },
            default@,
        ),
{
    match t {
        Some(x) => chars_of(x.as_str()),
        None => chars_of(default),
    }
}

fn titled_text(title: &[char], detail: &[char]) -> (s: String)
    ensures
        s@ == titled(title@, detail@),
{
    let mut s = String::new();
    push_chars(&mut s, title);
    if detail.len() > 0 {
        push_chars(&mut s, &chars_of(" — "));
        push_chars(&mut s, detail);
    }
    assert(s@ =~= titled(title@, detail@));
    s
}

// ---------------------------------------------------------------------------
// NTS
// ---------------------------------------------------------------------------

/// The first entry whose `channel_name` is `channel`.
pub open spec fn channel_entry(results: Seq<Json>, channel: Seq<char>) -> Option<Json>
    decreases results.len(),
{
    if results.len() == 0 {
        None
    } else if as_text(field(Some(results[0]), "channel_name"@)) == Some(channel) {
        Some(results[0])
    } else {
        channel_entry(results.drop_first(), channel)
    }
}

/// What the NTS live feed says plays on `channel`: the broadcast title
/// ("Unknown" when missing) and the location when one is given; nothing when
/// the feed has no entry for the channel.
pub open spec fn nts_now_playing(json: Option<Json>, channel: Seq<char>) -> Option<Seq<char>> {
    match as_list(field(json, "results"@)) {
        None => None,
        Some(results) => match channel_entry(results, channel) {
            None => None,
            Some(entry) => {
                let now = field(Some(entry), "now"@);
                let title = text_or(as_text(field(now, "broadcast_title"@)), "Unknown"@);
                let location = text_or(
                    as_text(field(field(field(now, "embeds"@), "details"@), "location_long"@)),
                    ""@,
                );
                Some(titled(title, location))
            },
        },
    }
}

fn nts_text(json: Option<&Json>, channel: &str) -> (r: Option<String>)
    ensures
        match r {
            Some(s) => nts_now_playing(opt(json), channel@) == Some(s@),
            None => nts_now_playing(opt(json), channel@) is None,
        },
{
    let results = match get_list(get_field(json, "results")) {
        Some(a) => a,
        None => return None,
    };
    let want = chars_of(channel);
    let n = results.len();
    let mut i: usize = 0;
    assert(results@.subrange(0, n as int) =~= results@);
    while i < n
        invariant
            i <= n,
            n == results@.len(),
            want@ == channel@,
            as_list(field(opt(json), "results"@)) == Some(results@),
            channel_entry(results@, channel@) == channel_entry(
                results@.subrange(i as int, n as int),
                channel@,
            ),
        decreases n - i,
    {
        let entry: &Json = &results[i];
        assert(results@.subrange(i as int, n as int).drop_first() =~= results@.subrange(
            i + 1,
            n as int,
        ));
        let name = get_text(get_field(Some(entry), "channel_name"));
        let hit = match name {
            Some(s) => chars_equal(&chars_of(s.as_str()), &want),
            None => false,
        };
        assert(results@.subrange(i as int, n as int)[0] == results@[i as int]);
        if hit {
            assert(as_text(field(Some(results@[i as int]), "channel_name"@)) == Some(channel@));
            let now = get_field(Some(entry), "now");
            let title = text_or_default(get_text(get_field(now, "broadcast_title")), "Unknown");
            let location = text_or_default(
                get_text(get_field(get_field(get_field(now, "embeds"), "details"), "location_long")),
                "",
            );
            return Some(titled_text(&title, &location));
        }
        i = i + 1;
    }
    None
}

// ---------------------------------------------------------------------------
// FIP
// ---------------------------------------------------------------------------

/// What the Radio France live feed says plays: the step that the first
/// level's position points at, with its title ("Unknown" when missing) and
/// its authors when given; nothing when the feed lacks the level, the
/// position or the item.
pub open spec fn fip_now_playing(json: Option<Json>) -> Option<Seq<char>> {
    match as_list(field(json, "levels"@)) {
        None => None,
        Some(levels) => if levels.len() == 0 {
            None
        } else {
            let level = Some(levels[0]);
            match as_count(field(level, "position"@)) {
                None => None,
                Some(pos) => match as_list(field(level, "items"@)) {
                    None => None,
                    Some(items) => if pos >= items.len() {
                        None
                    } else {
                        match as_text(Some(items[pos as int])) {
                            None => None,
                            Some(uid) => {
                                let step = field(field(json, "steps"@), uid);
                                let title = text_or(as_text(field(step, "title"@)), "Unknown"@);
                                let authors = text_or(as_text(field(step, "authors"@)), ""@);
                                Some(titled(title, authors))
                            },
                        }
                    },
                },
            }
        },
    }
}

fn fip_text(json: Option<&Json>) -> (r: Option<String>)
    ensures
        match r {
            Some(s) => fip_now_playing(opt(json)) == Some(s@),
            None => fip_now_playing(opt(json)) is None,
        },
{
    let levels = match get_list(get_field(json, "levels")) {
        Some(a) => a,
        None => return None,
    };
    if levels.len() == 0 {
        return None;
    }
    let level: &Json = &levels[0];
    let pos = match get_count(get_field(Some(level), "position")) {
        Some(p) => p,
        None => return None,
    };
    let items = match get_list(get_field(Some(level), "items")) {
        Some(a) => a,
        None => return None,
    };
    if pos >= items.len() as u64 {
        return None;
    }
    let item: &Json = &items[pos as usize];
    let uid = match get_text(Some(item)) {
        Some(u) => u,
        None => return None,
    };
    let step = get_field(get_field(json, "steps"), uid.as_str());
    let title = text_or_default(get_text(get_field(step, "title")), "Unknown");
    let authors = text_or_default(get_text(get_field(step, "authors")), "");
    Some(titled_text(&title, &authors))
}

// ---------------------------------------------------------------------------
// Per station
// ---------------------------------------------------------------------------

/// The live-metadata address polled for station `i`, if it has one.
pub open spec fn feed_url(i: int) -> Option<Seq<char>> {
    if i == 0 || i == 1 {
        Some("https://www.nts.live/api/v2/live"@)
    } else if i == 3 {
        Some("https://api.radiofrance.fr/livemeta/pull/7"@)
    } else {
        None
    }
}

/// The live-metadata address to poll for `station`, if it has one.
pub fn now_playing_feed(station: Station) -> (u: Option<&'static str>)
    requires
        station.wf(),
    ensures
        match u {
            Some(s) => feed_url(station.index as int) == Some(s@),
            None => feed_url(station.index as int) is None,
        },
{
    if station.index == 0 || station.index == 1 {
        Some("https://www.nts.live/api/v2/live")
    } else if station.index == 3 {
        Some("https://api.radiofrance.fr/livemeta/pull/7")
    } else {
        None
    }
}

/// The track line for station `i` given the feed's document (none when the
/// feed could not be fetched or read): NTS 1 and NTS 2 read their channel of
/// the NTS feed, FIP reads the Radio France feed, and any line that cannot be
/// made out is "Unknown".
pub open spec fn now_playing_line(i: int, json: Option<Json>) -> Seq<char> {
    let found = if i == 0 {
        match json {
            Some(_) => nts_now_playing(json, "1"@),
            None => None,
        }
    } else if i == 1 {
        match json {
            Some(_) => nts_now_playing(json, "2"@),
            None => None,
        }
    } else if i == 3 {
        match json {
            Some(_) => fip_now_playing(json),
            None => None,
        }
    } else {
        Some("Unknown"@)
    };
    text_or(found, "Unknown"@)
}

/// The track line shown for `station`, from the document its feed returned.
pub fn now_playing_text(station: Station, json: Option<&Json>) -> (s: String)
    requires
        station.wf(),
    ensures
        s@ == now_playing_line(station.index as int, opt(json)),
{
    let found = if station.index == 0 || station.index == 1 {
        match json {
            Some(_) => nts_text(json, if station.index == 0 { "1" } else { "2" }),
            None => None,
        }
    } else if station.index == 3 {
        match json {
            Some(_) => fip_text(json),
            None => None,
        }
    } else {
        Some(String::from_str("Unknown"))
    };
    match found {
        Some(s) => s,
        None => String::from_str("Unknown"),
    }
}

} // verus!
