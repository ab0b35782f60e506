use iterm_player::catalog::Station;
use iterm_player::nowplaying::{now_playing_feed, now_playing_text, Json};

fn s(x: &str) -> Json {
    Json::Str(x.to_string())
}

fn obj(members: Vec<(&str, Json)>) -> Json {
    Json::Object(members.into_iter().map(|(k, v)| (k.to_string(), v)).collect())
}

fn nts_feed() -> Json {
    obj(vec![(
        "results",
        Json::Array(vec![
            obj(vec![
                ("channel_name", s("1")),
                (
                    "now",
                    obj(vec![
                        ("broadcast_title", s("Morning Show")),
                        (
                            "embeds",
                            obj(vec![("details", obj(vec![("location_long", s("London"))]))]),
                        ),
                    ]),
                ),
            ]),
            obj(vec![
                ("channel_name", s("2")),
                ("now", obj(vec![("broadcast_title", s("Late Mix"))])),
            ]),
        ]),
    )])
}

fn fip_feed() -> Json {
    obj(vec![
        (
            "levels",
            Json::Array(vec![obj(vec![
                ("position", Json::Number(Some(1))),
                ("items", Json::Array(vec![s("a"), s("b")])),
            ])]),
        ),
        (
            "steps",
            obj(vec![
                ("a", obj(vec![("title", s("Old"))])),
                ("b", obj(vec![("title", s("Tune")), ("authors", s("Band"))])),
            ]),
        ),
    ])
}

#[test]
fn nts_channels() {
    let feed = nts_feed();
    assert_eq!(now_playing_text(Station::at(0), Some(&feed)), "Morning Show — London");
    assert_eq!(now_playing_text(Station::at(1), Some(&feed)), "Late Mix");
}

#[test]
fn nts_missing_channel_or_feed() {
    let feed = obj(vec![("results", Json::Array(vec![]))]);
    assert_eq!(now_playing_text(Station::at(0), Some(&feed)), "Unknown");
    assert_eq!(now_playing_text(Station::at(0), None), "Unknown");
    let odd = obj(vec![("results", Json::Array(vec![obj(vec![("channel_name", s("1"))])]))]);
    assert_eq!(now_playing_text(Station::at(0), Some(&odd)), "Unknown");
}

#[test]
fn fip_step() {
    let feed = fip_feed();
    assert_eq!(now_playing_text(Station::at(3), Some(&feed)), "Tune — Band");
    let bad = obj(vec![("levels", Json::Array(vec![obj(vec![("position", Json::Number(Some(5))), ("items", Json::Array(vec![s("a")]))])]))]);
    assert_eq!(now_playing_text(Station::at(3), Some(&bad)), "Unknown");
    let float = obj(vec![("levels", Json::Array(vec![obj(vec![("position", Json::Number(None)), ("items", Json::Array(vec![s("a")]))])]))]);
    assert_eq!(now_playing_text(Station::at(3), Some(&float)), "Unknown");
}

#[test]
fn stations_without_feed() {
    assert_eq!(now_playing_feed(Station::at(2)), None);
    assert_eq!(now_playing_text(Station::at(2), None), "Unknown");
    assert_eq!(now_playing_feed(Station::at(0)), Some("https://www.nts.live/api/v2/live"));
    assert_eq!(now_playing_feed(Station::at(3)), Some("https://api.radiofrance.fr/livemeta/pull/7"));
}
