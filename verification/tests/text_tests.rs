use iterm_player::completion::{complete_from_candidates, longest_common_prefix};
use iterm_player::search_path::{gstreamer_search_dirs, prepend_path};
use iterm_player::text::{is_white_space, parse_u8_chars, strip_all_prefixes_chars, trim_chars};

fn chars(s: &str) -> Vec<char> {
    s.chars().collect()
}

fn text(v: &[char]) -> String {
    v.iter().collect()
}

#[test]
fn trim_removes_surrounding_whitespace() {
    assert_eq!(text(&trim_chars(&chars("  /play nts1 \t"))), "/play nts1");
    assert_eq!(text(&trim_chars(&chars("   "))), "");
    assert_eq!(text(&trim_chars(&chars("a b"))), "a b");
}

#[test]
fn strip_removes_every_leading_copy() {
    assert_eq!(text(&strip_all_prefixes_chars(&chars("/color /color red"), &chars("/color "))), "red");
    assert_eq!(text(&strip_all_prefixes_chars(&chars("red"), &chars("/color "))), "red");
}

#[test]
fn parse_u8_accepts_plain_decimal() {
    assert_eq!(parse_u8_chars(&chars("255")), Some(255));
    assert_eq!(parse_u8_chars(&chars("+5")), Some(5));
    assert_eq!(parse_u8_chars(&chars("007")), Some(7));
    assert_eq!(parse_u8_chars(&chars("0")), Some(0));
}

#[test]
fn parse_u8_rejects_the_rest() {
    assert_eq!(parse_u8_chars(&chars("256")), None);
    assert_eq!(parse_u8_chars(&chars("")), None);
    assert_eq!(parse_u8_chars(&chars("+")), None);
    assert_eq!(parse_u8_chars(&chars("-1")), None);
    assert_eq!(parse_u8_chars(&chars("3a")), None);
    assert_eq!(parse_u8_chars(&chars("99999999999")), None);
}

#[test]
fn common_prefix_of_candidates() {
    assert_eq!(text(&longest_common_prefix(&[chars("nts1"), chars("nts2")])), "nts");
    assert_eq!(text(&longest_common_prefix(&[chars("/quit"), chars("/q")])), "/q");
    assert_eq!(text(&longest_common_prefix(&[chars("abc"), chars("xyz"), chars("abd")])), "");
    assert_eq!(text(&longest_common_prefix(&[chars("solo")])), "solo");
}

#[test]
fn completion_against_candidates() {
    let commands = ["/play", "/next", "/stop", "/color", "/volume", "/quit", "/q"];
    assert_eq!(complete_from_candidates(&chars("/pl"), &commands).map(|v| text(&v)), Some("/play".to_string()));
    assert_eq!(complete_from_candidates(&chars("/"), &commands).map(|v| text(&v)), Some("/".to_string()));
    assert_eq!(complete_from_candidates(&chars("/q"), &commands).map(|v| text(&v)), Some("/q".to_string()));
    assert_eq!(complete_from_candidates(&chars("/x"), &commands), None);
    let keys = ["nts1", "nts2", "worldwide", "fip"];
    assert_eq!(complete_from_candidates(&chars("n"), &keys).map(|v| text(&v)), Some("nts".to_string()));
    assert_eq!(complete_from_candidates(&chars("w"), &keys).map(|v| text(&v)), Some("worldwide".to_string()));
}

#[test]
fn prepend_search_path() {
    assert_eq!(prepend_path(b"/a", Some(b"/b:/c")), b"/a:/b:/c".to_vec());
    assert_eq!(prepend_path(b"/a", Some(b"")), b"/a".to_vec());
    assert_eq!(prepend_path(b"/a", None), b"/a".to_vec());
}

#[test]
fn gstreamer_directories() {
    let dirs = gstreamer_search_dirs();
    assert_eq!(dirs.len(), 4);
    assert_eq!(dirs[0], ("DYLD_FALLBACK_LIBRARY_PATH", "/opt/homebrew/lib"));
    assert_eq!(dirs[3], ("GIO_EXTRA_MODULES", "/opt/homebrew/lib/gio/modules"));
}

#[test]
fn whitespace_is_unicode_white_space() {
    assert!(is_white_space(' '));
    assert!(is_white_space('\t'));
    assert!(is_white_space('\u{3000}'));
    assert!(!is_white_space('a'));
    assert!(!is_white_space('\u{200b}'));
    for c in (0u32..=0x10FFFF).filter_map(char::from_u32) {
        assert_eq!(is_white_space(c), c.is_whitespace(), "{:?}", c);
    }
}
