use quaero_engines::encode::{encode, QueryParams};
use quaero_engines::engine::{request, strip_prefix, text_or_empty, trim_start};
use quaero_engines::search::SafeSearch;
use quaero_engines::text::{
    decimal_digits, equals, find, from_chars, matches_at, push_decimal, push_padded_decimal,
    push_signed_decimal, push_signed_padded_decimal, starts_with, to_chars,
};
use quaero_engines::time::{DateTimeRange, UtcDateTime};

fn with(f: impl Fn(&mut String)) -> String {
    let mut s = String::from(">");
    f(&mut s);
    s
}

#[test]
fn decimal_notation() {
    assert_eq!(with(|s| push_decimal(s, 0)), ">0");
    assert_eq!(with(|s| push_decimal(s, 9)), ">9");
    assert_eq!(with(|s| push_decimal(s, 10)), ">10");
    assert_eq!(with(|s| push_decimal(s, 1234567890)), ">1234567890");
    assert_eq!(with(|s| push_decimal(s, u128::MAX)), format!(">{}", u128::MAX));
    assert_eq!(decimal_digits(407), vec!['4', '0', '7']);
}

#[test]
fn signed_decimal_notation() {
    assert_eq!(with(|s| push_signed_decimal(s, 0)), ">0");
    assert_eq!(with(|s| push_signed_decimal(s, -1)), ">-1");
    assert_eq!(with(|s| push_signed_decimal(s, 2024)), ">2024");
    assert_eq!(with(|s| push_signed_decimal(s, i64::MIN)), format!(">{}", i64::MIN));
    assert_eq!(with(|s| push_signed_decimal(s, i64::MAX)), format!(">{}", i64::MAX));
}

#[test]
fn padded_decimal_notation() {
    assert_eq!(with(|s| push_padded_decimal(s, 7, 2)), ">07");
    assert_eq!(with(|s| push_padded_decimal(s, 12, 2)), ">12");
    assert_eq!(with(|s| push_padded_decimal(s, 123, 2)), ">123");
    assert_eq!(with(|s| push_padded_decimal(s, 0, 0)), ">0");
    assert_eq!(with(|s| push_padded_decimal(s, 5, 4)), ">0005");
    for (n, width) in [(0i64, 4usize), (33, 4), (2024, 4), (12345, 4), (-5, 4), (-123, 4), (-1234, 4), (-7, 0), (-7, 1), (-7, 2)] {
        let expected = match width {
            0 => format!(">{n:00}"),
            1 => format!(">{n:01}"),
            2 => format!(">{n:02}"),
            _ => format!(">{n:04}"),
        };
        assert_eq!(with(|s| push_signed_padded_decimal(s, n, width)), expected);
    }
}

#[test]
fn characters_of_strings() {
    assert_eq!(to_chars("a\u{e9}\u{1f600}"), vec!['a', '\u{e9}', '\u{1f600}']);
    assert_eq!(from_chars(&vec!['a', '\u{e9}', '\u{1f600}']), "a\u{e9}\u{1f600}");
    assert_eq!(to_chars(""), Vec::<char>::new());
}

#[test]
fn comparing_and_searching() {
    assert!(equals("abc", "abc"));
    assert!(!equals("abc", "abd"));
    assert!(!equals("abc", "ab"));
    assert!(equals("", ""));
    assert!(starts_with("abc", "ab"));
    assert!(starts_with("abc", ""));
    assert!(starts_with("abc", "abc"));
    assert!(!starts_with("abc", "abcd"));
    assert!(!starts_with("abc", "bc"));
    let text = to_chars("xxRU=aRU=");
    assert_eq!(find(&text, &to_chars("RU=")), Some(2));
    assert_eq!(find(&text, &to_chars("RU=a")), Some(2));
    assert_eq!(find(&text, &to_chars("U=")), Some(3));
    assert_eq!(find(&text, &to_chars("RK")), None);
    assert_eq!(find(&text, &to_chars("")), Some(0));
    assert_eq!(find(&text, &to_chars("xxRU=aRU=")), Some(0));
    assert_eq!(find(&text, &to_chars("xxRU=aRU=x")), None);
    assert_eq!(find(&to_chars(""), &to_chars("")), Some(0));
    assert!(matches_at(&text, &to_chars("RU="), 6));
    assert!(!matches_at(&text, &to_chars("RU="), 7));
    assert!(matches_at(&text, &to_chars(""), 9));
    assert!(!matches_at(&text, &to_chars(""), 10));
}

#[test]
fn percent_encoding() {
    assert_eq!(encode(""), "");
    assert_eq!(encode("AZaz09-._~"), "AZaz09-._~");
    assert_eq!(encode(" "), "%20");
    assert_eq!(encode("a b+c"), "a%20b%2Bc");
    assert_eq!(encode("!*'();:@&=+$,/?#[]%"), "%21%2A%27%28%29%3B%3A%40%26%3D%2B%24%2C%2F%3F%23%5B%5D%25");
    assert_eq!(encode("\u{e9}"), "%C3%A9");
    assert_eq!(encode("\u{20ac}"), "%E2%82%AC");
    assert_eq!(encode("\u{1f600}"), "%F0%9F%98%80");
    assert_eq!(encode("\n\u{7f}\u{0}"), "%0A%7F%00");
}

#[test]
fn query_strings() {
    assert_eq!(QueryParams::new().finish(), "");
    let mut q = QueryParams::new();
    q.add("q", "a&b");
    assert_eq!(q.finish(), "q=a%26b");
    let mut q = QueryParams::new();
    q.add("k", "");
    q.add_number("n", 42);
    q.add("k", "again");
    q.add("odd name", "v");
    q.add_list("l", &vec!["x", "y z", ""]);
    q.add_list("e", &vec![]);
    q.add_list("one", &vec!["1"]);
    assert_eq!(q.finish(), "k=&n=42&k=again&odd%20name=v&l=x&l=y%20z&l=&one=1");
    let mut only = QueryParams::new();
    only.add_list("s", &vec!["a,b", "c"]);
    assert_eq!(only.finish(), "s=a%2Cb&s=c");
}

#[test]
fn prefixes_and_white_space() {
    assert_eq!(strip_prefix("/url?q=https://a/", "/url?q="), "https://a/");
    assert_eq!(strip_prefix("https://a//url?q=", "/url?q="), "https://a//url?q=");
    assert_eq!(strip_prefix("/url?q=", "/url?q="), "");
    assert_eq!(strip_prefix("/url?q=/url?q=x", "/url?q="), "/url?q=x");
    assert_eq!(strip_prefix("", "x"), "");
    for text in ["", "a", "  a  ", "\t\n\u{b}\u{c}\r a", "\u{a0}\u{2003}\u{3000}a b ", "\u{200b}a", " \u{85}\u{1680}\u{2028}\u{2029}\u{202f}\u{205f}x", "   "] {
        assert_eq!(trim_start(text), text.trim_start());
    }
    assert_eq!(text_or_empty(&Some("a".to_string())), "a");
    assert_eq!(text_or_empty(&None), "");
}

#[test]
fn safe_search_levels() {
    assert_eq!(SafeSearch::Off.as_lowercase_string(), "off");
    assert_eq!(SafeSearch::Moderate.as_lowercase_string(), "moderate");
    assert_eq!(SafeSearch::Strict.as_lowercase_string(), "strict");
    assert_eq!(
        [SafeSearch::Off.as_u8_bool(), SafeSearch::Moderate.as_u8_bool(), SafeSearch::Strict.as_u8_bool()],
        [0, 1, 1]
    );
    assert_eq!(
        [
            SafeSearch::Off.as_incrementing_usize(),
            SafeSearch::Moderate.as_incrementing_usize(),
            SafeSearch::Strict.as_incrementing_usize()
        ],
        [0, 1, 2]
    );
}

fn moment(secs: i64) -> UtcDateTime {
    UtcDateTime::from_timestamp(secs).unwrap()
}

#[test]
fn calendar_dates() {
    let t = moment(0);
    assert_eq!((t.timestamp(), t.year(), t.month(), t.day(), t.days_since_epoch()), (0, 1970, 1, 1, 0));
    let t = moment(-1);
    assert_eq!((t.year(), t.month(), t.day(), t.days_since_epoch()), (1969, 12, 31, 0));
    let t = moment(-86_400);
    assert_eq!((t.year(), t.month(), t.day(), t.days_since_epoch()), (1969, 12, 31, -1));
    let t = moment(1_709_251_199);
    assert_eq!((t.year(), t.month(), t.day(), t.days_since_epoch()), (2024, 2, 29, 19_782));
    let t = moment(-62_198_755_200);
    assert_eq!((t.year(), t.month(), t.day()), (-1, 1, 1));
    assert!(UtcDateTime::from_timestamp(i64::MAX).is_none());
    assert!(UtcDateTime::from_timestamp(i64::MIN).is_none());
}

fn closest(duration: i64, presets: &[(i64, char)]) -> char {
    DateTimeRange { start: moment(1_000), end: moment(1_000 + duration) }.find_closest_preset(presets)
}

#[test]
fn closest_preset_on_exact_durations() {
    let presets = [(3_600, 'h'), (86_400, 'd'), (604_800, 'w'), (2_592_000, 'm'), (31_536_000, 'y')];
    for (duration, label) in presets {
        assert_eq!(closest(duration, &presets), label);
    }
}

#[test]
fn closest_preset_between_two() {
    let presets = [(3_600, 'h'), (86_400, 'd'), (604_800, 'w'), (2_592_000, 'm'), (31_536_000, 'y')];
    assert_eq!(closest(45_000 - 1, &presets), 'h');
    assert_eq!(closest(45_000 + 1, &presets), 'd');
    assert_eq!(closest(345_599, &presets), 'd');
    assert_eq!(closest(345_601, &presets), 'w');
    assert_eq!(closest(20_000_000, &presets), 'y');
    assert_eq!(closest(10_000_000, &presets), 'm');
}

#[test]
fn closest_preset_ties_go_to_the_smaller() {
    let presets = [(3_600, 'h'), (86_400, 'd'), (604_800, 'w')];
    assert_eq!(closest(45_000, &presets), 'h');
    assert_eq!(closest(345_600, &presets), 'd');
    assert_eq!(closest(5, &[(0, 'a'), (10, 'b')]), 'a');
    assert_eq!(closest(5, &[(10, 'b'), (0, 'a')]), 'b');
}

#[test]
fn closest_preset_outside_the_presets() {
    let presets = [(3_600, 'h'), (86_400, 'd')];
    assert_eq!(closest(0, &presets), 'h');
    assert_eq!(closest(-1_000_000, &presets), 'h');
    assert_eq!(closest(1_000_000_000, &presets), 'd');
    assert_eq!(closest(77, &[(5, 'x')]), 'x');
}

#[test]
fn closest_preset_over_the_widest_range() {
    let far = 8_000_000_000_000i64;
    let range = DateTimeRange { start: moment(-far), end: moment(far) };
    assert_eq!(range.find_closest_preset(&[(0, 'a'), (i64::MAX, 'b'), (i64::MIN, 'c')]), 'a');
    let back = DateTimeRange { start: moment(far), end: moment(-far) };
    assert_eq!(back.find_closest_preset(&[(i64::MAX, 'b'), (i64::MIN, 'c'), (-1, 'a')]), 'a');
}

#[test]
fn signed_numbers_as_parameters() {
    let mut q = QueryParams::new();
    q.add_signed_number("from_year", 2024);
    q.add_signed_number("to_year", -44);
    q.add_signed_number("zero", 0);
    assert_eq!(q.finish(), "from_year=2024&to_year=-44&zero=0");
}

#[test]
fn request_is_address_and_query_string() {
    let mut q = QueryParams::new();
    q.add("q", "a b");
    q.add("n", "1");
    assert_eq!(request("https://example.com/search", q), "https://example.com/search?q=a%20b&n=1");
    assert_eq!(request("https://example.com/", QueryParams::new()), "https://example.com/?");
}
