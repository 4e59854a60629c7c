use quaero_engines::engine::Engine;
use quaero_engines::search::{SafeSearch, SearchError, SearchOptions};
use quaero_engines::time::{DateTimeRange, UtcDateTime};
use quaero_engines::{BingEngine, BraveEngine, GoogleEngine, MojeekEngine, YahooEngine, YandexEngine};

fn options(page_num: usize, safe_search: SafeSearch) -> SearchOptions {
    SearchOptions { page_num, safe_search, date_time_range: None }
}

fn range(start: i64, end: i64) -> Option<DateTimeRange> {
    Some(DateTimeRange {
        start: UtcDateTime::from_timestamp(start).unwrap(),
        end: UtcDateTime::from_timestamp(end).unwrap(),
    })
}

// 2024-01-01T00:00:00Z and 2024-02-01T00:00:00Z
const JAN_1: i64 = 1_704_067_200;
const FEB_1: i64 = 1_706_745_600;

#[test]
fn google_url_plain() {
    let url = GoogleEngine.url("rust lang", &options(2, SafeSearch::Moderate)).unwrap();
    assert_eq!(
        url,
        "https://www.google.com/search?q=rust%20lang&ie=utf8&start=20&filter=0&safe=moderate"
    );
}

#[test]
fn google_url_counts_results_from_zero() {
    for (page, start) in [(0usize, "start=0&"), (1, "start=10&"), (2, "start=20&")] {
        let url = GoogleEngine.url("q", &options(page, SafeSearch::Off)).unwrap();
        assert!(url.contains(start), "{url}");
    }
}

#[test]
fn google_url_with_period() {
    let mut o = options(0, SafeSearch::Off);
    o.date_time_range = range(JAN_1, JAN_1 + 86_400);
    let url = GoogleEngine.url("rust", &o).unwrap();
    assert_eq!(
        url,
        "https://www.google.com/search?q=rust&ie=utf8&start=0&filter=0&safe=off&tbs=qdr%3Ad"
    );
}

#[test]
fn google_period_of_a_month() {
    let mut o = options(0, SafeSearch::Off);
    o.date_time_range = range(JAN_1, FEB_1);
    let url = GoogleEngine.url("rust", &o).unwrap();
    assert!(url.ends_with("&tbs=qdr%3Am"), "{url}");
}

#[test]
fn yahoo_url_plain() {
    let url = YahooEngine.url("rust", &options(0, SafeSearch::Off)).unwrap();
    assert_eq!(url, "https://search.yahoo.com/search?p=rust&b=1&nocache=1&nojs=1&v=1");
}

#[test]
fn yahoo_url_safe_search_levels() {
    let moderate = YahooEngine.url("rust", &options(1, SafeSearch::Moderate)).unwrap();
    assert_eq!(moderate, "https://search.yahoo.com/search?p=rust&b=11&nocache=1&nojs=1&vm=p");
    let strict = YahooEngine.url("rust", &options(2, SafeSearch::Strict)).unwrap();
    assert_eq!(strict, "https://search.yahoo.com/search?p=rust&b=21&nocache=1&nojs=1&vm=r");
}

#[test]
fn yahoo_url_with_period() {
    let mut o = options(0, SafeSearch::Off);
    o.date_time_range = range(JAN_1, JAN_1 + 7 * 86_400);
    let url = YahooEngine.url("rust", &o).unwrap();
    assert_eq!(url, "https://search.yahoo.com/search?p=rust&b=1&nocache=1&nojs=1&v=1&btf=w");
}

#[test]
fn yahoo_shortest_period_is_a_day() {
    let mut o = options(0, SafeSearch::Off);
    o.date_time_range = range(JAN_1, JAN_1 + 3_600);
    let url = YahooEngine.url("rust", &o).unwrap();
    assert!(url.ends_with("&btf=d"), "{url}");
}

#[test]
fn bing_url_plain() {
    let url = BingEngine.url("rust", &options(1, SafeSearch::Strict)).unwrap();
    assert_eq!(url, "https://www.bing.com/search?q=rust&first=11&form=QBLH&safeSearch=strict");
}

#[test]
fn bing_url_with_period() {
    let mut o = options(0, SafeSearch::Off);
    o.date_time_range = range(JAN_1, FEB_1);
    let url = BingEngine.url("rust", &o).unwrap();
    assert_eq!(
        url,
        "https://www.bing.com/search?q=rust&first=1&form=QBLH&safeSearch=off&filters=ex1%3A%22ez5_19723_19754%22"
    );
}

#[test]
fn bing_days_before_the_epoch_round_towards_it() {
    let mut o = options(0, SafeSearch::Off);
    o.date_time_range = range(-1, -86_401);
    let url = BingEngine.url("rust", &o).unwrap();
    assert!(url.ends_with("&filters=ex1%3A%22ez5_0_-1%22"), "{url}");
}

#[test]
fn brave_url_plain() {
    let url = BraveEngine.url("rust", &options(3, SafeSearch::Off)).unwrap();
    assert_eq!(url, "https://search.brave.com/search?q=rust&offset=3");
}

#[test]
fn brave_url_with_period() {
    let mut o = options(0, SafeSearch::Off);
    o.date_time_range = range(JAN_1, FEB_1);
    let url = BraveEngine.url("rust", &o).unwrap();
    assert_eq!(url, "https://search.brave.com/search?q=rust&offset=0&tf=2024-1-1to2024-2-1");
}

#[test]
fn mojeek_url_plain() {
    let url = MojeekEngine.url("rust", &options(0, SafeSearch::Off)).unwrap();
    assert_eq!(
        url,
        "https://www.mojeek.com/search?q=rust&t=1&safe=0&theme=dark&arc=none&date=1&cdate=1&tlen=100&ref=1&hp=minimal&lb=en&qss=Bing&qss=Brave&qss=DuckDuckGo&qss=Ecosia&qss=Google&qss=Lilo&qss=Metager&qss=Qwant&qss=Startpage&qss=Swisscows&qss=Yandex&qss=Yep&qss=You"
    );
}

#[test]
fn mojeek_url_with_period() {
    let mut o = options(2, SafeSearch::Moderate);
    o.date_time_range = range(JAN_1, FEB_1);
    let url = MojeekEngine.url("rust", &o).unwrap();
    assert!(
        url.starts_with(
            "https://www.mojeek.com/search?q=rust%20since%3A20240101%20before%3A20240201&t=21&safe=1&theme=dark"
        ),
        "{url}"
    );
}

#[test]
fn mojeek_safe_search_is_on_or_off() {
    let strict = MojeekEngine.url("q", &options(0, SafeSearch::Strict)).unwrap();
    assert!(strict.contains("&safe=1&"));
}

#[test]
fn yandex_url_plain() {
    let url = YandexEngine.url("rust", &options(0, SafeSearch::Off)).unwrap();
    assert_eq!(
        url,
        "https://yandex.com/search/site/?text=rust&p=0&tmpl_version=releases&web=1&frame=1&searchid=3131712"
    );
}

#[test]
fn yandex_url_with_period() {
    let mut o = options(4, SafeSearch::Moderate);
    o.date_time_range = range(JAN_1, FEB_1);
    let url = YandexEngine.url("rust", &o).unwrap();
    assert_eq!(
        url,
        "https://yandex.com/search/site/?text=rust&p=4&tmpl_version=releases&web=1&frame=1&searchid=3131712&constraintid=0&within=777&from_day=1&from_month=1&from_year=2024&to_day=1&to_month=2&to_year=2024"
    );
}

#[test]
fn yandex_refuses_strict_safe_search() {
    let r = YandexEngine.url("rust", &options(0, SafeSearch::Strict));
    assert_eq!(r, Err(SearchError::SafeSearchRestriction));
}

#[test]
fn one_based_providers_start_pages_at_1_11_21() {
    for (page, index) in [(0usize, "1"), (1, "11"), (2, "21")] {
        let o = options(page, SafeSearch::Off);
        assert!(BingEngine.url("q", &o).unwrap().contains(&format!("&first={index}&")));
        assert!(YahooEngine.url("q", &o).unwrap().contains(&format!("&b={index}&")));
        assert!(MojeekEngine.url("q", &o).unwrap().contains(&format!("&t={index}&")));
    }
}

#[test]
fn query_text_is_percent_encoded() {
    let o = options(0, SafeSearch::Off);
    let url = BraveEngine.url("a&b=c d/\u{e9}?#", &o).unwrap();
    assert_eq!(url, "https://search.brave.com/search?q=a%26b%3Dc%20d%2F%C3%A9%3F%23&offset=0");
}

#[test]
fn url_is_the_same_for_the_same_query() {
    let mut o = options(7, SafeSearch::Moderate);
    o.date_time_range = range(JAN_1, FEB_1);
    assert_eq!(GoogleEngine.url("x y", &o), GoogleEngine.url("x y", &o));
    assert_eq!(MojeekEngine.url("x y", &o), MojeekEngine.url("x y", &o));
}

#[test]
fn largest_page_number_does_not_overflow() {
    let o = options(usize::MAX, SafeSearch::Off);
    let url = BingEngine.url("q", &o).unwrap();
    let expected = (usize::MAX as u128) * 10 + 1;
    assert!(url.contains(&format!("&first={expected}&")));
}

#[test]
fn homepages() {
    assert_eq!(BingEngine.homepage(), "https://www.bing.com");
    assert_eq!(BraveEngine.homepage(), "https://search.brave.com");
    assert_eq!(GoogleEngine.homepage(), "https://www.google.com");
    assert_eq!(MojeekEngine.homepage(), "https://www.mojeek.com");
    assert_eq!(YahooEngine.homepage(), "https://search.yahoo.com/search");
    assert_eq!(YandexEngine.homepage(), "https://yandex.com");
}

#[test]
fn yandex_url_for_a_range_within_the_months() {
    let mut o = options(0, SafeSearch::Off);
    // 2024-01-05T00:00:00Z to 2024-02-10T00:00:00Z
    o.date_time_range = range(1_704_412_800, 1_707_523_200);
    let url = YandexEngine.url("rust & co", &o).unwrap();
    let (address, query) = url.split_once('?').unwrap();
    assert_eq!(address, "https://yandex.com/search/site/");
    let params: Vec<&str> = query.split('&').collect();
    assert_eq!(
        params,
        vec![
            "text=rust%20%26%20co",
            "p=0",
            "tmpl_version=releases",
            "web=1",
            "frame=1",
            "searchid=3131712",
            "constraintid=0",
            "within=777",
            "from_day=5",
            "from_month=1",
            "from_year=2024",
            "to_day=10",
            "to_month=2",
            "to_year=2024",
        ]
    );
}

#[test]
fn every_url_is_address_and_parameters() {
    let mut o = options(1, SafeSearch::Moderate);
    o.date_time_range = range(JAN_1, FEB_1);
    for (url, first) in [
        (BingEngine.url("a=b", &o).unwrap(), "q=a%3Db"),
        (BraveEngine.url("a=b", &o).unwrap(), "q=a%3Db"),
        (GoogleEngine.url("a=b", &o).unwrap(), "q=a%3Db"),
        (MojeekEngine.url("a=b", &o).unwrap(), "q=a%3Db%20since%3A20240101%20before%3A20240201"),
        (YahooEngine.url("a=b", &o).unwrap(), "p=a%3Db"),
        (YandexEngine.url("a=b", &o).unwrap(), "text=a%3Db"),
    ] {
        assert_eq!(url.matches('?').count(), 1, "{url}");
        assert!(!url.contains('#'), "{url}");
        let (_, query) = url.split_once('?').unwrap();
        let params: Vec<&str> = query.split('&').collect();
        assert_eq!(params[0], first);
        for p in params {
            assert_eq!(p.matches('=').count(), 1, "{url}");
        }
    }
}
