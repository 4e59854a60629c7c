use http::HeaderMap;
use quaero_engines::agent::UserAgent;
use quaero_engines::engine::{build_headers, Engine};
use quaero_engines::response::FinalUrl;
use quaero_engines::search::{SafeSearch, SearchError, SearchOptions};
use quaero_engines::{BingEngine, BraveEngine, GoogleEngine, MojeekEngine, YahooEngine, YandexEngine};

const ACCEPT_HTML: &str = "text/html,application/xhtml+xml,application/xml;q=0.9,*/*;q=0.8";
const FORM: &str = "application/x-www-form-urlencoded";

fn options(safe_search: SafeSearch) -> SearchOptions {
    SearchOptions { page_num: 0, safe_search, date_time_range: None }
}

fn values(headers: &HeaderMap, name: &str) -> Vec<String> {
    headers.get_all(name).iter().map(|v| v.to_str().unwrap().to_string()).collect()
}

fn names(headers: &HeaderMap) -> Vec<String> {
    let mut names: Vec<String> = headers.keys().map(|k| k.as_str().to_string()).collect();
    names.sort();
    names
}

#[test]
fn google_headers() {
    let mut h = HeaderMap::new();
    GoogleEngine.headers(&mut h, &options(SafeSearch::Off), 0);
    assert_eq!(names(&h), vec!["accept", "cookie", "referer", "user-agent"]);
    assert_eq!(values(&h, "user-agent"), vec![UserAgent::random_no_js(0)]);
    assert_eq!(values(&h, "accept"), vec![ACCEPT_HTML]);
    assert_eq!(values(&h, "cookie"), vec!["SOCS=CAESHAgBEhIaAB"]);
    assert_eq!(values(&h, "referer"), vec!["https://google.com/"]);
}

#[test]
fn bing_headers() {
    let mut h = HeaderMap::new();
    BingEngine.headers(&mut h, &options(SafeSearch::Off), 1);
    assert_eq!(names(&h), vec!["accept", "content-type", "cookie", "referer", "user-agent"]);
    assert_eq!(values(&h, "user-agent"), vec![UserAgent::random_no_js(1)]);
    assert_eq!(values(&h, "accept"), vec![ACCEPT_HTML]);
    assert_eq!(values(&h, "content-type"), vec![FORM]);
    assert_eq!(
        values(&h, "cookie"),
        vec!["_EDGE_V=1; SRCHD=AF=NOFORM; _Rwho=u=d; bngps=s=0; _UR=QS=0&TQS=0; "]
    );
    assert_eq!(values(&h, "referer"), vec!["https://google.com/"]);
}

#[test]
fn brave_headers_carry_the_safe_search_level() {
    for (level, cookie) in [
        (SafeSearch::Off, "safe_search=off"),
        (SafeSearch::Moderate, "safe_search=moderate"),
        (SafeSearch::Strict, "safe_search=strict"),
    ] {
        let mut h = HeaderMap::new();
        BraveEngine.headers(&mut h, &options(level), 2);
        assert_eq!(names(&h), vec!["accept", "content-type", "cookie", "referer", "user-agent"]);
        assert_eq!(values(&h, "user-agent"), vec![UserAgent::random_no_js(2)]);
        assert_eq!(values(&h, "accept"), vec!["*/*"]);
        assert_eq!(values(&h, "content-type"), vec![FORM]);
        assert_eq!(values(&h, "cookie"), vec![cookie]);
        assert_eq!(values(&h, "referer"), vec!["https://google.com/"]);
    }
}

#[test]
fn mojeek_headers() {
    let mut h = HeaderMap::new();
    MojeekEngine.headers(&mut h, &options(SafeSearch::Off), 3);
    assert_eq!(names(&h), vec!["accept", "referer", "user-agent"]);
    assert_eq!(values(&h, "user-agent"), vec![UserAgent::random_no_js(3)]);
    assert_eq!(values(&h, "accept"), vec![ACCEPT_HTML]);
    assert_eq!(values(&h, "referer"), vec!["https://google.com/"]);
}

#[test]
fn yahoo_headers() {
    let mut h = HeaderMap::new();
    YahooEngine.headers(&mut h, &options(SafeSearch::Off), 4);
    assert_eq!(names(&h), vec!["accept", "referer", "user-agent"]);
    assert_eq!(values(&h, "user-agent"), vec![UserAgent::random_no_js(4)]);
    assert_eq!(values(&h, "accept"), vec![FORM]);
    assert_eq!(values(&h, "referer"), vec!["https://google.com/"]);
}

#[test]
fn yandex_headers_name_a_desktop_browser() {
    let mut h = HeaderMap::new();
    YandexEngine.headers(&mut h, &options(SafeSearch::Off), 5);
    assert_eq!(names(&h), vec!["accept", "referer", "user-agent"]);
    assert_eq!(values(&h, "user-agent"), vec![UserAgent::random(5)]);
    assert_eq!(values(&h, "accept"), vec![FORM]);
    assert_eq!(values(&h, "referer"), vec!["https://google.com/"]);
}

#[test]
fn headers_replace_agent_and_accept_and_add_to_the_rest() {
    let mut h = HeaderMap::new();
    h.append("user-agent", "old".parse().unwrap());
    h.append("user-agent", "older".parse().unwrap());
    h.append("accept", "text/plain".parse().unwrap());
    h.append("cookie", "a=1".parse().unwrap());
    h.append("referer", "https://example.com/".parse().unwrap());
    h.append("x-other", "kept".parse().unwrap());
    GoogleEngine.headers(&mut h, &options(SafeSearch::Off), 0);
    assert_eq!(values(&h, "user-agent"), vec![UserAgent::random_no_js(0)]);
    assert_eq!(values(&h, "accept"), vec![ACCEPT_HTML]);
    assert_eq!(values(&h, "cookie"), vec!["a=1", "SOCS=CAESHAgBEhIaAB"]);
    assert_eq!(values(&h, "referer"), vec!["https://example.com/", "https://google.com/"]);
    assert_eq!(values(&h, "x-other"), vec!["kept"]);
    assert_eq!(h.len(), 7);
}

#[test]
fn the_same_pick_names_the_same_agent() {
    let mut a = HeaderMap::new();
    let mut b = HeaderMap::new();
    BingEngine.headers(&mut a, &options(SafeSearch::Off), 6);
    BingEngine.headers(&mut b, &options(SafeSearch::Off), 6);
    assert_eq!(a, b);
}

#[test]
fn agents_come_from_pools_of_four() {
    for pick in 0..4usize {
        assert_eq!(UserAgent::random_no_js(pick), UserAgent::random_no_js(pick + 4));
        assert_eq!(UserAgent::random(pick), UserAgent::random(pick + 8));
        for other in 0..pick {
            assert_ne!(UserAgent::random_no_js(pick), UserAgent::random_no_js(other));
            assert_ne!(UserAgent::random(pick), UserAgent::random(other));
        }
    }
    assert_eq!(UserAgent::random_no_js(usize::MAX), UserAgent::random_no_js(3));
    assert!(UserAgent::random_no_js(0).starts_with("Lynx/"));
    assert!(UserAgent::random(2).contains("Firefox/"));
}

fn came_from(host: Option<&str>, path: &str) -> FinalUrl {
    FinalUrl { host: host.map(|h| h.to_string()), path: path.to_string() }
}

#[test]
fn google_challenge_is_told_by_host_or_path() {
    let captcha = Err(SearchError::Captcha);
    assert_eq!(GoogleEngine.validate_final_url(&came_from(Some("sorry.google.com"), "/")), captcha);
    assert_eq!(
        GoogleEngine.validate_final_url(&came_from(Some("www.google.com"), "/sorry/index")),
        captcha
    );
    assert_eq!(GoogleEngine.validate_final_url(&came_from(None, "/sorry")), captcha);
    assert_eq!(GoogleEngine.validate_final_url(&came_from(Some("www.google.com"), "/sorryx")), captcha);
    assert_eq!(GoogleEngine.validate_final_url(&came_from(Some("www.google.com"), "/search")), Ok(()));
    assert_eq!(GoogleEngine.validate_final_url(&came_from(Some("sorry.google.com.x"), "/a/sorry")), Ok(()));
    assert_eq!(GoogleEngine.validate_final_url(&came_from(None, "")), Ok(()));
}

#[test]
fn yandex_challenge_is_told_by_path() {
    assert_eq!(
        YandexEngine.validate_final_url(&came_from(Some("yandex.com"), "/showcaptcha?cc=1")),
        Err(SearchError::Captcha)
    );
    assert_eq!(
        YandexEngine.validate_final_url(&came_from(Some("yandex.com"), "/search/site/")),
        Ok(())
    );
    assert_eq!(YandexEngine.validate_final_url(&came_from(Some("sorry.google.com"), "/sorry")), Ok(()));
}

#[test]
fn other_engines_accept_every_response() {
    let challenge = came_from(Some("sorry.google.com"), "/showcaptcha");
    assert_eq!(BingEngine.validate_final_url(&challenge), Ok(()));
    assert_eq!(BraveEngine.validate_final_url(&challenge), Ok(()));
    assert_eq!(MojeekEngine.validate_final_url(&challenge), Ok(()));
    assert_eq!(YahooEngine.validate_final_url(&challenge), Ok(()));
}

#[test]
fn tagged_engines_build_requests_as_their_adapters() {
    let o = options(SafeSearch::Moderate);
    for engine in quaero_engines::default() {
        let mut h = HeaderMap::new();
        engine.headers(&mut h, &o, 1);
        assert_eq!(values(&h, "referer"), vec!["https://google.com/"]);
        let url = engine.url("rust", &o).unwrap();
        assert!(url.starts_with("https://"));
        assert!(url.contains("rust"));
    }
    assert_eq!(
        GoogleEngine::new().validate_final_url(&came_from(Some("sorry.google.com"), "/")),
        Err(SearchError::Captcha)
    );
    assert_eq!(
        YandexEngine::new().url("q", &options(SafeSearch::Strict)),
        Err(SearchError::SafeSearchRestriction)
    );
}

#[test]
fn fresh_headers_hold_what_the_adapter_sets() {
    let o = options(SafeSearch::Strict);
    let fresh = build_headers(&BraveEngine, &o, 9);
    let mut filled = HeaderMap::new();
    BraveEngine.headers(&mut filled, &o, 9);
    assert_eq!(fresh, filled);
    assert_eq!(fresh.len(), 5);
    let tagged = build_headers(&YandexEngine::new(), &o, 2);
    assert_eq!(values(&tagged, "user-agent"), vec![UserAgent::random(2)]);
    assert_eq!(tagged.len(), 3);
}

#[test]
fn first_result_of_a_page() {
    for (page, from_one, from_zero) in [(0usize, 1u128, 0u128), (1, 11, 10), (2, 21, 20), (37, 371, 370)] {
        let o = SearchOptions { page_num: page, safe_search: SafeSearch::Off, date_time_range: None };
        assert_eq!(o.first_result_index(1), from_one);
        assert_eq!(o.first_result_index(0), from_zero);
    }
    let last = SearchOptions { page_num: usize::MAX, safe_search: SafeSearch::Off, date_time_range: None };
    assert_eq!(last.first_result_index(255), (usize::MAX as u128) * 10 + 255);
}
