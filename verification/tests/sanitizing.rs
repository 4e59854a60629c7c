use quaero_engines::google::GoogleParams;
use quaero_engines::sanitize::{sanitize_url, ParamFilter};
use quaero_engines::search::{SanitizedUrl, SearchResult, TrackingParams};
use quaero_engines::{clean_url, filter_search_param_in_result_url};

#[test]
fn removes_flagged_parameters_only() {
    let url = "https://example.com/path?utm_source=a&id=7&fbclid=x&q=rust&gclid=y&msclkid=z#top";
    assert_eq!(sanitize_url(url, &TrackingParams), "https://example.com/path?id=7&q=rust#top");
}

#[test]
fn drops_the_question_mark_with_the_last_parameter() {
    assert_eq!(sanitize_url("https://example.com/?utm_a=1", &TrackingParams), "https://example.com/");
    assert_eq!(
        sanitize_url("https://example.com/?utm_a=1&utm_b=2#f", &TrackingParams),
        "https://example.com/#f"
    );
}

#[test]
fn leaves_other_urls_as_they_are() {
    for url in [
        "",
        "not a url",
        "https://example.com/",
        "https://example.com/?",
        "https://example.com/?a=1&&b",
        "https://example.com/#frag?utm_source=x",
        "/relative?x=utm_source",
        "https://example.com/?a=utm_source=1",
        "?=&=",
    ] {
        assert_eq!(sanitize_url(url, &TrackingParams), url);
    }
}

#[test]
fn url_without_flagged_parameters_comes_back_unchanged() {
    for url in [
        "https://example.com/search?q=rust&page=2",
        "https://example.com/?a=1&b=&c&=d&&#frag&utm_x=1",
        "https://example.com/?x=utm_source&y=fbclid",
        "?",
        "?&",
        "a?b?c&d?e#f?g",
    ] {
        assert_eq!(sanitize_url(url, &TrackingParams), url);
        assert_eq!(sanitize_url(url, &GoogleParams), url);
    }
}

#[test]
fn sanitizing_twice_changes_nothing_more() {
    for url in [
        "https://example.com/path?utm_source=a&id=7&fbclid=x#top",
        "https://example.com/?utm_a=1",
        "https://example.com/?a&utm_b&c=?&d#utm_e=1",
        "?utm_a",
        "a?b?utm_c=1&utm_d#e#f",
        "https://a.example/page?x=1&sa=U&ved=2ah",
    ] {
        let once = sanitize_url(url, &TrackingParams);
        assert_eq!(sanitize_url(&once, &TrackingParams), once);
        let once = sanitize_url(url, &GoogleParams);
        assert_eq!(sanitize_url(&once, &GoogleParams), once);
    }
}

#[test]
fn google_filter() {
    assert!(filter_search_param_in_result_url("ved", ""));
    assert!(filter_search_param_in_result_url("sa", "U"));
    assert!(filter_search_param_in_result_url("usg", "x"));
    assert!(filter_search_param_in_result_url("utm", ""));
    assert!(filter_search_param_in_result_url("utm_campaign", "x"));
    assert!(!filter_search_param_in_result_url("q", "ved"));
    assert!(!filter_search_param_in_result_url("Ved", ""));
    assert!(!filter_search_param_in_result_url("ut", ""));
    assert!(!filter_search_param_in_result_url("", ""));
    assert_eq!(
        sanitize_url("https://a.example/?sa=U&q=1&ved=2&usg=3&utm_x=4", &GoogleParams),
        "https://a.example/?q=1"
    );
}

#[test]
fn tracking_filter() {
    assert!(TrackingParams.test("utm_source", "x"));
    assert!(TrackingParams.test("fbclid", ""));
    assert!(TrackingParams.test("gclid", ""));
    assert!(TrackingParams.test("msclkid", ""));
    assert!(!TrackingParams.test("utm", ""));
    assert!(!TrackingParams.test("ved", ""));
    assert!(!TrackingParams.test("id", "utm_source"));
}

#[test]
fn clean_url_takes_what_stands_between_the_markers() {
    assert_eq!(
        clean_url("https://r.search.yahoo.com/RU=https://a.example/RK=2/RS=x".to_string()),
        "https://a.example/"
    );
    assert_eq!(clean_url("RU=RK=2".to_string()), "");
    assert_eq!(clean_url("xRU=abRK=2RU=cdRK=2".to_string()), "ab");
}

#[test]
fn clean_url_without_markers_returns_its_input() {
    for url in ["", "https://a.example/", "RU=https://a.example/", "https://a.example/RK=2", "RK=2 RU=x", "RURK=2U="] {
        assert_eq!(clean_url(url.to_string()), url);
    }
}

#[test]
fn search_result_is_keyed_by_its_clean_url() {
    let (key, r) = SearchResult::new(
        "T".to_string(),
        "https://a.example/?utm_source=x&a=1".to_string(),
        "S".to_string(),
    );
    assert_eq!(key, "https://a.example/?a=1");
    assert_eq!((r.title.as_str(), r.url.as_str(), r.summary.as_str()), ("T", "https://a.example/?a=1", "S"));
    let clean = SanitizedUrl::new("https://a.example/?ved=1", &GoogleParams);
    let (key, r) = SearchResult::new_from_sanitized_url("T".to_string(), clean, String::new());
    assert_eq!(key, "https://a.example/");
    assert_eq!(r.url, "https://a.example/");
    assert_eq!(r.summary, "");
}
