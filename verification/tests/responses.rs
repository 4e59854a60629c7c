use std::future::Future;
use std::pin::Pin;

use anyhttp::{HttpResponse, Response};
use bytes::Bytes;
use http::StatusCode;
use quaero_engines::engine::Engine;
use quaero_engines::response::FinalUrl;
use quaero_engines::search::SearchError;
use quaero_engines::{BingEngine, BraveEngine, GoogleEngine, MojeekEngine, YahooEngine, YandexEngine};
use url::Url;

struct Canned {
    url: Url,
}

impl HttpResponse for Canned {
    fn bytes<'a>(self: Box<Self>) -> Pin<Box<dyn Future<Output = anyhow::Result<Bytes>> + Send + 'a>>
    where
        Self: 'a,
    {
        Box::pin(async move { Ok(Bytes::new()) })
    }

    fn url(&self) -> &Url {
        &self.url
    }

    fn status(&self) -> StatusCode {
        StatusCode::OK
    }
}

fn response_from(url: &str) -> FinalUrl {
    came_from(&Response::new(Canned { url: Url::parse(url).unwrap() }))
}

fn came_from(response: &Response) -> FinalUrl {
    let url = response.url();
    FinalUrl { host: url.host_str().map(|host| host.to_string()), path: url.path().to_string() }
}

#[test]
fn google_response_redirected_to_the_challenge_host() {
    let r = response_from("https://sorry.google.com/index?continue=https://www.google.com/search");
    assert_eq!(GoogleEngine.validate_final_url(&r), Err(SearchError::Captcha));
}

#[test]
fn google_response_redirected_to_the_challenge_path() {
    let r = response_from("https://www.google.com/sorry/index?q=x");
    assert_eq!(GoogleEngine.validate_final_url(&r), Err(SearchError::Captcha));
}

#[test]
fn google_response_from_the_search_page() {
    let r = response_from("https://www.google.com/search?q=sorry");
    assert_eq!(GoogleEngine.validate_final_url(&r), Ok(()));
    let r = response_from("data:text/plain,sorry");
    assert_eq!(GoogleEngine.validate_final_url(&r), Ok(()));
}

#[test]
fn yandex_response_redirected_to_the_challenge() {
    let r = response_from("https://yandex.com/showcaptcha?cc=1&retpath=x");
    assert_eq!(YandexEngine.validate_final_url(&r), Err(SearchError::Captcha));
    let r = response_from("https://yandex.com/search/site/?text=showcaptcha");
    assert_eq!(YandexEngine.validate_final_url(&r), Ok(()));
}

#[test]
fn other_engines_accept_every_final_address() {
    let r = response_from("https://sorry.google.com/showcaptcha");
    assert_eq!(BingEngine.validate_final_url(&r), Ok(()));
    assert_eq!(BraveEngine.validate_final_url(&r), Ok(()));
    assert_eq!(MojeekEngine.validate_final_url(&r), Ok(()));
    assert_eq!(YahooEngine.validate_final_url(&r), Ok(()));
}

#[test]
fn tagged_engines_judge_responses_as_their_adapters() {
    let r = response_from("https://sorry.google.com/showcaptcha");
    let verdicts: Vec<bool> =
        quaero_engines::default().iter().map(|e| e.validate_final_url(&r).is_ok()).collect();
    assert_eq!(verdicts, vec![true, true, false, true, true, false]);
}
