use quaero_engines::document::{ClassNames, Document, Element, Scope, Selector};
use quaero_engines::engine::{Engine, ParserMode};
use quaero_engines::search::SearchError;
use quaero_engines::{BingEngine, BraveEngine, GoogleEngine, MojeekEngine, YahooEngine, YandexEngine};

struct Node {
    depth: usize,
    tag: &'static str,
    id: Option<&'static str>,
    classes: &'static str,
    href: Option<&'static str>,
    text: Option<&'static str>,
    raw_text: Option<&'static str>,
    attributes: Vec<(&'static str, &'static str)>,
}

fn node(depth: usize, tag: &'static str, classes: &'static str) -> Node {
    Node { depth, tag, id: None, classes, href: None, text: None, raw_text: None, attributes: vec![] }
}

impl Node {
    fn id(mut self, id: &'static str) -> Node {
        self.id = Some(id);
        self
    }

    fn href(mut self, href: &'static str) -> Node {
        self.href = Some(href);
        self
    }

    fn text(mut self, text: &'static str) -> Node {
        self.text = Some(text);
        self
    }

    fn raw(mut self, text: &'static str) -> Node {
        self.raw_text = Some(text);
        self
    }

    fn attr(mut self, name: &'static str, value: &'static str) -> Node {
        self.attributes.push((name, value));
        self
    }
}

fn document(nodes: Vec<Node>) -> Document {
    let mut doc = Document::new();
    for n in nodes {
        doc.push(Element {
            depth: n.depth,
            tag: n.tag.to_string(),
            id: n.id.map(|s| s.to_string()),
            classes: n.classes.split_whitespace().map(|s| s.to_string()).collect(),
            attributes: n.attributes.iter().map(|(k, v)| (k.to_string(), v.to_string())).collect(),
            href: n.href.map(|s| s.to_string()),
            text: n.text.map(|s| s.to_string()),
            raw_text: n.raw_text.map(|s| s.to_string()),
        });
    }
    doc
}

fn fields(entries: &[(String, quaero_engines::search::SearchResult)]) -> Vec<(&str, &str, &str)> {
    entries.iter().map(|(_, r)| (r.title.as_str(), r.url.as_str(), r.summary.as_str())).collect()
}

// ---- the queries --------------------------------------------------------

fn sample() -> Document {
    document(vec![
        node(0, "html", ""),
        node(1, "body", "page"),
        node(2, "div", "list").id("results"),
        node(3, "div", "card big"),
        node(4, "a", "title").href("https://a.example/"),
        node(3, "div", "card"),
        node(4, "span", "note"),
        node(5, "a", "title").href("https://b.example/"),
        node(2, "div", "card footer"),
        node(1, "div", "card"),
    ])
}

#[test]
fn every_lists_matches_in_document_order() {
    let doc = sample();
    let cards = ClassNames::one("card");
    assert_eq!(doc.every(Scope::Document, &Selector::Classes(&cards)), vec![3, 5, 8, 9]);
    assert_eq!(doc.every(Scope::Within(2), &Selector::Classes(&cards)), vec![3, 5]);
    assert_eq!(doc.every(Scope::Within(1), &Selector::Classes(&cards)), vec![3, 5, 8]);
    assert_eq!(doc.every(Scope::ChildrenOf(1), &Selector::Classes(&cards)), vec![8]);
    assert_eq!(doc.every(Scope::ChildrenOf(0), &Selector::Any), vec![1, 9]);
}

#[test]
fn first_finds_the_first_match_below_an_element() {
    let doc = sample();
    let title = ClassNames::one("title");
    assert_eq!(doc.first(Scope::Document, &Selector::Classes(&title)), Some(4));
    assert_eq!(doc.first(Scope::Within(5), &Selector::Classes(&title)), Some(7));
    assert_eq!(doc.first(Scope::ChildrenOf(5), &Selector::Classes(&title)), None);
    assert_eq!(doc.first(Scope::Within(8), &Selector::Classes(&title)), None);
    assert_eq!(doc.first(Scope::Document, &Selector::Id("results")), Some(2));
    assert_eq!(doc.first(Scope::Document, &Selector::Id("missing")), None);
    assert_eq!(doc.first(Scope::Within(2), &Selector::Tag("span")), Some(6));
}

#[test]
fn an_element_is_not_below_itself() {
    let doc = sample();
    let list = ClassNames::one("list");
    assert_eq!(doc.first(Scope::Within(2), &Selector::Classes(&list)), None);
    assert_eq!(doc.first(Scope::Within(1), &Selector::Classes(&list)), Some(2));
}

#[test]
fn scope_of_a_missing_element_is_empty() {
    let doc = sample();
    assert_eq!(doc.first(Scope::Within(10), &Selector::Any), None);
    assert_eq!(doc.first(Scope::Within(usize::MAX), &Selector::Any), None);
    assert_eq!(doc.every(Scope::ChildrenOf(usize::MAX), &Selector::Any), Vec::<usize>::new());
    assert_eq!(doc.every(Scope::Within(9), &Selector::Any), Vec::<usize>::new());
}

#[test]
fn class_names_any_and_exact() {
    let carried: Vec<String> = vec!["a".to_string(), "b".to_string()];
    assert!(ClassNames::any(vec!["b", "z"]).matches(&carried));
    assert!(!ClassNames::any(vec!["y", "z"]).matches(&carried));
    assert!(!ClassNames::any(vec![]).matches(&carried));
    assert!(ClassNames::exact(vec!["b", "a"]).matches(&carried));
    assert!(!ClassNames::exact(vec!["a"]).matches(&carried));
    assert!(!ClassNames::exact(vec!["a", "b", "c"]).matches(&carried));
    assert!(ClassNames::exact(vec![]).matches(&Vec::new()));
}

#[test]
fn attribute_gives_the_first_of_that_name() {
    let doc = document(vec![node(0, "div", "").attr("data-type", "web").attr("data-type", "news")]);
    let e = doc.get(0).unwrap();
    assert_eq!(e.attribute("data-type").map(|s| s.as_str()), Some("web"));
    assert_eq!(e.attribute("data"), None);
    assert!(doc.get(1).is_none());
    assert_eq!(doc.len(), 1);
}

// ---- Yandex ---------------------------------------------------------------

#[test]
fn yandex_results() {
    let doc = document(vec![
        node(0, "ol", "b-serp-list"),
        node(1, "li", "b-serp-item"),
        node(2, "a", "b-serp-item__title-link").href("https://a.example/?utm_source=x&id=1").text("A"),
        node(2, "div", "b-serp-item__text").text("about a"),
        node(1, "li", "b-serp-item"),
        node(2, "div", "b-serp-item__text").text("no title"),
        node(1, "li", "b-serp-item"),
        node(2, "h3", ""),
        node(3, "a", "b-serp-item__title-link").href("https://b.example/"),
    ]);
    let r = YandexEngine.parse(&doc).unwrap();
    assert_eq!(
        fields(&r),
        vec![("A", "https://a.example/?id=1", "about a"), ("", "https://b.example/", "")]
    );
    assert_eq!(r[0].0, "https://a.example/?id=1");
}

#[test]
fn yandex_without_list_has_no_results() {
    let doc = document(vec![node(0, "li", "b-serp-item")]);
    assert_eq!(YandexEngine.parse(&doc).unwrap_err(), SearchError::NoResultsFound);
    assert_eq!(YandexEngine.parse(&Document::new()).unwrap_err(), SearchError::NoResultsFound);
}

#[test]
fn yandex_empty_list_is_no_error() {
    let doc = document(vec![node(0, "ol", "b-serp-list")]);
    assert!(YandexEngine.parse(&doc).unwrap().is_empty());
}

#[test]
fn yandex_ignores_items_outside_the_list() {
    let doc = document(vec![
        node(0, "ol", "b-serp-list"),
        node(0, "li", "b-serp-item"),
        node(1, "a", "b-serp-item__title-link").text("outside"),
    ]);
    assert!(YandexEngine.parse(&doc).unwrap().is_empty());
}

// ---- Mojeek ---------------------------------------------------------------

#[test]
fn mojeek_results() {
    let doc = document(vec![
        node(0, "ul", "results-standard"),
        node(1, "li", ""),
        node(2, "h2", ""),
        node(3, "a", "title").href("https://a.example/").text("A"),
        node(2, "p", "s").text("about a"),
        node(1, "li", ""),
        node(2, "div", ""),
        node(3, "h2", ""),
        node(4, "a", "title").href("https://nested.example/").text("nested"),
        node(1, "li", ""),
        node(2, "h2", ""),
        node(3, "span", ""),
        node(4, "a", "title").text("too deep"),
        node(1, "li", ""),
        node(2, "h2", ""),
        node(3, "a", "title"),
        node(2, "div", ""),
        node(3, "p", "s").text("not a child"),
    ]);
    let r = MojeekEngine.parse(&doc).unwrap();
    assert_eq!(fields(&r), vec![("A", "https://a.example/", "about a"), ("", "", "")]);
}

#[test]
fn mojeek_without_list_has_no_results() {
    let doc = document(vec![node(0, "ul", "results"), node(1, "li", "")]);
    assert_eq!(MojeekEngine.parse(&doc).unwrap_err(), SearchError::NoResultsFound);
}

#[test]
fn mojeek_empty_list_is_no_error() {
    let doc = document(vec![node(0, "ul", "results-standard")]);
    assert!(MojeekEngine.parse(&doc).unwrap().is_empty());
}

// ---- Yahoo ----------------------------------------------------------------

#[test]
fn yahoo_results() {
    let doc = document(vec![
        node(0, "div", "searchCenterMiddle"),
        node(1, "div", "dd algo"),
        node(2, "a", "s-title")
            .href("https://r.search.yahoo.com/_ylt=x/RV=2/RE=1/RO=10/RU=https%3a%2f%2fa.example%2f/RK=2/RS=y")
            .raw("A")
            .text("shown"),
        node(2, "p", "s-desc").text("about a"),
        node(1, "div", "dd AlsoTry_M"),
        node(2, "a", "s-title").href("https://try.example/").raw("Also try"),
        node(1, "div", "dd"),
        node(2, "p", "s-desc").text("no title"),
        node(1, "div", "dd"),
        node(2, "a", "s-title").href("https://plain.example/?gclid=1"),
    ]);
    let r = YahooEngine.parse(&doc).unwrap();
    assert_eq!(
        fields(&r),
        vec![("A", "https%3a%2f%2fa.example%2f/", "about a"), ("", "https://plain.example/", "")]
    );
}

#[test]
fn yahoo_excludes_the_suggestion_block() {
    let doc = document(vec![
        node(0, "div", "searchCenterMiddle"),
        node(1, "div", "dd"),
        node(2, "a", "s-title").href("https://a.example/").raw("A"),
        node(1, "div", "dd AlsoTry_M"),
        node(2, "a", "s-title").href("https://b.example/").raw("B"),
    ]);
    let r = YahooEngine.parse(&doc).unwrap();
    assert_eq!(r.len(), 1);
    assert_eq!(r[0].1.title, "A");
}

#[test]
fn yahoo_without_column_has_no_results() {
    let doc = document(vec![node(0, "div", "dd"), node(1, "a", "s-title")]);
    assert_eq!(YahooEngine.parse(&doc).unwrap_err(), SearchError::NoResultsFound);
}

#[test]
fn yahoo_empty_column_is_no_error() {
    let doc = document(vec![node(0, "div", "searchCenterMiddle")]);
    assert!(YahooEngine.parse(&doc).unwrap().is_empty());
}

// ---- Brave ----------------------------------------------------------------

#[test]
fn brave_results() {
    let doc = document(vec![
        node(0, "div", "").id("results"),
        node(1, "div", "snippet").attr("data-type", "web"),
        node(2, "a", "").href("https://a.example/?utm_medium=m"),
        node(3, "div", "title").text("A"),
        node(2, "div", "content").text("  \n about a"),
        node(1, "div", "snippet").attr("data-type", "news"),
        node(2, "a", "").href("https://news.example/"),
        node(3, "div", "title").text("news"),
        node(1, "div", "snippet standalone"),
        node(2, "a", "").href("https://alone.example/"),
        node(3, "div", "title").text("alone"),
        node(1, "div", "snippet noscript-hide"),
        node(2, "a", "").href("https://hidden.example/"),
        node(3, "div", "title").text("hidden"),
        node(1, "div", "snippet").id("search_anywhere"),
        node(2, "a", "").href("https://else.example/"),
        node(3, "div", "title").text("elsewhere"),
        node(1, "div", "snippet"),
        node(2, "a", "").href("https://q.example/"),
        node(3, "div", "title").text("Q"),
        node(2, "div", "inline-qa-answer").text("an answer"),
        node(1, "div", "snippet"),
        node(2, "a", "").href("https://c.example/"),
        node(3, "div", "title").text("C"),
        node(2, "div", "content"),
        node(2, "div", "inline-qa-answer").text("fallback"),
        node(1, "div", "snippet"),
        node(2, "div", "content").text("no link"),
        node(1, "div", "snippet"),
        node(2, "a", "").href("https://untitled.example/"),
        node(1, "div", "other"),
        node(2, "div", "snippet"),
        node(3, "a", "").href("https://deep.example/"),
        node(4, "div", "title").text("deep"),
    ]);
    let r = BraveEngine.parse(&doc).unwrap();
    assert_eq!(
        fields(&r),
        vec![
            ("A", "https://a.example/", "about a"),
            ("Q", "https://q.example/", "an answer"),
            ("C", "https://c.example/", "fallback"),
        ]
    );
}

#[test]
fn brave_excludes_the_advertisement() {
    let doc = document(vec![
        node(0, "div", "").id("results"),
        node(1, "div", "snippet").attr("data-type", "web"),
        node(2, "a", "").href("https://a.example/"),
        node(3, "div", "title").text("A"),
        node(2, "div", "content").text("about a"),
        node(1, "div", "snippet").id("search-ad"),
        node(2, "a", "").href("https://ad.example/"),
        node(3, "div", "title").text("Buy"),
        node(2, "div", "content").text("now"),
    ]);
    let r = BraveEngine.parse(&doc).unwrap();
    assert_eq!(fields(&r), vec![("A", "https://a.example/", "about a")]);
}

#[test]
fn brave_without_results_element_has_no_results() {
    let doc = document(vec![node(0, "div", "snippet")]);
    assert_eq!(BraveEngine.parse(&doc).unwrap_err(), SearchError::NoResultsFound);
}

#[test]
fn brave_notice_of_bad_results_is_no_error() {
    let doc = document(vec![
        node(0, "div", "").id("results"),
        node(1, "div", ""),
        node(2, "div", "").id("bad-results-info-banner"),
        node(1, "div", "snippet"),
        node(2, "a", "").href("https://a.example/"),
        node(3, "div", "title").text("A"),
    ]);
    assert_eq!(fields(&BraveEngine.parse(&doc).unwrap()), vec![("A", "https://a.example/", "")]);
    let only_notice = document(vec![
        node(0, "div", "").id("results"),
        node(1, "div", "").id("bad-results-info-banner"),
    ]);
    assert!(BraveEngine.parse(&only_notice).unwrap().is_empty());
}

#[test]
fn brave_empty_results_element_is_no_error() {
    let doc = document(vec![node(0, "div", "").id("results")]);
    assert!(BraveEngine.parse(&doc).unwrap().is_empty());
}

#[test]
fn brave_decodes_character_references_before_parsing() {
    let body = "&lt;div id=&quot;results&quot;&gt;Tom &amp; Jerry&#33;".to_string();
    assert_eq!(BraveEngine.prepare(body), "<div id=\"results\">Tom & Jerry!");
    assert_eq!(BraveEngine.parser_mode(), ParserMode::ComprehensiveButSlow);
}

#[test]
fn other_engines_parse_the_body_as_it_came() {
    let body = "Tom &amp; Jerry".to_string();
    assert_eq!(GoogleEngine.prepare(body.clone()), body);
    assert_eq!(YandexEngine.prepare(body.clone()), body);
    assert_eq!(BingEngine.parser_mode(), ParserMode::FastButConstrained);
}

// ---- Bing -----------------------------------------------------------------

#[test]
fn bing_results() {
    let doc = document(vec![
        node(0, "ol", ""),
        node(1, "li", "b_algo"),
        node(2, "div", "b_algoheader").text("A"),
        node(3, "a", "").href("https://a.example/"),
        node(2, "div", "b_capmedia b_caption"),
        node(3, "p", "b_lineclamp3").raw("\u{a0}\u{b7} about a").text("shown"),
        node(1, "li", "b_algo"),
        node(2, "div", "b_algoheader").text("B"),
        node(3, "a", "").href("https://b.example/?msclkid=7&x=1"),
        node(2, "div", "b_caption"),
        node(3, "p", "b_lineclamp3").raw("only one class on the caption"),
        node(2, "div", "slide b_cards2"),
        node(3, "div", "exsni").text("first"),
        node(3, "div", "exsni").text("second"),
        node(3, "div", "exsni").text("third"),
        node(1, "li", "b_algo"),
        node(2, "div", "b_algoheader"),
        node(2, "div", "b_cards2 slide"),
        node(3, "div", "exsni").text("only"),
        node(1, "li", "b_algo"),
        node(2, "div", "b_caption b_capmedia"),
        node(3, "p", "b_lineclamp3").raw("no header"),
        node(1, "li", "b_algo"),
        node(2, "div", "b_algoheader").text("E"),
        node(2, "div", "b_caption b_capmedia"),
        node(3, "p", "b_lineclamp3 more").raw("not exactly the line"),
        node(3, "p", "b_lineclamp3").raw("plain summary"),
    ]);
    let r = BingEngine.parse(&doc).unwrap();
    assert_eq!(
        fields(&r),
        vec![
            ("A", "https://a.example/", "about a"),
            ("B", "https://b.example/?x=1", "second"),
            ("", "", ""),
            ("E", "", "plain summary"),
        ]
    );
}

#[test]
fn bing_card_blocks_must_be_children_of_the_slide() {
    let doc = document(vec![
        node(0, "li", "b_algo"),
        node(1, "div", "b_algoheader").text("A"),
        node(1, "div", "b_cards2 slide"),
        node(2, "div", "exsni").text("first"),
        node(2, "div", ""),
        node(3, "div", "exsni").text("nested"),
    ]);
    let r = BingEngine.parse(&doc).unwrap();
    assert_eq!(fields(&r), vec![("A", "", "")]);
}

#[test]
fn bing_page_without_blocks_gives_an_empty_list() {
    assert!(BingEngine.parse(&Document::new()).unwrap().is_empty());
    let doc = document(vec![node(0, "div", "b_algoheader")]);
    assert!(BingEngine.parse(&doc).unwrap().is_empty());
}

// ---- Google ---------------------------------------------------------------

#[test]
fn google_results() {
    let doc = document(vec![
        node(0, "div", "Gx5Zad xpd EtOod pkphOe"),
        node(1, "div", "egMi0 kCrYT"),
        node(2, "a", "").href("/url?q=https://a.example/page?x=1&sa=U&ved=2ah&usg=AOv&utm_source=g"),
        node(3, "div", "ilUpNd UFvD1 aSRlid").text("A"),
        node(1, "div", "ilUpNd H66NU aSRlid"),
        node(2, "div", "ilUpNd H66NU aSRlid").raw("about a").text("shown"),
        node(0, "div", "Gx5Zad xpd EtOod"),
        node(1, "div", "egMi0 kCrYT"),
        node(2, "a", "").href("https://partial.example/"),
        node(0, "div", "pkphOe EtOod xpd Gx5Zad"),
        node(1, "div", "kCrYT egMi0"),
        node(2, "a", "").href("https://b.example/?ved=1"),
        node(1, "div", "ilUpNd H66NU aSRlid").raw("outer only"),
        node(0, "div", "Gx5Zad xpd EtOod pkphOe"),
        node(1, "div", "kCrYT"),
        node(2, "a", "").href("https://untitled.example/"),
    ]);
    let r = GoogleEngine.parse(&doc).unwrap();
    assert_eq!(
        fields(&r),
        vec![("A", "https://a.example/page?x=1", "about a"), ("", "https://b.example/", "")]
    );
}

#[test]
fn google_page_without_cards_gives_an_empty_list() {
    assert!(GoogleEngine.parse(&Document::new()).unwrap().is_empty());
}

// ---- all of them ----------------------------------------------------------

#[test]
fn default_engines_in_order() {
    let engines = quaero_engines::default();
    let tags: Vec<&str> = engines.iter().map(|e| e.tag()).collect();
    assert_eq!(tags, vec!["bing", "brave", "google", "mojeek", "yahoo", "yandex"]);
    let homes: Vec<&str> = engines.iter().map(|e| e.homepage()).collect();
    assert_eq!(homes[0], BingEngine.homepage());
    assert_eq!(homes[5], YandexEngine.homepage());
}

#[test]
fn tagged_engine_answers_as_its_adapter() {
    let doc = document(vec![
        node(0, "ol", "b-serp-list"),
        node(1, "li", "b-serp-item"),
        node(2, "a", "b-serp-item__title-link").href("https://a.example/").text("A"),
    ]);
    let tagged = YandexEngine::new();
    assert_eq!(fields(&tagged.parse(&doc).unwrap()), fields(&YandexEngine.parse(&doc).unwrap()));
    assert_eq!(MojeekEngine::new().parse(&doc).unwrap_err(), SearchError::NoResultsFound);
    assert!(BingEngine::new().parse(&doc).unwrap().is_empty());
    assert!(GoogleEngine::new().parse(&doc).unwrap().is_empty());
    assert_eq!(BraveEngine::new().parse(&doc).unwrap_err(), SearchError::NoResultsFound);
    assert_eq!(YahooEngine::new().parse(&doc).unwrap_err(), SearchError::NoResultsFound);
}

#[test]
fn results_come_in_document_order() {
    let mut nodes = vec![node(0, "ol", "b-serp-list")];
    let titles = ["e", "a", "d", "b", "c"];
    for t in titles {
        nodes.push(node(1, "li", "b-serp-item"));
        nodes.push(node(2, "a", "b-serp-item__title-link").text(t));
    }
    let r = YandexEngine.parse(&document(nodes)).unwrap();
    let got: Vec<&str> = r.iter().map(|(_, r)| r.title.as_str()).collect();
    assert_eq!(got, titles);
}
