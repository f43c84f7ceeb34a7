use dic_crawler::crawler::ENDPOINT_BASE;
use dic_crawler::text::split_chars;
use dic_crawler::{join_split, Element, EnToViCrawler};

fn element(id: Option<&str>, class: Option<&str>) -> Element {
    Element {
        handle: 0,
        id: id.map(|s| s.to_string()),
        class: class.map(|s| s.to_string()),
        text: String::new(),
    }
}

#[test]
fn join_split_puts_separator_between_parts() {
    let parts = vec!["self".to_string(), "driving".to_string()];
    assert_eq!(join_split(&parts, '+'), "self+driving");
    let three = vec!["a".to_string(), "b".to_string(), "c".to_string()];
    assert_eq!(join_split(&three, '-'), "a-b-c");
}

#[test]
fn join_split_of_one_or_no_part() {
    assert_eq!(join_split(&vec!["run".to_string()], '+'), "run");
    assert_eq!(join_split(&vec![], '+'), "");
}

#[test]
fn split_chars_keeps_empty_pieces() {
    let s: Vec<char> = "a  b".chars().collect();
    assert_eq!(split_chars(&s, ' '), vec!["a".to_string(), String::new(), "b".to_string()]);
    assert_eq!(split_chars(&vec![], ' '), vec![String::new()]);
}

#[test]
fn endpoint_joins_words_with_plus() {
    let crawler = EnToViCrawler::new(reqwest::Client::new());
    let url = crawler.construct_query_endpoint("self driving");
    assert_eq!(url, format!("{}self+driving.html", ENDPOINT_BASE));
    assert!(url.ends_with("/self+driving.html"));
}

#[test]
fn endpoint_of_single_word() {
    let crawler = EnToViCrawler::new(reqwest::Client::new());
    assert_eq!(
        crawler.construct_query_endpoint("run"),
        "http://tratu.coviet.vn/hoc-tieng-anh/tu-dien/lac-viet/A-V/run.html"
    );
}

#[test]
fn class_matches_whole_words() {
    let e = element(None, Some("p5l fl  cB"));
    assert!(e.has_class("fl"));
    assert!(e.has_class("cB"));
    assert!(e.has_class("p5l"));
    assert!(!e.has_class("p5"));
    assert!(!e.has_class("cb"));
    assert!(!e.has_class(""));
    assert!(!e.has_class("fl cB"));
    let em = element(None, Some("em"));
    assert!(em.has_class("em"));
    assert!(!em.has_class("e"));
    assert!(!element(None, None).has_class("m"));
}

#[test]
fn id_matches_exactly_or_by_fragment() {
    let e = element(Some("partofspeech_100"), None);
    assert!(e.has_id("partofspeech_100"));
    assert!(!e.has_id("partofspeech_10"));
    assert!(e.contains_id("speech_1"));
    assert!(e.contains_id(""));
    assert!(!e.contains_id("speech_2"));
    assert!(!element(None, Some("x")).has_id("x"));
    assert!(!element(None, None).contains_id(""));
}
