use dic_crawler::crawler::{cambridge_profile, coviet_profile};
use dic_crawler::crawler::EnToEnCrawler;
use dic_crawler::{
    WordDefinition, definition_from_parts, extract_with, Block, DictionaryCambridgeExtractor, Element,
    EnToViCrawler, ExtractError, HTMLExtractor, Parser, WordType,
};

const RUN_PAGE: &str = r#"<html><body>
<div class="w fl">run</div>
<div class="p5l fl cB">/rʌn/</div>
<div id="partofspeech_0">
  <div class="ub">verb</div>
  <div class="m">M1</div>
  <div class="e">E1</div>
  <div class="em">T1</div>
  <div class="m">M2</div>
</div>
<div id="partofspeech_100">
  <div class="ub">Danh từ</div>
  <div class="m">boilerplate</div>
</div>
</body></html>"#;

fn crawler() -> EnToViCrawler {
    EnToViCrawler::new(reqwest::Client::new())
}

#[test]
fn round_trip_fixture() {
    let d = crawler().extract_word(RUN_PAGE).unwrap();
    assert_eq!(d.word, "run");
    assert_eq!(d.pronounce, "/rʌn/");
    assert_eq!(d.type_and_definitions.len(), 1);
    let t = &d.type_and_definitions[0];
    assert_eq!(t.word_type, WordType::Verb);
    assert_eq!(t.meaning.len(), 2);
    assert_eq!(t.meaning[0].meaning, "M1");
    assert_eq!(t.meaning[0].examples.len(), 1);
    assert_eq!(t.meaning[0].examples[0].sentence, "E1");
    assert_eq!(t.meaning[0].examples[0].meaning, "T1");
    assert_eq!(t.meaning[1].meaning, "M2");
    assert!(t.meaning[1].examples.is_empty());
}

#[test]
fn missing_headword_is_not_found() {
    let page = "<html><body><div class=\"notfound\">Word not found</div></body></html>";
    assert_eq!(crawler().extract_word(page).unwrap_err(), ExtractError::NotFound);
    assert_eq!(crawler().extract_word("").unwrap_err(), ExtractError::NotFound);
    assert_eq!(crawler().extract_word("<<<>>").unwrap_err(), ExtractError::NotFound);
}

#[test]
fn empty_headword_is_not_found() {
    let page = "<div class=\"w fl\">   </div><div id=\"partofspeech_1\"><div class=\"ub\">noun</div></div>";
    assert_eq!(crawler().extract_word(page).unwrap_err(), ExtractError::NotFound);
}

#[test]
fn noise_block_is_excluded() {
    let page = r#"<div class="w fl">set</div>
<div id="partofspeech_100"><div class="ub">noun</div><div class="m">noise</div></div>"#;
    let d = crawler().extract_word(page).unwrap();
    assert_eq!(d.word, "set");
    assert_eq!(d.pronounce, "");
    assert!(d.type_and_definitions.is_empty());
}

#[test]
fn unrecognized_block_is_skipped_and_rest_kept() {
    let page = r#"<div class="w fl">go</div>
<div id="partofspeech_0"><div class="ub">gerund</div><div class="m">skipped</div></div>
<div id="partofspeech_1"><div class="ub">Nội động từ</div><div class="m">đi</div></div>
<div id="partofspeech_2"><div class="m">orphan</div></div>"#;
    let d = crawler().extract_word(page).unwrap();
    assert_eq!(d.type_and_definitions.len(), 1);
    assert_eq!(d.type_and_definitions[0].word_type, WordType::IntransitiveVerb);
    assert_eq!(d.type_and_definitions[0].meaning[0].meaning, "đi");
}

#[test]
fn blocks_keep_document_order() {
    let page = r#"<div class="w fl">light</div>
<div id="partofspeech_0"><div class="ub">adjective</div><div class="m">not heavy</div></div>
<div id="partofspeech_1"><div class="ub">noun</div><div class="m">brightness</div></div>"#;
    let d = crawler().extract_word(page).unwrap();
    assert_eq!(d.type_and_definitions.len(), 2);
    assert_eq!(d.type_and_definitions[0].word_type, WordType::Adjective);
    assert_eq!(d.type_and_definitions[1].word_type, WordType::Noun);
    assert_eq!(d.type_and_definitions[1].meaning[0].meaning, "brightness");
}

#[test]
fn parser_queries_return_trimmed_text() {
    let parser = Parser::new(RUN_PAGE).unwrap();
    assert_eq!(parser.query_selector_first_element_inner_text("div.w.fl").unwrap(), "run");
    assert!(parser.query_selector_first_element_inner_text("div.missing").is_none());
    let blocks = parser.query_selector_elements("[id^='partofspeech']");
    assert_eq!(blocks.len(), 2);
    assert!(parser.has_id(&blocks[0], "partofspeech_0"));
    assert!(parser.contains_id(&blocks[1], "100"));
    let inner = parser.query_selector(&blocks[0], "div");
    assert_eq!(inner.len(), 5);
    assert!(parser.has_class(&inner[0], "ub"));
    assert_eq!(parser.inner_text(&inner[0]), "verb");
    assert_eq!(inner[4].text, "M2");
}

#[test]
fn crawler_reads_one_block() {
    let c = crawler();
    let parser = Parser::new(RUN_PAGE).unwrap();
    let blocks = parser.query_selector_elements("[id^='partofspeech']");
    let t = c.extract_type_definition(&blocks[0], &parser).unwrap();
    assert_eq!(t.word_type, WordType::Verb);
    assert_eq!(t.meaning.len(), 2);
    let d = c.get_definition(&parser).unwrap();
    assert_eq!(d.word, "run");
    assert_eq!(d.type_and_definitions.len(), 1);
}

fn el(class: &str, text: &str) -> Element {
    Element { handle: 0, id: None, class: Some(class.to_string()), text: text.to_string() }
}

#[test]
fn definition_from_parts_on_built_values() {
    let profile = coviet_profile();
    let block = Block {
        element: Element { handle: 1, id: Some("partofspeech_0".to_string()), class: None, text: String::new() },
        markers: vec![el("ub", "noun"), el("m", "a house"), el("e", "my home"), el("em", "nhà tôi")],
    };
    let noise = Block {
        element: Element { handle: 2, id: Some("partofspeech_100".to_string()), class: None, text: String::new() },
        markers: vec![el("ub", "verb"), el("m", "noise")],
    };
    let d = definition_from_parts(&profile, Some("home".to_string()), None, &vec![noise, block]).unwrap();
    assert_eq!(d.word, "home");
    assert_eq!(d.pronounce, "");
    assert_eq!(d.type_and_definitions.len(), 1);
    let t = &d.type_and_definitions[0];
    assert_eq!(t.word_type, WordType::Noun);
    assert_eq!(t.meaning[0].meaning, "a house");
    assert_eq!(t.meaning[0].examples[0].sentence, "my home");
    assert_eq!(t.meaning[0].examples[0].meaning, "nhà tôi");
    assert_eq!(
        definition_from_parts(&profile, None, Some("x".to_string()), &vec![]).unwrap_err(),
        ExtractError::NotFound
    );
}

#[test]
fn marker_classes_follow_priority() {
    let profile = coviet_profile();
    let block = Block {
        element: Element { handle: 1, id: None, class: None, text: String::new() },
        markers: vec![el("ub", "verb"), el("m e", "both"), el("e em", "example"), el("em", "translation")],
    };
    let d = definition_from_parts(&profile, Some("w".to_string()), Some("p".to_string()), &vec![block]).unwrap();
    let t = &d.type_and_definitions[0];
    assert_eq!(t.meaning.len(), 1);
    assert_eq!(t.meaning[0].meaning, "both");
    assert_eq!(t.meaning[0].examples[0].sentence, "example");
    assert_eq!(t.meaning[0].examples[0].meaning, "translation");
    assert_eq!(d.pronounce, "p");
}

#[test]
fn cambridge_page() {
    let page = r#"<div class="pr entry-body__el">
<span class="hw dhw">light</span><span class="ipa dipa">laɪt</span>
<span class="pos dpos">noun</span>
<div class="def ddef_d db">the brightness that comes from the sun</div>
<span class="eg deg">The light was too dim.</span>
<span class="trans dtrans">Ánh sáng quá mờ.</span>
</div>"#;
    let d = DictionaryCambridgeExtractor {}.extract_word(page).unwrap();
    assert_eq!(d.word, "light");
    assert_eq!(d.pronounce, "laɪt");
    assert_eq!(d.type_and_definitions.len(), 1);
    let t = &d.type_and_definitions[0];
    assert_eq!(t.word_type, WordType::Noun);
    assert_eq!(t.meaning[0].meaning, "the brightness that comes from the sun");
    assert_eq!(t.meaning[0].examples[0].sentence, "The light was too dim.");
    assert_eq!(t.meaning[0].examples[0].meaning, "Ánh sáng quá mờ.");
    let same = extract_with(&cambridge_profile(), page).unwrap();
    assert_eq!(same.word, "light");
}

#[test]
fn new_definition_starts_without_groups() {
    let d = WordDefinition::new("run", "/rʌn/");
    assert_eq!(d.word, "run");
    assert_eq!(d.pronounce, "/rʌn/");
    assert!(d.type_and_definitions.is_empty());
}

#[test]
fn english_crawler_holds_its_client() {
    let parser = Parser::new("<p>x</p>").unwrap();
    let c = EnToEnCrawler::new(reqwest::Client::new(), &parser);
    let _client: &reqwest::Client = c.client();
}
