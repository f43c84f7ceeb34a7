use vstd::prelude::*;

use crate::classifier::{BlockModel, BlockOutcome};
use crate::extractor::{
    block_yield, definition_from, definition_in, document_blocks, extract_block, extract_with,
    result_view, Block, BlockPartsModel, HTMLExtractor, ProfileModel, SiteProfile,
};
use crate::model::{ExtractError, TypeModel, WordDefinition, WordTypeDefinition};
use crate::parser::{elements_of, first_text, scope_matches, Element, Parser};
use crate::text::{chars_of, join_split, lemma_split_join, replaced, split_chars};

verus! {

#[verifier::external_type_specification]
#[verifier::external_body]
pub struct ExClient(reqwest::Client);

/// Where the English-Vietnamese dictionary serves its entries.
pub const ENDPOINT_BASE: &'static str = "http://tratu.coviet.vn/hoc-tieng-anh/tu-dien/lac-viet/A-V/";

/// The layout of the English-Vietnamese dictionary's pages.
pub open spec fn coviet_layout() -> ProfileModel {
    ProfileModel {
        headword: "div.w.fl"@,
        pronounce: "div.p5l.fl.cB"@,
        block: "[id^='partofspeech']"@,
        marker: "div"@,
        noise_block_id: Some("partofspeech_100"@),
        header_class: "ub"@,
        meaning_class: "m"@,
        example_class: "e"@,
        translation_class: "em"@,
    }
}

/// The layout of the Cambridge dictionary's pages.
pub open spec fn cambridge_layout() -> ProfileModel {
    ProfileModel {
        headword: "span.hw.dhw"@,
        pronounce: "span.ipa"@,
        block: "div.pr.entry-body__el"@,
        marker: "*"@,
        noise_block_id: None,
        header_class: "pos"@,
        meaning_class: "def"@,
        example_class: "eg"@,
        translation_class: "trans"@,
    }
}

pub fn coviet_profile() -> (r: SiteProfile)
    ensures
        r@ == coviet_layout(),
{
    SiteProfile {
        headword: "div.w.fl",
        pronounce: "div.p5l.fl.cB",
        block: "[id^='partofspeech']",
        marker: "div",
        noise_block_id: Some("partofspeech_100"),
        header_class: "ub",
        meaning_class: "m",
        example_class: "e",
        translation_class: "em",
    }
}

pub fn cambridge_profile() -> (r: SiteProfile)
    ensures
        r@ == cambridge_layout(),
{
    SiteProfile {
        headword: "span.hw.dhw",
        pronounce: "span.ipa",
        block: "div.pr.entry-body__el",
        marker: "*",
        noise_block_id: None,
        header_class: "pos",
        meaning_class: "def",
        example_class: "eg",
        translation_class: "trans",
    }
}

/// The group that a block yields, if any.
pub open spec fn typed_group(b: BlockModel) -> Option<TypeModel> {
    match b {
        BlockModel::Typed(t) => Some(t),
        _ => None,
    }
}

pub open spec fn opt_group_view(r: Option<WordTypeDefinition>) -> Option<TypeModel> {
    match r {
        Some(t) => Some(t@),
        None => None,
    }
}

/// The English-Vietnamese dictionary: where to ask for a word, and how to
/// read the page that comes back.
pub struct EnToViCrawler {
    client: reqwest::Client,
}

impl EnToViCrawler {
    pub fn new(http_client: reqwest::Client) -> (r: Self)
        ensures
            r.http_client() == http_client,
    {
        Self { client: http_client }
    }

    pub closed spec fn http_client(&self) -> reqwest::Client {
        self.client
    }

    /// The HTTP client that pages are fetched with.
    pub fn client(&self) -> (r: &reqwest::Client)
        ensures
            *r == self.http_client(),
    {
        &self.client
    }

    /// The address of the page for `word`; the words of a phrase are joined by `+`.
    pub fn construct_query_endpoint(&self, word: &str) -> (r: String)
        ensures
            r@ == ENDPOINT_BASE@ + replaced(word@, ' ', '+') + ".html"@,
    {
        let parts = split_chars(&chars_of(word), ' ');
        let token = join_split(&parts, '+');
        proof {
            lemma_split_join(word@, ' ', '+');
        }
        let mut r = String::from_str(ENDPOINT_BASE);
        r.append(token.as_str());
        r.append(".html");
        r
    }

    /// The entry that a parsed page holds.
    pub fn get_definition(&self, parser: &Parser) -> (r: Result<WordDefinition, ExtractError>)
        ensures
            result_view(r) == definition_from(
                coviet_layout(),
                first_text(parser@, coviet_layout().headword),
                first_text(parser@, coviet_layout().pronounce),
                document_blocks(coviet_layout(), parser@),
            ),
    {
        definition_in(&coviet_profile(), parser)
    }

    /// The part-of-speech group that the block `tag` holds, if any.
    pub fn extract_type_definition(&self, tag: &Element, parser: &Parser) -> (r: Option<WordTypeDefinition>)
        ensures
            opt_group_view(r) == typed_group(
                block_yield(
                    coviet_layout(),
                    BlockPartsModel {
                        element: tag@,
                        markers: elements_of(parser@, scope_matches(parser@, tag.handle, coviet_layout().marker)),
                    },
                ),
            ),
    {
        let profile = coviet_profile();
        let markers = parser.query_selector(tag, profile.marker);
        let block = Block { element: tag.duplicate(), markers };
        match extract_block(&profile, &block) {
            BlockOutcome::Typed(t) => Some(t),
            _ => None,
        }
    }
}

impl HTMLExtractor for EnToViCrawler {
    open spec fn layout(&self) -> ProfileModel {
        coviet_layout()
    }

    fn extract_word(&self, html: &str) -> (r: Result<WordDefinition, ExtractError>) {
        extract_with(&coviet_profile(), html)
    }
}

/// The English-English dictionary: the HTTP client its pages are fetched with.
pub struct EnToEnCrawler {
    client: reqwest::Client,
}

impl EnToEnCrawler {
    pub fn new(http_client: reqwest::Client, _parser: &Parser) -> (r: Self)
        ensures
            r.http_client() == http_client,
    {
        Self { client: http_client }
    }

    pub closed spec fn http_client(&self) -> reqwest::Client {
        self.client
    }

    /// The HTTP client that pages are fetched with.
    pub fn client(&self) -> (r: &reqwest::Client)
        ensures
            *r == self.http_client(),
    {
        &self.client
    }
}

/// The Cambridge dictionary's pages.
pub struct DictionaryCambridgeExtractor {}

impl HTMLExtractor for DictionaryCambridgeExtractor {
    open spec fn layout(&self) -> ProfileModel {
        cambridge_layout()
    }

    fn extract_word(&self, html: &str) -> (r: Result<WordDefinition, ExtractError>) {
        extract_with(&cambridge_profile(), html)
    }
}

} // verus!
