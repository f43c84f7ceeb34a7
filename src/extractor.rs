use vstd::prelude::*;

use crate::classifier::{
    aggregate, aggregate_markers, markers_view, BlockModel, BlockOutcome, Marker, MarkerKind,
    MarkerModel,
};
use crate::model::{
    DefinitionModel, ExtractError, TypeModel, WordDefinition, WordTypeDefinition,
};
use crate::parser::{
    class_lists, document_matches, elements_of, elements_view, first_text, id_is, scope_matches,
    Element, ElementModel, Parser,
};
use crate::text::opt_chars;

verus! {

/// Where one dictionary site puts each part of an entry: selectors for the
/// headword, the pronunciation, the part-of-speech blocks and the marked
/// elements inside a block; the `id` of a boilerplate block to leave out;
/// and the classes that mark headers, meanings, examples and translations.
pub struct SiteProfile {
    pub headword: &'static str,
    pub pronounce: &'static str,
    pub block: &'static str,
    pub marker: &'static str,
    pub noise_block_id: Option<&'static str>,
    pub header_class: &'static str,
    pub meaning_class: &'static str,
    pub example_class: &'static str,
    pub translation_class: &'static str,
}

pub struct ProfileModel {
    pub headword: Seq<char>,
    pub pronounce: Seq<char>,
    pub block: Seq<char>,
    pub marker: Seq<char>,
    pub noise_block_id: Option<Seq<char>>,
    pub header_class: Seq<char>,
    pub meaning_class: Seq<char>,
    pub example_class: Seq<char>,
    pub translation_class: Seq<char>,
}

impl View for SiteProfile {
    type V = ProfileModel;

    open spec fn view(&self) -> ProfileModel {
        ProfileModel {
            headword: self.headword@,
            pronounce: self.pronounce@,
            block: self.block@,
            marker: self.marker@,
            noise_block_id: match self.noise_block_id {
                Some(i) => Some(i@),
                None => None,
            },
            header_class: self.header_class@,
            meaning_class: self.meaning_class@,
            example_class: self.example_class@,
            translation_class: self.translation_class@,
        }
    }
}

/// A part-of-speech block and its candidate marked elements, in document order.
#[derive(Debug, Clone)]
pub struct Block {
    pub element: Element,
    pub markers: Vec<Element>,
}

pub struct BlockPartsModel {
    pub element: ElementModel,
    pub markers: Seq<ElementModel>,
}

impl View for Block {
    type V = BlockPartsModel;

    open spec fn view(&self) -> BlockPartsModel {
        BlockPartsModel { element: self.element@, markers: elements_view(self.markers@) }
    }
}

pub open spec fn blocks_view(bs: Seq<Block>) -> Seq<BlockPartsModel> {
    bs.map_values(|b: Block| b@)
}

/// The role of an element, by its classes, in a fixed order of priority:
/// header, meaning, example, translation.
pub open spec fn marker_kind(p: ProfileModel, e: ElementModel) -> MarkerKind {
    if class_lists(e.class, p.header_class) {
        MarkerKind::Header
    } else if class_lists(e.class, p.meaning_class) {
        MarkerKind::Meaning
    } else if class_lists(e.class, p.example_class) {
        MarkerKind::Example
    } else if class_lists(e.class, p.translation_class) {
        MarkerKind::Translation
    } else {
        MarkerKind::Other
    }
}

pub open spec fn marker_of(p: ProfileModel, e: ElementModel) -> MarkerModel {
    MarkerModel { kind: marker_kind(p, e), text: e.text }
}

/// Whether `e` is the site's boilerplate block.
pub open spec fn is_noise(p: ProfileModel, e: ElementModel) -> bool {
    match p.noise_block_id {
        Some(id) => id_is(e.id, id),
        None => false,
    }
}

/// What one block yields.
pub open spec fn block_yield(p: ProfileModel, b: BlockPartsModel) -> BlockModel {
    aggregate(b.markers.map_values(|e: ElementModel| marker_of(p, e)))
}

/// The groups that `bs` yield, in block order; the boilerplate block and
/// blocks that yield no group contribute nothing.
pub open spec fn types_of_blocks(p: ProfileModel, bs: Seq<BlockPartsModel>) -> Seq<TypeModel>
    decreases bs.len(),
{
    if bs.len() == 0 {
        Seq::empty()
    } else {
        let front = types_of_blocks(p, bs.drop_last());
        let b = bs.last();
        if is_noise(p, b.element) {
            front
        } else {
            match block_yield(p, b) {
                BlockModel::Typed(t) => front.push(t),
                _ => front,
            }
        }
    }
}

/// The entry made of a headword, a pronunciation and blocks: none without a
/// (non-empty) headword; a missing pronunciation is empty.
pub open spec fn definition_from(
    p: ProfileModel,
    word: Option<Seq<char>>,
    pronounce: Option<Seq<char>>,
    bs: Seq<BlockPartsModel>,
) -> Result<DefinitionModel, ExtractError> {
    match word {
        Some(w) => if w.len() > 0 {
            Ok(
                DefinitionModel {
                    word: w,
                    pronounce: match pronounce {
                        Some(x) => x,
                        None => Seq::empty(),
                    },
                    types: types_of_blocks(p, bs),
                },
            )
        } else {
            Err(ExtractError::NotFound)
        },
        None => Err(ExtractError::NotFound),
    }
}

/// The blocks of the document parsed from `html`, each with the elements
/// inside it that the marker selector picks.
pub open spec fn document_blocks(p: ProfileModel, html: Seq<char>) -> Seq<BlockPartsModel> {
    elements_of(html, document_matches(html, p.block)).map_values(
        |b: ElementModel|
            BlockPartsModel { element: b, markers: elements_of(html, scope_matches(html, b.handle, p.marker)) },
    )
}

/// The entry that a page holds, for a site laid out as `p` says.
pub open spec fn extraction(p: ProfileModel, html: &str) -> Result<DefinitionModel, ExtractError> {
    if html.len() > u32::MAX {
        Err(ExtractError::ParseFailure)
    } else {
        definition_from(
            p,
            first_text(html@, p.headword),
            first_text(html@, p.pronounce),
            document_blocks(p, html@),
        )
    }
}

pub open spec fn result_view(r: Result<WordDefinition, ExtractError>) -> Result<DefinitionModel, ExtractError> {
    match r {
        Ok(d) => Ok(d@),
        Err(e) => Err(e),
    }
}

/// The marker that an element stands for.
pub fn marker_of_element(profile: &SiteProfile, e: &Element) -> (r: Marker)
    ensures
        r@ == marker_of(profile@, e@),
{
    let kind = if e.has_class(profile.header_class) {
        MarkerKind::Header
    } else if e.has_class(profile.meaning_class) {
        MarkerKind::Meaning
    } else if e.has_class(profile.example_class) {
        MarkerKind::Example
    } else if e.has_class(profile.translation_class) {
        MarkerKind::Translation
    } else {
        MarkerKind::Other
    };
    Marker { kind, text: e.text.clone() }
}

fn is_noise_block(profile: &SiteProfile, e: &Element) -> (r: bool)
    ensures
        r == is_noise(profile@, e@),
{
    match profile.noise_block_id {
        Some(id) => e.has_id(id),
        None => false,
    }
}

/// What one block yields.
pub fn extract_block(profile: &SiteProfile, block: &Block) -> (r: BlockOutcome)
    ensures
        r@ == block_yield(profile@, block@),
{
    let mut markers: Vec<Marker> = Vec::new();
    let mut i: usize = 0;
    while i < block.markers.len()
        invariant
            i <= block.markers.len(),
            markers_view(markers@) == block@.markers.take(i as int).map_values(
                |e: ElementModel| marker_of(profile@, e),
            ),
        decreases block.markers.len() - i,
    {
        let m = marker_of_element(profile, &block.markers[i]);
        let ghost before = markers@;
        markers.push(m);
        proof {
            assert(block@.markers[i as int] == block.markers@[i as int]@);
            assert(markers_view(markers@) =~= markers_view(before).push(m@));
            assert(markers_view(markers@) =~= block@.markers.take(i + 1).map_values(
                |e: ElementModel| marker_of(profile@, e),
            ));
        }
        i = i + 1;
    }
    assert(block@.markers.take(i as int) =~= block@.markers);
    aggregate_markers(&markers)
}

pub open spec fn types_view(ts: Seq<WordTypeDefinition>) -> Seq<TypeModel> {
    ts.map_values(|t: WordTypeDefinition| t@)
}

/// The entry made of a headword, a pronunciation and the blocks of a page,
/// as the queries of the page returned them.
pub fn definition_from_parts(
    profile: &SiteProfile,
    word: Option<String>,
    pronounce: Option<String>,
    blocks: &Vec<Block>,
) -> (r: Result<WordDefinition, ExtractError>)
    ensures
        result_view(r) == definition_from(
            profile@,
            opt_chars(word),
            opt_chars(pronounce),
            blocks_view(blocks@),
        ),
{
    let w = match word {
        Some(w) => w,
        None => {
            return Err(ExtractError::NotFound);
        },
    };
    if w.as_str().is_empty() {
        return Err(ExtractError::NotFound);
    }
    let p = match pronounce {
        Some(p) => p,
        None => String::new(),
    };
    let ghost bv = blocks_view(blocks@);
    let mut types: Vec<WordTypeDefinition> = Vec::new();
    let mut i: usize = 0;
    while i < blocks.len()
        invariant
            i <= blocks.len(),
            bv == blocks_view(blocks@),
            types_view(types@) == types_of_blocks(profile@, bv.take(i as int)),
        decreases blocks.len() - i,
    {
        let ghost before = types@;
        proof {
            assert(bv.take(i + 1).drop_last() =~= bv.take(i as int));
            assert(bv.take(i + 1).last() == blocks@[i as int]@);
        }
        if !is_noise_block(profile, &blocks[i].element) {
            match extract_block(profile, &blocks[i]) {
                BlockOutcome::Typed(t) => {
                    types.push(t);
                    assert(types_view(types@) =~= types_view(before).push(t@));
                },
                _ => {},
            }
        }
        i = i + 1;
    }
    assert(bv.take(i as int) =~= bv);
    let mut d = WordDefinition::new(w.as_str(), p.as_str());
    d.type_and_definitions = types;
    Ok(d)
}

/// The entry that a parsed page holds, for a site laid out as `profile` says.
pub fn definition_in(profile: &SiteProfile, parser: &Parser) -> (r: Result<WordDefinition, ExtractError>)
    ensures
        result_view(r) == definition_from(
            profile@,
            first_text(parser@, profile@.headword),
            first_text(parser@, profile@.pronounce),
            document_blocks(profile@, parser@),
        ),
{
    let word = parser.query_selector_first_element_inner_text(profile.headword);
    let missing = match &word {
        Some(w) => w.as_str().is_empty(),
        None => true,
    };
    if missing {
        return Err(ExtractError::NotFound);
    }
    let pronounce = parser.query_selector_first_element_inner_text(profile.pronounce);
    let elements = parser.query_selector_elements(profile.block);
    let ghost ev = elements_view(elements@);
    let ghost html_v = parser@;
    let mut blocks: Vec<Block> = Vec::new();
    let mut i: usize = 0;
    while i < elements.len()
        invariant
            i <= elements.len(),
            parser@ == html_v,
            ev == elements_view(elements@),
            ev == elements_of(html_v, document_matches(html_v, profile@.block)),
            blocks_view(blocks@) == document_blocks(profile@, html_v).take(i as int),
        decreases elements.len() - i,
    {
        let element = elements[i].duplicate();
        let markers = parser.query_selector(&element, profile.marker);
        let ghost before = blocks@;
        let b = Block { element, markers };
        blocks.push(b);
        proof {
            assert(ev[i as int] == element@);
            assert(blocks_view(blocks@) =~= blocks_view(before).push(b@));
            assert(blocks_view(blocks@) =~= document_blocks(profile@, html_v).take(i + 1));
        }
        i = i + 1;
    }
    assert(document_blocks(profile@, html_v).take(i as int) =~= document_blocks(profile@, html_v));
    definition_from_parts(profile, word, pronounce, &blocks)
}

/// The entry that `html` holds, for a site laid out as `profile` says.
pub fn extract_with(profile: &SiteProfile, html: &str) -> (r: Result<WordDefinition, ExtractError>)
    ensures
        result_view(r) == extraction(profile@, html),
{
    match Parser::new(html) {
        Ok(parser) => definition_in(profile, &parser),
        Err(e) => Err(e),
    }
}

/// Extraction of entries from the pages of one dictionary site.
pub trait HTMLExtractor {
    /// How the site lays out its pages.
    spec fn layout(&self) -> ProfileModel;

    /// The entry that a page of the site holds.
    fn extract_word(&self, html: &str) -> (r: Result<WordDefinition, ExtractError>)
        ensures
            result_view(r) == extraction(self.layout(), html),
    ;
}

proof fn lemma_types_concat(p: ProfileModel, a: Seq<BlockPartsModel>, b: Seq<BlockPartsModel>)
    ensures
        types_of_blocks(p, a + b) == types_of_blocks(p, a) + types_of_blocks(p, b),
    decreases b.len(),
{
    if b.len() == 0 {
        assert(a + b =~= a);
        assert(types_of_blocks(p, a) + Seq::<TypeModel>::empty() =~= types_of_blocks(p, a));
    } else {
        assert((a + b).drop_last() =~= a + b.drop_last());
        assert((a + b).last() == b.last());
        lemma_types_concat(p, a, b.drop_last());
        let ta = types_of_blocks(p, a);
        let tf = types_of_blocks(p, b.drop_last());
        if !is_noise(p, b.last().element) {
            match block_yield(p, b.last()) {
                BlockModel::Typed(t) => {
                    assert((ta + tf).push(t) =~= ta + tf.push(t));
                },
                _ => {},
            }
        }
    }
}

/// The site's boilerplate block contributes nothing to an entry, whatever it
/// holds, header-shaped markers included: the entry is the same without it.
pub proof fn lemma_noise_block_ignored(
    p: ProfileModel,
    word: Option<Seq<char>>,
    pronounce: Option<Seq<char>>,
    before: Seq<BlockPartsModel>,
    noise: BlockPartsModel,
    after: Seq<BlockPartsModel>,
)
    requires
        is_noise(p, noise.element),
    ensures
        definition_from(p, word, pronounce, before.push(noise) + after) == definition_from(
            p,
            word,
            pronounce,
            before + after,
        ),
{
    lemma_types_concat(p, before.push(noise), after);
    lemma_types_concat(p, before, after);
    assert(before.push(noise).drop_last() =~= before);
}

/// A page that parses but has no headword element yields `NotFound`.
pub proof fn lemma_missing_headword(p: ProfileModel, html: &str)
    requires
        html.len() <= u32::MAX,
        first_text(html@, p.headword) is None,
    ensures
        extraction(p, html) == Err::<DefinitionModel, ExtractError>(ExtractError::NotFound),
{
}

} // verus!
