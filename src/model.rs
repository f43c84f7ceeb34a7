use vstd::prelude::*;

verus! {

/// Why a document yields no entry.
#[derive(Debug, Clone, Copy, PartialEq, Eq, Structural)]
pub enum ExtractError {
    /// The page holds no headword: the word is not in the dictionary.
    NotFound,
    /// The HTML could not be tokenized at all.
    ParseFailure,
}

/// Canonical part-of-speech categories.
#[derive(Debug, Clone, Copy, PartialEq, Eq, Structural)]
pub enum WordType {
    Noun,
    Verb,
    TransitiveVerb,
    IntransitiveVerb,
    Adjective,
    Adverb,
    Preposition,
    Conjunction,
    Interjection,
    Article,
    Pronoun,
    Abbreviation,
    Prefix,
}

/// An example sentence and its translation (empty until one is seen).
#[derive(Debug, Clone)]
pub struct Example {
    pub sentence: String,
    pub meaning: String,
}

/// A gloss and the examples attached to it, in document order.
#[derive(Debug, Clone)]
pub struct Meaning {
    pub meaning: String,
    pub examples: Vec<Example>,
}

/// One part-of-speech group of an entry.
#[derive(Debug, Clone)]
pub struct WordTypeDefinition {
    pub word_type: WordType,
    pub meaning: Vec<Meaning>,
}

/// A full dictionary entry for one headword.
#[derive(Debug, Clone)]
pub struct WordDefinition {
    pub word: String,
    pub pronounce: String,
    pub type_and_definitions: Vec<WordTypeDefinition>,
}

pub struct ExampleModel {
    pub sentence: Seq<char>,
    pub translation: Seq<char>,
}

pub struct MeaningModel {
    pub text: Seq<char>,
    pub examples: Seq<ExampleModel>,
}

pub struct TypeModel {
    pub word_type: WordType,
    pub meanings: Seq<MeaningModel>,
}

pub struct DefinitionModel {
    pub word: Seq<char>,
    pub pronounce: Seq<char>,
    pub types: Seq<TypeModel>,
}

impl View for Example {
    type V = ExampleModel;

    open spec fn view(&self) -> ExampleModel {
        ExampleModel { sentence: self.sentence@, translation: self.meaning@ }
    }
}

impl View for Meaning {
    type V = MeaningModel;

    open spec fn view(&self) -> MeaningModel {
        MeaningModel { text: self.meaning@, examples: self.examples@.map_values(|e: Example| e@) }
    }
}

impl View for WordTypeDefinition {
    type V = TypeModel;

    open spec fn view(&self) -> TypeModel {
        TypeModel {
            word_type: self.word_type,
            meanings: self.meaning@.map_values(|m: Meaning| m@),
        }
    }
}

impl View for WordDefinition {
    type V = DefinitionModel;

    open spec fn view(&self) -> DefinitionModel {
        DefinitionModel {
            word: self.word@,
            pronounce: self.pronounce@,
            types: self.type_and_definitions@.map_values(|t: WordTypeDefinition| t@),
        }
    }
}

impl WordDefinition {
    /// An entry with the given headword and pronunciation and no groups yet.
    pub fn new(word: &str, pronounce: &str) -> (r: Self)
        ensures
            r@ == (DefinitionModel { word: word@, pronounce: pronounce@, types: Seq::empty() }),
    {
        let r = WordDefinition {
            word: String::from_str(word),
            pronounce: String::from_str(pronounce),
            type_and_definitions: Vec::new(),
        };
        assert(r@.types =~= Seq::<TypeModel>::empty());
        r
    }
}

} // verus!
