use vstd::prelude::*;

use crate::model::WordType;
use crate::text::{chars_eq_ignore_ascii_case, chars_of, eq_ignore_ascii_case, trim_chars, trim_ws};

verus! {

/// A part-of-speech label that names no known category.
#[derive(Debug, Clone)]
pub struct Unrecognized {
    pub label: String,
}

/// Whether the trimmed label `n` is `candidate`, ignoring ASCII case.
pub open spec fn names(n: Seq<char>, candidate: &str) -> bool {
    eq_ignore_ascii_case(n, candidate@)
}

/// The category that a label stands for, in English or Vietnamese.
/// The label is compared without surrounding whitespace and without ASCII case.
pub open spec fn word_type_of(label: Seq<char>) -> Option<WordType> {
    let n = trim_ws(label);
    if names(n, "noun") || names(n, "danh từ") {
        Some(WordType::Noun)
    } else if names(n, "verb") || names(n, "động từ") {
        Some(WordType::Verb)
    } else if names(n, "transitive verb") || names(n, "ngoại động từ") {
        Some(WordType::TransitiveVerb)
    } else if names(n, "intransitive verb") || names(n, "nội động từ") {
        Some(WordType::IntransitiveVerb)
    } else if names(n, "adjective") || names(n, "tính từ") {
        Some(WordType::Adjective)
    } else if names(n, "adverb") || names(n, "phó từ") {
        Some(WordType::Adverb)
    } else if names(n, "preposition") || names(n, "giới từ") {
        Some(WordType::Preposition)
    } else if names(n, "conjunction") || names(n, "liên từ") {
        Some(WordType::Conjunction)
    } else if names(n, "interjection") || names(n, "thán từ") {
        Some(WordType::Interjection)
    } else if names(n, "article") || names(n, "mạo từ") {
        Some(WordType::Article)
    } else if names(n, "pronoun") || names(n, "đại từ") || names(n, "Đại từ") {
        Some(WordType::Pronoun)
    } else if names(n, "abbreviation") || names(n, "viết tắt") {
        Some(WordType::Abbreviation)
    } else if names(n, "prefix") || names(n, "tiền tố") {
        Some(WordType::Prefix)
    } else {
        None
    }
}

/// The canonical lower-case English label of a category.
pub open spec fn label_of(t: WordType) -> &'static str {
    match t {
        WordType::Noun => "noun",
        WordType::Verb => "verb",
        WordType::TransitiveVerb => "transitive verb",
        WordType::IntransitiveVerb => "intransitive verb",
        WordType::Adjective => "adjective",
        WordType::Adverb => "adverb",
        WordType::Preposition => "preposition",
        WordType::Conjunction => "conjunction",
        WordType::Interjection => "interjection",
        WordType::Article => "article",
        WordType::Pronoun => "pronoun",
        WordType::Abbreviation => "abbreviation",
        WordType::Prefix => "prefix",
    }
}

fn is_named(n: &Vec<char>, candidate: &str) -> (r: bool)
    ensures
        r == names(n@, candidate),
{
    let c = chars_of(candidate);
    chars_eq_ignore_ascii_case(n, &c)
}

impl WordType {
    /// Resolves a label found in markup to its category.
    pub fn from_label(label: &str) -> (r: Result<WordType, Unrecognized>)
        ensures
            match r {
                Ok(t) => word_type_of(label@) == Some(t),
                Err(e) => word_type_of(label@) is None && e.label@ == label@,
            },
    {
        let n = trim_chars(&chars_of(label));
        if is_named(&n, "noun") || is_named(&n, "danh từ") {
            Ok(WordType::Noun)
        } else if is_named(&n, "verb") || is_named(&n, "động từ") {
            Ok(WordType::Verb)
        } else if is_named(&n, "transitive verb") || is_named(&n, "ngoại động từ") {
            Ok(WordType::TransitiveVerb)
        } else if is_named(&n, "intransitive verb") || is_named(&n, "nội động từ") {
            Ok(WordType::IntransitiveVerb)
        } else if is_named(&n, "adjective") || is_named(&n, "tính từ") {
            Ok(WordType::Adjective)
        } else if is_named(&n, "adverb") || is_named(&n, "phó từ") {
            Ok(WordType::Adverb)
        } else if is_named(&n, "preposition") || is_named(&n, "giới từ") {
            Ok(WordType::Preposition)
        } else if is_named(&n, "conjunction") || is_named(&n, "liên từ") {
            Ok(WordType::Conjunction)
        } else if is_named(&n, "interjection") || is_named(&n, "thán từ") {
            Ok(WordType::Interjection)
        } else if is_named(&n, "article") || is_named(&n, "mạo từ") {
            Ok(WordType::Article)
        } else if is_named(&n, "pronoun") || is_named(&n, "đại từ") || is_named(&n, "Đại từ") {
            Ok(WordType::Pronoun)
        } else if is_named(&n, "abbreviation") || is_named(&n, "viết tắt") {
            Ok(WordType::Abbreviation)
        } else if is_named(&n, "prefix") || is_named(&n, "tiền tố") {
            Ok(WordType::Prefix)
        } else {
            Err(Unrecognized { label: String::from_str(label) })
        }
    }

    /// The canonical lower-case English label, as the category table is keyed.
    pub fn label(&self) -> (r: &'static str)
        ensures
            r@ == label_of(*self)@,
    {
        match self {
            WordType::Noun => "noun",
            WordType::Verb => "verb",
            WordType::TransitiveVerb => "transitive verb",
            WordType::IntransitiveVerb => "intransitive verb",
            WordType::Adjective => "adjective",
            WordType::Adverb => "adverb",
            WordType::Preposition => "preposition",
            WordType::Conjunction => "conjunction",
            WordType::Interjection => "interjection",
            WordType::Article => "article",
            WordType::Pronoun => "pronoun",
            WordType::Abbreviation => "abbreviation",
            WordType::Prefix => "prefix",
        }
    }
}

} // verus!
