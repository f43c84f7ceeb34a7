use dic_crawler::WordType;

#[test]
fn resolves_english_labels() {
    assert_eq!(WordType::from_label("noun").unwrap(), WordType::Noun);
    assert_eq!(WordType::from_label("verb").unwrap(), WordType::Verb);
    assert_eq!(WordType::from_label("transitive verb").unwrap(), WordType::TransitiveVerb);
    assert_eq!(WordType::from_label("interjection").unwrap(), WordType::Interjection);
    assert_eq!(WordType::from_label("abbreviation").unwrap(), WordType::Abbreviation);
}

#[test]
fn resolves_vietnamese_labels() {
    assert_eq!(WordType::from_label("Danh từ").unwrap(), WordType::Noun);
    assert_eq!(WordType::from_label("Nội động từ").unwrap(), WordType::IntransitiveVerb);
    assert_eq!(WordType::from_label("Ngoại động từ").unwrap(), WordType::TransitiveVerb);
    assert_eq!(WordType::from_label("Tính từ").unwrap(), WordType::Adjective);
    assert_eq!(WordType::from_label("Đại từ").unwrap(), WordType::Pronoun);
    assert_eq!(WordType::from_label("Giới từ").unwrap(), WordType::Preposition);
    assert_eq!(WordType::from_label("Thán từ").unwrap(), WordType::Interjection);
}

#[test]
fn ignores_case_and_surrounding_whitespace() {
    assert_eq!(WordType::from_label("  Verb\n").unwrap(), WordType::Verb);
    assert_eq!(WordType::from_label("\tADVERB ").unwrap(), WordType::Adverb);
}

#[test]
fn unknown_label_is_unrecognized() {
    let e = WordType::from_label("gerund").unwrap_err();
    assert_eq!(e.label, "gerund");
    assert!(WordType::from_label("").is_err());
    assert!(WordType::from_label("noun phrase").is_err());
}

#[test]
fn labels_are_canonical() {
    assert_eq!(WordType::Noun.label(), "noun");
    assert_eq!(WordType::IntransitiveVerb.label(), "intransitive verb");
    assert_eq!(WordType::from_label(WordType::Conjunction.label()).unwrap(), WordType::Conjunction);
}
