use dic_crawler::{aggregate_markers, BlockOutcome, Marker, MarkerKind, WordType, WordTypeDefinition};

fn mk(kind: MarkerKind, text: &str) -> Marker {
    Marker { kind, text: text.to_string() }
}

fn typed(outcome: BlockOutcome) -> WordTypeDefinition {
    match outcome {
        BlockOutcome::Typed(t) => t,
        other => panic!("expected a group, got {:?}", other),
    }
}

#[test]
fn well_formed_block_keeps_nesting() {
    let markers = vec![
        mk(MarkerKind::Header, "verb"),
        mk(MarkerKind::Meaning, "M1"),
        mk(MarkerKind::Example, "E1"),
        mk(MarkerKind::Translation, "T1"),
        mk(MarkerKind::Example, "E2"),
        mk(MarkerKind::Meaning, "M2"),
        mk(MarkerKind::Meaning, "M3"),
        mk(MarkerKind::Example, "E3"),
        mk(MarkerKind::Translation, "T3"),
    ];
    let t = typed(aggregate_markers(&markers));
    assert_eq!(t.word_type, WordType::Verb);
    assert_eq!(t.meaning.len(), 3);
    assert_eq!(t.meaning[0].meaning, "M1");
    assert_eq!(t.meaning[0].examples.len(), 2);
    assert_eq!(t.meaning[0].examples[0].sentence, "E1");
    assert_eq!(t.meaning[0].examples[0].meaning, "T1");
    assert_eq!(t.meaning[0].examples[1].sentence, "E2");
    assert_eq!(t.meaning[0].examples[1].meaning, "");
    assert_eq!(t.meaning[1].meaning, "M2");
    assert!(t.meaning[1].examples.is_empty());
    assert_eq!(t.meaning[2].meaning, "M3");
    assert_eq!(t.meaning[2].examples.len(), 1);
    assert_eq!(t.meaning[2].examples[0].sentence, "E3");
    assert_eq!(t.meaning[2].examples[0].meaning, "T3");
}

#[test]
fn empty_block_yields_nothing() {
    assert!(matches!(aggregate_markers(&vec![]), BlockOutcome::NoHeader));
}

#[test]
fn block_without_header_yields_nothing() {
    let markers = vec![mk(MarkerKind::Meaning, "M1"), mk(MarkerKind::Other, "x")];
    assert!(matches!(aggregate_markers(&markers), BlockOutcome::NoHeader));
}

#[test]
fn orphan_markers_before_header_are_dropped() {
    let markers = vec![
        mk(MarkerKind::Meaning, "orphan meaning"),
        mk(MarkerKind::Example, "orphan example"),
        mk(MarkerKind::Translation, "orphan translation"),
        mk(MarkerKind::Header, "noun"),
        mk(MarkerKind::Meaning, "M1"),
    ];
    let t = typed(aggregate_markers(&markers));
    assert_eq!(t.word_type, WordType::Noun);
    assert_eq!(t.meaning.len(), 1);
    assert_eq!(t.meaning[0].meaning, "M1");
    assert!(t.meaning[0].examples.is_empty());
}

#[test]
fn second_header_keeps_first_group() {
    let markers = vec![
        mk(MarkerKind::Header, "noun"),
        mk(MarkerKind::Meaning, "M1"),
        mk(MarkerKind::Header, "verb"),
        mk(MarkerKind::Meaning, "M2"),
    ];
    let t = typed(aggregate_markers(&markers));
    assert_eq!(t.word_type, WordType::Noun);
    assert_eq!(t.meaning.len(), 2);
    assert_eq!(t.meaning[0].meaning, "M1");
    assert_eq!(t.meaning[1].meaning, "M2");
}

#[test]
fn unrecognized_header_skips_block() {
    let markers = vec![
        mk(MarkerKind::Header, "gerund"),
        mk(MarkerKind::Header, "noun"),
        mk(MarkerKind::Meaning, "M1"),
    ];
    match aggregate_markers(&markers) {
        BlockOutcome::Unrecognized(label) => assert_eq!(label, "gerund"),
        other => panic!("expected a skipped block, got {:?}", other),
    }
}

#[test]
fn translation_without_example_is_dropped() {
    let markers = vec![
        mk(MarkerKind::Header, "adverb"),
        mk(MarkerKind::Meaning, "M1"),
        mk(MarkerKind::Translation, "T0"),
        mk(MarkerKind::Example, "E1"),
    ];
    let t = typed(aggregate_markers(&markers));
    assert_eq!(t.meaning.len(), 1);
    assert_eq!(t.meaning[0].examples.len(), 1);
    assert_eq!(t.meaning[0].examples[0].sentence, "E1");
    assert_eq!(t.meaning[0].examples[0].meaning, "");
}

#[test]
fn example_without_meaning_is_dropped() {
    let markers = vec![
        mk(MarkerKind::Header, "adjective"),
        mk(MarkerKind::Example, "E0"),
        mk(MarkerKind::Translation, "T0"),
        mk(MarkerKind::Meaning, "M1"),
    ];
    let t = typed(aggregate_markers(&markers));
    assert_eq!(t.word_type, WordType::Adjective);
    assert_eq!(t.meaning.len(), 1);
    assert!(t.meaning[0].examples.is_empty());
}

#[test]
fn header_only_block_yields_empty_group() {
    let t = typed(aggregate_markers(&vec![mk(MarkerKind::Header, "prefix")]));
    assert_eq!(t.word_type, WordType::Prefix);
    assert!(t.meaning.is_empty());
}
