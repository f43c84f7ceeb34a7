use vstd::prelude::*;

use crate::model::{
    Example, ExampleModel, Meaning, MeaningModel, TypeModel, WordType, WordTypeDefinition,
};
use crate::word_type::word_type_of;

verus! {

/// The role of one marked element inside a part-of-speech block.
#[derive(Debug, Clone, Copy, PartialEq, Eq, Structural)]
pub enum MarkerKind {
    Header,
    Meaning,
    Example,
    Translation,
    Other,
}

/// One marked element: its role and its text.
#[derive(Debug, Clone)]
pub struct Marker {
    pub kind: MarkerKind,
    pub text: String,
}

pub struct MarkerModel {
    pub kind: MarkerKind,
    pub text: Seq<char>,
}

impl View for Marker {
    type V = MarkerModel;

    open spec fn view(&self) -> MarkerModel {
        MarkerModel { kind: self.kind, text: self.text@ }
    }
}

/// What one block yields: nothing (no header seen), a skip (its header
/// names no known category), or one part-of-speech group.
#[derive(Debug, Clone)]
pub enum BlockOutcome {
    NoHeader,
    Unrecognized(String),
    Typed(WordTypeDefinition),
}

pub enum BlockModel {
    NoHeader,
    Unrecognized(Seq<char>),
    Typed(TypeModel),
}

impl View for BlockOutcome {
    type V = BlockModel;

    open spec fn view(&self) -> BlockModel {
        match self {
            BlockOutcome::NoHeader => BlockModel::NoHeader,
            BlockOutcome::Unrecognized(l) => BlockModel::Unrecognized(l@),
            BlockOutcome::Typed(t) => BlockModel::Typed(t@),
        }
    }
}

pub open spec fn markers_view(ms: Seq<Marker>) -> Seq<MarkerModel> {
    ms.map_values(|m: Marker| m@)
}

/// `t` with the examples of its last meaning replaced by `examples`.
pub open spec fn with_last_examples(t: TypeModel, examples: Seq<ExampleModel>) -> TypeModel {
    let last = t.meanings.last();
    TypeModel {
        word_type: t.word_type,
        meanings: t.meanings.update(
            t.meanings.len() - 1,
            MeaningModel { text: last.text, examples },
        ),
    }
}

/// The effect of a marker on the open group.
pub open spec fn apply_marker(t: TypeModel, m: MarkerModel) -> TypeModel {
    match m.kind {
        MarkerKind::Meaning => TypeModel {
            word_type: t.word_type,
            meanings: t.meanings.push(MeaningModel { text: m.text, examples: Seq::empty() }),
        },
        MarkerKind::Example => {
            if t.meanings.len() > 0 {
                with_last_examples(
                    t,
                    t.meanings.last().examples.push(
                        ExampleModel { sentence: m.text, translation: Seq::empty() },
                    ),
                )
            } else {
                t
            }
        },
        MarkerKind::Translation => {
            if t.meanings.len() > 0 && t.meanings.last().examples.len() > 0 {
                let exs = t.meanings.last().examples;
                with_last_examples(
                    t,
                    exs.update(
                        exs.len() - 1,
                        ExampleModel { sentence: exs.last().sentence, translation: m.text },
                    ),
                )
            } else {
                t
            }
        },
        _ => t,
    }
}

/// One step of the block state machine. A header opens a group only while
/// none is open; a header naming no category spoils the block for good;
/// every other marker only ever touches the open group.
pub open spec fn step(st: BlockModel, m: MarkerModel) -> BlockModel {
    match st {
        BlockModel::NoHeader => {
            if m.kind == MarkerKind::Header {
                match word_type_of(m.text) {
                    Some(w) => BlockModel::Typed(TypeModel { word_type: w, meanings: Seq::empty() }),
                    None => BlockModel::Unrecognized(m.text),
                }
            } else {
                BlockModel::NoHeader
            }
        },
        BlockModel::Unrecognized(l) => BlockModel::Unrecognized(l),
        BlockModel::Typed(t) => BlockModel::Typed(apply_marker(t, m)),
    }
}

pub open spec fn run(st: BlockModel, ms: Seq<MarkerModel>) -> BlockModel
    decreases ms.len(),
{
    if ms.len() == 0 {
        st
    } else {
        step(run(st, ms.drop_last()), ms.last())
    }
}

/// What a block whose markers are `ms`, in document order, yields.
pub open spec fn aggregate(ms: Seq<MarkerModel>) -> BlockModel {
    run(BlockModel::NoHeader, ms)
}

fn apply_to_group(t: &mut WordTypeDefinition, m: &Marker)
    ensures
        final(t)@ == apply_marker(old(t)@, m@),
{
    let ghost t0 = t@;
    match m.kind {
        MarkerKind::Meaning => {
            t.meaning.push(Meaning { meaning: m.text.clone(), examples: Vec::new() });
            proof {
                let em: Seq<ExampleModel> = Seq::empty();
                assert(Seq::<Example>::empty().map_values(|e: Example| e@) =~= em);
                assert(t@.meanings =~= apply_marker(t0, m@).meanings);
            }
        },
        MarkerKind::Example => {
            if t.meaning.len() > 0 {
                let mut last = t.meaning.pop().unwrap();
                let ghost old_last = last;
                last.examples.push(Example { sentence: m.text.clone(), meaning: String::new() });
                proof {
                    assert(last@.examples =~= old_last@.examples.push(
                        ExampleModel { sentence: m@.text, translation: Seq::empty() },
                    ));
                }
                t.meaning.push(last);
                proof {
                    assert(t@.meanings =~= apply_marker(t0, m@).meanings);
                }
            }
        },
        MarkerKind::Translation => {
            if t.meaning.len() > 0 && t.meaning[t.meaning.len() - 1].examples.len() > 0 {
                let mut last = t.meaning.pop().unwrap();
                let ghost old_last = last;
                let mut ex = last.examples.pop().unwrap();
                ex.meaning = m.text.clone();
                last.examples.push(ex);
                proof {
                    let exs = old_last@.examples;
                    assert(last@.examples =~= exs.update(
                        exs.len() - 1,
                        ExampleModel { sentence: exs.last().sentence, translation: m@.text },
                    ));
                }
                t.meaning.push(last);
                proof {
                    assert(t@.meanings =~= apply_marker(t0, m@).meanings);
                }
            }
        },
        _ => {},
    }
}

fn step_block(st: BlockOutcome, m: &Marker) -> (r: BlockOutcome)
    ensures
        r@ == step(st@, m@),
{
    match st {
        BlockOutcome::NoHeader => {
            if m.kind == MarkerKind::Header {
                match WordType::from_label(m.text.as_str()) {
                    Ok(w) => {
                        let t = WordTypeDefinition { word_type: w, meaning: Vec::new() };
                        assert(t@.meanings =~= Seq::<MeaningModel>::empty());
                        BlockOutcome::Typed(t)
                    },
                    Err(e) => BlockOutcome::Unrecognized(e.label),
                }
            } else {
                BlockOutcome::NoHeader
            }
        },
        BlockOutcome::Unrecognized(l) => BlockOutcome::Unrecognized(l),
        BlockOutcome::Typed(t) => {
            let mut t = t;
            apply_to_group(&mut t, m);
            BlockOutcome::Typed(t)
        },
    }
}

/// Folds the markers of one block, in document order, into what the block yields.
pub fn aggregate_markers(markers: &Vec<Marker>) -> (r: BlockOutcome)
    ensures
        r@ == aggregate(markers_view(markers@)),
{
    let ghost ms = markers_view(markers@);
    let mut st = BlockOutcome::NoHeader;
    let mut i: usize = 0;
    while i < markers.len()
        invariant
            i <= markers.len(),
            ms == markers_view(markers@),
            st@ == aggregate(ms.take(i as int)),
        decreases markers.len() - i,
    {
        st = step_block(st, &markers[i]);
        proof {
            let p = ms.take(i + 1);
            assert(p.drop_last() =~= ms.take(i as int));
            assert(p.last() == markers@[i as int]@);
        }
        i = i + 1;
    }
    assert(ms.take(i as int) =~= ms);
    st
}

/// The markers that write out one example: the sentence, then its
/// translation when it has one.
pub open spec fn example_markers(e: ExampleModel) -> Seq<MarkerModel> {
    if e.translation.len() == 0 {
        seq![MarkerModel { kind: MarkerKind::Example, text: e.sentence }]
    } else {
        seq![
            MarkerModel { kind: MarkerKind::Example, text: e.sentence },
            MarkerModel { kind: MarkerKind::Translation, text: e.translation },
        ]
    }
}

pub open spec fn examples_markers(es: Seq<ExampleModel>) -> Seq<MarkerModel>
    decreases es.len(),
{
    if es.len() == 0 {
        Seq::empty()
    } else {
        examples_markers(es.drop_last()) + example_markers(es.last())
    }
}

/// The markers that write out one meaning: the gloss, then its examples.
pub open spec fn meaning_markers(m: MeaningModel) -> Seq<MarkerModel> {
    seq![MarkerModel { kind: MarkerKind::Meaning, text: m.text }] + examples_markers(m.examples)
}

pub open spec fn meanings_markers(ms: Seq<MeaningModel>) -> Seq<MarkerModel>
    decreases ms.len(),
{
    if ms.len() == 0 {
        Seq::empty()
    } else {
        meanings_markers(ms.drop_last()) + meaning_markers(ms.last())
    }
}

/// The markers of a well-formed block: one header with `label`, then the
/// meanings of `t`, each followed by its examples.
pub open spec fn block_markers(label: Seq<char>, t: TypeModel) -> Seq<MarkerModel> {
    seq![MarkerModel { kind: MarkerKind::Header, text: label }] + meanings_markers(t.meanings)
}

/// Running the machine over two runs of markers is running it over the first,
/// then from there over the second.
pub proof fn lemma_run_concat(st: BlockModel, a: Seq<MarkerModel>, b: Seq<MarkerModel>)
    ensures
        run(st, a + b) == run(run(st, a), b),
    decreases b.len(),
{
    if b.len() == 0 {
        assert(a + b =~= a);
    } else {
        assert((a + b).drop_last() =~= a + b.drop_last());
        assert((a + b).last() == b.last());
        lemma_run_concat(st, a, b.drop_last());
    }
}

proof fn lemma_run_one(st: BlockModel, m: MarkerModel)
    ensures
        run(st, seq![m]) == step(st, m),
{
    assert(seq![m].drop_last() =~= Seq::<MarkerModel>::empty());
    assert(run(st, seq![m].drop_last()) == st);
}

proof fn lemma_run_two(st: BlockModel, m1: MarkerModel, m2: MarkerModel)
    ensures
        run(st, seq![m1, m2]) == step(step(st, m1), m2),
{
    assert(seq![m1, m2].drop_last() =~= seq![m1]);
    lemma_run_one(st, m1);
}

proof fn lemma_examples_extend(t: TypeModel, es: Seq<ExampleModel>)
    requires
        t.meanings.len() > 0,
    ensures
        run(BlockModel::Typed(t), examples_markers(es)) == BlockModel::Typed(
            with_last_examples(t, t.meanings.last().examples + es),
        ),
    decreases es.len(),
{
    let base = t.meanings.last().examples;
    if es.len() == 0 {
        assert(base + es =~= base);
        assert(with_last_examples(t, base).meanings =~= t.meanings);
    } else {
        let front = es.drop_last();
        let e = es.last();
        lemma_examples_extend(t, front);
        lemma_run_concat(BlockModel::Typed(t), examples_markers(front), example_markers(e));
        let t1 = with_last_examples(t, base + front);
        let ex = ExampleModel { sentence: e.sentence, translation: Seq::empty() };
        let t2 = apply_marker(t1, MarkerModel { kind: MarkerKind::Example, text: e.sentence });
        assert(t2 == with_last_examples(t, (base + front).push(ex))) by {
            assert(t2.meanings =~= with_last_examples(t, (base + front).push(ex)).meanings);
        }
        if e.translation.len() == 0 {
            lemma_run_one(BlockModel::Typed(t1), MarkerModel { kind: MarkerKind::Example, text: e.sentence });
            assert(e.translation =~= Seq::<char>::empty());
            assert(ex == e);
            assert((base + front).push(ex) =~= base + es);
        } else {
            lemma_run_two(
                BlockModel::Typed(t1),
                MarkerModel { kind: MarkerKind::Example, text: e.sentence },
                MarkerModel { kind: MarkerKind::Translation, text: e.translation },
            );
            let t3 = apply_marker(t2, MarkerModel { kind: MarkerKind::Translation, text: e.translation });
            assert(t3 == with_last_examples(t, base + es)) by {
                assert((base + front).push(ex).update((base.len() + front.len()) as int, e) =~= base + es);
                assert(t3.meanings =~= with_last_examples(t, base + es).meanings);
            }
        }
    }
}

proof fn lemma_meanings_extend(t: TypeModel, ms: Seq<MeaningModel>)
    ensures
        run(BlockModel::Typed(t), meanings_markers(ms)) == BlockModel::Typed(
            TypeModel { word_type: t.word_type, meanings: t.meanings + ms },
        ),
    decreases ms.len(),
{
    if ms.len() == 0 {
        assert(t.meanings + ms =~= t.meanings);
    } else {
        let front = ms.drop_last();
        let m = ms.last();
        lemma_meanings_extend(t, front);
        lemma_run_concat(BlockModel::Typed(t), meanings_markers(front), meaning_markers(m));
        let t1 = TypeModel { word_type: t.word_type, meanings: t.meanings + front };
        let head = seq![MarkerModel { kind: MarkerKind::Meaning, text: m.text }];
        lemma_run_concat(BlockModel::Typed(t1), head, examples_markers(m.examples));
        let t2 = apply_marker(t1, head[0]);
        lemma_run_one(BlockModel::Typed(t1), head[0]);
        lemma_examples_extend(t2, m.examples);
        let t3 = with_last_examples(t2, t2.meanings.last().examples + m.examples);
        assert(Seq::<ExampleModel>::empty() + m.examples =~= m.examples);
        assert(t3.meanings =~= t.meanings + ms);
        assert(t3 == TypeModel { word_type: t.word_type, meanings: t.meanings + ms });
    }
}

/// A well-formed block (one header naming a category, then meanings, each
/// followed by its examples, each optionally followed by one translation)
/// yields exactly the group it writes out: the same meanings in the same
/// order, each with its own examples in order and each translation on its
/// own example.
pub proof fn lemma_well_formed_block(label: Seq<char>, t: TypeModel)
    requires
        word_type_of(label) == Some(t.word_type),
    ensures
        aggregate(block_markers(label, t)) == BlockModel::Typed(t),
{
    let head = seq![MarkerModel { kind: MarkerKind::Header, text: label }];
    lemma_run_concat(BlockModel::NoHeader, head, meanings_markers(t.meanings));
    let t0 = TypeModel { word_type: t.word_type, meanings: Seq::empty() };
    lemma_run_one(BlockModel::NoHeader, head[0]);
    lemma_meanings_extend(t0, t.meanings);
    assert(Seq::<MeaningModel>::empty() + t.meanings =~= t.meanings);
    assert(TypeModel { word_type: t.word_type, meanings: t.meanings } == t);
}

/// A block without markers yields no group.
pub proof fn lemma_empty_block()
    ensures
        aggregate(Seq::empty()) == BlockModel::NoHeader,
{
}

proof fn lemma_no_header_stays(ms: Seq<MarkerModel>)
    requires
        forall|i: int| 0 <= i < ms.len() ==> ms[i].kind != MarkerKind::Header,
    ensures
        aggregate(ms) == BlockModel::NoHeader,
    decreases ms.len(),
{
    if ms.len() > 0 {
        lemma_no_header_stays(ms.drop_last());
    }
}

/// Meaning, example and translation markers that come before any header are
/// dropped: the block yields what it would yield without them.
pub proof fn lemma_orphans_dropped(orphans: Seq<MarkerModel>, rest: Seq<MarkerModel>)
    requires
        forall|i: int| 0 <= i < orphans.len() ==> orphans[i].kind != MarkerKind::Header,
    ensures
        aggregate(orphans + rest) == aggregate(rest),
{
    lemma_no_header_stays(orphans);
    lemma_run_concat(BlockModel::NoHeader, orphans, rest);
}

/// Once a group is open, a further header changes nothing: no second group
/// is started and the meanings gathered so far stay.
pub proof fn lemma_second_header_ignored(
    before: Seq<MarkerModel>,
    label: Seq<char>,
    after: Seq<MarkerModel>,
)
    requires
        aggregate(before) is Typed,
    ensures
        aggregate(before.push(MarkerModel { kind: MarkerKind::Header, text: label }) + after)
            == aggregate(before + after),
{
    let h = MarkerModel { kind: MarkerKind::Header, text: label };
    lemma_run_concat(BlockModel::NoHeader, before.push(h), after);
    lemma_run_concat(BlockModel::NoHeader, before, after);
    assert(before.push(h).drop_last() =~= before);
}

} // verus!
