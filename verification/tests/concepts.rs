use prismqueer::choice::Choice;
use prismqueer::hypothesis::{Hypothesis, KTQuestionShape};
use prismqueer::observer::{Observer, PeerObserver, TuringObserver, VoidObserver};
use prismqueer::question::Question;
use terni::Loss;

#[test]
fn choice_wraps_nl_payload_from_subject() {
    let c = Choice::new("hello world");
    assert_eq!(c.payload, "hello world");
}

#[test]
fn hypothesis_composes_k_t_shape() {
    let h = Hypothesis::new(KTQuestionShape::Reflexive);
    assert_eq!(h.shape, KTQuestionShape::Reflexive);
}

#[test]
fn hypothesis_compose_chaos_produces_question_per_alex_move_3() {
    let h = Hypothesis::new(KTQuestionShape::Reflexive);
    let question = h.compose(<f64 as Loss>::zero());
    assert_eq!(question.hypothesis.shape, KTQuestionShape::Reflexive);
}

#[test]
fn question_composes_hypothesis_and_chaos() {
    let h = Hypothesis::new(KTQuestionShape::Reflexive);
    let q = Question::new(h, <f64 as Loss>::zero());
    assert_eq!(q.hypothesis.shape, KTQuestionShape::Reflexive);
}

#[test]
fn observer_construction_all_canonical_dimensions() {
    let _turing: TuringObserver = Observer::<1>::new();
    let _peer: PeerObserver = Observer::<3>::new();
    let _void: VoidObserver = Observer::<5>::new();
    let _n7: Observer<7> = Observer::<7>::new();
}

#[test]
fn observer_dimensionality_compile_time_constant_matches_type_parameter() {
    assert_eq!(Observer::<1>::dimensionality(), 1);
    assert_eq!(Observer::<3>::dimensionality(), 3);
    assert_eq!(Observer::<5>::dimensionality(), 5);
    assert_eq!(Observer::<7>::dimensionality(), 7);
}

#[test]
fn observer_default_composes() {
    let _observer: PeerObserver = Default::default();
    let _observer: VoidObserver = Default::default();
}

#[test]
fn question_carries_the_chaos_it_was_given() {
    let h = Hypothesis::new(KTQuestionShape::Strategic);
    let q = h.compose(2.5f64);
    assert_eq!(q.chaos, 2.5);
    assert_eq!(q.hypothesis.shape, KTQuestionShape::Strategic);
    let c = Choice::new("");
    assert_eq!(c.payload, "");
}
