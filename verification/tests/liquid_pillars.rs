use prismqueer::bundle::{
    Closure, Connection, Cyclic, Fiber, Gauge, IdentityPrism, StableFiber, Transport,
};
use prismqueer::fate::feature::HolonomyHealth;
use prismqueer::liquid::pillar;
use prismqueer::liquid::{commutator, LiquidConnection};
use prismqueer::verdict::{Confidence, Verdict};

/// A bundle whose holonomy is its own strategy value, so two bundles with
/// different strategies never commute in holonomy.
struct StrategyBundle {
    optic: IdentityPrism<[f64; 4]>,
    strategy: Cyclic<4>,
    fixed: StableFiber<[f64; 4]>,
}

impl StrategyBundle {
    fn with_strategy(k: u8) -> Self {
        StrategyBundle {
            optic: IdentityPrism::new(),
            strategy: Cyclic::<4>::new(k),
            fixed: StableFiber { state: [0.0; 4], kernel: true },
        }
    }
}

fn rotate(k: u8, state: &[f64; 4]) -> [f64; 4] {
    let k = k as usize % 4;
    let mut out = [0.0; 4];
    for i in 0..4 {
        out[(i + k) % 4] = state[i];
    }
    out
}

impl Fiber for StrategyBundle {
    type State = [f64; 4];
}

impl Connection for StrategyBundle {
    type Optic = IdentityPrism<[f64; 4]>;
    fn connection(&self) -> &IdentityPrism<[f64; 4]> {
        &self.optic
    }
}

impl Gauge for StrategyBundle {
    type Group = Cyclic<4>;
    fn acts(&self) -> bool {
        true
    }
    fn spec_act(&self, state: [f64; 4]) -> [f64; 4] {
        rotate(self.strategy.value(), &state)
    }
    fn gauge(&self) -> &Cyclic<4> {
        &self.strategy
    }
    fn act_on(&self, state: &[f64; 4]) -> [f64; 4] {
        rotate(self.strategy.value(), state)
    }
}

impl Transport for StrategyBundle {
    fn transports(&self, _state: [f64; 4]) -> bool {
        true
    }
    fn spec_holonomy(&self, _state: [f64; 4]) -> u64 {
        self.strategy.value() as u64
    }
    fn holonomy(&self, _state: &[f64; 4]) -> u64 {
        self.strategy.value() as u64
    }
}

impl Closure for StrategyBundle {
    type Fixed = StableFiber<[f64; 4]>;
    fn close(&self) -> &StableFiber<[f64; 4]> {
        &self.fixed
    }
}

#[test]
fn commutator_struct_computes_magnitude_lazily() {
    let a = StrategyBundle::with_strategy(1);
    let b = StrategyBundle::with_strategy(3);
    let state = [1.0, 2.0, 3.0, 4.0];
    let c = commutator(&a, &b, &state);
    let m1 = c.magnitude();
    let m2 = c.magnitude();
    assert_eq!(m1, m2, "repeated .magnitude() must be deterministic");
    let direct = LiquidConnection::commutator_magnitude(&a, &b, &state);
    assert_eq!(m1, direct, "Commutator::magnitude must equal direct call");
    assert_eq!(m1, 2);
}

#[test]
fn pillar_dispatch_ambiguity_pass_when_all_conditions_met() {
    let verdict = pillar::dispatch_ambiguity(3, 3, true, true);
    assert!(matches!(verdict, Verdict::Pass));
}

#[test]
fn pillar_dispatch_ambiguity_fail_when_fewer_than_two_arms() {
    let verdict = pillar::dispatch_ambiguity(1, 1, true, true);
    assert!(matches!(verdict, Verdict::Fail(_)));
}

#[test]
fn pillar_dispatch_ambiguity_fail_when_witness_count_mismatches() {
    let verdict = pillar::dispatch_ambiguity(3, 2, true, true);
    assert!(matches!(verdict, Verdict::Fail(_)));
}

#[test]
fn pillar_dispatch_ambiguity_fail_when_tie_breaking_not_exhausted() {
    let verdict = pillar::dispatch_ambiguity(3, 3, false, true);
    assert!(matches!(verdict, Verdict::Fail(_)));
}

#[test]
fn pillar_dispatch_ambiguity_fail_when_pivot_song_missing() {
    let verdict = pillar::dispatch_ambiguity(3, 3, true, false);
    assert!(matches!(verdict, Verdict::Fail(_)));
}

#[test]
fn pillar_algedonic_pass_above_threshold() {
    let a = StrategyBundle::with_strategy(0);
    let b = StrategyBundle::with_strategy(3);
    let state = [1.0; 4];
    let c = commutator(&a, &b, &state);
    // magnitude = |0 - 3| = 3, theta = 1 -> Pass
    let verdict = pillar::algedonic(&c, 1);
    assert!(matches!(verdict, Verdict::Pass));
}

#[test]
fn pillar_algedonic_partial_below_threshold_but_nonzero() {
    let a = StrategyBundle::with_strategy(0);
    let b = StrategyBundle::with_strategy(1);
    let state = [1.0; 4];
    let c = commutator(&a, &b, &state);
    // magnitude = 1, theta = 5 -> Partial
    match pillar::algedonic(&c, 5) {
        Verdict::Partial { confidence, .. } => {
            assert!(confidence.numerator <= confidence.denominator);
            assert_eq!(confidence, Confidence { numerator: 1, denominator: 2 });
        }
        other => panic!("expected Partial, got {other:?}"),
    }
}

#[test]
fn pillar_algedonic_fail_when_commutator_vanishes() {
    let a = StrategyBundle::with_strategy(2);
    let b = StrategyBundle::with_strategy(2);
    let state = [1.0; 4];
    let c = commutator(&a, &b, &state);
    let verdict = pillar::algedonic(&c, 0);
    assert!(matches!(verdict, Verdict::Fail(_)));
}

#[test]
fn pillar_viability_pass_when_accumulated_exceeds_threshold() {
    let a = StrategyBundle::with_strategy(0);
    let b = StrategyBundle::with_strategy(3);
    let state = [1.0; 4];
    // Each commutator has magnitude 3; three of them sum to 9 > 5.
    let history = vec![
        commutator(&a, &b, &state),
        commutator(&a, &b, &state),
        commutator(&a, &b, &state),
    ];
    let verdict = pillar::viability(&history, 5, 3);
    assert!(matches!(verdict, Verdict::Pass));
}

#[test]
fn pillar_viability_fail_when_accumulated_below_threshold() {
    let a = StrategyBundle::with_strategy(0);
    let b = StrategyBundle::with_strategy(1);
    let state = [1.0; 4];
    // Each commutator magnitude 1; three sum to 3 <= 10.
    let history = vec![
        commutator(&a, &b, &state),
        commutator(&a, &b, &state),
        commutator(&a, &b, &state),
    ];
    let verdict = pillar::viability(&history, 10, 3);
    assert!(matches!(verdict, Verdict::Fail(_)));
}

#[test]
fn pillar_viability_partial_when_history_shorter_than_window() {
    let a = StrategyBundle::with_strategy(0);
    let b = StrategyBundle::with_strategy(3);
    let state = [1.0; 4];
    let history = vec![commutator(&a, &b, &state)];
    // history.len() = 1 < omega = 5 -> Partial with confidence 1/5.
    match pillar::viability(&history, 1, 5) {
        Verdict::Partial { confidence, .. } => {
            assert_eq!(confidence, Confidence { numerator: 1, denominator: 5 });
        }
        other => panic!("expected Partial, got {other:?}"),
    }
}

#[test]
fn of_health_healthy_yields_pass() {
    let verdict = pillar::of_health(&HolonomyHealth::Healthy);
    assert!(matches!(verdict, Verdict::Pass));
}

#[test]
fn of_health_too_shallow_yields_partial_confidence_half() {
    match pillar::of_health(&HolonomyHealth::TooShallow) {
        Verdict::Partial { confidence, diagnostic } => {
            assert_eq!(confidence, Confidence { numerator: 1, denominator: 2 });
            assert!(!diagnostic.is_empty());
        }
        other => panic!("expected Partial, got {other:?}"),
    }
}

#[test]
fn of_health_over_cutting_yields_fail() {
    let verdict = pillar::of_health(&HolonomyHealth::OverCutting);
    assert!(matches!(verdict, Verdict::Fail(_)));
}
