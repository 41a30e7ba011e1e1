use prismqueer::bundle::examples::{Perm3, PermBundle};
use prismqueer::fate::feature::HolonomyHealth;
use prismqueer::flux::pillar::{
    algedonic, algedonic_of_magnitude, dispatch_ambiguity, of_health, viability,
    viability_of_magnitudes,
};
use prismqueer::spectral::kleinos::{
    compose_candidate, sheaf_of_shard_graph_from_edges, verify_emergent_third,
    verify_fusion_refusal, verify_sovereignty,
};
use prismqueer::verdict::{Confidence, Verdict};

fn half(diagnostic: &'static str) -> Verdict {
    Verdict::Partial {
        confidence: Confidence { numerator: 1, denominator: 2 },
        diagnostic,
    }
}

#[test]
fn dispatch_ambiguity_checks_in_order() {
    assert_eq!(dispatch_ambiguity(2, 2, true, true), Verdict::Pass);
    assert_eq!(
        dispatch_ambiguity(1, 1, true, true),
        Verdict::Fail("dispatch_ambiguity requires >= 2 admissible arms")
    );
    assert_eq!(
        dispatch_ambiguity(3, 2, true, true),
        Verdict::Fail("witness count must match arm count")
    );
    assert_eq!(
        dispatch_ambiguity(3, 3, false, true),
        Verdict::Fail("tie-breaking not exhausted; not Path-B admissible")
    );
    assert_eq!(dispatch_ambiguity(3, 3, true, false), Verdict::Fail("pivot_song handle missing"));
    assert_eq!(
        dispatch_ambiguity(0, 5, false, false),
        Verdict::Fail("dispatch_ambiguity requires >= 2 admissible arms")
    );
}

#[test]
fn of_health_maps_each_classification() {
    assert_eq!(of_health(&HolonomyHealth::Healthy), Verdict::Pass);
    assert_eq!(
        of_health(&HolonomyHealth::TooShallow),
        half("holonomy too shallow: step barely moved the manifold")
    );
    assert!(matches!(of_health(&HolonomyHealth::OverCutting), Verdict::Fail(_)));
}

#[test]
fn algedonic_of_magnitude_thresholds() {
    assert_eq!(algedonic_of_magnitude(5, 3), Verdict::Pass);
    assert_eq!(
        algedonic_of_magnitude(0, 3),
        Verdict::Fail("magnitude vanished; no algedonic signal")
    );
    assert_eq!(
        algedonic_of_magnitude(3, 3),
        half("algedonic signal present but below threshold")
    );
    assert_eq!(
        algedonic_of_magnitude(0, 0),
        Verdict::Fail("magnitude vanished; no algedonic signal")
    );
}

#[test]
fn perm_bundle_pillar_algedonic_pass_on_non_commuting_pair() {
    let a = PermBundle::from_perm(Perm3::swap_01());
    let b = PermBundle::from_perm(Perm3::swap_12());
    let state = [10, 20, 30];
    let c = prismqueer::flux::commutator(&a, &b, &state);
    assert_eq!(algedonic(&c, 0), Verdict::Pass);
    assert_eq!(algedonic(&c, 10), half("algedonic signal present but below threshold"));
    let same = prismqueer::flux::commutator(&a, &a, &state);
    assert_eq!(algedonic(&same, 0), Verdict::Fail("commutator vanished; no algedonic signal"));
    let lc = prismqueer::liquid::commutator(&a, &b, &state);
    assert_eq!(prismqueer::liquid::pillar::algedonic(&lc, 0), Verdict::Pass);
}

#[test]
fn viability_of_magnitudes_pass_above_threshold() {
    assert_eq!(viability_of_magnitudes(&[3, 3, 3], 5, 3), Verdict::Pass);
}

#[test]
fn viability_of_magnitudes_fail_below_threshold() {
    assert_eq!(
        viability_of_magnitudes(&[1, 1, 1], 10, 3),
        Verdict::Fail("viability persistence below threshold over window")
    );
}

#[test]
fn viability_of_magnitudes_partial_when_short() {
    assert_eq!(
        viability_of_magnitudes(&[3, 3], 1, 5),
        Verdict::Partial {
            confidence: Confidence { numerator: 2, denominator: 5 },
            diagnostic: "history shorter than viability window",
        }
    );
}

#[test]
fn viability_of_magnitudes_uses_last_omega_entries() {
    assert_eq!(
        viability_of_magnitudes(&[100, 100, 1, 1], 5, 2),
        Verdict::Fail("viability persistence below threshold over window")
    );
    // An empty window sums to zero.
    assert_eq!(
        viability_of_magnitudes(&[100], 0, 0),
        Verdict::Fail("viability persistence below threshold over window")
    );
    // Sums do not overflow.
    assert_eq!(viability_of_magnitudes(&[u64::MAX, u64::MAX], u64::MAX, 2), Verdict::Pass);
}

#[test]
fn viability_over_commutators_sums_their_magnitudes() {
    let a = PermBundle::from_perm(Perm3::swap_01());
    let b = PermBundle::from_perm(Perm3::swap_12());
    let state = [10, 20, 30];
    let history = [
        prismqueer::flux::commutator(&a, &b, &state),
        prismqueer::flux::commutator(&a, &b, &state),
    ];
    assert_eq!(viability(&history, 19, 2), Verdict::Pass);
    assert_eq!(
        viability(&history, 20, 2),
        Verdict::Fail("viability persistence below threshold over window")
    );
    assert!(matches!(viability(&history, 0, 3), Verdict::Partial { .. }));
    let liquid_history = [prismqueer::liquid::commutator(&a, &b, &state)];
    assert_eq!(prismqueer::liquid::pillar::viability(&liquid_history, 9, 1), Verdict::Pass);
}

#[test]
fn composition_passes_sovereignty_and_emergent_third() {
    let a = sheaf_of_shard_graph_from_edges(&[(0, 1), (1, 2)]);
    let b = sheaf_of_shard_graph_from_edges(&[(3, 4), (4, 5)]);
    let (composed, third) = compose_candidate(&a, &b);
    assert_eq!(verify_sovereignty(&a, &b, &composed), Verdict::Pass);
    assert_eq!(verify_emergent_third(&a, &b, third), Verdict::Pass);
    assert_eq!(verify_fusion_refusal(&a, &b), Verdict::Pass);
}

#[test]
fn sovereignty_names_the_input_that_was_lost() {
    let a = sheaf_of_shard_graph_from_edges(&[(0, 1)]);
    let b = sheaf_of_shard_graph_from_edges(&[(3, 4)]);
    let only_a = sheaf_of_shard_graph_from_edges(&[(0, 1)]);
    assert_eq!(
        verify_sovereignty(&a, &b, &only_a),
        Verdict::Fail("sovereignty: sheaf_b vertices or edges not preserved in composed sheaf")
    );
    assert_eq!(
        verify_sovereignty(&b, &a, &only_a),
        Verdict::Fail("sovereignty: sheaf_a vertices or edges not preserved in composed sheaf")
    );
    let neither = sheaf_of_shard_graph_from_edges(&[(7, 8)]);
    assert_eq!(
        verify_sovereignty(&a, &b, &neither),
        Verdict::Fail("sovereignty: neither sheaf_a nor sheaf_b vertices/edges preserved")
    );
    // Vertices kept but an edge dropped.
    let vertices_only = sheaf_of_shard_graph_from_edges(&[(0, 3), (1, 4)]);
    assert!(matches!(verify_sovereignty(&a, &b, &vertices_only), Verdict::Fail(_)));
}

#[test]
fn emergent_third_must_be_new() {
    let a = sheaf_of_shard_graph_from_edges(&[(0, 1)]);
    let b = sheaf_of_shard_graph_from_edges(&[(3, 4)]);
    assert_eq!(
        verify_emergent_third(&a, &b, 4),
        Verdict::Fail("emergent_third: proposed vertex already present in sheaf_a or sheaf_b")
    );
    assert_eq!(verify_emergent_third(&a, &b, 2), Verdict::Pass);
}

#[test]
fn fusion_refusal_on_identical_inputs() {
    let a = sheaf_of_shard_graph_from_edges(&[(0, 1)]);
    let b = sheaf_of_shard_graph_from_edges(&[(1, 0)]);
    assert!(matches!(verify_fusion_refusal(&a, &a.clone()), Verdict::Fail(_)));
    assert!(matches!(verify_fusion_refusal(&a, &b), Verdict::Fail(_)));
    let c = sheaf_of_shard_graph_from_edges(&[(0, 1), (1, 2)]);
    assert_eq!(verify_fusion_refusal(&a, &c), Verdict::Pass);
}
