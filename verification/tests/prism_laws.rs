use prismqueer::bundle::IdentityPrism;

#[test]
fn identity_prism_preserves_u32_value() {
    let prism: IdentityPrism<u32> = IdentityPrism::new();
    assert_eq!(prism.refract(42), 42);
}

#[test]
fn identity_prism_preserves_string_value() {
    let prism: IdentityPrism<String> = IdentityPrism::new();
    let refracted = prism.refract("substrate-honest".to_string());
    assert_eq!(refracted, "substrate-honest".to_string());
}

#[test]
fn identity_prism_preserves_vec_value() {
    let prism: IdentityPrism<Vec<i32>> = IdentityPrism::new();
    let seed: Vec<i32> = vec![1, 1, 2, 3, 5, 8, 13];
    assert_eq!(prism.refract(seed.clone()), seed);
}

#[test]
fn identity_prism_preserves_bundle_fiber_state() {
    let prism: IdentityPrism<[f64; 4]> = IdentityPrism::new();
    let seed: [f64; 4] = [1.0, 2.0, 3.0, 4.0];
    assert_eq!(prism.refract(seed), seed);
}

#[test]
fn apply_equals_manual_focus_project_settle_pipeline() {
    let prism: IdentityPrism<u32> = IdentityPrism::new();
    let via_apply = prism.refract(7);
    let via_manual = prism.settle(prism.project(prism.focus(7)));
    assert_eq!(via_apply, via_manual);
    assert_eq!(via_apply, 7);
}

#[test]
fn identity_prism_composed_with_itself_still_preserves_value() {
    let prism: IdentityPrism<u32> = IdentityPrism::new();
    let first = prism.refract(99);
    let second = prism.refract(first);
    assert_eq!(second, 99);
}

#[test]
fn identity_prism_produces_success_beam_with_no_loss() {
    let prism: IdentityPrism<[f64; 4]> = IdentityPrism::new();
    let seed = [10.0, 20.0, 30.0, 40.0];
    assert_eq!(prism.focus(seed), seed);
    assert_eq!(prism.project(seed), seed);
    assert_eq!(prism.settle(seed), seed);
    assert_eq!(prism.refract(seed), seed);
}
