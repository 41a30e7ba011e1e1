use prismqueer::fate::feature::{ACTIVE, ACTIVE_COUNT, DARK, DARK_COUNT};
use prismqueer::fate::runtime::{CompiledFateRuntime, FateRuntime, UniversalRuntime};
use prismqueer::fate::weights::{WeightSet, Weights, TRAINED_BYTES};
use prismqueer::fate::{Model, Strategy, FEATURE_DIM, MODELS};
use prismqueer::bundle::GroupStructure;

#[test]
fn active_and_dark_cover_all_16() {
    let mut covered = [false; FEATURE_DIM];
    for &d in ACTIVE.iter() {
        covered[d] = true;
    }
    for &d in DARK.iter() {
        covered[d] = true;
    }
    assert!(
        covered.iter().all(|&c| c),
        "not all 16 dimensions covered by ACTIVE + DARK"
    );
}

#[test]
fn active_dims_are_first_six() {
    for &d in ACTIVE.iter() {
        assert!(d < 6, "active dim {} should be < 6", d);
    }
    assert_eq!(ACTIVE_COUNT, 6);
}

#[test]
fn dark_dims_are_last_ten() {
    for &d in DARK.iter() {
        assert!(d >= 6, "dark dim {} should be >= 6", d);
        assert!(d < 16, "dark dim {} should be < 16", d);
    }
    assert_eq!(DARK_COUNT, 10);
}

#[test]
fn universal_stores_weights() {
    let weights = Weights::default_cycle();
    let rt = UniversalRuntime::new(weights);
    let w = rt.weights();
    assert_eq!(w.sets[0].bias[1], 10, "Abyss context bias for Introject should be 10");
    assert_eq!(w.sets[0].bias[0], 0, "Abyss context bias for Abyss should be 0");
}

#[test]
fn default_weights_produce_cycle() {
    let w = Weights::default_cycle();
    let b0 = w.sets[0].bias;
    assert!(b0[1] > b0[0], "Abyss context: Introject bias should beat Abyss");
    assert!(b0[1] > b0[2], "Abyss context: Introject bias should beat Cartographer");
    assert!(b0[1] > b0[3], "Abyss context: Introject bias should beat Explorer");
    assert!(b0[1] > b0[4], "Abyss context: Introject bias should beat Fate");
    let b1 = w.sets[1].bias;
    assert!(b1[2] > b1[0]);
    assert!(b1[2] > b1[1]);
    assert!(b1[2] > b1[3]);
    assert!(b1[2] > b1[4]);
    let b2 = w.sets[2].bias;
    assert!(b2[3] > b2[0]);
    assert!(b2[3] > b2[1]);
    assert!(b2[3] > b2[2]);
    assert!(b2[3] > b2[4]);
    let b3 = w.sets[3].bias;
    assert!(b3[4] > b3[0]);
    assert!(b3[4] > b3[1]);
    assert!(b3[4] > b3[2]);
    assert!(b3[4] > b3[3]);
    let b4 = w.sets[4].bias;
    assert!(b4[0] > b4[1]);
    assert!(b4[0] > b4[2]);
    assert!(b4[0] > b4[3]);
    assert!(b4[0] > b4[4]);
}

#[test]
fn weights_serialize_roundtrip() {
    let original = Weights::default_cycle();
    let bytes = original.to_bytes();
    let recovered = Weights::from_bytes(&bytes).expect("from_bytes should succeed");
    for s in 0..5 {
        assert_eq!(original.sets[s].bias, recovered.sets[s].bias, "bias mismatch at set {s}");
        for r in 0..5 {
            assert_eq!(
                original.sets[s].feature_weights[r], recovered.sets[s].feature_weights[r],
                "feature_weights mismatch at set {s} row {r}"
            );
        }
    }
}

#[test]
fn weights_param_count() {
    let w = Weights::default_cycle();
    let count = w.param_count();
    assert_eq!(count, 425, "param_count should be 425");
    assert_eq!(w.to_bytes().len(), count, "to_bytes().len() should match param_count");
}

#[test]
fn from_bytes_wrong_length_returns_none() {
    assert!(Weights::from_bytes(&[]).is_none(), "empty slice should return None");
    assert!(Weights::from_bytes(&[0u8; 424]).is_none(), "one byte short should return None");
    assert!(Weights::from_bytes(&[0u8; 426]).is_none(), "one byte over should return None");
}

#[test]
fn trained_weights_serialize_to_the_baked_bytes() {
    let w = Weights::trained();
    assert_eq!(w.to_bytes(), TRAINED_BYTES.to_vec());
    assert_eq!(w.sets[0].bias, [0, 20, 0, 0, 0]);
}

#[test]
fn zero_weights_are_all_zero() {
    let z = WeightSet::zero();
    assert_eq!(z.bias, [0; 5]);
    assert!(z.feature_weights.iter().all(|row| row.iter().all(|&b| b == 0)));
}

#[test]
fn default_cycle_cartographer_reads_feature_zero() {
    let w = Weights::default_cycle();
    assert_eq!(w.sets[2].feature_weights[2][0], 1);
    assert_eq!(w.sets[2].feature_weights[2][1], 0);
    assert_eq!(w.sets[0].feature_weights[2][0], 0);
}

#[test]
fn runtime_keeps_only_instruction_bytes() {
    let rt = FateRuntime::new(b"read , then print .");
    assert_eq!(rt.instruction_count(), 2);
    let rt = FateRuntime::new(b"+-<>[],.");
    assert_eq!(rt.instruction_count(), 8);
    assert_eq!(FateRuntime::new(b"").instruction_count(), 0);
}

#[test]
fn encode_input_lays_out_features_model_and_bias() {
    let mut features = [0u8; 16];
    for (i, f) in features.iter_mut().enumerate() {
        *f = i as u8 + 100;
    }
    let input = FateRuntime::encode_input_with_bias(3, &features, &[1, 2, 3, 4, 5]);
    assert_eq!(input.len(), 22);
    assert_eq!(&input[..16], &features[..]);
    assert_eq!(input[16], 3);
    assert_eq!(&input[17..], &[1, 2, 3, 4, 5]);
    let fate = FateRuntime::encode_input(Model::Fate, &features);
    assert_eq!(fate[16], 4);
    assert_eq!(&fate[17..], &[10, 0, 0, 0, 0]);
    let abyss = FateRuntime::encode_input(Model::Abyss, &features);
    assert_eq!(abyss[16], 0);
    assert_eq!(&abyss[17..], &[0, 10, 0, 0, 0]);
}

#[test]
fn decode_output_reads_first_byte_with_abyss_fallback() {
    assert_eq!(FateRuntime::decode_output(&[]), Model::Abyss);
    assert_eq!(FateRuntime::decode_output(&[2, 4]), Model::Cartographer);
    assert_eq!(FateRuntime::decode_output(&[4]), Model::Fate);
    assert_eq!(FateRuntime::decode_output(&[7]), Model::Abyss);
    for (i, m) in MODELS.iter().enumerate() {
        assert_eq!(FateRuntime::decode_output(&[i as u8]), *m);
    }
}

#[test]
fn select_runs_the_program_on_the_encoded_input() {
    // Echo the first feature byte.
    let rt = FateRuntime::new(b",.");
    let mut features = [0u8; 16];
    features[0] = 3;
    assert_eq!(rt.select(Model::Abyss, &features), Model::Explorer);
    features[0] = 9;
    assert_eq!(rt.select(Model::Abyss, &features), Model::Abyss);
    // Seventeen reads leave the model byte in the cell.
    let rt = FateRuntime::new(b",,,,,,,,,,,,,,,,,.");
    assert_eq!(rt.select(Model::Cartographer, &features), Model::Cartographer);
}

#[test]
fn interpreter_loops_clamps_and_wraps() {
    let u = UniversalRuntime::new(Weights::default_cycle());
    let f = [0u8; 16];
    assert_eq!(u.run(&FateRuntime::new(b"+++[>++<-]>."), 0, &f), 6);
    assert_eq!(u.run(&FateRuntime::new(b"<<<+."), 0, &f), 1);
    assert_eq!(u.run(&FateRuntime::new(b"-."), 0, &f), 255);
    let mut far = vec![b'>'; 300];
    far.extend_from_slice(b"+.");
    assert_eq!(u.run(&FateRuntime::new(&far), 0, &f), 1);
    // Reading past the input yields 0.
    let mut past = vec![b'+'; 5];
    past.extend_from_slice(&[b','; 30]);
    past.push(b'.');
    assert_eq!(u.run(&FateRuntime::new(&past), 0, &f), 0);
    // A non-halting program is cut off by the step budget and prints nothing.
    assert_eq!(u.run(&FateRuntime::new(b"+[]."), 0, &f), 0);
    assert_eq!(u.run(&FateRuntime::new(b""), 0, &f), 0);
}

#[test]
fn universal_run_injects_bias_of_context_mod_five() {
    let u = UniversalRuntime::new(Weights::default_cycle());
    let f = [0u8; 16];
    let context_echo = FateRuntime::new(b",,,,,,,,,,,,,,,,,.");
    assert_eq!(u.run(&context_echo, 3, &f), 3);
    let first_bias = FateRuntime::new(b",,,,,,,,,,,,,,,,,,.");
    assert_eq!(u.run(&first_bias, 4, &f), 10);
    assert_eq!(u.run(&first_bias, 0, &f), 0);
    assert_eq!(u.run(&first_bias, 9, &f), 10);
    let second_bias = FateRuntime::new(b",,,,,,,,,,,,,,,,,,,.");
    assert_eq!(u.run(&second_bias, 0, &f), 10);
    assert_eq!(u.select(&second_bias, Model::Abyss, &f), Model::Abyss);
}

#[test]
fn compiled_runtime_constructs() {
    let _a = CompiledFateRuntime::new();
    let _b: CompiledFateRuntime = Default::default();
}

#[test]
fn strategy_is_cyclic_of_order_five() {
    let id = Strategy::identity();
    assert_eq!(id, Strategy::default());
    assert_eq!(Strategy::BreadthFirst.compose(&Strategy::DepthFirst), Strategy::SpectralPartition);
    assert_eq!(Strategy::CommunityDetection.inverse(), Strategy::Random);
    assert_eq!(Strategy::Random.compose(&Strategy::Random), Strategy::DepthFirst);
}

#[test]
fn universal_with_default_cycle_matches_interpreter() {
    let u = UniversalRuntime::new(Weights::default_cycle());
    let programs: [&[u8]; 4] = [
        b",.",
        b",,,,,,,,,,,,,,,,,.",
        b",,,,,,,,,,,,,,,,,,,.",
        b",,,,,,,,,,,,,,,,,,,,,,.",
    ];
    let mut f = [0u8; 16];
    f[0] = 2;
    for p in programs.iter() {
        let rt = FateRuntime::new(p);
        for &m in MODELS.iter() {
            assert_eq!(u.select(&rt, m, &f), rt.select(m, &f), "model {m:?}");
        }
    }
}
