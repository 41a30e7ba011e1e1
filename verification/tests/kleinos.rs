use prismqueer::spectral::kleinos::{
    compose_candidate, compute_emergent_third_id, sheaf_of_complete_graph_of_order,
    sheaf_of_shard_graph_from_edges, Property, WhichSide,
};

#[test]
fn sheaf_construction_edges_only_per_q_mara_lambda() {
    let sheaf = sheaf_of_shard_graph_from_edges(&[(0, 1), (1, 2)]);
    assert_eq!(sheaf.vertex_count(), 3);
    assert!(sheaf.contains_edge((0, 1)));
    assert!(sheaf.contains_edge((1, 2)));
    assert!(sheaf.contains_edge((1, 0)));
}

#[test]
fn complete_graph_construction() {
    let k3 = sheaf_of_complete_graph_of_order(3);
    assert_eq!(k3.vertex_count(), 3);
    assert_eq!(k3.edges().len(), 3);
}

#[test]
fn content_address_determinism_per_rec_82() {
    let sheaf_1 = sheaf_of_shard_graph_from_edges(&[(0, 1), (1, 2)]);
    let sheaf_2 = sheaf_of_shard_graph_from_edges(&[(1, 2), (0, 1)]);
    assert_eq!(sheaf_1.vertices(), sheaf_2.vertices());
    assert_eq!(sheaf_1.edges(), sheaf_2.edges());
}

#[test]
fn vertices_and_edges_come_out_in_canonical_order() {
    let sheaf = sheaf_of_shard_graph_from_edges(&[(5, 2), (9, 1), (2, 1), (1, 9)]);
    assert_eq!(sheaf.vertices(), vec![1, 2, 5, 9]);
    assert_eq!(sheaf.edges(), vec![(1, 2), (1, 9), (2, 5)]);
    assert!(sheaf.contains_vertex(5));
    assert!(!sheaf.contains_vertex(3));
    assert!(!sheaf.contains_edge((5, 9)));
}

#[test]
fn empty_and_single_vertex_complete_graphs() {
    let k0 = sheaf_of_complete_graph_of_order(0);
    assert_eq!(k0.vertex_count(), 0);
    assert!(k0.edges().is_empty());
    let k1 = sheaf_of_complete_graph_of_order(1);
    assert_eq!(k1.vertex_count(), 1);
    assert!(k1.contains_vertex(0));
    assert!(k1.edges().is_empty());
    let k5 = sheaf_of_complete_graph_of_order(5);
    assert_eq!(k5.vertex_count(), 5);
    assert_eq!(k5.edges().len(), 10);
    assert!(k5.contains_edge((4, 0)));
}

#[test]
fn composition_keeps_both_inputs_and_admits_one_emergent_third() {
    let a = sheaf_of_shard_graph_from_edges(&[(0, 1), (1, 2)]);
    let b = sheaf_of_shard_graph_from_edges(&[(3, 4), (4, 5)]);
    let (composed, third) = compose_candidate(&a, &b);
    assert_eq!(third, 6);
    assert_eq!(compute_emergent_third_id(&a, &b), 6);
    for v in a.vertices().into_iter().chain(b.vertices()) {
        assert!(composed.contains_vertex(v));
        assert!(composed.contains_edge((third, v)));
    }
    for e in a.edges().into_iter().chain(b.edges()) {
        assert!(composed.contains_edge(e));
    }
    for u in a.vertices() {
        for v in b.vertices() {
            assert!(composed.contains_edge((u, v)));
        }
    }
    assert!(!a.contains_vertex(third));
    assert!(!b.contains_vertex(third));
    assert_eq!(composed.vertex_count(), 7);
    // 2 + 2 own edges, 3 x 3 bridges, 6 spokes.
    assert_eq!(composed.edges().len(), 19);
}

#[test]
fn composition_of_empty_graphs_is_the_lone_third() {
    let a = sheaf_of_shard_graph_from_edges(&[]);
    let b = sheaf_of_shard_graph_from_edges(&[]);
    let (composed, third) = compose_candidate(&a, &b);
    assert_eq!(third, 1);
    assert_eq!(composed.vertices(), vec![1]);
    assert!(composed.edges().is_empty());
}

#[test]
fn composition_is_deterministic() {
    let a = sheaf_of_shard_graph_from_edges(&[(0, 1)]);
    let b = sheaf_of_shard_graph_from_edges(&[(0, 1)]);
    let (c1, t1) = compose_candidate(&a, &b);
    let (c2, t2) = compose_candidate(&a, &b);
    assert_eq!(t1, t2);
    assert_eq!(c1.vertices(), c2.vertices());
    assert_eq!(c1.edges(), c2.edges());
}

#[test]
fn property_and_side_discriminators_are_distinct() {
    assert_ne!(Property::Sovereignty, Property::FusionRefusal);
    assert_ne!(WhichSide::A, WhichSide::Both);
}
