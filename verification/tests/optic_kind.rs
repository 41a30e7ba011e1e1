use prismqueer::optic_kind::{FieldOptic, OpticKind};
use prismqueer::optic_kind::OpticKind::{Fold, Iso, Lens, Prism, Setter, Traversal};

#[test]
fn iso_is_identity() {
    for kind in [Iso, Lens, Prism, Traversal, Fold, Setter] {
        assert_eq!(Iso.compose(kind), kind);
        assert_eq!(kind.compose(Iso), kind);
    }
}

#[test]
fn lens_lens_is_lens() {
    assert_eq!(OpticKind::Lens.compose(OpticKind::Lens), OpticKind::Lens);
}

#[test]
fn lens_prism_is_prism() {
    assert_eq!(OpticKind::Lens.compose(OpticKind::Prism), OpticKind::Prism);
    assert_eq!(OpticKind::Prism.compose(OpticKind::Lens), OpticKind::Prism);
}

#[test]
fn prism_traversal_is_traversal() {
    assert_eq!(
        OpticKind::Prism.compose(OpticKind::Traversal),
        OpticKind::Traversal
    );
    assert_eq!(
        OpticKind::Traversal.compose(OpticKind::Prism),
        OpticKind::Traversal
    );
}

#[test]
fn fold_absorbs_all() {
    for kind in [Iso, Lens, Prism, Traversal, Fold, Setter] {
        assert_eq!(Fold.compose(kind), Fold);
        assert_eq!(kind.compose(Fold), Fold);
    }
}

#[test]
fn setter_absorbs_all() {
    for kind in [Iso, Lens, Prism, Traversal, Setter] {
        assert_eq!(Setter.compose(kind), Setter);
        assert_eq!(kind.compose(Setter), Setter);
    }
}

#[test]
fn composition_table_full() {
    assert_eq!(Lens.compose(Lens), Lens);
    assert_eq!(Lens.compose(Prism), Prism);
    assert_eq!(Prism.compose(Traversal), Traversal);
    assert_eq!(Iso.compose(Lens), Lens);
    assert_eq!(Fold.compose(Lens), Fold);
}

#[test]
fn field_optic_metadata() {
    let field = FieldOptic {
        name: "status",
        kind: OpticKind::Lens,
    };
    assert_eq!(field.name, "status");
    assert_eq!(field.kind, OpticKind::Lens);
}

#[test]
fn compose_is_associative_over_all_triples() {
    let all = [Iso, Lens, Prism, Traversal, Fold, Setter];
    for a in all {
        for b in all {
            for c in all {
                assert_eq!(a.compose(b).compose(c), a.compose(b.compose(c)));
                assert_eq!(a.compose(b), b.compose(a));
            }
        }
    }
}

#[test]
fn fold_absorbs_setter_in_both_orders() {
    assert_eq!(OpticKind::Setter.compose(OpticKind::Fold), OpticKind::Fold);
    assert_eq!(OpticKind::Fold.compose(OpticKind::Setter), OpticKind::Fold);
}
