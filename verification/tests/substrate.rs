use prismqueer::pq::{Direction, OrderSpec, WalkDirection, WhereOp};
use prismqueer::substrate_ref::Ref;

#[test]
fn ref_accepts_at_prefixed_paths() {
    let r = Ref::new("@kintsugi/fracture/rename").expect("valid ref");
    assert_eq!(r.as_str(), "@kintsugi/fracture/rename");
    assert_eq!(Ref::new("@quantize").unwrap().as_str(), "@quantize");
    assert_eq!(Ref::new("@cli/new").unwrap().as_str(), "@cli/new");
    assert_eq!(Ref::new("@ü").unwrap().as_str(), "@ü");
}

#[test]
fn ref_rejects_empty() {
    assert_eq!(Ref::new(""), Err("Ref must be non-empty"));
}

#[test]
fn ref_rejects_missing_prefix() {
    assert_eq!(Ref::new("quantize"), Err("Ref must start with '@'"));
    assert_eq!(Ref::new(" @quantize"), Err("Ref must start with '@'"));
}

#[test]
fn ref_rejects_bare_at() {
    assert_eq!(Ref::new("@"), Err("Ref must have a path after '@'"));
}

#[test]
fn ref_rejects_whitespace() {
    assert_eq!(Ref::new("@a b"), Err("Ref must not contain whitespace"));
    assert_eq!(Ref::new("@a\tb"), Err("Ref must not contain whitespace"));
    assert_eq!(Ref::new("@a\n"), Err("Ref must not contain whitespace"));
    assert_eq!(Ref::new("@a\u{a0}b"), Err("Ref must not contain whitespace"));
    assert_eq!(Ref::new("@a\u{3000}b"), Err("Ref must not contain whitespace"));
}

#[test]
fn ref_rejects_control_characters() {
    assert_eq!(Ref::new("@evil\x1b[2J"), Err("Ref must not contain control characters"));
    assert_eq!(Ref::new("@nul\0"), Err("Ref must not contain control characters"));
    assert_eq!(Ref::new("@del\x7f"), Err("Ref must not contain control characters"));
    assert_eq!(Ref::new("@c1\u{90}"), Err("Ref must not contain control characters"));
}

#[test]
fn ref_whitespace_is_reported_before_control() {
    assert_eq!(Ref::new("@a \x1b"), Err("Ref must not contain whitespace"));
}

#[test]
fn refs_order_and_compare_by_text() {
    let a = Ref::new("@a").unwrap();
    let b = Ref::new("@b").unwrap();
    assert!(a < b);
    assert_eq!(a.clone(), a);
}

#[test]
fn pq_vocabulary_is_plain_data() {
    let spec = OrderSpec {
        field: "name".to_string(),
        direction: Direction::Desc,
    };
    assert_eq!(spec.clone(), spec);
    assert_ne!(Direction::Asc, Direction::Desc);
    assert_ne!(WalkDirection::Back, WalkDirection::Forward);
    let ops = [
        WhereOp::Eq,
        WhereOp::Neq,
        WhereOp::Gt,
        WhereOp::Lt,
        WhereOp::Gte,
        WhereOp::Lte,
        WhereOp::Contains,
        WhereOp::Matches,
    ];
    for i in 0..ops.len() {
        for j in 0..ops.len() {
            assert_eq!(ops[i] == ops[j], i == j);
        }
    }
}
