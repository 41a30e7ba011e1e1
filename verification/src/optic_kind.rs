//! OpticKind: the taxonomy of optic field annotations.
//!
//! Six kinds form a lattice under composition:
//!
//! ```text
//!     Iso
//!    /   \
//!  Lens  Prism
//!    \   /
//!   Traversal
//!      |
//!    Fold  Setter
//! ```
//!
//! Composition moves down the lattice: `Iso` is the identity and `Fold`
//! absorbs everything (including `Setter`).
use vstd::prelude::*;

verus! {

/// The kind of optic a field is annotated with.
#[derive(Debug, Clone, Copy, PartialEq, Eq, Structural)]
pub enum OpticKind {
    /// Round-trip lossless.
    Iso,
    /// Total, bidirectional access. Always present.
    Lens,
    /// Partial access. May be absent.
    Prism,
    /// Multiple targets.
    Traversal,
    /// Read-only collapse. Cannot set back.
    Fold,
    /// Write-only. Cannot read.
    Setter,
}

/// Metadata for a single optic-annotated field.
#[derive(Debug, Clone)]
pub struct FieldOptic {
    /// The field name as written in the struct.
    pub name: &'static str,
    /// Which optic kind the field was annotated with.
    pub kind: OpticKind,
}

/// Position of a kind in the composition order: composing two kinds
/// yields the one that sits lower in the lattice.
pub open spec fn rank(k: OpticKind) -> int {
    match k {
        OpticKind::Iso => 0,
        OpticKind::Lens => 1,
        OpticKind::Prism => 2,
        OpticKind::Traversal => 3,
        OpticKind::Setter => 4,
        OpticKind::Fold => 5,
    }
}

/// The composition table as a mathematical function: the lower of the
/// two kinds in the lattice order.
pub open spec fn compose_spec(a: OpticKind, b: OpticKind) -> OpticKind {
    if rank(a) >= rank(b) { a } else { b }
}

impl OpticKind {
    /// The `then_*` composition table. Returns the result of composing
    /// `self` with `other` in sequence.
    ///
    /// The rule: composition moves DOWN the lattice. Iso is identity.
    /// Fold and Setter absorb everything; Fold absorbs Setter.
    pub fn compose(self, other: OpticKind) -> (r: OpticKind)
        ensures
            r == compose_spec(self, other),
    {
        match (self, other) {
            (OpticKind::Iso, x) => x,
            (x, OpticKind::Iso) => x,
            (OpticKind::Lens, OpticKind::Lens) => OpticKind::Lens,
            (OpticKind::Lens, OpticKind::Prism) => OpticKind::Prism,
            (OpticKind::Prism, OpticKind::Lens) => OpticKind::Prism,
            (OpticKind::Lens, OpticKind::Traversal) => OpticKind::Traversal,
            (OpticKind::Traversal, OpticKind::Lens) => OpticKind::Traversal,
            (OpticKind::Prism, OpticKind::Prism) => OpticKind::Prism,
            (OpticKind::Prism, OpticKind::Traversal) => OpticKind::Traversal,
            (OpticKind::Traversal, OpticKind::Prism) => OpticKind::Traversal,
            (OpticKind::Traversal, OpticKind::Traversal) => OpticKind::Traversal,
            (OpticKind::Fold, _) => OpticKind::Fold,
            (_, OpticKind::Fold) => OpticKind::Fold,
            (OpticKind::Setter, _) => OpticKind::Setter,
            (_, OpticKind::Setter) => OpticKind::Setter,
        }
    }
}

/// `Iso` is the two-sided identity of composition.
pub proof fn lemma_iso_is_identity(k: OpticKind)
    ensures
        compose_spec(OpticKind::Iso, k) == k,
        compose_spec(k, OpticKind::Iso) == k,
{
}

/// `Fold` absorbs every kind on either side.
pub proof fn lemma_fold_absorbs(k: OpticKind)
    ensures
        compose_spec(OpticKind::Fold, k) == OpticKind::Fold,
        compose_spec(k, OpticKind::Fold) == OpticKind::Fold,
{
}

/// `Setter` absorbs every kind other than `Fold`, on either side.
pub proof fn lemma_setter_absorbs(k: OpticKind)
    requires
        k != OpticKind::Fold,
    ensures
        compose_spec(OpticKind::Setter, k) == OpticKind::Setter,
        compose_spec(k, OpticKind::Setter) == OpticKind::Setter,
{
}

/// Composition is associative: the kinds form a monoid under `compose`.
pub proof fn lemma_compose_associative(a: OpticKind, b: OpticKind, c: OpticKind)
    ensures
        compose_spec(compose_spec(a, b), c) == compose_spec(a, compose_spec(b, c)),
{
}

/// Composition is commutative and idempotent (a join in the lattice).
pub proof fn lemma_compose_commutative_idempotent(a: OpticKind, b: OpticKind)
    ensures
        compose_spec(a, b) == compose_spec(b, a),
        compose_spec(a, a) == a,
{
}

/// Composition only ever moves down the lattice: the result is at least
/// as low as each operand.
pub proof fn lemma_compose_moves_down(a: OpticKind, b: OpticKind)
    ensures
        rank(compose_spec(a, b)) >= rank(a),
        rank(compose_spec(a, b)) >= rank(b),
        compose_spec(a, b) == a || compose_spec(a, b) == b,
{
}

} // verus!
