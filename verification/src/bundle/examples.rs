//! Reference bundle carriers: the symmetric group `S3` and the bundle
//! whose gauge acts by permuting a three-entry state.
use vstd::prelude::*;

use super::{
    Closure, Connection, Fiber, Gauge, GroupStructure, IdentityPrism, StableFiber, Transport,
};

verus! {

// ---------------------------------------------------------------------------
// Perm3: the symmetric group S3.
// ---------------------------------------------------------------------------

/// The symmetric group `S3`: permutations of three elements, the smallest
/// non-abelian group. Represented as the image array: `image[i]` is where
/// index `i` maps to. E.g. `[1, 0, 2]` swaps 0 and 1.
#[derive(Clone, Copy, Debug, PartialEq, Eq)]
pub struct Perm3(pub [u8; 3]);

/// Every entry of the image array names one of the three positions.
pub open spec fn perm_in_range(p: [u8; 3]) -> bool {
    p[0] < 3 && p[1] < 3 && p[2] < 3
}

/// The image array is a bijection on `{0, 1, 2}`.
pub open spec fn is_permutation(p: [u8; 3]) -> bool {
    perm_in_range(p) && p[0] != p[1] && p[0] != p[2] && p[1] != p[2]
}

/// `(a . b)(i) = a(b(i))`.
pub open spec fn perm_compose(a: [u8; 3], b: [u8; 3]) -> [u8; 3] {
    [a[b[0] as int], a[b[1] as int], a[b[2] as int]]
}

/// Entry `j` of the inverse image array: the last index `i` with
/// `p[i] == j` (positions never hit keep 0).
pub open spec fn perm_inverse_entry(p: [u8; 3], j: int) -> u8 {
    if p[2] == j {
        2
    } else if p[1] == j {
        1
    } else {
        0
    }
}

/// The inverse image array.
pub open spec fn perm_inverse(p: [u8; 3]) -> [u8; 3] {
    [perm_inverse_entry(p, 0), perm_inverse_entry(p, 1), perm_inverse_entry(p, 2)]
}

impl Perm3 {
    /// The identity permutation `[0, 1, 2]`.
    pub fn identity_perm() -> (r: Perm3)
        ensures
            r.0 == [0u8, 1u8, 2u8],
    {
        Perm3([0, 1, 2])
    }

    /// Transposition `(0 1)`: swaps 0 and 1.
    pub fn swap_01() -> (r: Perm3)
        ensures
            r.0 == [1u8, 0u8, 2u8],
    {
        Perm3([1, 0, 2])
    }

    /// Transposition `(1 2)`: swaps 1 and 2.
    pub fn swap_12() -> (r: Perm3)
        ensures
            r.0 == [0u8, 2u8, 1u8],
    {
        Perm3([0, 2, 1])
    }

    /// Transposition `(0 2)`: swaps 0 and 2.
    pub fn swap_02() -> (r: Perm3)
        ensures
            r.0 == [2u8, 1u8, 0u8],
    {
        Perm3([2, 1, 0])
    }

    /// 3-cycle `(0 1 2)`: 0 to 1, 1 to 2, 2 to 0.
    pub fn cycle_012() -> (r: Perm3)
        ensures
            r.0 == [1u8, 2u8, 0u8],
    {
        Perm3([1, 2, 0])
    }

    /// 3-cycle `(0 2 1)`: 0 to 2, 1 to 0, 2 to 1.
    pub fn cycle_021() -> (r: Perm3)
        ensures
            r.0 == [2u8, 0u8, 1u8],
    {
        Perm3([2, 0, 1])
    }

    /// All six elements of S3, in a fixed enumeration order: identity,
    /// the three transpositions, the two 3-cycles.
    pub fn all() -> (r: [Perm3; 6])
        ensures
            r[0].0 == [0u8, 1u8, 2u8],
            r[1].0 == [1u8, 0u8, 2u8],
            r[2].0 == [0u8, 2u8, 1u8],
            r[3].0 == [2u8, 1u8, 0u8],
            r[4].0 == [1u8, 2u8, 0u8],
            r[5].0 == [2u8, 0u8, 1u8],
    {
        [
            Perm3::identity_perm(),
            Perm3::swap_01(),
            Perm3::swap_12(),
            Perm3::swap_02(),
            Perm3::cycle_012(),
            Perm3::cycle_021(),
        ]
    }
}

impl GroupStructure for Perm3 {
    open spec fn can_invert(&self) -> bool {
        perm_in_range(self.0)
    }

    open spec fn can_compose(&self, other: &Self) -> bool {
        perm_in_range(other.0)
    }

    fn identity() -> (r: Self)
        ensures
            r.0 == [0u8, 1u8, 2u8],
    {
        Perm3([0, 1, 2])
    }

    fn inverse(&self) -> (r: Self)
        ensures
            r.0 == perm_inverse(self.0),
    {
        let mut inv: [u8; 3] = [0u8, 0u8, 0u8];
        let mut i: usize = 0;
        while i < 3
            invariant
                0 <= i <= 3,
                perm_in_range(self.0),
                forall|j: int|
                    0 <= j < 3 ==> #[trigger] inv[j] == (if i > 2 && self.0[2] == j {
                        2u8
                    } else if i > 1 && self.0[1] == j {
                        1u8
                    } else if i > 0 && self.0[0] == j {
                        0u8
                    } else {
                        0u8
                    }),
            decreases 3 - i,
        {
            inv.set(self.0[i] as usize, i as u8);
            i = i + 1;
        }
        let r = Perm3(inv);
        assert(r.0 =~= perm_inverse(self.0)) by {
            assert(inv[0] == perm_inverse_entry(self.0, 0));
            assert(inv[1] == perm_inverse_entry(self.0, 1));
            assert(inv[2] == perm_inverse_entry(self.0, 2));
        }
        r
    }

    fn compose(&self, other: &Self) -> (r: Self)
        ensures
            r.0 == perm_compose(self.0, other.0),
    {
        let out: [u8; 3] = [
            self.0[other.0[0] as usize],
            self.0[other.0[1] as usize],
            self.0[other.0[2] as usize],
        ];
        let r = Perm3(out);
        assert(r.0 =~= perm_compose(self.0, other.0));
        r
    }
}

} // verus!

verus! {

/// The identity image array.
pub open spec fn perm_id() -> [u8; 3] {
    [0u8, 1u8, 2u8]
}

/// The group laws of S3 on permutations: closure of composition and
/// inverse, two-sided identity, two-sided inverse, associativity.
pub proof fn lemma_perm3_group_laws(a: [u8; 3], b: [u8; 3], c: [u8; 3])
    requires
        is_permutation(a),
        is_permutation(b),
        is_permutation(c),
    ensures
        is_permutation(perm_compose(a, b)),
        is_permutation(perm_inverse(a)),
        perm_compose(perm_id(), a) == a,
        perm_compose(a, perm_id()) == a,
        perm_compose(a, perm_inverse(a)) == perm_id(),
        perm_compose(perm_inverse(a), a) == perm_id(),
        perm_compose(perm_compose(a, b), c) == perm_compose(a, perm_compose(b, c)),
{
    assert(perm_compose(perm_id(), a) =~= a);
    assert(perm_compose(a, perm_id()) =~= a);
    assert(perm_compose(a, perm_inverse(a)) =~= perm_id());
    assert(perm_compose(perm_inverse(a), a) =~= perm_id());
    assert(perm_compose(perm_compose(a, b), c) =~= perm_compose(a, perm_compose(b, c)));
}

/// S3 is non-abelian: `(0 1) . (1 2)` is the 3-cycle `(0 1 2)` while
/// `(1 2) . (0 1)` is the 3-cycle `(0 2 1)`.
pub proof fn lemma_perm3_non_abelian()
    ensures
        perm_compose([1u8, 0u8, 2u8], [0u8, 2u8, 1u8]) == [1u8, 2u8, 0u8],
        perm_compose([0u8, 2u8, 1u8], [1u8, 0u8, 2u8]) == [2u8, 0u8, 1u8],
        perm_compose([1u8, 0u8, 2u8], [0u8, 2u8, 1u8]) != perm_compose(
            [0u8, 2u8, 1u8],
            [1u8, 0u8, 2u8],
        ),
{
    assert(perm_compose([1u8, 0u8, 2u8], [0u8, 2u8, 1u8]) =~= [1u8, 2u8, 0u8]);
    assert(perm_compose([0u8, 2u8, 1u8], [1u8, 0u8, 2u8]) =~= [2u8, 0u8, 1u8]);
}

} // verus!

verus! {

// ---------------------------------------------------------------------------
// PermBundle: the non-abelian bundle carrier over S3.
// ---------------------------------------------------------------------------

/// Entry `j` of the state after the gauge action: the value at index `i`
/// moves to index `p[i]`, writing indices in order `0, 1, 2` onto a zeroed
/// array (the last write to a position wins).
pub open spec fn perm_act_entry(p: [u8; 3], s: [i32; 3], j: int) -> i32 {
    if p[2] == j {
        s[2]
    } else if p[1] == j {
        s[1]
    } else if p[0] == j {
        s[0]
    } else {
        0
    }
}

/// The state after the gauge action of `p`.
pub open spec fn perm_act(p: [u8; 3], s: [i32; 3]) -> [i32; 3] {
    [perm_act_entry(p, s, 0), perm_act_entry(p, s, 1), perm_act_entry(p, s, 2)]
}

/// The holonomy of transporting `s`: the magnitude of its first entry.
pub open spec fn perm_holonomy(s: [i32; 3]) -> u64 {
    if s[0] < 0 {
        (-s[0]) as u64
    } else {
        s[0] as u64
    }
}

/// Full bundle carrier over `S3`: the non-abelian witness.
///
/// Fiber state is `[i32; 3]`. Gauge is `Perm3`. Transport holonomy is the
/// magnitude of the entry in position 0, so it is permutation-sensitive:
/// whichever value the gauge action moves to position 0 decides the loss.
pub struct PermBundle {
    pub optic: IdentityPrism<[i32; 3]>,
    pub perm: Perm3,
    pub fixed: StableFiber<[i32; 3]>,
}

impl PermBundle {
    /// Construct a bundle with a gauge permutation and kernel-certified flag.
    pub fn new(perm: Perm3, kernel: bool) -> (r: Self)
        ensures
            r.perm == perm,
            r.fixed.state == [0i32, 0i32, 0i32],
            r.fixed.kernel == kernel,
    {
        PermBundle {
            optic: IdentityPrism::new(),
            perm,
            fixed: StableFiber { state: [0, 0, 0], kernel },
        }
    }

    /// Construct with an in-kernel fixed point.
    pub fn from_perm(perm: Perm3) -> (r: Self)
        ensures
            r.perm == perm,
            r.fixed.state == [0i32, 0i32, 0i32],
            r.fixed.kernel,
    {
        Self::new(perm, true)
    }
}

impl Default for PermBundle {
    /// The identity permutation with an in-kernel fixed point.
    fn default() -> (r: Self)
        ensures
            r.perm.0 == [0u8, 1u8, 2u8],
            r.fixed.state == [0i32, 0i32, 0i32],
            r.fixed.kernel,
    {
        Self::from_perm(Perm3::identity_perm())
    }
}

impl Fiber for PermBundle {
    type State = [i32; 3];
}

impl Connection for PermBundle {
    type Optic = IdentityPrism<[i32; 3]>;

    fn connection(&self) -> (r: &IdentityPrism<[i32; 3]>)
        ensures
            r == &self.optic,
    {
        &self.optic
    }
}

impl Gauge for PermBundle {
    type Group = Perm3;

    open spec fn acts(&self) -> bool {
        perm_in_range(self.perm.0)
    }

    open spec fn spec_act(&self, state: [i32; 3]) -> [i32; 3] {
        perm_act(self.perm.0, state)
    }

    fn gauge(&self) -> (r: &Perm3)
        ensures
            r == &self.perm,
    {
        &self.perm
    }

    fn act_on(&self, state: &[i32; 3]) -> (r: [i32; 3]) {
        let mut out: [i32; 3] = [0i32, 0i32, 0i32];
        let mut i: usize = 0;
        while i < 3
            invariant
                0 <= i <= 3,
                perm_in_range(self.perm.0),
                forall|j: int|
                    0 <= j < 3 ==> #[trigger] out[j] == (if i > 2 && self.perm.0[2] == j {
                        state[2]
                    } else if i > 1 && self.perm.0[1] == j {
                        state[1]
                    } else if i > 0 && self.perm.0[0] == j {
                        state[0]
                    } else {
                        0i32
                    }),
            decreases 3 - i,
        {
            out.set(self.perm.0[i] as usize, state[i]);
            i = i + 1;
        }
        assert(out =~= perm_act(self.perm.0, *state)) by {
            assert(out[0] == perm_act_entry(self.perm.0, *state, 0));
            assert(out[1] == perm_act_entry(self.perm.0, *state, 1));
            assert(out[2] == perm_act_entry(self.perm.0, *state, 2));
        }
        out
    }
}

impl Transport for PermBundle {
    open spec fn transports(&self, state: [i32; 3]) -> bool {
        state[0] != i32::MIN
    }

    open spec fn spec_holonomy(&self, state: [i32; 3]) -> u64 {
        perm_holonomy(state)
    }

    fn holonomy(&self, state: &[i32; 3]) -> (h: u64) {
        let x = state[0];
        if x < 0 {
            (-x) as u64
        } else {
            x as u64
        }
    }
}

impl Closure for PermBundle {
    type Fixed = StableFiber<[i32; 3]>;

    fn close(&self) -> (r: &StableFiber<[i32; 3]>)
        ensures
            r == &self.fixed,
    {
        &self.fixed
    }
}

/// The gauge action is a group action of S3: acting by `h` and then by
/// `g` is acting by `g . h`, and the identity acts trivially.
pub proof fn lemma_perm_action_composes(g: [u8; 3], h: [u8; 3], s: [i32; 3])
    requires
        is_permutation(g),
        is_permutation(h),
    ensures
        perm_act(g, perm_act(h, s)) == perm_act(perm_compose(g, h), s),
        perm_act(perm_id(), s) == s,
{
    assert(perm_act(g, perm_act(h, s)) =~= perm_act(perm_compose(g, h), s));
    assert(perm_act(perm_id(), s) =~= s);
}

/// A permutation moves the multiset of entries around without changing
/// it: some index of the acted state holds each original entry.
pub proof fn lemma_perm_action_permutes_entries(p: [u8; 3], s: [i32; 3], i: int)
    requires
        is_permutation(p),
        0 <= i < 3,
    ensures
        perm_act(p, s)[p[i] as int] == s[i],
{
}

} // verus!
