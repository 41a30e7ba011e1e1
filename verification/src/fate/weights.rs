//! Weight sets for the universal Fate algorithm.
//! One algorithm. Five weight sets. The weights are the physics.
use vstd::prelude::*;

verus! {

/// Weights for one context: a bias per output model and a row of feature
/// weights per output model.
#[derive(Clone, Debug)]
pub struct WeightSet {
    pub bias: [u8; 5],
    pub feature_weights: [[u8; 16]; 5],
}

/// All five weight sets, one per model context.
#[derive(Clone, Debug)]
pub struct Weights {
    pub sets: [WeightSet; 5],
}

/// The number of bytes in one serialized weight set: 5 bias bytes then
/// five rows of 16 feature weights.
pub const SET_LEN: usize = 85;

/// The number of bytes in serialized weights: five weight sets.
pub const WEIGHTS_LEN: usize = 425;

/// The serialized bytes of one weight set: `bias` then the feature-weight
/// rows in order.
pub open spec fn set_bytes(ws: WeightSet) -> Seq<u8> {
    ws.bias@ + ws.feature_weights[0]@ + ws.feature_weights[1]@ + ws.feature_weights[2]@
        + ws.feature_weights[3]@ + ws.feature_weights[4]@
}

/// The serialized bytes of all weights: the five sets concatenated.
pub open spec fn weights_bytes(w: Weights) -> Seq<u8> {
    set_bytes(w.sets[0]) + set_bytes(w.sets[1]) + set_bytes(w.sets[2]) + set_bytes(w.sets[3])
        + set_bytes(w.sets[4])
}

/// The all-zero weight set.
pub open spec fn zero_set() -> WeightSet {
    WeightSet { bias: [0u8, 0u8, 0u8, 0u8, 0u8], feature_weights: zero_rows() }
}

/// A row of sixteen zero feature weights.
pub open spec fn zero_row() -> [u8; 16] {
    [0u8, 0u8, 0u8, 0u8, 0u8, 0u8, 0u8, 0u8, 0u8, 0u8, 0u8, 0u8, 0u8, 0u8, 0u8, 0u8]
}

/// Five zero rows.
pub open spec fn zero_rows() -> [[u8; 16]; 5] {
    [zero_row(), zero_row(), zero_row(), zero_row(), zero_row()]
}

/// A weight set whose only nonzero entry is bias 10 at `next`.
pub open spec fn cycle_bias(next: int) -> [u8; 5] {
    [
        if next == 0 { 10u8 } else { 0u8 },
        if next == 1 { 10u8 } else { 0u8 },
        if next == 2 { 10u8 } else { 0u8 },
        if next == 3 { 10u8 } else { 0u8 },
        if next == 4 { 10u8 } else { 0u8 },
    ]
}

/// The weights trained on the seed data, serialized.
pub const TRAINED_BYTES: [u8; 425] = [
    0, 20, 0, 0, 0, 0, 0, 5, 5, 5, 5, 5, 5, 5, 5, 5, 5, 5, 5, 5, 5, 0, 0, 5, 5, 5, 5, 5, 5, 5, 5, 5, 5, 5, 5, 5, 5, 5, 0, 1, 1, 1, 1, 1, 1, 1, 1, 1, 1, 1, 1, 1, 1, 0, 5, 1, 1, 1, 1, 1, 1, 1, 1, 1, 1, 1, 1, 1, 1, 0, 0, 5, 5, 5, 5, 5, 5, 5, 5, 5, 5, 5, 5, 5, 5, 0, 0, 20, 0, 0, 0, 5, 5, 5, 5, 5, 5, 5, 5, 5, 5, 5, 5, 5, 5, 5, 0, 5, 5, 5, 5, 5, 5, 5, 5, 5, 5, 5, 5, 5, 5, 5, 5, 0, 0, 0, 0, 0, 0, 0, 0, 0, 0, 0, 0, 0, 0, 0, 0, 5, 5, 5, 5, 5, 5, 5, 5, 5, 5, 5, 5, 5, 5, 5, 0, 5, 5, 5, 5, 5, 5, 5, 5, 5, 5, 5, 5, 5, 5, 5, 0, 0, 0, 20, 0, 0, 5, 5, 5, 5, 5, 5, 5, 5, 5, 5, 5, 5, 5, 5, 5, 0, 5, 5, 5, 5, 5, 5, 5, 5, 5, 5, 5, 5, 5, 5, 5, 5, 0, 0, 0, 0, 0, 0, 0, 0, 0, 0, 0, 0, 0, 0, 0, 0, 5, 5, 5, 5, 5, 5, 5, 5, 5, 5, 5, 5, 5, 5, 5, 0, 5, 5, 5, 5, 5, 5, 5, 5, 5, 5, 5, 5, 5, 5, 5, 0, 0, 0, 0, 20, 0, 0, 0, 0, 0, 0, 0, 0, 0, 0, 0, 0, 0, 0, 0, 0, 0, 0, 0, 0, 0, 0, 0, 0, 0, 0, 0, 0, 0, 0, 0, 0, 0, 0, 0, 0, 0, 0, 0, 0, 0, 0, 0, 0, 0, 0, 0, 0, 0, 0, 0, 0, 0, 0, 0, 0, 0, 0, 0, 0, 0, 0, 0, 0, 0, 0, 0, 0, 0, 0, 0, 0, 0, 0, 0, 0, 0, 0, 0, 0, 20, 0, 0, 0, 0, 0, 0, 0, 0, 0, 0, 0, 0, 0, 0, 0, 0, 0, 0, 0, 0, 0, 0, 0, 0, 0, 0, 0, 0, 0, 0, 0, 0, 0, 0, 0, 0, 0, 0, 0, 0, 0, 0, 0, 0, 0, 0, 0, 0, 0, 0, 0, 0, 0, 0, 0, 0, 0, 0, 0, 0, 0, 0, 0, 0, 0, 0, 0, 0, 0, 0, 0, 0, 0, 0, 0, 0, 0, 0, 0, 0, 0, 0, 0, 0
];

fn append_bytes(out: &mut Vec<u8>, s: &[u8])
    ensures
        final(out)@ == old(out)@ + s@,
{
    let mut i: usize = 0;
    while i < s.len()
        invariant
            0 <= i <= s@.len(),
            out@ == old(out)@ + s@.subrange(0, i as int),
        decreases s@.len() - i,
    {
        out.push(s[i]);
        i = i + 1;
        assert(s@.subrange(0, i as int) =~= s@.subrange(0, (i - 1) as int).push(s@[i - 1]));
    }
    assert(s@.subrange(0, s@.len() as int) =~= s@);
}

fn read_row(bytes: &[u8], start: usize) -> (r: [u8; 16])
    requires
        start + 16 <= bytes.len(),
    ensures
        r@ == bytes@.subrange(start as int, start + 16),
{
    let mut row: [u8; 16] = [0u8; 16];
    let mut i: usize = 0;
    while i < 16
        invariant
            0 <= i <= 16,
            start + 16 <= bytes.len(),
            forall|j: int| 0 <= j < i ==> row[j] == bytes@[start + j],
        decreases 16 - i,
    {
        row.set(i, bytes[start + i]);
        i = i + 1;
    }
    assert(row@ =~= bytes@.subrange(start as int, start + 16));
    row
}

fn read_set(bytes: &[u8], start: usize) -> (r: WeightSet)
    requires
        start + 85 <= bytes.len(),
    ensures
        set_bytes(r) == bytes@.subrange(start as int, start + 85),
{
    let mut bias: [u8; 5] = [0u8; 5];
    let mut i: usize = 0;
    while i < 5
        invariant
            0 <= i <= 5,
            start + 85 <= bytes.len(),
            forall|j: int| 0 <= j < i ==> bias[j] == bytes@[start + j],
        decreases 5 - i,
    {
        bias.set(i, bytes[start + i]);
        i = i + 1;
    }
    assert(bias@ =~= bytes@.subrange(start as int, start + 5));
    let r0 = read_row(bytes, start + 5);
    let r1 = read_row(bytes, start + 21);
    let r2 = read_row(bytes, start + 37);
    let r3 = read_row(bytes, start + 53);
    let r4 = read_row(bytes, start + 69);
    let ws = WeightSet { bias, feature_weights: [r0, r1, r2, r3, r4] };
    assert(set_bytes(ws) =~= bytes@.subrange(start as int, start + 85));
    ws
}

fn zero_row_exec() -> (r: [u8; 16])
    ensures
        r == zero_row(),
{
    [0u8, 0u8, 0u8, 0u8, 0u8, 0u8, 0u8, 0u8, 0u8, 0u8, 0u8, 0u8, 0u8, 0u8, 0u8, 0u8]
}

fn zero_rows_exec() -> (r: [[u8; 16]; 5])
    ensures
        r == zero_rows(),
{
    [zero_row_exec(), zero_row_exec(), zero_row_exec(), zero_row_exec(), zero_row_exec()]
}

impl WeightSet {
    /// All zeros. The untrained state.
    pub fn zero() -> (r: Self)
        ensures
            r == zero_set(),
    {
        WeightSet { bias: [0u8, 0u8, 0u8, 0u8, 0u8], feature_weights: zero_rows_exec() }
    }
}

impl Weights {
    /// Default cycle: Abyss, Introject, Cartographer, Explorer, Fate, Abyss.
    ///
    /// For context `i`, `bias[(i + 1) % 5] = 10` (the next model in the
    /// cycle). The Cartographer context (index 2) additionally gets
    /// `feature_weights[2][0] = 1`.
    pub fn default_cycle() -> (r: Self)
        ensures
            forall|i: int| 0 <= i < 5 ==> #[trigger] r.sets[i].bias == cycle_bias((i + 1) % 5),
            forall|i: int|
                0 <= i < 5 && i != 2 ==> #[trigger] r.sets[i].feature_weights == zero_rows(),
            forall|row: int, col: int|
                0 <= row < 5 && 0 <= col < 16 ==> #[trigger] r.sets[2].feature_weights[row][col]
                    == (if row == 2 && col == 0 {
                    1u8
                } else {
                    0u8
                }),
    {
        let mut cart_row: [u8; 16] = zero_row_exec();
        cart_row.set(0, 1);
        let zr: [u8; 16] = zero_row_exec();
        let cart_weights: [[u8; 16]; 5] = [zr, zr, cart_row, zr, zr];
        let r = Weights {
            sets: [
                WeightSet { bias: [0, 10, 0, 0, 0], feature_weights: zero_rows_exec() },
                WeightSet { bias: [0, 0, 10, 0, 0], feature_weights: zero_rows_exec() },
                WeightSet { bias: [0, 0, 0, 10, 0], feature_weights: cart_weights },
                WeightSet { bias: [0, 0, 0, 0, 10], feature_weights: zero_rows_exec() },
                WeightSet { bias: [10, 0, 0, 0, 0], feature_weights: zero_rows_exec() },
            ],
        };
        assert(r.sets[0].bias =~= cycle_bias(1));
        assert(r.sets[1].bias =~= cycle_bias(2));
        assert(r.sets[2].bias =~= cycle_bias(3));
        assert(r.sets[3].bias =~= cycle_bias(4));
        assert(r.sets[4].bias =~= cycle_bias(0));
        r
    }

    /// Trained weights. Baked into the binary: 425 bytes.
    pub fn trained() -> (r: Self)
        ensures
            weights_bytes(r) == TRAINED_BYTES@,
    {
        let bytes: [u8; 425] = TRAINED_BYTES;
        match Weights::from_bytes(bytes.as_slice()) {
            Some(w) => w,
            None => {
                assert(false);
                Weights { sets: [WeightSet::zero(), WeightSet::zero(), WeightSet::zero(), WeightSet::zero(), WeightSet::zero()] }
            },
        }
    }

    /// Total parameter count: 5 x (5 + 5 x 16) = 425.
    pub fn param_count(&self) -> (r: usize)
        ensures
            r == 425,
    {
        5 * (5 + 5 * 16)
    }

    /// Serialize to a flat byte array. Layout per weight set: `bias[5]` then
    /// `feature_weights[5][16]`; five weight sets concatenated.
    pub fn to_bytes(&self) -> (r: Vec<u8>)
        ensures
            r@ == weights_bytes(*self),
            r@.len() == 425,
            forall|k: int, j: int|
                0 <= k < 5 && 0 <= j < 5 ==> #[trigger] r@[85 * k + j] == self.sets[k].bias[j],
            forall|k: int, row: int, c: int|
                0 <= k < 5 && 0 <= row < 5 && 0 <= c < 16 ==> #[trigger] r@[85 * k + 5 + 16 * row
                    + c] == self.sets[k].feature_weights[row][c],
    {
        proof {
            lemma_weights_layout(*self);
        }
        let mut out: Vec<u8> = Vec::with_capacity(self.param_count());
        let mut s: usize = 0;
        while s < 5
            invariant
                0 <= s <= 5,
                s == 0 ==> out@ == Seq::<u8>::empty(),
                s == 1 ==> out@ == set_bytes(self.sets[0]),
                s == 2 ==> out@ == set_bytes(self.sets[0]) + set_bytes(self.sets[1]),
                s == 3 ==> out@ == set_bytes(self.sets[0]) + set_bytes(self.sets[1]) + set_bytes(
                    self.sets[2],
                ),
                s == 4 ==> out@ == set_bytes(self.sets[0]) + set_bytes(self.sets[1]) + set_bytes(
                    self.sets[2],
                ) + set_bytes(self.sets[3]),
                s == 5 ==> out@ == weights_bytes(*self),
            decreases 5 - s,
        {
            let ghost before = out@;
            let set = &self.sets[s];
            append_bytes(&mut out, set.bias.as_slice());
            let mut r: usize = 0;
            while r < 5
                invariant
                    0 <= r <= 5,
                    0 <= s < 5,
                    set == &self.sets[s as int],
                    r == 0 ==> out@ == before + set.bias@,
                    r == 1 ==> out@ == before + set.bias@ + set.feature_weights[0]@,
                    r == 2 ==> out@ == before + set.bias@ + set.feature_weights[0]@
                        + set.feature_weights[1]@,
                    r == 3 ==> out@ == before + set.bias@ + set.feature_weights[0]@
                        + set.feature_weights[1]@ + set.feature_weights[2]@,
                    r == 4 ==> out@ == before + set.bias@ + set.feature_weights[0]@
                        + set.feature_weights[1]@ + set.feature_weights[2]@
                        + set.feature_weights[3]@,
                    r == 5 ==> out@ == before + set_bytes(*set),
                decreases 5 - r,
            {
                append_bytes(&mut out, set.feature_weights[r].as_slice());
                r = r + 1;
                assert(r == 5 ==> out@ =~= before + set_bytes(*set));
            }
            s = s + 1;
            assert(s == 5 ==> out@ =~= weights_bytes(*self));
        }
        out
    }

    /// Deserialize from a flat byte array. Returns `None` if the slice
    /// length does not match the parameter count (425).
    pub fn from_bytes(bytes: &[u8]) -> (r: Option<Self>)
        ensures
            r is Some <==> bytes@.len() == 425,
            r matches Some(w) ==> weights_bytes(w) == bytes@,
            r matches Some(w) ==> forall|k: int, j: int|
                0 <= k < 5 && 0 <= j < 5 ==> #[trigger] w.sets[k].bias[j] == bytes@[85 * k + j],
            r matches Some(w) ==> forall|k: int, row: int, c: int|
                0 <= k < 5 && 0 <= row < 5 && 0 <= c < 16 ==> #[trigger] w.sets[k].feature_weights[row][c]
                    == bytes@[85 * k + 5 + 16 * row + c],
    {
        let expected: usize = 5 * (5 + 5 * 16);
        if bytes.len() != expected {
            return None;
        }
        let s0 = read_set(bytes, 0);
        let s1 = read_set(bytes, 85);
        let s2 = read_set(bytes, 170);
        let s3 = read_set(bytes, 255);
        let s4 = read_set(bytes, 340);
        let w = Weights { sets: [s0, s1, s2, s3, s4] };
        assert(weights_bytes(w) =~= bytes@);
        proof {
            lemma_weights_layout(w);
        }
        Some(w)
    }
}

/// The layout of one serialized weight set: the five bias bytes, then the
/// five feature rows of sixteen bytes, in row order.
pub proof fn lemma_set_layout(ws: WeightSet)
    ensures
        set_bytes(ws).len() == 85,
        forall|j: int| 0 <= j < 5 ==> #[trigger] set_bytes(ws)[j] == ws.bias[j],
        forall|r: int, c: int|
            0 <= r < 5 && 0 <= c < 16 ==> #[trigger] set_bytes(ws)[5 + 16 * r + c]
                == ws.feature_weights[r][c],
{
    assert forall|r: int, c: int| 0 <= r < 5 && 0 <= c < 16 implies #[trigger] set_bytes(ws)[5
        + 16 * r + c] == ws.feature_weights[r][c] by {
        if r == 0 {
        } else if r == 1 {
        } else if r == 2 {
        } else if r == 3 {
        } else {
        }
    }
}

/// The layout of serialized weights: weight set `k` occupies bytes
/// `85k .. 85k + 85`, in set order; within it the bias comes first, then
/// the feature rows. So byte `85k + j` is bias `j` of set `k`, and byte
/// `85k + 5 + 16r + c` is feature weight `c` of row `r` of set `k`.
pub proof fn lemma_weights_layout(w: Weights)
    ensures
        weights_bytes(w).len() == 425,
        forall|k: int, j: int|
            0 <= k < 5 && 0 <= j < 5 ==> #[trigger] weights_bytes(w)[85 * k + j]
                == w.sets[k].bias[j],
        forall|k: int, r: int, c: int|
            0 <= k < 5 && 0 <= r < 5 && 0 <= c < 16 ==> #[trigger] weights_bytes(w)[85 * k + 5 + 16
                * r + c] == w.sets[k].feature_weights[r][c],
{
    lemma_set_layout(w.sets[0]);
    lemma_set_layout(w.sets[1]);
    lemma_set_layout(w.sets[2]);
    lemma_set_layout(w.sets[3]);
    lemma_set_layout(w.sets[4]);
    let b = weights_bytes(w);
    assert forall|k: int, i: int| 0 <= k < 5 && 0 <= i < 85 implies #[trigger] b[85 * k + i]
        == set_bytes(w.sets[k])[i] by {
        if k == 0 {
        } else if k == 1 {
        } else if k == 2 {
        } else if k == 3 {
        } else {
        }
    }
    assert forall|k: int, j: int| 0 <= k < 5 && 0 <= j < 5 implies #[trigger] b[85 * k + j]
        == w.sets[k].bias[j] by {
        assert(b[85 * k + j] == set_bytes(w.sets[k])[j]);
    }
    assert forall|k: int, r: int, c: int|
        0 <= k < 5 && 0 <= r < 5 && 0 <= c < 16 implies #[trigger] b[85 * k + 5 + 16 * r + c]
        == w.sets[k].feature_weights[r][c] by {
        assert(0 <= 5 + 16 * r + c < 85);
        assert(b[85 * k + (5 + 16 * r + c)] == set_bytes(w.sets[k])[5 + 16 * r + c]);
    }
}

/// Serialization is injective: two weight tables with the same bytes are
/// the same table. Together with `from_bytes`' contract this makes
/// `from_bytes(to_bytes(w))` give back exactly `w`.
pub proof fn lemma_weights_bytes_injective(a: Weights, b: Weights)
    requires
        weights_bytes(a) == weights_bytes(b),
    ensures
        a == b,
{
    let wa = weights_bytes(a);
    let wb = weights_bytes(b);
    assert forall|k: int| 0 <= k < 5 implies #[trigger] a.sets[k] == b.sets[k] by {
        assert(wa.subrange(85 * k, 85 * k + 85) == set_bytes(a.sets[k]));
        assert(wb.subrange(85 * k, 85 * k + 85) == set_bytes(b.sets[k]));
        lemma_set_bytes_injective(a.sets[k], b.sets[k]);
    }
    assert(a.sets =~= b.sets);
}

proof fn lemma_set_bytes_injective(x: WeightSet, y: WeightSet)
    requires
        set_bytes(x) == set_bytes(y),
    ensures
        x == y,
{
    let sx = set_bytes(x);
    let sy = set_bytes(y);
    assert(x.bias@ == sx.subrange(0, 5));
    assert(y.bias@ == sy.subrange(0, 5));
    assert(x.bias =~= y.bias);
    assert forall|j: int| 0 <= j < 5 implies #[trigger] x.feature_weights[j]
        == y.feature_weights[j] by {
        assert(x.feature_weights[j]@ == sx.subrange(5 + 16 * j, 21 + 16 * j));
        assert(y.feature_weights[j]@ == sy.subrange(5 + 16 * j, 21 + 16 * j));
        assert(x.feature_weights[j] =~= y.feature_weights[j]);
    }
    assert(x.feature_weights =~= y.feature_weights);
}

} // verus!
