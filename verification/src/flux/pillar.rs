//! Pillar: the property verdicts over the spectral commutator, and the
//! property-based-testing surface that composes with them.
//!
//! Each pillar returns a [`Verdict`]: pass, pass with bounded confidence,
//! or fail, each failing or partial verdict naming the check that decided
//! it.
//!
//! A [`Sample`] is a Hypothesis-style choice-sequence buffer with
//! deterministic replay and on-demand extension: the buffer is the trace
//! of decisions a property test made. Two samples with byte-equal buffers
//! produce byte-equal draws, which is what makes shrinking (mutate buffer
//! bytes, replay) and content-addressed verdict caches work.
//!
//! When a draw runs past the buffer, the buffer grows by the eight
//! little-endian bytes of the next SplitMix64 value of the sample's seed.
use vstd::prelude::*;

use sha2::Digest;

use crate::fate::feature::HolonomyHealth;
use crate::flux::{Commutator, FluxThread};
use crate::verdict::half;

pub use crate::verdict::{Confidence, Verdict};

verus! {

/// Pillar I, dispatch ambiguity: pass exactly when there are at least two
/// arms, one witness per arm, tie-breaking is exhausted and the pivot song
/// is present; otherwise fail on the first of these checks that fails.
pub open spec fn dispatch_ambiguity_spec(
    arm_count: usize,
    witness_count: usize,
    tie_breaking_exhausted: bool,
    pivot_song_present: bool,
) -> Verdict {
    if arm_count < 2 {
        Verdict::Fail("dispatch_ambiguity requires >= 2 admissible arms")
    } else if witness_count != arm_count {
        Verdict::Fail("witness count must match arm count")
    } else if !tie_breaking_exhausted {
        Verdict::Fail("tie-breaking not exhausted; not Path-B admissible")
    } else if !pivot_song_present {
        Verdict::Fail("pivot_song handle missing")
    } else {
        Verdict::Pass
    }
}

/// Dispatch ambiguity passes exactly when there are at least two arms,
/// exactly one witness per arm (no more, no fewer), tie-breaking is
/// exhausted and the pivot song is present. Any witness count other than
/// the arm count fails as a witness mismatch once there are two arms, and
/// every failure names which check failed.
pub proof fn lemma_dispatch_ambiguity(
    arm_count: usize,
    witness_count: usize,
    tie_breaking_exhausted: bool,
    pivot_song_present: bool,
)
    ensures
        (dispatch_ambiguity_spec(arm_count, witness_count, tie_breaking_exhausted, pivot_song_present)
            == Verdict::Pass) == (arm_count >= 2 && witness_count == arm_count
            && tie_breaking_exhausted && pivot_song_present),
        arm_count < 2 ==> dispatch_ambiguity_spec(
            arm_count,
            witness_count,
            tie_breaking_exhausted,
            pivot_song_present,
        ) == Verdict::Fail("dispatch_ambiguity requires >= 2 admissible arms"),
        arm_count >= 2 && witness_count != arm_count ==> dispatch_ambiguity_spec(
            arm_count,
            witness_count,
            tie_breaking_exhausted,
            pivot_song_present,
        ) == Verdict::Fail("witness count must match arm count"),
        arm_count >= 2 && witness_count == arm_count && !tie_breaking_exhausted
            ==> dispatch_ambiguity_spec(
            arm_count,
            witness_count,
            tie_breaking_exhausted,
            pivot_song_present,
        ) == Verdict::Fail("tie-breaking not exhausted; not Path-B admissible"),
        arm_count >= 2 && witness_count == arm_count && tie_breaking_exhausted
            && !pivot_song_present ==> dispatch_ambiguity_spec(
            arm_count,
            witness_count,
            tie_breaking_exhausted,
            pivot_song_present,
        ) == Verdict::Fail("pivot_song handle missing"),
{
}

/// **Pillar I: dispatch ambiguity.** Rice-safe byte-visible checks; pass or
/// fail only.
pub fn dispatch_ambiguity(
    arm_count: usize,
    witness_count: usize,
    tie_breaking_exhausted: bool,
    pivot_song_present: bool,
) -> (r: Verdict)
    ensures
        r == dispatch_ambiguity_spec(
            arm_count,
            witness_count,
            tie_breaking_exhausted,
            pivot_song_present,
        ),
        (r == Verdict::Pass) == (arm_count >= 2 && witness_count == arm_count
            && tie_breaking_exhausted && pivot_song_present),
        arm_count >= 2 && witness_count != arm_count ==> r == Verdict::Fail(
            "witness count must match arm count",
        ),
{
    proof {
        lemma_dispatch_ambiguity(arm_count, witness_count, tie_breaking_exhausted, pivot_song_present);
    }
    if arm_count < 2 {
        return Verdict::Fail("dispatch_ambiguity requires >= 2 admissible arms");
    }
    if witness_count != arm_count {
        return Verdict::Fail("witness count must match arm count");
    }
    if !tie_breaking_exhausted {
        return Verdict::Fail("tie-breaking not exhausted; not Path-B admissible");
    }
    if !pivot_song_present {
        return Verdict::Fail("pivot_song handle missing");
    }
    Verdict::Pass
}

/// The verdict for a holonomy classification.
pub open spec fn of_health_spec(health: HolonomyHealth) -> Verdict {
    match health {
        HolonomyHealth::Healthy => Verdict::Pass,
        HolonomyHealth::TooShallow => Verdict::Partial {
            confidence: half(),
            diagnostic: "holonomy too shallow: step barely moved the manifold",
        },
        HolonomyHealth::OverCutting => Verdict::Fail(
            "holonomy over-cutting: geometric distortion (loss > 10× BERRY_PHASE)",
        ),
    }
}

/// **Pillar V: holonomy health.** Healthy passes, too shallow is a partial
/// pass at confidence one half, over-cutting fails.
pub fn of_health(health: &HolonomyHealth) -> (r: Verdict)
    ensures
        r == of_health_spec(*health),
{
    match health {
        HolonomyHealth::Healthy => Verdict::Pass,
        HolonomyHealth::TooShallow => Verdict::Partial {
            confidence: Confidence { numerator: 1, denominator: 2 },
            diagnostic: "holonomy too shallow: step barely moved the manifold",
        },
        HolonomyHealth::OverCutting => Verdict::Fail(
            "holonomy over-cutting: geometric distortion (loss > 10× BERRY_PHASE)",
        ),
    }
}

/// The algedonic verdict for a magnitude against a threshold, with the
/// diagnostic for a vanished signal.
pub open spec fn algedonic_spec(magnitude: u64, theta: u64, vanished: &'static str) -> Verdict {
    if magnitude > theta {
        Verdict::Pass
    } else if magnitude == 0 {
        Verdict::Fail(vanished)
    } else {
        Verdict::Partial {
            confidence: half(),
            diagnostic: "algedonic signal present but below threshold",
        }
    }
}

/// **Pillar II: algedonic threshold** on a raw magnitude: pass above
/// `theta`, fail at zero, partial (confidence one half) in between.
pub fn algedonic_of_magnitude(magnitude: u64, theta: u64) -> (r: Verdict)
    ensures
        r == algedonic_spec(magnitude, theta, "magnitude vanished; no algedonic signal"),
{
    if magnitude > theta {
        Verdict::Pass
    } else if magnitude == 0 {
        Verdict::Fail("magnitude vanished; no algedonic signal")
    } else {
        Verdict::Partial {
            confidence: Confidence { numerator: 1, denominator: 2 },
            diagnostic: "algedonic signal present but below threshold",
        }
    }
}

/// **Pillar II: algedonic threshold** on a commutator's magnitude.
pub fn algedonic<'a, C: FluxThread>(commutator: &Commutator<'a, C>, theta: u64) -> (r: Verdict)
    requires
        commutator.defined(),
    ensures
        r == algedonic_spec(
            commutator.spec_magnitude(),
            theta,
            "commutator vanished; no algedonic signal",
        ),
{
    let m = commutator.magnitude();
    if m > theta {
        Verdict::Pass
    } else if m == 0 {
        Verdict::Fail("commutator vanished; no algedonic signal")
    } else {
        Verdict::Partial {
            confidence: Confidence { numerator: 1, denominator: 2 },
            diagnostic: "algedonic signal present but below threshold",
        }
    }
}

/// The sum of a sequence of magnitudes.
pub open spec fn magnitude_sum(s: Seq<u64>) -> int
    decreases s.len(),
{
    if s.len() == 0 {
        0
    } else {
        magnitude_sum(s.drop_last()) + s.last()
    }
}

/// Pillar III over the magnitudes `h`: partial with confidence
/// `len / max(omega, 1)` while the history is shorter than the window;
/// otherwise pass exactly when the last `omega` magnitudes sum above
/// `theta`.
pub open spec fn viability_spec(h: Seq<u64>, theta: u64, omega: usize) -> Verdict {
    if h.len() < omega {
        Verdict::Partial {
            confidence: Confidence {
                numerator: h.len() as u64,
                denominator: if omega == 0 { 1u64 } else { omega as u64 },
            },
            diagnostic: "history shorter than viability window",
        }
    } else if magnitude_sum(h.subrange(h.len() - omega, h.len() as int)) > theta {
        Verdict::Pass
    } else {
        Verdict::Fail("viability persistence below threshold over window")
    }
}

proof fn lemma_magnitude_sum_bound(s: Seq<u64>)
    ensures
        0 <= magnitude_sum(s) <= s.len() * 0xffff_ffff_ffff_ffff,
    decreases s.len(),
{
    if s.len() > 0 {
        lemma_magnitude_sum_bound(s.drop_last());
    }
}

/// The sum of `h[start..]`,
/// accumulated exactly.
fn sum_window(h: &[u64], start: usize) -> (r: u128)
    requires
        start <= h@.len(),
    ensures
        r == magnitude_sum(h@.subrange(start as int, h@.len() as int)),
{
    let mut acc: u128 = 0;
    let mut i: usize = start;
    while i < h.len()
        invariant
            start <= i <= h@.len(),
            acc == magnitude_sum(h@.subrange(start as int, i as int)),
        decreases h@.len() - i,
    {
        proof {
            lemma_magnitude_sum_bound(h@.subrange(start as int, i as int));
            assert(h@.subrange(start as int, i + 1).drop_last() =~= h@.subrange(
                start as int,
                i as int,
            ));
            assert((i - start) * 0xffff_ffff_ffff_ffffu128 < 0xffff_ffff_ffff_ffff_ffff_ffff_ffff_0000u128)
                by (nonlinear_arith)
                requires
                    i - start <= 0xffff_ffff_ffff_ffff,
            ;
        }
        acc = acc + h[i] as u128;
        i = i + 1;
    }
    acc
}

/// **Pillar III: viability persistence** over raw magnitudes.
pub fn viability_of_magnitudes(history: &[u64], theta: u64, omega: usize) -> (r: Verdict)
    ensures
        r == viability_spec(history@, theta, omega),
{
    let n = history.len();
    if n < omega {
        let denominator: u64 = if omega == 0 { 1 } else { omega as u64 };
        return Verdict::Partial {
            confidence: Confidence { numerator: n as u64, denominator },
            diagnostic: "history shorter than viability window",
        };
    }
    let accumulated = sum_window(history, n - omega);
    if accumulated > theta as u128 {
        Verdict::Pass
    } else {
        Verdict::Fail("viability persistence below threshold over window")
    }
}

/// **Pillar III: viability persistence** over a history of commutators.
pub fn viability<'a, C: FluxThread>(history: &[Commutator<'a, C>], theta: u64, omega: usize) -> (r:
    Verdict)
    requires
        forall|i: int| 0 <= i < history@.len() ==> (#[trigger] history@[i]).defined(),
    ensures
        r == viability_spec(history@.map_values(|c: Commutator<'a, C>| c.spec_magnitude()), theta, omega),
{
    let ghost mags = history@.map_values(|c: Commutator<'a, C>| c.spec_magnitude());
    let n = history.len();
    if n < omega {
        let denominator: u64 = if omega == 0 { 1 } else { omega as u64 };
        return Verdict::Partial {
            confidence: Confidence { numerator: n as u64, denominator },
            diagnostic: "history shorter than viability window",
        };
    }
    let mut magnitudes: Vec<u64> = Vec::new();
    let mut i: usize = 0;
    while i < n
        invariant
            n == history@.len(),
            0 <= i <= n,
            forall|k: int| 0 <= k < history@.len() ==> (#[trigger] history@[k]).defined(),
            magnitudes@ == mags.subrange(0, i as int),
            mags == history@.map_values(|c: Commutator<'a, C>| c.spec_magnitude()),
        decreases n - i,
    {
        magnitudes.push(history[i].magnitude());
        i = i + 1;
        assert(magnitudes@ =~= mags.subrange(0, i as int));
    }
    assert(magnitudes@ =~= mags);
    viability_of_magnitudes(magnitudes.as_slice(), theta, omega)
}

/// The state a sample's draws depend on: the buffer, the read position,
/// and the extension seed.
pub type SampleState = (Seq<u8>, nat, u64);

/// SHA-256 of `data`, as computed by the `sha2` crate.
pub uninterp spec fn sha256_of(data: Seq<u8>) -> Seq<u8>;

/// Calls `sha2::Sha256::digest`. The contract claims only that the 32
/// bytes returned are `sha256_of` the input bytes, a function of those
/// bytes alone; which bytes SHA-256 yields is left unsaid.
#[verifier::external_body]
fn sha256(data: &[u8]) -> (r: [u8; 32])
    ensures
        r@ == sha256_of(data@),
{
    sha2::Sha256::digest(data).into()
}

/// The golden-ratio increment of SplitMix64.
pub const GOLDEN_GAMMA: u64 = 0x9E37_79B9_7F4A_7C15;

/// One SplitMix64 step (Steele, Lea, Flood 2014), all arithmetic modulo
/// 2^64.
pub open spec fn splitmix64_spec(z0: u64) -> u64 {
    let z = vstd::wrapping::u64_specs::wrapping_add(z0, GOLDEN_GAMMA);
    let z1 = vstd::wrapping::u64_specs::wrapping_mul(z ^ (z >> 30u64), 0xBF58_476D_1CE4_E5B9u64);
    let z2 = vstd::wrapping::u64_specs::wrapping_mul(z1 ^ (z1 >> 27u64), 0x94D0_49BB_1331_11EBu64);
    z2 ^ (z2 >> 31u64)
}

fn splitmix64(z0: u64) -> (r: u64)
    ensures
        r == splitmix64_spec(z0),
{
    let z = z0.wrapping_add(GOLDEN_GAMMA);
    let z1 = (z ^ (z >> 30u64)).wrapping_mul(0xBF58_476D_1CE4_E5B9u64);
    let z2 = (z1 ^ (z1 >> 27u64)).wrapping_mul(0x94D0_49BB_1331_11EBu64);
    z2 ^ (z2 >> 31u64)
}

/// The `n` low-order base-256 digits of `x`, least significant first.
pub open spec fn le_bytes(x: nat, n: nat) -> Seq<u8>
    decreases n,
{
    if n == 0 {
        seq![]
    } else {
        seq![(x % 256) as u8] + le_bytes(x / 256, (n - 1) as nat)
    }
}

/// The value of little-endian bytes.
pub open spec fn le_value(s: Seq<u8>) -> nat
    decreases s.len(),
{
    if s.len() == 0 {
        0
    } else {
        (s[0] + 256 * le_value(s.drop_first())) as nat
    }
}

/// 256 to the `n`.
pub open spec fn pow256(n: nat) -> nat
    decreases n,
{
    if n == 0 {
        1
    } else {
        256 * pow256((n - 1) as nat)
    }
}

proof fn lemma_le_value_bound(s: Seq<u8>)
    ensures
        le_value(s) < pow256(s.len()),
    decreases s.len(),
{
    if s.len() > 0 {
        lemma_le_value_bound(s.drop_first());
    }
}

proof fn lemma_pow256_values()
    ensures
        pow256(4) == 0x1_0000_0000,
        pow256(8) == 0x1_0000_0000_0000_0000,
{
    reveal_with_fuel(pow256, 9);
}

/// The value of at most eight little-endian bytes.
fn le_value_u64(s: &[u8]) -> (r: u64)
    requires
        s@.len() <= 8,
    ensures
        r == le_value(s@),
{
    let n = s.len();
    let mut acc: u64 = 0;
    let mut i: usize = n;
    proof {
        lemma_pow256_values();
    }
    while i > 0
        invariant
            0 <= i <= n,
            n == s@.len(),
            n <= 8,
            acc == le_value(s@.subrange(i as int, n as int)),
            pow256(8) == 0x1_0000_0000_0000_0000,
        decreases i,
    {
        i = i - 1;
        let ghost tail = s@.subrange(i as int, n as int);
        assert(tail.drop_first() =~= s@.subrange(i + 1, n as int));
        proof {
            lemma_le_value_bound(tail);
            assert(pow256(tail.len()) <= pow256(8)) by {
                lemma_pow256_monotone(tail.len(), 8);
            }
        }
        acc = s[i] as u64 + 256 * acc;
    }
    assert(s@.subrange(0, n as int) =~= s@);
    acc
}

proof fn lemma_pow256_monotone(a: nat, b: nat)
    requires
        a <= b,
    ensures
        pow256(a) <= pow256(b),
    decreases b,
{
    if a < b {
        lemma_pow256_monotone(a, (b - 1) as nat);
    }
}

/// One byte read: past the buffer, first grow it by the eight bytes of
/// the next seed; then take the byte at the position and advance.
pub open spec fn read_u8_spec(st: SampleState) -> (SampleState, u8) {
    if st.1 >= st.0.len() {
        let seed = splitmix64_spec(st.2);
        let buffer = st.0 + le_bytes(seed as nat, 8);
        ((buffer, st.1 + 1, seed), buffer[st.1 as int])
    } else {
        ((st.0, st.1 + 1, st.2), st.0[st.1 as int])
    }
}

/// `n` byte reads in order.
pub open spec fn read_bytes_spec(st: SampleState, n: nat) -> (SampleState, Seq<u8>)
    decreases n,
{
    if n == 0 {
        (st, seq![])
    } else {
        let (st1, bs) = read_bytes_spec(st, (n - 1) as nat);
        let (st2, b) = read_u8_spec(st1);
        (st2, bs.push(b))
    }
}

/// An integer draw in `[min, max]`: `min` without reading when
/// `max < min`; otherwise eight bytes, reduced modulo the range width.
pub open spec fn draw_integer_spec(st: SampleState, min: i64, max: i64) -> (SampleState, i64) {
    if max < min {
        (st, min)
    } else {
        let (st1, bs) = read_bytes_spec(st, 8);
        (st1, (min + (le_value(bs) % ((max - min + 1) as nat))) as i64)
    }
}

/// A boolean draw: one byte, true when its low bit is set.
pub open spec fn draw_bool_spec(st: SampleState) -> (SampleState, bool) {
    let (st1, b) = read_u8_spec(st);
    (st1, (b & 1u8) == 1u8)
}

/// The seed of a replayed sample: the first eight digest bytes, little
/// endian.
pub open spec fn digest_seed(digest: Seq<u8>) -> u64 {
    le_value(digest.subrange(0, 8)) as u64
}

/// The seed of a fresh sample from a clock reading and a counter.
pub open spec fn entropy_seed(time: u64, counter: u64) -> u64 {
    splitmix64_spec(
        vstd::wrapping::u64_specs::wrapping_add(
            time,
            vstd::wrapping::u64_specs::wrapping_mul(counter, GOLDEN_GAMMA),
        ),
    )
}

/// Reading inside the buffer takes the next bytes in order and never
/// touches the seed.
proof fn lemma_read_within(st: SampleState, n: nat)
    requires
        st.1 + n <= st.0.len(),
    ensures
        read_bytes_spec(st, n) == ((st.0, st.1 + n, st.2), st.0.subrange(st.1 as int, (st.1 + n) as int)),
    decreases n,
{
    if n > 0 {
        lemma_read_within(st, (n - 1) as nat);
        assert(st.0.subrange(st.1 as int, (st.1 + n) as int) =~= st.0.subrange(
            st.1 as int,
            (st.1 + n - 1) as int,
        ).push(st.0[st.1 + n - 1]));
    }
}

proof fn lemma_le_bytes_len(x: nat, n: nat)
    ensures
        le_bytes(x, n).len() == n,
    decreases n,
{
    if n > 0 {
        lemma_le_bytes_len(x / 256, (n - 1) as nat);
    }
}

/// One byte read keeps the buffer as a prefix, advances by one within the
/// (possibly grown) buffer, and returns the byte it stepped over.
proof fn lemma_read_u8_records(st: SampleState)
    requires
        st.1 <= st.0.len(),
    ensures
        read_u8_spec(st).0.0.len() >= st.0.len(),
        read_u8_spec(st).0.0.subrange(0, st.0.len() as int) == st.0,
        read_u8_spec(st).0.1 == st.1 + 1,
        read_u8_spec(st).0.1 <= read_u8_spec(st).0.0.len(),
        read_u8_spec(st).1 == read_u8_spec(st).0.0[st.1 as int],
{
    if st.1 >= st.0.len() {
        lemma_le_bytes_len(splitmix64_spec(st.2) as nat, 8);
        assert(read_u8_spec(st).0.0.subrange(0, st.0.len() as int) =~= st.0);
    }
}

/// Reading `n` bytes keeps the buffer as a prefix, advances the position
/// by `n` within the (possibly grown) buffer, and returns exactly the
/// bytes of the grown buffer between the old and new positions.
pub proof fn lemma_read_records(st: SampleState, n: nat)
    requires
        st.1 <= st.0.len(),
    ensures
        read_bytes_spec(st, n).0.0.len() >= st.0.len(),
        read_bytes_spec(st, n).0.0.subrange(0, st.0.len() as int) == st.0,
        read_bytes_spec(st, n).0.1 == st.1 + n,
        read_bytes_spec(st, n).0.1 <= read_bytes_spec(st, n).0.0.len(),
        read_bytes_spec(st, n).1 == read_bytes_spec(st, n).0.0.subrange(
            st.1 as int,
            (st.1 + n) as int,
        ),
    decreases n,
{
    if n > 0 {
        let m = (n - 1) as nat;
        lemma_read_records(st, m);
        let prev = read_bytes_spec(st, m);
        let st1 = prev.0;
        lemma_read_u8_records(st1);
        let step = read_u8_spec(st1);
        let st2 = step.0;
        assert(read_bytes_spec(st, n) == (st2, prev.1.push(step.1)));
        assert(st2.0.subrange(0, st1.0.len() as int) == st1.0);
        assert(st2.0.subrange(0, st.0.len() as int) =~= st1.0.subrange(0, st.0.len() as int));
        assert(prev.1.push(step.1) =~= st2.0.subrange(st.1 as int, (st.1 + n) as int)) by {
            assert forall|k: int| 0 <= k < m implies #[trigger] st2.0[st.1 + k] == st1.0[st.1 + k] by {
                assert(st2.0.subrange(0, st1.0.len() as int)[st.1 + k] == st1.0[st.1 + k]);
            }
        }
    }
}

/// Deterministic replay: the buffer a sample ends with is the trace of
/// its decisions. Replaying it from the start, under any seed, reads back
/// exactly the bytes the first run drew.
pub proof fn lemma_replay(buffer: Seq<u8>, seed: u64, n: nat, replay_seed: u64)
    ensures
        ({
            let (st1, bs) = read_bytes_spec((buffer, 0nat, seed), n);
            read_bytes_spec((st1.0, 0nat, replay_seed), n).1 == bs
        }),
{
    lemma_read_records((buffer, 0nat, seed), n);
    let (st1, bs) = read_bytes_spec((buffer, 0nat, seed), n);
    lemma_read_within((st1.0, 0nat, replay_seed), n);
}

/// Choice-sequence buffer with deterministic replay and on-demand
/// extension.
pub struct Sample {
    buffer: Vec<u8>,
    position: usize,
    seed: u64,
}

impl View for Sample {
    type V = SampleState;

    closed spec fn view(&self) -> SampleState {
        (self.buffer@, self.position as nat, self.seed)
    }
}

impl Sample {
    /// Well-formed: the read position never runs past the buffer.
    pub open spec fn wf(&self) -> bool {
        self@.1 <= self@.0.len()
    }

    /// A fresh sample with an empty buffer, seeded from a clock reading
    /// (nanoseconds) and a process-wide counter.
    pub fn from_entropy(time: u64, counter: u64) -> (r: Self)
        ensures
            r.wf(),
            r@ == (Seq::<u8>::empty(), 0nat, entropy_seed(time, counter)),
    {
        let seed = splitmix64(time.wrapping_add(counter.wrapping_mul(GOLDEN_GAMMA)));
        Sample { buffer: Vec::new(), position: 0, seed }
    }

    /// The extension seed of a replayed buffer, from the buffer's SHA-256
    /// digest.
    pub fn seed_from_digest(digest: &[u8; 32]) -> (r: u64)
        ensures
            r == digest_seed(digest@),
    {
        let mut head: Vec<u8> = Vec::new();
        let mut i: usize = 0;
        while i < 8
            invariant
                0 <= i <= 8,
                digest@.len() == 32,
                head@ == digest@.subrange(0, i as int),
            decreases 8 - i,
        {
            head.push(digest[i]);
            i = i + 1;
            assert(head@ =~= digest@.subrange(0, i as int));
        }
        le_value_u64(head.as_slice())
    }

    /// A sample replaying `buffer`: reads start at its first byte, and
    /// extension is seeded from its SHA-256 (0 for an empty buffer).
    pub fn from_bytes(buffer: Vec<u8>) -> (r: Self)
        ensures
            r.wf(),
            r@ == (buffer@, 0nat, if buffer@.len() == 0 {
                0u64
            } else {
                digest_seed(sha256_of(buffer@))
            }),
    {
        let seed = if buffer.len() == 0 {
            0
        } else {
            let digest = sha256(buffer.as_slice());
            Self::seed_from_digest(&digest)
        };
        Sample { buffer, position: 0, seed }
    }

    /// Current read position in the buffer.
    pub fn depth(&self) -> (r: usize)
        ensures
            r == self@.1,
    {
        self.position
    }

    /// Content-address the buffer via SHA-256.
    pub fn buffer_oid(&self) -> (r: [u8; 32])
        ensures
            r@ == sha256_of(self@.0),
    {
        sha256(self.buffer.as_slice())
    }

    /// Read the next byte, extending the buffer when it is exhausted.
    fn read_u8(&mut self) -> (b: u8)
        requires
            old(self).wf(),
        ensures
            final(self).wf(),
            (final(self)@, b) == read_u8_spec(old(self)@),
    {
        if self.position >= self.buffer.len() {
            let seed = splitmix64(self.seed);
            let ghost old_buffer = self.buffer@;
            let mut v: u64 = seed;
            let mut k: usize = 0;
            while k < 8
                invariant
                    0 <= k <= 8,
                    old_buffer + le_bytes(seed as nat, 8) == self.buffer@ + le_bytes(
                        v as nat,
                        (8 - k) as nat,
                    ),
                    self.buffer@.len() == old_buffer.len() + k,
                    self.position <= old_buffer.len(),
                    self.position == old(self).position,
                    self.seed == old(self).seed,
                    old_buffer == old(self).buffer@,
                decreases 8 - k,
            {
                let ghost before = self.buffer@;
                self.buffer.push((v % 256) as u8);
                assert(le_bytes(v as nat, (8 - k) as nat) == seq![(v % 256) as u8] + le_bytes(
                    (v / 256) as nat,
                    (8 - k - 1) as nat,
                ));
                assert(before + le_bytes(v as nat, (8 - k) as nat) =~= self.buffer@ + le_bytes(
                    (v / 256) as nat,
                    (8 - k - 1) as nat,
                ));
                v = v / 256;
                k = k + 1;
            }
            assert(le_bytes(v as nat, 0) =~= Seq::<u8>::empty());
            assert(self.buffer@ =~= old_buffer + le_bytes(seed as nat, 8));
            self.seed = seed;
        }
        let n = self.buffer.len();
        let byte = self.buffer[self.position];
        assert(self.position < n);
        self.position = self.position + 1;
        byte
    }

    /// Read the next `n` bytes, extending the buffer as needed.
    fn read_bytes(&mut self, n: usize) -> (r: Vec<u8>)
        requires
            old(self).wf(),
        ensures
            final(self).wf(),
            (final(self)@, r@) == read_bytes_spec(old(self)@, n as nat),
            r@.len() == n,
    {
        let mut out: Vec<u8> = Vec::new();
        let mut k: usize = 0;
        while k < n
            invariant
                0 <= k <= n,
                self.wf(),
                out@.len() == k,
                (self@, out@) == read_bytes_spec(old(self)@, k as nat),
            decreases n - k,
        {
            let b = self.read_u8();
            out.push(b);
            k = k + 1;
        }
        out
    }

    /// Draw an integer in `[min, max]` (inclusive both sides), consuming
    /// eight bytes; when `max < min` it returns `min` and consumes nothing.
    pub fn draw_integer(&mut self, min: i64, max: i64) -> (r: i64)
        requires
            old(self).wf(),
            max < min || max - min < i64::MAX,
        ensures
            final(self).wf(),
            (final(self)@, r) == draw_integer_spec(old(self)@, min, max),
            min <= max ==> min <= r <= max,
    {
        if max < min {
            return min;
        }
        let bytes = self.read_bytes(8);
        let raw = le_value_u64(bytes.as_slice());
        let range = (max - min + 1) as u64;
        let offset = raw % range;
        min + offset as i64
    }

    /// Draw a bool, consuming one byte.
    pub fn draw_bool(&mut self) -> (r: bool)
        requires
            old(self).wf(),
        ensures
            final(self).wf(),
            (final(self)@, r) == draw_bool_spec(old(self)@),
    {
        (self.read_u8() & 1u8) == 1u8
    }

    /// Draw an element of `choices`, at the index drawn from
    /// `[0, choices.len() - 1]`.
    pub fn draw_from<T: Copy>(&mut self, choices: &[T]) -> (r: T)
        requires
            old(self).wf(),
            choices@.len() > 0,
            choices@.len() - 1 < i64::MAX,
        ensures
            ({
                let (st, idx) = draw_integer_spec(old(self)@, 0, (choices@.len() - 1) as i64);
                final(self)@ == st && r == choices@[idx as int]
            }),
            final(self).wf(),
    {
        let idx = self.draw_integer(0, (choices.len() - 1) as i64) as usize;
        choices[idx]
    }
}

/// Types that can be drawn from a [`Sample`].
pub trait Arbitrary: Sized {
    /// The state after the draw and the value drawn.
    spec fn arbitrary_spec(st: SampleState) -> (SampleState, Self);

    /// Draw a value.
    fn arbitrary(sample: &mut Sample) -> (r: Self)
        requires
            old(sample).wf(),
        ensures
            final(sample).wf(),
            (final(sample)@, r) == Self::arbitrary_spec(old(sample)@),
    ;
}

impl Arbitrary for bool {
    open spec fn arbitrary_spec(st: SampleState) -> (SampleState, bool) {
        draw_bool_spec(st)
    }

    fn arbitrary(sample: &mut Sample) -> (r: bool) {
        sample.draw_bool()
    }
}

impl Arbitrary for u32 {
    open spec fn arbitrary_spec(st: SampleState) -> (SampleState, u32) {
        let (st1, bs) = read_bytes_spec(st, 4);
        (st1, le_value(bs) as u32)
    }

    fn arbitrary(sample: &mut Sample) -> (r: u32) {
        let bytes = sample.read_bytes(4);
        let v = le_value_u64(bytes.as_slice());
        proof {
            lemma_le_value_bound(bytes@);
            lemma_pow256_values();
        }
        v as u32
    }
}

impl Arbitrary for i32 {
    open spec fn arbitrary_spec(st: SampleState) -> (SampleState, i32) {
        let (st1, bs) = read_bytes_spec(st, 4);
        (st1, le_value(bs) as u32 as i32)
    }

    fn arbitrary(sample: &mut Sample) -> (r: i32) {
        let bytes = sample.read_bytes(4);
        let v = le_value_u64(bytes.as_slice());
        proof {
            lemma_le_value_bound(bytes@);
            lemma_pow256_values();
        }
        #[verifier::truncate]
        ((v as u32) as i32)
    }
}

impl Arbitrary for u64 {
    open spec fn arbitrary_spec(st: SampleState) -> (SampleState, u64) {
        let (st1, bs) = read_bytes_spec(st, 8);
        (st1, le_value(bs) as u64)
    }

    fn arbitrary(sample: &mut Sample) -> (r: u64) {
        let bytes = sample.read_bytes(8);
        le_value_u64(bytes.as_slice())
    }
}

impl Arbitrary for i64 {
    open spec fn arbitrary_spec(st: SampleState) -> (SampleState, i64) {
        let (st1, bs) = read_bytes_spec(st, 8);
        (st1, le_value(bs) as u64 as i64)
    }

    fn arbitrary(sample: &mut Sample) -> (r: i64) {
        let bytes = sample.read_bytes(8);
        let v = le_value_u64(bytes.as_slice());
        #[verifier::truncate]
        (v as i64)
    }
}

} // verus!
