//! Pillar verdicts over the liquid commutator: the algedonic threshold and
//! viability persistence read a [`Commutator`]'s magnitude; the pillars
//! over plain values (dispatch ambiguity, holonomy health, raw magnitudes)
//! are shared with flux.
use vstd::prelude::*;

use crate::flux::pillar::{algedonic_spec, viability_spec};
use crate::verdict::{Confidence, Verdict};
use crate::liquid::{Commutator, LiquidConnection};

pub use crate::flux::pillar::{
    algedonic_of_magnitude, dispatch_ambiguity, of_health, viability_of_magnitudes,
};

verus! {

/// **Pillar II: algedonic threshold** on a commutator's magnitude: pass
/// above `theta`, fail when the commutator vanishes, partial (confidence
/// one half) in between.
pub fn algedonic<'a, C: LiquidConnection>(commutator: &Commutator<'a, C>, theta: u64) -> (r:
    Verdict)
    requires
        commutator.defined(),
    ensures
        r == algedonic_spec(
            commutator.spec_magnitude(),
            theta,
            "commutator vanished; no algedonic signal",
        ),
{
    let m = commutator.magnitude();
    if m > theta {
        Verdict::Pass
    } else if m == 0 {
        Verdict::Fail("commutator vanished; no algedonic signal")
    } else {
        Verdict::Partial {
            confidence: Confidence { numerator: 1, denominator: 2 },
            diagnostic: "algedonic signal present but below threshold",
        }
    }
}

/// **Pillar III: viability persistence** over a history of commutators:
/// the magnitudes of the last `omega` commutators must sum above `theta`.
pub fn viability<'a, C: LiquidConnection>(
    history: &[Commutator<'a, C>],
    theta: u64,
    omega: usize,
) -> (r: Verdict)
    requires
        forall|i: int| 0 <= i < history@.len() ==> (#[trigger] history@[i]).defined(),
    ensures
        r == viability_spec(
            history@.map_values(|c: Commutator<'a, C>| c.spec_magnitude()),
            theta,
            omega,
        ),
{
    let ghost mags = history@.map_values(|c: Commutator<'a, C>| c.spec_magnitude());
    let n = history.len();
    if n < omega {
        let denominator: u64 = if omega == 0 { 1 } else { omega as u64 };
        return Verdict::Partial {
            confidence: Confidence { numerator: n as u64, denominator },
            diagnostic: "history shorter than viability window",
        };
    }
    let mut magnitudes: Vec<u64> = Vec::new();
    let mut i: usize = 0;
    while i < n
        invariant
            n == history@.len(),
            0 <= i <= n,
            forall|k: int| 0 <= k < history@.len() ==> (#[trigger] history@[k]).defined(),
            magnitudes@ == mags.subrange(0, i as int),
            mags == history@.map_values(|c: Commutator<'a, C>| c.spec_magnitude()),
        decreases n - i,
    {
        magnitudes.push(history[i].magnitude());
        i = i + 1;
        assert(magnitudes@ =~= mags.subrange(0, i as int));
    }
    assert(magnitudes@ =~= mags);
    viability_of_magnitudes(magnitudes.as_slice(), theta, omega)
}

} // verus!
