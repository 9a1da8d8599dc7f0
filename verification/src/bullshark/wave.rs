//! Wave numbering (4 rounds per wave): `4w, 4w+1, 4w+2, 4w+3`.
use vstd::prelude::*;
use crate::types::primitives::Round;

verus! {

/// A Bullshark wave (4 consecutive rounds).
#[derive(Clone, Copy, Debug, PartialEq, Eq, PartialOrd, Ord, Structural)]
pub struct WaveId(pub u64);

impl WaveId {
    /// First round in this wave.
    pub fn first_round(self) -> (r: Round)
        requires
            self.0 * 4 <= u64::MAX,
        ensures
            r.0 == self.0 * 4,
    {
        Round(self.0 * 4)
    }

    /// Last round in this wave.
    pub fn last_round(self) -> (r: Round)
        requires
            self.0 * 4 + 3 <= u64::MAX,
        ensures
            r.0 == self.0 * 4 + 3,
    {
        Round(self.0 * 4 + 3)
    }

    /// Wave containing `round`.
    pub fn of_round(round: Round) -> (w: Self)
        ensures
            w.0 == round.0 / 4,
    {
        WaveId(round.0 / 4)
    }
}

/// Every round lies in the wave `of_round` gives, between its first and last round.
pub proof fn lemma_round_in_its_wave(r: Round)
    ensures
        (r.0 / 4) * 4 <= r.0 <= (r.0 / 4) * 4 + 3,
{
}

} // verus!
