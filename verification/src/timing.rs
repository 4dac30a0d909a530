//! From ticks to microseconds.

use vstd::prelude::*;
use crate::smf::SmfTiming;

verus! {

/// The resolution of a file: `num / den` ticks to the quarter note, or to
/// the second where the file counts in frames.
#[derive(Debug, Clone, Copy, PartialEq, Eq, Structural)]
pub struct TickRate {
    pub num: u32,
    pub den: u32,
}

/// The resolution that a file's time base stands for.
///
/// A metrical time base is its ticks per quarter note. A time base in
/// frames is the frames of a second times the ticks of a frame, where 29
/// frames stand for 30 / 1.001 of them.
pub open spec fn rate_of(timing: SmfTiming) -> TickRate {
    match timing {
        SmfTiming::Metrical(ticks) => TickRate { num: ticks as u32, den: 1 },
        SmfTiming::Timecode(fps, ticks) => if fps == 29 {
            TickRate { num: (30000 * ticks) as u32, den: 1001 }
        } else {
            TickRate { num: (fps * ticks) as u32, den: 1 }
        },
    }
}

/// The microseconds that `ticks` ticks last at `tempo` microseconds to the
/// quarter note: `ticks * tempo / rate`, rounded down and held within
/// `u64`. Ticks of a rate of zero last without end.
pub open spec fn delay_micros(ticks: int, tempo: u32, rate: TickRate) -> u64 {
    let span = ticks * tempo * rate.den;
    if span <= 0 {
        0
    } else if rate.num == 0 {
        u64::MAX
    } else if span / (rate.num as int) > u64::MAX {
        u64::MAX
    } else {
        (span / (rate.num as int)) as u64
    }
}

/// Ticks that do not advance take no time.
pub proof fn lemma_no_delay_backwards(ticks: int, tempo: u32, rate: TickRate)
    requires
        ticks <= 0,
    ensures
        delay_micros(ticks, tempo, rate) == 0,
{
    assert(ticks * tempo * rate.den <= 0) by (nonlinear_arith)
        requires
            ticks <= 0,
            tempo >= 0,
            rate.den >= 0,
    ;
}

impl TickRate {
    /// The resolution that `timing` stands for.
    pub fn of_timing(timing: SmfTiming) -> (rate: TickRate)
        ensures
            rate == rate_of(timing),
    {
        match timing {
            SmfTiming::Metrical(ticks) => TickRate { num: ticks as u32, den: 1 },
            SmfTiming::Timecode(fps, ticks) => {
                if fps == 29 {
                    TickRate { num: 30000 * (ticks as u32), den: 1001 }
                } else {
                    assert(fps * ticks <= 255 * 255) by (nonlinear_arith)
                        requires
                            0 <= fps <= 255,
                            0 <= ticks <= 255,
                    ;
                    TickRate { num: (fps as u32) * (ticks as u32), den: 1 }
                }
            },
        }
    }

    /// How long `ticks` ticks last at `tempo`, in microseconds.
    pub fn micros(&self, ticks: u32, tempo: u32) -> (r: u64)
        ensures
            r == delay_micros(ticks as int, tempo, *self),
    {
        assert(ticks * tempo <= 0xFFFF_FFFF * 0xFFFF_FFFF) by (nonlinear_arith)
            requires
                0 <= ticks <= 0xFFFF_FFFF,
                0 <= tempo <= 0xFFFF_FFFF,
        ;
        let beat: u128 = (ticks as u128) * (tempo as u128);
        assert(beat * self.den <= 0xFFFF_FFFF * 0xFFFF_FFFF * 0xFFFF_FFFF) by (nonlinear_arith)
            requires
                0 <= beat <= 0xFFFF_FFFF * 0xFFFF_FFFF,
                0 <= self.den <= 0xFFFF_FFFF,
        ;
        let span: u128 = beat * (self.den as u128);
        assert(span == ticks as int * tempo * self.den);
        if span == 0 {
            0
        } else if self.num == 0 {
            u64::MAX
        } else {
            let q: u128 = span / (self.num as u128);
            if q > u64::MAX as u128 {
                u64::MAX
            } else {
                q as u64
            }
        }
    }
}

} // verus!
