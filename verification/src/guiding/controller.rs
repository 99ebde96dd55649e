//! Guiding control: which calibrations are trusted, and how a pixel error becomes timed
//! pulse-guide commands. The products and quotients of the calibration matrix are computed by the
//! caller; everything that is decided about them is decided here.

use crate::bus::Dir;
use crate::scalar::Scalar;
use vstd::prelude::*;

verus! {

/// Maps mount pulse durations to the pixel displacement they produce, as a 2x2 matrix. Column 0 is
/// the per-millisecond displacement of a **West** pulse (the RA axis), column 1 that of a
/// **North** pulse (the DEC axis).
#[derive(Clone, Copy, Debug)]
pub struct Calibration {
    /// Column-major: `[a, c, b, d]` for `M = [[a, b], [c, d]]`; columns `(a,c)`=RA, `(b,d)`=DEC.
    pub m: [Scalar; 4],
}

/// Bit pattern of the smallest calibration displacement (2 pixels) that is trusted: a shorter move
/// means the target barely moved.
pub const MIN_CALIB_PX_BITS: u64 = 0x4000_0000_0000_0000;

/// Bit pattern of one.
pub const ONE_BITS: u64 = 0x3FF0_0000_0000_0000;

/// Bit pattern of one half.
pub const HALF_BITS: u64 = 0x3FE0_0000_0000_0000;

/// Bit pattern of 500.
pub const FIVE_HUNDRED_BITS: u64 = 0x407F_4000_0000_0000;

/// What two calibration pulses measured, worked out by the caller.
#[derive(Clone, Copy, Debug)]
pub struct CalibrationTerms {
    /// Length of the displacement of the West pulse, in pixels.
    pub west_px: Scalar,
    /// Length of the displacement of the North pulse, in pixels.
    pub north_px: Scalar,
    /// The per-millisecond matrix, column-major.
    pub m: [Scalar; 4],
    /// Determinant of the matrix.
    pub det: Scalar,
    /// Product of the lengths of the two axes.
    pub scale: Scalar,
    /// The smallest determinant accepted for that product: a twentieth of it.
    pub limit: Scalar,
}

impl CalibrationTerms {
    /// The pulses lasted a positive time, moved the target enough along both axes, and the axes
    /// are far enough from parallel.
    pub open spec fn usable(&self, millis: Scalar) -> bool {
        let least = Scalar { bits: MIN_CALIB_PX_BITS };
        &&& millis.finite()
        &&& !millis.at_most(Scalar::zero())
        &&& !self.west_px.below(least)
        &&& !self.north_px.below(least)
        &&& self.det.finite()
        &&& !self.scale.at_most(Scalar::zero())
        &&& !self.det.absolute().below(self.limit)
    }
}

impl Calibration {
    /// Build the calibration from what a West pulse and a North pulse of `millis` measured.
    /// Returns `None` if the pulses didn't move the target enough, or the two axes are
    /// near-parallel (a matrix that cannot be inverted reliably).
    pub fn from_pulses(terms: &CalibrationTerms, millis: Scalar) -> (r: Option<Self>)
        ensures
            r is Some <==> terms.usable(millis),
            r matches Some(c) ==> c.m == terms.m,
    {
        let zero = Scalar::new_zero();
        let least = Scalar { bits: MIN_CALIB_PX_BITS };
        if !millis.is_finite() || millis.le(zero) {
            return None;
        }
        if terms.west_px.lt(least) || terms.north_px.lt(least) {
            return None;
        }
        if !terms.det.is_finite() || terms.scale.le(zero) || terms.det.abs().lt(terms.limit) {
            return None;
        }
        Some(Calibration { m: terms.m })
    }

    /// Construct directly from a column-major matrix.
    pub fn from_matrix(m: [Scalar; 4]) -> (c: Self)
        ensures
            c.m == m,
    {
        Calibration { m }
    }

    /// The column-major matrix.
    pub fn matrix(&self) -> (m: [Scalar; 4])
        ensures
            m == self.m,
    {
        self.m
    }
}

/// Which DEC corrections are issued. One direction alone avoids backlash reversals.
#[derive(Clone, Copy, Debug, PartialEq, Eq, Structural)]
pub enum DecMode {
    /// North and South.
    Auto,
    NorthOnly,
    SouthOnly,
}

/// Tunable guiding-loop parameters, adjustable live from the UI.
#[derive(Clone, Copy, Debug, PartialEq, Eq, Structural)]
pub struct GuideParams {
    /// Fraction of the full RA correction applied each cycle (0-1). Lower = gentler.
    pub ra_aggr: Scalar,
    /// Upper bound on any single RA pulse (ms), so a spurious huge error can't fling the mount.
    pub ra_max_pulse_ms: Scalar,
    /// RA deadband: don't correct while the error magnitude is below this many pixels.
    pub ra_min_move_px: Scalar,
    /// Fraction of the full DEC correction applied each cycle (0-1).
    pub dec_aggr: Scalar,
    /// Upper bound on any single DEC pulse (ms).
    pub dec_max_pulse_ms: Scalar,
    /// DEC deadband: don't correct while the error magnitude is below this many pixels.
    pub dec_min_move_px: Scalar,
    /// Which DEC directions are corrected.
    pub dec_mode: DecMode,
    /// Control-loop period (ms): how often corrections are issued, independent of frame rate.
    pub cadence_ms: u64,
}

impl GuideParams {
    /// Half of the correction, pulses up to 500 ms, half a pixel of deadband, once a second.
    pub open spec fn initial() -> GuideParams {
        GuideParams {
            ra_aggr: Scalar { bits: HALF_BITS },
            ra_max_pulse_ms: Scalar { bits: FIVE_HUNDRED_BITS },
            ra_min_move_px: Scalar { bits: HALF_BITS },
            dec_aggr: Scalar { bits: HALF_BITS },
            dec_max_pulse_ms: Scalar { bits: FIVE_HUNDRED_BITS },
            dec_min_move_px: Scalar { bits: HALF_BITS },
            dec_mode: DecMode::Auto,
            cadence_ms: 1000,
        }
    }
}

impl Default for GuideParams {
    fn default() -> (p: Self)
        ensures
            p == GuideParams::initial(),
    {
        GuideParams {
            ra_aggr: Scalar { bits: HALF_BITS },
            ra_max_pulse_ms: Scalar { bits: FIVE_HUNDRED_BITS },
            ra_min_move_px: Scalar { bits: HALF_BITS },
            dec_aggr: Scalar { bits: HALF_BITS },
            dec_max_pulse_ms: Scalar { bits: FIVE_HUNDRED_BITS },
            dec_min_move_px: Scalar { bits: HALF_BITS },
            dec_mode: DecMode::Auto,
            cadence_ms: 1000,
        }
    }
}

/// A pixel error and the pulses that would cancel it, worked out by the caller.
#[derive(Clone, Copy, Debug)]
pub struct Correction {
    /// The error in pixels, by sensor axis.
    pub error_px: (Scalar, Scalar),
    /// Length of the error in pixels.
    pub magnitude: Scalar,
    /// RA pulse after aggressiveness, in milliseconds: positive is West.
    pub ra_ms: Scalar,
    /// DEC pulse after aggressiveness, in milliseconds: positive is North.
    pub dec_ms: Scalar,
}

/// The pulse of one axis: its direction by sign, its length at most `max`; none below one
/// millisecond.
pub open spec fn axis_pulse_of(ms: Scalar, positive: Dir, negative: Dir, max: Scalar) -> Option<
    (Dir, Scalar),
> {
    let mag = ms.absolute().smaller(max);
    if mag.below(Scalar { bits: ONE_BITS }) {
        None
    } else {
        Some(
            (
                if Scalar::zero().at_most(ms) {
                    positive
                } else {
                    negative
                },
                mag,
            ),
        )
    }
}

/// Map a signed pulse duration to a direction + clamped magnitude, dropping sub-millisecond
/// pulses (too short for the mount to act on meaningfully).
pub fn axis_pulse(ms: Scalar, positive: Dir, negative: Dir, max: Scalar) -> (r: Option<
    (Dir, Scalar),
>)
    ensures
        r == axis_pulse_of(ms, positive, negative, max),
{
    let mag: Scalar = ms.abs().min(max);
    if mag.lt(Scalar { bits: ONE_BITS }) {
        return None;
    }
    let dir: Dir = if Scalar::new_zero().le(ms) {
        positive
    } else {
        negative
    };
    Some((dir, mag))
}

/// Whether a DEC mode lets a pulse in `dir` through.
pub open spec fn allowed(mode: DecMode, dir: Dir) -> bool {
    match mode {
        DecMode::Auto => true,
        DecMode::NorthOnly => dir == Dir::North,
        DecMode::SouthOnly => dir == Dir::South,
    }
}

/// The RA pulse of a correction, if there is one.
pub open spec fn ra_pulse(c: Correction, p: GuideParams) -> Option<(Dir, Scalar)> {
    if !c.error_px.0.finite() || !c.error_px.1.finite() || c.magnitude.below(p.ra_min_move_px) {
        None
    } else {
        axis_pulse_of(c.ra_ms, Dir::West, Dir::East, p.ra_max_pulse_ms)
    }
}

/// The DEC pulse of a correction, if there is one.
pub open spec fn dec_pulse(c: Correction, p: GuideParams) -> Option<(Dir, Scalar)> {
    if !c.error_px.0.finite() || !c.error_px.1.finite() || c.magnitude.below(p.dec_min_move_px) {
        None
    } else {
        match axis_pulse_of(c.dec_ms, Dir::North, Dir::South, p.dec_max_pulse_ms) {
            Some((dir, ms)) => if allowed(p.dec_mode, dir) {
                Some((dir, ms))
            } else {
                None
            },
            None => None,
        }
    }
}

/// The pulses of a correction, RA before DEC.
pub open spec fn pulses_of(c: Correction, p: GuideParams) -> Seq<(Dir, Scalar)> {
    let ra = match ra_pulse(c, p) {
        Some(pulse) => seq![pulse],
        None => Seq::empty(),
    };
    let dec = match dec_pulse(c, p) {
        Some(pulse) => seq![pulse],
        None => Seq::empty(),
    };
    ra + dec
}

/// Turn a correction into the pulse-guide commands to issue this cycle: honour the deadband, clamp
/// to the longest pulse, and map the signed RA/DEC durations onto cardinal [`Dir`]s (West/East for
/// RA, North/South for DEC). Returns at most one pulse per axis; an empty vec means "inside the
/// deadband, do nothing".
pub fn pulses_for(correction: &Correction, params: &GuideParams) -> (out: Vec<(Dir, Scalar)>)
    ensures
        out@ == pulses_of(*correction, *params),
{
    let mut out: Vec<(Dir, Scalar)> = Vec::new();
    if !correction.error_px.0.is_finite() || !correction.error_px.1.is_finite() {
        assert(out@ =~= pulses_of(*correction, *params));
        return out;
    }
    if !correction.magnitude.lt(params.ra_min_move_px) {
        match axis_pulse(correction.ra_ms, Dir::West, Dir::East, params.ra_max_pulse_ms) {
            Some(pulse) => out.push(pulse),
            None => {},
        }
    }
    if !correction.magnitude.lt(params.dec_min_move_px) {
        match axis_pulse(correction.dec_ms, Dir::North, Dir::South, params.dec_max_pulse_ms) {
            Some(pulse) => {
                let dir: Dir = pulse.0;
                let through: bool = match params.dec_mode {
                    DecMode::Auto => true,
                    DecMode::NorthOnly => dir == Dir::North,
                    DecMode::SouthOnly => dir == Dir::South,
                };
                if through {
                    out.push(pulse);
                }
            },
            None => {},
        }
    }
    assert(out@ =~= pulses_of(*correction, *params));
    out
}

/// No pulse is longer than the longest one allowed on its axis, and none is shorter than one
/// millisecond.
pub proof fn law_pulses_are_clamped(c: Correction, p: GuideParams, i: int)
    requires
        0 <= i < pulses_of(c, p).len(),
        !p.ra_max_pulse_ms.nan(),
        !p.dec_max_pulse_ms.nan(),
    ensures
        ({
            let (dir, ms) = pulses_of(c, p)[i];
            let max = if dir == Dir::West || dir == Dir::East {
                p.ra_max_pulse_ms
            } else {
                p.dec_max_pulse_ms
            };
            ms.at_most(max) && Scalar { bits: ONE_BITS }.at_most(ms)
        }),
{
}

/// A correction pulses each axis at most once, RA before DEC, and in the direction of its sign.
pub proof fn law_pulses_follow_the_sign(c: Correction, p: GuideParams)
    ensures
        pulses_of(c, p).len() <= 2,
        forall|i: int|
            0 <= i < pulses_of(c, p).len() ==> match (#[trigger] pulses_of(c, p)[i]).0 {
                Dir::West => i == 0 && Scalar::zero().at_most(c.ra_ms),
                Dir::East => i == 0 && !Scalar::zero().at_most(c.ra_ms),
                Dir::North => i == pulses_of(c, p).len() - 1 && Scalar::zero().at_most(c.dec_ms),
                Dir::South => i == pulses_of(c, p).len() - 1 && !Scalar::zero().at_most(c.dec_ms),
            },
{
}

/// Inside the deadband of both axes nothing is pulsed.
pub proof fn law_deadband_suppresses_pulses(c: Correction, p: GuideParams)
    requires
        c.magnitude.below(p.ra_min_move_px),
        c.magnitude.below(p.dec_min_move_px),
    ensures
        pulses_of(c, p) == Seq::<(Dir, Scalar)>::empty(),
{
    assert(pulses_of(c, p) =~= Seq::<(Dir, Scalar)>::empty());
}

/// A one-sided DEC mode never pulses the other way.
pub proof fn law_dec_mode_keeps_to_one_side(c: Correction, p: GuideParams, i: int)
    requires
        0 <= i < pulses_of(c, p).len(),
    ensures
        p.dec_mode == DecMode::NorthOnly ==> pulses_of(c, p)[i].0 != Dir::South,
        p.dec_mode == DecMode::SouthOnly ==> pulses_of(c, p)[i].0 != Dir::North,
{
}

/// Whether a calibration is accepted does not depend on the handedness of the image: measurements
/// that differ only in the sign of the determinant, as a mirrored image gives them, are both
/// accepted or both refused.
pub proof fn law_handedness_does_not_matter(
    t: CalibrationTerms,
    mirrored: CalibrationTerms,
    millis: Scalar,
)
    requires
        mirrored.det == t.det.negated(),
        mirrored.west_px == t.west_px,
        mirrored.north_px == t.north_px,
        mirrored.scale == t.scale,
        mirrored.limit == t.limit,
    ensures
        mirrored.usable(millis) == t.usable(millis),
{
}

/// A clear calibration is accepted: the pulses lasted, both moved the target by two pixels or more,
/// and the determinant, whatever its sign, reaches the limit.
pub proof fn law_clear_calibration_is_accepted(t: CalibrationTerms, millis: Scalar)
    requires
        millis.finite(),
        (Scalar { bits: 0 }).below(millis),
        (Scalar { bits: 0x4000_0000_0000_0000 }).at_most(t.west_px),
        (Scalar { bits: 0x4000_0000_0000_0000 }).at_most(t.north_px),
        t.det.finite(),
        (Scalar { bits: 0 }).below(t.scale),
        t.limit.at_most(t.det) || t.limit.at_most(t.det.negated()),
    ensures
        t.usable(millis),
{
}

/// A poor calibration is refused: no time passed, the target barely moved along an axis, or the
/// axes are near-parallel, so that the determinant lies inside the limit on both sides.
pub proof fn law_poor_calibration_is_refused(t: CalibrationTerms, millis: Scalar)
    requires
        ({
            let zero = Scalar { bits: 0 };
            let two = Scalar { bits: 0x4000_0000_0000_0000 };
            ||| !millis.finite()
            ||| millis.at_most(zero)
            ||| t.west_px.below(two)
            ||| t.north_px.below(two)
            ||| !t.det.finite()
            ||| t.scale.at_most(zero)
            ||| t.det.below(t.limit) && t.limit.negated().below(t.det)
        }),
    ensures
        !t.usable(millis),
{
}

/// An error outside the deadband is corrected on the RA axis: West where the duration is positive,
/// East where it is negative, as long as asked for but no longer than allowed. Nothing that the DEC
/// axis is set to matters.
pub proof fn law_ra_error_is_corrected(c: Correction, p: GuideParams)
    requires
        c.error_px.0.finite(),
        c.error_px.1.finite(),
        p.ra_min_move_px.at_most(c.magnitude),
        (Scalar { bits: 0x3FF0_0000_0000_0000 }).at_most(c.ra_ms.absolute()),
        (Scalar { bits: 0x3FF0_0000_0000_0000 }).at_most(p.ra_max_pulse_ms),
    ensures
        pulses_of(c, p).len() > 0,
        pulses_of(c, p)[0].0 == if (Scalar { bits: 0 }).at_most(c.ra_ms) {
            Dir::West
        } else {
            Dir::East
        },
        c.ra_ms.absolute().at_most(p.ra_max_pulse_ms) ==> pulses_of(c, p)[0].1
            == c.ra_ms.absolute(),
        p.ra_max_pulse_ms.below(c.ra_ms.absolute()) ==> pulses_of(c, p)[0].1 == p.ra_max_pulse_ms,
{
}

/// An error outside the deadband is corrected on the DEC axis, as the last pulse: North where the
/// duration is positive, South where it is negative, unless the mode keeps to the other side.
pub proof fn law_dec_error_is_corrected(c: Correction, p: GuideParams)
    requires
        c.error_px.0.finite(),
        c.error_px.1.finite(),
        p.dec_min_move_px.at_most(c.magnitude),
        (Scalar { bits: 0x3FF0_0000_0000_0000 }).at_most(c.dec_ms.absolute()),
        (Scalar { bits: 0x3FF0_0000_0000_0000 }).at_most(p.dec_max_pulse_ms),
        p.dec_mode == DecMode::NorthOnly ==> (Scalar { bits: 0 }).at_most(c.dec_ms),
        p.dec_mode == DecMode::SouthOnly ==> c.dec_ms.below(Scalar { bits: 0 }),
    ensures
        pulses_of(c, p).len() > 0,
        pulses_of(c, p).last().0 == if (Scalar { bits: 0 }).at_most(c.dec_ms) {
            Dir::North
        } else {
            Dir::South
        },
        c.dec_ms.absolute().at_most(p.dec_max_pulse_ms) ==> pulses_of(c, p).last().1
            == c.dec_ms.absolute(),
        p.dec_max_pulse_ms.below(c.dec_ms.absolute()) ==> pulses_of(c, p).last().1
            == p.dec_max_pulse_ms,
{
}

/// Each axis has its own deadband, neither is pulsed for less than a millisecond, and an error that
/// is no finite number moves nothing.
pub proof fn law_axes_rest_on_their_own(c: Correction, p: GuideParams, i: int)
    requires
        0 <= i < pulses_of(c, p).len(),
    ensures
        c.error_px.0.finite() && c.error_px.1.finite(),
        c.magnitude.below(p.ra_min_move_px) || c.ra_ms.absolute().below(
            Scalar { bits: 0x3FF0_0000_0000_0000 },
        ) && !p.ra_max_pulse_ms.nan() ==> pulses_of(c, p)[i].0 == Dir::North || pulses_of(c, p)[i].0
            == Dir::South,
        c.magnitude.below(p.dec_min_move_px) || c.dec_ms.absolute().below(
            Scalar { bits: 0x3FF0_0000_0000_0000 },
        ) && !p.dec_max_pulse_ms.nan() ==> pulses_of(c, p)[i].0 == Dir::West || pulses_of(c, p)[i].0
            == Dir::East,
{
}

/// The opposite duration is pulsed the opposite way for the same time.
pub proof fn law_opposite_durations_pulse_opposite_ways(
    ms: Scalar,
    positive: Dir,
    negative: Dir,
    max: Scalar,
)
    requires
        ms.bits % 0x8000_0000_0000_0000 != 0,
        !ms.nan(),
    ensures
        match (
            axis_pulse_of(ms, positive, negative, max),
            axis_pulse_of(ms.negated(), negative, positive, max),
        ) {
            (Some(a), Some(b)) => a == b,
            (None, None) => true,
            _ => false,
        },
        axis_pulse_of(ms, positive, negative, max) matches Some(a) ==> a.0 == if (Scalar {
            bits: 0,
        }).below(ms) {
            positive
        } else {
            negative
        },
{
}

/// Guiding begins gently: half of each correction, half a pixel of deadband and pulses of up to half
/// a second on both axes, once a second, in both DEC directions.
pub proof fn law_guiding_begins_gently()
    ensures
        ({
            let p = GuideParams::initial();
            let half = Scalar { bits: 0x3FE0_0000_0000_0000 };
            let five_hundred = Scalar { bits: 0x407F_4000_0000_0000 };
            &&& p.ra_aggr == half && p.dec_aggr == half
            &&& p.ra_min_move_px == half && p.dec_min_move_px == half
            &&& p.ra_max_pulse_ms == five_hundred && p.dec_max_pulse_ms == five_hundred
            &&& p.dec_mode == DecMode::Auto
            &&& p.cadence_ms == 1000
        }),
{
}

} // verus!
