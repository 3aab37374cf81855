//! The interval algebra: building intervals, converting them to and from
//! semitone counts, respelling, inversion and arithmetic.
//!
//! An interval couples a [`Quality`], a [`Size`] and an octave count.  The
//! validity lattice ties quality to size: major and minor belong to the
//! imperfect sizes (second, third, sixth, seventh), perfect belongs to
//! unison, fourth and fifth, and diminished or augmented qualities fit any
//! size.  Every constructor checks the lattice, the alteration degree and
//! the bounded semitone range, and fails instead of clamping or panicking.

use crate::error::{IntervalError, ResonataError};
use crate::quality::{
    quality_degree_ok, quality_offset, spec_invert_quality, AlterationType, ImperfectType, Quality,
};
use crate::size::{is_perfect_size, size_ordinal, size_semitones, spec_invert_size, Size};
use vstd::prelude::*;

verus! {

/// The semitone total of every interval lies between `-MAX_SEMITONES` and
/// `MAX_SEMITONES`.  The bound is chosen so that a total always fits an
/// `i8`, and an out-of-range total is an error, never a clamped value.
pub const MAX_SEMITONES: i32 = 127;

/// A musical interval: a quality, a diatonic size, and a number of
/// octaves beyond the simple span.  A simple interval has zero octaves; a
/// compound interval such as a major tenth carries one or more.
///
/// Intervals are immutable values.  Build them with [`Interval::build`],
/// with the factory methods such as [`Interval::major`] and
/// [`Interval::diminished`], or by parsing the textual notation.
#[derive(Clone, Copy, Debug)]
pub struct Interval {
    pub quality: Quality,
    pub size: Size,
    pub octaves: u8,
}

/// Whether the quality is legal on the size: major and minor demand an
/// imperfect size, perfect demands a perfect size, and the altered
/// qualities fit any size.
pub open spec fn lattice_ok(quality: Quality, size: Size) -> bool {
    match quality {
        Quality::Major | Quality::Minor => !is_perfect_size(size),
        Quality::Perfect => is_perfect_size(size),
        Quality::Diminished(_) | Quality::Augmented(_) => true,
    }
}

/// The signed semitone total of an interval: the semitones of its size,
/// plus the offset of its quality on that size, plus twelve per octave.
pub open spec fn interval_semitones(i: Interval) -> int {
    size_semitones(i.size) + quality_offset(i.quality, i.size) + 12 * (i.octaves as int)
}

/// Well-formedness of an interval: the quality fits the size, an altered
/// quality carries a degree between 1 and 127, and the semitone total
/// lies in the bounded range.  Exactly the values `build` can produce.
pub open spec fn interval_wf(i: Interval) -> bool {
    &&& lattice_ok(i.quality, i.size)
    &&& quality_degree_ok(i.quality)
    &&& -(MAX_SEMITONES as int) <= interval_semitones(i) <= MAX_SEMITONES as int
}

/// What `build` returns.  The checks run in order: the validity lattice,
/// then the alteration degree, then the bounded semitone range.
pub open spec fn spec_build(quality: Quality, size: Size, octaves: u8) -> Result<
    Interval,
    ResonataError,
> {
    if !lattice_ok(quality, size) {
        Err(ResonataError::IntervalError(IntervalError::InvalidInterval))
    } else if !quality_degree_ok(quality) {
        Err(
            ResonataError::IntervalError(
                IntervalError::InvalidAlterationDegree(
                    match quality {
                        Quality::Diminished(n) | Quality::Augmented(n) => n,
                        _ => 0,
                    },
                ),
            ),
        )
    } else {
        let i = Interval { quality, size, octaves };
        if -(MAX_SEMITONES as int) <= interval_semitones(i) <= MAX_SEMITONES as int {
            Ok(i)
        } else {
            Err(
                ResonataError::IntervalError(
                    IntervalError::InvalidIntervalSize(interval_semitones(i) as i16),
                ),
            )
        }
    }
}

/// The quality and size the twelve-entry chromatic table assigns to a
/// semitone remainder between 0 and 11.  The tritone remainder 6 is
/// spelled as an augmented fourth, never a diminished fifth.
pub open spec fn chromatic_table(rem: int) -> (Quality, Size) {
    if rem == 0 {
        (Quality::Perfect, Size::Unison)
    } else if rem == 1 {
        (Quality::Minor, Size::Second)
    } else if rem == 2 {
        (Quality::Major, Size::Second)
    } else if rem == 3 {
        (Quality::Minor, Size::Third)
    } else if rem == 4 {
        (Quality::Major, Size::Third)
    } else if rem == 5 {
        (Quality::Perfect, Size::Fourth)
    } else if rem == 6 {
        (Quality::Augmented(1), Size::Fourth)
    } else if rem == 7 {
        (Quality::Perfect, Size::Fifth)
    } else if rem == 8 {
        (Quality::Minor, Size::Sixth)
    } else if rem == 9 {
        (Quality::Major, Size::Sixth)
    } else if rem == 10 {
        (Quality::Minor, Size::Seventh)
    } else {
        (Quality::Major, Size::Seventh)
    }
}

/// The interval `from_semitones` assigns to a semitone count between 0
/// and 127: the table entry for `n % 12`, with `n / 12` octaves.
pub open spec fn spec_from_semitones(n: int) -> Interval {
    Interval {
        quality: chromatic_table(n % 12).0,
        size: chromatic_table(n % 12).1,
        octaves: (n / 12) as u8,
    }
}

/// The difference between an interval's semitone total and the semitones
/// of a respelling target: the offset the derived quality must produce.
pub open spec fn as_size_diff(x: Interval, size: Size, octaves: u8) -> int {
    interval_semitones(x) - (size_semitones(size) + 12 * (octaves as int))
}

/// The alteration degree a respelling difference demands on a size, for
/// differences that no unaltered quality covers.
pub open spec fn as_size_degree(diff: int, size: Size) -> int {
    if diff > 0 {
        diff
    } else if is_perfect_size(size) {
        -diff
    } else {
        -diff - 1
    }
}

/// What `as_size` returns when it succeeds: the unique interval of the
/// given size and octave count whose semitone total equals the input's.
/// `None` when the difference would demand an alteration degree outside
/// 1 through 127.
pub open spec fn spec_as_size(x: Interval, size: Size, octaves: u8) -> Option<Interval> {
    let diff = as_size_diff(x, size, octaves);
    if diff == 0 {
        Some(
            Interval {
                quality: if is_perfect_size(size) {
                    Quality::Perfect
                } else {
                    Quality::Major
                },
                size,
                octaves,
            },
        )
    } else if diff == -1 && !is_perfect_size(size) {
        Some(Interval { quality: Quality::Minor, size, octaves })
    } else {
        let d = as_size_degree(diff, size);
        if 1 <= d <= 127 {
            Some(
                Interval {
                    quality: if diff > 0 {
                        Quality::Augmented(d as u8)
                    } else {
                        Quality::Diminished(d as u8)
                    },
                    size,
                    octaves,
                },
            )
        } else {
            None
        }
    }
}

/// What `raised` and `lowered` return: the interval of the same size,
/// with zero octaves, whose quality offset is the old offset moved by
/// `amount`.  Fails when the needed alteration degree leaves 1 through
/// 127, or when the resulting simple total leaves the bounded range.
pub open spec fn spec_altered(x: Interval, amount: int) -> Result<Interval, ResonataError> {
    let off = quality_offset(x.quality, x.size) + amount;
    let stripped = Interval { quality: x.quality, size: x.size, octaves: 0 };
    if off == 0 {
        ok_if_in_range(
            Interval {
                quality: if is_perfect_size(x.size) {
                    Quality::Perfect
                } else {
                    Quality::Major
                },
                size: x.size,
                octaves: 0,
            },
        )
    } else if off == -1 && !is_perfect_size(x.size) {
        ok_if_in_range(Interval { quality: Quality::Minor, size: x.size, octaves: 0 })
    } else {
        let d = as_size_degree(off, x.size);
        if 1 <= d <= 127 {
            ok_if_in_range(
                Interval {
                    quality: if off > 0 {
                        Quality::Augmented(d as u8)
                    } else {
                        Quality::Diminished(d as u8)
                    },
                    size: x.size,
                    octaves: 0,
                },
            )
        } else {
            Err(ResonataError::IntervalError(IntervalError::InvalidIntervalQuality))
        }
    }
}

/// The interval itself when its total lies in the bounded range, and the
/// out-of-range error otherwise.
pub open spec fn ok_if_in_range(i: Interval) -> Result<Interval, ResonataError> {
    if -(MAX_SEMITONES as int) <= interval_semitones(i) <= MAX_SEMITONES as int {
        Ok(i)
    } else {
        Err(
            ResonataError::IntervalError(
                IntervalError::InvalidIntervalSize(interval_semitones(i) as i16),
            ),
        )
    }
}

/// The inversion of an interval: the size and quality invert, the octave
/// count is kept.
pub open spec fn spec_invert_interval(x: Interval) -> Interval {
    Interval {
        quality: spec_invert_quality(x.quality),
        size: spec_invert_size(x.size),
        octaves: x.octaves,
    }
}

/// Inversion of a musical value: the operation that turns a third into a
/// sixth and a sharp into a flat.  The interval type has an inherent
/// `invert` with a full contract; this trait names the operation for the
/// component values.
pub trait Invert {
    fn invert(self) -> Self;
}

impl Invert for Quality {
    fn invert(self) -> Quality {
        Quality::invert(&self)
    }
}

impl Invert for Size {
    fn invert(self) -> Size {
        Size::invert(&self)
    }
}

/// Transposition upward by an interval, for types that carry pitches.
/// The note, pitched-note and key types offer inherent `transposed_up`
/// methods with full contracts; the trait names the capability.
pub trait TransposeUp {
    type Output;

    fn transposed_up(&self, interval: Interval) -> Self::Output;
}

/// Transposition downward by an interval, for types that carry pitches.
/// The note, pitched-note and key types offer inherent `transposed_down`
/// methods with full contracts; the trait names the capability.
pub trait TransposeDown {
    type Output;

    fn transposed_down(&self, interval: Interval) -> Self::Output;
}

/// Builds a perfect interval: `Interval::perfect().fifth()`.
pub struct PerfectBuilder;

impl PerfectBuilder {
    /// A perfect unison.
    pub fn unison(self) -> (r: Interval)
        ensures
            r == (Interval { quality: Quality::Perfect, size: Size::Unison, octaves: 0u8 }),
            interval_wf(r),
    {
        Interval { quality: Quality::Perfect, size: Size::Unison, octaves: 0 }
    }

    /// A perfect fourth.
    pub fn fourth(self) -> (r: Interval)
        ensures
            r == (Interval { quality: Quality::Perfect, size: Size::Fourth, octaves: 0u8 }),
            interval_wf(r),
    {
        Interval { quality: Quality::Perfect, size: Size::Fourth, octaves: 0 }
    }

    /// A perfect fifth.
    pub fn fifth(self) -> (r: Interval)
        ensures
            r == (Interval { quality: Quality::Perfect, size: Size::Fifth, octaves: 0u8 }),
            interval_wf(r),
    {
        Interval { quality: Quality::Perfect, size: Size::Fifth, octaves: 0 }
    }
}

/// Builds a major or minor interval: `Interval::minor().third()`.
pub struct ImperfectBuilder {
    pub imperfect_type: ImperfectType,
}

impl ImperfectBuilder {
    /// The quality this builder assigns.
    pub open spec fn spec_quality(self) -> Quality {
        match self.imperfect_type {
            ImperfectType::Major => Quality::Major,
            ImperfectType::Minor => Quality::Minor,
        }
    }

    /// A major or minor second.
    pub fn second(self) -> (r: Interval)
        ensures
            r == (Interval { quality: self.spec_quality(), size: Size::Second, octaves: 0u8 }),
            interval_wf(r),
    {
        self.build(Size::Second)
    }

    /// A major or minor third.
    pub fn third(self) -> (r: Interval)
        ensures
            r == (Interval { quality: self.spec_quality(), size: Size::Third, octaves: 0u8 }),
            interval_wf(r),
    {
        self.build(Size::Third)
    }

    /// A major or minor sixth.
    pub fn sixth(self) -> (r: Interval)
        ensures
            r == (Interval { quality: self.spec_quality(), size: Size::Sixth, octaves: 0u8 }),
            interval_wf(r),
    {
        self.build(Size::Sixth)
    }

    /// A major or minor seventh.
    pub fn seventh(self) -> (r: Interval)
        ensures
            r == (Interval { quality: self.spec_quality(), size: Size::Seventh, octaves: 0u8 }),
            interval_wf(r),
    {
        self.build(Size::Seventh)
    }

    fn build(self, size: Size) -> (r: Interval)
        requires
            !is_perfect_size(size),
        ensures
            r == (Interval { quality: self.spec_quality(), size, octaves: 0u8 }),
            interval_wf(r),
    {
        let quality = match self.imperfect_type {
            ImperfectType::Major => Quality::Major,
            ImperfectType::Minor => Quality::Minor,
        };
        Interval { quality, size, octaves: 0 }
    }
}

/// Builds a diminished or augmented interval of a chosen degree:
/// `Interval::diminished(2).fifth()`.
pub struct AlteredBuilder {
    pub alteration_type: AlterationType,
    pub degree: u8,
}

impl AlteredBuilder {
    /// The quality this builder assigns.
    pub open spec fn spec_quality(self) -> Quality {
        match self.alteration_type {
            AlterationType::Diminished => Quality::Diminished(self.degree),
            AlterationType::Augmented => Quality::Augmented(self.degree),
        }
    }

    /// A diminished or augmented unison.
    pub fn unison(self) -> (r: Result<Interval, ResonataError>)
        ensures
            r == spec_build(self.spec_quality(), Size::Unison, 0u8),
    {
        self.build(Size::Unison)
    }

    /// A diminished or augmented second.
    pub fn second(self) -> (r: Result<Interval, ResonataError>)
        ensures
            r == spec_build(self.spec_quality(), Size::Second, 0u8),
    {
        self.build(Size::Second)
    }

    /// A diminished or augmented third.
    pub fn third(self) -> (r: Result<Interval, ResonataError>)
        ensures
            r == spec_build(self.spec_quality(), Size::Third, 0u8),
    {
        self.build(Size::Third)
    }

    /// A diminished or augmented fourth.
    pub fn fourth(self) -> (r: Result<Interval, ResonataError>)
        ensures
            r == spec_build(self.spec_quality(), Size::Fourth, 0u8),
    {
        self.build(Size::Fourth)
    }

    /// A diminished or augmented fifth.
    pub fn fifth(self) -> (r: Result<Interval, ResonataError>)
        ensures
            r == spec_build(self.spec_quality(), Size::Fifth, 0u8),
    {
        self.build(Size::Fifth)
    }

    /// A diminished or augmented sixth.
    pub fn sixth(self) -> (r: Result<Interval, ResonataError>)
        ensures
            r == spec_build(self.spec_quality(), Size::Sixth, 0u8),
    {
        self.build(Size::Sixth)
    }

    /// A diminished or augmented seventh.
    pub fn seventh(self) -> (r: Result<Interval, ResonataError>)
        ensures
            r == spec_build(self.spec_quality(), Size::Seventh, 0u8),
    {
        self.build(Size::Seventh)
    }

    fn build(self, size: Size) -> (r: Result<Interval, ResonataError>)
        ensures
            r == spec_build(self.spec_quality(), size, 0u8),
    {
        let quality = match self.alteration_type {
            AlterationType::Diminished => Quality::Diminished(self.degree),
            AlterationType::Augmented => Quality::Augmented(self.degree),
        };
        Interval::build(quality, size, 0)
    }
}

impl Interval {
    /// Whether the given quality and size respect the validity lattice:
    /// major and minor demand an imperfect size, perfect demands a
    /// perfect size, diminished and augmented fit any size.
    pub fn is_valid_interval(quality: Quality, size: Size) -> (r: bool)
        ensures
            r == lattice_ok(quality, size),
    {
        match size {
            Size::Unison | Size::Fourth | Size::Fifth => match quality {
                Quality::Major | Quality::Minor => false,
                _ => true,
            },
            Size::Second | Size::Third | Size::Sixth | Size::Seventh => match quality {
                Quality::Perfect => false,
                _ => true,
            },
        }
    }

    /// A perfect unison.
    pub fn unison() -> (r: Interval)
        ensures
            r == (Interval { quality: Quality::Perfect, size: Size::Unison, octaves: 0u8 }),
            interval_wf(r),
    {
        PerfectBuilder.unison()
    }

    /// A major second.
    pub fn second() -> (r: Interval)
        ensures
            r == (Interval { quality: Quality::Major, size: Size::Second, octaves: 0u8 }),
            interval_wf(r),
    {
        Interval::major().second()
    }

    /// A major third.
    pub fn third() -> (r: Interval)
        ensures
            r == (Interval { quality: Quality::Major, size: Size::Third, octaves: 0u8 }),
            interval_wf(r),
    {
        Interval::major().third()
    }

    /// A perfect fourth.
    pub fn fourth() -> (r: Interval)
        ensures
            r == (Interval { quality: Quality::Perfect, size: Size::Fourth, octaves: 0u8 }),
            interval_wf(r),
    {
        PerfectBuilder.fourth()
    }

    /// A perfect fifth.
    pub fn fifth() -> (r: Interval)
        ensures
            r == (Interval { quality: Quality::Perfect, size: Size::Fifth, octaves: 0u8 }),
            interval_wf(r),
    {
        PerfectBuilder.fifth()
    }

    /// A major sixth.
    pub fn sixth() -> (r: Interval)
        ensures
            r == (Interval { quality: Quality::Major, size: Size::Sixth, octaves: 0u8 }),
            interval_wf(r),
    {
        Interval::major().sixth()
    }

    /// A major seventh.
    pub fn seventh() -> (r: Interval)
        ensures
            r == (Interval { quality: Quality::Major, size: Size::Seventh, octaves: 0u8 }),
            interval_wf(r),
    {
        Interval::major().seventh()
    }

    /// A builder for major intervals.
    pub fn major() -> (r: ImperfectBuilder)
        ensures
            r.imperfect_type == ImperfectType::Major,
    {
        ImperfectBuilder { imperfect_type: ImperfectType::Major }
    }

    /// A builder for minor intervals.
    pub fn minor() -> (r: ImperfectBuilder)
        ensures
            r.imperfect_type == ImperfectType::Minor,
    {
        ImperfectBuilder { imperfect_type: ImperfectType::Minor }
    }

    /// A builder for perfect intervals.
    pub fn perfect() -> PerfectBuilder {
        PerfectBuilder
    }

    /// A builder for diminished intervals of the given degree.
    pub fn diminished(degree: u8) -> (r: AlteredBuilder)
        ensures
            r == (AlteredBuilder { alteration_type: AlterationType::Diminished, degree }),
    {
        AlteredBuilder { alteration_type: AlterationType::Diminished, degree }
    }

    /// A builder for augmented intervals of the given degree.
    pub fn augmented(degree: u8) -> (r: AlteredBuilder)
        ensures
            r == (AlteredBuilder { alteration_type: AlterationType::Augmented, degree }),
    {
        AlteredBuilder { alteration_type: AlterationType::Augmented, degree }
    }

    /// Builds an interval from a quality, a size and an octave count.
    /// Fails with `InvalidInterval` when the pair violates the validity
    /// lattice, with `InvalidAlterationDegree` when an altered quality
    /// carries a degree of 0 or above 127, and with `InvalidIntervalSize`
    /// when the semitone total leaves the bounded range.
    pub fn build(quality: Quality, size: Size, octaves: u8) -> (r: Result<Interval, ResonataError>)
        ensures
            r == spec_build(quality, size, octaves),
            r matches Ok(i) ==> interval_wf(i) && i == (Interval { quality, size, octaves }),
    {
        if !Interval::is_valid_interval(quality, size) {
            return Err(ResonataError::IntervalError(IntervalError::InvalidInterval));
        }
        match quality {
            Quality::Diminished(n) | Quality::Augmented(n) => {
                if n < 1 || n > 127 {
                    return Err(
                        ResonataError::IntervalError(IntervalError::InvalidAlterationDegree(n)),
                    );
                }
            },
            _ => {},
        }
        let i = Interval { quality, size, octaves };
        let total = i.to_semitones();
        if total < -MAX_SEMITONES || total > MAX_SEMITONES {
            Err(ResonataError::IntervalError(IntervalError::InvalidIntervalSize(total as i16)))
        } else {
            Ok(i)
        }
    }

    /// The interval the chromatic table assigns to a semitone count: the
    /// table entry for `semitones % 12` with `semitones / 12` octaves.
    /// The supported range is 0 through 127; anything outside it fails
    /// with `InvalidIntervalSize`.  For every supported count `n`, the
    /// result's own semitone total is exactly `n`.
    pub fn from_semitones(semitones: i32) -> (r: Result<Interval, ResonataError>)
        ensures
            0 <= semitones <= MAX_SEMITONES ==> r == Ok::<Interval, ResonataError>(
                spec_from_semitones(semitones as int),
            ),
            r matches Ok(i) ==> interval_wf(i) && interval_semitones(i) == semitones,
            !(0 <= semitones <= MAX_SEMITONES) ==> (r matches Err(e) && e matches
                ResonataError::IntervalError(IntervalError::InvalidIntervalSize(_))),
            !(0 <= semitones <= MAX_SEMITONES) && i16::MIN <= semitones <= i16::MAX ==> r == Err::<
                Interval,
                ResonataError,
            >(ResonataError::IntervalError(IntervalError::InvalidIntervalSize(semitones as i16))),
            r is Err <==> !(0 <= semitones <= MAX_SEMITONES),
    {
        if semitones < 0 || semitones > MAX_SEMITONES {
            let clipped: i16 = if semitones < i16::MIN as i32 {
                i16::MIN
            } else if semitones > i16::MAX as i32 {
                i16::MAX
            } else {
                semitones as i16
            };
            return Err(ResonataError::IntervalError(IntervalError::InvalidIntervalSize(clipped)));
        }
        let octaves = (semitones / 12) as u8;
        let (quality, size) = match semitones % 12 {
            0 => (Quality::Perfect, Size::Unison),
            1 => (Quality::Minor, Size::Second),
            2 => (Quality::Major, Size::Second),
            3 => (Quality::Minor, Size::Third),
            4 => (Quality::Major, Size::Third),
            5 => (Quality::Perfect, Size::Fourth),
            6 => (Quality::Augmented(1), Size::Fourth),
            7 => (Quality::Perfect, Size::Fifth),
            8 => (Quality::Minor, Size::Sixth),
            9 => (Quality::Major, Size::Sixth),
            10 => (Quality::Minor, Size::Seventh),
            _ => (Quality::Major, Size::Seventh),
        };
        Ok(Interval { quality, size, octaves })
    }

    /// The semitone total of the interval as a plain machine integer.
    /// A major third spans 4, a perfect fifth one octave up spans 19, a
    /// diminished unison spans -1.
    pub fn to_semitones(&self) -> (r: i32)
        ensures
            r == interval_semitones(*self),
    {
        let base = self.size.to_semitones() as i32 + self.get_quality_offset();
        base + self.octaves as i32 * 12
    }

    /// The semitone total of the interval, narrowed to an `i8`; the
    /// well-formedness range guarantees it fits.
    pub fn semitones(&self) -> (r: i8)
        requires
            interval_wf(*self),
        ensures
            r == interval_semitones(*self),
    {
        self.to_semitones() as i8
    }

    /// The semitone offset the quality contributes on this interval's
    /// size: 0 for major and perfect, -1 for minor, the degree for
    /// augmented, and the negated degree (one more on imperfect sizes)
    /// for diminished.
    pub fn get_quality_offset(&self) -> (r: i32)
        ensures
            r == quality_offset(self.quality, self.size),
    {
        match self.quality {
            Quality::Perfect | Quality::Major => 0,
            Quality::Minor => -1,
            Quality::Augmented(n) => n as i32,
            Quality::Diminished(n) => match self.size {
                Size::Unison | Size::Fourth | Size::Fifth => -(n as i32),
                _ => -(n as i32) - 1,
            },
        }
    }

    /// The interval's quality.
    pub fn quality(&self) -> (r: Quality)
        ensures
            r == self.quality,
    {
        self.quality
    }

    /// The interval's size, ignoring its octaves.
    pub fn size(&self) -> (r: Size)
        ensures
            r == self.size,
    {
        self.size
    }

    /// The interval's octave count.
    pub fn octaves(&self) -> (r: u8)
        ensures
            r == self.octaves,
    {
        self.octaves
    }

    /// Adds the given number of octaves, keeping quality and size.  Fails
    /// with `InvalidIntervalSize` when the new total leaves the bounded
    /// range.
    pub fn compound(self, octaves: u8) -> (r: Result<Interval, ResonataError>)
        requires
            interval_wf(self),
        ensures
            interval_semitones(self) + 12 * octaves <= MAX_SEMITONES ==> (r matches Ok(i) && i == (
            Interval {
                quality: self.quality,
                size: self.size,
                octaves: (self.octaves + octaves) as u8,
            }) && interval_wf(i) && interval_semitones(i) == interval_semitones(self) + 12
                * octaves),
            interval_semitones(self) + 12 * octaves > MAX_SEMITONES ==> r == Err::<
                Interval,
                ResonataError,
            >(
                ResonataError::IntervalError(
                    IntervalError::InvalidIntervalSize(
                        (interval_semitones(self) + 12 * octaves) as i16,
                    ),
                ),
            ),
    {
        let total = self.to_semitones() + octaves as i32 * 12;
        if total > MAX_SEMITONES {
            Err(ResonataError::IntervalError(IntervalError::InvalidIntervalSize(total as i16)))
        } else {
            Ok(Interval { quality: self.quality, size: self.size, octaves: self.octaves + octaves })
        }
    }

    /// Adds the given number of octaves; a name for [`Interval::compound`].
    pub fn with_octaves(&self, octaves: u8) -> (r: Result<Interval, ResonataError>)
        requires
            interval_wf(*self),
        ensures
            r == self.compound_spec(octaves),
    {
        self.compound(octaves)
    }

    /// What `compound` and `with_octaves` return.
    pub open spec fn compound_spec(self, octaves: u8) -> Result<Interval, ResonataError> {
        if interval_semitones(self) + 12 * octaves <= MAX_SEMITONES as int {
            Ok(
                Interval {
                    quality: self.quality,
                    size: self.size,
                    octaves: (self.octaves + octaves) as u8,
                },
            )
        } else {
            Err(
                ResonataError::IntervalError(
                    IntervalError::InvalidIntervalSize(
                        (interval_semitones(self) + 12 * octaves) as i16,
                    ),
                ),
            )
        }
    }

    /// Re-expresses the interval with the given size and octave count,
    /// keeping its semitone total: the unique quality producing that
    /// total on the target size is derived, and the result is the
    /// respelled interval.  Fails with `InvalidAlterationDegree` when the
    /// difference would demand a degree outside 1 through 127.
    pub fn as_size(&self, size: Size, octaves: u8) -> (r: Result<Interval, ResonataError>)
        ensures
            spec_as_size(*self, size, octaves) matches Some(y) ==> r == Ok::<
                Interval,
                ResonataError,
            >(y),
            spec_as_size(*self, size, octaves) is None ==> (r matches Err(e) && e matches
                ResonataError::IntervalError(IntervalError::InvalidAlterationDegree(_))),
            spec_as_size(*self, size, octaves) is None && 0 <= as_size_degree(
                as_size_diff(*self, size, octaves),
                size,
            ) <= 255 ==> r == Err::<Interval, ResonataError>(
                ResonataError::IntervalError(
                    IntervalError::InvalidAlterationDegree(
                        as_size_degree(as_size_diff(*self, size, octaves), size) as u8,
                    ),
                ),
            ),
    {
        let target = size.to_semitones() as i32 + 12 * octaves as i32;
        let diff = self.to_semitones() - target;
        if diff == 0 {
            let quality = if size.is_perfect() {
                Quality::Perfect
            } else {
                Quality::Major
            };
            return Ok(Interval { quality, size, octaves });
        }
        if diff == -1 && !size.is_perfect() {
            return Ok(Interval { quality: Quality::Minor, size, octaves });
        }
        let d = if diff > 0 {
            diff
        } else if size.is_perfect() {
            -diff
        } else {
            -diff - 1
        };
        if d < 1 || d > 127 {
            let clipped: u8 = if d < 0 {
                0
            } else if d > 255 {
                255
            } else {
                d as u8
            };
            return Err(
                ResonataError::IntervalError(IntervalError::InvalidAlterationDegree(clipped)),
            );
        }
        let quality = if diff > 0 {
            Quality::Augmented(d as u8)
        } else {
            Quality::Diminished(d as u8)
        };
        Ok(Interval { quality, size, octaves })
    }

    /// Raises the quality of the interval by the given number of
    /// semitones, keeping the size and dropping the octaves: a raised
    /// result spans the simple part's semitones plus the count.  Counts
    /// above the largest alteration degree are excluded.
    pub fn raised(self, semitones: u8) -> (r: Result<Interval, ResonataError>)
        requires
            semitones <= 127,
        ensures
            r == spec_altered(self, semitones as int),
            r matches Ok(y) ==> (y.size == self.size && y.octaves == 0 && interval_semitones(y)
                == interval_semitones(self) - 12 * (self.octaves as int) + semitones),
    {
        self.altered(semitones as i32)
    }

    /// Lowers the quality of the interval by the given number of
    /// semitones, keeping the size and dropping the octaves: a lowered
    /// result spans the simple part's semitones less the count.  Counts
    /// above the largest alteration degree are excluded.
    pub fn lowered(self, semitones: u8) -> (r: Result<Interval, ResonataError>)
        requires
            semitones <= 127,
        ensures
            r == spec_altered(self, -(semitones as int)),
            r matches Ok(y) ==> (y.size == self.size && y.octaves == 0 && interval_semitones(y)
                == interval_semitones(self) - 12 * (self.octaves as int) - semitones),
    {
        self.altered(-(semitones as i32))
    }

    fn altered(self, amount: i32) -> (r: Result<Interval, ResonataError>)
        requires
            -256 <= amount <= 256,
        ensures
            r == spec_altered(self, amount as int),
    {
        let off = self.get_quality_offset() + amount;
        let quality: Quality = if off == 0 {
            if self.size.is_perfect() {
                Quality::Perfect
            } else {
                Quality::Major
            }
        } else if off == -1 && !self.size.is_perfect() {
            Quality::Minor
        } else {
            let d = if off > 0 {
                off
            } else if self.size.is_perfect() {
                -off
            } else {
                -off - 1
            };
            if d < 1 || d > 127 {
                return Err(ResonataError::IntervalError(IntervalError::InvalidIntervalQuality));
            }
            if off > 0 {
                Quality::Augmented(d as u8)
            } else {
                Quality::Diminished(d as u8)
            }
        };
        let i = Interval { quality, size: self.size, octaves: 0 };
        let total = i.to_semitones();
        if total < -MAX_SEMITONES || total > MAX_SEMITONES {
            Err(ResonataError::IntervalError(IntervalError::InvalidIntervalSize(total as i16)))
        } else {
            Ok(i)
        }
    }

    /// Inverts the interval: the size and the quality invert, the octave
    /// count is kept.  A major second inverts to a minor seventh.  The
    /// input must be well formed, and extreme alteration degrees whose
    /// inversion would leave the bounded range are excluded.
    pub fn invert(self) -> (r: Interval)
        requires
            interval_wf(self),
            -(MAX_SEMITONES as int) <= interval_semitones(spec_invert_interval(self))
                <= MAX_SEMITONES as int,
        ensures
            r == spec_invert_interval(self),
            interval_wf(r),
    {
        Interval {
            quality: Quality::invert(&self.quality),
            size: Size::invert(&self.size),
            octaves: self.octaves,
        }
    }

    /// The diatonic step count of the interval, starting from 0: the size
    /// ordinal plus seven per octave.  A major third spans 2 steps, a
    /// minor ninth spans 8.
    pub fn to_diatonic_steps(&self) -> (r: i32)
        ensures
            r == size_ordinal(self.size) + 7 * (self.octaves as int),
    {
        self.size.ordinal() as i32 + self.octaves as i32 * 7
    }

    /// The sum of two intervals as pitch distances: the semitone totals
    /// are added and the result is respelled by the chromatic table.
    /// Fails with `InvalidIntervalSize` when the sum leaves 0 through 127.
    pub fn plus(&self, other: &Interval) -> (r: Result<Interval, ResonataError>)
        requires
            interval_wf(*self),
            interval_wf(*other),
        ensures
            0 <= interval_semitones(*self) + interval_semitones(*other) <= MAX_SEMITONES ==> r
                == Ok::<Interval, ResonataError>(
                spec_from_semitones(interval_semitones(*self) + interval_semitones(*other)),
            ),
            !(0 <= interval_semitones(*self) + interval_semitones(*other) <= MAX_SEMITONES) ==> r
                == Err::<Interval, ResonataError>(
                ResonataError::IntervalError(
                    IntervalError::InvalidIntervalSize(
                        (interval_semitones(*self) + interval_semitones(*other)) as i16,
                    ),
                ),
            ),
    {
        Interval::from_semitones(self.to_semitones() + other.to_semitones())
    }

    /// The difference of two intervals as pitch distances: the semitone
    /// totals are subtracted and the result is respelled by the chromatic
    /// table.  Fails with `InvalidIntervalSize` when the difference is
    /// negative or above 127.
    pub fn minus(&self, other: &Interval) -> (r: Result<Interval, ResonataError>)
        requires
            interval_wf(*self),
            interval_wf(*other),
        ensures
            0 <= interval_semitones(*self) - interval_semitones(*other) <= MAX_SEMITONES ==> r
                == Ok::<Interval, ResonataError>(
                spec_from_semitones(interval_semitones(*self) - interval_semitones(*other)),
            ),
            !(0 <= interval_semitones(*self) - interval_semitones(*other) <= MAX_SEMITONES) ==> r
                == Err::<Interval, ResonataError>(
                ResonataError::IntervalError(
                    IntervalError::InvalidIntervalSize(
                        (interval_semitones(*self) - interval_semitones(*other)) as i16,
                    ),
                ),
            ),
    {
        Interval::from_semitones(self.to_semitones() - other.to_semitones())
    }
}

impl PartialEq for Interval {
    /// Intervals compare by semitone total, so differently spelled
    /// intervals of the same pitch distance, such as an augmented fourth
    /// and a diminished fifth, are equal.
    fn eq(&self, other: &Interval) -> (r: bool) {
        self.to_semitones() == other.to_semitones()
    }
}

impl vstd::std_specs::cmp::PartialEqSpecImpl for Interval {
    open spec fn obeys_eq_spec() -> bool {
        true
    }

    open spec fn eq_spec(&self, other: &Interval) -> bool {
        interval_semitones(*self) == interval_semitones(*other)
    }
}

impl Eq for Interval {

}

impl PartialOrd for Interval {
    /// Intervals order by semitone total.
    fn partial_cmp(&self, other: &Interval) -> (r: Option<core::cmp::Ordering>) {
        let a = self.to_semitones();
        let b = other.to_semitones();
        if a < b {
            Some(core::cmp::Ordering::Less)
        } else if a == b {
            Some(core::cmp::Ordering::Equal)
        } else {
            Some(core::cmp::Ordering::Greater)
        }
    }
}

impl vstd::std_specs::cmp::PartialOrdSpecImpl for Interval {
    open spec fn obeys_partial_cmp_spec() -> bool {
        true
    }

    open spec fn partial_cmp_spec(&self, other: &Interval) -> Option<core::cmp::Ordering> {
        if interval_semitones(*self) < interval_semitones(*other) {
            Some(core::cmp::Ordering::Less)
        } else if interval_semitones(*self) == interval_semitones(*other) {
            Some(core::cmp::Ordering::Equal)
        } else {
            Some(core::cmp::Ordering::Greater)
        }
    }
}

/// The round-trip law of the semitone codec: for every semitone count in
/// the supported range 0 through 127, the interval the chromatic table
/// assigns is well formed and its semitone total is that count, so
/// `from_semitones(n)` followed by `to_semitones` gives back `n`.
pub proof fn lemma_from_semitones_round_trip(n: int)
    requires
        0 <= n <= MAX_SEMITONES as int,
    ensures
        interval_wf(spec_from_semitones(n)),
        interval_semitones(spec_from_semitones(n)) == n,
{
    assert(n == 12 * (n / 12) + n % 12) by (nonlinear_arith);
    assert(0 <= n % 12 < 12) by (nonlinear_arith)
        requires
            n >= 0,
    ;
    assert(0 <= n / 12 <= 10) by (nonlinear_arith)
        requires
            0 <= n <= 127,
    ;
}

/// An interval is well formed exactly when `build` accepts its own three
/// fields and gives it back: the well-formed values are the buildable
/// ones.
pub proof fn lemma_wf_iff_buildable(x: Interval)
    ensures
        interval_wf(x) <==> spec_build(x.quality, x.size, x.octaves) == Ok::<
            Interval,
            ResonataError,
        >(x),
{
}

/// The respelling identity law: respelling an interval to its own size
/// and octave count gives the interval back unchanged.
pub proof fn lemma_as_size_identity(x: Interval)
    requires
        interval_wf(x),
    ensures
        spec_as_size(x, x.size, x.octaves) == Some(x),
{
}

/// The respelling preservation law: whenever respelling succeeds, the
/// result is well formed, has the requested size and octave count, and
/// keeps the semitone total of the input exactly.
pub proof fn lemma_as_size_preserves_semitones(x: Interval, size: Size, octaves: u8, y: Interval)
    requires
        interval_wf(x),
        spec_as_size(x, size, octaves) == Some(y),
    ensures
        interval_wf(y),
        y.size == size,
        y.octaves == octaves,
        interval_semitones(y) == interval_semitones(x),
{
}

/// The inversion involution law: inverting a well-formed interval twice
/// gives the interval back.
pub proof fn lemma_invert_involution(x: Interval)
    requires
        interval_wf(x),
    ensures
        spec_invert_interval(spec_invert_interval(x)) == x,
{
}

} // verus!
