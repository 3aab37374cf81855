//! The quality of an interval, and the alteration values behind the
//! diminished and augmented qualities.

use crate::error::{IntervalError, ResonataError};
use crate::size::{is_perfect_size, Size};
use vstd::prelude::*;

verus! {

/// A musical interval quality: diminished, minor, major, perfect or
/// augmented.  The degree carried by the diminished and augmented
/// variants counts how often the interval is altered, so `Diminished(2)`
/// is a doubly diminished interval.  A degree of zero is meaningless and
/// is rejected by every constructor.
#[derive(Clone, Copy, Debug)]
pub enum Quality {
    Diminished(u8),
    Augmented(u8),
    Minor,
    Major,
    Perfect,
}

/// Whether a major or minor quality is encoded; the two qualities that
/// imperfect sizes carry when they are unaltered.
#[derive(Clone, Copy, Debug, PartialEq, Eq, Structural)]
pub enum ImperfectType {
    Major,
    Minor,
}

/// Whether an alteration diminishes or augments.
#[derive(Clone, Copy, Debug, PartialEq, Eq, Structural)]
pub enum AlterationType {
    Diminished,
    Augmented,
}

/// A degree of diminution or augmentation.  The degree is kept as a
/// positive count between 1 and 127; `degree()` reports it negated for a
/// diminished alteration.
#[derive(Clone, Copy, Debug, PartialEq, Eq, Structural)]
pub struct Alteration {
    pub alteration_type: AlterationType,
    pub degree: u8,
}

/// Whether an alteration degree is accepted: between 1 and 127.
pub open spec fn degree_ok(degree: u8) -> bool {
    1 <= degree <= 127
}

impl Alteration {
    /// The type of alteration this value carries.
    pub open spec fn spec_alteration_type(self) -> AlterationType {
        self.alteration_type
    }

    /// The positive degree this value carries.
    pub open spec fn spec_degree(self) -> u8 {
        self.degree
    }

    /// An augmented alteration of the given degree.
    pub fn augmented(degree: u8) -> (r: Result<Alteration, ResonataError>)
        ensures
            r == Alteration::spec_build(AlterationType::Augmented, degree),
    {
        Alteration::build(AlterationType::Augmented, degree)
    }

    /// A diminished alteration of the given degree.
    pub fn diminished(degree: u8) -> (r: Result<Alteration, ResonataError>)
        ensures
            r == Alteration::spec_build(AlterationType::Diminished, degree),
    {
        Alteration::build(AlterationType::Diminished, degree)
    }

    /// What `build` returns: the alteration when the degree lies between
    /// 1 and 127, and an error otherwise.
    pub open spec fn spec_build(alteration_type: AlterationType, degree: u8) -> Result<
        Alteration,
        ResonataError,
    > {
        if degree_ok(degree) {
            Ok(Alteration { alteration_type, degree })
        } else {
            Err(ResonataError::IntervalError(IntervalError::InvalidAlterationDegree(degree)))
        }
    }

    /// An alteration of the given type and degree.  The degree must lie
    /// between 1 and 127; anything else is rejected.
    pub fn build(alteration_type: AlterationType, degree: u8) -> (r: Result<
        Alteration,
        ResonataError,
    >)
        ensures
            r == Alteration::spec_build(alteration_type, degree),
    {
        if 1 <= degree && degree <= 127 {
            Ok(Alteration { alteration_type, degree })
        } else {
            Err(ResonataError::IntervalError(IntervalError::InvalidAlterationDegree(degree)))
        }
    }

    /// The signed degree of the alteration: negative for a diminished
    /// alteration, positive for an augmented one.
    pub fn degree(&self) -> (r: i8)
        requires
            degree_ok(self.spec_degree()),
        ensures
            self.spec_alteration_type() == AlterationType::Diminished ==> r as int == -(
            self.spec_degree() as int),
            self.spec_alteration_type() == AlterationType::Augmented ==> r as int
                == self.spec_degree() as int,
    {
        match self.alteration_type {
            AlterationType::Diminished => -(self.degree as i8),
            AlterationType::Augmented => self.degree as i8,
        }
    }

    /// The type of the alteration: diminished or augmented.
    pub fn alteration_type(&self) -> (r: AlterationType)
        ensures
            r == self.spec_alteration_type(),
    {
        self.alteration_type
    }

    /// Inverts the alteration, swapping diminished with augmented while
    /// keeping the degree.
    pub fn invert(self) -> (r: Alteration)
        ensures
            r.spec_degree() == self.spec_degree(),
            r.spec_alteration_type() == (match self.spec_alteration_type() {
                AlterationType::Diminished => AlterationType::Augmented,
                AlterationType::Augmented => AlterationType::Diminished,
            }),
    {
        match self.alteration_type {
            AlterationType::Diminished => Alteration {
                alteration_type: AlterationType::Augmented,
                degree: self.degree,
            },
            AlterationType::Augmented => Alteration {
                alteration_type: AlterationType::Diminished,
                degree: self.degree,
            },
        }
    }
}

/// The inversion of a quality: diminished and augmented swap, major and
/// minor swap, perfect stays perfect.  Degrees are kept.
pub open spec fn spec_invert_quality(q: Quality) -> Quality {
    match q {
        Quality::Diminished(n) => Quality::Augmented(n),
        Quality::Augmented(n) => Quality::Diminished(n),
        Quality::Minor => Quality::Major,
        Quality::Major => Quality::Minor,
        Quality::Perfect => Quality::Perfect,
    }
}

/// The size-blind semitone offset of a quality relative to major and
/// perfect: minor is -1, augmented by n is +n, and diminished by n is
/// -n - 1, the offset it has on an imperfect size.  Quality values
/// compare equal exactly when these offsets are equal.
pub open spec fn quality_i8_offset(q: Quality) -> int {
    match q {
        Quality::Diminished(n) => -(n as int) - 1,
        Quality::Augmented(n) => n as int,
        Quality::Minor => -1,
        Quality::Major => 0,
        Quality::Perfect => 0,
    }
}

/// The semitone offset a quality contributes on a given size, relative
/// to the major or perfect interval of that size.  Diminished intervals
/// sit one semitone lower on imperfect sizes than on perfect ones,
/// because minor already occupies the offset -1 there.
pub open spec fn quality_offset(q: Quality, s: Size) -> int {
    match q {
        Quality::Perfect | Quality::Major => 0,
        Quality::Minor => -1,
        Quality::Augmented(n) => n as int,
        Quality::Diminished(n) => if is_perfect_size(s) {
            -(n as int)
        } else {
            -(n as int) - 1
        },
    }
}

/// Whether a quality carries an acceptable degree: diminished and
/// augmented degrees lie between 1 and 127, the other qualities carry
/// none.
pub open spec fn quality_degree_ok(q: Quality) -> bool {
    match q {
        Quality::Diminished(n) | Quality::Augmented(n) => degree_ok(n),
        _ => true,
    }
}

impl Quality {
    /// Inverts the quality: diminished and augmented swap (keeping the
    /// degree), major and minor swap, perfect stays perfect.
    pub fn invert(&self) -> (r: Quality)
        ensures
            r == spec_invert_quality(*self),
    {
        match self {
            Quality::Diminished(n) => Quality::Augmented(*n),
            Quality::Augmented(n) => Quality::Diminished(*n),
            Quality::Minor => Quality::Major,
            Quality::Major => Quality::Minor,
            Quality::Perfect => Quality::Perfect,
        }
    }

    /// The size-blind semitone offset of the quality; see
    /// [`quality_i8_offset`].  Qualities are compared through this value.
    pub fn to_i8(&self) -> (r: i8)
        requires
            quality_degree_ok(*self),
        ensures
            r as int == quality_i8_offset(*self),
    {
        match self {
            Quality::Diminished(n) => -(*n as i8) - 1,
            Quality::Augmented(n) => *n as i8,
            Quality::Minor => -1,
            Quality::Major => 0,
            Quality::Perfect => 0,
        }
    }
}

impl PartialEq for Quality {
    /// Qualities compare by their size-blind offset, so `Major` equals
    /// `Perfect` and `Augmented(1)` differs from `Diminished(1)`.
    fn eq(&self, other: &Quality) -> (r: bool) {
        let a: i32 = match self {
            Quality::Diminished(n) => -(*n as i32) - 1,
            Quality::Augmented(n) => *n as i32,
            Quality::Minor => -1,
            Quality::Major => 0,
            Quality::Perfect => 0,
        };
        let b: i32 = match other {
            Quality::Diminished(n) => -(*n as i32) - 1,
            Quality::Augmented(n) => *n as i32,
            Quality::Minor => -1,
            Quality::Major => 0,
            Quality::Perfect => 0,
        };
        a == b
    }
}

impl vstd::std_specs::cmp::PartialEqSpecImpl for Quality {
    open spec fn obeys_eq_spec() -> bool {
        true
    }

    open spec fn eq_spec(&self, other: &Quality) -> bool {
        quality_i8_offset(*self) == quality_i8_offset(*other)
    }
}

impl Eq for Quality {

}

impl PartialOrd for Quality {
    /// Qualities order by their size-blind offset, diminished lowest and
    /// augmented highest.
    fn partial_cmp(&self, other: &Quality) -> (r: Option<core::cmp::Ordering>) {
        let a: i32 = match self {
            Quality::Diminished(n) => -(*n as i32) - 1,
            Quality::Augmented(n) => *n as i32,
            Quality::Minor => -1,
            Quality::Major => 0,
            Quality::Perfect => 0,
        };
        let b: i32 = match other {
            Quality::Diminished(n) => -(*n as i32) - 1,
            Quality::Augmented(n) => *n as i32,
            Quality::Minor => -1,
            Quality::Major => 0,
            Quality::Perfect => 0,
        };
        if a < b {
            Some(core::cmp::Ordering::Less)
        } else if a == b {
            Some(core::cmp::Ordering::Equal)
        } else {
            Some(core::cmp::Ordering::Greater)
        }
    }
}

impl vstd::std_specs::cmp::PartialOrdSpecImpl for Quality {
    open spec fn obeys_partial_cmp_spec() -> bool {
        true
    }

    open spec fn partial_cmp_spec(&self, other: &Quality) -> Option<core::cmp::Ordering> {
        if quality_i8_offset(*self) < quality_i8_offset(*other) {
            Some(core::cmp::Ordering::Less)
        } else if quality_i8_offset(*self) == quality_i8_offset(*other) {
            Some(core::cmp::Ordering::Equal)
        } else {
            Some(core::cmp::Ordering::Greater)
        }
    }
}

} // verus!
