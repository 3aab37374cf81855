//! The diatonic size of an interval: unison through seventh.

use vstd::math::abs;
use vstd::prelude::*;

verus! {

/// A musical interval size, the diatonic category of an interval,
/// independent of its quality.  Ordinals run from 0 (unison) to 6
/// (seventh); octaves and beyond are expressed by the octave count of an
/// interval, not by a size.
#[derive(Clone, Copy, Debug, PartialEq, Eq, Structural, PartialOrd, Ord, Hash)]
pub enum Size {
    Unison,
    Second,
    Third,
    Fourth,
    Fifth,
    Sixth,
    Seventh,
}

/// The ordinal of a size: 0 for a unison through 6 for a seventh.
pub open spec fn size_ordinal(s: Size) -> int {
    match s {
        Size::Unison => 0,
        Size::Second => 1,
        Size::Third => 2,
        Size::Fourth => 3,
        Size::Fifth => 4,
        Size::Sixth => 5,
        Size::Seventh => 6,
    }
}

/// The size with the given ordinal, for ordinals 0 through 6.
pub open spec fn size_from_ordinal(n: int) -> Size {
    if n == 0 {
        Size::Unison
    } else if n == 1 {
        Size::Second
    } else if n == 2 {
        Size::Third
    } else if n == 3 {
        Size::Fourth
    } else if n == 4 {
        Size::Fifth
    } else if n == 5 {
        Size::Sixth
    } else {
        Size::Seventh
    }
}

/// Whether the size takes the perfect quality (unison, fourth, fifth)
/// rather than major and minor (second, third, sixth, seventh).
pub open spec fn is_perfect_size(s: Size) -> bool {
    match s {
        Size::Unison | Size::Fourth | Size::Fifth => true,
        Size::Second | Size::Third | Size::Sixth | Size::Seventh => false,
    }
}

/// The semitone count of each size in the major scale anchored at its
/// root: 0, 2, 4, 5, 7, 9, 11.
pub open spec fn size_semitones(s: Size) -> int {
    match s {
        Size::Unison => 0,
        Size::Second => 2,
        Size::Third => 4,
        Size::Fourth => 5,
        Size::Fifth => 7,
        Size::Sixth => 9,
        Size::Seventh => 11,
    }
}

/// The inversion of a size: a unison stays a unison, and otherwise the
/// ordinals of a size and its inversion sum to 7.
pub open spec fn spec_invert_size(s: Size) -> Size {
    match s {
        Size::Unison => Size::Unison,
        Size::Second => Size::Seventh,
        Size::Third => Size::Sixth,
        Size::Fourth => Size::Fifth,
        Size::Fifth => Size::Fourth,
        Size::Sixth => Size::Third,
        Size::Seventh => Size::Second,
    }
}

impl Size {
    /// The number of semitones the size spans in the major scale, so a
    /// third spans 4 semitones and a fifth spans 7.
    pub fn to_semitones(&self) -> (r: u8)
        ensures
            r as int == size_semitones(*self),
    {
        match self {
            Size::Unison => 0,
            Size::Second => 2,
            Size::Third => 4,
            Size::Fourth => 5,
            Size::Fifth => 7,
            Size::Sixth => 9,
            Size::Seventh => 11,
        }
    }

    /// The ordinal of the size, 0 for a unison through 6 for a seventh.
    pub fn ordinal(&self) -> (r: u8)
        ensures
            r as int == size_ordinal(*self),
    {
        match self {
            Size::Unison => 0,
            Size::Second => 1,
            Size::Third => 2,
            Size::Fourth => 3,
            Size::Fifth => 4,
            Size::Sixth => 5,
            Size::Seventh => 6,
        }
    }

    /// Whether the size takes the perfect quality.
    pub fn is_perfect(&self) -> (r: bool)
        ensures
            r == is_perfect_size(*self),
    {
        match self {
            Size::Unison | Size::Fourth | Size::Fifth => true,
            _ => false,
        }
    }

    /// Inverts the size: a third inverted is a sixth.
    pub fn invert(&self) -> (r: Size)
        ensures
            r == spec_invert_size(*self),
    {
        match self {
            Size::Unison => Size::Unison,
            Size::Second => Size::Seventh,
            Size::Third => Size::Sixth,
            Size::Fourth => Size::Fifth,
            Size::Fifth => Size::Fourth,
            Size::Sixth => Size::Third,
            Size::Seventh => Size::Second,
        }
    }

    /// The size with ordinal `value % 7`, matching the reduction a
    /// compound size number goes through.
    pub fn from_u8(value: u8) -> (r: Size)
        ensures
            r == size_from_ordinal(value as int % 7),
    {
        match value % 7 {
            0 => Size::Unison,
            1 => Size::Second,
            2 => Size::Third,
            3 => Size::Fourth,
            4 => Size::Fifth,
            5 => Size::Sixth,
            _ => Size::Seventh,
        }
    }

    /// The size with ordinal `|value| % 7`; a negative letter distance is
    /// mirrored onto the same ordinal as its magnitude.
    pub fn from_i32(value: i32) -> (r: Size)
        requires
            value != i32::MIN,
        ensures
            r == size_from_ordinal(abs(value as int) as int % 7),
    {
        let v: i32 = if value < 0 {
            -value
        } else {
            value
        };
        match v % 7 {
            0 => Size::Unison,
            1 => Size::Second,
            2 => Size::Third,
            3 => Size::Fourth,
            4 => Size::Fifth,
            5 => Size::Sixth,
            _ => Size::Seventh,
        }
    }
}

} // verus!
