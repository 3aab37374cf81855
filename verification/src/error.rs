//! Error values returned by the fallible constructors of the library.
//!
//! Every constructor returns a failure result instead of panicking or
//! silently clamping: an out-of-range semitone total, a malformed token or a
//! quality that the validity lattice rejects all surface to the caller.

use vstd::prelude::*;

verus! {

/// An error produced while building, parsing or respelling an interval.
#[derive(Clone, Copy, Debug, PartialEq, Eq, Structural)]
pub enum IntervalError {
    /// A structurally well-formed (quality, size) pair violates the
    /// validity lattice: major or minor on a perfect-only size, or
    /// perfect on a major/minor size.
    InvalidInterval,
    /// A quality token is empty, mixed or otherwise malformed.
    InvalidIntervalQuality,
    /// A semitone total falls outside the supported range, or a numeric
    /// size token is zero.  Carries the offending value, truncated to
    /// the width the notation can carry.
    InvalidIntervalSize(i16),
    /// A notation token does not split into a quality run and a number.
    InvalidIntervalFormat,
    /// An alteration degree of zero, or one above the supported maximum.
    InvalidAlterationDegree(u8),
}

/// An error produced while building or parsing a note.
#[derive(Clone, Copy, Debug, PartialEq, Eq, Structural)]
pub enum NoteError {
    /// A note value could not be built.
    InvalidNote,
    /// A note token does not start with a letter A through G.
    InvalidNoteName,
    /// An accidental token holds a character outside the accidental set.
    InvalidAccidental,
    /// An accidental token mixes sharps with flats, or mixes a natural
    /// sign with other accidentals.
    InvalidAccidentalCombination,
    /// An octave outside the supported range of -1 through 9.
    InvalidOctave,
}

/// An error produced while building or parsing a key.
#[derive(Clone, Copy, Debug, PartialEq, Eq, Structural)]
pub enum KeyError {
    /// A key value could not be built.
    InvalidKey,
    /// A key token could not be read.
    InvalidKeyFormat,
    /// The same letter was given two accidentals.
    DuplicatePitch,
}

/// An error produced while building or parsing a scale.
#[derive(Clone, Copy, Debug, PartialEq, Eq, Structural)]
pub enum ScaleError {
    /// A scale token is neither a step list nor a note list.
    InvalidScale,
    /// A scale operation needs a root note and none was given.
    NoRootSpecified,
}

/// The error type shared by every fallible operation of the library.
#[derive(Clone, Copy, Debug, PartialEq, Eq, Structural)]
pub enum ResonataError {
    NoteError(NoteError),
    IntervalError(IntervalError),
    ScaleError(ScaleError),
    KeyError(KeyError),
}

impl ResonataError {
    /// A short, stable description of the error.
    pub fn message(&self) -> (r: &'static str)
        ensures
            r@ == self.spec_message(),
    {
        match self {
            ResonataError::NoteError(e) => match e {
                NoteError::InvalidNote => "invalid note",
                NoteError::InvalidNoteName => "invalid note name",
                NoteError::InvalidAccidental => "invalid accidental",
                NoteError::InvalidAccidentalCombination => "invalid accidental combination",
                NoteError::InvalidOctave => "invalid octave",
            },
            ResonataError::IntervalError(e) => match e {
                IntervalError::InvalidInterval => "invalid interval",
                IntervalError::InvalidIntervalQuality => "invalid interval quality",
                IntervalError::InvalidIntervalSize(_) => "invalid interval size",
                IntervalError::InvalidIntervalFormat => "invalid interval format",
                IntervalError::InvalidAlterationDegree(_) => "invalid alteration degree",
            },
            ResonataError::ScaleError(e) => match e {
                ScaleError::InvalidScale => "invalid scale",
                ScaleError::NoRootSpecified => "no root specified",
            },
            ResonataError::KeyError(e) => match e {
                KeyError::InvalidKey => "invalid key",
                KeyError::InvalidKeyFormat => "invalid key format",
                KeyError::DuplicatePitch => "duplicate pitch",
            },
        }
    }

    /// The text that `message` returns.
    pub open spec fn spec_message(self) -> Seq<char> {
        match self {
            ResonataError::NoteError(e) => match e {
                NoteError::InvalidNote => "invalid note"@,
                NoteError::InvalidNoteName => "invalid note name"@,
                NoteError::InvalidAccidental => "invalid accidental"@,
                NoteError::InvalidAccidentalCombination => "invalid accidental combination"@,
                NoteError::InvalidOctave => "invalid octave"@,
            },
            ResonataError::IntervalError(e) => match e {
                IntervalError::InvalidInterval => "invalid interval"@,
                IntervalError::InvalidIntervalQuality => "invalid interval quality"@,
                IntervalError::InvalidIntervalSize(_) => "invalid interval size"@,
                IntervalError::InvalidIntervalFormat => "invalid interval format"@,
                IntervalError::InvalidAlterationDegree(_) => "invalid alteration degree"@,
            },
            ResonataError::ScaleError(e) => match e {
                ScaleError::InvalidScale => "invalid scale"@,
                ScaleError::NoRootSpecified => "no root specified"@,
            },
            ResonataError::KeyError(e) => match e {
                KeyError::InvalidKey => "invalid key"@,
                KeyError::InvalidKeyFormat => "invalid key format"@,
                KeyError::DuplicatePitch => "duplicate pitch"@,
            },
        }
    }
}

} // verus!
