//! Notes: letter names, accidentals, and pitched notes with an octave.
//!
//! The interval algebra consumes two numeric projections of a note: its
//! chromatic scale degree (signed semitone offset from C) and its diatonic
//! letter position.  The note-interval bridge reconciles a chromatic
//! distance with a letter distance to produce a uniquely spelled interval.

use crate::error::{NoteError, ResonataError};
use crate::intervals::{
    as_size_degree, interval_semitones, interval_wf, Interval, MAX_SEMITONES,
};
use crate::quality::Quality;
use crate::size::{is_perfect_size, size_from_ordinal, size_ordinal, size_semitones, Size};
use vstd::math::abs;
use vstd::prelude::*;

verus! {

/// A musical accidental: a number of flats, a natural, or a number of
/// sharps.  `Flat(2)` is a double flat.
#[derive(Clone, Copy, Debug, PartialEq, Eq, Structural, PartialOrd, Ord)]
pub enum Accidental {
    Flat(u8),
    Natural,
    Sharp(u8),
}

/// A musical note letter, C through B.
#[derive(Clone, Copy, Debug, PartialEq, Eq, Structural, PartialOrd, Ord, Hash)]
pub enum NoteName {
    C,
    D,
    E,
    F,
    G,
    A,
    B,
}

/// A musical note: a letter name and an accidental, with no octave.  For
/// a note with an octave see [`PitchedNote`].
#[derive(Clone, Copy, Debug, PartialEq, Eq, Structural)]
pub struct Note {
    pub name: NoteName,
    pub accidental: Accidental,
}

/// A musical note with an octave, in the range C-1 through G9.
#[derive(Clone, Copy, Debug, PartialEq, Eq, Structural)]
pub struct PitchedNote {
    pub note: Note,
    pub octave: i8,
}

/// The signed semitone offset of an accidental: negative for flats,
/// positive for sharps.
pub open spec fn acc_semitones(a: Accidental) -> int {
    match a {
        Accidental::Flat(n) => -(n as int),
        Accidental::Natural => 0,
        Accidental::Sharp(n) => n as int,
    }
}

/// The accidental of a signed semitone offset, clamped to at most 127
/// flats or sharps.
pub open spec fn spec_acc_from_semitones(v: int) -> Accidental {
    if v == 0 {
        Accidental::Natural
    } else if v > 0 {
        Accidental::Sharp(if v > 127 { 127u8 } else { v as u8 })
    } else {
        Accidental::Flat(if v < -127 { 127u8 } else { (-v) as u8 })
    }
}

/// The ordinal of a letter: 0 for C through 6 for B.
pub open spec fn name_ordinal(n: NoteName) -> int {
    match n {
        NoteName::C => 0,
        NoteName::D => 1,
        NoteName::E => 2,
        NoteName::F => 3,
        NoteName::G => 4,
        NoteName::A => 5,
        NoteName::B => 6,
    }
}

/// The letter with the given ordinal, for ordinals 0 through 6.
pub open spec fn name_from_ordinal(v: int) -> NoteName {
    if v == 0 {
        NoteName::C
    } else if v == 1 {
        NoteName::D
    } else if v == 2 {
        NoteName::E
    } else if v == 3 {
        NoteName::F
    } else if v == 4 {
        NoteName::G
    } else if v == 5 {
        NoteName::A
    } else {
        NoteName::B
    }
}

/// The chromatic scale degree of a letter in the C major scale: C is 0,
/// D is 2, E is 4, F is 5, G is 7, A is 9, B is 11.
pub open spec fn name_degree(n: NoteName) -> int {
    match n {
        NoteName::C => 0,
        NoteName::D => 2,
        NoteName::E => 4,
        NoteName::F => 5,
        NoteName::G => 7,
        NoteName::A => 9,
        NoteName::B => 11,
    }
}

/// The letter owning a chromatic degree remainder: each black key
/// belongs to the white key below it.
pub open spec fn name_of_degree(rem: int) -> NoteName {
    if rem == 0 || rem == 1 {
        NoteName::C
    } else if rem == 2 || rem == 3 {
        NoteName::D
    } else if rem == 4 {
        NoteName::E
    } else if rem == 5 || rem == 6 {
        NoteName::F
    } else if rem == 7 || rem == 8 {
        NoteName::G
    } else if rem == 9 || rem == 10 {
        NoteName::A
    } else {
        NoteName::B
    }
}

/// The chromatic scale degree of a note: its letter's degree plus its
/// accidental's offset.  `Cb` has degree -1, `B#` has degree 12.
pub open spec fn note_degree(n: Note) -> int {
    name_degree(n.name) + acc_semitones(n.accidental)
}

/// The note a chromatic degree between 0 and 11 names: the owning letter
/// with a natural or single sharp accidental.
pub open spec fn spec_note_from_degree(rem: int) -> Note {
    Note {
        name: name_of_degree(rem),
        accidental: spec_acc_from_semitones(rem - name_degree(name_of_degree(rem))),
    }
}

/// The upward semitone distance from one note to another, lifted into
/// 0 through 11 for ordinary accidentals; extreme accidentals can push
/// it outside that range, and it is reported as computed.
pub open spec fn spec_semitones_to(a: Note, b: Note) -> int {
    let d = note_degree(b) - note_degree(a);
    if d < 0 {
        d + 12
    } else {
        d
    }
}

/// The smallest semitone distance between two notes: the upward distance
/// folded downward when it exceeds a tritone.
pub open spec fn spec_semitones_between(a: Note, b: Note) -> int {
    let s = spec_semitones_to(a, b);
    if s > 6 {
        abs(s - 12) as int
    } else {
        s
    }
}

/// The upward letter distance from one note's letter to another's, 0
/// through 6.
pub open spec fn letter_distance(a: NoteName, b: NoteName) -> int {
    let d = name_ordinal(b) - name_ordinal(a);
    if d < 0 {
        d + 7
    } else {
        d
    }
}

/// The interval from one note up to another: the semitone distance is
/// spelled on the size the letter distance forces.  The difference the
/// quality must cover.
pub open spec fn note_interval_diff(a: Note, b: Note) -> int {
    spec_semitones_to(a, b) - size_semitones(size_from_ordinal(letter_distance(a.name, b.name)))
}

/// The interval from one note up to another, when the semitone distance
/// lies in the supported range: the unique interval whose size matches
/// the letter distance and whose total matches the semitone distance.
pub open spec fn spec_note_interval_to(a: Note, b: Note) -> Interval {
    let size = size_from_ordinal(letter_distance(a.name, b.name));
    let diff = note_interval_diff(a, b);
    if diff == 0 {
        Interval {
            quality: if is_perfect_size(size) {
                Quality::Perfect
            } else {
                Quality::Major
            },
            size,
            octaves: 0,
        }
    } else if diff == -1 && !is_perfect_size(size) {
        Interval { quality: Quality::Minor, size, octaves: 0 }
    } else if diff > 0 {
        Interval { quality: Quality::Augmented(diff as u8), size, octaves: 0 }
    } else {
        Interval { quality: Quality::Diminished(as_size_degree(diff, size) as u8), size, octaves: 0 }
    }
}

/// One letter moved upward by a count of letters, wrapping within the
/// octave.
pub open spec fn letter_plus(n: NoteName, k: int) -> NoteName {
    name_from_ordinal((name_ordinal(n) + k) % 7)
}

/// The remainder of a semitone count within one octave, with the sign of
/// the count, as the machine's remainder gives it.
pub open spec fn trunc_mod_12(v: int) -> int {
    if v >= 0 {
        v % 12
    } else {
        -((-v) % 12)
    }
}

/// What transposing a note up by an interval yields: the letter moves by
/// the interval's size, and the accidental absorbs the difference
/// between the interval's semitones and the letter distance reached.
#[verifier::opaque]
pub open spec fn spec_note_transposed_up(n: Note, rhs: Interval) -> Note {
    let sem = trunc_mod_12(interval_semitones(rhs));
    let stepped = Note { name: letter_plus(n.name, size_ordinal(rhs.size)), accidental: n.accidental };
    let reached = trunc_mod_12(interval_semitones(spec_note_interval_to(n, stepped)));
    if sem != reached {
        Note {
            name: stepped.name,
            accidental: spec_acc_from_semitones(acc_semitones(n.accidental) + (sem - reached)),
        }
    } else {
        stepped
    }
}

/// What transposing a note down by an interval yields.
#[verifier::opaque]
pub open spec fn spec_note_transposed_down(n: Note, rhs: Interval) -> Note {
    let sem = trunc_mod_12(interval_semitones(rhs));
    let stepped = Note {
        name: letter_plus(n.name, 7 - size_ordinal(rhs.size)),
        accidental: n.accidental,
    };
    let reached = trunc_mod_12(interval_semitones(spec_note_interval_to(stepped, n)));
    if sem != reached {
        Note {
            name: stepped.name,
            accidental: spec_acc_from_semitones(acc_semitones(n.accidental) - (sem - reached)),
        }
    } else {
        stepped
    }
}

impl Accidental {
    /// The signed semitone offset of the accidental: `Flat(1)` is -1,
    /// `Natural` is 0, `Sharp(2)` is 2.
    pub fn to_semitones(&self) -> (r: i32)
        ensures
            r == acc_semitones(*self),
    {
        match self {
            Accidental::Flat(n) => -(*n as i32),
            Accidental::Natural => 0,
            Accidental::Sharp(n) => *n as i32,
        }
    }

    /// The accidental with the given signed semitone offset, clamped to
    /// at most 127 flats or sharps.
    pub fn from_semitones(semitones: i32) -> (r: Accidental)
        ensures
            r == spec_acc_from_semitones(semitones as int),
    {
        if semitones == 0 {
            Accidental::Natural
        } else if semitones > 0 {
            Accidental::Sharp(if semitones > 127 {
                127
            } else {
                semitones as u8
            })
        } else {
            Accidental::Flat(if semitones < -127 {
                127
            } else {
                (-semitones) as u8
            })
        }
    }

    /// The accidental moved by a signed number of semitones, clamped to
    /// at most 127 flats or sharps.  Only a move whose sum with the
    /// current offset leaves the machine's integer range is excluded.
    pub fn shifted(&self, delta: i32) -> (r: Accidental)
        requires
            i32::MIN <= acc_semitones(*self) + delta <= i32::MAX,
        ensures
            r == spec_acc_from_semitones(acc_semitones(*self) + delta),
    {
        Accidental::from_semitones(self.to_semitones() + delta)
    }
}

impl NoteName {
    /// The chromatic scale degree of the letter in the C major scale.
    pub fn to_chromatic_scale_degree(&self) -> (r: u8)
        ensures
            r == name_degree(*self),
    {
        match self {
            NoteName::C => 0,
            NoteName::D => 2,
            NoteName::E => 4,
            NoteName::F => 5,
            NoteName::G => 7,
            NoteName::A => 9,
            NoteName::B => 11,
        }
    }

    /// The letter owning a chromatic degree: the degree is reduced into
    /// one octave and each black key belongs to the white key below it.
    pub fn from_chromatic_scale_degree(number: u8) -> (r: NoteName)
        ensures
            r == name_of_degree(number as int % 12),
    {
        match number % 12 {
            0 | 1 => NoteName::C,
            2 | 3 => NoteName::D,
            4 => NoteName::E,
            5 | 6 => NoteName::F,
            7 | 8 => NoteName::G,
            9 | 10 => NoteName::A,
            _ => NoteName::B,
        }
    }

    /// The ordinal of the letter: 0 for C through 6 for B.
    pub fn ordinal(&self) -> (r: u8)
        ensures
            r == name_ordinal(*self),
    {
        match self {
            NoteName::C => 0,
            NoteName::D => 1,
            NoteName::E => 2,
            NoteName::F => 3,
            NoteName::G => 4,
            NoteName::A => 5,
            NoteName::B => 6,
        }
    }

    /// The letter with ordinal `|value| % 7`; a negative position is
    /// mirrored onto the ordinal of its magnitude.
    pub fn from_i32(value: i32) -> (r: NoteName)
        requires
            value != i32::MIN,
        ensures
            r == name_from_ordinal(abs(value as int) as int % 7),
    {
        let v: i32 = if value < 0 {
            -value
        } else {
            value
        };
        match v % 7 {
            0 => NoteName::C,
            1 => NoteName::D,
            2 => NoteName::E,
            3 => NoteName::F,
            4 => NoteName::G,
            5 => NoteName::A,
            _ => NoteName::B,
        }
    }

    /// Steps the letter to its successor, C after B, and returns the
    /// letter stepped to.
    pub fn next(&mut self) -> (r: Option<NoteName>)
        ensures
            *final(self) == letter_plus(*old(self), 1),
            r == Some(letter_plus(*old(self), 1)),
    {
        let stepped = match self {
            NoteName::C => NoteName::D,
            NoteName::D => NoteName::E,
            NoteName::E => NoteName::F,
            NoteName::F => NoteName::G,
            NoteName::G => NoteName::A,
            NoteName::A => NoteName::B,
            NoteName::B => NoteName::C,
        };
        *self = stepped;
        Some(stepped)
    }

    /// The letter `k` letters above this one, wrapping within the octave.
    pub fn stepped_up(&self, k: u8) -> (r: NoteName)
        requires
            k <= 7,
        ensures
            r == letter_plus(*self, k as int),
    {
        let v = (self.ordinal() + k) % 7;
        match v {
            0 => NoteName::C,
            1 => NoteName::D,
            2 => NoteName::E,
            3 => NoteName::F,
            4 => NoteName::G,
            5 => NoteName::A,
            _ => NoteName::B,
        }
    }
}

impl Note {
    /// A note from a letter name and an accidental.
    pub fn new(name: NoteName, accidental: Accidental) -> (r: Note)
        ensures
            r == (Note { name, accidental }),
    {
        Note { name, accidental }
    }

    /// A natural note from a letter name.
    pub fn from_note_name(name: NoteName) -> (r: Note)
        ensures
            r == (Note { name, accidental: Accidental::Natural }),
    {
        Note { name, accidental: Accidental::Natural }
    }

    /// The note's letter name.
    pub fn name(&self) -> (r: NoteName)
        ensures
            r == self.name,
    {
        self.name
    }

    /// The note's accidental.
    pub fn accidental(&self) -> (r: Accidental)
        ensures
            r == self.accidental,
    {
        self.accidental
    }

    /// The note placed in an octave; fails with `InvalidOctave` outside
    /// the range C-1 through G9.
    pub fn with_octave(&self, octave: i8) -> (r: Result<PitchedNote, ResonataError>)
        ensures
            r == spec_pnote_new(self.name, self.accidental, octave),
    {
        PitchedNote::new(self.name, self.accidental, octave)
    }

    /// The chromatic scale degree of the note: semitones from C, letter
    /// plus accidental.  `Cb` is -1 and `B##` is 13.
    pub fn to_chromatic_scale_degree(&self) -> (r: i32)
        ensures
            r == note_degree(*self),
    {
        self.name.to_chromatic_scale_degree() as i32 + self.accidental.to_semitones()
    }

    /// The note owning a chromatic scale degree, reduced into one
    /// octave: the owning letter with a natural or single sharp.
    pub fn from_chromatic_scale_degree(number: u8) -> (r: Note)
        ensures
            r == spec_note_from_degree(number as int % 12),
    {
        let rem = number % 12;
        let name = NoteName::from_chromatic_scale_degree(rem);
        let accidental = Accidental::from_semitones(
            rem as i32 - name.to_chromatic_scale_degree() as i32,
        );
        Note::new(name, accidental)
    }

    /// The semitone distance from this note up to the given note, lifted
    /// by an octave when the raw degree difference is negative.
    pub fn semitones_to(&self, other: &Note) -> (r: i32)
        ensures
            r == spec_semitones_to(*self, *other),
    {
        let semitones = other.to_chromatic_scale_degree() - self.to_chromatic_scale_degree();
        if semitones < 0 {
            semitones + 12
        } else {
            semitones
        }
    }

    /// The smallest semitone distance between this note and the given
    /// note.
    pub fn semitones_between(&self, other: &Note) -> (r: i32)
        ensures
            r == spec_semitones_between(*self, *other),
    {
        let semitones = self.semitones_to(other);
        if semitones > 6 {
            let d = semitones - 12;
            if d < 0 {
                -d
            } else {
                d
            }
        } else {
            semitones
        }
    }

    /// The note's enharmonic equivalent at the given letter distance:
    /// the letter moves by the distance and the accidental absorbs the
    /// pitch difference, downward for an upward move and upward for a
    /// downward one.
    pub fn to_enharmonic_equivalent(&self, dist: i32) -> (r: Note)
        ensures
            r == spec_enharmonic(*self, dist as int),
    {
        let m64: i64 = if dist >= 0 {
            dist as i64 % 7
        } else {
            -((-(dist as i64)) % 7)
        };
        let shifted_ord = (self.name.ordinal() as i32 + m64 as i32 + 7) % 7;
        let name = NoteName::from_i32(shifted_ord);
        let note = Note::new(name, self.accidental);
        let diff = self.semitones_between(&note);
        if dist > 0 {
            Note { name: note.name, accidental: note.accidental.shifted(-diff) }
        } else if dist < 0 {
            Note { name: note.name, accidental: note.accidental.shifted(diff) }
        } else {
            note
        }
    }

    /// The interval from this note up to the given note: the size is the
    /// one the letter distance forces, the quality the one that makes
    /// the semitone distance exact.  Extreme accidentals that push the
    /// semitone distance outside 0 through 127 are excluded.
    pub fn interval_to(&self, other: &Note) -> (r: Interval)
        requires
            0 <= spec_semitones_to(*self, *other) <= MAX_SEMITONES as int,
        ensures
            r == spec_note_interval_to(*self, *other),
            interval_wf(r),
            interval_semitones(r) == spec_semitones_to(*self, *other),
    {
        let c = self.semitones_to(other);
        let dl = {
            let d = other.name.ordinal() as i32 - self.name.ordinal() as i32;
            if d < 0 {
                d + 7
            } else {
                d
            }
        };
        let size = Size::from_u8(dl as u8);
        let diff = c - size.to_semitones() as i32;
        if diff == 0 {
            let quality = if size.is_perfect() {
                Quality::Perfect
            } else {
                Quality::Major
            };
            Interval { quality, size, octaves: 0 }
        } else if diff == -1 && !size.is_perfect() {
            Interval { quality: Quality::Minor, size, octaves: 0 }
        } else if diff > 0 {
            Interval { quality: Quality::Augmented(diff as u8), size, octaves: 0 }
        } else {
            let d = if size.is_perfect() {
                -diff
            } else {
                -diff - 1
            };
            Interval { quality: Quality::Diminished(d as u8), size, octaves: 0 }
        }
    }

    /// The note transposed up by an interval: the letter moves by the
    /// interval's size and the accidental absorbs the semitone
    /// difference, so the spelling follows the interval's own.
    pub fn transposed_up(&self, rhs: Interval) -> (r: Note)
        requires
            interval_wf(rhs),
        ensures
            r == spec_note_transposed_up(*self, rhs),
    {
        proof {
            reveal(spec_note_transposed_up);
        }
        let t = rhs.to_semitones();
        let sem = if t >= 0 {
            t % 12
        } else {
            -((-t) % 12)
        };
        let stepped = Note {
            name: self.name.stepped_up(rhs.size().ordinal()),
            accidental: self.accidental,
        };
        proof {
            lemma_same_accidental_interval(*self, stepped);
        }
        let reached_total = self.interval_to(&stepped).to_semitones();
        let reached = reached_total % 12;
        if sem != reached {
            Note { name: stepped.name, accidental: stepped.accidental.shifted(sem - reached) }
        } else {
            stepped
        }
    }

    /// The note transposed down by an interval: the letter moves down by
    /// the interval's size and the accidental absorbs the semitone
    /// difference.
    pub fn transposed_down(&self, rhs: Interval) -> (r: Note)
        requires
            interval_wf(rhs),
        ensures
            r == spec_note_transposed_down(*self, rhs),
    {
        proof {
            reveal(spec_note_transposed_down);
        }
        let t = rhs.to_semitones();
        let sem = if t >= 0 {
            t % 12
        } else {
            -((-t) % 12)
        };
        let stepped = Note {
            name: self.name.stepped_up(7 - rhs.size().ordinal()),
            accidental: self.accidental,
        };
        proof {
            lemma_same_accidental_interval(stepped, *self);
        }
        let reached_total = stepped.interval_to(self).to_semitones();
        let reached = reached_total % 12;
        if sem != reached {
            Note { name: stepped.name, accidental: stepped.accidental.shifted(-(sem - reached)) }
        } else {
            stepped
        }
    }
}

/// The note's enharmonic equivalent at a letter distance; see
/// [`Note::to_enharmonic_equivalent`].
pub open spec fn spec_enharmonic(n: Note, dist: int) -> Note {
    let stepped = Note {
        name: name_from_ordinal((name_ordinal(n.name) + trunc_mod_7(dist) + 7) % 7),
        accidental: n.accidental,
    };
    let diff = spec_semitones_between(n, stepped);
    if dist > 0 {
        Note {
            name: stepped.name,
            accidental: spec_acc_from_semitones(acc_semitones(n.accidental) - diff),
        }
    } else if dist < 0 {
        Note {
            name: stepped.name,
            accidental: spec_acc_from_semitones(acc_semitones(n.accidental) + diff),
        }
    } else {
        stepped
    }
}

/// The remainder of a letter count within one octave, with the sign of
/// the count, as the machine's remainder gives it.
pub open spec fn trunc_mod_7(v: int) -> int {
    if v >= 0 {
        v % 7
    } else {
        -((-v) % 7)
    }
}

/// Between two notes with the same accidental, the upward semitone
/// distance stays within 0 through 11, so the interval between them is
/// defined and simple.
pub proof fn lemma_same_accidental_interval(a: Note, b: Note)
    requires
        a.accidental == b.accidental,
    ensures
        0 <= spec_semitones_to(a, b) <= 11,
{
}

/// Whether an octave is acceptable for a note: -1 through 8 always, and
/// 9 only up to G, so that every pitch stays at or below G9.
pub open spec fn octave_ok(name: NoteName, accidental: Accidental, octave: i8) -> bool {
    if -1 <= octave <= 8 {
        true
    } else if octave == 9 {
        name_degree(name) + acc_semitones(accidental) <= 7
    } else {
        false
    }
}

/// What `PitchedNote::new` returns: the note in the octave when the
/// octave is acceptable, and `InvalidOctave` otherwise.
pub open spec fn spec_pnote_new(name: NoteName, accidental: Accidental, octave: i8) -> Result<
    PitchedNote,
    ResonataError,
> {
    if octave_ok(name, accidental, octave) {
        Ok(PitchedNote { note: Note { name, accidental }, octave })
    } else {
        Err(ResonataError::NoteError(NoteError::InvalidOctave))
    }
}

/// The MIDI-style number of a pitched note: its chromatic degree plus
/// twelve per octave above -1, so C-1 is 0 and C4 is 60.
pub open spec fn pnote_midi(p: PitchedNote) -> int {
    note_degree(p.note) + (p.octave as int + 1) * 12
}

/// The signed letter position of a pitched note: its letter ordinal plus
/// seven per octave.
pub open spec fn pnote_position(p: PitchedNote) -> int {
    name_ordinal(p.note.name) + 7 * (p.octave as int)
}

impl PitchedNote {
    /// A pitched note from a letter, an accidental and an octave; fails
    /// with `InvalidOctave` outside the range C-1 through G9.
    pub fn new(name: NoteName, accidental: Accidental, octave: i8) -> (r: Result<
        PitchedNote,
        ResonataError,
    >)
        ensures
            r == spec_pnote_new(name, accidental, octave),
    {
        let note = Note::new(name, accidental);
        if -1 <= octave && octave <= 8 {
            Ok(PitchedNote { note, octave })
        } else if octave == 9 && note.to_chromatic_scale_degree() <= 7 {
            Ok(PitchedNote { note, octave })
        } else {
            Err(ResonataError::NoteError(NoteError::InvalidOctave))
        }
    }

    /// A natural pitched note from a letter and an octave.
    pub fn build(name: NoteName, octave: i8) -> (r: Result<PitchedNote, ResonataError>)
        ensures
            r == spec_pnote_new(name, Accidental::Natural, octave),
    {
        Self::new(name, Accidental::Natural, octave)
    }

    /// The note's letter name.
    pub fn name(&self) -> (r: NoteName)
        ensures
            r == self.note.name,
    {
        self.note.name
    }

    /// The note's accidental.
    pub fn accidental(&self) -> (r: Accidental)
        ensures
            r == self.note.accidental,
    {
        self.note.accidental
    }

    /// The note's octave.
    pub fn octave(&self) -> (r: i8)
        ensures
            r == self.octave,
    {
        self.octave
    }

    /// The MIDI-style note number: semitones above C-1, so C4 is 60.
    /// Extreme accidentals that push the number outside a byte are
    /// excluded.
    pub fn to_midi_number(&self) -> (r: u8)
        requires
            0 <= pnote_midi(*self) <= 255,
        ensures
            r == pnote_midi(*self),
    {
        let degree = self.note.to_chromatic_scale_degree();
        let octave = self.octave as i32;
        (degree + (octave + 1) * 12) as u8
    }

    /// The pitched note of a MIDI-style number: the octave is the number
    /// divided by twelve less one, the note the remainder's natural or
    /// sharp spelling.  Numbers above G9 fail with `InvalidOctave`.
    pub fn from_midi_number(number: u8) -> (r: Result<PitchedNote, ResonataError>)
        ensures
            r == spec_from_midi(number),
            number <= 127 ==> (r matches Ok(p) && pnote_midi(p) == number),
    {
        let octave = (number / 12) as i8 - 1;
        let note = Note::from_chromatic_scale_degree(number % 12);
        PitchedNote::new(note.name, note.accidental, octave)
    }

    /// The signed semitone distance from this note to the given one,
    /// negative when the given note is lower.
    pub fn semitones_to(&self, other: &PitchedNote) -> (r: i32)
        requires
            0 <= pnote_midi(*self) <= 255,
            0 <= pnote_midi(*other) <= 255,
        ensures
            r == pnote_midi(*other) - pnote_midi(*self),
    {
        other.to_midi_number() as i32 - self.to_midi_number() as i32
    }

    /// The absolute semitone distance between this note and the given
    /// one.
    pub fn semitones_between(&self, other: &PitchedNote) -> (r: i32)
        requires
            0 <= pnote_midi(*self) <= 255,
            0 <= pnote_midi(*other) <= 255,
        ensures
            r == abs(pnote_midi(*other) - pnote_midi(*self)),
    {
        let d = self.semitones_to(other);
        if d < 0 {
            -d
        } else {
            d
        }
    }

    /// The signed letter distance from this note to the given one,
    /// negative when the given note's position is lower.
    pub fn diatonic_distance_to(&self, other: &PitchedNote) -> (r: i32)
        ensures
            r == pnote_position(*other) - pnote_position(*self),
    {
        let self_ord = self.note.name.ordinal() as i32;
        let other_ord = other.note.name.ordinal() as i32;
        other_ord - self_ord + 7 * (other.octave as i32 - self.octave as i32)
    }

    /// The note moved by a signed number of letter steps, keeping its
    /// accidental; the octave follows the letter across a single C
    /// crossing.  Fails with `InvalidOctave` when the move leaves the
    /// supported range.
    pub fn moved_by(&self, steps: i32) -> (r: Result<PitchedNote, ResonataError>)
        requires
            steps <= i32::MAX - 13,
        ensures
            r == spec_moved_by(*self, steps as int),
    {
        let position = self.note.name.ordinal() as i32 + steps;
        let mut octave = self.octave;
        if position < 0 {
            if octave == i8::MIN {
                return Err(ResonataError::NoteError(NoteError::InvalidOctave));
            }
            octave = octave - 1;
        } else if position > 6 {
            if octave == i8::MAX {
                return Err(ResonataError::NoteError(NoteError::InvalidOctave));
            }
            octave = octave + 1;
        }
        PitchedNote::new(NoteName::from_i32(7 + position), self.accidental(), octave)
    }

    /// The note's enharmonic equivalent at the given letter distance,
    /// the octave following the letter across a C crossing.  Fails with
    /// `InvalidOctave` when the move leaves the supported range.
    pub fn to_enharmonic_equivalent(&self, dist: i32) -> (r: Result<PitchedNote, ResonataError>)
        requires
            -1 <= self.octave <= 9,
        ensures
            r == spec_pn_enharmonic(*self, dist as int),
    {
        let equivalent = self.note.to_enharmonic_equivalent(dist);
        if dist > 0 && equivalent.name.ordinal() < self.note.name.ordinal() {
            equivalent.with_octave(self.octave + 1)
        } else if dist < 0 && equivalent.name.ordinal() > self.note.name.ordinal() {
            equivalent.with_octave(self.octave - 1)
        } else {
            equivalent.with_octave(self.octave)
        }
    }

    /// The interval between this note and the given one: the absolute
    /// letter distance fixes the size and octave count, and the absolute
    /// semitone distance fixes the quality, so the result's semitone
    /// total always equals `semitones_between`.  Pairs whose spelling
    /// would demand an alteration degree outside 1 through 127, or a
    /// total outside the bounded range, are excluded.
    pub fn interval_to(&self, other: &PitchedNote) -> (r: Interval)
        requires
            0 <= pnote_midi(*self) <= 255,
            0 <= pnote_midi(*other) <= 255,
            pn_interval_ok(*self, *other),
        ensures
            r == spec_pn_interval_to(*self, *other),
            interval_wf(r),
            interval_semitones(r) == abs(pnote_midi(*other) - pnote_midi(*self)),
    {
        let d = self.diatonic_distance_to(other);
        let dl = if d < 0 {
            -d
        } else {
            d
        };
        let c = self.semitones_between(other);
        let size = Size::from_u8((dl % 7) as u8);
        let octaves = (dl / 7) as u8;
        let target = size.to_semitones() as i32 + 12 * octaves as i32;
        let diff = c - target;
        if diff == 0 {
            let quality = if size.is_perfect() {
                Quality::Perfect
            } else {
                Quality::Major
            };
            Interval { quality, size, octaves }
        } else if diff == -1 && !size.is_perfect() {
            Interval { quality: Quality::Minor, size, octaves }
        } else if diff > 0 {
            Interval { quality: Quality::Augmented(diff as u8), size, octaves }
        } else {
            let deg = if size.is_perfect() {
                -diff
            } else {
                -diff - 1
            };
            Interval { quality: Quality::Diminished(deg as u8), size, octaves }
        }
    }

    /// The note transposed up by an interval: the letter position moves
    /// by the interval's diatonic steps and the accidental absorbs the
    /// semitone difference.  Moves whose intermediate values leave the
    /// supported ranges are excluded.
    pub fn transposed_up(&self, rhs: Interval) -> (r: Result<PitchedNote, ResonataError>)
        requires
            interval_wf(rhs),
            0 <= pnote_midi(*self) <= 255,
            pn_transpose_up_ok(*self, rhs),
        ensures
            r == spec_pn_transposed_up(*self, rhs),
    {
        let steps = rhs.to_diatonic_steps();
        let moved = match self.moved_by(steps) {
            Ok(p) => p,
            Err(e) => {
                return Err(e);
            },
        };
        let semitones = rhs.to_semitones();
        let diff = semitones - self.interval_to(&moved).to_semitones();
        Ok(
            PitchedNote {
                note: Note {
                    name: moved.note.name,
                    accidental: moved.note.accidental.shifted(diff),
                },
                octave: moved.octave,
            },
        )
    }

    /// The note transposed down by an interval: the letter position
    /// moves down by the interval's diatonic steps and the accidental
    /// absorbs the semitone difference.  Moves whose intermediate values
    /// leave the supported ranges are excluded.
    pub fn transposed_down(&self, rhs: Interval) -> (r: Result<PitchedNote, ResonataError>)
        requires
            interval_wf(rhs),
            0 <= pnote_midi(*self) <= 255,
            pn_transpose_down_ok(*self, rhs),
        ensures
            r == spec_pn_transposed_down(*self, rhs),
    {
        let steps = rhs.to_diatonic_steps();
        let moved = match self.moved_by(-steps) {
            Ok(p) => p,
            Err(e) => {
                return Err(e);
            },
        };
        let semitones = rhs.to_semitones();
        let diff = semitones - moved.interval_to(self).to_semitones();
        Ok(
            PitchedNote {
                note: Note {
                    name: moved.note.name,
                    accidental: moved.note.accidental.shifted(-diff),
                },
                octave: moved.octave,
            },
        )
    }
}

/// What `from_midi_number` returns.
pub open spec fn spec_from_midi(number: u8) -> Result<PitchedNote, ResonataError> {
    let n = spec_note_from_degree(number as int % 12);
    spec_pnote_new(n.name, n.accidental, (number as int / 12 - 1) as i8)
}

/// What `moved_by` returns; octaves at the very edge of the machine
/// range cannot move further and fail.
pub open spec fn spec_moved_by(p: PitchedNote, steps: int) -> Result<PitchedNote, ResonataError> {
    let position = name_ordinal(p.note.name) + steps;
    if position < 0 && p.octave == i8::MIN {
        Err(ResonataError::NoteError(NoteError::InvalidOctave))
    } else if position > 6 && p.octave == i8::MAX {
        Err(ResonataError::NoteError(NoteError::InvalidOctave))
    } else {
        let octave = if position < 0 {
            (p.octave - 1) as i8
        } else if position > 6 {
            (p.octave + 1) as i8
        } else {
            p.octave
        };
        let name = name_from_ordinal(abs(7 + position) as int % 7);
        spec_pnote_new(name, p.note.accidental, octave)
    }
}

/// What `to_enharmonic_equivalent` returns on a pitched note.
pub open spec fn spec_pn_enharmonic(p: PitchedNote, dist: int) -> Result<
    PitchedNote,
    ResonataError,
> {
    let e = spec_enharmonic(p.note, dist);
    if dist > 0 && name_ordinal(e.name) < name_ordinal(p.note.name) {
        spec_pnote_new(e.name, e.accidental, (p.octave + 1) as i8)
    } else if dist < 0 && name_ordinal(e.name) > name_ordinal(p.note.name) {
        spec_pnote_new(e.name, e.accidental, (p.octave - 1) as i8)
    } else {
        spec_pnote_new(e.name, e.accidental, p.octave)
    }
}

/// The distances `interval_to` measures between two pitched notes: the
/// absolute semitone distance and the absolute letter distance.
pub open spec fn pn_distances(a: PitchedNote, b: PitchedNote) -> (int, int) {
    (
        abs(pnote_midi(b) - pnote_midi(a)) as int,
        abs(pnote_position(b) - pnote_position(a)) as int,
    )
}

/// The quality difference `interval_to` must cover between two pitched
/// notes.
pub open spec fn pn_interval_diff(a: PitchedNote, b: PitchedNote) -> int {
    let (c, dl) = pn_distances(a, b);
    c - (size_semitones(size_from_ordinal(dl % 7)) + 12 * (dl / 7))
}

/// Whether the interval between two pitched notes is expressible: the
/// needed alteration degree lies in 1 through 127 and the total in the
/// bounded range.
pub open spec fn pn_interval_ok(a: PitchedNote, b: PitchedNote) -> bool {
    let (c, dl) = pn_distances(a, b);
    let size = size_from_ordinal(dl % 7);
    let diff = pn_interval_diff(a, b);
    &&& dl / 7 <= 255
    &&& (diff == 0 || (diff == -1 && !is_perfect_size(size)) || 1 <= as_size_degree(diff, size)
        <= 127)
    &&& c <= MAX_SEMITONES as int
}

/// What `interval_to` returns on pitched notes.
pub open spec fn spec_pn_interval_to(a: PitchedNote, b: PitchedNote) -> Interval {
    let (c, dl) = pn_distances(a, b);
    let size = size_from_ordinal(dl % 7);
    let octaves = (dl / 7) as u8;
    let diff = pn_interval_diff(a, b);
    if diff == 0 {
        Interval {
            quality: if is_perfect_size(size) {
                Quality::Perfect
            } else {
                Quality::Major
            },
            size,
            octaves,
        }
    } else if diff == -1 && !is_perfect_size(size) {
        Interval { quality: Quality::Minor, size, octaves }
    } else if diff > 0 {
        Interval { quality: Quality::Augmented(diff as u8), size, octaves }
    } else {
        Interval { quality: Quality::Diminished(as_size_degree(diff, size) as u8), size, octaves }
    }
}

/// Whether a pitched note can be transposed up by an interval: the
/// letter move must stay in range and the interval back from the moved
/// note must be expressible.
pub open spec fn pn_transpose_up_ok(p: PitchedNote, rhs: Interval) -> bool {
    let steps = size_ordinal(rhs.size) + 7 * (rhs.octaves as int);
    match spec_moved_by(p, steps) {
        Ok(moved) => 0 <= pnote_midi(moved) <= 255 && pn_interval_ok(p, moved),
        Err(_) => true,
    }
}

/// What `transposed_up` returns on a pitched note.
pub open spec fn spec_pn_transposed_up(p: PitchedNote, rhs: Interval) -> Result<
    PitchedNote,
    ResonataError,
> {
    let steps = size_ordinal(rhs.size) + 7 * (rhs.octaves as int);
    match spec_moved_by(p, steps) {
        Ok(moved) => {
            let diff = interval_semitones(rhs) - interval_semitones(spec_pn_interval_to(p, moved));
            Ok(
                PitchedNote {
                    note: Note {
                        name: moved.note.name,
                        accidental: spec_acc_from_semitones(
                            acc_semitones(moved.note.accidental) + diff,
                        ),
                    },
                    octave: moved.octave,
                },
            )
        },
        Err(e) => Err(e),
    }
}

/// Whether a pitched note can be transposed down by an interval.
pub open spec fn pn_transpose_down_ok(p: PitchedNote, rhs: Interval) -> bool {
    let steps = size_ordinal(rhs.size) + 7 * (rhs.octaves as int);
    match spec_moved_by(p, -steps) {
        Ok(moved) => 0 <= pnote_midi(moved) <= 255 && pn_interval_ok(moved, p),
        Err(_) => true,
    }
}

/// What `transposed_down` returns on a pitched note.
pub open spec fn spec_pn_transposed_down(p: PitchedNote, rhs: Interval) -> Result<
    PitchedNote,
    ResonataError,
> {
    let steps = size_ordinal(rhs.size) + 7 * (rhs.octaves as int);
    match spec_moved_by(p, -steps) {
        Ok(moved) => {
            let diff = interval_semitones(rhs) - interval_semitones(spec_pn_interval_to(moved, p));
            Ok(
                PitchedNote {
                    note: Note {
                        name: moved.note.name,
                        accidental: spec_acc_from_semitones(
                            acc_semitones(moved.note.accidental) - diff,
                        ),
                    },
                    octave: moved.octave,
                },
            )
        },
        Err(e) => Err(e),
    }
}

impl PartialOrd for PitchedNote {
    /// Pitched notes order by octave, then letter, then accidental
    /// offset.
    fn partial_cmp(&self, other: &PitchedNote) -> (r: Option<core::cmp::Ordering>) {
        if self.octave != other.octave {
            if self.octave < other.octave {
                Some(core::cmp::Ordering::Less)
            } else {
                Some(core::cmp::Ordering::Greater)
            }
        } else {
            let a = self.note.name.ordinal();
            let b = other.note.name.ordinal();
            if a < b {
                Some(core::cmp::Ordering::Less)
            } else if a > b {
                Some(core::cmp::Ordering::Greater)
            } else {
                let x = self.note.accidental.to_semitones();
                let y = other.note.accidental.to_semitones();
                if x < y {
                    Some(core::cmp::Ordering::Less)
                } else if x > y {
                    Some(core::cmp::Ordering::Greater)
                } else {
                    Some(core::cmp::Ordering::Equal)
                }
            }
        }
    }
}

impl vstd::std_specs::cmp::PartialOrdSpecImpl for PitchedNote {
    open spec fn obeys_partial_cmp_spec() -> bool {
        true
    }

    open spec fn partial_cmp_spec(&self, other: &PitchedNote) -> Option<core::cmp::Ordering> {
        if self.octave != other.octave {
            if self.octave < other.octave {
                Some(core::cmp::Ordering::Less)
            } else {
                Some(core::cmp::Ordering::Greater)
            }
        } else if name_ordinal(self.note.name) < name_ordinal(other.note.name) {
            Some(core::cmp::Ordering::Less)
        } else if name_ordinal(self.note.name) > name_ordinal(other.note.name) {
            Some(core::cmp::Ordering::Greater)
        } else if acc_semitones(self.note.accidental) < acc_semitones(other.note.accidental) {
            Some(core::cmp::Ordering::Less)
        } else if acc_semitones(self.note.accidental) > acc_semitones(other.note.accidental) {
            Some(core::cmp::Ordering::Greater)
        } else {
            Some(core::cmp::Ordering::Equal)
        }
    }
}

} // verus!
