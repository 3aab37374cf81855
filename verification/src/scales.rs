//! Scales: ordered interval sequences above an implicit root, step and
//! note conversions, rotation, and matching against the known scale
//! types and their modes.
//!
//! A scale is a list of intervals measured from an implied unison root,
//! so a major scale is `[M2, M3, P4, P5, M6, M7, P8]`.  Scales compare by
//! their semitone sequences, so enharmonic respellings are equal.

use crate::error::{IntervalError, ResonataError, ScaleError};
use crate::intervals::{
    interval_semitones, interval_wf, spec_from_semitones, Interval, MAX_SEMITONES,
};
use crate::notation::{clip_to_i16, spec_parse_signed, spec_tokens};
use crate::notes::{note_degree, spec_note_transposed_up, Note};
use crate::notes_text::spec_parse_note;
use vstd::prelude::*;
use vstd::string::StringExecFns;

verus! {

/// The scale types the library knows by name.
#[derive(Clone, Copy, Debug, PartialEq, Eq, Structural)]
pub enum ScaleType {
    Major,
    Minor,
    HarmonicMinor,
    MelodicMinor,
    MajorPentatonic,
    MinorPentatonic,
    MinorBlues,
    MajorBlues,
    WholeTone,
    Diminished,
    Chromatic,
}

/// The modes of the major scale, by rotation.
#[derive(Clone, Copy, Debug, PartialEq, Eq, Structural)]
pub enum MajorMode {
    Ionian,
    Dorian,
    Phrygian,
    Lydian,
    Mixolydian,
    Aeolian,
    Locrian,
}

/// The modes of the harmonic minor scale, by rotation.
#[derive(Clone, Copy, Debug, PartialEq, Eq, Structural)]
pub enum HarmonicMinorMode {
    HarmonicMinorRoot,
    LocrianNat6,
    IonianAugmented,
    DorianSharp4,
    PhrygianDominant,
    LydianSharp2,
    SuperLocrian,
}

/// The modes of the melodic minor scale, by rotation.
#[derive(Clone, Copy, Debug, PartialEq, Eq, Structural)]
pub enum MelodicMinorMode {
    MelodicMinorRoot,
    DorianFlat2,
    LydianAugmented,
    LydianDominant,
    AeolianDominant,
    HalfDiminished,
    Altered,
}

/// A known scale type or a mode of one.
#[derive(Clone, Copy, Debug, PartialEq, Eq, Structural)]
pub enum ScaleEnumType {
    ScaleType(ScaleType),
    MajorMode(MajorMode),
    HarmonicMinorMode(HarmonicMinorMode),
    MelodicMinorMode(MelodicMinorMode),
}

impl From<ScaleType> for ScaleEnumType {
    fn from(scale_type: ScaleType) -> (r: ScaleEnumType) {
        ScaleEnumType::ScaleType(scale_type)
    }
}

impl vstd::std_specs::convert::FromSpecImpl<ScaleType> for ScaleEnumType {
    open spec fn obeys_from_spec() -> bool {
        true
    }

    open spec fn from_spec(t: ScaleType) -> ScaleEnumType {
        ScaleEnumType::ScaleType(t)
    }
}

impl From<MajorMode> for ScaleEnumType {
    fn from(mode: MajorMode) -> (r: ScaleEnumType) {
        ScaleEnumType::MajorMode(mode)
    }
}

impl vstd::std_specs::convert::FromSpecImpl<MajorMode> for ScaleEnumType {
    open spec fn obeys_from_spec() -> bool {
        true
    }

    open spec fn from_spec(t: MajorMode) -> ScaleEnumType {
        ScaleEnumType::MajorMode(t)
    }
}

impl From<HarmonicMinorMode> for ScaleEnumType {
    fn from(mode: HarmonicMinorMode) -> (r: ScaleEnumType) {
        ScaleEnumType::HarmonicMinorMode(mode)
    }
}

impl vstd::std_specs::convert::FromSpecImpl<HarmonicMinorMode> for ScaleEnumType {
    open spec fn obeys_from_spec() -> bool {
        true
    }

    open spec fn from_spec(t: HarmonicMinorMode) -> ScaleEnumType {
        ScaleEnumType::HarmonicMinorMode(t)
    }
}

impl From<MelodicMinorMode> for ScaleEnumType {
    fn from(mode: MelodicMinorMode) -> (r: ScaleEnumType) {
        ScaleEnumType::MelodicMinorMode(mode)
    }
}

impl vstd::std_specs::convert::FromSpecImpl<MelodicMinorMode> for ScaleEnumType {
    open spec fn obeys_from_spec() -> bool {
        true
    }

    open spec fn from_spec(t: MelodicMinorMode) -> ScaleEnumType {
        ScaleEnumType::MelodicMinorMode(t)
    }
}

/// A sequence of machine integers as mathematical integers.
pub open spec fn int_seq(s: Seq<i32>) -> Seq<int> {
    s.map_values(|x: i32| x as int)
}

/// The step table of a named scale type: the semitone distance from each
/// note of the scale to the next.
pub open spec fn spec_type_steps(t: ScaleType) -> Seq<int> {
    match t {
        ScaleType::Major => seq![2, 2, 1, 2, 2, 2, 1],
        ScaleType::Minor => seq![2, 1, 2, 2, 1, 2, 2],
        ScaleType::HarmonicMinor => seq![2, 1, 2, 2, 1, 3, 1],
        ScaleType::MelodicMinor => seq![2, 1, 2, 2, 2, 2, 1],
        ScaleType::MajorPentatonic => seq![2, 2, 3, 2, 3],
        ScaleType::MinorPentatonic => seq![3, 2, 2, 3, 2],
        ScaleType::MinorBlues => seq![3, 2, 1, 1, 3, 2],
        ScaleType::MajorBlues => seq![2, 1, 1, 3, 2, 3],
        ScaleType::WholeTone => seq![2, 2, 2, 2, 2, 2],
        ScaleType::Diminished => seq![2, 1, 2, 1, 2, 1, 2, 1],
        ScaleType::Chromatic => seq![1, 1, 1, 1, 1, 1, 1, 1, 1, 1, 1, 1],
    }
}

/// The step table of a known scale type or mode; a mode's table is its
/// parent's rotated by the mode's ordinal.
pub open spec fn spec_steps_table(t: ScaleEnumType) -> Seq<int> {
    match t {
        ScaleEnumType::ScaleType(s) => spec_type_steps(s),
        ScaleEnumType::MajorMode(m) => match m {
            MajorMode::Ionian => seq![2, 2, 1, 2, 2, 2, 1],
            MajorMode::Dorian => seq![2, 1, 2, 2, 2, 1, 2],
            MajorMode::Phrygian => seq![1, 2, 2, 2, 1, 2, 2],
            MajorMode::Lydian => seq![2, 2, 2, 1, 2, 2, 1],
            MajorMode::Mixolydian => seq![2, 2, 1, 2, 2, 1, 2],
            MajorMode::Aeolian => seq![2, 1, 2, 2, 1, 2, 2],
            MajorMode::Locrian => seq![1, 2, 2, 1, 2, 2, 2],
        },
        ScaleEnumType::HarmonicMinorMode(m) => match m {
            HarmonicMinorMode::HarmonicMinorRoot => seq![2, 1, 2, 2, 1, 3, 1],
            HarmonicMinorMode::LocrianNat6 => seq![1, 2, 2, 1, 3, 1, 2],
            HarmonicMinorMode::IonianAugmented => seq![2, 2, 1, 3, 1, 2, 1],
            HarmonicMinorMode::DorianSharp4 => seq![2, 1, 3, 1, 2, 1, 2],
            HarmonicMinorMode::PhrygianDominant => seq![1, 3, 1, 2, 1, 2, 2],
            HarmonicMinorMode::LydianSharp2 => seq![3, 1, 2, 1, 2, 2, 1],
            HarmonicMinorMode::SuperLocrian => seq![1, 2, 1, 2, 2, 1, 3],
        },
        ScaleEnumType::MelodicMinorMode(m) => match m {
            MelodicMinorMode::MelodicMinorRoot => seq![2, 1, 2, 2, 2, 2, 1],
            MelodicMinorMode::DorianFlat2 => seq![1, 2, 2, 2, 2, 1, 2],
            MelodicMinorMode::LydianAugmented => seq![2, 2, 2, 2, 1, 2, 1],
            MelodicMinorMode::LydianDominant => seq![2, 2, 2, 1, 2, 1, 2],
            MelodicMinorMode::AeolianDominant => seq![2, 2, 1, 2, 1, 2, 2],
            MelodicMinorMode::HalfDiminished => seq![2, 1, 2, 1, 2, 2, 2],
            MelodicMinorMode::Altered => seq![1, 2, 1, 2, 2, 2, 2],
        },
    }
}

impl ScaleType {
    /// The step table of the scale type, semitones from each note to the
    /// next.
    pub fn as_steps(&self) -> (r: Vec<i32>)
        ensures
            int_seq(r@) == spec_type_steps(*self),
    {
        let r: Vec<i32> = match self {
            ScaleType::Major => vec![2, 2, 1, 2, 2, 2, 1],
            ScaleType::Minor => vec![2, 1, 2, 2, 1, 2, 2],
            ScaleType::HarmonicMinor => vec![2, 1, 2, 2, 1, 3, 1],
            ScaleType::MelodicMinor => vec![2, 1, 2, 2, 2, 2, 1],
            ScaleType::MajorPentatonic => vec![2, 2, 3, 2, 3],
            ScaleType::MinorPentatonic => vec![3, 2, 2, 3, 2],
            ScaleType::MinorBlues => vec![3, 2, 1, 1, 3, 2],
            ScaleType::MajorBlues => vec![2, 1, 1, 3, 2, 3],
            ScaleType::WholeTone => vec![2, 2, 2, 2, 2, 2],
            ScaleType::Diminished => vec![2, 1, 2, 1, 2, 1, 2, 1],
            ScaleType::Chromatic => vec![1, 1, 1, 1, 1, 1, 1, 1, 1, 1, 1, 1],
        };
        proof {
            assert(int_seq(r@) =~= spec_type_steps(*self));
        }
        r
    }
}

/// The step table of a known scale type or mode as machine integers.
fn steps_table(t: ScaleEnumType) -> (r: Vec<i32>)
    ensures
        int_seq(r@) == spec_steps_table(t),
{
    match t {
        ScaleEnumType::ScaleType(s) => s.as_steps(),
        ScaleEnumType::MajorMode(m) => {
            let r: Vec<i32> = match m {
                MajorMode::Ionian => vec![2, 2, 1, 2, 2, 2, 1],
                MajorMode::Dorian => vec![2, 1, 2, 2, 2, 1, 2],
                MajorMode::Phrygian => vec![1, 2, 2, 2, 1, 2, 2],
                MajorMode::Lydian => vec![2, 2, 2, 1, 2, 2, 1],
                MajorMode::Mixolydian => vec![2, 2, 1, 2, 2, 1, 2],
                MajorMode::Aeolian => vec![2, 1, 2, 2, 1, 2, 2],
                MajorMode::Locrian => vec![1, 2, 2, 1, 2, 2, 2],
            };
            proof {
                assert(int_seq(r@) =~= spec_steps_table(t));
            }
            r
        },
        ScaleEnumType::HarmonicMinorMode(m) => {
            let r: Vec<i32> = match m {
                HarmonicMinorMode::HarmonicMinorRoot => vec![2, 1, 2, 2, 1, 3, 1],
                HarmonicMinorMode::LocrianNat6 => vec![1, 2, 2, 1, 3, 1, 2],
                HarmonicMinorMode::IonianAugmented => vec![2, 2, 1, 3, 1, 2, 1],
                HarmonicMinorMode::DorianSharp4 => vec![2, 1, 3, 1, 2, 1, 2],
                HarmonicMinorMode::PhrygianDominant => vec![1, 3, 1, 2, 1, 2, 2],
                HarmonicMinorMode::LydianSharp2 => vec![3, 1, 2, 1, 2, 2, 1],
                HarmonicMinorMode::SuperLocrian => vec![1, 2, 1, 2, 2, 1, 3],
            };
            proof {
                assert(int_seq(r@) =~= spec_steps_table(t));
            }
            r
        },
        ScaleEnumType::MelodicMinorMode(m) => {
            let r: Vec<i32> = match m {
                MelodicMinorMode::MelodicMinorRoot => vec![2, 1, 2, 2, 2, 2, 1],
                MelodicMinorMode::DorianFlat2 => vec![1, 2, 2, 2, 2, 1, 2],
                MelodicMinorMode::LydianAugmented => vec![2, 2, 2, 2, 1, 2, 1],
                MelodicMinorMode::LydianDominant => vec![2, 2, 2, 1, 2, 1, 2],
                MelodicMinorMode::AeolianDominant => vec![2, 2, 1, 2, 1, 2, 2],
                MelodicMinorMode::HalfDiminished => vec![2, 1, 2, 1, 2, 2, 2],
                MelodicMinorMode::Altered => vec![1, 2, 1, 2, 2, 2, 2],
            };
            proof {
                assert(int_seq(r@) =~= spec_steps_table(t));
            }
            r
        },
    }
}

/// A musical scale: intervals relative to an implied unison root, so a
/// major scale is `[M2, M3, P4, P5, M6, M7, P8]`.
#[derive(Clone, Debug)]
pub struct Scale {
    pub intervals: Vec<Interval>,
}

/// The semitone totals of a sequence of intervals.
pub open spec fn scale_sems(s: Seq<Interval>) -> Seq<int> {
    s.map_values(|x: Interval| interval_semitones(x))
}

/// Well-formedness of a scale: every interval in it is well formed.
pub open spec fn scale_wf(s: Scale) -> bool {
    forall|i: int| 0 <= i < s.intervals@.len() ==> interval_wf(#[trigger] s.intervals@[i])
}

/// What accumulating a step list from a running semitone total yields:
/// each step moves the total, every total must stay in the supported
/// range 0 through 127, and each total is spelled by the chromatic
/// table.  The first out-of-range total is the error.
pub open spec fn spec_steps_scan(steps: Seq<int>, sem: int) -> Result<Seq<Interval>, ResonataError>
    decreases steps.len(),
{
    if steps.len() == 0 {
        Ok(Seq::empty())
    } else {
        let s2 = sem + steps[0];
        if 0 <= s2 <= MAX_SEMITONES as int {
            match spec_steps_scan(steps.skip(1), s2) {
                Ok(rest) => Ok(seq![spec_from_semitones(s2)] + rest),
                Err(e) => Err(e),
            }
        } else {
            Err(
                ResonataError::IntervalError(IntervalError::InvalidIntervalSize(clip_to_i16(s2))),
            )
        }
    }
}

/// What `from_steps` yields on a step list.
pub open spec fn spec_from_steps(steps: Seq<int>) -> Result<Seq<Interval>, ResonataError> {
    spec_steps_scan(steps, 0)
}

/// The running semitone totals of a step list from a starting total.
pub open spec fn spec_step_sums(steps: Seq<int>, sem: int) -> Seq<int>
    decreases steps.len(),
{
    if steps.len() == 0 {
        Seq::empty()
    } else {
        seq![sem + steps[0]] + spec_step_sums(steps.skip(1), sem + steps[0])
    }
}

/// When a step scan succeeds, it yields one well-formed interval per
/// step, spelled by the chromatic table on the running totals.
pub proof fn lemma_steps_scan_ok(steps: Seq<int>, sem: int, out: Seq<Interval>)
    requires
        spec_steps_scan(steps, sem) == Ok::<Seq<Interval>, ResonataError>(out),
    ensures
        out.len() == steps.len(),
        scale_sems(out) =~= spec_step_sums(steps, sem),
        forall|i: int| 0 <= i < out.len() ==> interval_wf(#[trigger] out[i]),
    decreases steps.len(),
{
    if steps.len() == 0 {
    } else {
        let s2 = sem + steps[0];
        let rest = spec_steps_scan(steps.skip(1), s2).unwrap();
        lemma_steps_scan_ok(steps.skip(1), s2, rest);
        crate::intervals::lemma_from_semitones_round_trip(s2);
        assert(out =~= seq![spec_from_semitones(s2)] + rest);
        assert(scale_sems(out) =~= seq![s2] + scale_sems(rest));
    }
}

/// What scanning a note list from a root yields: each note's degree
/// above the root is lifted by octaves until it passes the previous
/// total, and the lifted totals are the semitone totals of the scale.
pub open spec fn lift_above(raw: int, last: int) -> int
    decreases (if raw <= last {
        last + 12 - raw
    } else {
        0
    }),
{
    if raw <= last {
        lift_above(raw + 12, last)
    } else {
        raw
    }
}

/// The lifted semitone totals of a note list above a root degree.
pub open spec fn spec_notes_sums(notes: Seq<Note>, root_deg: int, last: int) -> Seq<int>
    decreases notes.len(),
{
    if notes.len() == 0 {
        Seq::empty()
    } else {
        let lifted = lift_above(note_degree(notes[0]) - root_deg, last);
        seq![lifted] + spec_notes_sums(notes.skip(1), root_deg, lifted)
    }
}

/// A note list yields one lifted total per note.
pub proof fn lemma_notes_sums_len(notes: Seq<Note>, root_deg: int, last: int)
    ensures
        spec_notes_sums(notes, root_deg, last).len() == notes.len(),
    decreases notes.len(),
{
    if notes.len() > 0 {
        let lifted = lift_above(note_degree(notes[0]) - root_deg, last);
        lemma_notes_sums_len(notes.skip(1), root_deg, lifted);
    }
}

/// Whether a note list can become a scale: every lifted total stays in
/// the supported semitone range.
pub open spec fn notes_scan_ok(notes: Seq<Note>) -> bool {
    notes.len() <= 1 || forall|i: int|
        0 <= i < notes.len() - 1 ==> #[trigger] spec_notes_sums(
            notes.skip(1),
            note_degree(notes[0]),
            0,
        )[i] <= MAX_SEMITONES as int
}

impl Scale {
    /// A scale from a step list, each step the semitone distance to the
    /// next note: a major scale is `[2, 2, 1, 2, 2, 2, 1]`.  The running
    /// totals must stay in 0 through 127; the first total outside fails
    /// with `InvalidIntervalSize`.
    pub fn from_steps(steps: Vec<i32>) -> (r: Result<Scale, ResonataError>)
        ensures
            (r matches Ok(sc) ==> spec_from_steps(int_seq(steps@)) == Ok::<
                Seq<Interval>,
                ResonataError,
            >(sc.intervals@) && scale_wf(sc)),
            (r matches Err(e) ==> spec_from_steps(int_seq(steps@)) == Err::<
                Seq<Interval>,
                ResonataError,
            >(e)),
            r is Ok <==> spec_from_steps(int_seq(steps@)) is Ok,
    {
        let n = steps.len();
        let mut out: Vec<Interval> = Vec::new();
        let mut sem: i32 = 0;
        let mut j: usize = 0;
        proof {
            assert(int_seq(steps@).skip(0) =~= int_seq(steps@));
            assert(out@ + spec_steps_scan(int_seq(steps@), 0).unwrap() =~= spec_steps_scan(
                int_seq(steps@),
                0,
            ).unwrap());
        }
        while j < n
            invariant
                0 <= j <= n,
                n == steps@.len(),
                0 <= sem <= MAX_SEMITONES,
                forall|i: int| 0 <= i < out@.len() ==> interval_wf(#[trigger] out@[i]),
                (match spec_steps_scan(int_seq(steps@).skip(j as int), sem as int) {
                    Ok(rest) => spec_from_steps(int_seq(steps@)) == Ok::<
                        Seq<Interval>,
                        ResonataError,
                    >(out@ + rest),
                    Err(e) => spec_from_steps(int_seq(steps@)) == Err::<
                        Seq<Interval>,
                        ResonataError,
                    >(e),
                }),
            decreases n - j,
        {
            let step = steps[j];
            let s2 = sem as i64 + step as i64;
            proof {
                let g = int_seq(steps@);
                assert(g.skip(j as int)[0] == g[j as int]);
                assert(g[j as int] == steps@[j as int] as int);
                assert(g.skip(j as int).skip(1) =~= g.skip(j + 1));
            }
            if s2 < 0 || s2 > MAX_SEMITONES as i64 {
                let clipped: i16 = if s2 < -0x8000 {
                    -0x8000
                } else if s2 > 0x7fff {
                    0x7fff
                } else {
                    s2 as i16
                };
                return Err(
                    ResonataError::IntervalError(IntervalError::InvalidIntervalSize(clipped)),
                );
            }
            sem = s2 as i32;
            let iv = match Interval::from_semitones(sem) {
                Ok(x) => x,
                Err(e) => {
                    assert(false);
                    return Err(e);
                },
            };
            let ghost prev = out@;
            out.push(iv);
            proof {
                let g = int_seq(steps@);
                if spec_steps_scan(g.skip(j + 1), sem as int) is Ok {
                    assert(out@ + spec_steps_scan(g.skip(j + 1), sem as int).unwrap() =~= prev + (
                    seq![iv] + spec_steps_scan(g.skip(j + 1), sem as int).unwrap()));
                }
            }
            j = j + 1;
        }
        proof {
            assert(int_seq(steps@).skip(n as int) =~= Seq::<int>::empty());
            assert(out@ + Seq::<Interval>::empty() =~= out@);
        }
        Ok(Scale { intervals: out })
    }

    /// The step list of the scale: the first interval's semitones, then
    /// each successive difference.  The scale must not be empty.
    pub fn to_steps(&self) -> (r: Vec<i32>)
        requires
            self.intervals@.len() >= 1,
        ensures
            r@.len() == self.intervals@.len(),
            r@[0] == interval_semitones(self.intervals@[0]),
            forall|i: int|
                1 <= i < r@.len() ==> r@[i] == interval_semitones(#[trigger] self.intervals@[i])
                    - interval_semitones(self.intervals@[i - 1]),
    {
        let n = self.intervals.len();
        let mut out: Vec<i32> = Vec::new();
        out.push(self.intervals[0].to_semitones());
        let mut i: usize = 1;
        while i < n
            invariant
                1 <= i <= n,
                n == self.intervals@.len(),
                out@.len() == i,
                out@[0] == interval_semitones(self.intervals@[0]),
                forall|k: int|
                    1 <= k < i ==> out@[k] == interval_semitones(#[trigger] self.intervals@[k])
                        - interval_semitones(self.intervals@[k - 1]),
            decreases n - i,
        {
            let d = self.intervals[i].to_semitones() - self.intervals[i - 1].to_semitones();
            out.push(d);
            i = i + 1;
        }
        out
    }

    /// A scale from a list of notes, the first being the root: each
    /// later note is taken as the next higher pitch spelling its degree,
    /// and the intervals from the root are recorded.  Lists whose lifted
    /// totals leave the supported range are excluded.
    pub fn from_notes(notes: Vec<Note>) -> (r: Scale)
        requires
            notes_scan_ok(notes@),
        ensures
            notes@.len() == 0 ==> r.intervals@.len() == 0,
            notes@.len() >= 1 ==> spec_from_steps_of_sums(
                spec_notes_sums(notes@.skip(1), note_degree(notes@[0]), 0),
            ) == r.intervals@,
            scale_wf(r),
    {
        let n = notes.len();
        let mut out: Vec<Interval> = Vec::new();
        if n == 0 {
            return Scale { intervals: out };
        }
        let root_deg = notes[0].to_chromatic_scale_degree();
        let mut last: i32 = 0;
        let mut j: usize = 1;
        proof {
            let sums = spec_notes_sums(notes@.skip(1), root_deg as int, 0);
            lemma_notes_sums_len(notes@.skip(1), root_deg as int, 0);
            assert(sums.skip(0) =~= sums);
            assert(out@ + spec_from_steps_of_sums(sums) =~= spec_from_steps_of_sums(sums));
        }
        while j < n
            invariant
                1 <= j <= n,
                n == notes@.len(),
                root_deg == note_degree(notes@[0]),
                0 <= last <= MAX_SEMITONES,
                j == 1 ==> last == 0,
                notes_scan_ok(notes@),
                out@.len() == j - 1,
                forall|i: int| 0 <= i < out@.len() ==> interval_wf(#[trigger] out@[i]),
                spec_from_steps_of_sums(spec_notes_sums(notes@.skip(1), root_deg as int, 0)) == out@
                    + spec_from_steps_of_sums(
                    spec_notes_sums(notes@.skip(j as int), root_deg as int, last as int),
                ),
                j > 1 ==> last == spec_notes_sums(notes@.skip(1), root_deg as int, 0)[j - 2],
                spec_notes_sums(notes@.skip(j as int), root_deg as int, last as int)
                    =~= spec_notes_sums(notes@.skip(1), root_deg as int, 0).skip(j - 1),
            decreases n - j,
        {
            let raw = notes[j].to_chromatic_scale_degree() - root_deg;
            let mut steps = raw;
            while steps <= last
                invariant
                    lift_above(steps as int, last as int) == lift_above(raw as int, last as int),
                    steps >= raw,
                    last <= MAX_SEMITONES,
                decreases last - steps + 12,
            {
                steps = steps + 12;
            }
            proof {
                assert(lift_above(steps as int, last as int) == steps as int);
                let tail = notes@.skip(j as int);
                assert(tail[0] == notes@[j as int]);
                assert(tail.skip(1) =~= notes@.skip(j + 1));
                let sums = spec_notes_sums(notes@.skip(1), root_deg as int, 0);
                lemma_notes_sums_len(notes@.skip(1), root_deg as int, 0);
                lemma_notes_sums_len(tail, root_deg as int, last as int);
                assert(spec_notes_sums(tail, root_deg as int, last as int)[0] == lift_above(
                    note_degree(tail[0]) - root_deg as int,
                    last as int,
                ));
                assert(note_degree(tail[0]) - root_deg as int == raw as int);
                assert(sums.skip(j - 1)[0] == sums[j - 1]);
                assert(sums[j - 1] == steps as int);
                assert(0 <= j - 1 < notes@.len() - 1);
                assert(sums[j - 1] <= MAX_SEMITONES as int);
            }
            let iv = match Interval::from_semitones(steps) {
                Ok(x) => x,
                Err(e) => {
                    assert(false);
                    return Scale { intervals: out };
                },
            };
            let ghost prev = out@;
            out.push(iv);
            proof {
                let tail = notes@.skip(j as int);
                let full = spec_notes_sums(notes@.skip(1), root_deg as int, 0);
                let sums_rest = spec_notes_sums(notes@.skip(j + 1), root_deg as int, steps as int);
                assert(spec_notes_sums(tail, root_deg as int, last as int) == seq![steps as int]
                    + sums_rest);
                assert(sums_rest =~= spec_notes_sums(tail, root_deg as int, last as int).skip(1));
                assert(full.skip(j - 1).skip(1) =~= full.skip(j as int));
                assert(sums_rest =~= full.skip(j as int));
                assert(out@ + spec_from_steps_of_sums(sums_rest) =~= prev + (seq![iv]
                    + spec_from_steps_of_sums(sums_rest)));
            }
            last = steps;
            j = j + 1;
        }
        proof {
            assert(notes@.skip(n as int) =~= Seq::<Note>::empty());
            assert(out@ + Seq::<Interval>::empty() =~= out@);
        }
        Scale { intervals: out }
    }

    /// The notes of the scale from a root: the root itself, then the
    /// root transposed by each interval but the last.
    pub fn to_notes(&self, root: Note) -> (r: Vec<Note>)
        requires
            self.intervals@.len() >= 1,
            scale_wf(*self),
        ensures
            r@.len() == self.intervals@.len(),
            r@[0] == root,
            forall|i: int|
                1 <= i < r@.len() ==> r@[i] == spec_note_transposed_up(
                    root,
                    #[trigger] self.intervals@[i - 1],
                ),
    {
        let n = self.intervals.len();
        let mut out: Vec<Note> = Vec::new();
        out.push(root);
        let mut i: usize = 0;
        while i < n - 1
            invariant
                0 <= i <= n - 1,
                n == self.intervals@.len(),
                n >= 1,
                scale_wf(*self),
                out@.len() == i + 1,
                out@[0] == root,
                forall|k: int|
                    1 <= k < out@.len() ==> out@[k] == spec_note_transposed_up(
                        root,
                        #[trigger] self.intervals@[k - 1],
                    ),
            decreases n - i,
        {
            let note = root.transposed_up(self.intervals[i]);
            out.push(note);
            i = i + 1;
        }
        out
    }

    /// Rotates the scale in place by the given number of steps; see
    /// [`Scale::rotated`].
    pub fn rotate(&mut self, n: i8)
        requires
            1 <= old(self).intervals@.len() <= 127,
            rotated_ok(old(self).intervals@, n as int),
        ensures
            final(self).intervals@ == spec_rotated(old(self).intervals@, n as int),
            scale_wf(*final(self)),
    {
        *self = self.rotated(n);
    }

    /// The scale rotated by the given number of steps, left for a
    /// positive count and right for a negative one; the root is kept, so
    /// a major scale rotated up one step is dorian.  Rotations whose
    /// running totals leave the supported range are excluded.
    pub fn rotated(&self, n: i8) -> (r: Scale)
        requires
            1 <= self.intervals@.len() <= 127,
            rotated_ok(self.intervals@, n as int),
        ensures
            r.intervals@ == spec_rotated(self.intervals@, n as int),
            scale_wf(r),
    {
        let steps = self.to_steps();
        let n_i: i32 = n as i32;
        let m_abs: usize = (if n_i < 0 {
            (-n_i) as usize
        } else {
            n_i as usize
        }) % steps.len();
        let shift: usize = if n_i > 0 {
            m_abs
        } else if m_abs == 0 {
            0
        } else {
            steps.len() - m_abs
        };
        proof {
            let li = steps@.len() as int;
            let na: int = if (n as int) < 0 {
                -(n as int)
            } else {
                n as int
            };
            assert(m_abs as int == na % li);
            assert(li == self.intervals@.len() as int);
            let m = trunc_mod(n as int, li);
            if (n as int) >= 0 {
                assert(m == na % li);
                assert(m == m_abs as int);
            } else {
                assert(m == -(na % li));
                assert(m == -(m_abs as int));
            }
            if (n as int) > 0 {
                assert(spec_rotation_shift(self.intervals@, n as int) == m);
                assert(shift as int == m_abs as int);
                assert(shift as int == spec_rotation_shift(self.intervals@, n as int));
            } else if m == 0 {
                assert(m_abs == 0);
                assert(spec_rotation_shift(self.intervals@, n as int) == 0);
                assert(shift == 0);
                assert(shift as int == spec_rotation_shift(self.intervals@, n as int));
            } else {
                if (n as int) == 0 {
                    assert(na == 0);
                    assert(na % li == 0) by (nonlinear_arith)
                        requires
                            na == 0,
                            li >= 1,
                    ;
                    assert(false);
                }
                assert((n as int) < 0);
                assert(m == -(m_abs as int));
                assert(spec_rotation_shift(self.intervals@, n as int) == li + m);
                assert(shift as int == li - m_abs as int);
                assert(shift as int == spec_rotation_shift(self.intervals@, n as int));
            }
            assert(shift as int == spec_rotation_shift(self.intervals@, n as int));
        }
        let mut rot: Vec<i32> = Vec::new();
        let mut i: usize = 0;
        while i < steps.len()
            invariant
                0 <= i <= steps@.len(),
                shift <= steps@.len(),
                rot@.len() == i,
                1 <= steps@.len() <= 127,
                forall|t: int|
                    0 <= t < i ==> rot@[t] == steps@[((t + shift) % (steps@.len() as int))],
            decreases steps@.len() - i,
        {
            let idx = if i + shift >= steps.len() {
                i + shift - steps.len()
            } else {
                i + shift
            };
            proof {
                let l = steps@.len() as int;
                if i + shift >= steps@.len() {
                    assert((i as int + shift as int) % l == i as int + shift as int - l)
                        by (nonlinear_arith)
                        requires
                            l > 0,
                            (i as int) < l,
                            (shift as int) <= l,
                            i as int + shift as int >= l,
                    ;
                } else {
                    assert((i as int + shift as int) % l == i as int + shift as int)
                        by (nonlinear_arith)
                        requires
                            l > 0,
                            0 <= i as int,
                            0 <= shift as int,
                            (i as int + shift as int) < l,
                    ;
                }
            }
            rot.push(steps[idx]);
            i = i + 1;
        }
        proof {
            lemma_rotation_shape(self.intervals@, n as int, steps@, rot@);
        }
        match Scale::from_steps(rot) {
            Ok(sc) => sc,
            Err(_) => {
                assert(false);
                Scale { intervals: Vec::new() }
            },
        }
    }

    /// The interval at the given index, or the last interval when the
    /// index runs past the end.  The scale must not be empty.
    pub fn interval(&self, n: usize) -> (r: Interval)
        requires
            self.intervals@.len() >= 1,
        ensures
            n < self.intervals@.len() ==> r == self.intervals@[n as int],
            n >= self.intervals@.len() ==> r == self.intervals@[self.intervals@.len() - 1],
    {
        let idx = if n < self.intervals.len() {
            n
        } else {
            self.intervals.len() - 1
        };
        self.intervals[idx]
    }

    /// The intervals of the scale.
    pub fn intervals(&self) -> (r: &Vec<Interval>)
        ensures
            r@ == self.intervals@,
    {
        &self.intervals
    }

    /// Appends an interval to the scale: the new last interval is the
    /// old last interval plus the given one as pitch distances.  Fails
    /// with `InvalidIntervalSize`, leaving the scale unchanged, when the
    /// sum leaves the supported range.
    pub fn add_interval(&mut self, interval: Interval) -> (r: Result<(), ResonataError>)
        requires
            old(self).intervals@.len() >= 1,
            scale_wf(*old(self)),
            interval_wf(interval),
        ensures
            ({
                let sum = interval_semitones(old(self).intervals@.last()) + interval_semitones(
                    interval,
                );
                if 0 <= sum <= MAX_SEMITONES as int {
                    r is Ok && final(self).intervals@ == old(self).intervals@.push(
                        spec_from_semitones(sum),
                    ) && scale_wf(*final(self))
                } else {
                    r == Err::<(), ResonataError>(
                        ResonataError::IntervalError(
                            IntervalError::InvalidIntervalSize(sum as i16),
                        ),
                    ) && *final(self) == *old(self)
                }
            }),
    {
        let last = self.intervals[self.intervals.len() - 1];
        let new = match last.plus(&interval) {
            Ok(x) => x,
            Err(e) => {
                return Err(e);
            },
        };
        proof {
            crate::intervals::lemma_from_semitones_round_trip(
                interval_semitones(last) + interval_semitones(interval),
            );
        }
        self.intervals.push(new);
        Ok(())
    }
}

/// The intervals a sequence of semitone totals spells through the
/// chromatic table.
pub open spec fn spec_from_steps_of_sums(sums: Seq<int>) -> Seq<Interval> {
    sums.map_values(|v: int| spec_from_semitones(v))
}

/// The step list of a rotation: the scale's own steps rotated by the
/// count, left for positive and right for negative.
pub open spec fn spec_rotation_steps(s: Seq<Interval>, n: int) -> Seq<int> {
    let sems = scale_sems(s);
    let steps = Seq::new(sems.len(), |i: int| if i == 0 {
        sems[0]
    } else {
        sems[i] - sems[i - 1]
    });
    let len = steps.len() as int;
    let m = trunc_mod(n, len);
    let shift = if n > 0 {
        m
    } else if m == 0 {
        0
    } else {
        len + m
    };
    Seq::new(steps.len(), |i: int| steps[(i + shift) % len])
}

/// The remainder with the sign of the dividend, as the machine's
/// remainder gives it.
pub open spec fn trunc_mod(a: int, b: int) -> int {
    if a >= 0 {
        a % b
    } else {
        -((-a) % b)
    }
}

/// Whether a rotation's running totals stay in the supported range.
pub open spec fn rotated_ok(s: Seq<Interval>, n: int) -> bool {
    spec_from_steps(spec_rotation_steps(s, n)) is Ok
}

/// What `rotated` returns: the rotation's steps accumulated back into a
/// scale.
pub open spec fn spec_rotated(s: Seq<Interval>, n: int) -> Seq<Interval> {
    spec_from_steps(spec_rotation_steps(s, n)).unwrap()
}

/// The executable rotation builds exactly the rotation steps of the
/// model.
proof fn lemma_rotation_shape(ivs: Seq<Interval>, n: int, steps: Seq<i32>, rot: Seq<i32>)
    requires
        ivs.len() >= 1,
        steps.len() == ivs.len(),
        steps[0] == interval_semitones(ivs[0]),
        forall|i: int|
            1 <= i < steps.len() ==> steps[i] == interval_semitones(#[trigger] ivs[i])
                - interval_semitones(ivs[i - 1]),
        rot.len() == steps.len(),
        forall|t: int|
            0 <= t < rot.len() ==> rot[t] == steps[((t + spec_rotation_shift(ivs, n)) % (
            steps.len() as int))],
    ensures
        int_seq(rot) =~= spec_rotation_steps(ivs, n),
{
    let sems = scale_sems(ivs);
    let msteps = Seq::new(sems.len(), |i: int| if i == 0 {
        sems[0]
    } else {
        sems[i] - sems[i - 1]
    });
    assert(forall|i: int| 0 <= i < steps.len() ==> steps[i] as int == msteps[i]);
    assert forall|t: int| 0 <= t < rot.len() implies int_seq(rot)[t] == spec_rotation_steps(ivs, n)[t]
        by {
        let len = steps.len() as int;
        let idx = (t + spec_rotation_shift(ivs, n)) % len;
        assert(0 <= idx < len) by (nonlinear_arith)
            requires
                len > 0,
                idx == (t + spec_rotation_shift(ivs, n)) % len,
        ;
    }
}

/// The shift a rotation count means on a scale's length: the count
/// reduced into the length, turned into a leftward shift.
pub open spec fn spec_rotation_shift(s: Seq<Interval>, n: int) -> int {
    let len = s.len() as int;
    let m = trunc_mod(n, len);
    if n > 0 {
        m
    } else if m == 0 {
        0
    } else {
        len + m
    }
}

/// The step list of a scale: the first semitone total, then the
/// successive differences.
pub open spec fn scale_steps(s: Seq<Interval>) -> Seq<int> {
    let sems = scale_sems(s);
    Seq::new(sems.len(), |i: int| if i == 0 {
        sems[0]
    } else {
        sems[i] - sems[i - 1]
    })
}

impl PartialEq for Scale {
    /// Scales compare by their semitone sequences, so enharmonic
    /// respellings of the same pitch sequence are equal.
    fn eq(&self, other: &Scale) -> (r: bool) {
        if self.intervals.len() != other.intervals.len() {
            proof {
                assert(scale_sems(self.intervals@).len() != scale_sems(other.intervals@).len());
            }
            return false;
        }
        let n = self.intervals.len();
        let mut i: usize = 0;
        while i < n
            invariant
                0 <= i <= n,
                n == self.intervals@.len(),
                n == other.intervals@.len(),
                forall|k: int|
                    0 <= k < i ==> interval_semitones(#[trigger] self.intervals@[k])
                        == interval_semitones(other.intervals@[k]),
            decreases n - i,
        {
            if self.intervals[i].to_semitones() != other.intervals[i].to_semitones() {
                proof {
                    assert(scale_sems(self.intervals@)[i as int] != scale_sems(
                        other.intervals@,
                    )[i as int]);
                }
                return false;
            }
            i = i + 1;
        }
        proof {
            assert(scale_sems(self.intervals@) =~= scale_sems(other.intervals@));
        }
        true
    }
}

impl vstd::std_specs::cmp::PartialEqSpecImpl for Scale {
    open spec fn obeys_eq_spec() -> bool {
        true
    }

    open spec fn eq_spec(&self, other: &Scale) -> bool {
        scale_sems(self.intervals@) == scale_sems(other.intervals@)
    }
}

impl Eq for Scale {

}

/// A step scan over positive steps whose running totals stay within the
/// supported range always succeeds.
proof fn lemma_scan_of_small_positive(steps: Seq<int>, sem: int)
    requires
        0 <= sem,
        sem + seq_total(steps) <= MAX_SEMITONES as int,
        forall|i: int| 0 <= i < steps.len() ==> 1 <= #[trigger] steps[i],
    ensures
        spec_steps_scan(steps, sem) is Ok,
        scale_sems(spec_steps_scan(steps, sem).unwrap()) =~= spec_step_sums(steps, sem),
    decreases steps.len(),
{
    if steps.len() > 0 {
        let s2 = sem + steps[0];
        assert(seq_total(steps) == steps[0] + seq_total(steps.skip(1)));
        lemma_seq_total_nonneg(steps.skip(1));
        assert(forall|i: int|
            0 <= i < steps.skip(1).len() ==> #[trigger] steps.skip(1)[i] == steps[i + 1]);
        lemma_scan_of_small_positive(steps.skip(1), s2);
        lemma_steps_scan_ok(steps, sem, spec_steps_scan(steps, sem).unwrap());
    }
}

/// The total of a step list.
pub open spec fn seq_total(steps: Seq<int>) -> int
    decreases steps.len(),
{
    if steps.len() == 0 {
        0
    } else {
        steps[0] + seq_total(steps.skip(1))
    }
}

/// A list of positive steps has a non-negative total.
proof fn lemma_seq_total_nonneg(steps: Seq<int>)
    requires
        forall|i: int| 0 <= i < steps.len() ==> 1 <= #[trigger] steps[i],
    ensures
        seq_total(steps) >= 0,
    decreases steps.len(),
{
    if steps.len() > 0 {
        assert(forall|i: int|
            0 <= i < steps.skip(1).len() ==> #[trigger] steps.skip(1)[i] == steps[i + 1]);
        lemma_seq_total_nonneg(steps.skip(1));
    }
}

/// Every known step table holds only positive steps summing to at most
/// one octave, so accumulating it always succeeds.
proof fn lemma_table_scan_ok(t: ScaleEnumType)
    ensures
        spec_from_steps(spec_steps_table(t)) is Ok,
        scale_sems(spec_from_steps(spec_steps_table(t)).unwrap()) =~= spec_step_sums(
            spec_steps_table(t),
            0,
        ),
{
    let steps = spec_steps_table(t);
    assert(seq_total(steps) <= 12 && (forall|i: int|
        0 <= i < steps.len() ==> 1 <= #[trigger] steps[i])) by {
        reveal_with_fuel(seq_total, 14);
        match t {
            ScaleEnumType::ScaleType(s) => {
                match s {
                    ScaleType::Major => assert(seq_total(steps) == 12),
                    ScaleType::Minor => assert(seq_total(steps) == 12),
                    ScaleType::HarmonicMinor => assert(seq_total(steps) == 12),
                    ScaleType::MelodicMinor => assert(seq_total(steps) == 12),
                    ScaleType::MajorPentatonic => assert(seq_total(steps) == 12),
                    ScaleType::MinorPentatonic => assert(seq_total(steps) == 12),
                    ScaleType::MinorBlues => assert(seq_total(steps) == 12),
                    ScaleType::MajorBlues => assert(seq_total(steps) == 12),
                    ScaleType::WholeTone => assert(seq_total(steps) == 12),
                    ScaleType::Diminished => assert(seq_total(steps) == 12),
                    ScaleType::Chromatic => assert(seq_total(steps) == 12),
                }
            },
            ScaleEnumType::MajorMode(m) => {
                match m {
                    MajorMode::Ionian => assert(seq_total(steps) == 12),
                    MajorMode::Dorian => assert(seq_total(steps) == 12),
                    MajorMode::Phrygian => assert(seq_total(steps) == 12),
                    MajorMode::Lydian => assert(seq_total(steps) == 12),
                    MajorMode::Mixolydian => assert(seq_total(steps) == 12),
                    MajorMode::Aeolian => assert(seq_total(steps) == 12),
                    MajorMode::Locrian => assert(seq_total(steps) == 12),
                }
            },
            ScaleEnumType::HarmonicMinorMode(m) => {
                match m {
                    HarmonicMinorMode::HarmonicMinorRoot => assert(seq_total(steps) == 12),
                    HarmonicMinorMode::LocrianNat6 => assert(seq_total(steps) == 12),
                    HarmonicMinorMode::IonianAugmented => assert(seq_total(steps) == 12),
                    HarmonicMinorMode::DorianSharp4 => assert(seq_total(steps) == 12),
                    HarmonicMinorMode::PhrygianDominant => assert(seq_total(steps) == 12),
                    HarmonicMinorMode::LydianSharp2 => assert(seq_total(steps) == 12),
                    HarmonicMinorMode::SuperLocrian => assert(seq_total(steps) == 12),
                }
            },
            ScaleEnumType::MelodicMinorMode(m) => {
                match m {
                    MelodicMinorMode::MelodicMinorRoot => assert(seq_total(steps) == 12),
                    MelodicMinorMode::DorianFlat2 => assert(seq_total(steps) == 12),
                    MelodicMinorMode::LydianAugmented => assert(seq_total(steps) == 12),
                    MelodicMinorMode::LydianDominant => assert(seq_total(steps) == 12),
                    MelodicMinorMode::AeolianDominant => assert(seq_total(steps) == 12),
                    MelodicMinorMode::HalfDiminished => assert(seq_total(steps) == 12),
                    MelodicMinorMode::Altered => assert(seq_total(steps) == 12),
                }
            },
        }
    }
    lemma_scan_of_small_positive(steps, 0);
}

/// The scale a known step table accumulates to.
fn scale_of_table(t: ScaleEnumType) -> (r: Scale)
    ensures
        spec_from_steps(spec_steps_table(t)) == Ok::<Seq<Interval>, ResonataError>(r.intervals@),
        scale_wf(r),
{
    proof {
        lemma_table_scan_ok(t);
    }
    match Scale::from_steps(steps_table(t)) {
        Ok(sc) => sc,
        Err(_) => {
            assert(false);
            Scale { intervals: Vec::new() }
        },
    }
}

impl Scale {
    /// The major scale.
    pub fn major() -> (r: Scale)
        ensures
            spec_from_steps(spec_type_steps(ScaleType::Major)) == Ok::<
                Seq<Interval>,
                ResonataError,
            >(r.intervals@),
            scale_wf(r),
    {
        scale_of_table(ScaleEnumType::ScaleType(ScaleType::Major))
    }

    /// The natural minor scale.
    pub fn minor() -> (r: Scale)
        ensures
            spec_from_steps(spec_type_steps(ScaleType::Minor)) == Ok::<
                Seq<Interval>,
                ResonataError,
            >(r.intervals@),
            scale_wf(r),
    {
        scale_of_table(ScaleEnumType::ScaleType(ScaleType::Minor))
    }

    /// The harmonic minor scale.
    pub fn harmonic_minor() -> (r: Scale)
        ensures
            spec_from_steps(spec_type_steps(ScaleType::HarmonicMinor)) == Ok::<
                Seq<Interval>,
                ResonataError,
            >(r.intervals@),
            scale_wf(r),
    {
        scale_of_table(ScaleEnumType::ScaleType(ScaleType::HarmonicMinor))
    }

    /// The melodic minor scale, ascending form.
    pub fn melodic_minor() -> (r: Scale)
        ensures
            spec_from_steps(spec_type_steps(ScaleType::MelodicMinor)) == Ok::<
                Seq<Interval>,
                ResonataError,
            >(r.intervals@),
            scale_wf(r),
    {
        scale_of_table(ScaleEnumType::ScaleType(ScaleType::MelodicMinor))
    }

    /// The major pentatonic scale.
    pub fn major_pentatonic() -> (r: Scale)
        ensures
            spec_from_steps(spec_type_steps(ScaleType::MajorPentatonic)) == Ok::<
                Seq<Interval>,
                ResonataError,
            >(r.intervals@),
            scale_wf(r),
    {
        scale_of_table(ScaleEnumType::ScaleType(ScaleType::MajorPentatonic))
    }

    /// The minor pentatonic scale.
    pub fn minor_pentatonic() -> (r: Scale)
        ensures
            spec_from_steps(spec_type_steps(ScaleType::MinorPentatonic)) == Ok::<
                Seq<Interval>,
                ResonataError,
            >(r.intervals@),
            scale_wf(r),
    {
        scale_of_table(ScaleEnumType::ScaleType(ScaleType::MinorPentatonic))
    }

    /// The minor blues scale.
    pub fn minor_blues() -> (r: Scale)
        ensures
            spec_from_steps(spec_type_steps(ScaleType::MinorBlues)) == Ok::<
                Seq<Interval>,
                ResonataError,
            >(r.intervals@),
            scale_wf(r),
    {
        scale_of_table(ScaleEnumType::ScaleType(ScaleType::MinorBlues))
    }

    /// The major blues scale.
    pub fn major_blues() -> (r: Scale)
        ensures
            spec_from_steps(spec_type_steps(ScaleType::MajorBlues)) == Ok::<
                Seq<Interval>,
                ResonataError,
            >(r.intervals@),
            scale_wf(r),
    {
        scale_of_table(ScaleEnumType::ScaleType(ScaleType::MajorBlues))
    }

    /// The whole-tone scale.
    pub fn whole_tone() -> (r: Scale)
        ensures
            spec_from_steps(spec_type_steps(ScaleType::WholeTone)) == Ok::<
                Seq<Interval>,
                ResonataError,
            >(r.intervals@),
            scale_wf(r),
    {
        scale_of_table(ScaleEnumType::ScaleType(ScaleType::WholeTone))
    }

    /// The diminished scale, alternating whole and half steps.
    pub fn diminished() -> (r: Scale)
        ensures
            spec_from_steps(spec_type_steps(ScaleType::Diminished)) == Ok::<
                Seq<Interval>,
                ResonataError,
            >(r.intervals@),
            scale_wf(r),
    {
        scale_of_table(ScaleEnumType::ScaleType(ScaleType::Diminished))
    }

    /// The chromatic scale.
    pub fn chromatic() -> (r: Scale)
        ensures
            spec_from_steps(spec_type_steps(ScaleType::Chromatic)) == Ok::<
                Seq<Interval>,
                ResonataError,
            >(r.intervals@),
            scale_wf(r),
    {
        scale_of_table(ScaleEnumType::ScaleType(ScaleType::Chromatic))
    }
}

/// What accumulating a note list from a root yields: each note's degree
/// above the root is lifted past the previous total and spelled by the
/// chromatic table; the first lifted total outside the supported range
/// is the error.
pub open spec fn spec_note_scan(notes: Seq<Note>, root_deg: int, last: int) -> Result<
    Seq<Interval>,
    ResonataError,
>
    decreases notes.len(),
{
    if notes.len() == 0 {
        Ok(Seq::empty())
    } else {
        let lifted = lift_above(note_degree(notes[0]) - root_deg, last);
        if 0 <= lifted <= MAX_SEMITONES as int {
            match spec_note_scan(notes.skip(1), root_deg, lifted) {
                Ok(rest) => Ok(seq![spec_from_semitones(lifted)] + rest),
                Err(e) => Err(e),
            }
        } else {
            Err(
                ResonataError::IntervalError(
                    IntervalError::InvalidIntervalSize(clip_to_i16(lifted)),
                ),
            )
        }
    }
}

/// Whether every token reads as a signed number.
pub open spec fn all_steps_tokens(toks: Seq<Seq<char>>) -> bool {
    forall|k: int| 0 <= k < toks.len() ==> spec_parse_signed(#[trigger] toks[k]) is Some
}

/// The numbers a list of step tokens holds.
pub open spec fn token_steps(toks: Seq<Seq<char>>) -> Seq<int> {
    Seq::new(toks.len(), |k: int| spec_parse_signed(toks[k]).unwrap())
}

/// Whether every token reads as a note.
pub open spec fn all_note_tokens(toks: Seq<Seq<char>>) -> bool {
    forall|k: int| 0 <= k < toks.len() ==> spec_parse_note(#[trigger] toks[k]) is Ok
}

/// The notes a list of note tokens holds.
pub open spec fn token_notes(toks: Seq<Seq<char>>) -> Seq<Note> {
    Seq::new(toks.len(), |k: int| spec_parse_note(toks[k]).unwrap())
}

/// What parsing a scale token yields: at least two step numbers
/// accumulated through the chromatic table, or at least two notes
/// measured from the first, and `InvalidScale` otherwise.
pub open spec fn spec_parse_scale(t: Seq<char>) -> Result<Seq<Interval>, ResonataError> {
    let toks = spec_tokens(t);
    if toks.len() >= 2 && all_steps_tokens(toks) {
        spec_from_steps(token_steps(toks))
    } else if toks.len() >= 2 && all_note_tokens(toks) {
        spec_note_scan(token_notes(toks).skip(1), note_degree(token_notes(toks)[0]), 0)
    } else {
        Err(ResonataError::ScaleError(ScaleError::InvalidScale))
    }
}

/// The notation of a scale: its intervals' tokens joined by commas.
pub open spec fn spec_format_scale(s: Seq<Interval>) -> Seq<char>
    decreases s.len(),
{
    if s.len() == 0 {
        Seq::empty()
    } else if s.len() == 1 {
        crate::notation::spec_format_interval(s[0])
    } else {
        spec_format_scale(s.drop_last()) + seq![',', ' ']
            + crate::notation::spec_format_interval(s.last())
    }
}

/// The known scale types and modes, in the order they are matched: the
/// named types first, then the modes of the major, harmonic minor and
/// melodic minor scales.
pub open spec fn spec_candidates() -> Seq<ScaleEnumType> {
    seq![
        ScaleEnumType::ScaleType(ScaleType::Major),
        ScaleEnumType::ScaleType(ScaleType::Minor),
        ScaleEnumType::ScaleType(ScaleType::HarmonicMinor),
        ScaleEnumType::ScaleType(ScaleType::MelodicMinor),
        ScaleEnumType::ScaleType(ScaleType::MajorPentatonic),
        ScaleEnumType::ScaleType(ScaleType::MinorPentatonic),
        ScaleEnumType::ScaleType(ScaleType::MinorBlues),
        ScaleEnumType::ScaleType(ScaleType::MajorBlues),
        ScaleEnumType::ScaleType(ScaleType::WholeTone),
        ScaleEnumType::ScaleType(ScaleType::Diminished),
        ScaleEnumType::ScaleType(ScaleType::Chromatic),
        ScaleEnumType::MajorMode(MajorMode::Ionian),
        ScaleEnumType::MajorMode(MajorMode::Dorian),
        ScaleEnumType::MajorMode(MajorMode::Phrygian),
        ScaleEnumType::MajorMode(MajorMode::Lydian),
        ScaleEnumType::MajorMode(MajorMode::Mixolydian),
        ScaleEnumType::MajorMode(MajorMode::Aeolian),
        ScaleEnumType::MajorMode(MajorMode::Locrian),
        ScaleEnumType::HarmonicMinorMode(HarmonicMinorMode::HarmonicMinorRoot),
        ScaleEnumType::HarmonicMinorMode(HarmonicMinorMode::LocrianNat6),
        ScaleEnumType::HarmonicMinorMode(HarmonicMinorMode::IonianAugmented),
        ScaleEnumType::HarmonicMinorMode(HarmonicMinorMode::DorianSharp4),
        ScaleEnumType::HarmonicMinorMode(HarmonicMinorMode::PhrygianDominant),
        ScaleEnumType::HarmonicMinorMode(HarmonicMinorMode::LydianSharp2),
        ScaleEnumType::HarmonicMinorMode(HarmonicMinorMode::SuperLocrian),
        ScaleEnumType::MelodicMinorMode(MelodicMinorMode::MelodicMinorRoot),
        ScaleEnumType::MelodicMinorMode(MelodicMinorMode::DorianFlat2),
        ScaleEnumType::MelodicMinorMode(MelodicMinorMode::LydianAugmented),
        ScaleEnumType::MelodicMinorMode(MelodicMinorMode::LydianDominant),
        ScaleEnumType::MelodicMinorMode(MelodicMinorMode::AeolianDominant),
        ScaleEnumType::MelodicMinorMode(MelodicMinorMode::HalfDiminished),
        ScaleEnumType::MelodicMinorMode(MelodicMinorMode::Altered),
    ]
}

/// The first candidate from the given position whose step table equals
/// the given steps.
pub open spec fn spec_known_from(steps: Seq<int>, i: int) -> Option<ScaleEnumType>
    decreases spec_candidates().len() - i,
{
    if i < 0 || i >= spec_candidates().len() {
        None
    } else if spec_steps_table(spec_candidates()[i]) == steps {
        Some(spec_candidates()[i])
    } else {
        spec_known_from(steps, i + 1)
    }
}

/// What `get_known_scale_type` returns: the first known scale type or
/// mode whose pitch content equals the scale's.
pub open spec fn spec_known_scale(s: Seq<Interval>) -> Option<ScaleEnumType> {
    if s.len() == 0 {
        None
    } else {
        spec_known_from(scale_steps(s), 0)
    }
}

/// The known scale types and modes in matching order.
fn all_candidates() -> (r: Vec<ScaleEnumType>)
    ensures
        r@ == spec_candidates(),
{
    let mut out: Vec<ScaleEnumType> = Vec::new();
    out.push(ScaleEnumType::ScaleType(ScaleType::Major));
    out.push(ScaleEnumType::ScaleType(ScaleType::Minor));
    out.push(ScaleEnumType::ScaleType(ScaleType::HarmonicMinor));
    out.push(ScaleEnumType::ScaleType(ScaleType::MelodicMinor));
    out.push(ScaleEnumType::ScaleType(ScaleType::MajorPentatonic));
    out.push(ScaleEnumType::ScaleType(ScaleType::MinorPentatonic));
    out.push(ScaleEnumType::ScaleType(ScaleType::MinorBlues));
    out.push(ScaleEnumType::ScaleType(ScaleType::MajorBlues));
    out.push(ScaleEnumType::ScaleType(ScaleType::WholeTone));
    out.push(ScaleEnumType::ScaleType(ScaleType::Diminished));
    out.push(ScaleEnumType::ScaleType(ScaleType::Chromatic));
    out.push(ScaleEnumType::MajorMode(MajorMode::Ionian));
    out.push(ScaleEnumType::MajorMode(MajorMode::Dorian));
    out.push(ScaleEnumType::MajorMode(MajorMode::Phrygian));
    out.push(ScaleEnumType::MajorMode(MajorMode::Lydian));
    out.push(ScaleEnumType::MajorMode(MajorMode::Mixolydian));
    out.push(ScaleEnumType::MajorMode(MajorMode::Aeolian));
    out.push(ScaleEnumType::MajorMode(MajorMode::Locrian));
    out.push(ScaleEnumType::HarmonicMinorMode(HarmonicMinorMode::HarmonicMinorRoot));
    out.push(ScaleEnumType::HarmonicMinorMode(HarmonicMinorMode::LocrianNat6));
    out.push(ScaleEnumType::HarmonicMinorMode(HarmonicMinorMode::IonianAugmented));
    out.push(ScaleEnumType::HarmonicMinorMode(HarmonicMinorMode::DorianSharp4));
    out.push(ScaleEnumType::HarmonicMinorMode(HarmonicMinorMode::PhrygianDominant));
    out.push(ScaleEnumType::HarmonicMinorMode(HarmonicMinorMode::LydianSharp2));
    out.push(ScaleEnumType::HarmonicMinorMode(HarmonicMinorMode::SuperLocrian));
    out.push(ScaleEnumType::MelodicMinorMode(MelodicMinorMode::MelodicMinorRoot));
    out.push(ScaleEnumType::MelodicMinorMode(MelodicMinorMode::DorianFlat2));
    out.push(ScaleEnumType::MelodicMinorMode(MelodicMinorMode::LydianAugmented));
    out.push(ScaleEnumType::MelodicMinorMode(MelodicMinorMode::LydianDominant));
    out.push(ScaleEnumType::MelodicMinorMode(MelodicMinorMode::AeolianDominant));
    out.push(ScaleEnumType::MelodicMinorMode(MelodicMinorMode::HalfDiminished));
    out.push(ScaleEnumType::MelodicMinorMode(MelodicMinorMode::Altered));
    proof {
        assert(out@ =~= spec_candidates());
    }
    out
}

/// Whether two step lists hold the same steps.
fn eq_steps(a: &Vec<i32>, b: &Vec<i32>) -> (r: bool)
    ensures
        r == (int_seq(a@) == int_seq(b@)),
{
    if a.len() != b.len() {
        proof {
            assert(int_seq(a@).len() != int_seq(b@).len());
        }
        return false;
    }
    let mut i: usize = 0;
    while i < a.len()
        invariant
            0 <= i <= a@.len(),
            a@.len() == b@.len(),
            forall|k: int| 0 <= k < i ==> #[trigger] a@[k] == b@[k],
        decreases a@.len() - i,
    {
        if a[i] != b[i] {
            proof {
                assert(int_seq(a@)[i as int] != int_seq(b@)[i as int]);
            }
            return false;
        }
        i = i + 1;
    }
    proof {
        assert(int_seq(a@) =~= int_seq(b@));
    }
    true
}

/// A step list rotated left by a shift, indices wrapping around.
pub open spec fn spec_rotl(s: Seq<int>, k: int) -> Seq<int> {
    Seq::new(s.len(), |t: int| s[(t + k) % (s.len() as int)])
}

/// The first rotation index from the given position at which the steps,
/// rotated left, equal the parent's steps.
pub open spec fn spec_rot_match(steps: Seq<int>, parent: Seq<int>, i: int) -> Option<int>
    decreases steps.len() - i,
{
    if i < 0 || i >= steps.len() {
        None
    } else if spec_rotl(steps, i) == parent {
        Some(i)
    } else {
        spec_rot_match(steps, parent, i + 1)
    }
}

/// The parent scale types, in the order they are matched.
pub open spec fn spec_parents() -> Seq<ScaleType> {
    seq![
        ScaleType::Major,
        ScaleType::Minor,
        ScaleType::HarmonicMinor,
        ScaleType::MelodicMinor,
        ScaleType::MajorPentatonic,
        ScaleType::MinorPentatonic,
        ScaleType::MinorBlues,
        ScaleType::MajorBlues,
        ScaleType::WholeTone,
        ScaleType::Diminished,
        ScaleType::Chromatic,
    ]
}

/// The first parent type from the given position some rotation of the
/// steps matches, with the smallest matching rotation index.
pub open spec fn spec_parent_from(steps: Seq<int>, k: int) -> Option<(ScaleEnumType, int)>
    decreases spec_parents().len() - k,
{
    if k < 0 || k >= spec_parents().len() {
        None
    } else {
        let t = spec_parents()[k];
        match spec_rot_match(steps, spec_type_steps(t), 0) {
            Some(i) => Some((ScaleEnumType::ScaleType(t), i)),
            None => spec_parent_from(steps, k + 1),
        }
    }
}

/// What `get_parent_scale_type` returns: the first parent scale some
/// rotation of this scale matches, with the rotation index.
pub open spec fn spec_parent_scale(s: Seq<Interval>) -> Option<(ScaleEnumType, int)> {
    if s.len() == 0 {
        None
    } else {
        spec_parent_from(scale_steps(s), 0)
    }
}

/// Whether the steps rotated left by a given index equal a parent's
/// steps.
fn rot_equals(steps: &Vec<i32>, parent: &Vec<i32>, i: usize) -> (r: bool)
    requires
        i < steps@.len(),
        steps@.len() <= 127,
    ensures
        r == (spec_rotl(int_seq(steps@), i as int) == int_seq(parent@)),
{
    let n = steps.len();
    if parent.len() != n {
        proof {
            assert(spec_rotl(int_seq(steps@), i as int).len() != int_seq(parent@).len());
        }
        return false;
    }
    let mut j: usize = 0;
    while j < n
        invariant
            0 <= j <= n,
            i < n,
            n == steps@.len(),
            n == parent@.len(),
            n <= 127,
            forall|t: int|
                0 <= t < j ==> #[trigger] spec_rotl(int_seq(steps@), i as int)[t] == int_seq(
                    parent@,
                )[t],
        decreases n - j,
    {
        let idx = if i + j >= n {
            i + j - n
        } else {
            i + j
        };
        proof {
            let l = n as int;
            if i + j >= n {
                assert((i as int + j as int) % l == i as int + j as int - l) by (nonlinear_arith)
                    requires
                        l > 0,
                        (i as int) < l,
                        (j as int) < l,
                        i as int + j as int >= l,
                ;
            } else {
                assert((i as int + j as int) % l == i as int + j as int) by (nonlinear_arith)
                    requires
                        l > 0,
                        0 <= i as int,
                        0 <= j as int,
                        (i as int + j as int) < l,
                ;
            }
        }
        if steps[idx] != parent[j] {
            proof {
                assert(spec_rotl(int_seq(steps@), i as int)[j as int] != int_seq(
                    parent@,
                )[j as int]);
            }
            return false;
        }
        j = j + 1;
    }
    proof {
        assert(spec_rotl(int_seq(steps@), i as int) =~= int_seq(parent@));
    }
    true
}

impl Scale {
    /// The first known scale type or mode whose pitch content equals
    /// this scale's, matching the named types before the modes.
    pub fn get_known_scale_type(&self) -> (r: Option<ScaleEnumType>)
        ensures
            r == spec_known_scale(self.intervals@),
    {
        if self.intervals.len() == 0 {
            return None;
        }
        let steps = self.to_steps();
        proof {
            assert(int_seq(steps@) =~= scale_steps(self.intervals@));
        }
        let candidates = all_candidates();
        let mut i: usize = 0;
        while i < candidates.len()
            invariant
                0 <= i <= candidates@.len(),
                candidates@ == spec_candidates(),
                int_seq(steps@) == scale_steps(self.intervals@),
                self.intervals@.len() >= 1,
                spec_known_from(scale_steps(self.intervals@), 0) == spec_known_from(
                    scale_steps(self.intervals@),
                    i as int,
                ),
            decreases candidates@.len() - i,
        {
            let t = candidates[i];
            let table = steps_table(t);
            if eq_steps(&table, &steps) {
                return Some(t);
            }
            i = i + 1;
        }
        None
    }

    /// Whether the scale's pitch content matches a known scale type or
    /// mode.
    pub fn is_known_scale(&self) -> (r: bool)
        ensures
            r == (spec_known_scale(self.intervals@) is Some),
    {
        self.get_known_scale_type().is_some()
    }

    /// Reads a scale token: a list of at least two steps, such as
    /// `"2, 2, 1, 2, 2, 2, 1"`, or a list of at least two notes, such as
    /// `"C D E F G A B C"`, separated by commas or spaces.  Anything
    /// else fails with `InvalidScale`.
    pub fn from_str(s: &str) -> (r: Result<Scale, ResonataError>)
        ensures
            (r matches Ok(sc) ==> spec_parse_scale(s@) == Ok::<Seq<Interval>, ResonataError>(
                sc.intervals@,
            ) && scale_wf(sc)),
            (r matches Err(e) ==> spec_parse_scale(s@) == Err::<Seq<Interval>, ResonataError>(e)),
    {
        let tokens = crate::notation::split_tokens(s);
        let ghost toks = spec_tokens(s@);
        if tokens.len() >= 2 {
            let mut steps: Vec<i32> = Vec::new();
            let mut all_steps = true;
            let mut i: usize = 0;
            while i < tokens.len() && all_steps
                invariant
                    0 <= i <= tokens@.len(),
                    tokens.deep_view() == toks,
                    all_steps ==> steps@.len() == i,
                    all_steps ==> forall|k: int|
                        0 <= k < i ==> spec_parse_signed(#[trigger] toks[k]) == Some(
                            steps@[k] as int,
                        ),
                    !all_steps ==> !all_steps_tokens(toks),
                decreases tokens@.len() - i,
            {
                proof {
                    assert(tokens@[i as int]@ == toks[i as int]);
                }
                match crate::notation::parse_signed(tokens[i].as_str()) {
                    Some(v) => {
                        steps.push(v);
                    },
                    None => {
                        all_steps = false;
                    },
                }
                i = i + 1;
            }
            if all_steps {
                proof {
                    assert(all_steps_tokens(toks));
                    assert(int_seq(steps@) =~= token_steps(toks));
                }
                return Scale::from_steps(steps);
            }
        }
        if tokens.len() >= 2 {
            let mut notes: Vec<Note> = Vec::new();
            let mut all_notes = true;
            let mut i: usize = 0;
            while i < tokens.len() && all_notes
                invariant
                    0 <= i <= tokens@.len(),
                    tokens.deep_view() == toks,
                    all_notes ==> notes@.len() == i,
                    all_notes ==> forall|k: int|
                        0 <= k < i ==> spec_parse_note(#[trigger] toks[k]) == Ok::<
                            Note,
                            ResonataError,
                        >(notes@[k]),
                    !all_notes ==> !all_note_tokens(toks),
                decreases tokens@.len() - i,
            {
                proof {
                    assert(tokens@[i as int]@ == toks[i as int]);
                }
                match Note::from_str(tokens[i].as_str()) {
                    Ok(n) => {
                        notes.push(n);
                    },
                    Err(_) => {
                        all_notes = false;
                    },
                }
                i = i + 1;
            }
            if all_notes {
                proof {
                    assert(all_note_tokens(toks));
                    assert(notes@ =~= token_notes(toks));
                    assert(notes@.len() >= 2);
                }
                return Scale::from_notes_checked(notes);
            }
        }
        Err(ResonataError::ScaleError(ScaleError::InvalidScale))
    }

    /// A scale from a note list, failing instead of demanding the totals
    /// stay in range.
    fn from_notes_checked(notes: Vec<Note>) -> (r: Result<Scale, ResonataError>)
        requires
            notes@.len() >= 1,
        ensures
            (r matches Ok(sc) ==> spec_note_scan(notes@.skip(1), note_degree(notes@[0]), 0) == Ok::<
                Seq<Interval>,
                ResonataError,
            >(sc.intervals@) && scale_wf(sc)),
            (r matches Err(e) ==> spec_note_scan(notes@.skip(1), note_degree(notes@[0]), 0)
                == Err::<Seq<Interval>, ResonataError>(e)),
    {
        let n = notes.len();
        let mut out: Vec<Interval> = Vec::new();
        let root_deg = notes[0].to_chromatic_scale_degree();
        let mut last: i32 = 0;
        let mut j: usize = 1;
        proof {
            assert(notes@.skip(1) =~= notes@.skip(1));
            assert(out@ + spec_note_scan(notes@.skip(1), root_deg as int, 0).unwrap()
                =~= spec_note_scan(notes@.skip(1), root_deg as int, 0).unwrap());
        }
        while j < n
            invariant
                1 <= j <= n,
                n == notes@.len(),
                root_deg == note_degree(notes@[0]),
                0 <= last <= MAX_SEMITONES,
                forall|i: int| 0 <= i < out@.len() ==> interval_wf(#[trigger] out@[i]),
                (match spec_note_scan(notes@.skip(j as int), root_deg as int, last as int) {
                    Ok(rest) => spec_note_scan(notes@.skip(1), root_deg as int, 0) == Ok::<
                        Seq<Interval>,
                        ResonataError,
                    >(out@ + rest),
                    Err(e) => spec_note_scan(notes@.skip(1), root_deg as int, 0) == Err::<
                        Seq<Interval>,
                        ResonataError,
                    >(e),
                }),
            decreases n - j,
        {
            let raw = notes[j].to_chromatic_scale_degree() - root_deg;
            let mut steps = raw;
            while steps <= last
                invariant
                    lift_above(steps as int, last as int) == lift_above(raw as int, last as int),
                    steps >= raw,
                    last <= MAX_SEMITONES,
                decreases last - steps + 12,
            {
                steps = steps + 12;
            }
            proof {
                assert(lift_above(steps as int, last as int) == steps as int);
                let tail = notes@.skip(j as int);
                assert(tail[0] == notes@[j as int]);
                assert(tail.skip(1) =~= notes@.skip(j + 1));
            }
            if steps > MAX_SEMITONES {
                let clipped: i16 = if steps > 0x7fff {
                    0x7fff
                } else {
                    steps as i16
                };
                return Err(
                    ResonataError::IntervalError(IntervalError::InvalidIntervalSize(clipped)),
                );
            }
            let iv = match Interval::from_semitones(steps) {
                Ok(x) => x,
                Err(e) => {
                    assert(false);
                    return Err(e);
                },
            };
            let ghost prev = out@;
            out.push(iv);
            proof {
                let rest2 = spec_note_scan(notes@.skip(j + 1), root_deg as int, steps as int);
                if rest2 is Ok {
                    assert(out@ + rest2.unwrap() =~= prev + (seq![iv] + rest2.unwrap()));
                }
            }
            last = steps;
            j = j + 1;
        }
        proof {
            assert(notes@.skip(n as int) =~= Seq::<Note>::empty());
            assert(out@ + Seq::<Interval>::empty() =~= out@);
        }
        Ok(Scale { intervals: out })
    }

    /// The notation of the scale: its intervals' tokens joined by commas.
    pub fn to_string(&self) -> (r: String)
        ensures
            r@ == spec_format_scale(self.intervals@),
    {
        let mut out = String::new();
        let n = self.intervals.len();
        let mut i: usize = 0;
        proof {
            assert(self.intervals@.take(0) =~= Seq::<Interval>::empty());
            reveal_strlit(", ");
        }
        while i < n
            invariant
                0 <= i <= n,
                n == self.intervals@.len(),
                out@ == spec_format_scale(self.intervals@.take(i as int)),
            decreases n - i,
        {
            proof {
                reveal_strlit(", ");
                assert((", ")@ =~= seq![',', ' ']);
                assert(self.intervals@.take(i + 1).drop_last() =~= self.intervals@.take(i as int));
                assert(self.intervals@.take(i + 1).last() == self.intervals@[i as int]);
            }
            if i > 0 {
                out.append(", ");
            }
            let token = self.intervals[i].to_string();
            out.append(token.as_str());
            i = i + 1;
        }
        proof {
            assert(self.intervals@.take(n as int) =~= self.intervals@);
        }
        out
    }

    /// The first parent scale type some rotation of this scale matches,
    /// with the rotation index that reaches the parent.
    pub fn get_parent_scale_type(&self) -> (r: Option<(ScaleEnumType, usize)>)
        requires
            self.intervals@.len() <= 127,
        ensures
            (r matches Some(p) ==> spec_parent_scale(self.intervals@) == Some((p.0, p.1 as int))
                && p.1 < self.intervals@.len()),
            r is None ==> spec_parent_scale(self.intervals@) is None,
    {
        if self.intervals.len() == 0 {
            return None;
        }
        let steps = self.to_steps();
        proof {
            assert(int_seq(steps@) =~= scale_steps(self.intervals@));
        }
        let mut k: usize = 0;
        while k < 11
            invariant
                0 <= k <= 11,
                int_seq(steps@) == scale_steps(self.intervals@),
                1 <= steps@.len() <= 127,
                steps@.len() == self.intervals@.len(),
                spec_parent_from(scale_steps(self.intervals@), 0) == spec_parent_from(
                    scale_steps(self.intervals@),
                    k as int,
                ),
            decreases 11 - k,
        {
            let parent_type = match k {
                0 => ScaleType::Major,
                1 => ScaleType::Minor,
                2 => ScaleType::HarmonicMinor,
                3 => ScaleType::MelodicMinor,
                4 => ScaleType::MajorPentatonic,
                5 => ScaleType::MinorPentatonic,
                6 => ScaleType::MinorBlues,
                7 => ScaleType::MajorBlues,
                8 => ScaleType::WholeTone,
                9 => ScaleType::Diminished,
                _ => ScaleType::Chromatic,
            };
            proof {
                assert(spec_parents()[k as int] == parent_type);
            }
            let parent = parent_type.as_steps();
            let mut i: usize = 0;
            while i < steps.len()
                invariant
                    0 <= i <= steps@.len(),
                    1 <= steps@.len() <= 127,
                    steps@.len() == self.intervals@.len(),
                    int_seq(parent@) == spec_type_steps(parent_type),
                    int_seq(steps@) == scale_steps(self.intervals@),
                    spec_parents()[k as int] == parent_type,
                    0 <= k < 11,
                    spec_parent_from(scale_steps(self.intervals@), 0) == spec_parent_from(
                        scale_steps(self.intervals@),
                        k as int,
                    ),
                    spec_rot_match(scale_steps(self.intervals@), spec_type_steps(parent_type), 0)
                        == spec_rot_match(scale_steps(self.intervals@), spec_type_steps(parent_type), i as int),
                decreases steps@.len() - i,
            {
                if rot_equals(&steps, &parent, i) {
                    proof {
                        assert(spec_rot_match(
                            scale_steps(self.intervals@),
                            spec_type_steps(parent_type),
                            i as int,
                        ) == Some(i as int));
                        assert(spec_parent_from(scale_steps(self.intervals@), k as int) == Some(
                            (ScaleEnumType::ScaleType(parent_type), i as int),
                        ));
                    }
                    return Some((ScaleEnumType::ScaleType(parent_type), i));
                }
                i = i + 1;
            }
            k = k + 1;
        }
        None
    }
}

} // verus!
