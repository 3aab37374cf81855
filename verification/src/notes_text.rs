//! The textual notation of notes: parsing tokens such as `"C#"`, `"Bbb"`
//! or `"F#4"`, and printing notes with the conventional accidental signs.
//!
//! A note token is one letter `A` through `G` in either case, followed by
//! a run of accidental characters: `#` or `♯` for a sharp, `x` or `𝄪` for
//! a double sharp, `b` or `♭` for a flat, and `♮` alone for a natural.  A
//! pitched-note token appends an optional octave number, `-1` through `9`;
//! a missing or unreadable octave number means octave 4.

use crate::error::{NoteError, ResonataError};
use crate::notation::{digit_char, is_digit_char};
use crate::notes::{Accidental, Note, NoteName, PitchedNote};
use vstd::prelude::*;
use vstd::string::StrSliceExecFns;
use vstd::string::StringExecFns;

verus! {

/// Whether a character may appear in an accidental token.
pub open spec fn is_accidental_char(c: char) -> bool {
    c == '#' || c == '\u{266f}' || c == 'x' || c == '\u{1d12a}' || c == 'b' || c == '\u{266d}'
        || c == '\u{266e}'
}

/// What scanning an accidental token yields, starting from the given
/// sharp and flat counts.  Sharps and double sharps raise the sharp
/// count, flats the flat count; a natural sign is only legal while both
/// counts are zero.  A token mixing sharps and flats is rejected, and a
/// count beyond 255 cannot be represented and is rejected.
pub open spec fn spec_acc_scan(t: Seq<char>, sharps: int, flats: int) -> Result<
    Accidental,
    ResonataError,
>
    decreases t.len(),
{
    if t.len() == 0 {
        if sharps > 0 && flats > 0 {
            Err(ResonataError::NoteError(NoteError::InvalidAccidentalCombination))
        } else if flats > 0 {
            if flats <= 255 {
                Ok(Accidental::Flat(flats as u8))
            } else {
                Err(ResonataError::NoteError(NoteError::InvalidAccidental))
            }
        } else {
            if sharps <= 255 {
                Ok(Accidental::Sharp(sharps as u8))
            } else {
                Err(ResonataError::NoteError(NoteError::InvalidAccidental))
            }
        }
    } else {
        let c = t[0];
        if c == '#' || c == '\u{266f}' {
            spec_acc_scan(t.skip(1), sharps + 1, flats)
        } else if c == 'x' || c == '\u{1d12a}' {
            spec_acc_scan(t.skip(1), sharps + 2, flats)
        } else if c == 'b' || c == '\u{266d}' {
            spec_acc_scan(t.skip(1), sharps, flats + 1)
        } else if c == '\u{266e}' {
            if sharps == 0 && flats == 0 {
                Ok(Accidental::Natural)
            } else {
                Err(ResonataError::NoteError(NoteError::InvalidAccidentalCombination))
            }
        } else {
            Err(ResonataError::NoteError(NoteError::InvalidAccidental))
        }
    }
}

/// What parsing an accidental token yields.
pub open spec fn spec_parse_accidental(t: Seq<char>) -> Result<Accidental, ResonataError> {
    spec_acc_scan(t, 0, 0)
}

impl Accidental {
    /// Reads an accidental token: `#` or `♯` count one sharp, `x` or `𝄪`
    /// two, `b` or `♭` one flat, and `♮` alone names the natural.  A
    /// token mixing sharps and flats fails with
    /// `InvalidAccidentalCombination`, any other character with
    /// `InvalidAccidental`.  An empty token reads as zero sharps.
    pub fn from_str(s: &str) -> (r: Result<Accidental, ResonataError>)
        ensures
            r == spec_parse_accidental(s@),
    {
        let len = s.unicode_len();
        let mut sharps: u128 = 0;
        let mut flats: u128 = 0;
        let mut i: usize = 0;
        proof {
            assert(s@.skip(0) =~= s@);
        }
        while i < len
            invariant
                0 <= i <= len,
                len == s@.len(),
                sharps <= 2 * (i as u128),
                flats <= i as u128,
                spec_acc_scan(s@.skip(i as int), sharps as int, flats as int)
                    == spec_parse_accidental(s@),
            decreases len - i,
        {
            let c = s.get_char(i);
            proof {
                assert(s@.skip(i as int)[0] == s@[i as int]);
                assert(s@.skip(i as int).skip(1) =~= s@.skip(i + 1));
            }
            if c == '#' || c == '\u{266f}' {
                sharps = sharps + 1;
            } else if c == 'x' || c == '\u{1d12a}' {
                sharps = sharps + 2;
            } else if c == 'b' || c == '\u{266d}' {
                flats = flats + 1;
            } else if c == '\u{266e}' {
                if sharps == 0 && flats == 0 {
                    return Ok(Accidental::Natural);
                } else {
                    return Err(
                        ResonataError::NoteError(NoteError::InvalidAccidentalCombination),
                    );
                }
            } else {
                return Err(ResonataError::NoteError(NoteError::InvalidAccidental));
            }
            i = i + 1;
        }
        proof {
            assert(s@.skip(len as int) =~= Seq::<char>::empty());
        }
        if sharps > 0 && flats > 0 {
            Err(ResonataError::NoteError(NoteError::InvalidAccidentalCombination))
        } else if flats > 0 {
            if flats <= 255 {
                Ok(Accidental::Flat(flats as u8))
            } else {
                Err(ResonataError::NoteError(NoteError::InvalidAccidental))
            }
        } else {
            if sharps <= 255 {
                Ok(Accidental::Sharp(sharps as u8))
            } else {
                Err(ResonataError::NoteError(NoteError::InvalidAccidental))
            }
        }
    }

    /// The conventional notation of the accidental: `♭` repeated for
    /// flats, nothing for a natural, and sharps written as `𝄪` signs
    /// with one leading `♯` when the count is odd.
    pub fn to_string(&self) -> (r: String)
        ensures
            r@ == spec_format_accidental(*self),
    {
        proof {
            reveal_strlit("\u{266d}");
            reveal_strlit("\u{266f}");
            reveal_strlit("\u{1d12a}");
            reveal_strlit("");
        }
        match self {
            Accidental::Flat(n) => {
                let r = crate::notation::repeat_letter("\u{266d}", *n);
                assert(r@ =~= spec_format_accidental(*self));
                r
            },
            Accidental::Natural => {
                let r = String::new();
                assert(r@ =~= spec_format_accidental(*self));
                r
            },
            Accidental::Sharp(n) => {
                if *n % 2 == 0 {
                    let r = crate::notation::repeat_letter("\u{1d12a}", *n / 2);
                    assert(r@ =~= spec_format_accidental(*self));
                    r
                } else {
                    let mut r = String::from_str("\u{266f}");
                    let tail = crate::notation::repeat_letter("\u{1d12a}", (*n - 1) / 2);
                    r.append(tail.as_str());
                    assert(r@ =~= spec_format_accidental(*self));
                    r
                }
            },
        }
    }
}

/// The notation `Accidental::to_string` prints.
pub open spec fn spec_format_accidental(a: Accidental) -> Seq<char> {
    match a {
        Accidental::Flat(n) => Seq::new(n as nat, |i: int| '\u{266d}'),
        Accidental::Natural => Seq::<char>::empty(),
        Accidental::Sharp(n) => if n % 2 == 0 {
            Seq::new((n / 2) as nat, |i: int| '\u{1d12a}')
        } else {
            seq!['\u{266f}'] + Seq::new(((n - 1) / 2) as nat, |i: int| '\u{1d12a}')
        },
    }
}

/// The letter a note-name character names, in either case, if any.
pub open spec fn spec_letter_of_char(c: char) -> Option<NoteName> {
    if c == 'c' || c == 'C' {
        Some(NoteName::C)
    } else if c == 'd' || c == 'D' {
        Some(NoteName::D)
    } else if c == 'e' || c == 'E' {
        Some(NoteName::E)
    } else if c == 'f' || c == 'F' {
        Some(NoteName::F)
    } else if c == 'g' || c == 'G' {
        Some(NoteName::G)
    } else if c == 'a' || c == 'A' {
        Some(NoteName::A)
    } else if c == 'b' || c == 'B' {
        Some(NoteName::B)
    } else {
        None
    }
}

/// What parsing a note-name token yields: one letter `A` through `G`, in
/// either case.
pub open spec fn spec_parse_name(t: Seq<char>) -> Result<NoteName, ResonataError> {
    if t.len() == 1 && spec_letter_of_char(t[0]) is Some {
        Ok(spec_letter_of_char(t[0]).unwrap())
    } else {
        Err(ResonataError::NoteError(NoteError::InvalidNoteName))
    }
}

impl NoteName {
    /// Reads a note-name token: one letter `A` through `G`, in either
    /// case.  Anything else fails with `InvalidNoteName`.
    pub fn from_str(s: &str) -> (r: Result<NoteName, ResonataError>)
        ensures
            r == spec_parse_name(s@),
    {
        let len = s.unicode_len();
        if len != 1 {
            return Err(ResonataError::NoteError(NoteError::InvalidNoteName));
        }
        match letter_of_char(s.get_char(0)) {
            Some(n) => Ok(n),
            None => Err(ResonataError::NoteError(NoteError::InvalidNoteName)),
        }
    }

    /// The letter as a string, `"C"` through `"B"`.
    pub fn to_string(&self) -> (r: String)
        ensures
            r@ == seq![name_char(*self)],
    {
        proof {
            reveal_strlit("C");
            reveal_strlit("D");
            reveal_strlit("E");
            reveal_strlit("F");
            reveal_strlit("G");
            reveal_strlit("A");
            reveal_strlit("B");
        }
        let r = match self {
            NoteName::C => String::from_str("C"),
            NoteName::D => String::from_str("D"),
            NoteName::E => String::from_str("E"),
            NoteName::F => String::from_str("F"),
            NoteName::G => String::from_str("G"),
            NoteName::A => String::from_str("A"),
            NoteName::B => String::from_str("B"),
        };
        assert(r@ =~= seq![name_char(*self)]);
        r
    }
}

/// The upper-case letter of a note name.
pub open spec fn name_char(n: NoteName) -> char {
    match n {
        NoteName::C => 'C',
        NoteName::D => 'D',
        NoteName::E => 'E',
        NoteName::F => 'F',
        NoteName::G => 'G',
        NoteName::A => 'A',
        NoteName::B => 'B',
    }
}

/// The letter a note-name character names, in either case, if any.
fn letter_of_char(c: char) -> (r: Option<NoteName>)
    ensures
        r == spec_letter_of_char(c),
{
    match c {
        'c' | 'C' => Some(NoteName::C),
        'd' | 'D' => Some(NoteName::D),
        'e' | 'E' => Some(NoteName::E),
        'f' | 'F' => Some(NoteName::F),
        'g' | 'G' => Some(NoteName::G),
        'a' | 'A' => Some(NoteName::A),
        'b' | 'B' => Some(NoteName::B),
        _ => None,
    }
}

/// What parsing a note token yields: a letter, then a run of accidental
/// characters; an empty run reads as a natural.  A token whose first
/// character is no letter, or whose tail holds a character outside the
/// accidental set, fails with `InvalidNoteName`.
pub open spec fn spec_parse_note(t: Seq<char>) -> Result<Note, ResonataError> {
    if t.len() == 0 || spec_letter_of_char(t[0]) is None {
        Err(ResonataError::NoteError(NoteError::InvalidNoteName))
    } else if !(forall|i: int| 1 <= i < t.len() ==> is_accidental_char(#[trigger] t[i])) {
        Err(ResonataError::NoteError(NoteError::InvalidNoteName))
    } else {
        let name = spec_letter_of_char(t[0]).unwrap();
        if t.len() == 1 {
            Ok(Note { name, accidental: Accidental::Natural })
        } else {
            match spec_parse_accidental(t.skip(1)) {
                Ok(a) => Ok(Note { name, accidental: a }),
                Err(e) => Err(e),
            }
        }
    }
}

impl Note {
    /// Reads a note token: one letter `A` through `G` in either case,
    /// then a run of accidental characters; an empty run is a natural.
    /// `"C#"` is C sharp, `"Bbb"` is B double flat.
    pub fn from_str(s: &str) -> (r: Result<Note, ResonataError>)
        ensures
            r == spec_parse_note(s@),
    {
        let len = s.unicode_len();
        if len == 0 {
            return Err(ResonataError::NoteError(NoteError::InvalidNoteName));
        }
        let name = match letter_of_char(s.get_char(0)) {
            Some(n) => n,
            None => {
                return Err(ResonataError::NoteError(NoteError::InvalidNoteName));
            },
        };
        let mut i: usize = 1;
        while i < len
            invariant
                1 <= i <= len,
                len == s@.len(),
                forall|j: int| 1 <= j < i ==> is_accidental_char(#[trigger] s@[j]),
            decreases len - i,
        {
            if !accidental_char_exec(s.get_char(i)) {
                assert(!is_accidental_char(s@[i as int]));
                return Err(ResonataError::NoteError(NoteError::InvalidNoteName));
            }
            i = i + 1;
        }
        if len == 1 {
            return Ok(Note { name, accidental: Accidental::Natural });
        }
        let acc_part = s.substring_char(1, len);
        proof {
            assert(acc_part@ =~= s@.skip(1));
        }
        match Accidental::from_str(acc_part) {
            Ok(a) => Ok(Note { name, accidental: a }),
            Err(e) => Err(e),
        }
    }

    /// The notation of the note: its letter, then its accidental.
    pub fn to_string(&self) -> (r: String)
        ensures
            r@ == spec_format_note(*self),
    {
        let mut out = self.name.to_string();
        let acc = self.accidental.to_string();
        out.append(acc.as_str());
        out
    }
}

/// The notation `Note::to_string` prints: the letter, then the
/// accidental.
pub open spec fn spec_format_note(n: Note) -> Seq<char> {
    seq![name_char(n.name)] + spec_format_accidental(n.accidental)
}

/// Whether a character may appear in an accidental token.
fn accidental_char_exec(c: char) -> (r: bool)
    ensures
        r == is_accidental_char(c),
{
    c == '#' || c == '\u{266f}' || c == 'x' || c == '\u{1d12a}' || c == 'b' || c == '\u{266d}'
        || c == '\u{266e}'
}

/// What the octave suffix of a pitched-note token means: a missing
/// number, a bare minus sign, or a number outside the signed byte range
/// all mean octave 4; otherwise the written number.
pub open spec fn spec_octave_value(t: Seq<char>) -> int {
    if t.len() == 0 {
        4
    } else if t[0] == '-' {
        if t.len() == 1 {
            4
        } else if crate::notation::digits_value(t.skip(1)) <= 128 {
            -crate::notation::digits_value(t.skip(1))
        } else {
            4
        }
    } else {
        if crate::notation::digits_value(t) <= 127 {
            crate::notation::digits_value(t)
        } else {
            4
        }
    }
}

/// Whether a sequence is a well-formed octave suffix: empty, or an
/// optional minus sign followed by digits only.
pub open spec fn octave_suffix_ok(t: Seq<char>) -> bool {
    if t.len() == 0 {
        true
    } else if t[0] == '-' {
        forall|i: int| 1 <= i < t.len() ==> is_digit_char(#[trigger] t[i])
    } else {
        forall|i: int| 0 <= i < t.len() ==> is_digit_char(#[trigger] t[i])
    }
}

/// What parsing a pitched-note token yields.  The token is a note token
/// followed by an octave suffix; a suffix that is not an optional minus
/// sign and digits fails with `InvalidNoteName`, an octave outside -1
/// through 9 fails with `InvalidOctave`, and the note part is read as a
/// note token.
pub open spec fn spec_parse_pnote(t: Seq<char>) -> Result<PitchedNote, ResonataError> {
    let k = note_part_len(t);
    if k == 0 {
        Err(ResonataError::NoteError(NoteError::InvalidNoteName))
    } else if !octave_suffix_ok(t.skip(k)) {
        Err(ResonataError::NoteError(NoteError::InvalidNoteName))
    } else {
        match spec_parse_note(t.take(k)) {
            Ok(note) => {
                let octave = spec_octave_value(t.skip(k));
                if octave < -1 || octave > 9 {
                    Err(ResonataError::NoteError(NoteError::InvalidOctave))
                } else {
                    Ok(PitchedNote { note, octave: octave as i8 })
                }
            },
            Err(e) => Err(e),
        }
    }
}

/// The length of the note part of a pitched-note token: the leading
/// letter, if any, and the accidental characters after it.
pub open spec fn note_part_len(t: Seq<char>) -> int {
    if t.len() == 0 || spec_letter_of_char(t[0]) is None {
        0
    } else {
        1 + accidental_run_len(t.skip(1))
    }
}

/// The length of the leading run of accidental characters.
pub open spec fn accidental_run_len(t: Seq<char>) -> int
    decreases t.len(),
{
    if t.len() == 0 || !is_accidental_char(t[0]) {
        0
    } else {
        1 + accidental_run_len(t.skip(1))
    }
}

/// The accidental run length is the unique cut: everything before it is
/// an accidental character and the character at it, if any, is not.
proof fn lemma_accidental_run_len_unique(t: Seq<char>, k: int)
    requires
        0 <= k <= t.len(),
        forall|i: int| 0 <= i < k ==> is_accidental_char(#[trigger] t[i]),
        k < t.len() ==> !is_accidental_char(t[k]),
    ensures
        accidental_run_len(t) == k,
    decreases k,
{
    if k == 0 {
    } else {
        assert(is_accidental_char(t[0]));
        let u = t.skip(1);
        assert(forall|i: int| 0 <= i < k - 1 ==> #[trigger] u[i] == t[i + 1]);
        lemma_accidental_run_len_unique(u, k - 1);
    }
}

impl PitchedNote {
    /// Reads a pitched-note token: a note token, then an optional octave
    /// number `-1` through `9`.  A missing or unreadable number means
    /// octave 4, so `"C#"` reads as C sharp in octave 4.
    pub fn from_str(s: &str) -> (r: Result<PitchedNote, ResonataError>)
        ensures
            r == spec_parse_pnote(s@),
    {
        let len = s.unicode_len();
        if len == 0 {
            return Err(ResonataError::NoteError(NoteError::InvalidNoteName));
        }
        if letter_of_char(s.get_char(0)).is_none() {
            return Err(ResonataError::NoteError(NoteError::InvalidNoteName));
        }
        let mut k: usize = 1;
        while k < len && accidental_char_exec(s.get_char(k))
            invariant
                1 <= k <= len,
                len == s@.len(),
                forall|j: int| 1 <= j < k ==> is_accidental_char(#[trigger] s@[j]),
            decreases len - k,
        {
            k = k + 1;
        }
        proof {
            let u = s@.skip(1);
            assert(forall|i: int| 0 <= i < u.len() ==> #[trigger] u[i] == s@[i + 1]);
            lemma_accidental_run_len_unique(u, k - 1);
            assert(note_part_len(s@) == k);
        }
        let suffix = s.substring_char(k, len);
        proof {
            assert(suffix@ =~= s@.skip(k as int));
        }
        let octave = match octave_of_suffix(suffix) {
            Some(v) => v,
            None => {
                return Err(ResonataError::NoteError(NoteError::InvalidNoteName));
            },
        };
        let note_part = s.substring_char(0, k);
        proof {
            assert(note_part@ =~= s@.take(k as int));
        }
        let note = match Note::from_str(note_part) {
            Ok(n) => n,
            Err(e) => {
                return Err(e);
            },
        };
        if octave < -1 || octave > 9 {
            return Err(ResonataError::NoteError(NoteError::InvalidOctave));
        }
        Ok(PitchedNote { note, octave })
    }

    /// The notation of the note: its letter, its accidental, then its
    /// octave.
    pub fn to_string(&self) -> (r: String)
        requires
            -128 < self.octave,
        ensures
            r@ == spec_format_pnote(*self),
    {
        let mut out = self.note.to_string();
        proof {
            reveal_strlit("-");
        }
        if self.octave < 0 {
            out.append("-");
            let d = octave_digits((-(self.octave as i32)) as u32);
            out.append(d.as_str());
            assert(out@ =~= spec_format_pnote(*self));
        } else {
            let d = octave_digits(self.octave as u32);
            out.append(d.as_str());
            assert(out@ =~= spec_format_pnote(*self));
        }
        out
    }
}

/// The notation `PitchedNote::to_string` prints: the note, then the
/// octave in decimal.
pub open spec fn spec_format_pnote(p: PitchedNote) -> Seq<char> {
    spec_format_note(p.note) + (if p.octave < 0 {
        seq!['-'] + octave_digit_chars(-(p.octave as int))
    } else {
        octave_digit_chars(p.octave as int)
    })
}

/// The decimal digits of a small octave magnitude.
pub open spec fn octave_digit_chars(v: int) -> Seq<char> {
    if v < 10 {
        seq![digit_char(v)]
    } else if v < 100 {
        seq![digit_char(v / 10), digit_char(v % 10)]
    } else {
        seq![digit_char(v / 100), digit_char((v / 10) % 10), digit_char(v % 10)]
    }
}

/// The decimal digits of an octave magnitude, up to three digits.
fn octave_digits(v: u32) -> (r: String)
    requires
        v <= 128,
    ensures
        r@ == octave_digit_chars(v as int),
{
    let mut out = String::new();
    if v >= 100 {
        out.append(crate::notation::digit_str(v / 100));
        out.append(crate::notation::digit_str((v / 10) % 10));
        out.append(crate::notation::digit_str(v % 10));
        assert(out@ =~= octave_digit_chars(v as int));
    } else if v >= 10 {
        out.append(crate::notation::digit_str(v / 10));
        out.append(crate::notation::digit_str(v % 10));
        assert(out@ =~= octave_digit_chars(v as int));
    } else {
        out.append(crate::notation::digit_str(v));
        assert(out@ =~= octave_digit_chars(v as int));
    }
    out
}

/// Reads the octave suffix: `None` when it is not an optional minus sign
/// followed by digits, otherwise the octave it means, with 4 standing in
/// for a missing or out-of-range number.
fn octave_of_suffix(s: &str) -> (r: Option<i8>)
    ensures
        r matches Some(v) ==> octave_suffix_ok(s@) && v == spec_octave_value(s@),
        r is None ==> !octave_suffix_ok(s@),
{
    let len = s.unicode_len();
    if len == 0 {
        return Some(4);
    }
    if s.get_char(0) == '-' {
        if len == 1 {
            proof {
                assert(octave_suffix_ok(s@));
            }
            return Some(4);
        }
        let digits = s.substring_char(1, len);
        proof {
            assert(digits@ =~= s@.skip(1));
        }
        match digits_of_str(digits) {
            Some(v) => {
                proof {
                    assert(forall|i: int|
                        1 <= i < s@.len() ==> #[trigger] s@[i] == digits@[i - 1]);
                }
                if v <= 128 {
                    Some((-(v as i32)) as i8)
                } else {
                    Some(4)
                }
            },
            None => None,
        }
    } else {
        match digits_of_str(s) {
            Some(v) => {
                if v <= 127 {
                    Some(v as i8)
                } else {
                    Some(4)
                }
            },
            None => None,
        }
    }
}

/// Reads a non-empty all-digit string, saturating above 255.
fn digits_of_str(s: &str) -> (r: Option<u32>)
    ensures
        r matches Some(v) ==> s@.len() > 0 && (forall|i: int|
            0 <= i < s@.len() ==> is_digit_char(#[trigger] s@[i])) && (
        crate::notation::digits_value(s@) <= 255 ==> v == crate::notation::digits_value(s@)) && (
        crate::notation::digits_value(s@) > 255 ==> v == 256),
        r is None ==> s@.len() == 0 || !(forall|i: int|
            0 <= i < s@.len() ==> is_digit_char(#[trigger] s@[i])),
{
    let len = s.unicode_len();
    if len == 0 {
        return None;
    }
    let mut acc: u32 = 0;
    let mut over = false;
    let mut i: usize = 0;
    while i < len
        invariant
            0 <= i <= len,
            len == s@.len(),
            forall|j: int| 0 <= j < i ==> is_digit_char(#[trigger] s@[j]),
            !over ==> acc == crate::notation::digits_value(s@.subrange(0, i as int)) && acc <= 255,
            over ==> crate::notation::digits_value(s@.subrange(0, i as int)) > 255,
        decreases len - i,
    {
        let c = s.get_char(i);
        let u = c as u32;
        if u < 48 || u > 57 {
            assert(!is_digit_char(s@[i as int]));
            return None;
        }
        let d = u - 48;
        proof {
            assert(s@.subrange(0, i + 1) =~= s@.subrange(0, i as int).push(s@[i as int]));
            assert(s@.subrange(0, i + 1).drop_last() =~= s@.subrange(0, i as int));
            if over {
                crate::notation::lemma_digits_value_nonneg(s@.subrange(0, i as int));
            }
        }
        if !over {
            acc = acc * 10 + d;
            if acc > 255 {
                over = true;
            }
        }
        i = i + 1;
    }
    proof {
        assert(s@.subrange(0, len as int) =~= s@);
    }
    if over {
        Some(256)
    } else {
        Some(acc)
    }
}

} // verus!
