//! Keys: a mapping from each of the seven letters to an accidental.
//!
//! A key starts with every letter natural; the notes handed to the
//! constructor override the accidentals of their letters.  A key can be
//! read back as a scale from C and matched against the known scale types.

use crate::error::ResonataError;
use crate::intervals::{interval_wf, Interval};
use crate::notation::{spec_tokens, split_tokens};
use crate::notes::{
    name_from_ordinal, name_ordinal, note_degree, spec_note_transposed_down,
    spec_note_transposed_up, Accidental, Note, NoteName,
};
use crate::notes_text::{spec_format_note, spec_parse_note};
use crate::scales::{
    notes_scan_ok, scale_wf, spec_from_steps_of_sums, spec_notes_sums, spec_parent_scale, Scale,
    ScaleEnumType,
};
use vstd::prelude::*;
use vstd::string::StringExecFns;

verus! {

/// A musical key: an accidental for each letter, indexed by the letter's
/// ordinal, C first.
#[derive(Clone, Debug)]
pub struct Key {
    pub pitches: Vec<Accidental>,
}

/// Well-formedness of a key: one accidental per letter.
pub open spec fn key_wf(k: Key) -> bool {
    k.pitches@.len() == 7
}

/// The accidental a note list leaves on a letter: the accidental of the
/// last note with that letter, and natural when no note names it.
pub open spec fn key_acc(notes: Seq<Note>, o: int) -> Accidental
    decreases notes.len(),
{
    if notes.len() == 0 {
        Accidental::Natural
    } else if name_ordinal(notes.last().name) == o {
        notes.last().accidental
    } else {
        key_acc(notes.drop_last(), o)
    }
}

/// The eight notes a key reads back as: its seven pitches, then its C
/// pitch again to close the octave.
pub open spec fn key_notes(k: Key) -> Seq<Note> {
    Seq::new(8, |i: int| if i < 7 {
        Note { name: name_from_ordinal(i), accidental: k.pitches@[i] }
    } else {
        Note { name: NoteName::C, accidental: k.pitches@[0] }
    })
}

/// The interval sequence of the scale a key reads back as.
pub open spec fn spec_key_scale(k: Key) -> Seq<Interval> {
    spec_from_steps_of_sums(spec_notes_sums(key_notes(k).skip(1), note_degree(key_notes(k)[0]), 0))
}

/// Whether a key can be read back as a scale: the lifted totals of its
/// notes stay in the supported range.
pub open spec fn key_scale_ok(k: Key) -> bool {
    notes_scan_ok(key_notes(k))
}

/// What reading a list of note tokens yields: the notes in order, or the
/// first token's error.
pub open spec fn spec_collect_notes(toks: Seq<Seq<char>>) -> Result<Seq<Note>, ResonataError>
    decreases toks.len(),
{
    if toks.len() == 0 {
        Ok(Seq::empty())
    } else {
        match spec_parse_note(toks[0]) {
            Ok(n) => match spec_collect_notes(toks.skip(1)) {
                Ok(rest) => Ok(seq![n] + rest),
                Err(e) => Err(e),
            },
            Err(e) => Err(e),
        }
    }
}

/// The accidentals of a key after its pitches are transposed in turn:
/// each letter's original pitch is transposed and written back at the
/// letter the transposed note lands on.
pub open spec fn key_transposed(
    orig: Seq<Accidental>,
    cur: Seq<Accidental>,
    rhs: Interval,
    up: bool,
    j: int,
) -> Seq<Accidental>
    decreases 7 - j,
{
    if j < 0 || j >= 7 {
        cur
    } else {
        let t = if up {
            spec_note_transposed_up(
                Note { name: name_from_ordinal(j), accidental: orig[j] },
                rhs,
            )
        } else {
            spec_note_transposed_down(
                Note { name: name_from_ordinal(j), accidental: orig[j] },
                rhs,
            )
        };
        key_transposed(orig, cur.update(name_ordinal(t.name), t.accidental), rhs, up, j + 1)
    }
}

impl Key {
    /// A key from a list of notes: every letter starts natural, and each
    /// note overrides its letter's accidental, later notes winning.
    pub fn new(notes: Vec<Note>) -> (r: Key)
        ensures
            key_wf(r),
            forall|o: int| 0 <= o < 7 ==> r.pitches@[o] == key_acc(notes@, o),
    {
        let mut pitches: Vec<Accidental> = Vec::new();
        let mut i: usize = 0;
        while i < 7
            invariant
                0 <= i <= 7,
                pitches@.len() == i,
                forall|o: int| 0 <= o < i ==> pitches@[o] == Accidental::Natural,
            decreases 7 - i,
        {
            pitches.push(Accidental::Natural);
            i = i + 1;
        }
        proof {
            assert(notes@.take(0) =~= Seq::<Note>::empty());
            assert forall|o: int| 0 <= o < 7 implies pitches@[o] == key_acc(notes@.take(0), o) by {
                assert(key_acc(notes@.take(0), o) == Accidental::Natural);
            }
        }
        let mut j: usize = 0;
        while j < notes.len()
            invariant
                0 <= j <= notes@.len(),
                pitches@.len() == 7,
                forall|o: int| 0 <= o < 7 ==> pitches@[o] == key_acc(notes@.take(j as int), o),
            decreases notes@.len() - j,
        {
            let note = notes[j];
            let ord = note.name().ordinal() as usize;
            pitches[ord] = note.accidental();
            proof {
                assert(notes@.take(j + 1).drop_last() =~= notes@.take(j as int));
                assert(notes@.take(j + 1).last() == notes@[j as int]);
            }
            j = j + 1;
        }
        proof {
            assert(notes@.take(notes@.len() as int) =~= notes@);
        }
        Key { pitches }
    }

    /// Reads a key token: a list of notes separated by commas or spaces,
    /// each overriding its letter's accidental.
    pub fn from_string(s: &str) -> (r: Result<Key, ResonataError>)
        ensures
            (r matches Ok(k) ==> (spec_collect_notes(spec_tokens(s@)) matches Ok(ns) && key_wf(k)
                && forall|o: int| 0 <= o < 7 ==> k.pitches@[o] == key_acc(ns, o))),
            (r matches Err(e) ==> spec_collect_notes(spec_tokens(s@)) == Err::<
                Seq<Note>,
                ResonataError,
            >(e)),
    {
        let tokens = split_tokens(s);
        let ghost toks = spec_tokens(s@);
        let mut notes: Vec<Note> = Vec::new();
        let mut i: usize = 0;
        proof {
            assert(toks.skip(0) =~= toks);
            assert(notes@ + spec_collect_notes(toks).unwrap() =~= spec_collect_notes(
                toks,
            ).unwrap());
        }
        while i < tokens.len()
            invariant
                0 <= i <= tokens@.len(),
                tokens.deep_view() == toks,
                toks == spec_tokens(s@),
                (match spec_collect_notes(toks.skip(i as int)) {
                    Ok(rest) => spec_collect_notes(toks) == Ok::<Seq<Note>, ResonataError>(
                        notes@ + rest,
                    ),
                    Err(e) => spec_collect_notes(toks) == Err::<Seq<Note>, ResonataError>(e),
                }),
            decreases tokens@.len() - i,
        {
            proof {
                assert(tokens@[i as int]@ == toks[i as int]);
                assert(toks.skip(i as int)[0] == toks[i as int]);
                assert(toks.skip(i as int).skip(1) =~= toks.skip(i + 1));
            }
            let note = match Note::from_str(tokens[i].as_str()) {
                Ok(n) => n,
                Err(e) => {
                    proof {
                        assert(spec_parse_note(toks[i as int]) == Err::<Note, ResonataError>(e));
                        assert(spec_collect_notes(toks.skip(i as int)) == Err::<
                            Seq<Note>,
                            ResonataError,
                        >(e));
                    }
                    return Err(e);
                },
            };
            let ghost prev = notes@;
            notes.push(note);
            proof {
                let rest2 = spec_collect_notes(toks.skip(i + 1));
                if rest2 is Ok {
                    assert(notes@ + rest2.unwrap() =~= prev + (seq![note] + rest2.unwrap()));
                }
            }
            i = i + 1;
        }
        proof {
            assert(toks.skip(tokens@.len() as int) =~= Seq::<Seq<char>>::empty());
            assert(notes@ + Seq::<Note>::empty() =~= notes@);
        }
        Ok(Key::new(notes))
    }

    /// Reads a key token; a name for [`Key::from_string`].
    pub fn from_str(s: &str) -> (r: Result<Key, ResonataError>)
        ensures
            (r matches Ok(k) ==> (spec_collect_notes(spec_tokens(s@)) matches Ok(ns) && key_wf(k)
                && forall|o: int| 0 <= o < 7 ==> k.pitches@[o] == key_acc(ns, o))),
            (r matches Err(e) ==> spec_collect_notes(spec_tokens(s@)) == Err::<
                Seq<Note>,
                ResonataError,
            >(e)),
    {
        Key::from_string(s)
    }

    /// Overrides the accidental of the note's letter.
    pub fn set_pitch(&mut self, note: Note)
        requires
            key_wf(*old(self)),
        ensures
            final(self).pitches@ == old(self).pitches@.update(
                name_ordinal(note.name),
                note.accidental,
            ),
    {
        let ord = note.name().ordinal() as usize;
        self.pitches[ord] = note.accidental();
    }

    /// The pitch of a letter in the key: the letter with the accidental
    /// the key assigns it.
    pub fn pitch(&self, note_name: NoteName) -> (r: Note)
        requires
            key_wf(*self),
        ensures
            r == (Note {
                name: note_name,
                accidental: self.pitches@[name_ordinal(note_name)],
            }),
    {
        let ord = note_name.ordinal() as usize;
        Note::new(note_name, self.pitches[ord])
    }

    /// The seven pitches of the key, C first.
    pub fn pitches(&self) -> (r: Vec<Note>)
        requires
            key_wf(*self),
        ensures
            r@.len() == 7,
            forall|i: int|
                0 <= i < 7 ==> r@[i] == (Note {
                    name: name_from_ordinal(i),
                    accidental: self.pitches@[i],
                }),
    {
        let mut out: Vec<Note> = Vec::new();
        out.push(self.pitch(NoteName::C));
        out.push(self.pitch(NoteName::D));
        out.push(self.pitch(NoteName::E));
        out.push(self.pitch(NoteName::F));
        out.push(self.pitch(NoteName::G));
        out.push(self.pitch(NoteName::A));
        out.push(self.pitch(NoteName::B));
        out
    }

    /// The key as a scale from C: its seven pitches followed by its C
    /// pitch again, measured from the first.  Keys whose extreme
    /// accidentals push the scale outside the supported range are
    /// excluded.
    pub fn to_scale(&self) -> (r: Scale)
        requires
            key_wf(*self),
            key_scale_ok(*self),
        ensures
            r.intervals@ == spec_key_scale(*self),
            r.intervals@.len() == 7,
            scale_wf(r),
    {
        let mut notes = self.pitches();
        notes.push(self.pitch(NoteName::C));
        proof {
            assert(notes@ =~= key_notes(*self));
            crate::scales::lemma_notes_sums_len(
                key_notes(*self).skip(1),
                note_degree(key_notes(*self)[0]),
                0,
            );
        }
        Scale::from_notes(notes)
    }

    /// The scale type of the key, when some rotation of its scale
    /// matches a known parent scale.
    pub fn to_scale_type(&self) -> (r: Option<ScaleEnumType>)
        requires
            key_wf(*self),
            key_scale_ok(*self),
        ensures
            r == (match spec_parent_scale(spec_key_scale(*self)) {
                Some(p) => Some(p.0),
                None => None,
            }),
    {
        match self.to_scale().get_parent_scale_type() {
            Some((scale_type, _)) => Some(scale_type),
            None => None,
        }
    }

    /// The root note of the key: the pitch at the rotation index that
    /// turns its scale into the matched parent scale.
    pub fn root(&self) -> (r: Option<Note>)
        requires
            key_wf(*self),
            key_scale_ok(*self),
        ensures
            r == (match spec_parent_scale(spec_key_scale(*self)) {
                Some(p) => Some(
                    Note {
                        name: name_from_ordinal(p.1),
                        accidental: self.pitches@[p.1],
                    },
                ),
                None => None,
            }),
    {
        match self.to_scale().get_parent_scale_type() {
            Some((_, root)) => {
                let ps = self.pitches();
                Some(ps[root])
            },
            None => None,
        }
    }

    /// The key transposed up by an interval: each pitch is transposed
    /// and written back at the letter it lands on.
    #[verifier::rlimit(100)]
    pub fn transposed_up(&self, rhs: Interval) -> (r: Key)
        requires
            key_wf(*self),
            interval_wf(rhs),
        ensures
            key_wf(r),
            r.pitches@ == key_transposed(self.pitches@, self.pitches@, rhs, true, 0),
    {
        let mut out = Key { pitches: self.pitches.clone() };
        let mut j: usize = 0;
        while j < 7
            invariant
                0 <= j <= 7,
                key_wf(*self),
                interval_wf(rhs),
                out.pitches@.len() == 7,
                key_transposed(self.pitches@, self.pitches@, rhs, true, 0) == key_transposed(
                    self.pitches@,
                    out.pitches@,
                    rhs,
                    true,
                    j as int,
                ),
            decreases 7 - j,
        {
            let base = Note::new(NoteName::from_i32(j as i32), self.pitches[j]);
            proof {
                assert(base.name == name_from_ordinal(j as int));
            }
            let t = base.transposed_up(rhs);
            out.set_pitch(t);
            j = j + 1;
        }
        out
    }

    /// The key transposed down by an interval: each pitch is transposed
    /// and written back at the letter it lands on.
    #[verifier::rlimit(100)]
    pub fn transposed_down(&self, rhs: Interval) -> (r: Key)
        requires
            key_wf(*self),
            interval_wf(rhs),
        ensures
            key_wf(r),
            r.pitches@ == key_transposed(self.pitches@, self.pitches@, rhs, false, 0),
    {
        let mut out = Key { pitches: self.pitches.clone() };
        let mut j: usize = 0;
        while j < 7
            invariant
                0 <= j <= 7,
                key_wf(*self),
                interval_wf(rhs),
                out.pitches@.len() == 7,
                key_transposed(self.pitches@, self.pitches@, rhs, false, 0) == key_transposed(
                    self.pitches@,
                    out.pitches@,
                    rhs,
                    false,
                    j as int,
                ),
            decreases 7 - j,
        {
            let base = Note::new(NoteName::from_i32(j as i32), self.pitches[j]);
            proof {
                assert(base.name == name_from_ordinal(j as int));
            }
            let t = base.transposed_down(rhs);
            out.set_pitch(t);
            j = j + 1;
        }
        out
    }

    /// The notation of the key: its seven pitches joined by commas.
    pub fn to_string(&self) -> (r: String)
        requires
            key_wf(*self),
        ensures
            r@ == spec_format_key(self.pitches@),
    {
        let mut out = String::new();
        let mut i: usize = 0;
        proof {
            assert(self.pitches@.take(0) =~= Seq::<Accidental>::empty());
        }
        while i < 7
            invariant
                0 <= i <= 7,
                key_wf(*self),
                out@ == spec_format_key(self.pitches@.take(i as int)),
            decreases 7 - i,
        {
            proof {
                reveal_strlit(", ");
                assert((", ")@ =~= seq![',', ' ']);
                assert(self.pitches@.take(i + 1).drop_last() =~= self.pitches@.take(i as int));
                assert(self.pitches@.take(i + 1).last() == self.pitches@[i as int]);
            }
            if i > 0 {
                out.append(", ");
            }
            let note = self.pitch(NoteName::from_i32(i as i32));
            let token = note.to_string();
            out.append(token.as_str());
            i = i + 1;
        }
        proof {
            assert(self.pitches@.take(7) =~= self.pitches@);
        }
        out
    }
}

/// The notation of a key's pitches: each letter's note joined by commas,
/// C first.
pub open spec fn spec_format_key(accs: Seq<Accidental>) -> Seq<char>
    decreases accs.len(),
{
    if accs.len() == 0 {
        Seq::empty()
    } else if accs.len() == 1 {
        spec_format_note(Note { name: name_from_ordinal(0), accidental: accs[0] })
    } else {
        spec_format_key(accs.drop_last()) + seq![',', ' '] + spec_format_note(
            Note { name: name_from_ordinal(accs.len() - 1), accidental: accs.last() },
        )
    }
}

impl PartialEq for Key {
    /// Keys compare by their seven accidentals.
    fn eq(&self, other: &Key) -> (r: bool) {
        if self.pitches.len() != other.pitches.len() {
            return false;
        }
        let mut i: usize = 0;
        while i < self.pitches.len()
            invariant
                0 <= i <= self.pitches@.len(),
                self.pitches@.len() == other.pitches@.len(),
                forall|k: int| 0 <= k < i ==> #[trigger] self.pitches@[k] == other.pitches@[k],
            decreases self.pitches@.len() - i,
        {
            if self.pitches[i] != other.pitches[i] {
                return false;
            }
            i = i + 1;
        }
        proof {
            assert(self.pitches@ =~= other.pitches@);
        }
        true
    }
}

impl vstd::std_specs::cmp::PartialEqSpecImpl for Key {
    open spec fn obeys_eq_spec() -> bool {
        true
    }

    open spec fn eq_spec(&self, other: &Key) -> bool {
        self.pitches@ == other.pitches@
    }
}

impl Eq for Key {

}

} // verus!
