use resonata::error::{NoteError, ResonataError};
use resonata::intervals::Interval;
use resonata::notes::Accidental::{Flat, Natural, Sharp};
use resonata::notes::NoteName::{A, B, C, D, E, F, G};
use resonata::notes::{Accidental, Note, NoteName, PitchedNote};
use resonata::quality::Quality;
use resonata::size::Size;

#[test]
fn test_note_transpose_up() {
    let note = Note::from_str("C").unwrap();
    let new_note = note.transposed_up(Interval::from_str("M3").unwrap());
    assert_eq!(new_note, Note::from_str("E").unwrap());

    let note = Note::from_str("D#").unwrap();
    let new_note = note.transposed_up(Interval::from_str("A4").unwrap());
    assert_eq!(new_note, Note::from_str("G##").unwrap());

    let note = Note::from_str("C").unwrap();
    let new_note = note.transposed_up(Interval::from_str("P8").unwrap());
    assert_eq!(new_note, Note::from_str("C").unwrap());
}

#[test]
fn test_note_transpose_down() {
    let note = Note::from_str("C").unwrap();
    let new_note = note.transposed_down(Interval::from_str("M3").unwrap());
    assert_eq!(new_note, Note::from_str("Ab").unwrap());

    let note = Note::from_str("D#").unwrap();
    let new_note = note.transposed_down(Interval::from_str("A4").unwrap());
    assert_eq!(new_note, Note::from_str("A").unwrap());

    let note = Note::from_str("C").unwrap();
    let new_note = note.transposed_down(Interval::from_str("P8").unwrap());
    assert_eq!(new_note, Note::from_str("C").unwrap());
}

#[test]
fn test_pitched_note_transpose_up() {
    let note = PitchedNote::from_str("C4")
        .unwrap()
        .transposed_up(Interval::from_str("M3").unwrap());
    assert_eq!(note.unwrap(), PitchedNote::from_str("E4").unwrap());

    let note = PitchedNote::from_str("A4")
        .unwrap()
        .transposed_up(Interval::from_str("d3").unwrap());
    assert_eq!(note.unwrap(), PitchedNote::from_str("Cb5").unwrap());
}

#[test]
fn test_pitched_note_transpose_down() {
    let note = PitchedNote::from_str("C4")
        .unwrap()
        .transposed_down(Interval::from_str("M3").unwrap());
    assert_eq!(note.unwrap(), PitchedNote::from_str("Ab3").unwrap());

    let note = PitchedNote::from_str("F#4")
        .unwrap()
        .transposed_down(Interval::from_str("A5").unwrap());
    assert_eq!(note.unwrap(), PitchedNote::from_str("Bb3").unwrap());
}

#[test]
fn test_note_from_str() {
    let c = Note::from_str("C").unwrap();
    assert_eq!(c, Note::from_note_name(NoteName::C));

    let d_sharp = Note::from_str("D#").unwrap();
    assert_eq!(d_sharp, Note::new(NoteName::D, Accidental::Sharp(1)));
}

#[test]
fn test_pitched_note_from_str() {
    let g = PitchedNote::from_str("G").unwrap();
    assert_eq!(g, PitchedNote::build(NoteName::G, 4).unwrap());

    let e_flat_2 = PitchedNote::from_str("Eb2").unwrap();
    assert_eq!(
        e_flat_2,
        PitchedNote::new(NoteName::E, Accidental::Flat(1), 2).unwrap()
    );

    let resonata = PitchedNote::from_str("Resonata");
    assert!(resonata.is_err());
}

#[test]
fn test_new_valid_note() {
    assert_eq!(60, PitchedNote::from_midi_number(60).unwrap().to_midi_number());
    assert_eq!(127, PitchedNote::from_midi_number(127).unwrap().to_midi_number());
}

#[test]
fn test_build_valid_note() {
    assert_eq!(0, PitchedNote::new(C, Natural, -1).unwrap().to_midi_number());
    assert_eq!(60, PitchedNote::new(C, Natural, 4).unwrap().to_midi_number());
    assert_eq!(74, PitchedNote::new(D, Natural, 5).unwrap().to_midi_number());
    assert_eq!(127, PitchedNote::new(G, Natural, 9).unwrap().to_midi_number());
}

#[test]
fn test_from_str_valid_notes() {
    // Test valid note strings
    assert_eq!(
        PitchedNote::new(C, Natural, 4).unwrap(),
        PitchedNote::from_str("C").unwrap()
    );
    assert_eq!(
        PitchedNote::new(D, Natural, -1).unwrap(),
        PitchedNote::from_str("D-1").unwrap()
    );
    assert_eq!(
        PitchedNote::new(E, Natural, 0).unwrap(),
        PitchedNote::from_str("E\u{266e}0").unwrap()
    );
    assert_eq!(
        PitchedNote::new(F, Sharp(1), 1).unwrap(),
        PitchedNote::from_str("F#1").unwrap()
    );
    assert_eq!(
        PitchedNote::new(G, Sharp(2), 2).unwrap(),
        PitchedNote::from_str("Gx2").unwrap()
    );
    assert_eq!(
        PitchedNote::new(A, Flat(1), 3).unwrap(),
        PitchedNote::from_str("Ab3").unwrap()
    );
    assert_eq!(
        PitchedNote::new(B, Flat(2), 4).unwrap(),
        PitchedNote::from_str("Bbb4").unwrap()
    );
    assert_eq!(
        PitchedNote::new(C, Flat(3), 5).unwrap(),
        PitchedNote::from_str("cbbb5").unwrap()
    );
    assert_eq!(
        PitchedNote::new(D, Sharp(3), 6).unwrap(),
        PitchedNote::from_str("d###6").unwrap()
    );
    assert_eq!(
        PitchedNote::new(E, Sharp(2), 7).unwrap(),
        PitchedNote::from_str("e\u{1d12a}7").unwrap()
    );
    assert_eq!(
        PitchedNote::new(F, Sharp(3), 8).unwrap(),
        PitchedNote::from_str("f#x8").unwrap()
    );
    assert_eq!(
        PitchedNote::new(G, Sharp(4), 4).unwrap(),
        PitchedNote::from_str("g\u{1d12a}x").unwrap()
    );
}

#[test]
fn test_from_str_invalid_notes() {
    // Test invalid note strings
    assert_eq!(
        Err(ResonataError::NoteError(NoteError::InvalidNoteName)),
        PitchedNote::from_str("")
    ); // Empty string
    assert_eq!(
        Err(ResonataError::NoteError(NoteError::InvalidNoteName)),
        PitchedNote::from_str("X")
    ); // Invalid note name
    assert_eq!(
        Err(ResonataError::NoteError(NoteError::InvalidAccidentalCombination)),
        PitchedNote::from_str("C#b")
    ); // Conflicting accidentals
    assert_eq!(
        Err(ResonataError::NoteError(NoteError::InvalidOctave)),
        PitchedNote::from_str("C-4")
    ); // Invalid octave (too low)
    assert_eq!(
        Err(ResonataError::NoteError(NoteError::InvalidOctave)),
        PitchedNote::from_str("B#10")
    ); // Invalid octave (too high)
    assert_eq!(
        Err(ResonataError::NoteError(NoteError::InvalidNoteName)),
        PitchedNote::from_str("C-#4")
    ); // Invalid syntax
}

#[test]
fn test_macros() {
    assert_eq!(Note::from_note_name(C), Note::new(C, Natural));
    assert_eq!(Note::new(C, Flat(1)), Note::new(C, Flat(1)));
    assert_eq!(
        PitchedNote::build(C, 4).unwrap(),
        PitchedNote::new(C, Natural, 4).unwrap()
    );
    assert_eq!(
        PitchedNote::new(C, Flat(1), 4).unwrap(),
        PitchedNote::new(C, Flat(1), 4).unwrap()
    );
    assert_eq!(
        PitchedNote::new(E, Sharp(2), -1).unwrap(),
        PitchedNote::new(E, Sharp(2), -1).unwrap()
    );
    assert_eq!(
        PitchedNote::from_str("C4").unwrap(),
        PitchedNote::new(C, Natural, 4).unwrap()
    );
    assert_eq!(
        PitchedNote::build(C, -1).unwrap(),
        PitchedNote::from_midi_number(0).unwrap()
    );
    assert_eq!(
        PitchedNote::build(G, 9).unwrap(),
        PitchedNote::from_midi_number(127).unwrap()
    );
}

#[test]
fn tests_test_cmp() {
    let c = PitchedNote::build(C, 4).unwrap();
    let d = PitchedNote::build(D, 4).unwrap();
    assert_eq!(c, c);
    assert_ne!(c, d);
    assert!(c < d);
    assert!(c <= d);
    assert!(d > c);
    assert!(d >= c);
}

#[test]
fn accidental_semitone_conversions() {
    assert_eq!(Accidental::Flat(1).to_semitones(), -1);
    assert_eq!(Accidental::Natural.to_semitones(), 0);
    assert_eq!(Accidental::Sharp(2).to_semitones(), 2);

    assert_eq!(Accidental::from_semitones(-1), Accidental::Flat(1));
    assert_eq!(Accidental::from_semitones(0), Accidental::Natural);
    assert_eq!(Accidental::from_semitones(2), Accidental::Sharp(2));

    // Extreme offsets clamp at 127 alterations.
    assert_eq!(Accidental::from_semitones(200), Accidental::Sharp(127));
    assert_eq!(Accidental::from_semitones(-200), Accidental::Flat(127));
}

#[test]
fn test_add() {
    let a = Accidental::Flat(1);
    let b = Accidental::Sharp(2);
    assert_eq!(a.shifted(3), b);
}

#[test]
fn accidental_parsing_and_printing() {
    assert_eq!(Accidental::from_str("#").unwrap(), Sharp(1));
    assert_eq!(Accidental::from_str("x").unwrap(), Sharp(2));
    assert_eq!(Accidental::from_str("#x").unwrap(), Sharp(3));
    assert_eq!(Accidental::from_str("bb").unwrap(), Flat(2));
    assert_eq!(Accidental::from_str("\u{266e}").unwrap(), Natural);
    assert_eq!(
        Accidental::from_str("#b"),
        Err(ResonataError::NoteError(NoteError::InvalidAccidentalCombination))
    );
    assert_eq!(
        Accidental::from_str("q"),
        Err(ResonataError::NoteError(NoteError::InvalidAccidental))
    );

    assert_eq!(Flat(2).to_string(), "\u{266d}\u{266d}");
    assert_eq!(Natural.to_string(), "");
    assert_eq!(Sharp(2).to_string(), "\u{1d12a}");
    assert_eq!(Sharp(3).to_string(), "\u{266f}\u{1d12a}");
}

#[test]
fn chromatic_degree_scenarios() {
    assert_eq!(Note::from_str("F").unwrap().to_chromatic_scale_degree(), 5);
    assert_eq!(Note::from_str("Dx").unwrap().to_chromatic_scale_degree(), 4);
    assert_eq!(Note::from_str("Cb").unwrap().to_chromatic_scale_degree(), -1);
    assert_eq!(Note::from_str("B##").unwrap().to_chromatic_scale_degree(), 13);

    assert_eq!(Note::from_chromatic_scale_degree(5), Note::from_str("F").unwrap());
    assert_eq!(Note::from_chromatic_scale_degree(3), Note::from_str("D#").unwrap());
    assert_eq!(Note::from_chromatic_scale_degree(10), Note::from_str("A#").unwrap());
}

#[test]
fn semitone_distances_between_notes() {
    let c = Note::from_str("C").unwrap();
    let d = Note::from_str("D").unwrap();
    assert_eq!(c.semitones_to(&d), 2);
    assert_eq!(d.semitones_to(&c), 10);
    assert_eq!(c.semitones_between(&d), 2);
    assert_eq!(d.semitones_between(&c), 2);

    let c_flat = Note::from_str("Cb").unwrap();
    let b_sharp = Note::from_str("B#").unwrap();
    assert_eq!(c_flat.semitones_to(&b_sharp), 13);
}

#[test]
fn enharmonic_equivalents() {
    let c = Note::from_str("C").unwrap();
    let b_sharp = Note::from_str("B#").unwrap();
    assert_eq!(c.to_enharmonic_equivalent(-1), b_sharp);
    assert_eq!(b_sharp.to_enharmonic_equivalent(1), c);

    let c_sharp = Note::from_str("C#").unwrap();
    let d_flat = Note::from_str("Db").unwrap();
    assert_eq!(c_sharp.to_enharmonic_equivalent(1), d_flat);

    let e_dbl_sharp = Note::from_str("Ex").unwrap();
    let g_flat = Note::from_str("Gb").unwrap();
    assert_eq!(e_dbl_sharp.to_enharmonic_equivalent(2), g_flat);
}

#[test]
fn note_bridge_forces_the_letter_distance() {
    // C up to F-sharp: six semitones over three letters must read as an
    // augmented fourth, never a diminished fifth.
    let c = Note::from_str("C").unwrap();
    let f_sharp = Note::from_str("F#").unwrap();
    let bridged = c.interval_to(&f_sharp);
    assert!(matches!(bridged.quality(), Quality::Augmented(1)));
    assert_eq!(bridged.size(), Size::Fourth);
    assert_eq!(bridged.to_semitones(), 6);

    let d = Note::from_str("D").unwrap();
    assert_eq!(c.interval_to(&d), Interval::from_str("M2").unwrap());
    assert_eq!(d.interval_to(&c), Interval::from_str("m7").unwrap());
    assert_eq!(d.interval_to(&c).size(), Size::Seventh);
}

#[test]
fn pitched_note_distances() {
    let c4 = PitchedNote::from_str("C4").unwrap();
    let d4 = PitchedNote::from_str("D4").unwrap();
    assert_eq!(c4.semitones_to(&d4), 2);
    assert_eq!(d4.semitones_to(&c4), -2);
    assert_eq!(c4.semitones_between(&d4), 2);
    assert_eq!(d4.semitones_between(&c4), 2);

    let g4 = PitchedNote::from_str("G4").unwrap();
    assert_eq!(c4.diatonic_distance_to(&g4), 4);
    assert_eq!(g4.diatonic_distance_to(&c4), -4);

    let c_sharp_3 = PitchedNote::from_str("C#3").unwrap();
    let f_flat_4 = PitchedNote::from_str("Fb4").unwrap();
    assert_eq!(c_sharp_3.diatonic_distance_to(&f_flat_4), 10);
    assert_eq!(f_flat_4.diatonic_distance_to(&c_sharp_3), -10);
}

#[test]
fn pitched_note_moves() {
    let note = PitchedNote::from_str("C4").unwrap();
    assert_eq!(note.moved_by(2).unwrap(), PitchedNote::from_str("E4").unwrap());
    assert_eq!(note.moved_by(-2).unwrap(), PitchedNote::from_str("A3").unwrap());

    let b_sharp_3 = PitchedNote::from_str("B#3").unwrap();
    let c_4 = PitchedNote::from_str("C4").unwrap();
    assert_eq!(b_sharp_3.to_enharmonic_equivalent(1).unwrap(), c_4);
    assert_eq!(c_4.to_enharmonic_equivalent(-1).unwrap(), b_sharp_3);
}

#[test]
fn pitched_note_interval_bridge() {
    let c4 = PitchedNote::from_str("C4").unwrap();
    let d4 = PitchedNote::from_str("D4").unwrap();
    assert_eq!(c4.interval_to(&d4), Interval::from_str("M2").unwrap());
    assert_eq!(c4.interval_to(&d4).to_semitones(), c4.semitones_between(&d4));

    let cb4 = PitchedNote::from_str("Cb4").unwrap();
    let b3 = PitchedNote::from_str("B3").unwrap();
    assert_eq!(cb4.interval_to(&b3), Interval::from_str("d2").unwrap());
    assert_eq!(cb4.interval_to(&b3).to_semitones(), cb4.semitones_between(&b3));

    // Letters ascend while the pitch descends: the interval still spans
    // the absolute pitch distance, an augmented second of three
    // semitones.
    let c_triple_sharp_3 = PitchedNote::from_str("C#x3").unwrap();
    let d_double_flat_3 = PitchedNote::from_str("Dbb3").unwrap();
    let bridged = c_triple_sharp_3.interval_to(&d_double_flat_3);
    assert_eq!(bridged, Interval::from_str("A2").unwrap());
    assert_eq!(bridged.to_semitones(), 3);
    assert_eq!(
        bridged.to_semitones(),
        c_triple_sharp_3.semitones_between(&d_double_flat_3)
    );
}

#[test]
fn midi_numbers() {
    assert_eq!(PitchedNote::from_str("C4").unwrap().to_midi_number(), 60);
    assert_eq!(PitchedNote::from_str("C-1").unwrap().to_midi_number(), 0);
    assert_eq!(PitchedNote::from_str("Gbb9").unwrap().to_midi_number(), 125);
    assert_eq!(
        PitchedNote::from_midi_number(60).unwrap(),
        PitchedNote::from_str("C4").unwrap()
    );
    assert_eq!(
        PitchedNote::from_midi_number(120).unwrap(),
        PitchedNote::from_str("C9").unwrap()
    );
    assert!(PitchedNote::new(G, Sharp(1), 9).is_err());
}

#[test]
fn note_names_and_octaves() {
    let n = PitchedNote::from_str("F#1").unwrap();
    assert_eq!(n.name(), F);
    assert_eq!(n.accidental(), Sharp(1));
    assert_eq!(n.octave(), 1);

    assert_eq!(NoteName::from_str("c").unwrap(), C);
    assert_eq!(NoteName::from_str("B").unwrap(), B);
    assert!(NoteName::from_str("H").is_err());
    assert_eq!(A.to_string(), "A");

    assert_eq!(NoteName::C.to_chromatic_scale_degree(), 0);
    assert_eq!(NoteName::B.to_chromatic_scale_degree(), 11);
    assert_eq!(NoteName::from_chromatic_scale_degree(7), G);

    let mut name = NoteName::B;
    assert_eq!(name.next(), Some(NoteName::C));
    assert_eq!(name, NoteName::C);
}

#[test]
fn note_printing() {
    assert_eq!(Note::from_str("C").unwrap().to_string(), "C");
    assert_eq!(
        Note::from_str("D#").unwrap().to_string(),
        "D\u{266f}"
    );
    assert_eq!(PitchedNote::from_str("C4").unwrap().to_string(), "C4");
    assert_eq!(PitchedNote::from_str("Eb2").unwrap().to_string(), "E\u{266d}2");
    assert_eq!(PitchedNote::from_str("C-1").unwrap().to_string(), "C-1");
}

#[test]
fn with_octave_scenarios() {
    let c = Note::from_str("C").unwrap();
    assert_eq!(
        c.with_octave(4).unwrap(),
        PitchedNote::from_str("C4").unwrap()
    );

    let bb = Note::from_str("Bb").unwrap();
    assert!(bb.with_octave(9).is_err());
}
