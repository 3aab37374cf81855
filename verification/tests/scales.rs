use resonata::error::{ResonataError, ScaleError};
use resonata::intervals::Interval;
use resonata::keys::Key;
use resonata::notes::Accidental::Sharp;
use resonata::notes::{Note, NoteName};
use resonata::scales::{
    HarmonicMinorMode, MajorMode, MelodicMinorMode, Scale, ScaleEnumType, ScaleType,
};

#[test]
fn test_to_steps() {
    let steps = Scale::major().to_steps();
    let expected_steps = vec![2, 2, 1, 2, 2, 2, 1];
    assert_eq!(steps, expected_steps);
}

#[test]
fn test_from_notes() {
    let notes = vec![
        Note::from_chromatic_scale_degree(60),
        Note::from_chromatic_scale_degree(62),
        Note::from_chromatic_scale_degree(64),
        Note::from_chromatic_scale_degree(65),
        Note::from_chromatic_scale_degree(67),
        Note::from_chromatic_scale_degree(69),
        Note::from_chromatic_scale_degree(71),
    ];
    let expected_notes = Scale::major().to_notes(Note::from_note_name(NoteName::C));
    assert_eq!(notes, expected_notes);
}

#[test]
fn test_to_notes() {
    let scale = Scale::major();
    let expected_notes = vec![
        Note::from_chromatic_scale_degree(60),
        Note::from_chromatic_scale_degree(62),
        Note::from_chromatic_scale_degree(64),
        Note::from_chromatic_scale_degree(65),
        Note::from_chromatic_scale_degree(67),
        Note::from_chromatic_scale_degree(69),
        Note::from_chromatic_scale_degree(71),
    ];
    assert_eq!(
        scale.to_notes(Note::from_note_name(NoteName::C)),
        expected_notes
    );

    let scale = Scale::from_str("2, 2, 2, 2").unwrap();
    let expected_notes = vec![
        Note::from_note_name(NoteName::C),
        Note::from_note_name(NoteName::D),
        Note::from_note_name(NoteName::E),
        Note::new(NoteName::F, Sharp(1)),
    ];
    assert_eq!(
        scale.to_notes(Note::from_note_name(NoteName::C)),
        expected_notes
    );
}

#[test]
fn test_scale_types() {
    assert_eq!(
        vec![
            Note::from_note_name(NoteName::C),
            Note::from_note_name(NoteName::D),
            Note::from_note_name(NoteName::E),
            Note::from_note_name(NoteName::F),
            Note::from_note_name(NoteName::G),
            Note::from_note_name(NoteName::A),
            Note::from_note_name(NoteName::B),
        ],
        Scale::major().to_notes(Note::from_note_name(NoteName::C))
    );
    assert_eq!(
        Scale::from_steps(vec![2, 1, 2, 2, 1, 2, 2]).unwrap(),
        Scale::minor()
    );
    assert_eq!(Scale::from_steps(vec![1; 12]).unwrap(), Scale::chromatic());
}

#[test]
fn test_rotation() {
    let scale = Scale::major().rotated(1);
    let expected_scale = Scale::from_steps(vec![2, 1, 2, 2, 2, 1, 2]).unwrap();
    assert_eq!(scale, expected_scale);
}

#[test]
fn tests_test_macros() {
    assert_eq!(
        Scale::major(),
        Scale::from_steps(ScaleType::Major.as_steps()).unwrap().rotated(0)
    );
    assert_eq!(
        Scale::minor(),
        Scale::from_steps(ScaleType::Minor.as_steps()).unwrap().rotated(0)
    );
}

#[test]
fn scale_parsing() {
    let scale = Scale::from_str("2 2 1 2 2 2 1").unwrap();
    assert_eq!(scale, Scale::major());

    let scale = Scale::from_str("2, 2, 1, 2, 2, 2, 1").unwrap();
    assert_eq!(scale, Scale::major());

    let scale = Scale::from_str("C D E F G A B C").unwrap();
    assert_eq!(scale, Scale::major());

    assert_eq!(
        Scale::from_str("nothing musical"),
        Err(ResonataError::ScaleError(ScaleError::InvalidScale))
    );
    assert_eq!(
        Scale::from_str("5"),
        Err(ResonataError::ScaleError(ScaleError::InvalidScale))
    );
}

#[test]
fn scale_interval_access() {
    let scale = Scale::major();
    assert_eq!(scale.intervals().len(), 7);
    assert_eq!(scale.interval(0), Interval::from_str("M2").unwrap());
    assert_eq!(scale.interval(6), Interval::from_str("P8").unwrap());
    // Past the end, the last interval is returned.
    assert_eq!(scale.interval(100), Interval::from_str("P8").unwrap());
}

#[test]
fn scale_add_interval() {
    let mut scale = Scale::from_str("2 2 1 2").unwrap();
    scale.add_interval(Interval::from_str("M2").unwrap()).unwrap();
    assert_eq!(scale, Scale::from_str("2 2 1 2 2").unwrap());

    let mut top = Scale::from_steps(vec![120]).unwrap();
    assert!(top
        .add_interval(Interval::from_str("M7").unwrap())
        .is_err());
}

#[test]
fn scale_rotations_and_modes() {
    // Rotating the major scale up one step gives the dorian mode.
    let dorian = Scale::major().rotated(1);
    assert_eq!(
        dorian.get_known_scale_type(),
        Some(ScaleEnumType::MajorMode(MajorMode::Dorian))
    );
    // A negative count rotates the other way.
    let locrian = Scale::major().rotated(-1);
    assert_eq!(
        locrian.get_known_scale_type(),
        Some(ScaleEnumType::MajorMode(MajorMode::Locrian))
    );
}

#[test]
fn known_scale_matching() {
    assert_eq!(
        Scale::from_str("C D E F G A B C").unwrap().get_known_scale_type(),
        Some(ScaleEnumType::ScaleType(ScaleType::Major))
    );
    assert_eq!(
        Scale::from_str("C D E F# G A B C").unwrap().get_known_scale_type(),
        Some(ScaleEnumType::MajorMode(MajorMode::Lydian))
    );
    assert_eq!(
        Scale::from_str("C D E F# G# A B C").unwrap().get_known_scale_type(),
        Some(ScaleEnumType::MelodicMinorMode(MelodicMinorMode::LydianAugmented))
    );
    assert_eq!(
        Scale::from_str("C D E F G A Bb C").unwrap().get_known_scale_type(),
        Some(ScaleEnumType::MajorMode(MajorMode::Mixolydian))
    );
    assert_eq!(
        Scale::from_str("C D E F G A Bbb C").unwrap().get_known_scale_type(),
        None
    );
    assert!(Scale::from_str("C D E F G A B C").unwrap().is_known_scale());
    assert!(!Scale::from_str("C D E F G A Bbb C").unwrap().is_known_scale());
}

#[test]
fn parent_scale_matching() {
    assert_eq!(
        Scale::from_str("C D E F G A B C")
            .unwrap()
            .get_parent_scale_type(),
        Some((ScaleEnumType::ScaleType(ScaleType::Major), 0))
    );
    assert_eq!(
        Scale::from_str("C D E F# G A B C")
            .unwrap()
            .get_parent_scale_type(),
        Some((ScaleEnumType::ScaleType(ScaleType::Major), 4))
    );
    assert_eq!(
        Scale::from_str("C D E F# G# A B C")
            .unwrap()
            .get_parent_scale_type(),
        Some((ScaleEnumType::ScaleType(ScaleType::MelodicMinor), 5))
    );
}

#[test]
fn scale_printing() {
    assert_eq!(
        Scale::from_str("2 2 1").unwrap().to_string(),
        "M2, M3, P4"
    );
}

#[test]
fn scale_factories_step_tables() {
    assert_eq!(Scale::minor().to_steps(), vec![2, 1, 2, 2, 1, 2, 2]);
    assert_eq!(Scale::harmonic_minor().to_steps(), vec![2, 1, 2, 2, 1, 3, 1]);
    assert_eq!(Scale::melodic_minor().to_steps(), vec![2, 1, 2, 2, 2, 2, 1]);
    assert_eq!(Scale::major_pentatonic().to_steps(), vec![2, 2, 3, 2, 3]);
    assert_eq!(Scale::minor_pentatonic().to_steps(), vec![3, 2, 2, 3, 2]);
    assert_eq!(Scale::minor_blues().to_steps(), vec![3, 2, 1, 1, 3, 2]);
    assert_eq!(Scale::major_blues().to_steps(), vec![2, 1, 1, 3, 2, 3]);
    assert_eq!(Scale::whole_tone().to_steps(), vec![2, 2, 2, 2, 2, 2]);
    assert_eq!(Scale::diminished().to_steps(), vec![2, 1, 2, 1, 2, 1, 2, 1]);
    assert_eq!(Scale::chromatic().to_steps(), vec![1; 12]);
    assert_eq!(
        Scale::harmonic_minor().get_known_scale_type(),
        Some(ScaleEnumType::ScaleType(ScaleType::HarmonicMinor))
    );
    assert_eq!(
        ScaleEnumType::from(HarmonicMinorMode::PhrygianDominant),
        ScaleEnumType::HarmonicMinorMode(HarmonicMinorMode::PhrygianDominant)
    );
}

#[test]
fn from_steps_range_errors() {
    assert!(Scale::from_steps(vec![100, 30]).is_err());
    assert!(Scale::from_steps(vec![2, -5]).is_err());
    assert!(Scale::from_steps(vec![2, 2, 1]).is_ok());
}

#[test]
fn key_test_from_str() {
    let key = Key::from_str("Eb F G Ab Bb C D").unwrap();
    assert_eq!(
        key.pitch(NoteName::C).accidental(),
        resonata::notes::Accidental::Natural
    );
    assert_eq!(
        key.pitch(NoteName::D).accidental(),
        resonata::notes::Accidental::Natural
    );
    assert_eq!(
        key.pitch(NoteName::E).accidental(),
        resonata::notes::Accidental::Flat(1)
    );
    assert_eq!(
        key.pitch(NoteName::F).accidental(),
        resonata::notes::Accidental::Natural
    );
    assert_eq!(
        key.pitch(NoteName::G).accidental(),
        resonata::notes::Accidental::Natural
    );
    assert_eq!(
        key.pitch(NoteName::A).accidental(),
        resonata::notes::Accidental::Flat(1)
    );
    assert_eq!(
        key.pitch(NoteName::B).accidental(),
        resonata::notes::Accidental::Flat(1)
    );
}

#[test]
fn key_scale_matching() {
    let key = Key::from_string("F#").unwrap();
    assert_eq!(key.root().unwrap(), Note::from_str("G").unwrap());
    assert_eq!(
        key.to_scale_type(),
        Some(ScaleEnumType::ScaleType(ScaleType::Major))
    );

    let key = Key::from_string("G#").unwrap();
    assert_eq!(key.root().unwrap(), Note::from_str("A").unwrap());
    assert_eq!(
        key.to_scale_type(),
        Some(ScaleEnumType::ScaleType(ScaleType::HarmonicMinor))
    );

    let key = Key::from_string("Fb").unwrap();
    assert!(key.root().is_none());
    assert!(key.to_scale_type().is_none());
}

#[test]
fn key_pitches_and_updates() {
    let mut key = Key::new(vec![
        Note::from_str("Cb").unwrap(),
        Note::from_str("F#").unwrap(),
    ]);
    assert_eq!(key.pitch(NoteName::C), Note::from_str("Cb").unwrap());
    assert_eq!(key.pitch(NoteName::F), Note::from_str("F#").unwrap());
    assert_eq!(key.pitch(NoteName::D), Note::from_str("D").unwrap());
    assert_eq!(key.pitches().len(), 7);

    key.set_pitch(Note::from_str("Cx").unwrap());
    assert_eq!(key.pitch(NoteName::C), Note::from_str("Cx").unwrap());
}

#[test]
fn key_to_scale() {
    let key = Key::from_string("F#").unwrap();
    let scale = key.to_scale();
    assert_eq!(scale.to_steps(), vec![2, 2, 2, 1, 2, 2, 1]);

    let natural = Key::new(Vec::new());
    assert_eq!(natural.to_scale(), Scale::major());
}

#[test]
fn key_transposition() {
    let key = Key::new(Vec::new());
    let up = key.transposed_up(Interval::from_str("M2").unwrap());
    // Every natural pitch moves up a major second: D major's two sharps.
    assert_eq!(up.pitch(NoteName::F), Note::from_str("F#").unwrap());
    assert_eq!(up.pitch(NoteName::C), Note::from_str("C#").unwrap());
    assert_eq!(up.pitch(NoteName::D), Note::from_str("D").unwrap());

    let down = up.transposed_down(Interval::from_str("M2").unwrap());
    assert_eq!(down, Key::new(Vec::new()));
}

#[test]
fn key_transposed_root() {
    // The key of G major, transposed up a diminished third, is the key
    // of B-double-flat major.
    let key = Key::from_string("F#").unwrap();
    let moved = key.transposed_up(Interval::from_str("d3").unwrap());
    assert_eq!(moved.root().unwrap(), Note::from_str("Bbb").unwrap());
}

#[test]
fn error_messages() {
    assert_eq!(
        ResonataError::ScaleError(ScaleError::InvalidScale).message(),
        "invalid scale"
    );
    assert_eq!(
        Scale::from_str("x").unwrap_err().message(),
        "invalid scale"
    );
}

#[test]
fn key_printing() {
    let key = Key::new(vec![Note::from_str("Bb").unwrap()]);
    assert_eq!(key.to_string(), "C, D, E, F, G, A, B\u{266d}");
}
