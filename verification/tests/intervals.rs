use resonata::error::{IntervalError, ResonataError};
use resonata::intervals::Interval;
use resonata::quality::Quality;
use resonata::size::Size;

#[test]
fn test_boundary_values() {
    // Lower boundary
    assert_eq!(Interval::from_semitones(0).unwrap().semitones(), 0);
    // Upper boundary
    assert_eq!(Interval::from_semitones(127).unwrap().semitones(), 127);

    assert!(Interval::from_semitones(128).is_err());
}

#[test]
fn test_invalid_inputs() {
    // Invalid values for Diminished and Augmented degrees
    assert!(Interval::diminished(128).unison().is_err());
    assert!(Interval::augmented(0).unison().is_err());

    // Invalid values for octaves
    assert!(Interval::augmented(1).fifth().unwrap().compound(10).is_err());
}

#[test]
fn test_compound_scenarios() {
    let dim_5 = Interval::diminished(1).fifth().unwrap();
    assert_eq!(dim_5.semitones(), 6);

    let aug_5 = Interval::augmented(1).fifth().unwrap();
    assert_eq!(aug_5.semitones(), 8);

    let compound_dim_5 = dim_5.compound(1).unwrap();
    assert_eq!(compound_dim_5.semitones(), 18);

    let compound_aug_5 = aug_5.compound(2).unwrap();
    assert_eq!(compound_aug_5.semitones(), 32);
}

#[test]
fn test_from_str() {
    let major_third = Interval::build(Quality::Major, Size::Third, 0).unwrap();
    assert_eq!(major_third, Interval::from_str("M3").unwrap());

    let augmented_octave = Interval::build(Quality::Augmented(1), Size::Unison, 1).unwrap();
    assert_eq!(augmented_octave, Interval::from_str("A8").unwrap());

    let invalid_interval = Interval::from_str("P3");
    assert!(invalid_interval.is_err());
}

#[test]
fn extra() {
    let aug_2 = Interval::augmented(1).second().unwrap();
    let min_3 = Interval::minor().third();
    assert_eq!(aug_2.semitones(), min_3.semitones());

    let dim_2 = Interval::diminished(1).second().unwrap();
    let unis = Interval::perfect().unison();
    assert_eq!(dim_2.semitones(), unis.semitones());
}

#[test]
fn test_interval_quality_from_str() {
    assert_eq!(Quality::from_str("M").unwrap(), Quality::Major);
    assert_eq!(Quality::from_str("m").unwrap(), Quality::Minor);
    assert_eq!(Quality::from_str("P").unwrap(), Quality::Perfect);
    assert_eq!(Quality::from_str("A").unwrap(), Quality::Augmented(1));
    assert_eq!(Quality::from_str("d").unwrap(), Quality::Diminished(1));
    assert_eq!(Quality::from_str("AA").unwrap(), Quality::Augmented(2));
    assert_eq!(Quality::from_str("ddd").unwrap(), Quality::Diminished(3));
}

#[test]
fn test_interval_quality_invert() {
    assert_eq!(Quality::Diminished(1).invert(), Quality::Augmented(1));
    assert_eq!(Quality::Augmented(3).invert(), Quality::Diminished(3));
    assert_eq!(Quality::Minor.invert(), Quality::Major);
    assert_eq!(Quality::Major.invert(), Quality::Minor);
    assert_eq!(Quality::Perfect.invert(), Quality::Perfect);
}

#[test]
fn test_interval_quality_to_string() {
    assert_eq!(Quality::Major.to_string(), "M");
    assert_eq!(Quality::Minor.to_string(), "m");
    assert_eq!(Quality::Perfect.to_string(), "P");
    assert_eq!(Quality::Augmented(1).to_string(), "A");
    assert_eq!(Quality::Diminished(1).to_string(), "d");
    assert_eq!(Quality::Augmented(2).to_string(), "AA");
    assert_eq!(Quality::Diminished(3).to_string(), "ddd");
}

#[test]
fn test_to_u8() {
    assert_eq!(
        Interval::build(Quality::Perfect, Size::Unison, 0)
            .unwrap()
            .to_semitones(),
        0
    );
    assert_eq!(
        Interval::build(Quality::Major, Size::Second, 0)
            .unwrap()
            .to_semitones(),
        2
    );
    assert_eq!(
        Interval::build(Quality::Augmented(1), Size::Fourth, 0)
            .unwrap()
            .to_semitones(),
        6
    );
    assert_eq!(
        Interval::build(Quality::Diminished(1), Size::Fifth, 0)
            .unwrap()
            .to_semitones(),
        6
    );
}

#[test]
fn test_build_valid_interval() {
    let interval = Interval::build(Quality::Perfect, Size::Unison, 1).unwrap();
    assert_eq!(12, interval.to_semitones());

    let interval = Interval::build(Quality::Major, Size::Third, 0).unwrap();
    assert_eq!(4, interval.to_semitones());
}

#[test]
fn test_build_invalid_interval() {
    let invalid: Result<Interval, ResonataError> =
        Err(ResonataError::IntervalError(IntervalError::InvalidInterval));
    assert_eq!(invalid, Interval::build(Quality::Perfect, Size::Third, 0));
    assert_eq!(invalid, Interval::build(Quality::Major, Size::Unison, 0));
    assert_eq!(invalid, Interval::build(Quality::Minor, Size::Fourth, 0));
    assert_eq!(invalid, Interval::build(Quality::Major, Size::Fifth, 0));
    assert_eq!(invalid, Interval::build(Quality::Perfect, Size::Sixth, 0));
}

#[test]
fn tests_test_from_str() {
    assert_eq!(
        Interval::build(Quality::Perfect, Size::Unison, 0).unwrap(),
        Interval::from_str("PU").unwrap()
    );
    assert_eq!(
        Interval::build(Quality::Major, Size::Second, 0).unwrap(),
        Interval::from_str("M2").unwrap()
    );
    assert_eq!(
        Interval::build(Quality::Minor, Size::Third, 0).unwrap(),
        Interval::from_str("m3").unwrap()
    );
    assert_eq!(
        Interval::build(Quality::Major, Size::Third, 0).unwrap(),
        Interval::from_str("M3").unwrap()
    );
    assert_eq!(
        Interval::build(Quality::Perfect, Size::Fourth, 0).unwrap(),
        Interval::from_str("P4").unwrap()
    );
    assert_eq!(
        Interval::build(Quality::Diminished(1), Size::Fifth, 0).unwrap(),
        Interval::from_str("d5").unwrap()
    );
    assert_eq!(
        Interval::build(Quality::Perfect, Size::Fifth, 0).unwrap(),
        Interval::from_str("P5").unwrap()
    );
    assert_eq!(
        Interval::build(Quality::Minor, Size::Sixth, 0).unwrap(),
        Interval::from_str("m6").unwrap()
    );
    assert_eq!(
        Interval::build(Quality::Major, Size::Sixth, 0).unwrap(),
        Interval::from_str("M6").unwrap()
    );
    assert_eq!(
        Interval::build(Quality::Minor, Size::Seventh, 0).unwrap(),
        Interval::from_str("m7").unwrap()
    );
    assert_eq!(
        Interval::build(Quality::Major, Size::Seventh, 0).unwrap(),
        Interval::from_str("M7").unwrap()
    );
}

#[test]
fn test_interval_macros() {
    assert_eq!(
        Interval::build(Quality::Perfect, Size::Unison, 0),
        Interval::build(Quality::Perfect, Size::Unison, 0)
    );
    assert_eq!(
        Interval::build(Quality::Perfect, Size::Unison, 1),
        Interval::build(Quality::Perfect, Size::Unison, 1)
    );
    assert_eq!(
        Interval::build(Quality::Major, Size::Third, 0),
        Interval::build(Quality::Major, Size::Third, 0)
    );
    assert_eq!(
        Interval::build(Quality::Diminished(1), Size::Fourth, 2),
        Interval::build(Quality::Diminished(1), Size::Fourth, 2)
    );
    assert_eq!(
        Interval::build(Quality::Augmented(1), Size::Fifth, 0),
        Interval::build(Quality::Augmented(1), Size::Fifth, 0)
    );
}

#[test]
fn test_cmp() {
    assert_eq!(
        Interval::build(Quality::Perfect, Size::Unison, 0),
        Interval::build(Quality::Perfect, Size::Unison, 0)
    );
    assert!(
        Interval::build(Quality::Perfect, Size::Unison, 0).unwrap()
            < Interval::build(Quality::Major, Size::Second, 0).unwrap()
    );
    assert!(
        Interval::build(Quality::Diminished(2), Size::Fifth, 0).unwrap()
            < Interval::build(Quality::Augmented(1), Size::Fourth, 0).unwrap()
    );
    assert_eq!(
        Interval::build(Quality::Augmented(1), Size::Fourth, 0).unwrap(),
        Interval::build(Quality::Diminished(1), Size::Fifth, 0).unwrap()
    );
}

#[test]
fn test_inversion() {
    let interval = Interval::build(Quality::Major, Size::Second, 0).unwrap();
    assert_eq!(
        Interval::build(Quality::Minor, Size::Seventh, 0).unwrap(),
        interval.invert()
    );

    let interval = Interval::build(Quality::Augmented(1), Size::Fourth, 0).unwrap();
    assert_eq!(
        Interval::build(Quality::Diminished(1), Size::Fifth, 0).unwrap(),
        interval.invert()
    );

    let interval = Interval::build(Quality::Perfect, Size::Fifth, 0).unwrap();
    assert_eq!(
        Interval::build(Quality::Perfect, Size::Fourth, 0).unwrap(),
        interval.invert()
    );

    let interval = Interval::build(Quality::Major, Size::Sixth, 1).unwrap();
    assert_eq!(
        Interval::build(Quality::Minor, Size::Third, 1).unwrap(),
        interval.invert()
    );
}

#[test]
fn semitone_round_trip_over_supported_range() {
    for n in 0..=127 {
        let interval = Interval::from_semitones(n).unwrap();
        assert_eq!(interval.to_semitones(), n);
    }
    assert!(Interval::from_semitones(-1).is_err());
    assert!(Interval::from_semitones(128).is_err());
}

#[test]
fn chromatic_table_scenarios() {
    let third = Interval::from_semitones(4).unwrap();
    assert!(matches!(third.quality(), Quality::Major));
    assert_eq!(third.size(), Size::Third);
    assert_eq!(third.octaves(), 0);

    // The tritone is spelled as an augmented fourth, never a
    // diminished fifth.
    let tritone = Interval::from_semitones(6).unwrap();
    assert!(matches!(tritone.quality(), Quality::Augmented(1)));
    assert_eq!(tritone.size(), Size::Fourth);
}

#[test]
fn enharmonic_spellings_compare_equal_but_differ() {
    let d5 = Interval::from_str("d5").unwrap();
    let a4 = Interval::from_str("A4").unwrap();
    assert_eq!(d5.to_semitones(), 6);
    assert_eq!(a4.to_semitones(), 6);
    assert_eq!(d5, a4);
    assert!(matches!(d5.quality(), Quality::Diminished(1)));
    assert_eq!(d5.size(), Size::Fifth);
    assert!(matches!(a4.quality(), Quality::Augmented(1)));
    assert_eq!(a4.size(), Size::Fourth);
}

#[test]
fn notation_round_trip_concrete() {
    for token in ["P1", "m2", "M3", "P4", "d5", "A4", "m9", "M13", "AA2", "dd12", "P15"] {
        let interval = Interval::from_str(token).unwrap();
        let printed = interval.to_string();
        assert_eq!(printed, token);
        let reparsed = Interval::from_str(&printed).unwrap();
        assert_eq!(reparsed.size(), interval.size());
        assert_eq!(reparsed.octaves(), interval.octaves());
        assert_eq!(reparsed.to_semitones(), interval.to_semitones());
    }
    assert_eq!(
        Interval::build(Quality::Perfect, Size::Unison, 0)
            .unwrap()
            .to_string(),
        "P1"
    );
    assert_eq!(
        Interval::build(Quality::Diminished(2), Size::Third, 1)
            .unwrap()
            .to_string(),
        "dd10"
    );
}

#[test]
fn as_size_identity_and_preservation() {
    let samples = [
        Interval::build(Quality::Major, Size::Third, 0).unwrap(),
        Interval::build(Quality::Minor, Size::Seventh, 1).unwrap(),
        Interval::build(Quality::Perfect, Size::Fifth, 2).unwrap(),
        Interval::build(Quality::Diminished(3), Size::Fourth, 0).unwrap(),
        Interval::build(Quality::Augmented(2), Size::Sixth, 0).unwrap(),
    ];
    for x in samples {
        // Respelling to the own size and octaves gives the value back.
        let same = x.as_size(x.size(), x.octaves()).unwrap();
        assert_eq!(same.size(), x.size());
        assert_eq!(same.octaves(), x.octaves());
        assert_eq!(same.to_semitones(), x.to_semitones());
        // Respelling to another size keeps the semitone total.
        for target in [Size::Unison, Size::Second, Size::Fifth, Size::Seventh] {
            let y = x.as_size(target, x.octaves()).unwrap();
            assert_eq!(y.to_semitones(), x.to_semitones());
            assert_eq!(y.size(), target);
        }
    }
}

#[test]
fn as_size_respelling_scenarios() {
    let unison = Interval::from_str("PU").unwrap();
    let d2 = unison.as_size(Size::Second, 0).unwrap();
    assert_eq!(d2, Interval::from_str("d2").unwrap());
    assert!(matches!(d2.quality(), Quality::Diminished(1)));

    let m3 = Interval::from_str("m3").unwrap();
    let a2 = m3.as_size(Size::Second, 0).unwrap();
    assert_eq!(a2, Interval::from_str("A2").unwrap());

    let major_second = Interval::from_str("M2").unwrap();
    let d3 = major_second.as_size(Size::Third, 0).unwrap();
    assert_eq!(d3, Interval::from_str("d3").unwrap());

    let major_seventh = Interval::from_str("M7").unwrap();
    let d8 = major_seventh.as_size(Size::Unison, 1).unwrap();
    assert_eq!(d8, Interval::from_str("d8").unwrap());
}

#[test]
fn invert_involution_concrete() {
    let samples = [
        Interval::build(Quality::Major, Size::Second, 0).unwrap(),
        Interval::build(Quality::Minor, Size::Sixth, 1).unwrap(),
        Interval::build(Quality::Perfect, Size::Unison, 3).unwrap(),
        Interval::build(Quality::Diminished(2), Size::Fifth, 0).unwrap(),
        Interval::build(Quality::Augmented(4), Size::Third, 0).unwrap(),
    ];
    for x in samples {
        let twice = x.invert().invert();
        assert_eq!(twice.size(), x.size());
        assert_eq!(twice.octaves(), x.octaves());
        assert_eq!(twice.to_semitones(), x.to_semitones());
    }
}

#[test]
fn raised_and_lowered_scenarios() {
    let interval = Interval::minor().third().raised(2).unwrap();
    assert_eq!(interval.semitones(), 5);
    assert!(matches!(interval.quality(), Quality::Augmented(1)));

    let interval = Interval::major().sixth().raised(1).unwrap();
    assert_eq!(interval.semitones(), 10);
    assert!(matches!(interval.quality(), Quality::Augmented(1)));

    let interval = Interval::perfect().fifth().raised(2).unwrap();
    assert_eq!(interval.semitones(), 9);
    assert!(matches!(interval.quality(), Quality::Augmented(2)));

    let interval = Interval::diminished(1).seventh().unwrap().raised(1).unwrap();
    assert_eq!(interval.semitones(), 10);
    assert!(matches!(interval.quality(), Quality::Minor));

    let interval = Interval::perfect().fourth().lowered(1).unwrap();
    assert_eq!(interval.semitones(), 4);
    assert!(matches!(interval.quality(), Quality::Diminished(1)));

    let interval = Interval::major().third().lowered(2).unwrap();
    assert_eq!(interval.semitones(), 2);
    assert!(matches!(interval.quality(), Quality::Diminished(1)));

    let interval = Interval::diminished(1).third().unwrap().lowered(1).unwrap();
    assert_eq!(interval.semitones(), 1);
    assert!(matches!(interval.quality(), Quality::Diminished(2)));
}

#[test]
fn arithmetic_scenarios() {
    let m3 = Interval::major().third();
    let min3 = Interval::minor().third();
    let sum = m3.plus(&min3).unwrap();
    assert_eq!(sum, Interval::perfect().fifth());

    let diff = m3.minus(&min3).unwrap();
    assert_eq!(diff.to_semitones(), 1);

    // A difference below zero and a sum above the range both fail.
    assert!(min3.minus(&m3).is_err());
    let high = Interval::from_semitones(125).unwrap();
    assert!(high.plus(&m3).is_err());
}

#[test]
fn error_variants_for_bad_inputs() {
    assert_eq!(
        Interval::diminished(0).fifth(),
        Err(ResonataError::IntervalError(
            IntervalError::InvalidAlterationDegree(0)
        ))
    );
    assert_eq!(
        Interval::from_semitones(200),
        Err(ResonataError::IntervalError(
            IntervalError::InvalidIntervalSize(200)
        ))
    );
    assert_eq!(
        Quality::from_str("Q"),
        Err(ResonataError::IntervalError(
            IntervalError::InvalidIntervalQuality
        ))
    );
    assert_eq!(
        Quality::from_str("Ad"),
        Err(ResonataError::IntervalError(
            IntervalError::InvalidIntervalQuality
        ))
    );
    assert_eq!(
        Interval::from_str("Mx"),
        Err(ResonataError::IntervalError(
            IntervalError::InvalidIntervalFormat
        ))
    );
    assert_eq!(
        Interval::from_str("M0"),
        Err(ResonataError::IntervalError(
            IntervalError::InvalidIntervalSize(0)
        ))
    );
}

#[test]
fn compound_minor_sixth() {
    let m6 = Interval::build(Quality::Minor, Size::Sixth, 0).unwrap();
    assert_eq!(m6.to_semitones(), 8);
    assert_eq!(m6.compound(2).unwrap().to_semitones(), 32);
    assert_eq!(m6.with_octaves(2).unwrap().to_semitones(), 32);
}

#[test]
fn size_conversions() {
    assert_eq!(Size::Unison.to_semitones(), 0);
    assert_eq!(Size::Second.to_semitones(), 2);
    assert_eq!(Size::Third.to_semitones(), 4);
    assert_eq!(Size::Fourth.to_semitones(), 5);
    assert_eq!(Size::Fifth.to_semitones(), 7);
    assert_eq!(Size::Sixth.to_semitones(), 9);
    assert_eq!(Size::Seventh.to_semitones(), 11);

    assert_eq!(Size::Unison.invert(), Size::Unison);
    assert_eq!(Size::Second.invert(), Size::Seventh);
    assert_eq!(Size::Third.invert(), Size::Sixth);
    assert_eq!(Size::Fourth.invert(), Size::Fifth);

    assert_eq!(Size::from_str("U").unwrap(), Size::Unison);
    assert_eq!(Size::from_str("5").unwrap(), Size::Fifth);
    assert!(Size::from_str("8").is_err());
    assert_eq!(Size::Fifth.to_string(), "5");
    assert_eq!(Size::Unison.to_string(), "U");
}

#[test]
fn diatonic_steps_scenarios() {
    assert_eq!(Interval::from_str("M3").unwrap().to_diatonic_steps(), 2);
    assert_eq!(Interval::from_str("m9").unwrap().to_diatonic_steps(), 8);
}

#[test]
fn bare_number_parses_as_semitones() {
    let four = Interval::from_str("4").unwrap();
    assert_eq!(four, Interval::major().third());
    assert!(Interval::from_str("-3").is_err());
}
