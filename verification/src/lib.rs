//! A music-notation value library.
//!
//! The crate models musical intervals as an algebraic structure with three
//! orthogonal facets: a quality (diminished, minor, major, perfect or
//! augmented, with a degree for multiply altered qualities), a diatonic size
//! (unison through seventh) and an octave count.  It provides lossless,
//! bidirectional conversion between that structure, a chromatic semitone
//! count, a diatonic step count and a short textual notation such as `"M3"`,
//! `"d5"` or `"AA2"`, together with respelling, inversion and arithmetic.
//! Notes, keys and scales are built on top of the interval algebra.

pub mod error;
pub mod intervals;
pub mod keys;
pub mod notation;
pub mod notes;
pub mod notes_text;
pub mod quality;
pub mod scales;
pub mod size;
