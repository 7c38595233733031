//! Plain-value music model.
//!
//! The typesetter reads only a few facts about pitches, clefs and durations:
//! a pitch's diatonic degree, a clef's reference pitch and centre line, and a
//! duration's already-resolved visual glyph (shape and dot count). This module
//! holds those facts as plain values; pitch spelling, interval arithmetic and
//! duration resolution beyond them are the concern of the upstream parser.

use vstd::prelude::*;

verus! {

/// A note letter, without accidental or octave.
#[derive(Clone, Copy, Debug, PartialEq, Eq, Structural)]
pub enum DiatonicPitchClass {
    A,
    B,
    C,
    D,
    E,
    F,
    G,
}

/// An accidental applied to a pitch class.
#[derive(Clone, Copy, Debug, PartialEq, Eq, Structural)]
pub enum Accidental {
    Sharp,
    Flat,
    Natural,
    DoubleSharp,
    DoubleFlat,
}

/// A pitch class: a note letter with an optional accidental.
#[derive(Clone, Copy, Debug, PartialEq, Eq, Structural)]
pub struct PitchClass {
    pub diatonic_pitch_class: DiatonicPitchClass,
    pub accidental: Option<Accidental>,
}

/// The mode of a key signature.
#[derive(Clone, Copy, Debug, PartialEq, Eq, Structural)]
pub enum Mode {
    Major,
    Minor,
}

/// A pitch, reduced to what vertical layout reads: its diatonic degree,
/// counted in staff steps (lines and spaces) from C in octave zero.
/// C4, one octave per seven degrees, sits at degree 28.
#[derive(Clone, Copy, Debug, PartialEq, Eq, Structural)]
pub struct Pitch {
    pub degree: i32,
}

impl Pitch {
    /// The diatonic interval from `self` up to `other`, in staff steps.
    pub fn interval_to(&self, other: &Pitch) -> (r: i64)
        ensures
            r == other.degree - self.degree,
    {
        (other.degree as i64) - (self.degree as i64)
    }
}

/// The visual class of a duration: which note head, stem and tail count.
#[derive(Clone, Copy, Debug, PartialEq, Eq, Structural)]
pub enum DurationClass {
    Semibreve,
    Minim,
    Crotchet,
    Quaver,
    Semiquaver,
    Demisemiquaver,
}

/// A duration resolved to its drawable form: a shape and a dot count.
#[derive(Clone, Copy, Debug, PartialEq, Eq, Structural)]
pub struct DurationGlyph {
    pub shape: DurationClass,
    pub dots: u32,
}

/// A note: a pitch and its duration, the latter already resolved to the
/// glyph it is drawn as (`None` when no glyph could be resolved).
#[derive(Clone, Copy, Debug, PartialEq, Eq, Structural)]
pub struct Note {
    pub pitch: Pitch,
    pub duration: Option<DurationGlyph>,
}

/// A clef: the pitch of its reference line and the staff position
/// (0 to 8, bottom line is 0) that the reference pitch occupies.
#[derive(Clone, Copy, Debug, PartialEq, Eq, Structural)]
pub struct Clef {
    pub pitch: Pitch,
    pub centre: i32,
}

/// The treble clef's value: G4 (degree 28 + 4) on the second staff line.
pub open spec fn treble_clef() -> Clef {
    Clef { pitch: Pitch { degree: 32 }, centre: 2 }
}

impl Clef {
    /// The treble clef: G4 (degree 28 + 4) on the second staff line.
    pub fn treble() -> (r: Clef)
        ensures
            r == treble_clef(),
    {
        Clef { pitch: Pitch { degree: 32 }, centre: 2 }
    }
}

/// A bar line kind, as the lexer reports it.
#[derive(Clone, Copy, Debug, PartialEq, Eq, Structural)]
pub enum Barline {
    Single,
    Double,
    End,
    OpenRepeat,
    CloseRepeat,
}

/// A time signature: beats per bar over beat unit.
#[derive(Clone, Copy, Debug, PartialEq, Eq, Structural)]
pub struct Metre(pub u32, pub u32);

} // verus!
