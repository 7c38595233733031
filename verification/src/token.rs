//! The token vocabulary the upstream lexer hands to this library,
//! reduced to plain values.

use vstd::prelude::*;
use crate::music::{Barline, Metre, Mode, Note, PitchClass};

verus! {

/// One lexed token. The typesetter reads the musical kinds and ignores the
/// rest; the tune AST builder files the header kinds.
#[derive(Clone, Debug)]
pub enum Token {
    /// End of input.
    Terminal,
    /// End of a line of music.
    Newline,
    Area(String),
    Book(String),
    Composer(String),
    Discography(String),
    Filename(String),
    Group(String),
    History(String),
    Information(String),
    Notes(String),
    Origin(String),
    Source(String),
    Title(String),
    Words(String),
    X(String),
    Transcription(String),
    Metre(Metre),
    KeySignature(PitchClass, Mode),
    Barline(Barline),
    SingleBar,
    DoubleBar,
    EndBar,
    OpenRepeat,
    CloseRepeat,
    Note(Note),
    BeamBreak,
}

/// The outcome of one lexer step: a token, or an error at a byte offset.
#[derive(Clone, Debug)]
pub enum LexResult {
    /// An error, reduced to the offset it was reported at.
    Error(usize),
    /// A token.
    T(Token),
}

} // verus!
