//! The tune abstract syntax tree: turns a lexed token stream into a more
//! useful structure, filing headers, collecting error offsets, and grouping
//! consecutive notes into beam groups split at bar lines and beam breaks.

use vstd::prelude::*;
use vstd::string::StringExecFns;
use crate::music::{Barline, Metre, Mode, Note, PitchClass};
use crate::token::{LexResult, Token};

verus! {

/// A filed header field of a tune.
#[derive(Clone, Debug, PartialEq)]
pub enum HeaderField {
    Area(String),
    Book(String),
    Composer(String),
    Discography(String),
    Filename(String),
    Group(String),
    History(String),
    Information(String),
    Notes(String),
    Origin(String),
    Source(String),
    Title(String),
    Words(String),
    X(String),
    Transcription(String),
    Metre(Metre),
    KeySignature(PitchClass, Mode),
}

/// One element of the tune body. Beam groups hold the notes that were
/// grouped between bar lines and beam breaks.
#[derive(Clone, Debug, PartialEq)]
pub enum Entity {
    Barline(Barline),
    Note(Note),
    BeamGroup(Vec<Note>),
}

/// The mathematical shape of a tune-body element.
pub enum EntityV {
    Barline(Barline),
    Note(Note),
    BeamGroup(Seq<Note>),
}

impl View for Entity {
    type V = EntityV;

    open spec fn view(&self) -> EntityV {
        match *self {
            Entity::Barline(b) => EntityV::Barline(b),
            Entity::Note(n) => EntityV::Note(n),
            Entity::BeamGroup(v) => EntityV::BeamGroup(v@),
        }
    }
}

/// A tune: its filed headers, the offsets of lexer errors, and the body.
#[derive(Clone, Debug, PartialEq)]
pub struct TuneAst {
    pub headers: Vec<HeaderField>,
    pub errors: Vec<usize>,
    pub entities: Vec<Entity>,
}

impl TuneAst {
    pub fn new() -> (r: TuneAst)
        ensures
            r.headers@ == Seq::<HeaderField>::empty(),
            r.errors@ == Seq::<usize>::empty(),
            r.entities@ == Seq::<Entity>::empty(),
    {
        TuneAst { headers: Vec::new(), errors: Vec::new(), entities: Vec::new() }
    }
}

/// The builder state: headers, error offsets, finished body elements, and
/// the beam group being collected.
pub open spec fn ast_step(
    st: (Seq<HeaderField>, Seq<usize>, Seq<EntityV>, Seq<Note>),
    item: LexResult,
) -> (Seq<HeaderField>, Seq<usize>, Seq<EntityV>, Seq<Note>) {
    match item {
        LexResult::Error(offset) => (st.0, st.1.push(offset), st.2, st.3),
        LexResult::T(t) => match t {
            Token::Area(v) => (st.0.push(HeaderField::Area(v)), st.1, st.2, st.3),
            Token::Book(v) => (st.0.push(HeaderField::Book(v)), st.1, st.2, st.3),
            Token::Composer(v) => (st.0.push(HeaderField::Composer(v)), st.1, st.2, st.3),
            Token::Discography(v) => (st.0.push(HeaderField::Discography(v)), st.1, st.2, st.3),
            Token::Filename(v) => (st.0.push(HeaderField::Filename(v)), st.1, st.2, st.3),
            Token::Group(v) => (st.0.push(HeaderField::Group(v)), st.1, st.2, st.3),
            Token::History(v) => (st.0.push(HeaderField::History(v)), st.1, st.2, st.3),
            Token::Information(v) => (st.0.push(HeaderField::Information(v)), st.1, st.2, st.3),
            Token::Notes(v) => (st.0.push(HeaderField::Notes(v)), st.1, st.2, st.3),
            Token::Origin(v) => (st.0.push(HeaderField::Origin(v)), st.1, st.2, st.3),
            Token::Source(v) => (st.0.push(HeaderField::Source(v)), st.1, st.2, st.3),
            Token::Title(v) => (st.0.push(HeaderField::Title(v)), st.1, st.2, st.3),
            Token::Words(v) => (st.0.push(HeaderField::Words(v)), st.1, st.2, st.3),
            Token::X(v) => (st.0.push(HeaderField::X(v)), st.1, st.2, st.3),
            Token::Transcription(v) => (
                st.0.push(HeaderField::Transcription(v)),
                st.1,
                st.2,
                st.3,
            ),
            Token::Metre(m) => (st.0.push(HeaderField::Metre(m)), st.1, st.2, st.3),
            Token::KeySignature(pc, m) => (
                st.0.push(HeaderField::KeySignature(pc, m)),
                st.1,
                st.2,
                st.3,
            ),
            Token::Barline(b) => (
                st.0,
                st.1,
                st.2.push(EntityV::BeamGroup(st.3)).push(EntityV::Barline(b)),
                Seq::empty(),
            ),
            Token::Note(n) => (st.0, st.1, st.2, st.3.push(n)),
            Token::BeamBreak => (st.0, st.1, st.2.push(EntityV::BeamGroup(st.3)), Seq::empty()),
            _ => st,
        },
    }
}

/// The builder state after consuming a lexer output sequence.
pub open spec fn ast_fold(items: Seq<LexResult>) -> (
    Seq<HeaderField>,
    Seq<usize>,
    Seq<EntityV>,
    Seq<Note>,
)
    decreases items.len(),
{
    if items.len() == 0 {
        (Seq::empty(), Seq::empty(), Seq::empty(), Seq::empty())
    } else {
        ast_step(ast_fold(items.drop_last()), items.last())
    }
}

/// The finished tune: the folded state, with a non-empty trailing beam group
/// flushed as one last body element.
pub open spec fn ast_result(items: Seq<LexResult>) -> (Seq<HeaderField>, Seq<usize>, Seq<EntityV>) {
    let st = ast_fold(items);
    (
        st.0,
        st.1,
        if st.3.len() > 0 {
            st.2.push(EntityV::BeamGroup(st.3))
        } else {
            st.2
        },
    )
}

/// Reads a lexer's outputs and builds the tune AST: headers are filed, error
/// offsets are kept, notes are collected into beam groups, and a bar line or
/// a beam break finishes the group in progress. Bar lines arrive here as
/// `Barline` tokens; all other token kinds pass through ignored.
pub fn read_from_lexer(items: Vec<LexResult>) -> (r: TuneAst)
    ensures
        r.headers@ == ast_result(items@).0,
        r.errors@ == ast_result(items@).1,
        r.entities@.map_values(|e: Entity| e@) == ast_result(items@).2,
{
    let ghost seq_items = items@;
    let mut headers: Vec<HeaderField> = Vec::new();
    let mut errors: Vec<usize> = Vec::new();
    let mut entities: Vec<Entity> = Vec::new();
    let mut current_beam_group: Vec<Note> = Vec::new();
    let n = items.len();
    proof {
        assert(seq_items.take(0) =~= Seq::<LexResult>::empty());
        assert(entities@.map_values(|e: Entity| e@) =~= Seq::<EntityV>::empty());
    }
    for i in 0..n
        invariant
            n == seq_items.len(),
            seq_items == items@,
            headers@ == ast_fold(seq_items.take(i as int)).0,
            errors@ == ast_fold(seq_items.take(i as int)).1,
            entities@.map_values(|e: Entity| e@) == ast_fold(seq_items.take(i as int)).2,
            current_beam_group@ == ast_fold(seq_items.take(i as int)).3,
    {
        proof {
            assert(seq_items.take(i + 1).drop_last() =~= seq_items.take(i as int));
            assert(seq_items.take(i + 1).last() == seq_items[i as int]);
        }
        let ghost eprev = entities@.map_values(|e: Entity| e@);
        match &items[i] {
            LexResult::Error(offset) => {
                errors.push(*offset);
            },
            LexResult::T(token) => {
                match token {
                    Token::Area(value) => headers.push(HeaderField::Area(value.clone())),
                    Token::Book(value) => headers.push(HeaderField::Book(value.clone())),
                    Token::Composer(value) => headers.push(HeaderField::Composer(value.clone())),
                    Token::Discography(value) => headers.push(
                        HeaderField::Discography(value.clone()),
                    ),
                    Token::Filename(value) => headers.push(HeaderField::Filename(value.clone())),
                    Token::Group(value) => headers.push(HeaderField::Group(value.clone())),
                    Token::History(value) => headers.push(HeaderField::History(value.clone())),
                    Token::Information(value) => headers.push(
                        HeaderField::Information(value.clone()),
                    ),
                    Token::Notes(value) => headers.push(HeaderField::Notes(value.clone())),
                    Token::Origin(value) => headers.push(HeaderField::Origin(value.clone())),
                    Token::Source(value) => headers.push(HeaderField::Source(value.clone())),
                    Token::Title(value) => headers.push(HeaderField::Title(value.clone())),
                    Token::Words(value) => headers.push(HeaderField::Words(value.clone())),
                    Token::X(value) => headers.push(HeaderField::X(value.clone())),
                    Token::Transcription(value) => headers.push(
                        HeaderField::Transcription(value.clone()),
                    ),
                    Token::Metre(metre) => headers.push(HeaderField::Metre(*metre)),
                    Token::KeySignature(pitch_class, mode) => headers.push(
                        HeaderField::KeySignature(*pitch_class, *mode),
                    ),
                    Token::Barline(barline) => {
                        let ghost group = current_beam_group@;
                        entities.push(Entity::BeamGroup(current_beam_group));
                        current_beam_group = Vec::new();
                        entities.push(Entity::Barline(*barline));
                        proof {
                            assert(entities@.map_values(|e: Entity| e@) =~= eprev.push(
                                EntityV::BeamGroup(group),
                            ).push(EntityV::Barline(*barline)));
                        }
                    },
                    Token::Note(note) => {
                        current_beam_group.push(*note);
                    },
                    Token::BeamBreak => {
                        let ghost group = current_beam_group@;
                        entities.push(Entity::BeamGroup(current_beam_group));
                        current_beam_group = Vec::new();
                        proof {
                            assert(entities@.map_values(|e: Entity| e@) =~= eprev.push(
                                EntityV::BeamGroup(group),
                            ));
                        }
                    },
                    _ => {},
                }
            },
        }
        proof {
            assert(headers@ == ast_fold(seq_items.take(i + 1)).0);
            assert(errors@ == ast_fold(seq_items.take(i + 1)).1);
            assert(entities@.map_values(|e: Entity| e@) =~= ast_fold(seq_items.take(i + 1)).2);
            assert(current_beam_group@ == ast_fold(seq_items.take(i + 1)).3);
        }
    }
    proof {
        assert(seq_items.take(n as int) =~= seq_items);
    }
    if current_beam_group.len() > 0 {
        let ghost group = current_beam_group@;
        let ghost eprev = entities@.map_values(|e: Entity| e@);
        entities.push(Entity::BeamGroup(current_beam_group));
        proof {
            assert(entities@.map_values(|e: Entity| e@) =~= eprev.push(EntityV::BeamGroup(group)));
        }
        return TuneAst { headers, errors, entities };
    }
    TuneAst { headers, errors, entities }
}

} // verus!
