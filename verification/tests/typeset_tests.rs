use staveset::frac::Frac;
use staveset::music::{Clef, DurationClass, DurationGlyph, Metre, Mode, Note, Pitch, PitchClass};
use staveset::music::DiatonicPitchClass;
use staveset::svg::{Drawing, Prim};
use staveset::token::Token;
use staveset::typeset::{
    render_page, typeset_from_ast, Entity, Glyph, HorizontalBox, Stave, Tune, Typesetting,
    prelude_settings, stave_scale,
};

fn note(degree: i32, shape: DurationClass, dots: u32) -> Token {
    Token::Note(Note {
        pitch: Pitch { degree },
        duration: Some(DurationGlyph { shape, dots }),
    })
}

fn entities_of(b: &HorizontalBox) -> &Vec<Entity> {
    match b {
        HorizontalBox::System(s) => &s.entities,
    }
}

#[test]
fn typesetting_new_exists() {
    let _t = Typesetting::new();
}

#[test]
fn empty_voice_yields_one_clef_system() {
    // A tune with one voice containing zero tokens still yields a page with
    // exactly one system containing exactly one entity: the seeded clef.
    let tune = Tune { prelude: vec![], voices: vec![vec![]] };
    let page = typeset_from_ast(tune);
    assert_eq!(page.boxes.len(), 1);
    let es = entities_of(&page.boxes[0]);
    assert_eq!(es.len(), 1);
    assert_eq!(es[0].glyph, Glyph::Clef(Clef::treble()));
}

#[test]
fn no_voices_still_yields_one_system() {
    let tune = Tune { prelude: vec![], voices: vec![] };
    let page = typeset_from_ast(tune);
    assert_eq!(page.boxes.len(), 1);
    assert_eq!(entities_of(&page.boxes[0]).len(), 1);
}

#[test]
fn newline_count_gives_system_count() {
    // One voice with two newline tokens: exactly three systems.
    let voice = vec![
        Token::SingleBar,
        Token::Newline,
        Token::SingleBar,
        Token::Newline,
    ];
    let tune = Tune { prelude: vec![], voices: vec![voice] };
    let page = typeset_from_ast(tune);
    assert_eq!(page.boxes.len(), 3);
}

#[test]
fn scenario_two_systems() {
    // Voice: Note(C4, Crotchet), SingleBar, Note(D4, Quaver), Newline,
    //        Note(E4, Minim), EndBar.
    // C4 is diatonic degree 28; D4 is 29; E4 is 30. Under the treble clef
    // (reference G4 = degree 32 on position 2): C4 sits at -2, D4 at -1,
    // E4 at 0 (the bottom line).
    let voice = vec![
        note(28, DurationClass::Crotchet, 0),
        Token::SingleBar,
        note(29, DurationClass::Quaver, 0),
        Token::Newline,
        note(30, DurationClass::Minim, 0),
        Token::EndBar,
    ];
    let tune = Tune { prelude: vec![], voices: vec![voice] };
    let page = typeset_from_ast(tune);
    assert_eq!(page.boxes.len(), 2);

    let s1 = entities_of(&page.boxes[0]);
    assert_eq!(s1.len(), 4);
    assert_eq!(s1[0].glyph, Glyph::Clef(Clef::treble()));
    assert_eq!(
        s1[1].glyph,
        Glyph::NoteHead(-2, Some(DurationGlyph { shape: DurationClass::Crotchet, dots: 0 }))
    );
    assert_eq!(s1[2].glyph, Glyph::SingleBar);
    assert_eq!(
        s1[3].glyph,
        Glyph::NoteHead(-1, Some(DurationGlyph { shape: DurationClass::Quaver, dots: 0 }))
    );

    let s2 = entities_of(&page.boxes[1]);
    assert_eq!(s2.len(), 3);
    assert_eq!(s2[0].glyph, Glyph::Clef(Clef::treble()));
    assert_eq!(
        s2[1].glyph,
        Glyph::NoteHead(0, Some(DurationGlyph { shape: DurationClass::Minim, dots: 0 }))
    );
    assert_eq!(s2[2].glyph, Glyph::EndBar);

    // Rendering the E4 minim: an open head (outline rectangle) at the
    // y-coordinate of position 0, a stem, and no tails.
    let mut svg = Drawing::new();
    let head = s2[1];
    head.render(&mut svg, Frac { num: 0, den: 1 }, 0);
    assert_eq!(svg.entities.len(), 2);
    // Head: open rectangle at yy - 10 where yy = (9 - 0) * 20 = 180.
    match &svg.entities[0] {
        Prim::Rect(x, y, w, h) => {
            assert_eq!(*x, Frac { num: 0, den: 1 });
            assert_eq!(*y, Frac { num: 170, den: 1 });
            assert_eq!(*w, Frac { num: 25, den: 1 });
            assert_eq!(*h, Frac { num: 20, den: 1 });
        }
        other => panic!("expected an open head rectangle, got {:?}", other),
    }
    // Stem: a thin outline rectangle anchored at the head's side.
    match &svg.entities[1] {
        Prim::Rect(x, y, w, h) => {
            assert_eq!(*x, Frac { num: 30, den: 1 });
            assert_eq!(*y, Frac { num: 110, den: 1 });
            assert_eq!(*w, Frac { num: 2, den: 1 });
            assert_eq!(*h, Frac { num: 80, den: 1 });
        }
        other => panic!("expected a stem rectangle, got {:?}", other),
    }
}

#[test]
fn widths_are_fixed_per_glyph() {
    assert_eq!(Entity::new(Glyph::SingleBar).width(), 2);
    assert_eq!(Entity::new(Glyph::DoubleBar).width(), 10);
    assert_eq!(Entity::new(Glyph::EndBar).width(), 22);
    assert_eq!(Entity::new(Glyph::OpenRepeat).width(), 40);
    assert_eq!(Entity::new(Glyph::CloseRepeat).width(), 20);
    assert_eq!(Entity::new(Glyph::Clef(Clef::treble())).width(), 100);
    // A note head reserves two head widths, plus one per dot.
    assert_eq!(Entity::new(Glyph::NoteHead(0, None)).width(), 50);
    let dotted = Glyph::NoteHead(
        3,
        Some(DurationGlyph { shape: DurationClass::Quaver, dots: 2 }),
    );
    assert_eq!(Entity::new(dotted).width(), 100);
    // Width is pure: equal glyphs, equal widths, wherever they stand.
    assert_eq!(Entity::new(dotted).width(), Entity::new(dotted).width());
}

#[test]
fn scale_is_capped_and_exact() {
    // Zero natural width: unit scale, no division.
    assert_eq!(stave_scale(0), Frac { num: 1, den: 1 });
    // A sparse stave is capped at 9/5 rather than stretched to full width.
    assert_eq!(stave_scale(100), Frac { num: 9, den: 5 });
    // A dense stave is compressed: 1600 / 8000 = one fifth.
    assert_eq!(stave_scale(8000), Frac { num: 1600, den: 8000 });
    // The boundary: 1600/889 < 9/5 exactly when 8000 <= 9 * 889.
    assert_eq!(stave_scale(889), Frac { num: 1600, den: 889 });
    assert_eq!(stave_scale(888), Frac { num: 9, den: 5 });
}

#[test]
fn spacing_is_linear_in_unscaled_positions() {
    // A clef (width 100) then a single bar: natural width 102, scale 9/5.
    let stave = Stave {
        entities: vec![Entity::new(Glyph::Clef(Clef::treble())), Entity::new(Glyph::SingleBar)],
    };
    let mut svg = Drawing::new();
    stave.render(&mut svg, 0);
    // Clef: rect + text; bar: rect; staff lines: five rects.
    assert_eq!(svg.entities.len(), 8);
    // The clef is rendered at x = 0 (times the scale).
    match &svg.entities[0] {
        Prim::Rect(x, _, _, _) => assert_eq!(*x, Frac { num: 0, den: 5 }),
        other => panic!("expected the clef rectangle, got {:?}", other),
    }
    // The bar is rendered at x = scale * 100 = 9/5 * 100 = 180.
    match &svg.entities[2] {
        Prim::Rect(x, _, _, _) => assert_eq!(*x, Frac { num: 900, den: 5 }),
        other => panic!("expected the bar rectangle, got {:?}", other),
    }
    // Each staff line spans the displayed width: scale * 102.
    match &svg.entities[3] {
        Prim::Rect(x, _, w, _) => {
            assert_eq!(*x, Frac { num: 0, den: 5 });
            assert_eq!(*w, Frac { num: 918, den: 5 });
        }
        other => panic!("expected a staff line, got {:?}", other),
    }
}

#[test]
fn stave_height_is_constant() {
    let empty = Stave { entities: vec![] };
    let full = Stave {
        entities: vec![Entity::new(Glyph::Clef(Clef::treble())), Entity::new(Glyph::EndBar)],
    };
    assert_eq!(empty.height(), 220);
    assert_eq!(full.height(), 220);
    let b = HorizontalBox::System(full);
    assert_eq!(b.height(), 260);
}

#[test]
fn prelude_settings_take_last_values() {
    let d_major = PitchClass { diatonic_pitch_class: DiatonicPitchClass::D, accidental: None };
    let prelude = vec![
        Token::Title(String::from("A Tune")),
        Token::Metre(Metre(6, 8)),
        Token::KeySignature(d_major, Mode::Major),
    ];
    let s = prelude_settings(&prelude);
    assert_eq!(s.metre, Metre(6, 8));
    assert_eq!(s.key_pitch_class, d_major);
    assert_eq!(s.key_mode, Mode::Major);
    // Defaults: C major, four-four.
    let s0 = prelude_settings(&vec![]);
    assert_eq!(s0.metre, Metre(4, 4));
    assert_eq!(s0.key_pitch_class.diatonic_pitch_class, DiatonicPitchClass::C);
}

#[test]
fn unknown_duration_degrades_to_placeholder() {
    let mut svg = Drawing::new();
    let head = Entity::new(Glyph::NoteHead(4, None));
    head.render(&mut svg, Frac { num: 0, den: 1 }, 0);
    assert_eq!(svg.entities.len(), 1);
    match &svg.entities[0] {
        Prim::Text(_, y, label) => {
            assert_eq!(label.as_str(), "?");
            // Position 4: the middle line, yy = (9 - 4) * 20 = 100.
            assert_eq!(*y, Frac { num: 100, den: 1 });
        }
        other => panic!("expected the placeholder label, got {:?}", other),
    }
}

#[test]
fn rendered_document_has_one_element_per_primitive() {
    // One empty voice: one system holding the clef alone. The clef draws a
    // rectangle and a label; the stave adds five staff lines.
    let tune = Tune { prelude: vec![], voices: vec![vec![]] };
    let page = typeset_from_ast(tune);
    let doc = render_page(page);
    assert_eq!(doc.matches("<rect").count(), 6);
    assert_eq!(doc.matches("<text").count(), 1);
    assert_eq!(doc.matches("<svg").count(), 1);
    assert_eq!(doc.matches("</svg>").count(), 1);
    assert!(doc.starts_with("<svg version='1.1' baseProfile='full' width='"));
    assert!(doc.ends_with("</svg>"));
}

#[test]
fn page_render_stacks_systems_by_constant_height() {
    // Two systems: the second stave's primitives sit 260 half-units lower.
    let voice = vec![Token::Newline];
    let tune = Tune { prelude: vec![], voices: vec![voice] };
    let page = typeset_from_ast(tune);
    assert_eq!(page.boxes.len(), 2);
    let mut svg = Drawing::new();
    page.render(&mut svg);
    // Each system draws 7 primitives (clef rect, clef label, 5 lines).
    assert_eq!(svg.entities.len(), 14);
    match (&svg.entities[0], &svg.entities[7]) {
        (Prim::Rect(_, y1, _, _), Prim::Rect(_, y2, _, _)) => {
            assert_eq!(y1.den, 1);
            assert_eq!(y2.den, 1);
            assert_eq!(y2.num - y1.num, 260);
        }
        other => panic!("expected two clef rectangles, got {:?}", other),
    }
}

#[test]
fn render_page_is_deterministic() {
    let tune = Tune { prelude: vec![], voices: vec![vec![note(28, DurationClass::Quaver, 1)]] };
    let tune2 = tune.clone();
    assert_eq!(render_page(typeset_from_ast(tune)), render_page(typeset_from_ast(tune2)));
}
