use staveset::frac::Frac;
use staveset::numfmt::{push_frac, push_u64};
use staveset::svg::{Drawing, Prim};
use staveset::tune_ast::{read_from_lexer, Entity, HeaderField, TuneAst};
use staveset::music::{Barline, DurationClass, DurationGlyph, Note, Pitch};
use staveset::token::{LexResult, Token};
use staveset::typeset::{Entity as StaveEntity, Glyph};

fn w(n: i64) -> Frac {
    Frac { num: n, den: 1 }
}

#[test]
fn bounds_start_at_zero_and_grow_to_touched_extents() {
    let mut d = Drawing::new();
    assert_eq!(d.width, w(0));
    assert_eq!(d.height, w(0));
    // A circle at (100, 100) with radius 20 grows the bounds to 120 x 120.
    d.circle(w(100), w(100), w(20), false);
    assert_eq!(d.width, w(120));
    assert_eq!(d.height, w(120));
    // A smaller touch does not shrink the bounds.
    d.rect(w(5), w(6), w(7), w(8));
    assert_eq!(d.width, w(120));
    assert_eq!(d.height, w(120));
    // A larger one grows them to the far corner.
    d.rect_fill(w(100), w(30), w(50), w(95));
    assert_eq!(d.width, w(150));
    assert_eq!(d.height, w(125));
}

#[test]
fn point_and_text_touch_their_positions() {
    let mut d = Drawing::new();
    d.text(w(40), w(7), String::from("hi"));
    assert_eq!(d.width, w(40));
    assert_eq!(d.height, w(7));
    d.point_debug(w(50), w(60));
    assert_eq!(d.width, w(51));
    assert_eq!(d.height, w(61));
    d.line(w(90), w(10), w(10), w(90));
    assert_eq!(d.width, w(90));
    assert_eq!(d.height, w(90));
}

#[test]
fn decimal_rendering_is_exact() {
    let mut s = String::new();
    push_u64(&mut s, 0);
    s.push(' ');
    push_u64(&mut s, 12345);
    assert_eq!(s, "0 12345");

    let mut t = String::new();
    push_frac(&mut t, Frac { num: -2500, den: 1000 });
    t.push(' ');
    push_frac(&mut t, Frac { num: 918, den: 5 });
    t.push(' ');
    // One third, truncated to milli-units.
    push_frac(&mut t, Frac { num: 1, den: 3 });
    assert_eq!(t, "-2.500 183.600 0.333");
}

#[test]
fn empty_drawing_serializes_to_bare_document() {
    let d = Drawing::new();
    assert_eq!(
        d.render(),
        "<svg version='1.1' baseProfile='full' width='0.000' height='0.000' \
         xmlns='http://www.w3.org/2000/svg'></svg>"
    );
}

#[test]
fn one_rectangle_serializes_with_styles_and_bounds() {
    let mut d = Drawing::new();
    d.rect(w(1), w(2), w(3), w(4));
    assert_eq!(
        d.render(),
        "<svg version='1.1' baseProfile='full' width='4.000' height='6.000' \
         xmlns='http://www.w3.org/2000/svg'>\
         <rect x='1.000' y='2.000' width='3.000' height='4.000' \
         style='fill:none;stroke:black;stroke-width:2' /></svg>"
    );
}

#[test]
fn primitives_serialize_in_insertion_order() {
    let mut d = Drawing::new();
    d.rect_fill(w(0), w(0), w(1), w(1));
    d.text(w(2), w(3), String::from("clef"));
    d.circle(w(10), w(10), w(2), true);
    d.line(w(0), w(0), w(5), w(5));
    d.line_path(w(1), w(1), String::from("M 0 0 L 4 4"));
    let doc = d.render();
    let fill = doc.find("fill:solid black").expect("filled rectangle missing");
    let text = doc.find("<text").expect("text missing");
    let circle = doc.find("<circle").expect("circle missing");
    let line = doc.find("<line").expect("line missing");
    let path = doc.find("<path").expect("path missing");
    assert!(fill < text && text < circle && circle < line && line < path);
    assert!(doc.contains("<circle cx='10.000' cy='10.000' r='2.000' \
        stroke-width='2' stroke='black' fill='black' />"));
    // Serialization is read-only and repeatable.
    assert_eq!(doc, d.render());
}

#[test]
fn debug_rectangle_uses_red_stroke() {
    let mut d = Drawing::new();
    d.rect_debug(w(0), w(0), w(2), w(2));
    assert!(d.render().contains("style='fill:none;stroke:red;stroke-width:2'"));
    assert!(matches!(d.entities[0], Prim::DebugRect(_, _, _, _)));
}

#[test]
fn tune_ast_groups_notes_and_keeps_errors() {
    let n1 = Note { pitch: Pitch { degree: 28 }, duration: None };
    let n2 = Note {
        pitch: Pitch { degree: 30 },
        duration: Some(DurationGlyph { shape: DurationClass::Quaver, dots: 0 }),
    };
    let n3 = Note { pitch: Pitch { degree: 32 }, duration: None };
    let items = vec![
        LexResult::T(Token::Title(String::from("A Tune"))),
        LexResult::T(Token::Note(n1)),
        LexResult::T(Token::Note(n2)),
        LexResult::T(Token::Barline(Barline::Single)),
        LexResult::Error(17),
        LexResult::T(Token::BeamBreak),
        LexResult::T(Token::Note(n3)),
    ];
    let ast = read_from_lexer(items);
    assert_eq!(ast.headers, vec![HeaderField::Title(String::from("A Tune"))]);
    assert_eq!(ast.errors, vec![17]);
    assert_eq!(
        ast.entities,
        vec![
            Entity::BeamGroup(vec![n1, n2]),
            Entity::Barline(Barline::Single),
            Entity::BeamGroup(vec![]),
            Entity::BeamGroup(vec![n3]),
        ]
    );
}

#[test]
fn tune_ast_new_is_empty() {
    let ast = TuneAst::new();
    assert!(ast.headers.is_empty());
    assert!(ast.errors.is_empty());
    assert!(ast.entities.is_empty());
}

#[test]
fn dotted_quaver_draws_head_stem_tail_and_dots() {
    let mut d = Drawing::new();
    let e = StaveEntity::new(Glyph::NoteHead(
        2,
        Some(DurationGlyph { shape: DurationClass::Quaver, dots: 2 }),
    ));
    e.render(&mut d, w(0), 0);
    // Filled head, stem, one tail stroke, two augmentation dots.
    assert_eq!(d.entities.len(), 5);
    assert!(matches!(d.entities[0], Prim::FillRect(_, _, _, _)));
    assert!(matches!(d.entities[1], Prim::Rect(_, _, _, _)));
    assert!(matches!(d.entities[2], Prim::FillRect(_, _, _, _)));
    // The dots sit to the right of the head, evenly spaced.
    match (&d.entities[3], &d.entities[4]) {
        (Prim::FillRect(x1, y1, _, _), Prim::FillRect(x2, y2, _, _)) => {
            assert_eq!(*x1, w(50));
            assert_eq!(*x2, w(60));
            assert_eq!(y1, y2);
        }
        other => panic!("expected two dot squares, got {:?}", other),
    }
}
