//! The typesetting engine: tokens to a page of justified staves, and the
//! page to canvas primitives.
//!
//! All unscaled lengths are integers in half-units: one half-unit is half of
//! the nominal length unit, so every glyph dimension (including the half-unit
//! head width) is exact. Justification multiplies unscaled running positions
//! by one rational scale, so relative spacing is preserved exactly.

use vstd::prelude::*;
use vstd::string::StringExecFns;
use crate::frac::Frac;
use crate::music::{Clef, DurationClass, DurationGlyph, Metre, Mode, Note, PitchClass};
use crate::music::DiatonicPitchClass;
use crate::svg::{Drawing, Prim, PrimV, views, lemma_views_push, prims_tag_count, prim_tag_count};
use vstd::seq_lib::lemma_concat_associative;
use crate::token::Token;

verus! {

/// Desired stave width, in half-units (800 length units).
pub const STAVE_WIDTH: u64 = 1600;

/// Height of a single note head, in half-units (10 length units).
pub const HEAD_HEIGHT: i64 = 20;

/// Width of a single note head, in half-units (12.5 length units).
pub const HEAD_WIDTH: u64 = 25;

/// Stem height, in half-units (40 length units).
pub const STEM_HEIGHT: i64 = 80;

/// Vertical padding of a stave, in half-units (20 length units).
pub const STAVE_V_MARGIN: i64 = 40;

/// Vertical padding between systems, in half-units (20 length units).
pub const SYSTEM_V_MARGIN: i64 = 40;

/// How many staff positions (lines and spaces) are in a stave.
pub const LINES_IN_STAVE: i64 = 9;

/// The justification scale never exceeds 9/5 (that is, 1.8): a sparse stave
/// is not stretched without bound, while a dense one shrinks as needed.
pub const MAX_STAVE_SCALE_NUM: i64 = 9;

/// Denominator of the largest justification scale.
pub const MAX_STAVE_SCALE_DEN: i64 = 5;

/// Cap on a stave's natural width in half-units, so that exact rational
/// layout arithmetic stays inside `i64`.
pub const NAT_WIDTH_LIMIT: u64 = 10_000_000;

/// Cap on the magnitude of a note's staff position, for the same reason.
pub const POS_LIMIT: i64 = 1_000_000_000_000;

/// Cap on the magnitude of a vertical origin handed to rendering.
pub const Y_LIMIT: i64 = 1_000_000_000_000;

/// A schematic visual unit with a well-defined width and draw routine.
#[derive(Clone, Copy, Debug, PartialEq, Eq, Structural)]
pub enum Glyph {
    SingleBar,
    DoubleBar,
    EndBar,
    OpenRepeat,
    CloseRepeat,
    /// Note head at a staff position (0 is the bottom line, upward positive,
    /// ledger positions outside 0 to 8 allowed), with the duration's visual
    /// form, or `None` when the duration could not be resolved.
    NoteHead(i64, Option<DurationGlyph>),
    Clef(Clef),
}

/// One element of a stave; it wraps exactly one glyph.
#[derive(Clone, Copy, Debug, PartialEq, Eq, Structural)]
pub struct Entity {
    pub glyph: Glyph,
}

/// The horizontal space a glyph consumes, in half-units: a function of the
/// glyph value alone, never of its position or history.
pub open spec fn glyph_width(g: Glyph) -> int {
    match g {
        Glyph::NoteHead(_, dg) => 2 * HEAD_WIDTH + (match dg {
            Some(d) => HEAD_WIDTH * d.dots,
            None => 0,
        }),
        Glyph::SingleBar => 2,
        Glyph::DoubleBar => 10,
        Glyph::EndBar => 22,
        Glyph::OpenRepeat => 40,
        Glyph::CloseRepeat => 20,
        Glyph::Clef(_) => 100,
    }
}

/// Every glyph consumes a non-negative amount of space.
pub proof fn lemma_width_nonneg(g: Glyph)
    ensures
        glyph_width(g) >= 0,
{
}

/// Width purity: two entities with equal glyphs have equal widths; the width
/// is a function of the glyph value and of nothing else.
pub proof fn lemma_width_purity(a: Entity, b: Entity)
    requires
        a.glyph == b.glyph,
    ensures
        glyph_width(a.glyph) == glyph_width(b.glyph),
{
}

/// The staff position's vertical coordinate: position 0 sits at the bottom of
/// the nine-position window and positions increase upward; positions outside
/// the window produce ledger coordinates and are not clamped.
pub open spec fn position_y(y: int, position: int) -> int {
    y + (LINES_IN_STAVE - position) * HEAD_HEIGHT
}

/// An integer coordinate as a rational.
pub open spec fn fy(v: int) -> Frac {
    Frac { num: v as i64, den: 1 }
}

/// `x` advanced by `off` half-units, at `x`'s denominator.
pub open spec fn fx(x: Frac, off: int) -> Frac {
    Frac { num: (x.num + off * x.den) as i64, den: x.den }
}

/// A horizontal extent of `k` half-units, at `x`'s denominator.
pub open spec fn fw(x: Frac, k: int) -> Frac {
    Frac { num: (k * x.den) as i64, den: x.den }
}

/// A scaled x coordinate the renderer accepts.
pub open spec fn coord_ok(x: Frac) -> bool {
    0 < x.den <= NAT_WIDTH_LIMIT && -2_000_000_000_000_000 <= x.num <= 2_000_000_000_000_000
}

/// The staff position of a note head is within the layout's capacity.
pub open spec fn pos_ok(g: Glyph) -> bool {
    match g {
        Glyph::NoteHead(p, _) => -POS_LIMIT <= p <= POS_LIMIT,
        _ => true,
    }
}

/// A glyph the renderer accepts: position in range and width within the cap.
pub open spec fn glyph_ok(g: Glyph) -> bool {
    pos_ok(g) && glyph_width(g) <= NAT_WIDTH_LIMIT
}

/// `0 <= a <= aa` and `0 <= b <= bb` bound the product `a * b`.
proof fn lemma_mul_le_bounds(a: int, b: int, aa: int, bb: int)
    requires
        0 <= a <= aa,
        0 <= b <= bb,
    ensures
        0 <= a * b <= aa * bb,
{
    assert(0 <= a * b <= aa * bb) by (nonlinear_arith)
        requires
            0 <= a <= aa,
            0 <= b <= bb,
    ;
}

/// `x` advanced by `off` half-units; the offset is scaled to `x`'s denominator.
fn fx_e(x: Frac, off: i64) -> (r: Frac)
    requires
        coord_ok(x),
        -10_000_000 <= off <= 10_000_000,
    ensures
        r == fx(x, off as int),
        r.wf(),
        r.den == x.den,
{
    proof {
        assert(-100_000_000_000_000 <= off * x.den <= 100_000_000_000_000) by (nonlinear_arith)
            requires
                -10_000_000 <= off <= 10_000_000,
                0 < x.den <= 10_000_000,
        ;
    }
    Frac { num: x.num + off * x.den, den: x.den }
}

/// A horizontal extent of `k` half-units at `x`'s denominator.
fn fw_e(x: Frac, k: i64) -> (r: Frac)
    requires
        coord_ok(x),
        0 <= k <= 10_000_000,
    ensures
        r == fw(x, k as int),
        r.wf(),
        r.den == x.den,
{
    proof {
        lemma_mul_le_bounds(k as int, x.den as int, 10_000_000, 10_000_000);
    }
    Frac { num: k * x.den, den: x.den }
}

/// The note head's outline is open for semibreves and minims, filled for the
/// shorter shapes.
pub open spec fn open_head(s: DurationClass) -> bool {
    s == DurationClass::Semibreve || s == DurationClass::Minim
}

/// Every shape but the semibreve carries a stem.
pub open spec fn has_stem(s: DurationClass) -> bool {
    s != DurationClass::Semibreve
}

/// How many tail strokes a shape carries.
pub open spec fn tail_count(s: DurationClass) -> int {
    match s {
        DurationClass::Quaver => 1,
        DurationClass::Semiquaver => 2,
        DurationClass::Demisemiquaver => 3,
        _ => 0,
    }
}

/// The augmentation-dot squares of a note head, evenly spaced to its right.
pub open spec fn dot_prims(x: Frac, yy: int, n: nat) -> Seq<PrimV> {
    Seq::new(
        n,
        |i: int| PrimV::FillRect(fx(x, 30 + (i + 2) * 10), fy(yy - 10), fw(x, 4), fy(4)),
    )
}

/// The primitives of a note head drawn at scaled `x` and vertical origin `y`:
/// an open or filled head, a stem for all but semibreves, tail strokes by
/// shape, and one small square per augmentation dot; an unresolved duration
/// degrades to a placeholder label at the head's position.
pub open spec fn note_prims(position: int, dg: Option<DurationGlyph>, x: Frac, y: int) -> Seq<
    PrimV,
> {
    let yy = position_y(y, position);
    match dg {
        None => seq![PrimV::Text(x, fy(yy), "?"@)],
        Some(g) => {
            let head = if open_head(g.shape) {
                seq![PrimV::Rect(x, fy(yy - 10), fw(x, 25), fy(20))]
            } else {
                seq![PrimV::FillRect(x, fy(yy - 10), fw(x, 25), fy(20))]
            };
            let stem = if has_stem(g.shape) {
                seq![PrimV::Rect(fx(x, 30), fy(yy + 10 - STEM_HEIGHT), fw(x, 2), fy(STEM_HEIGHT as int))]
            } else {
                Seq::empty()
            };
            let tails = (if tail_count(g.shape) >= 1 {
                seq![PrimV::FillRect(fx(x, 23), fy(yy - 10 - STEM_HEIGHT), fw(x, 40), fy(4))]
            } else {
                Seq::empty()
            }) + (if tail_count(g.shape) >= 2 {
                seq![PrimV::FillRect(fx(x, 23), fy(yy - 10 - STEM_HEIGHT + 40), fw(x, 40), fy(4))]
            } else {
                Seq::empty()
            }) + (if tail_count(g.shape) >= 3 {
                seq![PrimV::FillRect(fx(x, 23), fy(yy - 10 - STEM_HEIGHT + 60), fw(x, 40), fy(4))]
            } else {
                Seq::empty()
            });
            head + stem + tails + dot_prims(x, yy, g.dots as nat)
        },
    }
}

/// The primitives one glyph draws at scaled `x` and vertical origin `y`.
pub open spec fn glyph_prims(g: Glyph, x: Frac, y: int) -> Seq<PrimV> {
    match g {
        Glyph::Clef(c) => {
            let yy = position_y(y, c.centre as int);
            seq![
                PrimV::Rect(x, fy(yy - 10), fw(x, 20), fy(20)),
                PrimV::Text(x, fy(yy - 10), "clef"@),
            ]
        },
        Glyph::SingleBar => seq![PrimV::Rect(x, fy(y + 20), fw(x, 2), fy(160))],
        Glyph::DoubleBar => seq![
            PrimV::Rect(x, fy(y + 20), fw(x, 2), fy(160)),
            PrimV::Rect(fx(x, 10), fy(y + 20), fw(x, 2), fy(160)),
        ],
        Glyph::OpenRepeat => seq![
            PrimV::Rect(x, fy(y + 20), fw(x, 2), fy(160)),
            PrimV::FillRect(fx(x, 10), fy(y + 120), fw(x, 12), fy(12)),
            PrimV::FillRect(fx(x, 10), fy(y + 80), fw(x, 12), fy(12)),
        ],
        Glyph::CloseRepeat => seq![
            PrimV::FillRect(x, fy(y + 120), fw(x, 12), fy(12)),
            PrimV::FillRect(x, fy(y + 80), fw(x, 12), fy(12)),
            PrimV::Rect(fx(x, 20), fy(y + 20), fw(x, 2), fy(160)),
        ],
        Glyph::EndBar => seq![
            PrimV::Rect(x, fy(y + 20), fw(x, 2), fy(160)),
            PrimV::FillRect(fx(x, 10), fy(y + 20), fw(x, 6), fy(160)),
        ],
        Glyph::NoteHead(position, dg) => note_prims(position as int, dg, x, y),
    }
}

impl Entity {
    pub fn new(glyph: Glyph) -> (r: Entity)
        ensures
            r == (Entity { glyph }),
    {
        Entity { glyph }
    }

    /// The width this entity consumes before the next one, in half-units.
    pub fn width(&self) -> (r: u64)
        ensures
            r == glyph_width(self.glyph),
    {
        match self.glyph {
            Glyph::NoteHead(_, dg) => {
                let dots: u64 = match dg {
                    Some(d) => d.dots as u64,
                    None => 0,
                };
                2 * HEAD_WIDTH + HEAD_WIDTH * dots
            },
            Glyph::SingleBar => 2,
            Glyph::DoubleBar => 10,
            Glyph::EndBar => 22,
            Glyph::OpenRepeat => 40,
            Glyph::CloseRepeat => 20,
            Glyph::Clef(_) => 100,
        }
    }

    /// Draws this entity at the scaled horizontal position `x` and the
    /// stave's vertical origin `y`, appending exactly its primitives.
    pub fn render(&self, svg: &mut Drawing, x: Frac, y: i64)
        requires
            old(svg).wf(),
            x.wf(),
            coord_ok(x),
            glyph_ok(self.glyph),
            -Y_LIMIT <= y <= Y_LIMIT,
        ensures
            final(svg).wf(),
            views(final(svg).entities@) == views(old(svg).entities@) + glyph_prims(
                self.glyph,
                x,
                y as int,
            ),
            old(svg).bounds_ok() ==> final(svg).bounds_ok(),
    {
        let ghost v0 = views(old(svg).entities@);
        match self.glyph {
            Glyph::Clef(c) => {
                let yy: i64 = y + (LINES_IN_STAVE - c.centre as i64) * HEAD_HEIGHT;
                svg.rect(x, Frac::whole(yy - 10), fw_e(x, 20), Frac::whole(20));
                svg.text(x, Frac::whole(yy - 10), String::from_str("clef"));
                proof {
                    assert(views(svg.entities@) =~= v0 + glyph_prims(self.glyph, x, y as int));
                }
            },
            Glyph::SingleBar => {
                svg.rect(x, Frac::whole(y + 20), fw_e(x, 2), Frac::whole(160));
                proof {
                    assert(views(svg.entities@) =~= v0 + glyph_prims(self.glyph, x, y as int));
                }
            },
            Glyph::DoubleBar => {
                svg.rect(x, Frac::whole(y + 20), fw_e(x, 2), Frac::whole(160));
                svg.rect(fx_e(x, 10), Frac::whole(y + 20), fw_e(x, 2), Frac::whole(160));
                proof {
                    assert(views(svg.entities@) =~= v0 + glyph_prims(self.glyph, x, y as int));
                }
            },
            Glyph::OpenRepeat => {
                svg.rect(x, Frac::whole(y + 20), fw_e(x, 2), Frac::whole(160));
                svg.rect_fill(fx_e(x, 10), Frac::whole(y + 120), fw_e(x, 12), Frac::whole(12));
                svg.rect_fill(fx_e(x, 10), Frac::whole(y + 80), fw_e(x, 12), Frac::whole(12));
                proof {
                    assert(views(svg.entities@) =~= v0 + glyph_prims(self.glyph, x, y as int));
                }
            },
            Glyph::CloseRepeat => {
                svg.rect_fill(x, Frac::whole(y + 120), fw_e(x, 12), Frac::whole(12));
                svg.rect_fill(x, Frac::whole(y + 80), fw_e(x, 12), Frac::whole(12));
                svg.rect(fx_e(x, 20), Frac::whole(y + 20), fw_e(x, 2), Frac::whole(160));
                proof {
                    assert(views(svg.entities@) =~= v0 + glyph_prims(self.glyph, x, y as int));
                }
            },
            Glyph::EndBar => {
                svg.rect(x, Frac::whole(y + 20), fw_e(x, 2), Frac::whole(160));
                svg.rect_fill(fx_e(x, 10), Frac::whole(y + 20), fw_e(x, 6), Frac::whole(160));
                proof {
                    assert(views(svg.entities@) =~= v0 + glyph_prims(self.glyph, x, y as int));
                }
            },
            Glyph::NoteHead(position, dg) => {
                render_note_head(svg, x, y, position, dg);
            },
        }
    }
}

/// Draws a note head (or its placeholder) at scaled `x` and vertical origin
/// `y`; see `note_prims` for the exact primitives.
fn render_note_head(svg: &mut Drawing, x: Frac, y: i64, position: i64, dg: Option<DurationGlyph>)
    requires
        old(svg).wf(),
        x.wf(),
        coord_ok(x),
        glyph_ok(Glyph::NoteHead(position, dg)),
        -Y_LIMIT <= y <= Y_LIMIT,
    ensures
        final(svg).wf(),
        views(final(svg).entities@) == views(old(svg).entities@) + note_prims(
            position as int,
            dg,
            x,
            y as int,
        ),
        old(svg).bounds_ok() ==> final(svg).bounds_ok(),
{
    let ghost v0 = views(old(svg).entities@);
    let yy: i64 = y + (LINES_IN_STAVE - position) * HEAD_HEIGHT;
    match dg {
        None => {
            svg.text(x, Frac::whole(yy), String::from_str("?"));
            proof {
                assert(views(svg.entities@) =~= v0 + note_prims(position as int, dg, x, y as int));
            }
        },
        Some(g) => {
            match g.shape {
                DurationClass::Semibreve | DurationClass::Minim => {
                    svg.rect(x, Frac::whole(yy - 10), fw_e(x, 25), Frac::whole(20));
                },
                DurationClass::Crotchet
                | DurationClass::Quaver
                | DurationClass::Semiquaver
                | DurationClass::Demisemiquaver => {
                    svg.rect_fill(x, Frac::whole(yy - 10), fw_e(x, 25), Frac::whole(20));
                },
            }
            match g.shape {
                DurationClass::Minim
                | DurationClass::Crotchet
                | DurationClass::Quaver
                | DurationClass::Semiquaver
                | DurationClass::Demisemiquaver => {
                    svg.rect(fx_e(x, 30), Frac::whole(yy + 10 - STEM_HEIGHT), fw_e(x, 2), Frac::whole(STEM_HEIGHT));
                },
                DurationClass::Semibreve => {},
            }
            match g.shape {
                DurationClass::Quaver | DurationClass::Semiquaver
                | DurationClass::Demisemiquaver => {
                    svg.rect_fill(
                        fx_e(x, 23),
                        Frac::whole(yy - 10 - STEM_HEIGHT),
                        fw_e(x, 40),
                        Frac::whole(4),
                    );
                },
                _ => {},
            }
            match g.shape {
                DurationClass::Semiquaver | DurationClass::Demisemiquaver => {
                    svg.rect_fill(
                        fx_e(x, 23),
                        Frac::whole(yy - 10 - STEM_HEIGHT + 40),
                        fw_e(x, 40),
                        Frac::whole(4),
                    );
                },
                _ => {},
            }
            match g.shape {
                DurationClass::Demisemiquaver => {
                    svg.rect_fill(
                        fx_e(x, 23),
                        Frac::whole(yy - 10 - STEM_HEIGHT + 60),
                        fw_e(x, 40),
                        Frac::whole(4),
                    );
                },
                _ => {},
            }
            let ghost vbase = views(svg.entities@);
            proof {
                assert(dot_prims(x, yy as int, 0) =~= Seq::<PrimV>::empty());
                assert(vbase + dot_prims(x, yy as int, 0) =~= vbase);
            }
            let dots: u32 = g.dots;
            for dot in 0..dots
                invariant
                    svg.wf(),
                    coord_ok(x),
                    x.wf(),
                    dots == g.dots,
                    dots * 25 <= NAT_WIDTH_LIMIT,
                    -Y_LIMIT <= y <= Y_LIMIT,
                    -POS_LIMIT <= position <= POS_LIMIT,
                    yy == y + (LINES_IN_STAVE - position) * HEAD_HEIGHT,
                    views(svg.entities@) == vbase + dot_prims(x, yy as int, dot as nat),
                    views(old(svg).entities@).len() <= views(svg.entities@).len(),
                    old(svg).bounds_ok() ==> svg.bounds_ok(),
            {
                proof {
                    lemma_mul_le_bounds(dot as int, 10, 400_000, 10);
                }
                let off: i64 = 30 + ((dot as i64) + 2) * 10;
                let px = fx_e(x, off);
                let py = Frac::whole(yy - 10);
                let pw = fw_e(x, 4);
                let ph = Frac::whole(4);
                let ghost es_before = svg.entities@;
                svg.rect_fill(px, py, pw, ph);
                proof {
                    lemma_views_push(es_before, Prim::FillRect(px, py, pw, ph));
                    assert(dot_prims(x, yy as int, (dot + 1) as nat) =~= dot_prims(
                        x,
                        yy as int,
                        dot as nat,
                    ).push(
                        PrimV::FillRect(
                            fx(x, 30 + (dot + 2) * 10),
                            fy(yy - 10),
                            fw(x, 4),
                            fy(4),
                        ),
                    ));
                    assert(views(svg.entities@) =~= vbase + dot_prims(
                        x,
                        yy as int,
                        (dot + 1) as nat,
                    ));
                }
            }
            proof {
                assert(views(svg.entities@) =~= v0 + note_prims(position as int, dg, x, y as int));
            }
        },
    }
}

/// The natural (unscaled) width of a stave: the sum of its entities' widths.
pub open spec fn nat_width(es: Seq<Entity>) -> int
    decreases es.len(),
{
    if es.len() == 0 {
        0
    } else {
        nat_width(es.drop_last()) + glyph_width(es.last().glyph)
    }
}

/// A natural width is never negative.
pub proof fn lemma_nat_width_nonneg(es: Seq<Entity>)
    ensures
        nat_width(es) >= 0,
    decreases es.len(),
{
    if es.len() > 0 {
        lemma_nat_width_nonneg(es.drop_last());
    }
}

/// A prefix of a stave is at most as wide as the whole stave.
pub proof fn lemma_prefix_width(es: Seq<Entity>, k: int)
    requires
        0 <= k <= es.len(),
    ensures
        nat_width(es.take(k)) <= nat_width(es),
    decreases es.len(),
{
    if k == es.len() {
        assert(es.take(k) =~= es);
    } else {
        assert(es.drop_last().take(k) =~= es.take(k));
        lemma_prefix_width(es.drop_last(), k);
        lemma_width_nonneg(es.last().glyph);
    }
}

/// The justification scale for a natural width: the desired stave width over
/// the natural width, capped at 9/5; a zero natural width scales by exactly
/// one, so an empty stave is never divided by zero.
pub open spec fn spec_scale(natural: int) -> Frac {
    if natural == 0 {
        Frac { num: 1, den: 1 }
    } else if 8000 <= 9 * natural {
        Frac { num: 1600, den: natural as i64 }
    } else {
        Frac { num: MAX_STAVE_SCALE_NUM, den: MAX_STAVE_SCALE_DEN }
    }
}

/// Scale bounds: the scale is positive, at most 9/5, at most the desired
/// width over the natural width whenever the latter is positive, and exactly
/// one when the natural width is zero.
pub proof fn lemma_scale_bounds(natural: int)
    requires
        0 <= natural <= NAT_WIDTH_LIMIT,
    ensures
        spec_scale(natural).num > 0,
        spec_scale(natural).den > 0,
        spec_scale(natural).spec_le(Frac { num: MAX_STAVE_SCALE_NUM, den: MAX_STAVE_SCALE_DEN }),
        natural > 0 ==> spec_scale(natural).spec_le(
            Frac { num: STAVE_WIDTH as i64, den: natural as i64 },
        ),
        natural == 0 ==> spec_scale(natural) == (Frac { num: 1, den: 1 }),
{
    if natural > 0 {
        if 8000 <= 9 * natural {
            assert(spec_scale(natural) == (Frac { num: 1600, den: natural as i64 }));
            assert(1600 * (natural as i64) <= 1600 * (natural as i64));
            assert(1600 * 5 <= 9 * (natural as i64));
        } else {
            assert(spec_scale(natural) == (Frac { num: 9, den: 5 }));
            assert(9 * (natural as i64) <= 1600 * 5);
        }
    }
}

/// The justification scale, computed exactly.
pub fn stave_scale(natural: u64) -> (s: Frac)
    requires
        natural <= NAT_WIDTH_LIMIT,
    ensures
        s == spec_scale(natural as int),
        0 < s.num <= 1600,
        0 < s.den <= NAT_WIDTH_LIMIT,
{
    if natural == 0 {
        Frac { num: 1, den: 1 }
    } else if 8000 <= 9 * natural {
        Frac { num: 1600, den: natural as i64 }
    } else {
        Frac { num: MAX_STAVE_SCALE_NUM, den: MAX_STAVE_SCALE_DEN }
    }
}

/// A width of `w` half-units under scale `s`, as an exact rational.
pub open spec fn scale_mul(s: Frac, w: int) -> Frac {
    Frac { num: (w * s.num) as i64, den: s.den }
}

/// The scaled x position at which entity `i` of a stave is rendered: the
/// scale times the natural widths of all preceding entities.
pub open spec fn xcoord(es: Seq<Entity>, i: int) -> Frac {
    scale_mul(spec_scale(nat_width(es)), nat_width(es.take(i)))
}

/// Spacing linearity: entity `i` is rendered at exactly the scale times the
/// sum of the unscaled widths of the entities before it, and the displayed
/// stave width is exactly the scale times the natural width.
pub proof fn lemma_spacing_linearity(es: Seq<Entity>, i: int)
    requires
        0 <= i <= es.len(),
        0 <= nat_width(es) <= NAT_WIDTH_LIMIT,
    ensures
        xcoord(es, i).den == spec_scale(nat_width(es)).den,
        xcoord(es, i).num == nat_width(es.take(i)) * spec_scale(nat_width(es)).num,
        scale_mul(spec_scale(nat_width(es)), nat_width(es)).num == nat_width(es) * spec_scale(
            nat_width(es),
        ).num,
{
    lemma_prefix_width(es, i);
    lemma_nat_width_nonneg(es.take(i));
    lemma_scale_bounds(nat_width(es));
    lemma_mul_le_bounds(nat_width(es.take(i)), spec_scale(nat_width(es)).num as int, NAT_WIDTH_LIMIT as int, 1600);
    lemma_mul_le_bounds(nat_width(es), spec_scale(nat_width(es)).num as int, NAT_WIDTH_LIMIT as int, 1600);
}

/// The primitives of the first `n` entities of a stave at vertical origin `y`.
pub open spec fn ent_prims(es: Seq<Entity>, n: int, y: int) -> Seq<PrimV>
    decreases n,
{
    if n <= 0 {
        Seq::empty()
    } else {
        ent_prims(es, n - 1, y) + glyph_prims(es[n - 1].glyph, xcoord(es, n - 1), y)
    }
}

/// The staff-line primitives for the first `n` staff positions: a horizontal
/// line spanning the displayed stave width at every even position.
pub open spec fn line_prims(es: Seq<Entity>, y: int, n: int) -> Seq<PrimV>
    decreases n,
{
    if n <= 0 {
        Seq::empty()
    } else {
        line_prims(es, y, n - 1) + (if (n - 1) % 2 == 0 {
            seq![
                PrimV::Rect(
                    Frac { num: 0, den: spec_scale(nat_width(es)).den },
                    fy(y + (LINES_IN_STAVE - (n - 1)) * HEAD_HEIGHT),
                    scale_mul(spec_scale(nat_width(es)), nat_width(es)),
                    fy(2),
                ),
            ]
        } else {
            Seq::empty()
        })
    }
}

/// Everything a stave draws at vertical origin `y`: its entities, each at its
/// scaled position, then the five staff lines.
pub open spec fn stave_prims(es: Seq<Entity>, y: int) -> Seq<PrimV> {
    ent_prims(es, es.len() as int, y) + line_prims(es, y, LINES_IN_STAVE as int)
}

/// A stave the renderer accepts: total width within the cap and every note
/// position within range.
pub open spec fn stave_ok(es: Seq<Entity>) -> bool {
    nat_width(es) <= NAT_WIDTH_LIMIT && forall|i: int|
        0 <= i < es.len() ==> #[trigger] pos_ok(es[i].glyph)
}

/// One line of music for one voice: an ordered sequence of entities.
#[derive(Clone, Debug, PartialEq, Eq)]
pub struct Stave {
    pub entities: Vec<Entity>,
}

impl Stave {
    pub fn new() -> (r: Stave)
        ensures
            r.entities@ == Seq::<Entity>::empty(),
    {
        Stave { entities: Vec::new() }
    }

    /// A stave's height is a constant, independent of its contents and of
    /// justification: the nine positions plus vertical padding.
    pub fn height(&self) -> (r: i64)
        ensures
            r == HEAD_HEIGHT * LINES_IN_STAVE + STAVE_V_MARGIN,
    {
        HEAD_HEIGHT * LINES_IN_STAVE + STAVE_V_MARGIN
    }

    /// The sum of the entities' unscaled widths, in half-units.
    pub fn natural_width(&self) -> (r: u64)
        requires
            nat_width(self.entities@) <= NAT_WIDTH_LIMIT,
        ensures
            r == nat_width(self.entities@),
    {
        let ghost es = self.entities@;
        let mut sum: u64 = 0;
        let n = self.entities.len();
        proof {
            assert(es.take(0) =~= Seq::<Entity>::empty());
        }
        for i in 0..n
            invariant
                n == es.len(),
                es == self.entities@,
                nat_width(es) <= NAT_WIDTH_LIMIT,
                sum == nat_width(es.take(i as int)),
                sum <= NAT_WIDTH_LIMIT,
        {
            proof {
                assert(es.take(i + 1).drop_last() =~= es.take(i as int));
                assert(es.take(i + 1).last() == es[i as int]);
                lemma_prefix_width(es, i + 1);
                lemma_width_nonneg(es[i as int].glyph);
                lemma_nat_width_nonneg(es.take(i as int));
            }
            let w = self.entities[i].width();
            sum = sum + w;
        }
        proof {
            assert(es.take(n as int) =~= es);
        }
        sum
    }

    /// Justifies and draws the stave at vertical origin `y`: each entity at
    /// the scale times its unscaled running position, then the staff lines
    /// spanning the displayed width.
    pub fn render(&self, svg: &mut Drawing, y: i64)
        requires
            old(svg).wf(),
            stave_ok(self.entities@),
            -Y_LIMIT <= y <= Y_LIMIT,
        ensures
            final(svg).wf(),
            views(final(svg).entities@) == views(old(svg).entities@) + stave_prims(
                self.entities@,
                y as int,
            ),
            old(svg).bounds_ok() ==> final(svg).bounds_ok(),
    {
        let ghost es = self.entities@;
        let ghost v0 = views(old(svg).entities@);
        proof {
            lemma_nat_width_nonneg(es);
        }
        let natural = self.natural_width();
        let scale = stave_scale(natural);
        let mut x_hu: u64 = 0;
        let n = self.entities.len();
        proof {
            assert(es.take(0) =~= Seq::<Entity>::empty());
            assert(v0 + ent_prims(es, 0, y as int) =~= v0);
        }
        for i in 0..n
            invariant
                n == es.len(),
                es == self.entities@,
                stave_ok(es),
                natural == nat_width(es),
                natural <= NAT_WIDTH_LIMIT,
                scale == spec_scale(natural as int),
                0 < scale.num <= 1600,
                0 < scale.den <= NAT_WIDTH_LIMIT,
                x_hu == nat_width(es.take(i as int)),
                x_hu <= natural,
                -Y_LIMIT <= y <= Y_LIMIT,
                svg.wf(),
                views(svg.entities@) == v0 + ent_prims(es, i as int, y as int),
                v0 == views(old(svg).entities@),
                old(svg).bounds_ok() ==> svg.bounds_ok(),
        {
            proof {
                assert(es.take(i + 1).drop_last() =~= es.take(i as int));
                assert(es.take(i + 1).last() == es[i as int]);
                lemma_prefix_width(es, i + 1);
                lemma_width_nonneg(es[i as int].glyph);
                lemma_nat_width_nonneg(es.take(i as int));
                lemma_mul_le_bounds(x_hu as int, scale.num as int, NAT_WIDTH_LIMIT as int, 1600);
            }
            let e = self.entities[i];
            let ex = Frac { num: (x_hu as i64) * scale.num, den: scale.den };
            let ghost vpre = views(svg.entities@);
            e.render(svg, ex, y);
            let w = e.width();
            x_hu = x_hu + w;
            proof {
                assert(ex == xcoord(es, i as int));
                assert(ent_prims(es, i + 1, y as int) == ent_prims(es, i as int, y as int)
                    + glyph_prims(es[i as int].glyph, xcoord(es, i as int), y as int));
                lemma_concat_associative(
                    v0,
                    ent_prims(es, i as int, y as int),
                    glyph_prims(es[i as int].glyph, xcoord(es, i as int), y as int),
                );
            }
        }
        proof {
            assert(es.take(n as int) =~= es);
            lemma_mul_le_bounds(natural as int, scale.num as int, NAT_WIDTH_LIMIT as int, 1600);
        }
        let stave_width = Frac { num: (natural as i64) * scale.num, den: scale.den };
        let zero_x = Frac { num: 0, den: scale.den };
        let ghost vbase = views(svg.entities@);
        proof {
            assert(vbase + line_prims(es, y as int, 0) =~= vbase);
        }
        for bar_i in 0..9u64
            invariant
                es == self.entities@,
                natural == nat_width(es),
                natural <= NAT_WIDTH_LIMIT,
                scale == spec_scale(natural as int),
                0 < scale.num <= 1600,
                0 < scale.den <= NAT_WIDTH_LIMIT,
                stave_width == scale_mul(spec_scale(nat_width(es)), nat_width(es)),
                stave_width.wf(),
                zero_x == (Frac { num: 0, den: spec_scale(nat_width(es)).den }),
                -Y_LIMIT <= y <= Y_LIMIT,
                svg.wf(),
                views(svg.entities@) == vbase + line_prims(es, y as int, bar_i as int),
                vbase == v0 + ent_prims(es, es.len() as int, y as int),
                v0 == views(old(svg).entities@),
                old(svg).bounds_ok() ==> svg.bounds_ok(),
        {
            if bar_i % 2 == 0 {
                let yy: i64 = y + (LINES_IN_STAVE - bar_i as i64) * HEAD_HEIGHT;
                svg.rect(zero_x, Frac::whole(yy), stave_width, Frac::whole(2));
            }
            proof {
                if bar_i % 2 == 0 {
                    lemma_concat_associative(
                        vbase,
                        line_prims(es, y as int, bar_i as int),
                        seq![
                            PrimV::Rect(
                                Frac { num: 0, den: spec_scale(nat_width(es)).den },
                                fy(y + (LINES_IN_STAVE - bar_i) * HEAD_HEIGHT),
                                scale_mul(spec_scale(nat_width(es)), nat_width(es)),
                                fy(2),
                            ),
                        ],
                    );
                    assert(views(svg.entities@) =~= vbase + line_prims(
                        es,
                        y as int,
                        bar_i + 1,
                    ));
                } else {
                    assert(line_prims(es, y as int, bar_i + 1) =~= line_prims(
                        es,
                        y as int,
                        bar_i as int,
                    ));
                }
            }
        }
        proof {
            lemma_concat_associative(
                v0,
                ent_prims(es, es.len() as int, y as int),
                line_prims(es, y as int, LINES_IN_STAVE as int),
            );
        }
    }
}

/// A box that spans the page; each box knows its own height.
#[derive(Clone, Debug, PartialEq, Eq)]
pub enum HorizontalBox {
    System(Stave),
}

/// The entities of the stave a box wraps.
pub open spec fn box_entities(b: HorizontalBox) -> Seq<Entity> {
    match b {
        HorizontalBox::System(s) => s.entities@,
    }
}

/// The height of every box: the stave height plus the inter-system margin,
/// independent of the box's contents.
pub open spec fn box_height() -> int {
    HEAD_HEIGHT * LINES_IN_STAVE + STAVE_V_MARGIN + SYSTEM_V_MARGIN
}

impl HorizontalBox {
    /// A box's rendered height: constant, unaffected by justification.
    pub fn height(&self) -> (r: i64)
        ensures
            r == box_height(),
    {
        match self {
            HorizontalBox::System(stave) => stave.height() + SYSTEM_V_MARGIN,
        }
    }

    /// Draws the box's stave at vertical origin `y`.
    pub fn render(&self, svg: &mut Drawing, y: i64)
        requires
            old(svg).wf(),
            stave_ok(box_entities(*self)),
            -Y_LIMIT <= y <= Y_LIMIT,
        ensures
            final(svg).wf(),
            views(final(svg).entities@) == views(old(svg).entities@) + stave_prims(
                box_entities(*self),
                y as int,
            ),
            old(svg).bounds_ok() ==> final(svg).bounds_ok(),
    {
        match self {
            HorizontalBox::System(stave) => stave.render(svg, y),
        }
    }
}

/// A page the renderer accepts: every stave within the layout caps, and few
/// enough systems that the vertical offsets stay in range.
pub open spec fn page_ok(boxes: Seq<HorizontalBox>) -> bool {
    (forall|i: int| 0 <= i < boxes.len() ==> #[trigger] stave_ok(box_entities(boxes[i])))
        && boxes.len() * box_height() <= Y_LIMIT
}

/// Everything a page draws: each box's stave, stacked at offsets that advance
/// by the box height, starting from zero.
pub open spec fn boxes_prims(boxes: Seq<HorizontalBox>) -> Seq<PrimV>
    decreases boxes.len(),
{
    if boxes.len() == 0 {
        Seq::empty()
    } else {
        boxes_prims(boxes.drop_last()) + stave_prims(
            box_entities(boxes.last()),
            (boxes.len() - 1) * box_height(),
        )
    }
}

/// A page: an ordered sequence of page-spanning boxes, one per system.
#[derive(Clone, Debug, PartialEq, Eq)]
pub struct Page {
    pub boxes: Vec<HorizontalBox>,
}

impl Page {
    pub fn new() -> (r: Page)
        ensures
            r.boxes@ == Seq::<HorizontalBox>::empty(),
    {
        Page { boxes: Vec::new() }
    }

    /// Draws every box in order, each at a vertical offset that starts at
    /// zero and advances by the box's height.
    pub fn render(&self, svg: &mut Drawing)
        requires
            old(svg).wf(),
            page_ok(self.boxes@),
        ensures
            final(svg).wf(),
            views(final(svg).entities@) == views(old(svg).entities@) + boxes_prims(self.boxes@),
            old(svg).bounds_ok() ==> final(svg).bounds_ok(),
    {
        let ghost bs = self.boxes@;
        let ghost v0 = views(old(svg).entities@);
        let mut y: i64 = 0;
        let n = self.boxes.len();
        proof {
            assert(bs.take(0) =~= Seq::<HorizontalBox>::empty());
            assert(v0 + boxes_prims(bs.take(0)) =~= v0);
            lemma_mul_le_bounds(n as int, box_height(), n as int, box_height());
            assert(0 * box_height() == 0) by (nonlinear_arith);
        }
        for i in 0..n
            invariant
                n == bs.len(),
                bs == self.boxes@,
                page_ok(bs),
                y == i * box_height(),
                0 <= y <= Y_LIMIT,
                svg.wf(),
                views(svg.entities@) == v0 + boxes_prims(bs.take(i as int)),
                v0 == views(old(svg).entities@),
                old(svg).bounds_ok() ==> svg.bounds_ok(),
        {
            proof {
                assert(stave_ok(box_entities(bs[i as int])));
                lemma_mul_le_bounds(i as int, box_height(), n as int, box_height());
                lemma_mul_le_bounds(i + 1, box_height(), n as int, box_height());
                assert(i * box_height() + box_height() == (i + 1) * box_height()) by (nonlinear_arith);
            }
            let horizontal_box = &self.boxes[i];
            horizontal_box.render(svg, y);
            y = y + horizontal_box.height();
            proof {
                assert(bs.take(i + 1).drop_last() =~= bs.take(i as int));
                assert(bs.take(i + 1).last() == bs[i as int]);
                assert(bs.take(i + 1).len() - 1 == i);
                lemma_concat_associative(
                    v0,
                    boxes_prims(bs.take(i as int)),
                    stave_prims(box_entities(bs[i as int]), i * box_height()),
                );
            }
        }
        proof {
            assert(bs.take(n as int) =~= bs);
        }
    }
}

/// The entity that seeds every fresh stave: the current clef.
pub open spec fn clef_entity(c: Clef) -> Entity {
    Entity { glyph: Glyph::Clef(c) }
}

/// The glyph a musical token contributes to the current stave, if any: bar
/// kinds map to their fixed glyphs; a note maps to a note head whose staff
/// position is the diatonic interval from the clef's reference pitch plus the
/// clef's centre; every other kind contributes nothing and is ignored.
pub open spec fn token_glyph(t: Token, c: Clef) -> Option<Glyph> {
    match t {
        Token::SingleBar => Some(Glyph::SingleBar),
        Token::DoubleBar => Some(Glyph::DoubleBar),
        Token::EndBar => Some(Glyph::EndBar),
        Token::OpenRepeat => Some(Glyph::OpenRepeat),
        Token::CloseRepeat => Some(Glyph::CloseRepeat),
        Token::Note(n) => Some(
            Glyph::NoteHead(
                (n.pitch.degree - c.pitch.degree + c.centre) as i64,
                n.duration,
            ),
        ),
        _ => None,
    }
}

/// One step of the assembly state machine: a newline finalizes the current
/// stave as a system and reseeds a fresh stave with the clef; a musical token
/// appends its glyph; anything else leaves the state unchanged.
pub open spec fn ts_step(
    systems: Seq<Seq<Entity>>,
    cur: Seq<Entity>,
    t: Token,
    c: Clef,
) -> (Seq<Seq<Entity>>, Seq<Entity>) {
    match t {
        Token::Newline => (systems.push(cur), seq![clef_entity(c)]),
        _ => match token_glyph(t, c) {
            Some(g) => (systems, cur.push(Entity { glyph: g })),
            None => (systems, cur),
        },
    }
}

/// The state machine folded over one token sequence.
pub open spec fn ts_tokens(
    systems: Seq<Seq<Entity>>,
    cur: Seq<Entity>,
    ts: Seq<Token>,
    c: Clef,
) -> (Seq<Seq<Entity>>, Seq<Entity>)
    decreases ts.len(),
{
    if ts.len() == 0 {
        (systems, cur)
    } else {
        let p = ts_tokens(systems, cur, ts.drop_last(), c);
        ts_step(p.0, p.1, ts.last(), c)
    }
}

/// The state machine folded over all voices, in order, into one shared
/// stream: no per-voice separation in the output.
pub open spec fn ts_voices(
    systems: Seq<Seq<Entity>>,
    cur: Seq<Entity>,
    vs: Seq<Seq<Token>>,
    c: Clef,
) -> (Seq<Seq<Entity>>, Seq<Entity>)
    decreases vs.len(),
{
    if vs.len() == 0 {
        (systems, cur)
    } else {
        let p = ts_voices(systems, cur, vs.drop_last(), c);
        ts_tokens(p.0, p.1, vs.last(), c)
    }
}

/// The systems of a tune: the voices folded from a fresh clef-seeded stave,
/// with whatever remains flushed as one final system, so even an empty voice
/// yields one system holding the seeded clef alone.
pub open spec fn typeset_systems(vs: Seq<Seq<Token>>, c: Clef) -> Seq<Seq<Entity>> {
    let p = ts_voices(Seq::empty(), seq![clef_entity(c)], vs, c);
    p.0.push(p.1)
}

/// How many newline tokens a token sequence holds.
pub open spec fn newline_count(ts: Seq<Token>) -> int
    decreases ts.len(),
{
    if ts.len() == 0 {
        0
    } else {
        newline_count(ts.drop_last()) + (match ts.last() {
            Token::Newline => 1int,
            _ => 0int,
        })
    }
}

/// Folding tokens adds exactly one finished system per newline token.
pub proof fn lemma_ts_tokens_count(
    systems: Seq<Seq<Entity>>,
    cur: Seq<Entity>,
    ts: Seq<Token>,
    c: Clef,
)
    ensures
        ts_tokens(systems, cur, ts, c).0.len() == systems.len() + newline_count(ts),
    decreases ts.len(),
{
    if ts.len() > 0 {
        lemma_ts_tokens_count(systems, cur, ts.drop_last(), c);
    }
}

/// Stave count: a single voice with `k` newline tokens yields a page of
/// exactly `k + 1` systems.
pub proof fn lemma_stave_count(ts: Seq<Token>, c: Clef)
    ensures
        typeset_systems(seq![ts], c).len() == newline_count(ts) + 1,
{
    let vs: Seq<Seq<Token>> = seq![ts];
    assert(vs.len() == 1);
    assert(vs.drop_last() =~= Seq::<Seq<Token>>::empty());
    assert(vs.last() == ts);
    let init: Seq<Seq<Entity>> = Seq::empty();
    let cur: Seq<Entity> = seq![clef_entity(c)];
    assert(ts_voices(init, cur, vs.drop_last(), c) == (init, cur));
    let p = ts_voices(init, cur, vs, c);
    assert(p == ts_tokens(init, cur, ts, c));
    lemma_ts_tokens_count(init, cur, ts, c);
    assert(p.0.len() == newline_count(ts));
    assert(typeset_systems(vs, c) == p.0.push(p.1));
}

/// A tune, as the upstream parser presents it: header and setting tokens,
/// then the voices, each an ordered sequence of musical tokens.
#[derive(Clone, Debug)]
pub struct Tune {
    pub prelude: Vec<Token>,
    pub voices: Vec<Vec<Token>>,
}

/// The key signature and metre extracted from a prelude: the last setting of
/// each kind wins; the defaults are C major and four-four time.
#[derive(Clone, Copy, Debug)]
pub struct PreludeSettings {
    pub key_pitch_class: PitchClass,
    pub key_mode: Mode,
    pub metre: Metre,
}

/// The default settings: C major, four-four time.
pub open spec fn default_settings() -> PreludeSettings {
    PreludeSettings {
        key_pitch_class: PitchClass {
            diatonic_pitch_class: DiatonicPitchClass::C,
            accidental: None,
        },
        key_mode: Mode::Major,
        metre: Metre(4, 4),
    }
}

/// The settings after scanning a prelude left to right.
pub open spec fn prelude_fold(ts: Seq<Token>) -> PreludeSettings
    decreases ts.len(),
{
    if ts.len() == 0 {
        default_settings()
    } else {
        let p = prelude_fold(ts.drop_last());
        match ts.last() {
            Token::KeySignature(pc, m) => PreludeSettings {
                key_pitch_class: pc,
                key_mode: m,
                metre: p.metre,
            },
            Token::Metre(m) => PreludeSettings {
                key_pitch_class: p.key_pitch_class,
                key_mode: p.key_mode,
                metre: m,
            },
            _ => p,
        }
    }
}

/// Scans the prelude for key-signature and metre settings, ignoring all other
/// tokens. The result is parsed but intentionally not drawn: a reserved
/// extension point for key- and time-signature glyphs.
pub fn prelude_settings(prelude: &Vec<Token>) -> (r: PreludeSettings)
    ensures
        r == prelude_fold(prelude@),
{
    let ghost ts = prelude@;
    let mut settings = PreludeSettings {
        key_pitch_class: PitchClass {
            diatonic_pitch_class: DiatonicPitchClass::C,
            accidental: None,
        },
        key_mode: Mode::Major,
        metre: Metre(4, 4),
    };
    let n = prelude.len();
    proof {
        assert(ts.take(0) =~= Seq::<Token>::empty());
    }
    for i in 0..n
        invariant
            n == ts.len(),
            ts == prelude@,
            settings == prelude_fold(ts.take(i as int)),
    {
        proof {
            assert(ts.take(i + 1).drop_last() =~= ts.take(i as int));
            assert(ts.take(i + 1).last() == ts[i as int]);
        }
        match &prelude[i] {
            Token::KeySignature(pitch_class, mode) => {
                settings.key_pitch_class = *pitch_class;
                settings.key_mode = *mode;
            },
            Token::Metre(metre) => {
                settings.metre = *metre;
            },
            _ => {},
        }
    }
    proof {
        assert(ts.take(n as int) =~= ts);
    }
    settings
}

/// The typesetting engine; it holds no state of its own.
pub struct Typesetting {}

impl Typesetting {
    pub fn new() -> (r: Typesetting)
        ensures
            r == (Typesetting {}),
    {
        Typesetting {}
    }
}

/// Walks the tune's voices in order, building one system per line of music:
/// a newline finalizes the stave in progress, bar tokens and notes append
/// glyph entities, every other token is ignored, and whatever remains at the
/// end is flushed as one final system. Every stave begins with a clef entity;
/// only the treble clef is currently produced.
pub fn typeset_from_ast(ast: Tune) -> (page: Page)
    ensures
        page.boxes@.map_values(|b: HorizontalBox| box_entities(b)) == typeset_systems(
            ast.voices@.map_values(|v: Vec<Token>| v@),
            crate::music::treble_clef(),
        ),
{
    let ghost cl = crate::music::treble_clef();
    let ghost vs = ast.voices@.map_values(|v: Vec<Token>| v@);
    let mut page = Page::new();
    let mut current_stave = Stave::new();
    let current_clef = Clef::treble();
    let _settings = prelude_settings(&ast.prelude);
    current_stave.entities.push(Entity::new(Glyph::Clef(current_clef)));
    proof {
        assert(vs.take(0) =~= Seq::<Seq<Token>>::empty());
        assert(page.boxes@.map_values(|b: HorizontalBox| box_entities(b)) =~= Seq::<
            Seq<Entity>,
        >::empty());
        assert(current_stave.entities@ =~= seq![clef_entity(cl)]);
    }
    let nv = ast.voices.len();
    for vi in 0..nv
        invariant
            nv == ast.voices@.len(),
            vs == ast.voices@.map_values(|v: Vec<Token>| v@),
            cl == crate::music::treble_clef(),
            current_clef == cl,
            page.boxes@.map_values(|b: HorizontalBox| box_entities(b)) == ts_voices(
                Seq::empty(),
                seq![clef_entity(cl)],
                vs.take(vi as int),
                cl,
            ).0,
            current_stave.entities@ == ts_voices(
                Seq::empty(),
                seq![clef_entity(cl)],
                vs.take(vi as int),
                cl,
            ).1,
    {
        let ghost p0 = ts_voices(Seq::empty(), seq![clef_entity(cl)], vs.take(vi as int), cl);
        let voice = &ast.voices[vi];
        let ghost vt = voice@;
        proof {
            assert(vs[vi as int] == vt);
            assert(vt.take(0) =~= Seq::<Token>::empty());
        }
        let nt = voice.len();
        for ti in 0..nt
            invariant
                nt == vt.len(),
                vt == ast.voices@[vi as int]@,
                vi < ast.voices@.len(),
                cl == crate::music::treble_clef(),
                current_clef == cl,
                p0 == ts_voices(Seq::empty(), seq![clef_entity(cl)], vs.take(vi as int), cl),
                page.boxes@.map_values(|b: HorizontalBox| box_entities(b)) == ts_tokens(
                    p0.0,
                    p0.1,
                    vt.take(ti as int),
                    cl,
                ).0,
                current_stave.entities@ == ts_tokens(p0.0, p0.1, vt.take(ti as int), cl).1,
        {
            proof {
                assert(vt.take(ti + 1).drop_last() =~= vt.take(ti as int));
                assert(vt.take(ti + 1).last() == vt[ti as int]);
            }
            let ghost mprev = page.boxes@.map_values(|b: HorizontalBox| box_entities(b));
            let token = &ast.voices[vi][ti];
            proof {
                assert(token == vt[ti as int]);
            }
            match token {
                Token::Newline => {
                    let ghost finished = current_stave.entities@;
                    page.boxes.push(HorizontalBox::System(current_stave));
                    current_stave = Stave::new();
                    current_stave.entities.push(Entity::new(Glyph::Clef(current_clef)));
                    proof {
                        assert(page.boxes@.map_values(|b: HorizontalBox| box_entities(b)) =~=
                            mprev.push(finished));
                        assert(current_stave.entities@ =~= seq![clef_entity(cl)]);
                    }
                },
                Token::SingleBar => {
                    current_stave.entities.push(Entity::new(Glyph::SingleBar));
                },
                Token::DoubleBar => {
                    current_stave.entities.push(Entity::new(Glyph::DoubleBar));
                },
                Token::OpenRepeat => {
                    current_stave.entities.push(Entity::new(Glyph::OpenRepeat));
                },
                Token::CloseRepeat => {
                    current_stave.entities.push(Entity::new(Glyph::CloseRepeat));
                },
                Token::EndBar => {
                    current_stave.entities.push(Entity::new(Glyph::EndBar));
                },
                Token::Note(note) => {
                    let clef_interval = current_clef.pitch.interval_to(&note.pitch);
                    let position: i64 = clef_interval + current_clef.centre as i64;
                    let glyph = note.duration;
                    current_stave.entities.push(Entity::new(Glyph::NoteHead(position, glyph)));
                },
                _ => {},
            }
        }
        proof {
            assert(vt.take(nt as int) =~= vt);
            assert(vs.take(vi + 1).drop_last() =~= vs.take(vi as int));
            assert(vs.take(vi + 1).last() == vs[vi as int]);
        }
    }
    proof {
        assert(vs.take(nv as int) =~= vs);
    }
    let ghost mfinal = page.boxes@.map_values(|b: HorizontalBox| box_entities(b));
    let ghost flushed = current_stave.entities@;
    page.boxes.push(HorizontalBox::System(current_stave));
    proof {
        assert(page.boxes@.map_values(|b: HorizontalBox| box_entities(b)) =~= mfinal.push(
            flushed,
        ));
    }
    page
}

/// Renders a page onto a fresh canvas and serializes the result: the document
/// carries the accumulated bounds and exactly the page's primitives.
pub fn render_page(page: Page) -> (r: String)
    requires
        page_ok(page.boxes@),
    ensures
        r@ == crate::svg::doc_str(
            crate::svg::fold_x(boxes_prims(page.boxes@)),
            crate::svg::fold_y(boxes_prims(page.boxes@)),
            boxes_prims(page.boxes@),
        ),
{
    let mut svg = Drawing::new();
    proof {
        assert(views(svg.entities@) =~= Seq::<PrimV>::empty());
    }
    page.render(&mut svg);
    proof {
        assert(views(svg.entities@) =~= boxes_prims(page.boxes@));
    }
    svg.render()
}

/// How many primitives one glyph draws.
pub open spec fn glyph_prim_count(g: Glyph) -> int {
    match g {
        Glyph::SingleBar => 1,
        Glyph::DoubleBar => 2,
        Glyph::OpenRepeat => 3,
        Glyph::CloseRepeat => 3,
        Glyph::EndBar => 2,
        Glyph::Clef(_) => 2,
        Glyph::NoteHead(_, dg) => match dg {
            None => 1,
            Some(d) => 1 + (if has_stem(d.shape) {
                1int
            } else {
                0int
            }) + tail_count(d.shape) + d.dots,
        },
    }
}

/// A glyph draws exactly `glyph_prim_count` primitives.
pub proof fn lemma_glyph_prim_count(g: Glyph, x: Frac, y: int)
    ensures
        glyph_prims(g, x, y).len() == glyph_prim_count(g),
{
}

/// The total primitive count of the first `n` entities of a stave.
pub open spec fn ent_prim_count(es: Seq<Entity>, n: int) -> int
    decreases n,
{
    if n <= 0 {
        0
    } else {
        ent_prim_count(es, n - 1) + glyph_prim_count(es[n - 1].glyph)
    }
}

/// The first `n` entities draw exactly the sum of their primitive counts.
pub proof fn lemma_ent_prim_count(es: Seq<Entity>, n: int, y: int)
    ensures
        ent_prims(es, n, y).len() == ent_prim_count(es, n),
    decreases n,
{
    if n > 0 {
        lemma_ent_prim_count(es, n - 1, y);
        lemma_glyph_prim_count(es[n - 1].glyph, xcoord(es, n - 1), y);
    }
}

/// The staff lines drawn for the first `n` positions: one per even position.
pub proof fn lemma_line_prim_count(es: Seq<Entity>, y: int, n: int)
    requires
        0 <= n,
    ensures
        line_prims(es, y, n).len() == (n + 1) / 2,
    decreases n,
{
    if n > 0 {
        lemma_line_prim_count(es, y, n - 1);
    }
}

/// No hidden extra primitives: a stave draws exactly the sum of its entities'
/// primitive counts plus its five staff lines, and a page draws exactly the
/// sum over its staves; the serialized document is, character for character,
/// one element per primitive between the root tags.
pub proof fn lemma_stave_prim_count(es: Seq<Entity>, y: int)
    ensures
        stave_prims(es, y).len() == ent_prim_count(es, es.len() as int) + 5,
{
    lemma_ent_prim_count(es, es.len() as int, y);
    lemma_line_prim_count(es, y, LINES_IN_STAVE as int);
}

/// The total primitive count of a page: each box's entities plus five staff
/// lines per system.
pub open spec fn page_prim_count(boxes: Seq<HorizontalBox>) -> int
    decreases boxes.len(),
{
    if boxes.len() == 0 {
        0
    } else {
        page_prim_count(boxes.drop_last()) + ent_prim_count(
            box_entities(boxes.last()),
            box_entities(boxes.last()).len() as int,
        ) + 5
    }
}

/// A page draws exactly `page_prim_count` primitives: no hidden extras.
pub proof fn lemma_page_prim_count(boxes: Seq<HorizontalBox>)
    ensures
        boxes_prims(boxes).len() == page_prim_count(boxes),
    decreases boxes.len(),
{
    if boxes.len() > 0 {
        lemma_page_prim_count(boxes.drop_last());
        lemma_stave_prim_count(
            box_entities(boxes.last()),
            (boxes.len() - 1) * box_height(),
        );
    }
}

/// Tag counts by glyph: one tag per primitive, and one more for each text
/// element (the clef's label, the unresolved-duration placeholder), whose
/// element closes itself.
pub open spec fn glyph_tag_count(g: Glyph) -> int {
    glyph_prim_count(g) + (match g {
        Glyph::Clef(_) => 1int,
        Glyph::NoteHead(_, dg) => if dg is None {
            1int
        } else {
            0int
        },
        _ => 0int,
    })
}

/// Tag counting distributes over concatenated primitive lists.
proof fn lemma_ptc_add(a: Seq<PrimV>, b: Seq<PrimV>)
    ensures
        prims_tag_count(a + b) == prims_tag_count(a) + prims_tag_count(b),
    decreases b.len(),
{
    if b.len() == 0 {
        assert(a + b =~= a);
    } else {
        assert((a + b).drop_last() =~= a + b.drop_last());
        assert((a + b).last() == b.last());
        lemma_ptc_add(a, b.drop_last());
    }
}

/// A singleton primitive list counts its one primitive.
proof fn lemma_ptc_one(p: PrimV)
    ensures
        prims_tag_count(seq![p]) == prim_tag_count(p),
{
    let s = seq![p];
    assert(s.len() == 1);
    assert(s.drop_last() =~= Seq::<PrimV>::empty());
    assert(prims_tag_count(s.drop_last()) == 0);
}

/// The dot squares carry one tag each.
proof fn lemma_dot_prims_ptc(x: Frac, yy: int, n: nat)
    ensures
        prims_tag_count(dot_prims(x, yy, n)) == n,
    decreases n,
{
    if n > 0 {
        assert(dot_prims(x, yy, n).drop_last() =~= dot_prims(x, yy, (n - 1) as nat));
        lemma_dot_prims_ptc(x, yy, (n - 1) as nat);
    } else {
        assert(dot_prims(x, yy, 0) =~= Seq::<PrimV>::empty());
    }
}

/// A glyph's primitives carry exactly `glyph_tag_count` tag openings: its
/// labels ("clef" and "?") hold no markup of their own.
proof fn lemma_glyph_tag_count(g: Glyph, x: Frac, y: int)
    ensures
        prims_tag_count(glyph_prims(g, x, y)) == glyph_tag_count(g),
{
    reveal_strlit("clef");
    reveal_strlit("?");
    crate::svg::lemma_lt_count_none("clef"@);
    crate::svg::lemma_lt_count_none("?"@);
    match g {
        Glyph::Clef(c) => {
            let ps = glyph_prims(g, x, y);
            assert(ps.len() == 2);
            assert(ps.drop_last() =~= seq![ps[0]]);
            lemma_ptc_one(ps[0]);
            assert(prim_tag_count(ps.last()) == 2);
            assert(prims_tag_count(ps) == glyph_tag_count(g));
        },
        Glyph::SingleBar => {
            lemma_ptc_one(glyph_prims(g, x, y)[0]);
            assert(glyph_prims(g, x, y) =~= seq![glyph_prims(g, x, y)[0]]);
            assert(prims_tag_count(glyph_prims(g, x, y)) == glyph_tag_count(g));
        },
        Glyph::DoubleBar => {
            let ps = glyph_prims(g, x, y);
            assert(ps.len() == 2);
            assert(ps.drop_last() =~= seq![ps[0]]);
            lemma_ptc_one(ps[0]);
            assert(prims_tag_count(ps) == glyph_tag_count(g));
        },
        Glyph::OpenRepeat => {
            let ps = glyph_prims(g, x, y);
            assert(ps.len() == 3);
            assert(ps.drop_last() =~= seq![ps[0], ps[1]]);
            assert(seq![ps[0], ps[1]] =~= seq![ps[0]] + seq![ps[1]]);
            lemma_ptc_one(ps[0]);
            lemma_ptc_one(ps[1]);
            lemma_ptc_add(seq![ps[0]], seq![ps[1]]);
            assert(prims_tag_count(ps) == glyph_tag_count(g));
        },
        Glyph::CloseRepeat => {
            let ps = glyph_prims(g, x, y);
            assert(ps.len() == 3);
            assert(ps.drop_last() =~= seq![ps[0], ps[1]]);
            assert(seq![ps[0], ps[1]] =~= seq![ps[0]] + seq![ps[1]]);
            lemma_ptc_one(ps[0]);
            lemma_ptc_one(ps[1]);
            lemma_ptc_add(seq![ps[0]], seq![ps[1]]);
            assert(prims_tag_count(ps) == glyph_tag_count(g));
        },
        Glyph::EndBar => {
            let ps = glyph_prims(g, x, y);
            assert(ps.len() == 2);
            assert(ps.drop_last() =~= seq![ps[0]]);
            lemma_ptc_one(ps[0]);
            assert(prims_tag_count(ps) == glyph_tag_count(g));
        },
        Glyph::NoteHead(position, dg) => {
            match dg {
                None => {
                    let ps = glyph_prims(g, x, y);
                    assert(ps =~= seq![ps[0]]);
                    lemma_ptc_one(ps[0]);
                    assert(prims_tag_count(ps) == glyph_tag_count(g));
                },
                Some(d) => {
                    let yy = position_y(y, position as int);
                    let head = if open_head(d.shape) {
                        seq![PrimV::Rect(x, fy(yy - 10), fw(x, 25), fy(20))]
                    } else {
                        seq![PrimV::FillRect(x, fy(yy - 10), fw(x, 25), fy(20))]
                    };
                    let stem: Seq<PrimV> = if has_stem(d.shape) {
                        seq![PrimV::Rect(fx(x, 30), fy(yy + 10 - STEM_HEIGHT), fw(x, 2), fy(STEM_HEIGHT as int))]
                    } else {
                        Seq::empty()
                    };
                    let t1: Seq<PrimV> = if tail_count(d.shape) >= 1 {
                        seq![PrimV::FillRect(fx(x, 23), fy(yy - 10 - STEM_HEIGHT), fw(x, 40), fy(4))]
                    } else {
                        Seq::empty()
                    };
                    let t2: Seq<PrimV> = if tail_count(d.shape) >= 2 {
                        seq![PrimV::FillRect(fx(x, 23), fy(yy - 10 - STEM_HEIGHT + 40), fw(x, 40), fy(4))]
                    } else {
                        Seq::empty()
                    };
                    let t3: Seq<PrimV> = if tail_count(d.shape) >= 3 {
                        seq![PrimV::FillRect(fx(x, 23), fy(yy - 10 - STEM_HEIGHT + 60), fw(x, 40), fy(4))]
                    } else {
                        Seq::empty()
                    };
                    let dots = dot_prims(x, yy, d.dots as nat);
                    assert(glyph_prims(g, x, y) == head + stem + (t1 + t2 + t3) + dots);
                    lemma_ptc_one(head[0]);
                    assert(head =~= seq![head[0]]);
                    assert(prims_tag_count(Seq::<PrimV>::empty()) == 0);
                    if has_stem(d.shape) {
                        lemma_ptc_one(stem[0]);
                        assert(stem =~= seq![stem[0]]);
                    }
                    if tail_count(d.shape) >= 1 {
                        lemma_ptc_one(t1[0]);
                        assert(t1 =~= seq![t1[0]]);
                    }
                    if tail_count(d.shape) >= 2 {
                        lemma_ptc_one(t2[0]);
                        assert(t2 =~= seq![t2[0]]);
                    }
                    if tail_count(d.shape) >= 3 {
                        lemma_ptc_one(t3[0]);
                        assert(t3 =~= seq![t3[0]]);
                    }
                    lemma_dot_prims_ptc(x, yy, d.dots as nat);
                    lemma_ptc_add(head, stem);
                    lemma_ptc_add(t1, t2);
                    lemma_ptc_add(t1 + t2, t3);
                    lemma_ptc_add(head + stem, t1 + t2 + t3);
                    lemma_ptc_add(head + stem + (t1 + t2 + t3), dots);
                    assert(prims_tag_count(glyph_prims(g, x, y)) == glyph_tag_count(g));
                },
            }
        },
    }
}

/// The total tag count of the first `n` entities of a stave.
pub open spec fn ent_tag_count(es: Seq<Entity>, n: int) -> int
    decreases n,
{
    if n <= 0 {
        0
    } else {
        ent_tag_count(es, n - 1) + glyph_tag_count(es[n - 1].glyph)
    }
}

/// The first `n` entities carry exactly their summed tag counts.
proof fn lemma_ent_tag_count(es: Seq<Entity>, n: int, y: int)
    ensures
        prims_tag_count(ent_prims(es, n, y)) == ent_tag_count(es, n),
    decreases n,
{
    if n > 0 {
        lemma_ent_tag_count(es, n - 1, y);
        lemma_glyph_tag_count(es[n - 1].glyph, xcoord(es, n - 1), y);
        lemma_ptc_add(ent_prims(es, n - 1, y), glyph_prims(es[n - 1].glyph, xcoord(es, n - 1), y));
    } else {
        assert(ent_prims(es, n, y) =~= Seq::<PrimV>::empty());
    }
}

/// Staff lines carry one tag each.
proof fn lemma_line_tag_count(es: Seq<Entity>, y: int, n: int)
    requires
        0 <= n,
    ensures
        prims_tag_count(line_prims(es, y, n)) == (n + 1) / 2,
    decreases n,
{
    if n > 0 {
        lemma_line_tag_count(es, y, n - 1);
        if (n - 1) % 2 == 0 {
            let one = seq![
                PrimV::Rect(
                    Frac { num: 0, den: spec_scale(nat_width(es)).den },
                    fy(y + (LINES_IN_STAVE - (n - 1)) * HEAD_HEIGHT),
                    scale_mul(spec_scale(nat_width(es)), nat_width(es)),
                    fy(2),
                ),
            ];
            lemma_ptc_one(one[0]);
            assert(one =~= seq![one[0]]);
            lemma_ptc_add(line_prims(es, y, n - 1), one);
        } else {
            assert(line_prims(es, y, n) =~= line_prims(es, y, n - 1));
        }
    } else {
        assert(line_prims(es, y, n) =~= Seq::<PrimV>::empty());
    }
}

/// The total tag count of a page: each system's entities plus five staff
/// lines, each one tag.
pub open spec fn page_tag_count(boxes: Seq<HorizontalBox>) -> int
    decreases boxes.len(),
{
    if boxes.len() == 0 {
        0
    } else {
        page_tag_count(boxes.drop_last()) + ent_tag_count(
            box_entities(boxes.last()),
            box_entities(boxes.last()).len() as int,
        ) + 5
    }
}

/// A page's primitives carry exactly `page_tag_count` tag openings.
proof fn lemma_page_tag_count(boxes: Seq<HorizontalBox>)
    ensures
        prims_tag_count(boxes_prims(boxes)) == page_tag_count(boxes),
    decreases boxes.len(),
{
    if boxes.len() > 0 {
        lemma_page_tag_count(boxes.drop_last());
        let es = box_entities(boxes.last());
        let y = (boxes.len() - 1) * box_height();
        lemma_ent_tag_count(es, es.len() as int, y);
        lemma_line_tag_count(es, y, LINES_IN_STAVE as int);
        lemma_ptc_add(ent_prims(es, es.len() as int, y), line_prims(es, y, LINES_IN_STAVE as int));
        lemma_ptc_add(boxes_prims(boxes.drop_last()), stave_prims(es, y));
    } else {
        assert(boxes_prims(boxes) =~= Seq::<PrimV>::empty());
    }
}

/// Round-trip-free: the document a page renders to holds exactly one
/// tag-opening `<` per element: two for the root tags, one per primitive
/// drawn, and one more per text element's closing tag. A markup parser of the
/// document therefore finds exactly as many primitive elements as primitives
/// drawn: no hidden extras, and nothing hidden in the labels the library
/// itself writes.
pub proof fn lemma_rendered_page_tags(boxes: Seq<HorizontalBox>)
    ensures
        crate::svg::lt_count(
            crate::svg::doc_str(
                crate::svg::fold_x(boxes_prims(boxes)),
                crate::svg::fold_y(boxes_prims(boxes)),
                boxes_prims(boxes),
            ),
        ) == 2 + page_tag_count(boxes),
{
    crate::svg::lemma_doc_tag_count(
        crate::svg::fold_x(boxes_prims(boxes)),
        crate::svg::fold_y(boxes_prims(boxes)),
        boxes_prims(boxes),
    );
    lemma_page_tag_count(boxes);
}

/// The assembly state is clef-seeded: the stave in progress and every
/// finished system are non-empty and begin with the clef entity.
pub open spec fn seeded(st: (Seq<Seq<Entity>>, Seq<Entity>), c: Clef) -> bool {
    st.1.len() >= 1 && st.1[0] == clef_entity(c) && forall|i: int|
        0 <= i < st.0.len() ==> (#[trigger] st.0[i]).len() >= 1 && st.0[i][0] == clef_entity(c)
}

/// One step of the state machine keeps the state clef-seeded.
proof fn lemma_ts_step_seeded(
    systems: Seq<Seq<Entity>>,
    cur: Seq<Entity>,
    t: Token,
    c: Clef,
)
    requires
        seeded((systems, cur), c),
    ensures
        seeded(ts_step(systems, cur, t, c), c),
{
    let st = ts_step(systems, cur, t, c);
    match t {
        Token::Newline => {
            assert forall|i: int| 0 <= i < st.0.len() implies (#[trigger] st.0[i]).len() >= 1
                && st.0[i][0] == clef_entity(c) by {
                if i < systems.len() {
                    assert(systems[i].len() >= 1);
                }
            }
        },
        _ => {},
    }
}

/// Folding a token sequence keeps the state clef-seeded.
proof fn lemma_ts_tokens_seeded(
    systems: Seq<Seq<Entity>>,
    cur: Seq<Entity>,
    ts: Seq<Token>,
    c: Clef,
)
    requires
        seeded((systems, cur), c),
    ensures
        seeded(ts_tokens(systems, cur, ts, c), c),
    decreases ts.len(),
{
    if ts.len() > 0 {
        lemma_ts_tokens_seeded(systems, cur, ts.drop_last(), c);
        let p = ts_tokens(systems, cur, ts.drop_last(), c);
        lemma_ts_step_seeded(p.0, p.1, ts.last(), c);
    }
}

/// Folding all voices keeps the state clef-seeded.
proof fn lemma_ts_voices_seeded(
    systems: Seq<Seq<Entity>>,
    cur: Seq<Entity>,
    vs: Seq<Seq<Token>>,
    c: Clef,
)
    requires
        seeded((systems, cur), c),
    ensures
        seeded(ts_voices(systems, cur, vs, c), c),
    decreases vs.len(),
{
    if vs.len() > 0 {
        lemma_ts_voices_seeded(systems, cur, vs.drop_last(), c);
        let p = ts_voices(systems, cur, vs.drop_last(), c);
        lemma_ts_tokens_seeded(p.0, p.1, vs.last(), c);
    }
}

/// Every system of a typeset tune is non-empty and begins with the seeded
/// clef entity: in particular, a tune with one empty voice still yields one
/// system holding the clef alone.
pub proof fn lemma_systems_seeded(vs: Seq<Seq<Token>>, c: Clef)
    ensures
        typeset_systems(vs, c).len() >= 1,
        forall|i: int|
            0 <= i < typeset_systems(vs, c).len() ==> (#[trigger] typeset_systems(vs, c)[i]).len()
                >= 1 && typeset_systems(vs, c)[i][0] == clef_entity(c),
{
    let init: (Seq<Seq<Entity>>, Seq<Entity>) = (Seq::empty(), seq![clef_entity(c)]);
    assert(seeded(init, c));
    lemma_ts_voices_seeded(init.0, init.1, vs, c);
    let p = ts_voices(init.0, init.1, vs, c);
    assert forall|i: int| 0 <= i < typeset_systems(vs, c).len() implies (#[trigger] typeset_systems(
        vs,
        c,
    )[i]).len() >= 1 && typeset_systems(vs, c)[i][0] == clef_entity(c) by {
        if i < p.0.len() {
            assert(p.0[i].len() >= 1);
        }
    }
}

} // verus!
