//! A vector canvas that accumulates drawing primitives and serializes them
//! to an SVG-like document.
//!
//! The canvas owns a bounding box, initially zero, that grows monotonically
//! to the largest x and y extent touched by any primitive added so far, and
//! the ordered list of primitives (insertion order is paint order).
//!
//! Text labels are carried through literally, unescaped: keeping markup out
//! of a label is the caller's responsibility.

use vstd::prelude::*;
use vstd::string::StringExecFns;
use crate::frac::Frac;
use crate::numfmt::{frac_str, push_frac};
use vstd::seq_lib::lemma_concat_associative;

verus! {

/// One drawing primitive, with the exact coordinates it was issued at.
#[derive(Clone, Debug, PartialEq)]
pub enum Prim {
    /// Outline rectangle: x, y, width, height.
    Rect(Frac, Frac, Frac, Frac),
    /// Filled rectangle: x, y, width, height.
    FillRect(Frac, Frac, Frac, Frac),
    /// Diagnostic outline rectangle: x, y, width, height.
    DebugRect(Frac, Frac, Frac, Frac),
    /// Diagnostic point, drawn as a one-by-one outline rectangle.
    Point(Frac, Frac),
    /// A literal, unescaped text label at a point.
    Text(Frac, Frac, String),
    /// A caller-supplied path string, translated to an origin.
    LinePath(Frac, Frac, String),
    /// A straight segment between two points.
    Line(Frac, Frac, Frac, Frac),
    /// A circle by centre and radius; the flag selects a filled disc.
    Circle(Frac, Frac, Frac, bool),
}

/// The coordinates a primitive stores are bounded, and extents that are added
/// together share a denominator, so corner arithmetic stays exact.
pub open spec fn prim_wf(p: Prim) -> bool {
    match p {
        Prim::Rect(x, y, w, h) => x.wf() && y.wf() && w.wf() && h.wf() && w.den == x.den && h.den
            == y.den,
        Prim::FillRect(x, y, w, h) => x.wf() && y.wf() && w.wf() && h.wf() && w.den == x.den
            && h.den == y.den,
        Prim::DebugRect(x, y, w, h) => x.wf() && y.wf() && w.wf() && h.wf() && w.den == x.den
            && h.den == y.den,
        Prim::Point(x, y) => x.wf() && y.wf(),
        Prim::Text(x, y, _) => x.wf() && y.wf(),
        Prim::LinePath(x, y, _) => x.wf() && y.wf(),
        Prim::Line(x, y, xx, yy) => x.wf() && y.wf() && xx.wf() && yy.wf(),
        Prim::Circle(x, y, r, _) => x.wf() && y.wf() && r.wf() && r.den == x.den && r.den == y.den,
    }
}

/// The mathematical shape of a primitive: coordinates and label contents.
pub enum PrimV {
    Rect(Frac, Frac, Frac, Frac),
    FillRect(Frac, Frac, Frac, Frac),
    DebugRect(Frac, Frac, Frac, Frac),
    Point(Frac, Frac),
    Text(Frac, Frac, Seq<char>),
    LinePath(Frac, Frac, Seq<char>),
    Line(Frac, Frac, Frac, Frac),
    Circle(Frac, Frac, Frac, bool),
}

impl View for Prim {
    type V = PrimV;

    open spec fn view(&self) -> PrimV {
        match *self {
            Prim::Rect(x, y, w, h) => PrimV::Rect(x, y, w, h),
            Prim::FillRect(x, y, w, h) => PrimV::FillRect(x, y, w, h),
            Prim::DebugRect(x, y, w, h) => PrimV::DebugRect(x, y, w, h),
            Prim::Point(x, y) => PrimV::Point(x, y),
            Prim::Text(x, y, t) => PrimV::Text(x, y, t@),
            Prim::LinePath(x, y, p) => PrimV::LinePath(x, y, p@),
            Prim::Line(x, y, xx, yy) => PrimV::Line(x, y, xx, yy),
            Prim::Circle(x, y, r, f) => PrimV::Circle(x, y, r, f),
        }
    }
}

/// The views of a primitive list, in order.
pub open spec fn views(s: Seq<Prim>) -> Seq<PrimV> {
    s.map_values(|p: Prim| p@)
}

/// Taking views commutes with appending one primitive.
pub proof fn lemma_views_push(s: Seq<Prim>, p: Prim)
    ensures
        views(s.push(p)) == views(s).push(p@),
{
    assert(views(s.push(p)) =~= views(s).push(p@));
}

/// The two x positions a primitive touches (both equal where it touches one).
pub open spec fn touch_x(p: PrimV) -> (Frac, Frac) {
    match p {
        PrimV::Rect(x, _y, w, _h) => (x, Frac { num: (x.num + w.num) as i64, den: x.den }),
        PrimV::FillRect(x, _y, w, _h) => (x, Frac { num: (x.num + w.num) as i64, den: x.den }),
        PrimV::DebugRect(x, _y, w, _h) => (x, Frac { num: (x.num + w.num) as i64, den: x.den }),
        PrimV::Point(x, _y) => (x, Frac { num: (x.num + x.den) as i64, den: x.den }),
        PrimV::Text(x, _y, _) => (x, x),
        PrimV::LinePath(x, _y, _) => (x, x),
        PrimV::Line(x, _y, xx, _yy) => (x, xx),
        PrimV::Circle(x, _y, r, _) => (
            Frac { num: (x.num - r.num) as i64, den: x.den },
            Frac { num: (x.num + r.num) as i64, den: x.den },
        ),
    }
}

/// The two y positions a primitive touches.
pub open spec fn touch_y(p: PrimV) -> (Frac, Frac) {
    match p {
        PrimV::Rect(_x, y, _w, h) => (y, Frac { num: (y.num + h.num) as i64, den: y.den }),
        PrimV::FillRect(_x, y, _w, h) => (y, Frac { num: (y.num + h.num) as i64, den: y.den }),
        PrimV::DebugRect(_x, y, _w, h) => (y, Frac { num: (y.num + h.num) as i64, den: y.den }),
        PrimV::Point(_x, y) => (y, Frac { num: (y.num + y.den) as i64, den: y.den }),
        PrimV::Text(_x, y, _) => (y, y),
        PrimV::LinePath(_x, y, _) => (y, y),
        PrimV::Line(_x, y, _xx, yy) => (y, yy),
        PrimV::Circle(_x, y, r, _) => (
            Frac { num: (y.num - r.num) as i64, den: y.den },
            Frac { num: (y.num + r.num) as i64, den: y.den },
        ),
    }
}

/// A bound, grown by the two x touches of one primitive.
pub open spec fn grow_x(acc: Frac, p: PrimV) -> Frac {
    acc.spec_max(touch_x(p).0).spec_max(touch_x(p).1)
}

/// A bound, grown by the two y touches of one primitive.
pub open spec fn grow_y(acc: Frac, p: PrimV) -> Frac {
    acc.spec_max(touch_y(p).0).spec_max(touch_y(p).1)
}

/// The x bound accumulated over a primitive list, starting from zero.
pub open spec fn fold_x(s: Seq<PrimV>) -> Frac
    decreases s.len(),
{
    if s.len() == 0 {
        Frac { num: 0, den: 1 }
    } else {
        grow_x(fold_x(s.drop_last()), s.last())
    }
}

/// The y bound accumulated over a primitive list, starting from zero.
pub open spec fn fold_y(s: Seq<PrimV>) -> Frac
    decreases s.len(),
{
    if s.len() == 0 {
        Frac { num: 0, den: 1 }
    } else {
        grow_y(fold_y(s.drop_last()), s.last())
    }
}


/// The touches of a primitive are usable as rational bounds.
pub open spec fn touches_wf(p: PrimV) -> bool {
    touch_x(p).0.den > 0 && touch_x(p).1.den > 0 && touch_y(p).0.den > 0 && touch_y(p).1.den > 0
}

/// The accumulated x bound dominates every x position any primitive touched,
/// and is itself one of those positions or the initial zero.
pub proof fn lemma_fold_x_is_max(s: Seq<PrimV>)
    requires
        forall|i: int| 0 <= i < s.len() ==> #[trigger] touches_wf(s[i]),
    ensures
        fold_x(s).den > 0,
        forall|i: int|
            0 <= i < s.len() ==> #[trigger] touch_x(s[i]).0.spec_le(fold_x(s)) && touch_x(
                s[i],
            ).1.spec_le(fold_x(s)),
        fold_x(s) == (Frac { num: 0, den: 1 }) || exists|i: int|
            0 <= i < s.len() && (fold_x(s) == touch_x(#[trigger] s[i]).0 || fold_x(s) == touch_x(
                s[i],
            ).1),
    decreases s.len(),
{
    if s.len() > 0 {
        let pre = s.drop_last();
        assert forall|i: int| 0 <= i < pre.len() implies #[trigger] touches_wf(pre[i]) by {
            assert(touches_wf(s[i]));
        }
        lemma_fold_x_is_max(pre);
        let b = fold_x(pre);
        let p = s.last();
        assert(touches_wf(s[s.len() - 1]));
        let t0 = touch_x(p).0;
        let t1 = touch_x(p).1;
        let m = b.spec_max(t0).spec_max(t1);
        crate::frac::lemma_max_ge(b, t0);
        crate::frac::lemma_max_ge(b.spec_max(t0), t1);
        crate::frac::lemma_le_trans(b, b.spec_max(t0), m);
        crate::frac::lemma_le_trans(t0, b.spec_max(t0), m);
        assert forall|i: int|
            0 <= i < s.len() implies #[trigger] touch_x(s[i]).0.spec_le(fold_x(s)) && touch_x(
            s[i],
        ).1.spec_le(fold_x(s)) by {
            if i < s.len() - 1 {
                assert(touch_x(pre[i]).0.spec_le(b));
                assert(touch_x(pre[i]).1.spec_le(b));
                assert(touches_wf(s[i]));
                crate::frac::lemma_le_trans(touch_x(s[i]).0, b, m);
                crate::frac::lemma_le_trans(touch_x(s[i]).1, b, m);
            }
        }
        if m == b {
            if b == (Frac { num: 0, den: 1 }) {
            } else {
                let j = choose|j: int|
                    0 <= j < pre.len() && (b == touch_x(#[trigger] pre[j]).0 || b == touch_x(
                        pre[j],
                    ).1);
                assert(s[j] == pre[j]);
            }
        } else {
            assert(m == t0 || m == t1);
            assert(s[s.len() - 1] == p);
        }
    }
}

/// The accumulated y bound dominates every y position any primitive touched,
/// and is itself one of those positions or the initial zero.
pub proof fn lemma_fold_y_is_max(s: Seq<PrimV>)
    requires
        forall|i: int| 0 <= i < s.len() ==> #[trigger] touches_wf(s[i]),
    ensures
        fold_y(s).den > 0,
        forall|i: int|
            0 <= i < s.len() ==> #[trigger] touch_y(s[i]).0.spec_le(fold_y(s)) && touch_y(
                s[i],
            ).1.spec_le(fold_y(s)),
        fold_y(s) == (Frac { num: 0, den: 1 }) || exists|i: int|
            0 <= i < s.len() && (fold_y(s) == touch_y(#[trigger] s[i]).0 || fold_y(s) == touch_y(
                s[i],
            ).1),
    decreases s.len(),
{
    if s.len() > 0 {
        let pre = s.drop_last();
        assert forall|i: int| 0 <= i < pre.len() implies #[trigger] touches_wf(pre[i]) by {
            assert(touches_wf(s[i]));
        }
        lemma_fold_y_is_max(pre);
        let b = fold_y(pre);
        let p = s.last();
        assert(touches_wf(s[s.len() - 1]));
        let t0 = touch_y(p).0;
        let t1 = touch_y(p).1;
        let m = b.spec_max(t0).spec_max(t1);
        crate::frac::lemma_max_ge(b, t0);
        crate::frac::lemma_max_ge(b.spec_max(t0), t1);
        crate::frac::lemma_le_trans(b, b.spec_max(t0), m);
        crate::frac::lemma_le_trans(t0, b.spec_max(t0), m);
        assert forall|i: int|
            0 <= i < s.len() implies #[trigger] touch_y(s[i]).0.spec_le(fold_y(s)) && touch_y(
            s[i],
        ).1.spec_le(fold_y(s)) by {
            if i < s.len() - 1 {
                assert(touch_y(pre[i]).0.spec_le(b));
                assert(touch_y(pre[i]).1.spec_le(b));
                assert(touches_wf(s[i]));
                crate::frac::lemma_le_trans(touch_y(s[i]).0, b, m);
                crate::frac::lemma_le_trans(touch_y(s[i]).1, b, m);
            }
        }
        if m == b {
            if b == (Frac { num: 0, den: 1 }) {
            } else {
                let j = choose|j: int|
                    0 <= j < pre.len() && (b == touch_y(#[trigger] pre[j]).0 || b == touch_y(
                        pre[j],
                    ).1);
                assert(s[j] == pre[j]);
            }
        } else {
            assert(m == t0 || m == t1);
            assert(s[s.len() - 1] == p);
        }
    }
}

/// Canvas bound growth: a drawing whose bounds track its primitives has a
/// width and height equal to the largest x and y extent any primitive ever
/// touched (or zero, where nothing exceeded the initial bounds).
pub proof fn lemma_canvas_bounds(d: Drawing)
    requires
        d.wf(),
        d.bounds_ok(),
    ensures
        forall|i: int|
            0 <= i < views(d.entities@).len() ==> #[trigger] touch_x(
                views(d.entities@)[i],
            ).0.spec_le(d.width) && touch_x(views(d.entities@)[i]).1.spec_le(d.width),
        forall|i: int|
            0 <= i < views(d.entities@).len() ==> #[trigger] touch_y(
                views(d.entities@)[i],
            ).0.spec_le(d.height) && touch_y(views(d.entities@)[i]).1.spec_le(d.height),
{
    let vs = views(d.entities@);
    assert forall|i: int| 0 <= i < vs.len() implies #[trigger] touches_wf(vs[i]) by {
        assert(prim_wf(d.entities@[i]));
        assert(vs[i] == d.entities@[i]@);
    }
    lemma_fold_x_is_max(vs);
    lemma_fold_y_is_max(vs);
}

/// The serialized form of an outline rectangle.
pub open spec fn rect_str(x: Frac, y: Frac, w: Frac, h: Frac) -> Seq<char> {
    "<rect x='"@ + frac_str(x) + "' y='"@ + frac_str(y) + "' width='"@ + frac_str(w)
        + "' height='"@ + frac_str(h) + "' style='fill:none;stroke:black;stroke-width:2' />"@
}

/// The serialized form of a filled rectangle.
pub open spec fn fill_rect_str(x: Frac, y: Frac, w: Frac, h: Frac) -> Seq<char> {
    "<rect x='"@ + frac_str(x) + "' y='"@ + frac_str(y) + "' width='"@ + frac_str(w)
        + "' height='"@ + frac_str(h) + "' style='fill:solid black;stroke:black;stroke-width:2' />"@
}

/// The serialized form of a diagnostic rectangle.
pub open spec fn debug_rect_str(x: Frac, y: Frac, w: Frac, h: Frac) -> Seq<char> {
    "<rect x='"@ + frac_str(x) + "' y='"@ + frac_str(y) + "' width='"@ + frac_str(w)
        + "' height='"@ + frac_str(h) + "' style='fill:none;stroke:red;stroke-width:2' />"@
}

/// The serialized form of a diagnostic point: a one-by-one diagnostic rectangle.
pub open spec fn point_str(x: Frac, y: Frac) -> Seq<char> {
    "<rect x='"@ + frac_str(x) + "' y='"@ + frac_str(y)
        + "' width='1.000' height='1.000' style='fill:none;stroke:red;stroke-width:2' />"@
}

/// The serialized form of a text label; the label is embedded literally.
pub open spec fn text_str(x: Frac, y: Frac, t: Seq<char>) -> Seq<char> {
    "<text x='"@ + frac_str(x) + "' y='"@ + frac_str(y) + "' >"@ + t + "</text>"@
}

/// The serialized form of a translated path.
pub open spec fn line_path_str(x: Frac, y: Frac, p: Seq<char>) -> Seq<char> {
    "<path d='"@ + p + "' stroke-width='2' stroke='black' fill='none' transform='translate("@
        + frac_str(x) + " "@ + frac_str(y) + ")' />"@
}

/// The serialized form of a straight segment.
pub open spec fn line_str(x: Frac, y: Frac, xx: Frac, yy: Frac) -> Seq<char> {
    "<line x1='"@ + frac_str(x) + "' y1='"@ + frac_str(y) + "' x2='"@ + frac_str(xx) + "' y2='"@
        + frac_str(yy) + "' stroke-width='2' stroke='black' />"@
}

/// The serialized form of a circle.
pub open spec fn circle_str(x: Frac, y: Frac, r: Frac, fill: bool) -> Seq<char> {
    "<circle cx='"@ + frac_str(x) + "' cy='"@ + frac_str(y) + "' r='"@ + frac_str(r)
        + "' stroke-width='2' stroke='black' fill='"@ + (if fill {
        "black"@
    } else {
        "none"@
    }) + "' />"@
}

/// The serialized form of one primitive.
pub open spec fn prim_str(p: PrimV) -> Seq<char> {
    match p {
        PrimV::Rect(x, y, w, h) => rect_str(x, y, w, h),
        PrimV::FillRect(x, y, w, h) => fill_rect_str(x, y, w, h),
        PrimV::DebugRect(x, y, w, h) => debug_rect_str(x, y, w, h),
        PrimV::Point(x, y) => point_str(x, y),
        PrimV::Text(x, y, t) => text_str(x, y, t),
        PrimV::LinePath(x, y, pp) => line_path_str(x, y, pp),
        PrimV::Line(x, y, xx, yy) => line_str(x, y, xx, yy),
        PrimV::Circle(x, y, r, f) => circle_str(x, y, r, f),
    }
}

/// The serialized forms of a primitive list, in insertion order.
pub open spec fn prims_str(s: Seq<PrimV>) -> Seq<char>
    decreases s.len(),
{
    if s.len() == 0 {
        Seq::empty()
    } else {
        prims_str(s.drop_last()) + prim_str(s.last())
    }
}

/// The opening root tag, carrying the accumulated bounds.
pub open spec fn svg_open_str(w: Frac, h: Frac) -> Seq<char> {
    "<svg version='1.1' baseProfile='full' width='"@ + frac_str(w) + "' height='"@ + frac_str(h)
        + "' xmlns='http://www.w3.org/2000/svg'>"@
}

/// The whole document: root tag, primitives in order, closing tag.
pub open spec fn doc_str(w: Frac, h: Frac, prims: Seq<PrimV>) -> Seq<char> {
    svg_open_str(w, h) + prims_str(prims) + "</svg>"@
}


/// The serialized form of one primitive, as a fresh string.
fn prim_string(p: &Prim) -> (r: String)
    requires
        prim_wf(*p),
    ensures
        r@ == prim_str(p@),
{
    match p {
        Prim::Rect(x, y, w, h) => rect_attrs_string(
            "<rect x='",
            *x,
            *y,
            *w,
            *h,
            "' style='fill:none;stroke:black;stroke-width:2' />",
        ),
        Prim::FillRect(x, y, w, h) => rect_attrs_string(
            "<rect x='",
            *x,
            *y,
            *w,
            *h,
            "' style='fill:solid black;stroke:black;stroke-width:2' />",
        ),
        Prim::DebugRect(x, y, w, h) => rect_attrs_string(
            "<rect x='",
            *x,
            *y,
            *w,
            *h,
            "' style='fill:none;stroke:red;stroke-width:2' />",
        ),
        Prim::Point(x, y) => {
            let mut out = String::new();
            out.append("<rect x='");
            proof {
                assert(out@ =~= "<rect x='"@);
            }
            push_frac(&mut out, *x);
            out.append("' y='");
            push_frac(&mut out, *y);
            out.append("' width='1.000' height='1.000' style='fill:none;stroke:red;stroke-width:2' />");
            out
        },
        Prim::Text(x, y, t) => {
            let mut out = String::new();
            out.append("<text x='");
            proof {
                assert(out@ =~= "<text x='"@);
            }
            push_frac(&mut out, *x);
            out.append("' y='");
            push_frac(&mut out, *y);
            out.append("' >");
            out.append(t.as_str());
            out.append("</text>");
            out
        },
        Prim::LinePath(x, y, pp) => {
            let mut out = String::new();
            out.append("<path d='");
            proof {
                assert(out@ =~= "<path d='"@);
            }
            out.append(pp.as_str());
            out.append("' stroke-width='2' stroke='black' fill='none' transform='translate(");
            push_frac(&mut out, *x);
            out.append(" ");
            push_frac(&mut out, *y);
            out.append(")' />");
            out
        },
        Prim::Line(x, y, xx, yy) => {
            let mut out = String::new();
            out.append("<line x1='");
            proof {
                assert(out@ =~= "<line x1='"@);
            }
            push_frac(&mut out, *x);
            out.append("' y1='");
            push_frac(&mut out, *y);
            out.append("' x2='");
            push_frac(&mut out, *xx);
            out.append("' y2='");
            push_frac(&mut out, *yy);
            out.append("' stroke-width='2' stroke='black' />");
            out
        },
        Prim::Circle(x, y, r, f) => {
            let mut out = String::new();
            out.append("<circle cx='");
            proof {
                assert(out@ =~= "<circle cx='"@);
            }
            push_frac(&mut out, *x);
            out.append("' cy='");
            push_frac(&mut out, *y);
            out.append("' r='");
            push_frac(&mut out, *r);
            out.append("' stroke-width='2' stroke='black' fill='");
            if *f {
                out.append("black");
            } else {
                out.append("none");
            }
            out.append("' />");
            out
        },
    }
}

/// A rectangle element: an opening piece, four coordinates, a style tail.
fn rect_attrs_string(head: &str, x: Frac, y: Frac, w: Frac, h: Frac, tail: &str) -> (r: String)
    requires
        x.bound_wf(),
        y.bound_wf(),
        w.bound_wf(),
        h.bound_wf(),
    ensures
        r@ == head@ + frac_str(x) + "' y='"@ + frac_str(y) + "' width='"@ + frac_str(w)
            + "' height='"@ + frac_str(h) + tail@,
{
    let mut out = String::new();
    out.append(head);
    proof {
        assert(out@ =~= head@);
    }
    push_frac(&mut out, x);
    out.append("' y='");
    push_frac(&mut out, y);
    out.append("' width='");
    push_frac(&mut out, w);
    out.append("' height='");
    push_frac(&mut out, h);
    out.append(tail);
    out
}


/// How many `<` characters a character sequence holds. In a document whose
/// labels hold no markup, every `<` begins exactly one tag.
pub open spec fn lt_count(s: Seq<char>) -> int
    decreases s.len(),
{
    if s.len() == 0 {
        0
    } else {
        lt_count(s.drop_last()) + (if s.last() == '<' {
            1int
        } else {
            0int
        })
    }
}

/// The empty sequence counts zero.
proof fn proof_lt_count_empty()
    ensures
        lt_count(Seq::<char>::empty()) == 0,
{
}

/// Counting `<` distributes over concatenation.
pub proof fn lemma_lt_count_add(a: Seq<char>, b: Seq<char>)
    ensures
        lt_count(a + b) == lt_count(a) + lt_count(b),
    decreases b.len(),
{
    if b.len() == 0 {
        assert(a + b =~= a);
    } else {
        assert((a + b).drop_last() =~= a + b.drop_last());
        assert((a + b).last() == b.last());
        lemma_lt_count_add(a, b.drop_last());
    }
}

/// A sequence without `<` counts zero.
pub proof fn lemma_lt_count_none(s: Seq<char>)
    requires
        forall|i: int| 0 <= i < s.len() ==> s[i] != '<',
    ensures
        lt_count(s) == 0,
    decreases s.len(),
{
    if s.len() > 0 {
        lemma_lt_count_none(s.drop_last());
    }
}

/// A sequence whose only `<` is its first character counts one.
pub proof fn lemma_lt_count_first(s: Seq<char>)
    requires
        s.len() >= 1,
        s[0] == '<',
        forall|i: int| 1 <= i < s.len() ==> s[i] != '<',
    ensures
        lt_count(s) == 1,
{
    let head = s.subrange(0, 1);
    let rest = s.subrange(1, s.len() as int);
    assert(s =~= head + rest);
    lemma_lt_count_add(head, rest);
    assert(head.len() == 1);
    proof_lt_count_empty();
    assert(head.drop_last() =~= Seq::<char>::empty());
    assert(lt_count(head.drop_last()) == 0);
    assert(head.last() == '<');
    assert(lt_count(head) == 1);
    assert forall|i: int| 0 <= i < rest.len() implies rest[i] != '<' by {
        assert(rest[i] == s[i + 1]);
    }
    lemma_lt_count_none(rest);
}

/// Decimal digits hold no `<`.
pub proof fn lemma_dec_str_lt(n: nat)
    ensures
        lt_count(crate::numfmt::dec_str(n)) == 0,
    decreases n,
{
    let d = crate::numfmt::dec_str(n);
    if n < 10 {
        assert(d == seq![crate::numfmt::digit_char(n as int)]);
        assert(d.len() == 1);
        proof_lt_count_empty();
        assert(d.drop_last() =~= Seq::<char>::empty());
        assert(lt_count(d.drop_last()) == 0);
        assert(d.last() == crate::numfmt::digit_char(n as int));
        assert(crate::numfmt::digit_char(n as int) != '<');
    } else {
        lemma_dec_str_lt(n / 10);
        assert(d.drop_last() =~= crate::numfmt::dec_str(n / 10));
        assert(d.last() == crate::numfmt::digit_char((n % 10) as int));
        assert(crate::numfmt::digit_char((n % 10) as int) != '<');
    }
}

/// A rendered coordinate holds no `<`.
pub proof fn lemma_frac_str_lt(f: Frac)
    ensures
        lt_count(frac_str(f)) == 0,
{
    let m = crate::numfmt::frac_milli(f);
    let r = m % 1000;
    let sign: Seq<char> = if f.num < 0 {
        seq!['-']
    } else {
        Seq::empty()
    };
    let whole = crate::numfmt::dec_str((m / 1000) as nat);
    let dot: Seq<char> = seq!['.'];
    let digits: Seq<char> = seq![
        crate::numfmt::digit_char(r / 100),
        crate::numfmt::digit_char((r / 10) % 10),
        crate::numfmt::digit_char(r % 10),
    ];
    lemma_lt_count_none(sign);
    lemma_dec_str_lt((m / 1000) as nat);
    lemma_lt_count_none(dot);
    lemma_lt_count_none(digits);
    lemma_lt_count_add(sign, whole);
    lemma_lt_count_add(sign + whole, dot);
    lemma_lt_count_add(sign + whole + dot, digits);
    assert(frac_str(f) == sign + whole + dot + digits);
}

/// How many tag-opening `<` characters one primitive's element carries: one
/// for its tag, plus one for a text element's closing tag, plus whatever its
/// literal label or path content holds.
pub open spec fn prim_tag_count(p: PrimV) -> int {
    match p {
        PrimV::Text(_, _, t) => 2 + lt_count(t),
        PrimV::LinePath(_, _, pp) => 1 + lt_count(pp),
        _ => 1,
    }
}

/// The count of `<` in a rectangle-shaped element with the given head and
/// tail pieces.
proof fn lemma_rect_like_lt(head: Seq<char>, x: Frac, y: Frac, w: Frac, h: Frac, tail: Seq<char>)
    requires
        lt_count(head) == 1,
        lt_count(tail) == 0,
    ensures
        lt_count(
            head + frac_str(x) + "' y='"@ + frac_str(y) + "' width='"@ + frac_str(w)
                + "' height='"@ + frac_str(h) + tail,
        ) == 1,
{
    proof_lits();
    lemma_frac_str_lt(x);
    lemma_frac_str_lt(y);
    lemma_frac_str_lt(w);
    lemma_frac_str_lt(h);
    let s1 = head + frac_str(x);
    lemma_lt_count_add(head, frac_str(x));
    let s2 = s1 + "' y='"@;
    lemma_lt_count_add(s1, "' y='"@);
    let s3 = s2 + frac_str(y);
    lemma_lt_count_add(s2, frac_str(y));
    let s4 = s3 + "' width='"@;
    lemma_lt_count_add(s3, "' width='"@);
    let s5 = s4 + frac_str(w);
    lemma_lt_count_add(s4, frac_str(w));
    let s6 = s5 + "' height='"@;
    lemma_lt_count_add(s5, "' height='"@);
    let s7 = s6 + frac_str(h);
    lemma_lt_count_add(s6, frac_str(h));
    lemma_lt_count_add(s7, tail);
}

/// The `<` counts of the fixed literal pieces of every element.
proof fn proof_lits()
    ensures
        lt_count("<rect x='"@) == 1,
        lt_count("<text x='"@) == 1,
        lt_count("<path d='"@) == 1,
        lt_count("<line x1='"@) == 1,
        lt_count("<circle cx='"@) == 1,
        lt_count("' y='"@) == 0,
        lt_count("' y1='"@) == 0,
        lt_count("' x2='"@) == 0,
        lt_count("' y2='"@) == 0,
        lt_count("' cy='"@) == 0,
        lt_count("' r='"@) == 0,
        lt_count("' width='"@) == 0,
        lt_count("' height='"@) == 0,
        lt_count("' >"@) == 0,
        lt_count("</text>"@) == 1,
        lt_count("' style='fill:none;stroke:black;stroke-width:2' />"@) == 0,
        lt_count("' style='fill:solid black;stroke:black;stroke-width:2' />"@) == 0,
        lt_count("' style='fill:none;stroke:red;stroke-width:2' />"@) == 0,
        lt_count("' width='1.000' height='1.000' style='fill:none;stroke:red;stroke-width:2' />"@)
            == 0,
        lt_count("' stroke-width='2' stroke='black' fill='none' transform='translate("@) == 0,
        lt_count(" "@) == 0,
        lt_count(")' />"@) == 0,
        lt_count("' stroke-width='2' stroke='black' />"@) == 0,
        lt_count("' stroke-width='2' stroke='black' fill='"@) == 0,
        lt_count("black"@) == 0,
        lt_count("none"@) == 0,
        lt_count("' />"@) == 0,
        lt_count("<svg version='1.1' baseProfile='full' width='"@) == 1,
        lt_count("' height='"@) == 0,
        lt_count("' xmlns='http://www.w3.org/2000/svg'>"@) == 0,
        lt_count("</svg>"@) == 1,
{
    reveal_strlit("<rect x='");
    lemma_lt_count_first("<rect x='"@);
    reveal_strlit("<text x='");
    lemma_lt_count_first("<text x='"@);
    reveal_strlit("<path d='");
    lemma_lt_count_first("<path d='"@);
    reveal_strlit("<line x1='");
    lemma_lt_count_first("<line x1='"@);
    reveal_strlit("<circle cx='");
    lemma_lt_count_first("<circle cx='"@);
    reveal_strlit("' y='");
    lemma_lt_count_none("' y='"@);
    reveal_strlit("' y1='");
    lemma_lt_count_none("' y1='"@);
    reveal_strlit("' x2='");
    lemma_lt_count_none("' x2='"@);
    reveal_strlit("' y2='");
    lemma_lt_count_none("' y2='"@);
    reveal_strlit("' cy='");
    lemma_lt_count_none("' cy='"@);
    reveal_strlit("' r='");
    lemma_lt_count_none("' r='"@);
    reveal_strlit("' width='");
    lemma_lt_count_none("' width='"@);
    reveal_strlit("' height='");
    lemma_lt_count_none("' height='"@);
    reveal_strlit("' >");
    lemma_lt_count_none("' >"@);
    reveal_strlit("</text>");
    lemma_lt_count_first("</text>"@);
    reveal_strlit("' style='fill:none;stroke:black;stroke-width:2' />");
    lemma_lt_count_none("' style='fill:none;stroke:black;stroke-width:2' />"@);
    reveal_strlit("' style='fill:solid black;stroke:black;stroke-width:2' />");
    lemma_lt_count_none("' style='fill:solid black;stroke:black;stroke-width:2' />"@);
    reveal_strlit("' style='fill:none;stroke:red;stroke-width:2' />");
    lemma_lt_count_none("' style='fill:none;stroke:red;stroke-width:2' />"@);
    reveal_strlit("' width='1.000' height='1.000' style='fill:none;stroke:red;stroke-width:2' />");
    lemma_lt_count_none(
        "' width='1.000' height='1.000' style='fill:none;stroke:red;stroke-width:2' />"@,
    );
    reveal_strlit("' stroke-width='2' stroke='black' fill='none' transform='translate(");
    lemma_lt_count_none(
        "' stroke-width='2' stroke='black' fill='none' transform='translate("@,
    );
    reveal_strlit(" ");
    lemma_lt_count_none(" "@);
    reveal_strlit(")' />");
    lemma_lt_count_none(")' />"@);
    reveal_strlit("' stroke-width='2' stroke='black' />");
    lemma_lt_count_none("' stroke-width='2' stroke='black' />"@);
    reveal_strlit("' stroke-width='2' stroke='black' fill='");
    lemma_lt_count_none("' stroke-width='2' stroke='black' fill='"@);
    reveal_strlit("black");
    lemma_lt_count_none("black"@);
    reveal_strlit("none");
    lemma_lt_count_none("none"@);
    reveal_strlit("' />");
    lemma_lt_count_none("' />"@);
    reveal_strlit("<svg version='1.1' baseProfile='full' width='");
    lemma_lt_count_first("<svg version='1.1' baseProfile='full' width='"@);
    reveal_strlit("' height='");
    lemma_lt_count_none("' height='"@);
    reveal_strlit("' xmlns='http://www.w3.org/2000/svg'>");
    lemma_lt_count_none("' xmlns='http://www.w3.org/2000/svg'>"@);
    reveal_strlit("</svg>");
    lemma_lt_count_first("</svg>"@);
}

/// Each primitive's element carries exactly `prim_tag_count` of `<`.
pub proof fn lemma_prim_str_lt(p: PrimV)
    ensures
        lt_count(prim_str(p)) == prim_tag_count(p),
{
    proof_lits();
    match p {
        PrimV::Rect(x, y, w, h) => {
            lemma_rect_like_lt(
                "<rect x='"@,
                x,
                y,
                w,
                h,
                "' style='fill:none;stroke:black;stroke-width:2' />"@,
            );
        },
        PrimV::FillRect(x, y, w, h) => {
            lemma_rect_like_lt(
                "<rect x='"@,
                x,
                y,
                w,
                h,
                "' style='fill:solid black;stroke:black;stroke-width:2' />"@,
            );
        },
        PrimV::DebugRect(x, y, w, h) => {
            lemma_rect_like_lt(
                "<rect x='"@,
                x,
                y,
                w,
                h,
                "' style='fill:none;stroke:red;stroke-width:2' />"@,
            );
        },
        PrimV::Point(x, y) => {
            lemma_frac_str_lt(x);
            lemma_frac_str_lt(y);
            let s1 = "<rect x='"@ + frac_str(x);
            lemma_lt_count_add("<rect x='"@, frac_str(x));
            let s2 = s1 + "' y='"@;
            lemma_lt_count_add(s1, "' y='"@);
            let s3 = s2 + frac_str(y);
            lemma_lt_count_add(s2, frac_str(y));
            lemma_lt_count_add(
                s3,
                "' width='1.000' height='1.000' style='fill:none;stroke:red;stroke-width:2' />"@,
            );
        },
        PrimV::Text(x, y, t) => {
            lemma_frac_str_lt(x);
            lemma_frac_str_lt(y);
            let s1 = "<text x='"@ + frac_str(x);
            lemma_lt_count_add("<text x='"@, frac_str(x));
            let s2 = s1 + "' y='"@;
            lemma_lt_count_add(s1, "' y='"@);
            let s3 = s2 + frac_str(y);
            lemma_lt_count_add(s2, frac_str(y));
            let s4 = s3 + "' >"@;
            lemma_lt_count_add(s3, "' >"@);
            let s5 = s4 + t;
            lemma_lt_count_add(s4, t);
            lemma_lt_count_add(s5, "</text>"@);
        },
        PrimV::LinePath(x, y, pp) => {
            lemma_frac_str_lt(x);
            lemma_frac_str_lt(y);
            let s1 = "<path d='"@ + pp;
            lemma_lt_count_add("<path d='"@, pp);
            let s2 = s1 + "' stroke-width='2' stroke='black' fill='none' transform='translate("@;
            lemma_lt_count_add(
                s1,
                "' stroke-width='2' stroke='black' fill='none' transform='translate("@,
            );
            let s3 = s2 + frac_str(x);
            lemma_lt_count_add(s2, frac_str(x));
            let s4 = s3 + " "@;
            lemma_lt_count_add(s3, " "@);
            let s5 = s4 + frac_str(y);
            lemma_lt_count_add(s4, frac_str(y));
            lemma_lt_count_add(s5, ")' />"@);
        },
        PrimV::Line(x, y, xx, yy) => {
            lemma_frac_str_lt(x);
            lemma_frac_str_lt(y);
            lemma_frac_str_lt(xx);
            lemma_frac_str_lt(yy);
            let s1 = "<line x1='"@ + frac_str(x);
            lemma_lt_count_add("<line x1='"@, frac_str(x));
            let s2 = s1 + "' y1='"@;
            lemma_lt_count_add(s1, "' y1='"@);
            let s3 = s2 + frac_str(y);
            lemma_lt_count_add(s2, frac_str(y));
            let s4 = s3 + "' x2='"@;
            lemma_lt_count_add(s3, "' x2='"@);
            let s5 = s4 + frac_str(xx);
            lemma_lt_count_add(s4, frac_str(xx));
            let s6 = s5 + "' y2='"@;
            lemma_lt_count_add(s5, "' y2='"@);
            let s7 = s6 + frac_str(yy);
            lemma_lt_count_add(s6, frac_str(yy));
            lemma_lt_count_add(s7, "' stroke-width='2' stroke='black' />"@);
        },
        PrimV::Circle(x, y, r, f) => {
            lemma_frac_str_lt(x);
            lemma_frac_str_lt(y);
            lemma_frac_str_lt(r);
            let fill: Seq<char> = if f {
                "black"@
            } else {
                "none"@
            };
            let s1 = "<circle cx='"@ + frac_str(x);
            lemma_lt_count_add("<circle cx='"@, frac_str(x));
            let s2 = s1 + "' cy='"@;
            lemma_lt_count_add(s1, "' cy='"@);
            let s3 = s2 + frac_str(y);
            lemma_lt_count_add(s2, frac_str(y));
            let s4 = s3 + "' r='"@;
            lemma_lt_count_add(s3, "' r='"@);
            let s5 = s4 + frac_str(r);
            lemma_lt_count_add(s4, frac_str(r));
            let s6 = s5 + "' stroke-width='2' stroke='black' fill='"@;
            lemma_lt_count_add(s5, "' stroke-width='2' stroke='black' fill='"@);
            let s7 = s6 + fill;
            lemma_lt_count_add(s6, fill);
            lemma_lt_count_add(s7, "' />"@);
        },
    }
}

/// The tag-opening characters of a whole primitive list.
pub open spec fn prims_tag_count(s: Seq<PrimV>) -> int
    decreases s.len(),
{
    if s.len() == 0 {
        0
    } else {
        prims_tag_count(s.drop_last()) + prim_tag_count(s.last())
    }
}

/// The serialized primitives carry exactly their summed tag counts.
pub proof fn lemma_prims_str_lt(s: Seq<PrimV>)
    ensures
        lt_count(prims_str(s)) == prims_tag_count(s),
    decreases s.len(),
{
    if s.len() == 0 {
        assert(prims_str(s) =~= Seq::<char>::empty());
    } else {
        lemma_prims_str_lt(s.drop_last());
        lemma_prim_str_lt(s.last());
        lemma_lt_count_add(prims_str(s.drop_last()), prim_str(s.last()));
    }
}

/// Round-trip-free: the whole document holds exactly one `<` for the root's
/// opening tag, one for its closing tag, and `prim_tag_count` per primitive:
/// one element per primitive (a text element also closes itself), and no
/// hidden extras. Labels and paths count whatever markup they carry, which is
/// zero for everything this library itself draws.
pub proof fn lemma_doc_tag_count(w: Frac, h: Frac, prims: Seq<PrimV>)
    ensures
        lt_count(doc_str(w, h, prims)) == 2 + prims_tag_count(prims),
{
    proof_lits();
    lemma_frac_str_lt(w);
    lemma_frac_str_lt(h);
    let s1 = "<svg version='1.1' baseProfile='full' width='"@ + frac_str(w);
    lemma_lt_count_add("<svg version='1.1' baseProfile='full' width='"@, frac_str(w));
    let s2 = s1 + "' height='"@;
    lemma_lt_count_add(s1, "' height='"@);
    let s3 = s2 + frac_str(h);
    lemma_lt_count_add(s2, frac_str(h));
    let s4 = s3 + "' xmlns='http://www.w3.org/2000/svg'>"@;
    lemma_lt_count_add(s3, "' xmlns='http://www.w3.org/2000/svg'>"@);
    lemma_prims_str_lt(prims);
    lemma_lt_count_add(s4, prims_str(prims));
    lemma_lt_count_add(s4 + prims_str(prims), "</svg>"@);
}

/// The drawing sink: a bounding box and the primitives drawn so far.
#[derive(Debug)]
pub struct Drawing {
    pub width: Frac,
    pub height: Frac,
    pub entities: Vec<Prim>,
}

impl Drawing {
    /// Every stored primitive is bounded and the bounds are near-bounded.
    pub open spec fn wf(self) -> bool {
        self.width.bound_wf() && self.height.bound_wf() && forall|i: int|
            0 <= i < self.entities@.len() ==> #[trigger] prim_wf(self.entities@[i])
    }

    /// The bounding box is exactly the accumulated extent of the primitives.
    pub open spec fn bounds_ok(self) -> bool {
        self.width == fold_x(views(self.entities@)) && self.height == fold_y(views(self.entities@))
    }

    /// Starts empty, with a zero bounding box; it grows to accommodate.
    pub fn new() -> (r: Drawing)
        ensures
            r.entities@ == Seq::<Prim>::empty(),
            r.width == (Frac { num: 0, den: 1 }),
            r.height == (Frac { num: 0, den: 1 }),
            r.wf(),
            r.bounds_ok(),
    {
        let r = Drawing { width: Frac::whole(0), height: Frac::whole(0), entities: Vec::new() };
        proof {
            assert(r.entities@.len() == 0);
            assert(views(r.entities@) =~= Seq::<PrimV>::empty());
        }
        r
    }

    /// Serializes the accumulated primitives, in insertion order, between a
    /// root tag carrying the final bounds and the closing tag. Reading the
    /// drawing leaves it unchanged, so serializing is repeatable.
    pub fn render(&self) -> (r: String)
        requires
            self.wf(),
        ensures
            r@ == doc_str(self.width, self.height, views(self.entities@)),
    {
        let mut buf = String::new();
        buf.append("<svg version='1.1' baseProfile='full' width='");
        proof {
            assert(buf@ =~= "<svg version='1.1' baseProfile='full' width='"@);
        }
        push_frac(&mut buf, self.width);
        buf.append("' height='");
        push_frac(&mut buf, self.height);
        buf.append("' xmlns='http://www.w3.org/2000/svg'>");
        proof {
            assert(views(self.entities@.take(0)) =~= Seq::<PrimV>::empty());
            assert(buf@ + prims_str(views(self.entities@.take(0))) =~= buf@);
        }
        let n = self.entities.len();
        for i in 0..n
            invariant
                n == self.entities@.len(),
                self.wf(),
                buf@ == svg_open_str(self.width, self.height) + prims_str(
                    views(self.entities@.take(i as int)),
                ),
        {
            let p = &self.entities[i];
            assert(prim_wf(self.entities@[i as int]));
            let piece = prim_string(p);
            buf.append(piece.as_str());
            proof {
                lemma_concat_associative(
                    svg_open_str(self.width, self.height),
                    prims_str(views(self.entities@.take(i as int))),
                    prim_str(self.entities@[i as int]@),
                );
                assert(self.entities@.take(i + 1).drop_last() =~= self.entities@.take(i as int));
                assert(self.entities@.take(i + 1).last() == self.entities@[i as int]);
                assert(self.entities@.take(i + 1) =~= self.entities@.take(i as int).push(
                    self.entities@[i as int],
                ));
                lemma_views_push(self.entities@.take(i as int), self.entities@[i as int]);
                assert(views(self.entities@.take(i + 1)) == views(
                    self.entities@.take(i as int),
                ).push(self.entities@[i as int]@));
                assert(views(self.entities@.take(i as int)).push(
                    self.entities@[i as int]@,
                ).drop_last() =~= views(self.entities@.take(i as int)));
            }
        }
        buf.append("</svg>");
        proof {
            assert(self.entities@.take(n as int) =~= self.entities@);
        }
        buf
    }

    /// Grows the bounding box to cover the point `(x, y)`.
    fn ensure(&mut self, x: Frac, y: Frac)
        requires
            old(self).width.den > 0,
            old(self).height.den > 0,
            x.den > 0,
            y.den > 0,
        ensures
            final(self).width == old(self).width.spec_max(x),
            final(self).height == old(self).height.spec_max(y),
            final(self).entities == old(self).entities,
    {
        self.width = self.width.max(x);
        self.height = self.height.max(y);
    }

    /// Appends an outline rectangle and covers its corners.
    pub fn rect(&mut self, x: Frac, y: Frac, w: Frac, h: Frac)
        requires
            old(self).wf(),
            x.wf(),
            y.wf(),
            w.wf(),
            h.wf(),
            w.den == x.den,
            h.den == y.den,
        ensures
            final(self).entities@ == old(self).entities@.push(Prim::Rect(x, y, w, h)),
            final(self).width == grow_x(old(self).width, Prim::Rect(x, y, w, h)@),
            final(self).height == grow_y(old(self).height, Prim::Rect(x, y, w, h)@),
            final(self).wf(),
            old(self).bounds_ok() ==> final(self).bounds_ok(),
    {
        let p = Prim::Rect(x, y, w, h);
        self.push_rect_family(x, y, w, h, p);
    }

    /// Appends a filled rectangle and covers its corners.
    pub fn rect_fill(&mut self, x: Frac, y: Frac, w: Frac, h: Frac)
        requires
            old(self).wf(),
            x.wf(),
            y.wf(),
            w.wf(),
            h.wf(),
            w.den == x.den,
            h.den == y.den,
        ensures
            final(self).entities@ == old(self).entities@.push(Prim::FillRect(x, y, w, h)),
            final(self).width == grow_x(old(self).width, Prim::FillRect(x, y, w, h)@),
            final(self).height == grow_y(old(self).height, Prim::FillRect(x, y, w, h)@),
            final(self).wf(),
            old(self).bounds_ok() ==> final(self).bounds_ok(),
    {
        let p = Prim::FillRect(x, y, w, h);
        self.push_rect_family(x, y, w, h, p);
    }

    /// Appends a diagnostic outline rectangle and covers its corners.
    pub fn rect_debug(&mut self, x: Frac, y: Frac, w: Frac, h: Frac)
        requires
            old(self).wf(),
            x.wf(),
            y.wf(),
            w.wf(),
            h.wf(),
            w.den == x.den,
            h.den == y.den,
        ensures
            final(self).entities@ == old(self).entities@.push(Prim::DebugRect(x, y, w, h)),
            final(self).width == grow_x(old(self).width, Prim::DebugRect(x, y, w, h)@),
            final(self).height == grow_y(old(self).height, Prim::DebugRect(x, y, w, h)@),
            final(self).wf(),
            old(self).bounds_ok() ==> final(self).bounds_ok(),
    {
        let p = Prim::DebugRect(x, y, w, h);
        self.push_rect_family(x, y, w, h, p);
    }

    /// Shared body of the rectangle operations: `p` must be the rectangle
    /// primitive built from the four coordinates.
    fn push_rect_family(&mut self, x: Frac, y: Frac, w: Frac, h: Frac, p: Prim)
        requires
            old(self).wf(),
            x.wf(),
            y.wf(),
            w.wf(),
            h.wf(),
            w.den == x.den,
            h.den == y.den,
            p == Prim::Rect(x, y, w, h) || p == Prim::FillRect(x, y, w, h) || p == Prim::DebugRect(
                x,
                y,
                w,
                h,
            ),
        ensures
            final(self).entities@ == old(self).entities@.push(p),
            final(self).width == grow_x(old(self).width, p@),
            final(self).height == grow_y(old(self).height, p@),
            final(self).wf(),
            old(self).bounds_ok() ==> final(self).bounds_ok(),
    {
        self.ensure(x, y);
        let cx = Frac { num: x.num + w.num, den: x.den };
        let cy = Frac { num: y.num + h.num, den: y.den };
        self.ensure(cx, cy);
        let ghost before = self.entities@;
        self.entities.push(p);
        proof {
            assert(self.entities@.drop_last() =~= before);
            lemma_views_push(before, p);
            assert(views(self.entities@).drop_last() =~= views(before));
            assert forall|i: int| 0 <= i < self.entities@.len() implies #[trigger] prim_wf(
                self.entities@[i],
            ) by {
                if i < before.len() {
                    assert(prim_wf(before[i]));
                }
            }
        }
    }

    /// Appends a diagnostic point, a one-by-one rectangle at `(x, y)`.
    pub fn point_debug(&mut self, x: Frac, y: Frac)
        requires
            old(self).wf(),
            x.wf(),
            y.wf(),
        ensures
            final(self).entities@ == old(self).entities@.push(Prim::Point(x, y)),
            final(self).width == grow_x(old(self).width, Prim::Point(x, y)@),
            final(self).height == grow_y(old(self).height, Prim::Point(x, y)@),
            final(self).wf(),
            old(self).bounds_ok() ==> final(self).bounds_ok(),
    {
        self.ensure(x, y);
        let cx = Frac { num: x.num + x.den, den: x.den };
        let cy = Frac { num: y.num + y.den, den: y.den };
        self.ensure(cx, cy);
        let ghost before = self.entities@;
        self.entities.push(Prim::Point(x, y));
        proof {
            assert(self.entities@.drop_last() =~= before);
            lemma_views_push(before, Prim::Point(x, y));
            assert(views(self.entities@).drop_last() =~= views(before));
            assert forall|i: int| 0 <= i < self.entities@.len() implies #[trigger] prim_wf(
                self.entities@[i],
            ) by {
                if i < before.len() {
                    assert(prim_wf(before[i]));
                }
            }
        }
    }

    /// Appends a literal text label anchored at `(x, y)`.
    pub fn text(&mut self, x: Frac, y: Frac, text: String)
        requires
            old(self).wf(),
            x.wf(),
            y.wf(),
        ensures
            final(self).entities@ == old(self).entities@.push(Prim::Text(x, y, text)),
            final(self).width == grow_x(old(self).width, Prim::Text(x, y, text)@),
            final(self).height == grow_y(old(self).height, Prim::Text(x, y, text)@),
            final(self).wf(),
            old(self).bounds_ok() ==> final(self).bounds_ok(),
    {
        self.ensure(x, y);
        self.ensure(x, y);
        let ghost before = self.entities@;
        self.entities.push(Prim::Text(x, y, text));
        proof {
            assert(self.entities@.drop_last() =~= before);
            lemma_views_push(before, Prim::Text(x, y, text));
            assert(views(self.entities@).drop_last() =~= views(before));
            assert forall|i: int| 0 <= i < self.entities@.len() implies #[trigger] prim_wf(
                self.entities@[i],
            ) by {
                if i < before.len() {
                    assert(prim_wf(before[i]));
                }
            }
        }
    }

    /// Appends a stroked path string translated to the origin `(x, y)`.
    pub fn line_path(&mut self, x: Frac, y: Frac, path: String)
        requires
            old(self).wf(),
            x.wf(),
            y.wf(),
        ensures
            final(self).entities@ == old(self).entities@.push(Prim::LinePath(x, y, path)),
            final(self).width == grow_x(old(self).width, Prim::LinePath(x, y, path)@),
            final(self).height == grow_y(old(self).height, Prim::LinePath(x, y, path)@),
            final(self).wf(),
            old(self).bounds_ok() ==> final(self).bounds_ok(),
    {
        self.ensure(x, y);
        self.ensure(x, y);
        let ghost before = self.entities@;
        self.entities.push(Prim::LinePath(x, y, path));
        proof {
            assert(self.entities@.drop_last() =~= before);
            lemma_views_push(before, Prim::LinePath(x, y, path));
            assert(views(self.entities@).drop_last() =~= views(before));
            assert forall|i: int| 0 <= i < self.entities@.len() implies #[trigger] prim_wf(
                self.entities@[i],
            ) by {
                if i < before.len() {
                    assert(prim_wf(before[i]));
                }
            }
        }
    }

    /// Appends a straight segment and covers both endpoints.
    pub fn line(&mut self, x: Frac, y: Frac, xx: Frac, yy: Frac)
        requires
            old(self).wf(),
            x.wf(),
            y.wf(),
            xx.wf(),
            yy.wf(),
        ensures
            final(self).entities@ == old(self).entities@.push(Prim::Line(x, y, xx, yy)),
            final(self).width == grow_x(old(self).width, Prim::Line(x, y, xx, yy)@),
            final(self).height == grow_y(old(self).height, Prim::Line(x, y, xx, yy)@),
            final(self).wf(),
            old(self).bounds_ok() ==> final(self).bounds_ok(),
    {
        self.ensure(x, y);
        self.ensure(xx, yy);
        let ghost before = self.entities@;
        self.entities.push(Prim::Line(x, y, xx, yy));
        proof {
            assert(self.entities@.drop_last() =~= before);
            lemma_views_push(before, Prim::Line(x, y, xx, yy));
            assert(views(self.entities@).drop_last() =~= views(before));
            assert forall|i: int| 0 <= i < self.entities@.len() implies #[trigger] prim_wf(
                self.entities@[i],
            ) by {
                if i < before.len() {
                    assert(prim_wf(before[i]));
                }
            }
        }
    }

    /// Appends a circle and covers the square around it: centre plus and
    /// minus the radius in both directions.
    pub fn circle(&mut self, x: Frac, y: Frac, radius: Frac, fill: bool)
        requires
            old(self).wf(),
            x.wf(),
            y.wf(),
            radius.wf(),
            radius.den == x.den,
            radius.den == y.den,
        ensures
            final(self).entities@ == old(self).entities@.push(Prim::Circle(x, y, radius, fill)),
            final(self).width == grow_x(old(self).width, Prim::Circle(x, y, radius, fill)@),
            final(self).height == grow_y(old(self).height, Prim::Circle(x, y, radius, fill)@),
            final(self).wf(),
            old(self).bounds_ok() ==> final(self).bounds_ok(),
    {
        let lx = Frac { num: x.num - radius.num, den: x.den };
        let ly = Frac { num: y.num - radius.num, den: y.den };
        let hx = Frac { num: x.num + radius.num, den: x.den };
        let hy = Frac { num: y.num + radius.num, den: y.den };
        self.ensure(lx, ly);
        self.ensure(hx, hy);
        let ghost before = self.entities@;
        self.entities.push(Prim::Circle(x, y, radius, fill));
        proof {
            assert(self.entities@.drop_last() =~= before);
            lemma_views_push(before, Prim::Circle(x, y, radius, fill));
            assert(views(self.entities@).drop_last() =~= views(before));
            assert forall|i: int| 0 <= i < self.entities@.len() implies #[trigger] prim_wf(
                self.entities@[i],
            ) by {
                if i < before.len() {
                    assert(prim_wf(before[i]));
                }
            }
        }
    }
}

} // verus!
