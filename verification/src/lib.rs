//! A typesetting engine for staff notation.
//!
//! Musical tokens go in, a laid-out page of staves comes out, and the page is
//! drawn onto a small vector canvas that serializes to an SVG-like document.
//! All geometry is exact: unscaled lengths are integers in half-units (one
//! half-unit is one half of the nominal length unit), and scaled coordinates
//! are rational numbers, so justification is a single exact linear scale.

pub mod frac;
pub mod music;
pub mod token;
pub mod numfmt;
pub mod svg;
pub mod tune_ast;
pub mod typeset;
