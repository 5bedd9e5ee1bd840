use vstd::prelude::*;

verus! {

/// A window's position and size on screen.
#[derive(Clone, Copy, Debug, PartialEq, Eq, Structural)]
pub struct Geometry {
    pub x: i32,
    pub y: i32,
    pub width: i32,
    pub height: i32,
}

/// A window's outer rectangle as the windowing system reports it.
#[derive(Clone, Copy, Debug, PartialEq, Eq, Structural)]
pub struct Rect {
    pub left: i32,
    pub top: i32,
    pub right: i32,
    pub bottom: i32,
}

pub open spec fn fits_i32(v: int) -> bool {
    i32::MIN <= v <= i32::MAX
}

/// The geometry of a rectangle, where its width and height fit an `i32`.
pub open spec fn spec_rect_geometry(r: Rect) -> Option<Geometry> {
    if fits_i32(r.right - r.left) && fits_i32(r.bottom - r.top) {
        Some(
            Geometry {
                x: r.left,
                y: r.top,
                width: (r.right - r.left) as i32,
                height: (r.bottom - r.top) as i32,
            },
        )
    } else {
        None
    }
}

/// The geometry configured for a slot: slot `k` takes record `k - 1` of the layout.
pub open spec fn spec_slot_geometry(layout: Seq<Option<Geometry>>, slot: usize) -> Option<Geometry> {
    if 1 <= slot <= layout.len() {
        layout[slot - 1]
    } else {
        None
    }
}

/// The geometry of a rectangle, or `None` where its width or height does not fit an `i32`.
pub fn rect_geometry(r: Rect) -> (g: Option<Geometry>)
    ensures
        g == spec_rect_geometry(r),
{
    let w = r.right as i64 - r.left as i64;
    let h = r.bottom as i64 - r.top as i64;
    if w < i32::MIN as i64 || w > i32::MAX as i64 || h < i32::MIN as i64 || h > i32::MAX as i64 {
        None
    } else {
        Some(Geometry { x: r.left, y: r.top, width: w as i32, height: h as i32 })
    }
}

/// The geometry configured for `slot`, if the layout has a record for it.
pub fn slot_geometry(layout: &Vec<Option<Geometry>>, slot: usize) -> (g: Option<Geometry>)
    ensures
        g == spec_slot_geometry(layout@, slot),
{
    if slot >= 1 && slot <= layout.len() {
        layout[slot - 1]
    } else {
        None
    }
}

/// The geometries that two windows take when they swap: the first takes the second's, the
/// second the first's. Where either window's rectangle could not be read, neither moves.
pub fn swap_geometry(a: Option<Rect>, b: Option<Rect>) -> (r: Option<(Geometry, Geometry)>)
    ensures
        r == match (a, b) {
            (Some(ra), Some(rb)) => match (spec_rect_geometry(ra), spec_rect_geometry(rb)) {
                (Some(ga), Some(gb)) => Some((gb, ga)),
                _ => None,
            },
            _ => None,
        },
{
    match (a, b) {
        (Some(ra), Some(rb)) => match (rect_geometry(ra), rect_geometry(rb)) {
            (Some(ga), Some(gb)) => Some((gb, ga)),
            _ => None,
        },
        _ => None,
    }
}

} // verus!
