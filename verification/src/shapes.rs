//! Parametric shape primitives: each shape is defined by a small parameter set
//! and an icon is a background plus an ordered list of shape layers.

use vstd::prelude::*;

verus! {

/// RGBA colour in 0-255 range.
#[derive(Debug, Clone, Copy, PartialEq, Eq, Structural)]
pub struct Rgba {
    pub r: u8,
    pub g: u8,
    pub b: u8,
    pub a: u8,
}

impl Rgba {
    pub fn new(r: u8, g: u8, b: u8, a: u8) -> (c: Self)
        ensures
            c == (Rgba { r, g, b, a }),
    {
        Self { r, g, b, a }
    }
}

/// A size relative to the canvas (0.0–1.0 by convention), held as the bit
/// pattern of its IEEE-754 binary64 value. Shapes carry it unchanged; only the
/// rasterizer reads it as a number.
#[derive(Debug, Clone, Copy, PartialEq, Eq, Structural)]
pub struct Ratio {
    pub bits: u64,
}

/// The bit pattern of the binary64 value 0.5.
pub const HALF_BITS: u64 = 0x3FE0_0000_0000_0000;

/// A shape that can be drawn onto a pixmap.
#[derive(Debug, Clone, Copy, PartialEq, Eq, Structural)]
pub enum IconShape {
    /// Filled circle centred in the canvas. `radius` is 0.0–1.0 relative.
    Circle { radius: Ratio, color: Rgba },
    /// Rounded rectangle. `corner_radius` is 0.0–1.0 relative.
    RoundedRect { corner_radius: Ratio, color: Rgba },
    /// Regular polygon (triangle, hexagon, …).
    Polygon { sides: u32, color: Rgba },
    /// Ring / donut. `inner` and `outer` are 0.0–1.0 relative radii.
    Ring { inner: Ratio, outer: Ratio, color: Rgba },
}

/// A full icon definition: background + ordered layers.
#[derive(Debug, Clone)]
pub struct IconDef {
    pub background: Option<Rgba>,
    pub layers: Vec<IconShape>,
}

/// The number of vertices drawn for a regular polygon asked to have `sides`
/// sides: at least three.
pub open spec fn polygon_vertices(sides: u32) -> nat {
    if sides < 3 {
        3
    } else {
        sides as nat
    }
}

/// The number of vertices a regular polygon with `sides` sides is drawn with.
pub fn polygon_vertex_count(sides: u32) -> (n: usize)
    ensures
        n == polygon_vertices(sides),
{
    if sides < 3 {
        3
    } else {
        sides as usize
    }
}

} // verus!
