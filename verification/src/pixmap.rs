//! A square-or-rectangular canvas of premultiplied RGBA pixels, the form in which
//! rendered icons reach the export layer.

use vstd::prelude::*;

verus! {

/// A raster of `width * height` pixels, row-major, four bytes per pixel in the
/// order red, green, blue, alpha, with the colour channels premultiplied by alpha.
pub struct Pixmap {
    width: u32,
    height: u32,
    data: Vec<u8>,
}

/// The shape every pixmap keeps: both sides at least one pixel and exactly four
/// bytes per pixel.
pub open spec fn pixmap_shape_ok(width: u32, height: u32, data: Seq<u8>) -> bool {
    &&& width >= 1
    &&& height >= 1
    &&& data.len() == width * height * 4
}

impl View for Pixmap {
    /// (width, height, premultiplied RGBA bytes)
    type V = (u32, u32, Seq<u8>);

    closed spec fn view(&self) -> (u32, u32, Seq<u8>) {
        (self.width, self.height, self.data@)
    }
}

impl Pixmap {
    #[verifier::type_invariant]
    spec fn shape_ok(self) -> bool {
        pixmap_shape_ok(self.width, self.height, self.data@)
    }

    /// Wraps premultiplied RGBA bytes as a `width` x `height` pixmap.
    /// Returns `None` when a side is zero or the byte count is not
    /// `width * height * 4`.
    pub fn from_vec(data: Vec<u8>, width: u32, height: u32) -> (p: Option<Pixmap>)
        ensures
            p is Some <==> pixmap_shape_ok(width, height, data@),
            p matches Some(p) ==> p@ == (width, height, data@),
    {
        if width == 0 || height == 0 {
            return None;
        }
        let w = width as usize;
        let h = height as usize;
        let n = data.len();
        // The expected length is compared without forming a product that could overflow.
        if n % 4 != 0 {
            return None;
        }
        let pixels = n / 4;
        if pixels % w != 0 || pixels / w != h {
            proof {
                assert(data@.len() != width * height * 4) by (nonlinear_arith)
                    requires
                        n == data@.len(),
                        pixels == n / 4,
                        w == width,
                        h == height,
                        w >= 1,
                        n % 4 != 0 || pixels % w != 0 || pixels / w != h,
                ;
            }
            return None;
        }
        proof {
            assert(data@.len() == width * height * 4) by (nonlinear_arith)
                requires
                    n == data@.len(),
                    n % 4 == 0,
                    pixels == n / 4,
                    w == width,
                    h == height,
                    w >= 1,
                    pixels % w == 0,
                    pixels / w == h,
            ;
        }
        Some(Pixmap { width, height, data })
    }

    /// Width in pixels (at least one).
    pub fn width(&self) -> (w: u32)
        ensures
            w == self@.0,
            pixmap_shape_ok(self@.0, self@.1, self@.2),
    {
        proof {
            use_type_invariant(self);
        }
        self.width
    }

    /// Height in pixels (at least one).
    pub fn height(&self) -> (h: u32)
        ensures
            h == self@.1,
            pixmap_shape_ok(self@.0, self@.1, self@.2),
    {
        proof {
            use_type_invariant(self);
        }
        self.height
    }

    /// The premultiplied RGBA bytes, row by row.
    pub fn data(&self) -> (d: &[u8])
        ensures
            d@ == self@.2,
            pixmap_shape_ok(self@.0, self@.1, self@.2),
    {
        proof {
            use_type_invariant(self);
        }
        self.data.as_slice()
    }
}

/// Straight (not premultiplied) value of a colour channel `c` of a pixel whose
/// alpha is `a`: zero when the pixel is fully transparent, otherwise
/// `c * 255 / a` rounded down and cut to its low eight bits.
pub open spec fn unpremultiplied(c: u8, a: u8) -> u8 {
    if a == 0 {
        0
    } else {
        ((c as int * 255) / (a as int)) as u8
    }
}

/// Straight RGBA bytes for premultiplied RGBA bytes: a fully transparent pixel
/// becomes four zero bytes; any other pixel keeps its alpha and has each colour
/// channel unpremultiplied.
pub open spec fn straight_rgba(premultiplied: Seq<u8>) -> Seq<u8> {
    Seq::new(
        premultiplied.len(),
        |i: int|
            {
                let a = premultiplied[i - i % 4 + 3];
                if i % 4 == 3 {
                    a
                } else {
                    unpremultiplied(premultiplied[i], a)
                }
            },
    )
}

/// Per pixel, the conversion to straight alpha keeps the alpha byte, leaves a
/// fully opaque pixel unchanged and turns a fully transparent pixel into zeros;
/// it keeps the number of bytes.
pub proof fn lemma_straight_rgba_pixel(p: Seq<u8>, k: int)
    requires
        0 <= k,
        4 * k + 3 < p.len(),
    ensures
        straight_rgba(p).len() == p.len(),
        straight_rgba(p)[4 * k + 3] == p[4 * k + 3],
        p[4 * k + 3] == 255 ==> forall|j: int|
            0 <= j < 4 ==> #[trigger] straight_rgba(p)[4 * k + j] == p[4 * k + j],
        p[4 * k + 3] == 0 ==> forall|j: int| 0 <= j < 4 ==> #[trigger] straight_rgba(p)[4 * k + j] == 0,
        p[4 * k + 3] > 0 ==> forall|j: int|
            0 <= j < 3 ==> #[trigger] straight_rgba(p)[4 * k + j] == ((p[4 * k + j] as int * 255) / (
            p[4 * k + 3] as int)) as u8,
        p[4 * k + 3] > 0 ==> forall|j: int|
            0 <= j < 3 && p[4 * k + j] <= p[4 * k + 3] ==> #[trigger] straight_rgba(p)[4 * k + j] as int
                == (p[4 * k + j] as int * 255) / (p[4 * k + 3] as int),
{
    assert((4 * k + 3) % 4 == 3);
    if p[4 * k + 3] > 0 {
        assert forall|j: int| 0 <= j < 3 implies #[trigger] straight_rgba(p)[4 * k + j] == ((p[4 * k
            + j] as int * 255) / (p[4 * k + 3] as int)) as u8 by {
            assert((4 * k + j) % 4 == j);
        }
        assert forall|j: int| 0 <= j < 3 && p[4 * k + j] <= p[4 * k + 3] implies #[trigger] straight_rgba(
            p,
        )[4 * k + j] as int == (p[4 * k + j] as int * 255) / (p[4 * k + 3] as int) by {
            assert((4 * k + j) % 4 == j);
            lemma_unpremultiplied_in_range(p[4 * k + j], p[4 * k + 3]);
        }
    }
    if p[4 * k + 3] == 255 {
        assert forall|j: int| 0 <= j < 4 implies #[trigger] straight_rgba(p)[4 * k + j] == p[4 * k
            + j] by {
            assert((4 * k + j) % 4 == j);
            if j < 3 {
                let c = p[4 * k + j];
                assert((c as int * 255) / 255 == c as int);
            }
        }
    }
    if p[4 * k + 3] == 0 {
        assert forall|j: int| 0 <= j < 4 implies #[trigger] straight_rgba(p)[4 * k + j] == 0 by {
            assert((4 * k + j) % 4 == j);
        }
    }
}

/// A straight colour channel is exact (not cut) when the premultiplied value
/// does not exceed alpha, as in every premultiplied pixel.
pub proof fn lemma_unpremultiplied_in_range(c: u8, a: u8)
    requires
        c <= a,
        a > 0,
    ensures
        unpremultiplied(c, a) as int == (c as int * 255) / (a as int),
        unpremultiplied(c, a) >= c,
{
    assert((c as int * 255) / (a as int) <= 255) by (nonlinear_arith)
        requires
            c <= a,
            a > 0,
    ;
    assert((c as int * 255) / (a as int) >= c) by (nonlinear_arith)
        requires
            c <= a,
            a > 0,
            a <= 255,
    ;
}

/// Whether every pixel of RGBA bytes is the same as the first: each byte equals
/// the byte in the same channel of the first pixel.
pub open spec fn uniform_pixels(rgba: Seq<u8>) -> bool {
    forall|i: int| 0 <= i < rgba.len() ==> #[trigger] rgba[i] == rgba[i % 4]
}

/// A pixmap of one premultiplied colour has one straight colour.
pub proof fn lemma_uniform_straight(p: Seq<u8>)
    requires
        p.len() % 4 == 0,
        uniform_pixels(p),
    ensures
        uniform_pixels(straight_rgba(p)),
{
    assert forall|i: int| 0 <= i < straight_rgba(p).len() implies #[trigger] straight_rgba(p)[i]
        == straight_rgba(p)[i % 4] by {
        let q = i % 4;
        let n = i / 4;
        assert(i == 4 * n + q && 0 <= q < 4);
        assert(p.len() == 4 * (p.len() / 4));
        assert(4 * n + 3 < p.len());
        lemma_pixel_base(i);
        lemma_pixel_base(q);
        assert(p[4 * n + 3] == p[(4 * n + 3) % 4]);
        lemma_pixel_base(4 * n + 3);
        assert(p[i] == p[q]);
    }
}

proof fn lemma_pixel_base(i: int)
    requires
        0 <= i,
    ensures
        i - i % 4 == 4 * (i / 4),
        0 <= i % 4 < 4,
        (i % 4) % 4 == i % 4,
        (i % 4) / 4 == 0,
        (4 * (i / 4) + 3) % 4 == 3,
{
}

} // verus!
