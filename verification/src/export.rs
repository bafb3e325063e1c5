//! Export layer: encode rendered pixmaps to the platform icon formats
//! (PNG for all platforms, ICO for Windows, ICNS for macOS, WebP for Android
//! and the web).

use vstd::prelude::*;

use crate::pixmap::{lemma_uniform_straight, pixmap_shape_ok, straight_rgba, uniform_pixels, Pixmap};

verus! {

/// Why an export failed.
#[derive(Debug)]
pub enum ExportError {
    /// The image encoder (PNG or WebP) failed, with its message.
    Encode(String),
    /// Building or writing the ICO file failed, with the message.
    Ico(String),
    /// Building or writing the ICNS file failed, with the message.
    Icns(String),
    /// No ICNS icon type has this pixel size.
    UnsupportedIcnsSize(u32),
    /// The pixmap holds no pixel data.
    EmptyPixmap,
}

/// The mathematical value of an [`ExportError`]: messages as character sequences.
pub enum ExportErrorView {
    Encode(Seq<char>),
    Ico(Seq<char>),
    Icns(Seq<char>),
    UnsupportedIcnsSize(u32),
    EmptyPixmap,
}

impl View for ExportError {
    type V = ExportErrorView;

    open spec fn view(&self) -> ExportErrorView {
        match self {
            ExportError::Encode(m) => ExportErrorView::Encode(m@),
            ExportError::Ico(m) => ExportErrorView::Ico(m@),
            ExportError::Icns(m) => ExportErrorView::Icns(m@),
            ExportError::UnsupportedIcnsSize(s) => ExportErrorView::UnsupportedIcnsSize(*s),
            ExportError::EmptyPixmap => ExportErrorView::EmptyPixmap,
        }
    }
}

/// The value of an export's outcome: the bytes written, or the error.
pub open spec fn export_view(r: Result<Vec<u8>, ExportError>) -> Result<Seq<u8>, ExportErrorView> {
    match r {
        Ok(bytes) => Ok(bytes@),
        Err(e) => Err(e@),
    }
}

/// The single-image raster formats that the `image` crate encodes here.
#[derive(Debug, Clone, Copy, PartialEq, Eq, Structural)]
pub enum RasterFormat {
    Png,
    WebP,
}

/// The bytes (or the error message) that the `image` crate's encoder for
/// `format` produces from a `width` x `height` straight RGBA8 image.
pub uninterp spec fn image_encoding(
    format: RasterFormat,
    width: u32,
    height: u32,
    rgba: Seq<u8>,
) -> Result<Seq<u8>, Seq<char>>;

/// Calls `image::RgbaImage::from_raw` and `write_to` with the format.
/// Claims only that the result is the named encoding of exactly these
/// arguments; `from_raw` succeeds because the byte count matches the size.
#[verifier::external_body]
fn encode_rgba(format: RasterFormat, width: u32, height: u32, rgba: Vec<u8>) -> (r: Result<
    Vec<u8>,
    String,
>)
    requires
        rgba@.len() == width * height * 4,
    ensures
        match r {
            Ok(bytes) => image_encoding(format, width, height, rgba@) == Ok::<Seq<u8>, Seq<char>>(
                bytes@,
            ),
            Err(msg) => image_encoding(format, width, height, rgba@) == Err::<Seq<u8>, Seq<char>>(
                msg@,
            ),
        },
{
    let img = image::RgbaImage::from_raw(width, height, rgba).unwrap();
    let fmt = match format {
        RasterFormat::Png => image::ImageFormat::Png,
        RasterFormat::WebP => image::ImageFormat::WebP,
    };
    let mut buf = std::io::Cursor::new(Vec::new());
    match img.write_to(&mut buf, fmt) {
        Ok(()) => Ok(buf.into_inner()),
        Err(e) => Err(e.to_string()),
    }
}

/// Calls `image::DynamicImage::resize_exact` with `FilterType::Lanczos3` on the
/// image made by `RgbaImage::from_raw`, then `to_rgba8`. Claims only what holds
/// of every outcome: the result holds `target * target` pixels, and resizing to
/// the image's own size copies it (`imageops::resize` returns a copy when the
/// dimensions are unchanged), and an image of one colour resizes to an image of
/// that colour: both sampling passes divide their weights by the weights' sum,
/// so each output value is the colour times a sum of one up to `f32` rounding
/// over at most one source side (here at most 4096 samples), far below the half
/// unit at which the final rounding to `u8` could change it. The resampled
/// values in general are left unsaid: the Lanczos3 kernel calls `f32::sin`,
/// whose precision std leaves to the platform. The `requires` keeps the buffers
/// that the crate allocates within `usize`.
#[verifier::external_body]
fn resize_lanczos3(width: u32, height: u32, rgba: Vec<u8>, target: u32) -> (r: Vec<u8>)
    requires
        rgba@.len() == width * height * 4,
        width * target * 4 <= usize::MAX,
        target * target * 4 <= usize::MAX,
    ensures
        r@.len() == target * target * 4,
        width == target && height == target ==> r@ == rgba@,
        1 <= width <= 4096 && 1 <= height <= 4096 && target >= 1 && uniform_pixels(rgba@) ==> (
        uniform_pixels(r@) && r@.subrange(0, 4) == rgba@.subrange(0, 4)),
{
    let img = image::DynamicImage::ImageRgba8(
        image::RgbaImage::from_raw(width, height, rgba).unwrap(),
    );
    img.resize_exact(target, target, image::imageops::FilterType::Lanczos3).to_rgba8().into_raw()
}

/// Converts a pixmap's premultiplied RGBA to straight RGBA, pixel by pixel.
pub fn pixmap_to_rgba(pixmap: &Pixmap) -> (rgba: Vec<u8>)
    ensures
        rgba@ == straight_rgba(pixmap@.2),
        rgba@.len() == pixmap@.0 * pixmap@.1 * 4,
{
    let data = pixmap.data();
    let n = data.len();
    let mut buf: Vec<u8> = Vec::new();
    let mut i: usize = 0;
    while i < n
        invariant
            n == data@.len(),
            data@ == pixmap@.2,
            n % 4 == 0,
            i % 4 == 0,
            i <= n,
            buf@.len() == i,
            forall|j: int| 0 <= j < i ==> buf@[j] == straight_rgba(data@)[j],
        decreases n - i,
    {
        let r = data[i];
        let g = data[i + 1];
        let b = data[i + 2];
        let a = data[i + 3];
        proof {
            assert((i + 1) % 4 == 1 && (i + 2) % 4 == 2 && (i + 3) % 4 == 3);
            assert((i + 1) - (i + 1) % 4 == i && (i + 2) - (i + 2) % 4 == i && (i + 3) - (i + 3)
                % 4 == i);
        }
        if a == 0 {
            buf.push(0);
            buf.push(0);
            buf.push(0);
            buf.push(0);
        } else {
            let sr = ((r as u16 * 255) / a as u16) as u8;
            let sg = ((g as u16 * 255) / a as u16) as u8;
            let sb = ((b as u16 * 255) / a as u16) as u8;
            buf.push(sr);
            buf.push(sg);
            buf.push(sb);
            buf.push(a);
        }
        i += 4;
    }
    buf
}

/// Whether `rgba` can be pixmap `p` (given by its view) resized to `target` x
/// `target`: it holds that many straight RGBA pixels, and at `p`'s own square
/// size it is `p`'s straight pixels.
pub open spec fn is_resize_of(p: (u32, u32, Seq<u8>), target: u32, rgba: Seq<u8>) -> bool {
    &&& rgba.len() == target * target * 4
    &&& p.0 == target && p.1 == target ==> rgba == straight_rgba(p.2)
    &&& keeps_uniform_colour(p, target, rgba)
}

/// Whether a pixmap (at most 4096 pixels a side) of one straight colour
/// resizes to `rgba` of that same colour.
pub open spec fn keeps_uniform_colour(p: (u32, u32, Seq<u8>), target: u32, rgba: Seq<u8>) -> bool {
    pixmap_shape_ok(p.0, p.1, p.2) && p.0 <= 4096 && p.1 <= 4096 && target >= 1 && uniform_pixels(
        straight_rgba(p.2),
    ) ==> uniform_pixels(rgba) && rgba.subrange(0, 4) == straight_rgba(p.2).subrange(0, 4)
}

/// Whether the `image` crate can resize this pixmap to `target` within `usize`.
pub open spec fn resizable(p: (u32, u32, Seq<u8>), target: u32) -> bool {
    &&& p.0 * target * 4 <= usize::MAX
    &&& target * target * 4 <= usize::MAX
}

/// Resizes a pixmap to `target` x `target` straight RGBA pixels with Lanczos3;
/// at the pixmap's own (square) size the straight pixels come back unchanged,
/// and a pixmap of one colour resizes to that colour.
pub fn resize_pixmap(pixmap: &Pixmap, target: u32) -> (rgba: Vec<u8>)
    requires
        resizable(pixmap@, target),
    ensures
        is_resize_of(pixmap@, target, rgba@),
{
    let w = pixmap.width();
    let h = pixmap.height();
    let img = pixmap_to_rgba(pixmap);
    resize_lanczos3(w, h, img, target)
}

/// Whether every pixel of `rgba` is `colour` (four bytes).
pub open spec fn filled_with(rgba: Seq<u8>, colour: Seq<u8>) -> bool {
    forall|i: int| 0 <= i < rgba.len() ==> #[trigger] rgba[i] == colour[i % 4]
}

/// The straight colour of a pixmap's first pixel.
pub open spec fn first_straight_colour(p: (u32, u32, Seq<u8>)) -> Seq<u8> {
    straight_rgba(p.2).subrange(0, 4)
}

/// Resizing carries the picture: a pixmap (at most 4096 pixels a side) all of
/// one colour resizes, at any size, to `target * target` pixels all of its
/// straight colour, which for an opaque colour is the colour itself.
pub proof fn lemma_resize_of_one_colour(p: (u32, u32, Seq<u8>), target: u32, rgba: Seq<u8>)
    requires
        is_resize_of(p, target, rgba),
        pixmap_shape_ok(p.0, p.1, p.2),
        p.0 <= 4096 && p.1 <= 4096,
        target >= 1,
        uniform_pixels(p.2),
    ensures
        rgba.len() == target * target * 4,
        filled_with(rgba, first_straight_colour(p)),
        p.2[3] == 255 ==> first_straight_colour(p) == p.2.subrange(0, 4),
{
    assert(rgba.len() >= 4) by (nonlinear_arith)
        requires
            rgba.len() == target * target * 4,
            target >= 1,
    ;
    assert(p.2.len() % 4 == 0) by (nonlinear_arith)
        requires
            p.2.len() == p.0 * p.1 * 4,
    ;
    assert(p.2.len() >= 4) by (nonlinear_arith)
        requires
            p.2.len() == p.0 * p.1 * 4,
            p.0 >= 1,
            p.1 >= 1,
    ;
    lemma_uniform_straight(p.2);
    assert(keeps_uniform_colour(p, target, rgba));
    assert(uniform_pixels(rgba) && rgba.subrange(0, 4) == first_straight_colour(p));
    lemma_filled_from_uniform(rgba, first_straight_colour(p));
    if p.2[3] == 255 {
        lemma_opaque_first_pixel(p.2);
    }
}

proof fn lemma_filled_from_uniform(rgba: Seq<u8>, colour: Seq<u8>)
    requires
        uniform_pixels(rgba),
        rgba.len() >= 4,
        rgba.subrange(0, 4) == colour,
    ensures
        filled_with(rgba, colour),
{
    assert forall|i: int| 0 <= i < rgba.len() implies #[trigger] rgba[i] == colour[i % 4] by {
        let q = i % 4;
        assert(0 <= q < 4);
        assert(rgba[i] == rgba[q]);
        assert(rgba.subrange(0, 4)[q] == rgba[q]);
    }
}

proof fn lemma_opaque_first_pixel(d: Seq<u8>)
    requires
        d.len() >= 4,
        d[3] == 255,
    ensures
        straight_rgba(d).subrange(0, 4) == d.subrange(0, 4),
{
    crate::pixmap::lemma_straight_rgba_pixel(d, 0);
    assert(straight_rgba(d)[0] == d[0]);
    assert(straight_rgba(d)[1] == d[1]);
    assert(straight_rgba(d)[2] == d[2]);
    assert(straight_rgba(d).subrange(0, 4) =~= d.subrange(0, 4));
}

/// The outcome of encoding with `format`, an encoder failure reported as `Encode`.
pub open spec fn encoded_export(
    format: RasterFormat,
    width: u32,
    height: u32,
    rgba: Seq<u8>,
) -> Result<Seq<u8>, ExportErrorView> {
    match image_encoding(format, width, height, rgba) {
        Ok(bytes) => Ok(bytes),
        Err(msg) => Err(ExportErrorView::Encode(msg)),
    }
}

/// The outcome of exporting a pixmap at its own size.
pub open spec fn raster_export(format: RasterFormat, p: (u32, u32, Seq<u8>)) -> Result<
    Seq<u8>,
    ExportErrorView,
> {
    encoded_export(format, p.0, p.1, straight_rgba(p.2))
}

/// Encodes `width` x `height` straight RGBA pixels with the raster `format`,
/// an encoder failure reported as `Encode`.
pub fn encode_image(format: RasterFormat, width: u32, height: u32, rgba: Vec<u8>) -> (r: Result<
    Vec<u8>,
    ExportError,
>)
    requires
        rgba@.len() == width * height * 4,
    ensures
        export_view(r) == encoded_export(format, width, height, rgba@),
{
    match encode_rgba(format, width, height, rgba) {
        Ok(bytes) => Ok(bytes),
        Err(msg) => Err(ExportError::Encode(msg)),
    }
}

/// Whether `out` can be the outcome of exporting pixmap `p` resized to
/// `size` x `size` with `format`: the encoding of some resize of `p` to that size.
pub open spec fn sized_export_admits(
    format: RasterFormat,
    p: (u32, u32, Seq<u8>),
    size: u32,
    out: Result<Seq<u8>, ExportErrorView>,
) -> bool {
    exists|rgba: Seq<u8>|
        #[trigger] is_resize_of(p, size, rgba) && out == encoded_export(format, size, size, rgba)
}

/// A sized export of a pixmap (at most 4096 pixels a side) all of one colour
/// encodes `size` x `size` pixels all of its straight colour.
pub proof fn lemma_sized_export_of_one_colour(
    format: RasterFormat,
    p: (u32, u32, Seq<u8>),
    size: u32,
    out: Result<Seq<u8>, ExportErrorView>,
)
    requires
        sized_export_admits(format, p, size, out),
        pixmap_shape_ok(p.0, p.1, p.2),
        p.0 <= 4096 && p.1 <= 4096,
        size >= 1,
        uniform_pixels(p.2),
    ensures
        exists|rgba: Seq<u8>|
            #[trigger] encoded_export(format, size, size, rgba) == out && rgba.len() == size * size
                * 4 && filled_with(rgba, first_straight_colour(p)),
{
    let rgba = choose|rgba: Seq<u8>|
        #[trigger] is_resize_of(p, size, rgba) && out == encoded_export(format, size, size, rgba);
    lemma_resize_of_one_colour(p, size, rgba);
    assert(encoded_export(format, size, size, rgba) == out);
}

/// Encodes a pixmap as PNG bytes.
pub fn to_png(pixmap: &Pixmap) -> (r: Result<Vec<u8>, ExportError>)
    ensures
        export_view(r) == raster_export(RasterFormat::Png, pixmap@),
{
    let w = pixmap.width();
    let h = pixmap.height();
    let img = pixmap_to_rgba(pixmap);
    encode_image(RasterFormat::Png, w, h, img)
}

/// Encodes a pixmap resized to `size` as PNG bytes. At the pixmap's own
/// (square) size this is exactly [`to_png`].
pub fn to_png_sized(pixmap: &Pixmap, size: u32) -> (r: Result<Vec<u8>, ExportError>)
    requires
        resizable(pixmap@, size),
    ensures
        sized_export_admits(RasterFormat::Png, pixmap@, size, export_view(r)),
        pixmap@.0 == size && pixmap@.1 == size ==> export_view(r) == raster_export(
            RasterFormat::Png,
            pixmap@,
        ),
{
    let img = resize_pixmap(pixmap, size);
    encode_image(RasterFormat::Png, size, size, img)
}

/// Encodes a pixmap as WebP bytes.
pub fn to_webp(pixmap: &Pixmap) -> (r: Result<Vec<u8>, ExportError>)
    ensures
        export_view(r) == raster_export(RasterFormat::WebP, pixmap@),
{
    let w = pixmap.width();
    let h = pixmap.height();
    let img = pixmap_to_rgba(pixmap);
    encode_image(RasterFormat::WebP, w, h, img)
}

/// Encodes a pixmap resized to `size` as WebP bytes. At the pixmap's own
/// (square) size this is exactly [`to_webp`].
pub fn to_webp_sized(pixmap: &Pixmap, size: u32) -> (r: Result<Vec<u8>, ExportError>)
    requires
        resizable(pixmap@, size),
    ensures
        sized_export_admits(RasterFormat::WebP, pixmap@, size, export_view(r)),
        pixmap@.0 == size && pixmap@.1 == size ==> export_view(r) == raster_export(
            RasterFormat::WebP,
            pixmap@,
        ),
{
    let img = resize_pixmap(pixmap, size);
    encode_image(RasterFormat::WebP, size, size, img)
}

} // verus!

verus! {

// ── Sizes ────────────────────────────────────────────────────────

/// Standard icon sizes for multi-resolution exports.
pub const STANDARD_SIZES: [u32; 8] = [16, 32, 48, 64, 128, 256, 512, 1024];

/// Standard ICO sizes: 16, 32, 48, 256.
const ICO_SIZES: [u32; 4] = [16, 32, 48, 256];

/// The sizes an ICNS file is built from.
const ICNS_SIZES: [u32; 7] = [16, 32, 64, 128, 256, 512, 1024];

pub open spec fn standard_sizes_spec() -> Seq<u32> {
    seq![16u32, 32, 48, 64, 128, 256, 512, 1024]
}

pub open spec fn ico_sizes() -> Seq<u32> {
    seq![16u32, 32, 48, 256]
}

pub open spec fn icns_sizes() -> Seq<u32> {
    seq![16u32, 32, 64, 128, 256, 512, 1024]
}

proof fn lemma_sizes_known()
    ensures
        STANDARD_SIZES@ == standard_sizes_spec(),
        ICO_SIZES@ == ico_sizes(),
        ICNS_SIZES@ == icns_sizes(),
{
    assert(STANDARD_SIZES@ =~= standard_sizes_spec());
    assert(ICO_SIZES@ =~= ico_sizes());
    assert(ICNS_SIZES@ =~= icns_sizes());
}

} // verus!

verus! {

// ── ICO (Windows) ────────────────────────────────────────────────

/// Declares `ico::IconDir`, the in-memory contents of an ICO file, to the verifier.
#[verifier::external_type_specification]
#[verifier::external_body]
pub struct ExIconDir(ico::IconDir);

/// The images an `ico::IconDir` holds, in the order they were added, each by
/// the side length and the straight RGBA8 pixels its entry was encoded from.
pub uninterp spec fn ico_dir_images(dir: ico::IconDir) -> Seq<(u32, Seq<u8>)>;

/// Whether the `ico::IconDir` was made for icons (not cursors).
pub uninterp spec fn ico_dir_holds_icons(dir: ico::IconDir) -> bool;

/// The message of `ico::IconDirEntry::encode` when it fails on a `size` x `size`
/// RGBA8 image, or `None` when it succeeds.
pub uninterp spec fn ico_entry_error(size: u32, rgba: Seq<u8>) -> Option<Seq<char>>;

/// The bytes (or the error message) that `ico::IconDir::write` produces for an
/// icon directory holding entries encoded from `images`, in order.
pub uninterp spec fn ico_file_bytes(images: Seq<(u32, Seq<u8>)>) -> Result<Seq<u8>, Seq<char>>;

/// Calls `ico::IconDir::new(ResourceType::Icon)`: an empty icon directory.
#[verifier::external_body]
fn ico_dir_new() -> (dir: ico::IconDir)
    ensures
        ico_dir_images(dir) == Seq::<(u32, Seq<u8>)>::empty(),
        ico_dir_holds_icons(dir),
{
    ico::IconDir::new(ico::ResourceType::Icon)
}

/// Calls `ico::IconImage::from_rgba_data`, `ico::IconDirEntry::encode` and
/// `ico::IconDir::add_entry`. Claims that the entry is appended exactly when
/// encoding succeeds, and that a failure leaves the directory as it was.
/// The `requires` rules out the panics of `from_rgba_data` (zero side, wrong
/// byte count), of the `u32` pixel count in `encode` (sides up to 256), and of
/// `add_entry` (an entry of another resource type: an encoded image without a
/// hotspot is an icon).
#[verifier::external_body]
fn ico_dir_add_image(dir: &mut ico::IconDir, size: u32, rgba: &[u8]) -> (r: Result<(), String>)
    requires
        ico_dir_holds_icons(*old(dir)),
        1 <= size <= 256,
        rgba@.len() == size * size * 4,
    ensures
        ico_dir_holds_icons(*final(dir)),
        match r {
            Ok(()) => {
                &&& ico_entry_error(size, rgba@) is None
                &&& ico_dir_images(*final(dir)) == ico_dir_images(*old(dir)).push((size, rgba@))
            },
            Err(msg) => {
                &&& ico_entry_error(size, rgba@) == Some(msg@)
                &&& ico_dir_images(*final(dir)) == ico_dir_images(*old(dir))
            },
        },
{
    let image = ico::IconImage::from_rgba_data(size, size, rgba.to_vec());
    match ico::IconDirEntry::encode(&image) {
        Ok(entry) => {
            dir.add_entry(entry);
            Ok(())
        },
        Err(e) => Err(e.to_string()),
    }
}

/// Calls `ico::IconDir::write` into a `Vec<u8>`. Claims that the outcome is the
/// named file encoding of the directory's images. The `requires` (at most four
/// entries of at most 256 pixels a side) keeps the writer's `u32` data offsets
/// from overflowing.
#[verifier::external_body]
fn ico_dir_write(dir: &ico::IconDir) -> (r: Result<Vec<u8>, String>)
    requires
        ico_dir_holds_icons(*dir),
        ico_dir_images(*dir).len() <= 4,
        forall|i: int| 0 <= i < ico_dir_images(*dir).len() ==> #[trigger] ico_dir_images(*dir)[i].0 <= 256,
    ensures
        match r {
            Ok(bytes) => ico_file_bytes(ico_dir_images(*dir)) == Ok::<Seq<u8>, Seq<char>>(bytes@),
            Err(msg) => ico_file_bytes(ico_dir_images(*dir)) == Err::<Seq<u8>, Seq<char>>(msg@),
        },
{
    let mut buf = Vec::new();
    match dir.write(&mut buf) {
        Ok(()) => Ok(buf),
        Err(e) => Err(e.to_string()),
    }
}

/// The value of a list of square images: each by its side and its pixel bytes.
pub open spec fn images_view(images: Seq<(u32, Vec<u8>)>) -> Seq<(u32, Seq<u8>)> {
    images.map_values(|e: (u32, Vec<u8>)| (e.0, e.1@))
}

/// Whether `images` can be pixmap `p` resized to each of `sizes`, in order.
pub open spec fn resized_images(
    p: (u32, u32, Seq<u8>),
    sizes: Seq<u32>,
    images: Seq<(u32, Seq<u8>)>,
) -> bool {
    &&& images.len() == sizes.len()
    &&& forall|i: int|
        0 <= i < sizes.len() ==> #[trigger] images[i].0 == sizes[i] && is_resize_of(
            p,
            sizes[i],
            images[i].1,
        )
}

/// The message of the first image in `images` whose ICO entry fails to encode.
pub open spec fn first_ico_entry_error(images: Seq<(u32, Seq<u8>)>) -> Option<Seq<char>>
    decreases images.len(),
{
    if images.len() == 0 {
        None
    } else {
        match first_ico_entry_error(images.drop_last()) {
            Some(msg) => Some(msg),
            None => ico_entry_error(images.last().0, images.last().1),
        }
    }
}

/// The outcome of bundling `images` into an ICO file: the first entry that
/// fails to encode reports `Ico`, else the written file (or its failure, as `Ico`).
pub open spec fn ico_outcome(images: Seq<(u32, Seq<u8>)>) -> Result<Seq<u8>, ExportErrorView> {
    match first_ico_entry_error(images) {
        Some(msg) => Err(ExportErrorView::Ico(msg)),
        None => match ico_file_bytes(images) {
            Ok(bytes) => Ok(bytes),
            Err(msg) => Err(ExportErrorView::Ico(msg)),
        },
    }
}

/// Whether `out` can be the outcome of an ICO export of pixmap `p`: the bundle
/// of some resizes of `p` to 16, 32, 48 and 256 pixels, in that order.
pub open spec fn ico_export_admits(p: (u32, u32, Seq<u8>), out: Result<Seq<u8>, ExportErrorView>) -> bool {
    exists|images: Seq<(u32, Seq<u8>)>|
        #[trigger] resized_images(p, ico_sizes(), images) && out == ico_outcome(images)
}

/// Images that are resizes, to sizes of at least one pixel, of a pixmap (at
/// most 4096 pixels a side) all of one colour are all of its straight colour.
pub proof fn lemma_resized_images_of_one_colour(
    p: (u32, u32, Seq<u8>),
    sizes: Seq<u32>,
    images: Seq<(u32, Seq<u8>)>,
)
    requires
        resized_images(p, sizes, images),
        forall|k: int| 0 <= k < sizes.len() ==> #[trigger] sizes[k] >= 1,
        pixmap_shape_ok(p.0, p.1, p.2),
        p.0 <= 4096 && p.1 <= 4096,
        uniform_pixels(p.2),
    ensures
        forall|k: int|
            0 <= k < images.len() ==> #[trigger] filled_with(images[k].1, first_straight_colour(p)),
{
    assert forall|k: int| 0 <= k < images.len() implies #[trigger] filled_with(
        images[k].1,
        first_straight_colour(p),
    ) by {
        assert(images.len() == sizes.len());
        let size_k = images[k].0;
        assert(size_k == sizes[k]);
        assert(is_resize_of(p, sizes[k], images[k].1));
        assert(sizes[k] >= 1);
        lemma_resize_of_one_colour(p, sizes[k], images[k].1);
    }
}

/// An ICO export of a pixmap (at most 4096 pixels a side) all of one colour
/// bundles images of 16, 32, 48 and 256 pixels, in that order, each of the
/// right size and all of the pixmap's straight colour.
pub proof fn lemma_ico_of_one_colour(p: (u32, u32, Seq<u8>), out: Result<Seq<u8>, ExportErrorView>)
    requires
        ico_export_admits(p, out),
        pixmap_shape_ok(p.0, p.1, p.2),
        p.0 <= 4096 && p.1 <= 4096,
        uniform_pixels(p.2),
    ensures
        exists|images: Seq<(u32, Seq<u8>)>|
            #[trigger] ico_outcome(images) == out && images.len() == 4 && (forall|k: int|
                0 <= k < 4 ==> #[trigger] images[k].0 == ico_sizes()[k] && images[k].1.len()
                    == images[k].0 * images[k].0 * 4 && filled_with(
                    images[k].1,
                    first_straight_colour(p),
                )),
{
    let images = choose|images: Seq<(u32, Seq<u8>)>|
        #[trigger] resized_images(p, ico_sizes(), images) && out == ico_outcome(images);
    lemma_resized_images_of_one_colour(p, ico_sizes(), images);
    assert(ico_outcome(images) == out);
}

/// A failure among the first images is the failure of the whole sequence.
proof fn lemma_first_ico_error_prefix(images: Seq<(u32, Seq<u8>)>, k: int)
    requires
        0 <= k <= images.len(),
        first_ico_entry_error(images.take(k)) is Some,
    ensures
        first_ico_entry_error(images) == first_ico_entry_error(images.take(k)),
    decreases images.len() - k,
{
    if k < images.len() {
        assert(images.take(k + 1).drop_last() =~= images.take(k));
        lemma_first_ico_error_prefix(images, k + 1);
    } else {
        assert(images.take(k) =~= images);
    }
}

/// Bundles square images (side and straight RGBA pixels, in order) into an
/// .ico file.
pub fn ico_from_images(images: &Vec<(u32, Vec<u8>)>) -> (r: Result<Vec<u8>, ExportError>)
    requires
        images@.len() <= 4,
        forall|i: int|
            0 <= i < images@.len() ==> 1 <= #[trigger] images@[i].0 <= 256 && images@[i].1@.len()
                == images@[i].0 * images@[i].0 * 4,
    ensures
        export_view(r) == ico_outcome(images_view(images@)),
{
    let ghost view = images_view(images@);
    let mut icon_dir = ico_dir_new();
    let n = images.len();
    let mut i: usize = 0;
    while i < n
        invariant
            n == images@.len(),
            n <= 4,
            0 <= i <= n,
            view == images_view(images@),
            forall|k: int|
                0 <= k < images@.len() ==> 1 <= #[trigger] images@[k].0 <= 256 && images@[k].1@.len()
                    == images@[k].0 * images@[k].0 * 4,
            ico_dir_holds_icons(icon_dir),
            ico_dir_images(icon_dir) == view.take(i as int),
            first_ico_entry_error(view.take(i as int)) is None,
        decreases n - i,
    {
        let entry = &images[i];
        let size = entry.0;
        let rgba = entry.1.as_slice();
        proof {
            assert(view[i as int] == (size, rgba@));
            assert(view.take(i + 1).drop_last() =~= view.take(i as int));
            assert(view.take(i + 1) =~= view.take(i as int).push((size, rgba@)));
        }
        match ico_dir_add_image(&mut icon_dir, size, rgba) {
            Ok(()) => {},
            Err(msg) => {
                proof {
                    lemma_first_ico_error_prefix(view, i + 1);
                }
                return Err(ExportError::Ico(msg));
            },
        }
        i += 1;
    }
    assert(view.take(n as int) =~= view);
    assert forall|k: int| 0 <= k < ico_dir_images(icon_dir).len() implies #[trigger] ico_dir_images(
        icon_dir,
    )[k].0 <= 256 by {
        assert(ico_dir_images(icon_dir)[k] == view[k]);
    }
    match ico_dir_write(&icon_dir) {
        Ok(bytes) => Ok(bytes),
        Err(msg) => Err(ExportError::Ico(msg)),
    }
}

/// Bundles a pixmap into a multi-resolution .ico file: the pixmap resized to
/// 16, 32, 48 and 256 pixels, in that order.
pub fn to_ico(pixmap: &Pixmap) -> (r: Result<Vec<u8>, ExportError>)
    requires
        resizable(pixmap@, 256),
    ensures
        ico_export_admits(pixmap@, export_view(r)),
{
    proof {
        lemma_sizes_known();
    }
    let mut images: Vec<(u32, Vec<u8>)> = Vec::new();
    let mut i: usize = 0;
    while i < 4
        invariant
            0 <= i <= 4,
            ICO_SIZES@ == ico_sizes(),
            resizable(pixmap@, 256),
            images@.len() == i,
            forall|k: int|
                0 <= k < i ==> #[trigger] images@[k].0 == ico_sizes()[k] && is_resize_of(
                    pixmap@,
                    ico_sizes()[k],
                    images@[k].1@,
                ),
        decreases 4 - i,
    {
        let size = ICO_SIZES[i];
        proof {
            assert(1 <= size <= 256);
            assert(size * size * 4 <= 256 * 256 * 4) by (nonlinear_arith)
                requires
                    1 <= size <= 256,
            ;
            assert(pixmap@.0 * size * 4 <= pixmap@.0 * 256 * 4) by (nonlinear_arith)
                requires
                    size <= 256,
            ;
        }
        let rgba = resize_pixmap(pixmap, size);
        images.push((size, rgba));
        i += 1;
    }
    let ghost view = images_view(images@);
    assert forall|k: int| 0 <= k < images@.len() implies 1 <= #[trigger] images@[k].0 <= 256
        && images@[k].1@.len() == images@[k].0 * images@[k].0 * 4 by {}
    let r = ico_from_images(&images);
    assert(resized_images(pixmap@, ico_sizes(), view));
    r
}

} // verus!

verus! {

// ── ICNS (macOS) ─────────────────────────────────────────────────

/// The ICNS icon types this library writes (all RGBA32, none with a mask).
#[allow(non_camel_case_types)]
#[derive(Debug, Clone, Copy, PartialEq, Eq, Structural)]
pub enum IcnsIconType {
    RGBA32_16x16,
    RGBA32_32x32,
    RGBA32_64x64,
    RGBA32_128x128,
    RGBA32_256x256,
    RGBA32_512x512,
    RGBA32_512x512_2x,
}

/// The icon type for a pixel size, if any.
pub open spec fn icns_type_for_size(size: u32) -> Option<IcnsIconType> {
    if size == 16 {
        Some(IcnsIconType::RGBA32_16x16)
    } else if size == 32 {
        Some(IcnsIconType::RGBA32_32x32)
    } else if size == 64 {
        Some(IcnsIconType::RGBA32_64x64)
    } else if size == 128 {
        Some(IcnsIconType::RGBA32_128x128)
    } else if size == 256 {
        Some(IcnsIconType::RGBA32_256x256)
    } else if size == 512 {
        Some(IcnsIconType::RGBA32_512x512)
    } else if size == 1024 {
        Some(IcnsIconType::RGBA32_512x512_2x)
    } else {
        None
    }
}

/// The side length, in pixels, of the image data of an icon type.
pub open spec fn icns_type_pixels(t: IcnsIconType) -> u32 {
    match t {
        IcnsIconType::RGBA32_16x16 => 16,
        IcnsIconType::RGBA32_32x32 => 32,
        IcnsIconType::RGBA32_64x64 => 64,
        IcnsIconType::RGBA32_128x128 => 128,
        IcnsIconType::RGBA32_256x256 => 256,
        IcnsIconType::RGBA32_512x512 => 512,
        IcnsIconType::RGBA32_512x512_2x => 1024,
    }
}

/// Maps a pixel size to its ICNS icon type.
pub fn icns_icon_type(size: u32) -> (r: Result<IcnsIconType, ExportError>)
    ensures
        r is Ok <==> icns_type_for_size(size) is Some,
        r matches Ok(t) ==> icns_type_for_size(size) == Some(t),
        r matches Err(e) ==> e@ == ExportErrorView::UnsupportedIcnsSize(size),
{
    match size {
        16 => Ok(IcnsIconType::RGBA32_16x16),
        32 => Ok(IcnsIconType::RGBA32_32x32),
        64 => Ok(IcnsIconType::RGBA32_64x64),
        128 => Ok(IcnsIconType::RGBA32_128x128),
        256 => Ok(IcnsIconType::RGBA32_256x256),
        512 => Ok(IcnsIconType::RGBA32_512x512),
        1024 => Ok(IcnsIconType::RGBA32_512x512_2x),
        other => Err(ExportError::UnsupportedIcnsSize(other)),
    }
}

/// The icon type that a pixel size maps to has image data of exactly that size.
pub proof fn lemma_icns_type_matches_size(size: u32)
    requires
        icns_type_for_size(size) is Some,
    ensures
        icns_type_pixels(icns_type_for_size(size)->0) == size,
{
}

/// Every size an ICNS export is built from has an icon type.
pub proof fn lemma_icns_sizes_supported()
    ensures
        forall|i: int| 0 <= i < icns_sizes().len() ==> #[trigger] icns_type_for_size(icns_sizes()[i]) is Some,
{
}

/// Declares `icns::IconFamily`, the in-memory contents of an ICNS file, to the verifier.
#[verifier::external_type_specification]
#[verifier::external_body]
pub struct ExIconFamily(icns::IconFamily);

/// The icons an `icns::IconFamily` holds, in the order they were added, each by
/// its icon type and the straight RGBA8 pixels its element was encoded from.
pub uninterp spec fn icns_family_icons(family: icns::IconFamily) -> Seq<(IcnsIconType, Seq<u8>)>;

/// The message of `icns::IconFamily::add_icon_with_type` when it fails to add a
/// `size` x `size` RGBA image as `icon_type`, or `None` when it succeeds.
pub uninterp spec fn icns_icon_error(icon_type: IcnsIconType, size: u32, rgba: Seq<u8>) -> Option<
    Seq<char>,
>;

/// The bytes (or the error message) that `icns::IconFamily::write` produces for
/// a family holding elements encoded from `icons`, in order.
pub uninterp spec fn icns_file_bytes(icons: Seq<(IcnsIconType, Seq<u8>)>) -> Result<
    Seq<u8>,
    Seq<char>,
>;

/// Calls `icns::IconFamily::new`: an empty family.
#[verifier::external_body]
fn icns_family_new() -> (family: icns::IconFamily)
    ensures
        icns_family_icons(family) == Seq::<(IcnsIconType, Seq<u8>)>::empty(),
{
    icns::IconFamily::new()
}

/// Calls `icns::Image::from_data` with `PixelFormat::RGBA` and
/// `icns::IconFamily::add_icon_with_type` with the icon type. Claims that the
/// icon is appended exactly when adding succeeds, and that a failure leaves the
/// family as it was (none of these RGBA32 types has a mask element, so the crate
/// pushes one element or none; an image whose size is not the type's is
/// refused). `from_data` succeeds because the byte count matches the size.
#[verifier::external_body]
fn icns_family_add(
    family: &mut icns::IconFamily,
    icon_type: IcnsIconType,
    size: u32,
    rgba: &[u8],
) -> (r: Result<(), String>)
    requires
        rgba@.len() == size * size * 4,
    ensures
        match r {
            Ok(()) => {
                &&& icns_icon_error(icon_type, size, rgba@) is None
                &&& icns_family_icons(*final(family)) == icns_family_icons(*old(family)).push(
                    (icon_type, rgba@),
                )
            },
            Err(msg) => {
                &&& icns_icon_error(icon_type, size, rgba@) == Some(msg@)
                &&& icns_family_icons(*final(family)) == icns_family_icons(*old(family))
            },
        },
{
    let kind = match icon_type {
        IcnsIconType::RGBA32_16x16 => icns::IconType::RGBA32_16x16,
        IcnsIconType::RGBA32_32x32 => icns::IconType::RGBA32_32x32,
        IcnsIconType::RGBA32_64x64 => icns::IconType::RGBA32_64x64,
        IcnsIconType::RGBA32_128x128 => icns::IconType::RGBA32_128x128,
        IcnsIconType::RGBA32_256x256 => icns::IconType::RGBA32_256x256,
        IcnsIconType::RGBA32_512x512 => icns::IconType::RGBA32_512x512,
        IcnsIconType::RGBA32_512x512_2x => icns::IconType::RGBA32_512x512_2x,
    };
    match icns::Image::from_data(icns::PixelFormat::RGBA, size, size, rgba.to_vec()) {
        Ok(image) => family.add_icon_with_type(&image, kind).map_err(|e| e.to_string()),
        Err(e) => Err(e.to_string()),
    }
}

/// Calls `icns::IconFamily::write` into a `Vec<u8>`. Claims that the outcome
/// is the named file encoding of the family's icons. The `requires` (at most
/// seven icons, each at most 1024 pixels a side as its type demands) keeps the
/// writer's `u32` length sum from overflowing.
#[verifier::external_body]
fn icns_family_write(family: &icns::IconFamily) -> (r: Result<Vec<u8>, String>)
    requires
        icns_family_icons(*family).len() <= 7,
    ensures
        match r {
            Ok(bytes) => icns_file_bytes(icns_family_icons(*family)) == Ok::<Seq<u8>, Seq<char>>(
                bytes@,
            ),
            Err(msg) => icns_file_bytes(icns_family_icons(*family)) == Err::<Seq<u8>, Seq<char>>(
                msg@,
            ),
        },
{
    let mut buf = Vec::new();
    match family.write(&mut buf) {
        Ok(()) => Ok(buf),
        Err(e) => Err(e.to_string()),
    }
}

/// The first failure when `images` are added in order to an ICNS family: a
/// size without an icon type, or an icon that fails to be added.
pub open spec fn icns_first_failure(images: Seq<(u32, Seq<u8>)>) -> Option<ExportErrorView>
    decreases images.len(),
{
    if images.len() == 0 {
        None
    } else {
        match icns_first_failure(images.drop_last()) {
            Some(e) => Some(e),
            None => {
                let (size, rgba) = images.last();
                match icns_type_for_size(size) {
                    None => Some(ExportErrorView::UnsupportedIcnsSize(size)),
                    Some(t) => match icns_icon_error(t, size, rgba) {
                        Some(msg) => Some(ExportErrorView::Icns(msg)),
                        None => None,
                    },
                }
            },
        }
    }
}

/// The icons a family holds after `images` are added: each by its type.
pub open spec fn icns_icons(images: Seq<(u32, Seq<u8>)>) -> Seq<(IcnsIconType, Seq<u8>)> {
    images.map_values(|e: (u32, Seq<u8>)| (icns_type_for_size(e.0)->0, e.1))
}

/// The outcome of bundling `images` into an ICNS file.
pub open spec fn icns_outcome(images: Seq<(u32, Seq<u8>)>) -> Result<Seq<u8>, ExportErrorView> {
    match icns_first_failure(images) {
        Some(e) => Err(e),
        None => match icns_file_bytes(icns_icons(images)) {
            Ok(bytes) => Ok(bytes),
            Err(msg) => Err(ExportErrorView::Icns(msg)),
        },
    }
}

/// Whether `out` can be the outcome of an ICNS export of pixmap `p`: the bundle
/// of some resizes of `p` to 16, 32, 64, 128, 256, 512 and 1024 pixels, in order.
pub open spec fn icns_export_admits(p: (u32, u32, Seq<u8>), out: Result<Seq<u8>, ExportErrorView>) -> bool {
    exists|images: Seq<(u32, Seq<u8>)>|
        #[trigger] resized_images(p, icns_sizes(), images) && out == icns_outcome(images)
}

/// An ICNS export of a pixmap (at most 4096 pixels a side) all of one colour
/// bundles images of 16, 32, 64, 128, 256, 512 and 1024 pixels, in that order,
/// each of the right size and all of the pixmap's straight colour.
pub proof fn lemma_icns_of_one_colour(p: (u32, u32, Seq<u8>), out: Result<Seq<u8>, ExportErrorView>)
    requires
        icns_export_admits(p, out),
        pixmap_shape_ok(p.0, p.1, p.2),
        p.0 <= 4096 && p.1 <= 4096,
        uniform_pixels(p.2),
    ensures
        exists|images: Seq<(u32, Seq<u8>)>|
            #[trigger] icns_outcome(images) == out && images.len() == 7 && (forall|k: int|
                0 <= k < 7 ==> #[trigger] images[k].0 == icns_sizes()[k] && images[k].1.len()
                    == images[k].0 * images[k].0 * 4 && filled_with(
                    images[k].1,
                    first_straight_colour(p),
                )),
{
    let images = choose|images: Seq<(u32, Seq<u8>)>|
        #[trigger] resized_images(p, icns_sizes(), images) && out == icns_outcome(images);
    lemma_resized_images_of_one_colour(p, icns_sizes(), images);
    assert(icns_outcome(images) == out);
}

/// A failure among the first images is the failure of the whole sequence.
proof fn lemma_icns_failure_prefix(images: Seq<(u32, Seq<u8>)>, k: int)
    requires
        0 <= k <= images.len(),
        icns_first_failure(images.take(k)) is Some,
    ensures
        icns_first_failure(images) == icns_first_failure(images.take(k)),
    decreases images.len() - k,
{
    if k < images.len() {
        assert(images.take(k + 1).drop_last() =~= images.take(k));
        lemma_icns_failure_prefix(images, k + 1);
    } else {
        assert(images.take(k) =~= images);
    }
}

/// When every size has an icon type, the only failure is one of adding an icon.
proof fn lemma_icns_failure_is_icns(images: Seq<(u32, Seq<u8>)>)
    requires
        forall|i: int| 0 <= i < images.len() ==> #[trigger] icns_type_for_size(images[i].0) is Some,
    ensures
        icns_first_failure(images) matches Some(e) ==> e is Icns,
    decreases images.len(),
{
    if images.len() > 0 {
        let front = images.drop_last();
        assert forall|i: int| 0 <= i < front.len() implies #[trigger] icns_type_for_size(
            front[i].0,
        ) is Some by {
            assert(front[i] == images[i]);
        }
        lemma_icns_failure_is_icns(front);
        assert(icns_type_for_size(images[images.len() - 1].0) is Some);
    }
}

/// An ICNS export never fails for want of an icon type: each size it is built
/// from has one.
pub proof fn lemma_icns_export_sizes_have_types(p: (u32, u32, Seq<u8>), images: Seq<(u32, Seq<u8>)>)
    requires
        resized_images(p, icns_sizes(), images),
    ensures
        !(icns_outcome(images) matches Err(ExportErrorView::UnsupportedIcnsSize(_))),
{
    lemma_icns_sizes_supported();
    assert forall|i: int| 0 <= i < images.len() implies #[trigger] icns_type_for_size(images[i].0)
        is Some by {
        assert(images[i].0 == icns_sizes()[i]);
    }
    lemma_icns_failure_is_icns(images);
}

/// Bundles square images (side and straight RGBA pixels, in order) into an
/// .icns file, each as the icon type of its size.
pub fn icns_from_images(images: &Vec<(u32, Vec<u8>)>) -> (r: Result<Vec<u8>, ExportError>)
    requires
        images@.len() <= 7,
        forall|i: int|
            0 <= i < images@.len() ==> #[trigger] images@[i].1@.len() == images@[i].0 * images@[i].0
                * 4,
    ensures
        export_view(r) == icns_outcome(images_view(images@)),
{
    let ghost view = images_view(images@);
    let mut icon_family = icns_family_new();
    let n = images.len();
    let mut i: usize = 0;
    while i < n
        invariant
            n == images@.len(),
            n <= 7,
            0 <= i <= n,
            view == images_view(images@),
            forall|k: int|
                0 <= k < images@.len() ==> #[trigger] images@[k].1@.len() == images@[k].0
                    * images@[k].0 * 4,
            icns_family_icons(icon_family) == icns_icons(view.take(i as int)),
            icns_first_failure(view.take(i as int)) is None,
        decreases n - i,
    {
        let entry = &images[i];
        let size = entry.0;
        let rgba = entry.1.as_slice();
        proof {
            assert(view[i as int] == (size, rgba@));
            assert(view.take(i + 1).drop_last() =~= view.take(i as int));
            assert(view.take(i + 1).last() == (size, rgba@));
        }
        let icon_type = match icns_icon_type(size) {
            Ok(t) => t,
            Err(e) => {
                proof {
                    lemma_icns_failure_prefix(view, i + 1);
                }
                return Err(e);
            },
        };
        proof {
            assert(icns_icons(view.take(i + 1)) =~= icns_icons(view.take(i as int)).push(
                (icon_type, rgba@),
            ));
        }
        match icns_family_add(&mut icon_family, icon_type, size, rgba) {
            Ok(()) => {},
            Err(msg) => {
                proof {
                    lemma_icns_failure_prefix(view, i + 1);
                }
                return Err(ExportError::Icns(msg));
            },
        }
        i += 1;
    }
    assert(view.take(n as int) =~= view);
    match icns_family_write(&icon_family) {
        Ok(bytes) => Ok(bytes),
        Err(msg) => Err(ExportError::Icns(msg)),
    }
}

/// Bundles a pixmap into a multi-resolution .icns file: the pixmap resized to
/// 16, 32, 64, 128, 256, 512 and 1024 pixels, in that order.
pub fn to_icns(pixmap: &Pixmap) -> (r: Result<Vec<u8>, ExportError>)
    requires
        resizable(pixmap@, 1024),
    ensures
        icns_export_admits(pixmap@, export_view(r)),
        !(export_view(r) matches Err(ExportErrorView::UnsupportedIcnsSize(_))),
{
    proof {
        lemma_sizes_known();
    }
    let mut images: Vec<(u32, Vec<u8>)> = Vec::new();
    let mut i: usize = 0;
    while i < 7
        invariant
            0 <= i <= 7,
            ICNS_SIZES@ == icns_sizes(),
            resizable(pixmap@, 1024),
            images@.len() == i,
            forall|k: int|
                0 <= k < i ==> #[trigger] images@[k].0 == icns_sizes()[k] && is_resize_of(
                    pixmap@,
                    icns_sizes()[k],
                    images@[k].1@,
                ),
        decreases 7 - i,
    {
        let size = ICNS_SIZES[i];
        proof {
            assert(1 <= size <= 1024);
            assert(size * size * 4 <= 1024 * 1024 * 4) by (nonlinear_arith)
                requires
                    1 <= size <= 1024,
            ;
            assert(pixmap@.0 * size * 4 <= pixmap@.0 * 1024 * 4) by (nonlinear_arith)
                requires
                    size <= 1024,
            ;
        }
        let rgba = resize_pixmap(pixmap, size);
        images.push((size, rgba));
        i += 1;
    }
    let ghost view = images_view(images@);
    assert forall|k: int| 0 <= k < images@.len() implies #[trigger] images@[k].1@.len()
        == images@[k].0 * images@[k].0 * 4 by {}
    let r = icns_from_images(&images);
    assert(resized_images(pixmap@, icns_sizes(), view));
    proof {
        lemma_icns_export_sizes_have_types(pixmap@, view);
    }
    r
}

// ── Batch export ─────────────────────────────────────────────────

/// All supported output formats.
#[derive(Debug, Clone, Copy, PartialEq, Eq, Structural)]
pub enum Format {
    Png,
    Ico,
    Icns,
    WebP,
}

/// Whether `out` can be the outcome of exporting pixmap `p` to `format`: what
/// the matching format function gives.
pub open spec fn format_export_admits(
    p: (u32, u32, Seq<u8>),
    format: Format,
    out: Result<Seq<u8>, ExportErrorView>,
) -> bool {
    match format {
        Format::Png => out == raster_export(RasterFormat::Png, p),
        Format::Ico => ico_export_admits(p, out),
        Format::Icns => icns_export_admits(p, out),
        Format::WebP => out == raster_export(RasterFormat::WebP, p),
    }
}

/// Exports a master pixmap to the requested format.
pub fn export(pixmap: &Pixmap, format: Format) -> (r: Result<Vec<u8>, ExportError>)
    requires
        format == Format::Ico ==> resizable(pixmap@, 256),
        format == Format::Icns ==> resizable(pixmap@, 1024),
    ensures
        format_export_admits(pixmap@, format, export_view(r)),
{
    match format {
        Format::Png => to_png(pixmap),
        Format::Ico => to_ico(pixmap),
        Format::Icns => to_icns(pixmap),
        Format::WebP => to_webp(pixmap),
    }
}

} // verus!
