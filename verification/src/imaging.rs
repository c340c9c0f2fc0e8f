//! Texture images: decoding, cropping the face and hat layers, and re-encoding.
use crate::reply::{is_error_reply, json_error, Reply};
use image::GenericImage;
use vstd::prelude::*;

verus! {

/// An image as 8-bit RGBA pixels, row by row, four bytes per pixel.
pub struct Raster {
    pub width: u32,
    pub height: u32,
    pub rgba: Vec<u8>,
}

/// An image as plain values: width, height, RGBA bytes.
pub type ImageModel = (u32, u32, Seq<u8>);

impl Raster {
    /// Holds exactly four bytes for each pixel.
    pub open spec fn wf(&self) -> bool {
        self.rgba@.len() == 4 * self.width * self.height
    }

    pub open spec fn model(&self) -> ImageModel {
        (self.width, self.height, self.rgba@)
    }
}

/// The pixel layout of a decoded image (`image::ColorType`).
#[derive(Clone, Copy, PartialEq, Eq, Structural)]
pub enum PixelFormat {
    L8,
    La8,
    Rgb8,
    Rgba8,
    L16,
    La16,
    Rgb16,
    Rgba16,
    Rgb32F,
    Rgba32F,
    /// a layout added to the image crate after these
    Other,
}

/// What `image::load_from_memory_with_format(bytes, ImageFormat::Png)` followed by
/// `DynamicImage::into_rgba8` gives: width, height and RGBA bytes of the decoded
/// image, or `None` when `bytes` is not a PNG image the crate can decode.
pub uninterp spec fn png_decode_rgba8(bytes: Seq<u8>) -> Option<ImageModel>;

/// What `DynamicImage::color` tells of the image decoded from `bytes`: its own
/// pixel layout, before any conversion.
pub uninterp spec fn png_pixel_format(bytes: Seq<u8>) -> Option<PixelFormat>;

/// What `image::imageops::overlay(bottom, top, x, y)` leaves in the RGBA bytes of
/// `bottom`: `top` alpha-blended onto it with its corner at `(x, y)`.
pub uninterp spec fn rgba8_overlay(bottom: ImageModel, top: ImageModel, x: i64, y: i64) -> Seq<u8>;

/// What `DynamicImage::write_to(.., ImageFormat::Png)` writes for an RGBA image
/// copied into a `DynamicImage::new` of the given layout, or `None` when the
/// encoder fails.
pub uninterp spec fn png_encode(img: ImageModel, format: PixelFormat) -> Option<Seq<u8>>;

/// The four bytes of pixel `i`.
pub open spec fn pixel(bytes: Seq<u8>, i: int) -> Seq<u8> {
    bytes.subrange(4 * i, 4 * i + 4)
}

/// Pixel `p` of `result`, the bottom image after `top` was blended onto it at
/// `(0, 0)`: where the top pixel over it is fully transparent it is unchanged,
/// where that pixel is opaque it is that pixel, and outside the top image it is
/// unchanged.
pub open spec fn overlay_pixel_ok(bottom: ImageModel, top: ImageModel, result: Seq<u8>, p: int) -> bool {
    let px = p % (bottom.0 as int);
    let py = p / (bottom.0 as int);
    if px < top.0 && py < top.1 {
        let q = py * top.0 + px;
        let alpha = top.2[4 * q + 3];
        &&& alpha == 0 ==> pixel(result, p) == pixel(bottom.2, p)
        &&& alpha == 255 ==> pixel(result, p) == pixel(top.2, q)
    } else {
        pixel(result, p) == pixel(bottom.2, p)
    }
}

/// RGBA bytes with the alpha byte of every pixel dropped.
pub open spec fn rgba_to_rgb(rgba: Seq<u8>) -> Seq<u8> {
    Seq::new((rgba.len() / 4) * 3, |k: int| rgba[4 * (k / 3) + k % 3])
}

/// `image::ColorType`, declared so that its values can be carried and matched.
#[verifier::external_type_specification]
#[verifier::external_body]
pub struct ExColorType(image::ColorType);

/// The layout an `image::ColorType` names.
#[verifier::external_body]
fn pixel_format_of(c: image::ColorType) -> PixelFormat {
    match c {
        image::ColorType::L8 => PixelFormat::L8,
        image::ColorType::La8 => PixelFormat::La8,
        image::ColorType::Rgb8 => PixelFormat::Rgb8,
        image::ColorType::Rgba8 => PixelFormat::Rgba8,
        image::ColorType::L16 => PixelFormat::L16,
        image::ColorType::La16 => PixelFormat::La16,
        image::ColorType::Rgb16 => PixelFormat::Rgb16,
        image::ColorType::Rgba16 => PixelFormat::Rgba16,
        image::ColorType::Rgb32F => PixelFormat::Rgb32F,
        image::ColorType::Rgba32F => PixelFormat::Rgba32F,
        _ => PixelFormat::Other,
    }
}

/// The `image::ColorType` of a layout (`Other` as 8-bit RGBA).
#[verifier::external_body]
fn color_type_of(f: PixelFormat) -> image::ColorType {
    match f {
        PixelFormat::L8 => image::ColorType::L8,
        PixelFormat::La8 => image::ColorType::La8,
        PixelFormat::Rgb8 => image::ColorType::Rgb8,
        PixelFormat::Rgba8 => image::ColorType::Rgba8,
        PixelFormat::L16 => image::ColorType::L16,
        PixelFormat::La16 => image::ColorType::La16,
        PixelFormat::Rgb16 => image::ColorType::Rgb16,
        PixelFormat::Rgba16 => image::ColorType::Rgba16,
        PixelFormat::Rgb32F => image::ColorType::Rgb32F,
        PixelFormat::Rgba32F => image::ColorType::Rgba32F,
        PixelFormat::Other => image::ColorType::Rgba8,
    }
}

/// Decodes PNG bytes (image crate `load_from_memory_with_format`, then `color` and
/// `into_rgba8`). The pixels are named by `png_decode_rgba8` and the layout by
/// `png_pixel_format`; the buffer holds four bytes per pixel, as the crate's
/// decoder and conversion allocate it.
#[verifier::external_body]
fn decode_png(bytes: &[u8]) -> (r: Option<(Raster, PixelFormat)>)
    ensures
        r matches Some((img, f)) ==> png_decode_rgba8(bytes@) == Some(img.model()) && img.wf()
            && png_pixel_format(bytes@) == Some(f),
        r is None ==> png_decode_rgba8(bytes@) is None && png_pixel_format(bytes@) is None,
{
    match image::load_from_memory_with_format(bytes, image::ImageFormat::Png) {
        Ok(decoded) => {
            let format = pixel_format_of(decoded.color());
            let rgba = decoded.into_rgba8();
            Some((Raster { width: rgba.width(), height: rgba.height(), rgba: rgba.into_raw() }, format))
        },
        Err(_) => None,
    }
}

/// `image::imageops::crop_imm(x, y, cw, ch)` then `to_image`: the window clamped
/// to the image as `crop_imm` clamps it, copied row by row.
#[verifier::external_body]
fn crop_raster(img: &Raster, x: u32, y: u32, cw: u32, ch: u32) -> (r: Raster)
    requires
        img.wf(),
    ensures
        r.model() == cropped(img.model(), x, y, cw, ch),
        r.wf(),
{
    let buffer = image::RgbaImage::from_raw(img.width, img.height, img.rgba.clone()).unwrap();
    let part = image::imageops::crop_imm(&buffer, x, y, cw, ch).to_image();
    Raster { width: part.width(), height: part.height(), rgba: part.into_raw() }
}

/// `image::imageops::overlay` of `top` onto `bottom` at `(x, y)`. The blended
/// bytes are named by `rgba8_overlay`; the size of `bottom` is unchanged, and at
/// `(0, 0)` the crate's `Rgba::blend` keeps a pixel under a fully transparent top
/// pixel and replaces it by an opaque one, and `overlay` touches no pixel outside
/// the top image.
#[verifier::external_body]
fn overlay_raster(bottom: &mut Raster, top: &Raster, x: i64, y: i64)
    requires
        old(bottom).wf(),
        top.wf(),
    ensures
        final(bottom).width == old(bottom).width,
        final(bottom).height == old(bottom).height,
        final(bottom).rgba@ == rgba8_overlay(old(bottom).model(), top.model(), x, y),
        final(bottom).wf(),
        x == 0 && y == 0 ==> forall|p: int|
            0 <= p < old(bottom).width * old(bottom).height ==> #[trigger] overlay_pixel_ok(
                old(bottom).model(),
                top.model(),
                final(bottom).rgba@,
                p,
            ),
{
    let pixels = std::mem::take(&mut bottom.rgba);
    let mut base = image::RgbaImage::from_raw(bottom.width, bottom.height, pixels).unwrap();
    let layer = image::RgbaImage::from_raw(top.width, top.height, top.rgba.clone()).unwrap();
    image::imageops::overlay(&mut base, &layer, x, y);
    bottom.rgba = base.into_raw();
}

/// `DynamicImage::into_rgb8` then `into_raw` on an RGBA image: the crate's
/// RGBA-to-RGB cast keeps red, green and blue of every pixel and drops alpha.
#[verifier::external_body]
fn raster_into_rgb8(img: Raster) -> (v: Vec<u8>)
    requires
        img.wf(),
    ensures
        v@ == rgba_to_rgb(img.rgba@),
{
    let buffer = image::RgbaImage::from_raw(img.width, img.height, img.rgba).unwrap();
    image::DynamicImage::ImageRgba8(buffer).into_rgb8().into_raw()
}

/// The RGBA image copied (`GenericImage::copy_from`) into `DynamicImage::new` of
/// layout `format`, then `DynamicImage::write_to` with `ImageFormat::Png` into an
/// in-memory buffer; named by `png_encode`.
#[verifier::external_body]
fn encode_png(img: Raster, format: PixelFormat) -> (r: Option<Vec<u8>>)
    requires
        img.wf(),
    ensures
        r matches Some(v) ==> png_encode(img.model(), format) == Some(v@),
        r is None ==> png_encode(img.model(), format) is None,
{
    let buffer = image::RgbaImage::from_raw(img.width, img.height, img.rgba).unwrap();
    let mut target = image::DynamicImage::new(img.width, img.height, color_type_of(format));
    target.copy_from(&buffer, 0, 0).ok()?;
    let mut out = std::io::Cursor::new(Vec::new());
    target.write_to(&mut out, image::ImageFormat::Png).ok()?;
    Some(out.into_inner())
}

/// `v` limited to `max`.
pub open spec fn clamp_to(v: u32, max: u32) -> u32 {
    if v < max {
        v
    } else {
        max
    }
}

/// The window that cropping a `w` by `h` image at `(x, y)` to `cw` by `ch` keeps:
/// corner and size clamped to the image, as `image::imageops::crop_imm` clamps them.
pub open spec fn crop_window(w: u32, h: u32, x: u32, y: u32, cw: u32, ch: u32) -> (u32, u32, u32, u32) {
    let x0 = clamp_to(x, w);
    let y0 = clamp_to(y, h);
    (x0, y0, clamp_to(cw, (w - x0) as u32), clamp_to(ch, (h - y0) as u32))
}

/// The first `rows` rows of the `cw`-pixel-wide window at `(x, y)` of an image `w` pixels wide.
pub open spec fn crop_rows(w: u32, rgba: Seq<u8>, x: u32, y: u32, cw: u32, rows: nat) -> Seq<u8>
    decreases rows,
{
    if rows == 0 {
        Seq::empty()
    } else {
        let r = y + rows - 1;
        crop_rows(w, rgba, x, y, cw, (rows - 1) as nat) + rgba.subrange(4 * (r * w + x), 4 * (r * w + x + cw))
    }
}

/// The image cut out of `img` by `crop_imm(x, y, cw, ch)`.
pub open spec fn cropped(img: ImageModel, x: u32, y: u32, cw: u32, ch: u32) -> ImageModel {
    let (x0, y0, cw0, ch0) = crop_window(img.0, img.1, x, y, cw, ch);
    (cw0, ch0, crop_rows(img.0, img.2, x0, y0, cw0, ch0 as nat))
}

/// The head of a skin: the 8x8 face at (8, 8) with the 8x8 hat layer at (40, 8)
/// blended over it.
pub open spec fn head_layers(skin: ImageModel) -> ImageModel {
    let face = cropped(skin, 8, 8, 8, 8);
    let hat = cropped(skin, 40, 8, 8, 8);
    (face.0, face.1, rgba8_overlay(face, hat, 0, 0))
}

proof fn lemma_row_in_bounds(w: int, h: int, x: int, cw: int, r: int)
    by (nonlinear_arith)
    requires
        0 <= x,
        0 <= cw,
        x + cw <= w,
        0 <= r < h,
    ensures
        0 <= r * w,
        4 * (r * w + x + cw) <= 4 * w * h,
{
}

proof fn lemma_crop_rows_len(w: u32, h: u32, rgba: Seq<u8>, x: u32, y: u32, cw: u32, rows: nat)
    requires
        rgba.len() == 4 * w * h,
        x + cw <= w,
        y + rows <= h,
    ensures
        crop_rows(w, rgba, x, y, cw, rows).len() == 4 * cw * rows,
    decreases rows,
{
    if rows > 0 {
        lemma_crop_rows_len(w, h, rgba, x, y, cw, (rows - 1) as nat);
        let r = y + rows - 1;
        lemma_row_in_bounds(w as int, h as int, x as int, cw as int, r);
        assert(4 * cw * rows == 4 * cw * ((rows - 1) as nat) + 4 * cw) by (nonlinear_arith)
            requires
                rows > 0,
        ;
    } else {
        assert(4 * cw * rows == 0) by (nonlinear_arith)
            requires
                rows == 0,
        ;
    }
}

/// Byte `k` of pixel `(c, r)` of a window cut out by `crop_rows` is byte `k` of
/// pixel `(x + c, y + r)` of the image.
proof fn lemma_crop_rows_at(
    w: u32,
    h: u32,
    rgba: Seq<u8>,
    x: u32,
    y: u32,
    cw: u32,
    rows: nat,
    r: int,
    c: int,
    k: int,
)
    requires
        rgba.len() == 4 * w * h,
        x + cw <= w,
        y + rows <= h,
        0 <= r < rows,
        0 <= c < cw,
        0 <= k < 4,
    ensures
        crop_rows(w, rgba, x, y, cw, rows)[4 * (r * cw + c) + k] == rgba[4 * ((y + r) * w + x + c) + k],
    decreases rows,
{
    let prev = crop_rows(w, rgba, x, y, cw, (rows - 1) as nat);
    lemma_crop_rows_len(w, h, rgba, x, y, cw, (rows - 1) as nat);
    let last = y + rows - 1;
    lemma_row_in_bounds(w as int, h as int, x as int, cw as int, last);
    if r < rows - 1 {
        lemma_crop_rows_at(w, h, rgba, x, y, cw, (rows - 1) as nat, r, c, k);
        assert(4 * (r * cw + c) + k < 4 * cw * ((rows - 1) as nat)) by (nonlinear_arith)
            requires
                0 <= r < rows - 1,
                0 <= c < cw,
                0 <= k < 4,
        ;
    } else {
        assert(4 * (r * cw + c) + k == 4 * cw * ((rows - 1) as nat) + 4 * c + k) by (nonlinear_arith)
            requires
                r == rows - 1,
                rows >= 1,
        ;
        assert(4 * (last * w + x) + 4 * c + k == 4 * ((y + r) * w + x + c) + k);
    }
}

/// What the head of `skin` is: the face window's size, four bytes per pixel, and
/// each pixel drawn from the face and hat windows as `overlay_pixel_ok` says.
pub open spec fn head_drawn(skin: ImageModel, head: ImageModel) -> bool {
    let face = cropped(skin, 8, 8, 8, 8);
    let hat = cropped(skin, 40, 8, 8, 8);
    &&& head.0 == face.0
    &&& head.1 == face.1
    &&& head.2.len() == 4 * head.0 * head.1
    &&& forall|p: int| 0 <= p < head.0 * head.1 ==> #[trigger] overlay_pixel_ok(face, hat, head.2, p)
}

/// Byte `k` of the pixel at column `x`, row `y` of an image.
pub open spec fn image_byte(img: ImageModel, x: int, y: int, k: int) -> u8 {
    img.2[4 * (y * img.0 + x) + k]
}

/// Byte `c` of pixel `q` in RGB bytes, three per pixel.
pub open spec fn rgb_byte(rgb: Seq<u8>, q: int, c: int) -> u8 {
    rgb[3 * q + c]
}

/// Byte `k` of head pixel `(x, y)` in RGB bytes of an 8-pixel-wide head.
pub open spec fn head_rgb_at(rgb: Seq<u8>, x: int, y: int, k: int) -> u8 {
    rgb[3 * (8 * y + x) + k]
}

/// The RGB head of a skin of at least 48 by 16 pixels: 8 by 8 pixels, 192 bytes,
/// and where the hat pixel `(40 + x, 8 + y)` is opaque the head shows it, where it
/// is fully transparent the head shows the face pixel `(8 + x, 8 + y)`.
pub open spec fn head_rgb_drawn(skin: ImageModel, rgb: Seq<u8>) -> bool {
    &&& rgb.len() == 192
    &&& forall|x: int, y: int, k: int|
        0 <= x < 8 && 0 <= y < 8 && 0 <= k < 3 ==> {
            let alpha = image_byte(skin, 40 + x, 8 + y, 3);
            &&& alpha == 255 ==> #[trigger] head_rgb_at(rgb, x, y, k) == image_byte(skin, 40 + x, 8 + y, k)
            &&& alpha == 0 ==> head_rgb_at(rgb, x, y, k) == image_byte(skin, 8 + x, 8 + y, k)
        }
}

/// RGB bytes of an RGBA image of `n` pixels: three per pixel, alpha dropped.
proof fn lemma_rgba_to_rgb(rgba: Seq<u8>, n: int)
    requires
        n >= 0,
        rgba.len() == 4 * n,
    ensures
        rgba_to_rgb(rgba).len() == 3 * n,
        forall|q: int, k: int| 0 <= q < n && 0 <= k < 3 ==> #[trigger] rgba_to_rgb(rgba)[3 * q + k] == rgba[4 * q + k],
{
    assert forall|q: int, k: int| 0 <= q < n && 0 <= k < 3 implies #[trigger] rgba_to_rgb(rgba)[3 * q + k] == rgba[4 * q + k] by {
        assert((3 * q + k) / 3 == q);
        assert((3 * q + k) % 3 == k);
    }
}

/// For a skin of at least 48 by 16 pixels, the head drawn from it has 8 by 8
/// pixels and its RGB bytes show the hat over the face.
proof fn lemma_head_rgb_drawn(skin: ImageModel, head: ImageModel)
    requires
        skin.2.len() == 4 * skin.0 * skin.1,
        skin.0 >= 48,
        skin.1 >= 16,
        head_drawn(skin, head),
    ensures
        head.0 == 8 && head.1 == 8,
        head_rgb_drawn(skin, rgba_to_rgb(head.2)),
{
    let w = skin.0;
    let face = cropped(skin, 8, 8, 8, 8);
    let hat = cropped(skin, 40, 8, 8, 8);
    assert(face.0 == 8 && face.1 == 8);
    assert(hat.0 == 8 && hat.1 == 8);
    assert(face.2 == crop_rows(w, skin.2, 8, 8, 8, 8));
    assert(hat.2 == crop_rows(w, skin.2, 40, 8, 8, 8));
    lemma_crop_rows_len(w, skin.1, skin.2, 8, 8, 8, 8);
    lemma_crop_rows_len(w, skin.1, skin.2, 40, 8, 8, 8);
    assert(head.0 == 8 && head.1 == 8);
    assert(4 * head.0 * head.1 == 256) by (nonlinear_arith)
        requires
            head.0 == 8,
            head.1 == 8,
    ;
    let rgb = rgba_to_rgb(head.2);
    lemma_rgba_to_rgb(head.2, 64);
    assert forall|x: int, y: int, k: int| 0 <= x < 8 && 0 <= y < 8 && 0 <= k < 3 implies {
        let alpha = image_byte(skin, 40 + x, 8 + y, 3);
        &&& alpha == 255 ==> #[trigger] head_rgb_at(rgb, x, y, k) == image_byte(skin, 40 + x, 8 + y, k)
        &&& alpha == 0 ==> head_rgb_at(rgb, x, y, k) == image_byte(skin, 8 + x, 8 + y, k)
    } by {
        let p = 8 * y + x;
        assert(overlay_pixel_ok(face, hat, head.2, p));
        assert(p % 8 == x && p / 8 == y);
        lemma_crop_rows_at(w, skin.1, skin.2, 40, 8, 8, 8, y, x, 3);
        lemma_crop_rows_at(w, skin.1, skin.2, 40, 8, 8, 8, y, x, k);
        lemma_crop_rows_at(w, skin.1, skin.2, 8, 8, 8, 8, y, x, k);
        assert(rgb[3 * p + k] == head.2[4 * p + k]);
        assert(pixel(head.2, p)[k] == head.2[4 * p + k]);
        assert(pixel(hat.2, p)[k] == hat.2[4 * p + k]);
        assert(pixel(face.2, p)[k] == face.2[4 * p + k]);
    }
}

/// The head of a skin is one blend of the hat window at (40, 8) over the face
/// window at (8, 8): its size is the face window's, and its bytes are a single
/// `image::imageops::overlay` of the hat onto the face at (0, 0).
pub proof fn lemma_head_is_one_overlay(skin: ImageModel)
    ensures
        head_layers(skin).0 == cropped(skin, 8, 8, 8, 8).0,
        head_layers(skin).1 == cropped(skin, 8, 8, 8, 8).1,
        head_layers(skin).2 == rgba8_overlay(cropped(skin, 8, 8, 8, 8), cropped(skin, 40, 8, 8, 8), 0, 0),
{
}

/// The RGB bytes of a whole image are its decoded pixels in place, alpha
/// dropped: byte `c` of pixel `q` is byte `c` of decoded pixel `q`, for every
/// pixel and each of red, green and blue.
pub proof fn lemma_image_rgb_is_decoded_pixels(bytes: Seq<u8>, rgb: Seq<u8>)
    requires
        image_rgb_of(bytes) == Some(rgb),
    ensures
        png_decode_rgba8(bytes) matches Some(img) && {
            &&& rgb.len() == 3 * (img.2.len() / 4)
            &&& forall|q: int, c: int|
                0 <= q < img.2.len() / 4 && 0 <= c < 3 ==> #[trigger] rgb_byte(rgb, q, c) == img.2[4 * q + c]
        },
{
    let img = png_decode_rgba8(bytes)->Some_0;
    assert forall|q: int, c: int| 0 <= q < img.2.len() / 4 && 0 <= c < 3 implies #[trigger] rgb_byte(rgb, q, c) == img.2[4 * q + c] by {
        assert((3 * q + c) / 3 == q);
        assert((3 * q + c) % 3 == c);
    }
}

/// The head of a decoded skin, with its hat layer, as an RGBA image: the size of
/// the face window, each pixel blended from the face and hat windows.
pub fn head_of(skin: &Raster) -> (head: Raster)
    requires
        skin.wf(),
    ensures
        head.model() == head_layers(skin.model()),
        head.wf(),
        head_drawn(skin.model(), head.model()),
        head.rgba@ == rgba8_overlay(cropped(skin.model(), 8, 8, 8, 8), cropped(skin.model(), 40, 8, 8, 8), 0, 0),
{
    let mut face = crop_raster(skin, 8, 8, 8, 8);
    let hat = crop_raster(skin, 40, 8, 8, 8);
    overlay_raster(&mut face, &hat, 0, 0);
    face
}

/// The head of a PNG skin, with its hat layer, encoded as PNG in the skin's own
/// pixel layout. A skin that is not a PNG is answered 502; a head that cannot be
/// encoded, 500.
pub fn extract_head_png(skin_bytes: &[u8]) -> (r: Result<Vec<u8>, Reply>)
    ensures
        png_decode_rgba8(skin_bytes@) is None ==> (r matches Err(e) && is_error_reply(e, "failed to parse skin image"@, 502)),
        png_decode_rgba8(skin_bytes@) matches Some(skin) ==> png_pixel_format(skin_bytes@) matches Some(f)
            && match png_encode(head_layers(skin), f) {
            Some(png) => r matches Ok(v) && v@ == png,
            None => r matches Err(e) && is_error_reply(e, "failed to encode head image"@, 500),
        },
        png_decode_rgba8(skin_bytes@) matches Some(skin) ==> {
            &&& skin.2.len() == 4 * skin.0 * skin.1
            &&& head_drawn(skin, head_layers(skin))
            &&& skin.0 >= 48 && skin.1 >= 16 ==> head_layers(skin).0 == 8 && head_layers(skin).1 == 8
        },
{
    let (skin, format) = match decode_png(skin_bytes) {
        Some(s) => s,
        None => return Err(json_error("failed to parse skin image", 502)),
    };
    let head = head_of(&skin);
    proof {
        if skin.width >= 48 && skin.height >= 16 {
            lemma_head_rgb_drawn(skin.model(), head.model());
        }
    }
    match encode_png(head, format) {
        Some(png) => Ok(png),
        None => Err(json_error("failed to encode head image", 500)),
    }
}

/// What `extract_head_rgb` yields for the skin bytes, when they decode.
pub open spec fn head_rgb_of(skin_bytes: Seq<u8>) -> Option<Seq<u8>> {
    match png_decode_rgba8(skin_bytes) {
        Some(skin) => Some(rgba_to_rgb(head_layers(skin).2)),
        None => None,
    }
}

/// What `extract_image_rgb` yields for the image bytes, when they decode.
pub open spec fn image_rgb_of(image_bytes: Seq<u8>) -> Option<Seq<u8>> {
    match png_decode_rgba8(image_bytes) {
        Some(img) => Some(rgba_to_rgb(img.2)),
        None => None,
    }
}

/// The head of a PNG skin, with its hat layer, as raw RGB bytes. A skin that is
/// not a PNG is answered 502.
pub fn extract_head_rgb(skin_bytes: &[u8]) -> (r: Result<Vec<u8>, Reply>)
    ensures
        head_rgb_of(skin_bytes@) matches Some(rgb) ==> (r matches Ok(v) && v@ == rgb),
        head_rgb_of(skin_bytes@) is None ==> (r matches Err(e) && is_error_reply(e, "failed to parse skin image"@, 502)),
        png_decode_rgba8(skin_bytes@) matches Some(skin) ==> {
            &&& skin.2.len() == 4 * skin.0 * skin.1
            &&& head_drawn(skin, head_layers(skin))
            &&& r matches Ok(v) && v@.len() == 3 * head_layers(skin).0 * head_layers(skin).1
            &&& skin.0 >= 48 && skin.1 >= 16 ==> (r matches Ok(v) && head_rgb_drawn(skin, v@))
            &&& r matches Ok(v) && forall|q: int, c: int|
                0 <= q < head_layers(skin).0 * head_layers(skin).1 && 0 <= c < 3 ==> #[trigger] rgb_byte(v@, q, c)
                    == rgba8_overlay(cropped(skin, 8, 8, 8, 8), cropped(skin, 40, 8, 8, 8), 0, 0)[4 * q + c]
        },
{
    let (skin, _format) = match decode_png(skin_bytes) {
        Some(s) => s,
        None => return Err(json_error("failed to parse skin image", 502)),
    };
    let head = head_of(&skin);
    proof {
        let n = head.width * head.height;
        assert(head.rgba@.len() == 4 * n) by (nonlinear_arith)
            requires
                head.rgba@.len() == 4 * head.width * head.height,
                n == head.width * head.height,
        ;
        lemma_rgba_to_rgb(head.rgba@, n);
        assert(3 * n == 3 * head.width * head.height) by (nonlinear_arith)
            requires
                n == head.width * head.height,
        ;
        if skin.width >= 48 && skin.height >= 16 {
            lemma_head_rgb_drawn(skin.model(), head.model());
        }
    }
    Ok(raster_into_rgb8(head))
}

/// A whole PNG image as raw RGB bytes. Bytes that are not a PNG are answered 502.
pub fn extract_image_rgb(image_bytes: &[u8]) -> (r: Result<Vec<u8>, Reply>)
    ensures
        image_rgb_of(image_bytes@) matches Some(rgb) ==> (r matches Ok(v) && v@ == rgb),
        image_rgb_of(image_bytes@) is None ==> (r matches Err(e) && is_error_reply(e, "failed to parse image"@, 502)),
        png_decode_rgba8(image_bytes@) matches Some(img) ==> {
            &&& img.2.len() == 4 * img.0 * img.1
            &&& r matches Ok(v) && v@.len() == 3 * img.0 * img.1
            &&& r matches Ok(v) && forall|q: int, c: int|
                0 <= q < img.0 * img.1 && 0 <= c < 3 ==> #[trigger] rgb_byte(v@, q, c) == img.2[4 * q + c]
        },
{
    match decode_png(image_bytes) {
        Some((img, _format)) => {
            proof {
                let n = img.width * img.height;
                assert(img.rgba@.len() == 4 * n) by (nonlinear_arith)
                    requires
                        img.rgba@.len() == 4 * img.width * img.height,
                        n == img.width * img.height,
                ;
                lemma_rgba_to_rgb(img.rgba@, n);
                assert(3 * n == 3 * img.width * img.height) by (nonlinear_arith)
                    requires
                        n == img.width * img.height,
                ;
            }
            Ok(raster_into_rgb8(img))
        },
        None => Err(json_error("failed to parse image", 502)),
    }
}

} // verus!
