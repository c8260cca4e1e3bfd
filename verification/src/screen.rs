//! Drawing into macroquad images: single pixels, filled rectangles, and
//! other images. Colors are given as the four RGBA bytes that an image
//! stores per pixel.
use macroquad::color::Color;
use macroquad::texture::Image;

use vstd::prelude::*;

verus! {

/// macroquad's CPU-side image: RGBA bytes, row by row, and its size.
#[verifier::external_type_specification]
#[verifier::external_body]
pub struct ExImage(Image);

/// The bytes of an image: four per pixel, row after row.
pub uninterp spec fn image_bytes(img: Image) -> Seq<u8>;

/// The width of an image, in pixels.
pub uninterp spec fn image_width(img: Image) -> u16;

/// The height of an image, in pixels.
pub uninterp spec fn image_height(img: Image) -> u16;

/// An image whose bytes are exactly four per pixel, as macroquad's pixel
/// access asserts.
pub open spec fn image_ok(img: Image) -> bool {
    image_bytes(img).len() == 4 * image_width(img) * image_height(img)
}

/// The four bytes of pixel `i` (counted row after row).
pub open spec fn pixel_of(bytes: Seq<u8>, i: int) -> Seq<u8> {
    bytes.subrange(4 * i, 4 * i + 4)
}

/// `bytes` with pixel `i` replaced by `px`.
pub open spec fn with_pixel(bytes: Seq<u8>, i: int, px: Seq<u8>) -> Seq<u8> {
    bytes.subrange(0, 4 * i) + px + bytes.subrange(4 * i + 4, bytes.len() as int)
}

/// The index of pixel (x, y) in an image `w` pixels wide.
pub open spec fn pixel_index(w: int, x: int, y: int) -> int {
    y * w + x
}

/// Calls `Image::width`. Claims: the image's width.
#[verifier::external_body]
fn width_of(img: &Image) -> (r: usize)
    ensures
        r == image_width(*img),
{
    img.width()
}

/// Calls `Image::height`. Claims: the image's height.
#[verifier::external_body]
fn height_of(img: &Image) -> (r: usize)
    ensures
        r == image_height(*img),
{
    img.height()
}

/// Reads the length of the image's `bytes` field (`Vec::len`).
/// Claims: the number of bytes the image holds.
#[verifier::external_body]
fn byte_count_of(img: &Image) -> (r: usize)
    ensures
        r == image_bytes(*img).len(),
{
    img.bytes.len()
}

/// Whether the image holds exactly four bytes per pixel, the condition that
/// macroquad asserts on every pixel access.
pub fn image_is_well_formed(img: &Image) -> (r: bool)
    ensures
        r == image_ok(*img),
{
    let w = width_of(img);
    let h = height_of(img);
    let n = byte_count_of(img);
    let w64 = w as u64;
    let h64 = h as u64;
    assert(4 * w64 * h64 <= 4 * 0xffff * 0xffff && 4 * w64 * h64 == 4 * (w64 * h64))
        by (nonlinear_arith)
        requires
            w64 <= 0xffff,
            h64 <= 0xffff,
    ;
    n as u64 == 4 * (w64 * h64)
}

/// Calls `Image::get_pixel` and turns the color back into RGBA bytes.
/// Claims: the four bytes of pixel (x, y). macroquad divides each byte by
/// 255 into an `f32`; multiplying by 255 and truncating, as the conversion
/// back does, gives every byte value back exactly.
#[verifier::external_body]
fn pixel_get(img: &Image, x: u32, y: u32) -> (r: [u8; 4])
    requires
        image_ok(*img),
        x < image_width(*img),
        y < image_height(*img),
    ensures
        r@ == pixel_of(image_bytes(*img), pixel_index(image_width(*img) as int, x as int, y as int)),
{
    <[u8; 4]>::from(img.get_pixel(x, y))
}

/// Calls `Image::set_pixel` with the color that the RGBA bytes stand for.
/// Claims: pixel (x, y) now holds those bytes (the conversion to `f32` and
/// back is exact, as for `pixel_get`); nothing else changes.
#[verifier::external_body]
fn pixel_set(img: &mut Image, x: u32, y: u32, px: [u8; 4])
    requires
        image_ok(*old(img)),
        x < image_width(*old(img)),
        y < image_height(*old(img)),
    ensures
        image_width(*final(img)) == image_width(*old(img)),
        image_height(*final(img)) == image_height(*old(img)),
        image_bytes(*final(img)) == with_pixel(
            image_bytes(*old(img)),
            pixel_index(image_width(*old(img)) as int, x as int, y as int),
            px@,
        ),
{
    img.set_pixel(x, y, Color::from(px))
}

/// Writing one pixel leaves every other pixel as it was.
proof fn lemma_with_pixel(bytes: Seq<u8>, n: int, i: int, px: Seq<u8>, j: int)
    requires
        bytes.len() == 4 * n,
        0 <= i < n,
        0 <= j < n,
        px.len() == 4,
    ensures
        with_pixel(bytes, i, px).len() == bytes.len(),
        pixel_of(with_pixel(bytes, i, px), j) == (if j == i {
            px
        } else {
            pixel_of(bytes, j)
        }),
{
    let b2 = with_pixel(bytes, i, px);
    if j == i {
        assert(pixel_of(b2, j) =~= px);
    } else {
        assert(pixel_of(b2, j) =~= pixel_of(bytes, j));
    }
}

/// Distinct cells of a grid have distinct indices.
proof fn lemma_pixel_index_unique(w: int, x1: int, y1: int, x2: int, y2: int)
    requires
        0 <= x1 < w,
        0 <= x2 < w,
        0 <= y1,
        0 <= y2,
        pixel_index(w, x1, y1) == pixel_index(w, x2, y2),
    ensures
        x1 == x2 && y1 == y2,
{
    if y1 < y2 {
        assert(y1 * w + w <= y2 * w) by (nonlinear_arith)
            requires
                y1 < y2,
                0 <= w,
        ;
    } else if y2 < y1 {
        assert(y2 * w + w <= y1 * w) by (nonlinear_arith)
            requires
                y2 < y1,
                0 <= w,
        ;
    }
}

/// Pixel (x, y) of a `w` by `h` grid lies inside it.
proof fn lemma_pixel_index_in(w: int, h: int, x: int, y: int)
    requires
        0 <= x < w,
        0 <= y < h,
    ensures
        0 <= pixel_index(w, x, y) < w * h,
{
    assert(0 <= y * w + x < w * h) by (nonlinear_arith)
        requires
            0 <= x < w,
            0 <= y < h,
    ;
}

/// Sets pixel (x, y) to `color`, when it lies inside the image; otherwise
/// does nothing.
pub fn draw_pixel(image: &mut Image, x: usize, y: usize, color: [u8; 4])
    requires
        x < image_width(*old(image)) && y < image_height(*old(image)) ==> image_ok(*old(image)),
    ensures
        image_width(*final(image)) == image_width(*old(image)),
        image_height(*final(image)) == image_height(*old(image)),
        image_bytes(*final(image)) == (if x < image_width(*old(image)) && y < image_height(
            *old(image),
        ) {
            with_pixel(
                image_bytes(*old(image)),
                pixel_index(image_width(*old(image)) as int, x as int, y as int),
                color@,
            )
        } else {
            image_bytes(*old(image))
        }),
{
    if x >= width_of(image) || y >= height_of(image) {
        return ;
    }
    pixel_set(image, x as u32, y as u32, color);
}

/// What drawing pixel (cx, cy) does to each pixel of an image.
proof fn lemma_draw_step(
    old_b: Seq<u8>,
    new_b: Seq<u8>,
    iw: int,
    ih: int,
    cx: int,
    cy: int,
    color: Seq<u8>,
)
    requires
        0 <= iw,
        0 <= ih,
        0 <= cx,
        0 <= cy,
        old_b.len() == 4 * iw * ih,
        color.len() == 4,
        new_b == (if cx < iw && cy < ih {
            with_pixel(old_b, pixel_index(iw, cx, cy), color)
        } else {
            old_b
        }),
    ensures
        new_b.len() == old_b.len(),
        forall|px: int, py: int|
            0 <= px < iw && 0 <= py < ih ==> #[trigger] pixel_of(new_b, pixel_index(iw, px, py))
                == (if px == cx && py == cy {
                color
            } else {
                pixel_of(old_b, pixel_index(iw, px, py))
            }),
{
    assert(4 * iw * ih == 4 * (iw * ih)) by (nonlinear_arith);
    if cx < iw && cy < ih {
        lemma_pixel_index_in(iw, ih, cx, cy);
        lemma_with_pixel(old_b, iw * ih, pixel_index(iw, cx, cy), color, 0);
        assert forall|px: int, py: int| 0 <= px < iw && 0 <= py < ih implies #[trigger] pixel_of(
            new_b,
            pixel_index(iw, px, py),
        ) == (if px == cx && py == cy {
            color
        } else {
            pixel_of(old_b, pixel_index(iw, px, py))
        }) by {
            lemma_pixel_index_in(iw, ih, px, py);
            lemma_with_pixel(old_b, iw * ih, pixel_index(iw, cx, cy), color, pixel_index(iw, px, py));
            if pixel_index(iw, px, py) == pixel_index(iw, cx, cy) {
                lemma_pixel_index_unique(iw, px, py, cx, cy);
            }
        }
    }
}

/// Whether (px, py) lies in the rectangle with corner (x, y), `w` wide and `h` high.
pub open spec fn in_rect(px: int, py: int, x: int, y: int, w: int, h: int) -> bool {
    x <= px < x + w && y <= py < y + h
}

/// Whether a `w` by `h` rectangle with corner (x, y) covers some pixel of
/// an `iw` by `ih` image.
pub open spec fn rect_meets(x: int, y: int, w: int, h: int, iw: int, ih: int) -> bool {
    w > 0 && h > 0 && x < iw && y < ih
}

/// Fills the part of the rectangle with corner (x, y), `w` wide and `h`
/// high, that lies inside the image with `color`.
pub fn draw_rect(image: &mut Image, x: usize, y: usize, w: usize, h: usize, color: [u8; 4])
    requires
        rect_meets(
            x as int,
            y as int,
            w as int,
            h as int,
            image_width(*old(image)) as int,
            image_height(*old(image)) as int,
        ) ==> image_ok(*old(image)),
        w > 0 && h > 0 ==> x + w - 1 <= usize::MAX && y + h - 1 <= usize::MAX,
    ensures
        image_width(*final(image)) == image_width(*old(image)),
        image_height(*final(image)) == image_height(*old(image)),
        image_bytes(*final(image)).len() == image_bytes(*old(image)).len(),
        !rect_meets(
            x as int,
            y as int,
            w as int,
            h as int,
            image_width(*old(image)) as int,
            image_height(*old(image)) as int,
        ) ==> image_bytes(*final(image)) == image_bytes(*old(image)),
        forall|px: int, py: int|
            0 <= px < image_width(*old(image)) && 0 <= py < image_height(*old(image))
                ==> #[trigger] pixel_of(
                image_bytes(*final(image)),
                pixel_index(image_width(*old(image)) as int, px, py),
            ) == (if in_rect(px, py, x as int, y as int, w as int, h as int) {
                color@
            } else {
                pixel_of(
                    image_bytes(*old(image)),
                    pixel_index(image_width(*old(image)) as int, px, py),
                )
            }),
{
    let ghost iw = image_width(*image) as int;
    let ghost ih = image_height(*image) as int;
    let ghost b0 = image_bytes(*image);
    let ghost meets = rect_meets(x as int, y as int, w as int, h as int, iw, ih);
    // Loop thru length and width adding px by px.
    for i in 0..w
        invariant
            w > 0 && h > 0 ==> x + w - 1 <= usize::MAX && y + h - 1 <= usize::MAX,
            iw == image_width(*image),
            ih == image_height(*image),
            meets == rect_meets(x as int, y as int, w as int, h as int, iw, ih),
            meets ==> image_ok(*image) && b0.len() == 4 * iw * ih,
            !meets ==> image_bytes(*image) == b0,
            image_bytes(*image).len() == b0.len(),
            forall|px: int, py: int|
                0 <= px < iw && 0 <= py < ih ==> #[trigger] pixel_of(
                    image_bytes(*image),
                    pixel_index(iw, px, py),
                ) == (if in_rect(px, py, x as int, y as int, i as int, h as int) {
                    color@
                } else {
                    pixel_of(b0, pixel_index(iw, px, py))
                }),
    {
        for j in 0..h
            invariant
                w > 0 && h > 0 ==> x + w - 1 <= usize::MAX && y + h - 1 <= usize::MAX,
                i < w,
                iw == image_width(*image),
                ih == image_height(*image),
                meets == rect_meets(x as int, y as int, w as int, h as int, iw, ih),
                meets ==> image_ok(*image) && b0.len() == 4 * iw * ih,
                !meets ==> image_bytes(*image) == b0,
                image_bytes(*image).len() == b0.len(),
                forall|px: int, py: int|
                    0 <= px < iw && 0 <= py < ih ==> #[trigger] pixel_of(
                        image_bytes(*image),
                        pixel_index(iw, px, py),
                    ) == (if in_rect(px, py, x as int, y as int, i as int, h as int) || (px == x
                        + i && y <= py < y + j) {
                        color@
                    } else {
                        pixel_of(b0, pixel_index(iw, px, py))
                    }),
        {
            let cx = x + i;
            let cy = y + j;
            let ghost before = image_bytes(*image);
            draw_pixel(image, cx, cy, color);
            proof {
                if meets {
                    lemma_draw_step(before, image_bytes(*image), iw, ih, cx as int, cy as int, color@);
                } else {
                    assert(!(cx < iw && cy < ih));
                    assert forall|px: int, py: int| 0 <= px < iw && 0 <= py < ih implies !(px == x
                        + i && y <= py < y + j + 1) && !in_rect(
                        px,
                        py,
                        x as int,
                        y as int,
                        i as int,
                        h as int,
                    ) by {}
                }
            }
        }
    }
}

/// Copies `image` into `buffer` with its corner at (x, y), leaving out what
/// falls outside the buffer.
pub fn draw_image(buffer: &mut Image, x: usize, y: usize, image: &Image)
    requires
        rect_meets(
            x as int,
            y as int,
            image_width(*image) as int,
            image_height(*image) as int,
            image_width(*old(buffer)) as int,
            image_height(*old(buffer)) as int,
        ) ==> image_ok(*old(buffer)),
        // the source is read wherever the target corner lies at most at the
        // buffer's edge
        rect_meets(
            x as int,
            y as int,
            image_width(*image) as int,
            image_height(*image) as int,
            image_width(*old(buffer)) + 1,
            image_height(*old(buffer)) + 1,
        ) ==> image_ok(*image),
        image_width(*image) > 0 && image_height(*image) > 0 ==> x + image_width(*image) - 1
            <= usize::MAX && y + image_height(*image) - 1 <= usize::MAX,
    ensures
        image_width(*final(buffer)) == image_width(*old(buffer)),
        image_height(*final(buffer)) == image_height(*old(buffer)),
        image_bytes(*final(buffer)).len() == image_bytes(*old(buffer)).len(),
        !rect_meets(
            x as int,
            y as int,
            image_width(*image) as int,
            image_height(*image) as int,
            image_width(*old(buffer)) as int,
            image_height(*old(buffer)) as int,
        ) ==> image_bytes(*final(buffer)) == image_bytes(*old(buffer)),
        forall|px: int, py: int|
            0 <= px < image_width(*old(buffer)) && 0 <= py < image_height(*old(buffer))
                ==> #[trigger] pixel_of(
                image_bytes(*final(buffer)),
                pixel_index(image_width(*old(buffer)) as int, px, py),
            ) == (if in_rect(
                px,
                py,
                x as int,
                y as int,
                image_width(*image) as int,
                image_height(*image) as int,
            ) {
                pixel_of(
                    image_bytes(*image),
                    pixel_index(image_width(*image) as int, px - x, py - y),
                )
            } else {
                pixel_of(
                    image_bytes(*old(buffer)),
                    pixel_index(image_width(*old(buffer)) as int, px, py),
                )
            }),
{
    let w = width_of(buffer);
    let h = height_of(buffer);
    let img_w = width_of(image);
    let img_h = height_of(image);
    let ghost iw = w as int;
    let ghost ih = h as int;
    let ghost b0 = image_bytes(*buffer);
    let ghost src = image_bytes(*image);
    let ghost meets = rect_meets(x as int, y as int, img_w as int, img_h as int, iw, ih);
    let ghost reads = rect_meets(x as int, y as int, img_w as int, img_h as int, iw + 1, ih + 1);
    for i in 0..img_w
        invariant
            img_w == image_width(*image),
            img_h == image_height(*image),
            src == image_bytes(*image),
            reads == rect_meets(x as int, y as int, img_w as int, img_h as int, iw + 1, ih + 1),
            reads ==> image_ok(*image),
            img_w > 0 && img_h > 0 ==> x + img_w - 1 <= usize::MAX && y + img_h - 1 <= usize::MAX,
            w == iw,
            h == ih,
            iw == image_width(*buffer),
            ih == image_height(*buffer),
            meets == rect_meets(x as int, y as int, img_w as int, img_h as int, iw, ih),
            meets ==> image_ok(*buffer) && b0.len() == 4 * iw * ih,
            !meets ==> image_bytes(*buffer) == b0,
            image_bytes(*buffer).len() == b0.len(),
            forall|px: int, py: int|
                0 <= px < iw && 0 <= py < ih ==> #[trigger] pixel_of(
                    image_bytes(*buffer),
                    pixel_index(iw, px, py),
                ) == (if in_rect(px, py, x as int, y as int, i as int, img_h as int) {
                    pixel_of(src, pixel_index(img_w as int, px - x, py - y))
                } else {
                    pixel_of(b0, pixel_index(iw, px, py))
                }),
    {
        for j in 0..img_h
            invariant
                img_w == image_width(*image),
                img_h == image_height(*image),
                src == image_bytes(*image),
                reads == rect_meets(x as int, y as int, img_w as int, img_h as int, iw + 1, ih + 1),
                reads ==> image_ok(*image),
                img_w > 0 && img_h > 0 ==> x + img_w - 1 <= usize::MAX && y + img_h - 1
                    <= usize::MAX,
                i < img_w,
                w == iw,
                h == ih,
                iw == image_width(*buffer),
                ih == image_height(*buffer),
                meets == rect_meets(x as int, y as int, img_w as int, img_h as int, iw, ih),
                meets ==> image_ok(*buffer) && b0.len() == 4 * iw * ih,
                !meets ==> image_bytes(*buffer) == b0,
                image_bytes(*buffer).len() == b0.len(),
                forall|px: int, py: int|
                    0 <= px < iw && 0 <= py < ih ==> #[trigger] pixel_of(
                        image_bytes(*buffer),
                        pixel_index(iw, px, py),
                    ) == (if in_rect(px, py, x as int, y as int, i as int, img_h as int) || (px
                        == x + i && y <= py < y + j) {
                        pixel_of(src, pixel_index(img_w as int, px - x, py - y))
                    } else {
                        pixel_of(b0, pixel_index(iw, px, py))
                    }),
        {
            let cx = x + i;
            let cy = y + j;
            if cx <= w && cy <= h {
                let px = pixel_get(image, i as u32, j as u32);
                let ghost before = image_bytes(*buffer);
                draw_pixel(buffer, cx, cy, px);
                proof {
                    if meets {
                        lemma_draw_step(
                            before,
                            image_bytes(*buffer),
                            iw,
                            ih,
                            cx as int,
                            cy as int,
                            px@,
                        );
                    } else {
                        assert(!(cx < iw && cy < ih));
                        assert forall|px: int, py: int| 0 <= px < iw && 0 <= py < ih implies !(px
                            == x + i && y <= py < y + j + 1) && !in_rect(
                            px,
                            py,
                            x as int,
                            y as int,
                            i as int,
                            img_h as int,
                        ) by {}
                    }
                }
            }
        }
    }
}

/// The decimal digits of `n`, as ASCII bytes, without leading zeros.
pub open spec fn decimal(n: nat) -> Seq<u8>
    decreases n,
{
    if n < 10 {
        seq![(48 + n) as u8]
    } else {
        decimal(n / 10).push((48 + n % 10) as u8)
    }
}

/// Appends the decimal digits of `n`.
fn push_decimal(out: &mut Vec<u8>, n: usize)
    ensures
        final(out)@ == old(out)@ + decimal(n as nat),
    decreases n,
{
    if n >= 10 {
        push_decimal(out, n / 10);
    }
    out.push((48 + n % 10) as u8);
    proof {
        if n < 10 {
            assert(n % 10 == n);
        }
    }
}

/// The header of a plain PPM file: magic number, width, height and the
/// largest color value, each followed by a line break or a space.
pub open spec fn ppm_header(w: nat, h: nat) -> Seq<u8> {
    seq![80u8, 51u8, 10u8] + decimal(w) + seq![32u8] + decimal(h) + seq![10u8, 50u8, 53u8, 53u8, 10u8]
}

/// The text of pixel `i`: its red, green and blue values separated by
/// spaces, then a line break when `i` is a multiple of the width and a
/// space otherwise.
pub open spec fn ppm_pixel(bytes: Seq<u8>, i: int, w: int) -> Seq<u8> {
    let p = pixel_of(bytes, i);
    decimal(p[0] as nat) + seq![32u8] + decimal(p[1] as nat) + seq![32u8] + decimal(p[2] as nat)
        + (if i % w != 0 {
        seq![32u8]
    } else {
        seq![10u8]
    })
}

/// The text of the first `k` pixels.
pub open spec fn ppm_pixels(bytes: Seq<u8>, w: int, k: nat) -> Seq<u8>
    decreases k,
{
    if k == 0 {
        Seq::empty()
    } else {
        ppm_pixels(bytes, w, (k - 1) as nat) + ppm_pixel(bytes, k - 1, w)
    }
}

/// An image as the text of a plain (P3) PPM file.
pub open spec fn ppm(img: Image) -> Seq<u8> {
    ppm_header(image_width(img) as nat, image_height(img) as nat) + ppm_pixels(
        image_bytes(img),
        image_width(img) as int,
        (image_width(img) * image_height(img)) as nat,
    )
}

/// The value of a sequence of ASCII decimal digits.
pub open spec fn digits_value(s: Seq<u8>) -> nat
    decreases s.len(),
{
    if s.len() == 0 {
        0
    } else {
        digits_value(s.drop_last()) * 10 + (s.last() - 48) as nat
    }
}

/// `decimal(n)` is the decimal notation of `n`: ASCII digits, without a
/// leading zero unless `n` is zero, whose value is `n`.
pub proof fn decimal_is_notation(n: nat)
    ensures
        decimal(n).len() > 0,
        forall|i: int| 0 <= i < decimal(n).len() ==> 48 <= #[trigger] decimal(n)[i] <= 57,
        n > 0 ==> decimal(n)[0] != 48,
        digits_value(decimal(n)) == n,
    decreases n,
{
    if n >= 10 {
        decimal_is_notation(n / 10);
        let d = decimal(n);
        assert(d.drop_last() == decimal(n / 10));
        assert forall|i: int| 0 <= i < d.len() implies 48 <= #[trigger] d[i] <= 57 by {
            if i < d.len() - 1 {
                assert(d[i] == decimal(n / 10)[i]);
            }
        }
        assert(d[0] == decimal(n / 10)[0]);
        assert(d.last() == (48 + n % 10) as u8);
        assert(0 <= n % 10 < 10);
        assert(((48 + n % 10) as u8 - 48) as nat == n % 10);
        assert(digits_value(d) == digits_value(decimal(n / 10)) * 10 + (d.last() - 48) as nat);
        assert(n == (n / 10) * 10 + n % 10);
    } else {
        let d = decimal(n);
        assert(d.drop_last() =~= Seq::<u8>::empty());
        assert(((48 + n) as u8 - 48) as nat == n);
        assert(digits_value(d) == digits_value(d.drop_last()) * 10 + (d.last() - 48) as nat);
    }
}

/// The length of the PPM header of an image.
pub open spec fn ppm_header_len(img: Image) -> int {
    (3 + decimal(image_width(img) as nat).len() + 1 + decimal(image_height(img) as nat).len() + 5) as int
}

/// The PPM text of an image opens with "P3", then the image's width, a
/// space and its height, then the largest color value 255, each line ended
/// by a line break.
pub proof fn ppm_opens_with_size(img: Image)
    ensures
        ppm(img).take(ppm_header_len(img)) == seq![80u8, 51u8, 10u8] + decimal(
            image_width(img) as nat,
        ) + seq![32u8] + decimal(image_height(img) as nat) + seq![10u8, 50u8, 53u8, 53u8, 10u8],
{
    let h = seq![80u8, 51u8, 10u8] + decimal(image_width(img) as nat) + seq![32u8] + decimal(
        image_height(img) as nat,
    ) + seq![10u8, 50u8, 53u8, 53u8, 10u8];
    assert(ppm(img).take(ppm_header_len(img)) =~= h);
}

/// The text of a plain PPM file showing the image.
pub fn ppm_text(image: &Image) -> (r: Vec<u8>)
    requires
        image_ok(*image),
    ensures
        r@ == ppm(*image),
        // "P3", the width, a space, the height, then "255", each line ended
        r@.take(ppm_header_len(*image)) == seq![80u8, 51u8, 10u8] + decimal(
            image_width(*image) as nat,
        ) + seq![32u8] + decimal(image_height(*image) as nat) + seq![10u8, 50u8, 53u8, 53u8, 10u8],
{
    let w = width_of(image);
    let h = height_of(image);
    let ghost bytes = image_bytes(*image);
    let mut out: Vec<u8> = Vec::new();
    out.push(80);
    out.push(51);
    out.push(10);
    push_decimal(&mut out, w);
    out.push(32);
    push_decimal(&mut out, h);
    out.push(10);
    out.push(50);
    out.push(53);
    out.push(53);
    out.push(10);
    let ghost header = out@;
    assert(header =~= ppm_header(w as nat, h as nat));
    let mut y: usize = 0;
    while y < h
        invariant
            w == image_width(*image),
            h == image_height(*image),
            bytes == image_bytes(*image),
            image_ok(*image),
            y <= h,
            out@ == header + ppm_pixels(bytes, w as int, (y * w) as nat),
        decreases h - y,
    {
        let mut x: usize = 0;
        while x < w
            invariant
                w == image_width(*image),
                h == image_height(*image),
                bytes == image_bytes(*image),
                image_ok(*image),
                y < h,
                x <= w,
                out@ == header + ppm_pixels(bytes, w as int, (y * w + x) as nat),
            decreases w - x,
        {
            let p = pixel_get(image, x as u32, y as u32);
            let ghost before = out@;
            push_decimal(&mut out, p[0] as usize);
            out.push(32);
            push_decimal(&mut out, p[1] as usize);
            out.push(32);
            push_decimal(&mut out, p[2] as usize);
            if x != 0 {
                out.push(32);
            } else {
                out.push(10);
            }
            proof {
                let i = y * w + x;
                assert(i % (w as int) == x) by {
                    vstd::arithmetic::div_mod::lemma_fundamental_div_mod_converse(
                        i as int,
                        w as int,
                        y as int,
                        x as int,
                    );
                }
                assert(pixel_index(w as int, x as int, y as int) == i);
                assert(ppm_pixels(bytes, w as int, (i + 1) as nat) == ppm_pixels(
                    bytes,
                    w as int,
                    i as nat,
                ) + ppm_pixel(bytes, i as int, w as int));
                assert(out@ =~= before + ppm_pixel(bytes, i as int, w as int));
            }
            x = x + 1;
        }
        proof {
            assert(y * w + w == (y + 1) * w) by (nonlinear_arith);
        }
        y = y + 1;
    }
    proof {
        assert(h * w == w * h) by (nonlinear_arith);
        ppm_opens_with_size(*image);
    }
    out
}

} // verus!
