//! The compositor and scaler: extract the head and hat front regions from
//! an atlas, alpha-blend hat over head into an opaque RGB face, and
//! upscale by powers of two with nearest-neighbor sampling.

use vstd::prelude::*;

use image::Pixel;

use crate::skin::AtlasImage;
use crate::skin::Skin;
use crate::skin::TexRegion;
use crate::skin::MAX_DIM;
use crate::skin::lemma_pixel_index;
use crate::skin::region_in_bounds;

verus! {

/// An opaque RGB pixel grid: three bytes per pixel, row-major.
#[derive(Debug)]
pub struct FaceImage {
    pub pixels: Vec<u8>,
    pub width: u32,
    pub height: u32,
}

/// The RGB triple stored at `(x, y)` of a `width`-wide three-channel grid.
pub open spec fn pixel_triple(s: Seq<u8>, width: int, x: int, y: int) -> (u8, u8, u8) {
    let base = 3 * (y * width + x);
    (s[base], s[base + 1], s[base + 2])
}

impl FaceImage {
    pub open spec fn wf(self) -> bool {
        &&& 1 <= self.width <= MAX_DIM
        &&& 1 <= self.height <= MAX_DIM
        &&& self.pixels@.len() == 3 * self.width * self.height
    }

    pub open spec fn pixel(self, x: int, y: int) -> (u8, u8, u8) {
        pixel_triple(self.pixels@, self.width as int, x, y)
    }

    pub fn get_pixel(&self, x: u32, y: u32) -> (p: (u8, u8, u8))
        requires
            self.wf(),
            x < self.width,
            y < self.height,
        ensures
            p == self.pixel(x as int, y as int),
    {
        proof {
            lemma_pixel_index(x as int, y as int, self.width as int, self.height as int, 3);
        }
        let base: usize = 3 * ((y as usize) * (self.width as usize) + (x as usize));
        (self.pixels[base], self.pixels[base + 1], self.pixels[base + 2])
    }
}

impl Clone for FaceImage {
    fn clone(&self) -> (r: Self)
        ensures
            r.pixels@ == self.pixels@,
            r.width == self.width,
            r.height == self.height,
    {
        let pixels = self.pixels.clone();
        proof {
            assert(pixels@ =~= self.pixels@);
        }
        FaceImage { pixels, width: self.width, height: self.height }
    }
}

/// Source-over alpha compositing of `over` onto `under`, RGBA channels.
/// Named only: the blend depends on the two pixels alone.
pub uninterp spec fn blended(under: (u8, u8, u8, u8), over: (u8, u8, u8, u8)) -> (
    u8,
    u8,
    u8,
    u8,
);

/// Relies on image's `Rgba::<u8>::blend`: standard source-over alpha
/// compositing, a pure function of the two pixels.
#[verifier::external_body]
fn blend_pixel(under: (u8, u8, u8, u8), over: (u8, u8, u8, u8)) -> (r: (u8, u8, u8, u8))
    ensures
        r == blended(under, over),
{
    let mut px = image::Rgba([under.0, under.1, under.2, under.3]);
    px.blend(&image::Rgba([over.0, over.1, over.2, over.3]));
    (px.0[0], px.0[1], px.0[2], px.0[3])
}

/// A bounds-checked window over one region of an atlas.
struct TexView<'a> {
    offset: (u32, u32),
    width: u32,
    height: u32,
    image: &'a AtlasImage,
}

impl<'a> TexView<'a> {
    spec fn wf(self) -> bool {
        &&& self.image.wf()
        &&& self.offset.0 + self.width <= self.image.width
        &&& self.offset.1 + self.height <= self.image.height
    }

    fn of(region: TexRegion, image: &'a AtlasImage) -> (v: TexView<'a>)
        requires
            image.wf(),
            region_in_bounds(region, image.width, image.height),
        ensures
            v.wf(),
            v.offset == region.origin,
            v.width == region.size.0,
            v.height == region.size.1,
            v.image == image,
    {
        TexView { offset: region.origin, width: region.size.0, height: region.size.1, image }
    }

    fn get_pixel(&self, x: u32, y: u32) -> (p: (u8, u8, u8, u8))
        requires
            self.wf(),
            x < self.width,
            y < self.height,
        ensures
            p == self.image.pixel(self.offset.0 + x as int, self.offset.1 + y as int),
    {
        let (ox, oy) = self.offset;
        self.image.get_pixel(x + ox, y + oy)
    }
}

/// The blended RGB value of the face pixel at local coordinate `(x, y)`:
/// the hat front pixel composited over the head front pixel, alpha
/// discarded.
pub open spec fn face_pixel_spec(skin: Skin, x: int, y: int) -> (u8, u8, u8) {
    let hf = skin.format.head.front;
    let af = skin.format.hat.front;
    let b = blended(
        skin.image.pixel(hf.origin.0 + x, hf.origin.1 + y),
        skin.image.pixel(af.origin.0 + x, af.origin.1 + y),
    );
    (b.0, b.1, b.2)
}

/// `face` is exactly the rendered face of `skin`: head-front sized, each
/// pixel the hat-over-head composite.
pub open spec fn is_face_of(face: FaceImage, skin: Skin) -> bool {
    &&& face.width == skin.format.head.front.size.0
    &&& face.height == skin.format.head.front.size.1
    &&& forall|x: int, y: int|
        0 <= x < face.width && 0 <= y < face.height ==> face.pixel(x, y) == face_pixel_spec(
            skin,
            x,
            y,
        )
}

/// Bytes strictly before the write position of grid cell `(x, y)` keep
/// their indices when that cell is appended.
proof fn lemma_tri_lt(yy: int, xx: int, y: int, x: int, w: int)
    by (nonlinear_arith)
    requires
        0 <= xx < w,
        0 <= yy,
        0 <= x,
        yy < y || (yy == y && xx < x),
    ensures
        0 <= 3 * (yy * w + xx),
        3 * (yy * w + xx) + 3 <= 3 * (y * w + x),
{
}

proof fn lemma_row_advance(y: int, w: int)
    by (nonlinear_arith)
    ensures
        (y + 1) * w == y * w + w,
        w * y == y * w,
{
}

proof fn lemma_mul_comm(a: int, b: int)
    by (nonlinear_arith)
    ensures
        a * b == b * a,
        3 * (a * b) == 3 * b * a,
{
}

/// Extract and composite the face from a resolved skin: for every local
/// coordinate of the head front region, blend the hat front pixel over the
/// head front pixel and keep the RGB channels.
pub fn render_face(skin: &Skin) -> (face: FaceImage)
    requires
        skin.wf(),
    ensures
        face.wf(),
        face.width == 8,
        face.height == 8,
        is_face_of(face, *skin),
{
    let head_view = TexView::of(skin.format.head.front, &skin.image);
    let hat_view = TexView::of(skin.format.hat.front, &skin.image);
    let w: u32 = head_view.width;
    let h: u32 = head_view.height;

    let mut pixels: Vec<u8> = Vec::new();
    let mut y: u32 = 0;
    while y < h
        invariant
            skin.wf(),
            head_view.wf(),
            hat_view.wf(),
            head_view.image == &skin.image,
            hat_view.image == &skin.image,
            head_view.offset == skin.format.head.front.origin,
            hat_view.offset == skin.format.hat.front.origin,
            head_view.width == w,
            head_view.height == h,
            hat_view.width == w,
            hat_view.height == h,
            w == 8,
            h == 8,
            y <= h,
            pixels@.len() == 3 * (y * w),
            forall|yy: int, xx: int|
                0 <= yy < y && 0 <= xx < w ==> pixel_triple(pixels@, w as int, xx, yy)
                    == face_pixel_spec(*skin, xx, yy),
        decreases h - y,
    {
        let mut x: u32 = 0;
        while x < w
            invariant
                skin.wf(),
                head_view.wf(),
                hat_view.wf(),
                head_view.image == &skin.image,
                hat_view.image == &skin.image,
                head_view.offset == skin.format.head.front.origin,
                hat_view.offset == skin.format.hat.front.origin,
                head_view.width == w,
                head_view.height == h,
                hat_view.width == w,
                hat_view.height == h,
                w == 8,
                h == 8,
                y < h,
                x <= w,
                pixels@.len() == 3 * (y * w + x),
                forall|yy: int, xx: int|
                    (0 <= yy < y && 0 <= xx < w) || (yy == y && 0 <= xx < x) ==> pixel_triple(
                        pixels@,
                        w as int,
                        xx,
                        yy,
                    ) == face_pixel_spec(*skin, xx, yy),
            decreases w - x,
        {
            let under = head_view.get_pixel(x, y);
            let over = hat_view.get_pixel(x, y);
            let blent = blend_pixel(under, over);
            let ghost old_pixels = pixels@;
            pixels.push(blent.0);
            pixels.push(blent.1);
            pixels.push(blent.2);
            proof {
                assert forall|yy: int, xx: int|
                    (0 <= yy < y && 0 <= xx < w) || (yy == y && 0 <= xx < x + 1) implies
                    pixel_triple(pixels@, w as int, xx, yy) == face_pixel_spec(
                        *skin,
                        xx,
                        yy,
                    ) by {
                    if yy == y && xx == x {
                        assert(pixel_triple(pixels@, w as int, xx, yy) == (
                            blent.0,
                            blent.1,
                            blent.2,
                        ));
                    } else {
                        lemma_tri_lt(yy, xx, y as int, x as int, w as int);
                        assert(pixel_triple(pixels@, w as int, xx, yy) == pixel_triple(
                            old_pixels,
                            w as int,
                            xx,
                            yy,
                        ));
                    }
                }
            }
            x = x + 1;
        }
        proof {
            lemma_row_advance(y as int, w as int);
        }
        y = y + 1;
    }
    proof {
        lemma_row_advance(h as int - 1, w as int);
    }
    FaceImage { pixels, width: w, height: h }
}

/// Nearest-neighbor relation between an image and its `2^scale`-times
/// upscaled copy: output `(x, y)` holds input `(x >> scale, y >> scale)`.
pub open spec fn scaled_of(input: FaceImage, scale: u32, out: FaceImage) -> bool {
    &&& out.width == input.width << scale
    &&& out.height == input.height << scale
    &&& forall|x: u32, y: u32|
        x < out.width && y < out.height ==> out.pixel(x as int, y as int) == input.pixel(
            (x >> scale) as int,
            (y >> scale) as int,
        )
}

proof fn lemma_shl_range(w: u32, s: u32)
    by (bit_vector)
    requires
        1 <= w,
        s < 32,
        ((w << s) >> s) == w,
    ensures
        w <= (w << s),
        (w << s) >= 1,
{
}

proof fn lemma_shr_bound(x: u32, w: u32, s: u32)
    by (bit_vector)
    requires
        s < 32,
        ((w << s) >> s) == w,
        x < (w << s),
    ensures
        (x >> s) < w,
{
}

proof fn lemma_shift_compose(x: u32, a: u32, b: u32, s: u32)
    by (bit_vector)
    requires
        s == a + b,
        s < 32,
    ensures
        ((x << a) << b) == (x << s),
        ((x >> b) >> a) == (x >> s),
{
}

/// Scaling composes: upscaling by `2^a` and then by `2^b` is upscaling by
/// `2^(a+b)`, whenever the composite stays within the machine limits that
/// `rescale` itself imposes (no bits lost in either shift).
pub proof fn lemma_rescale_compose(
    input: FaceImage,
    a: u32,
    mid: FaceImage,
    b: u32,
    out: FaceImage,
)
    requires
        a + b < 32,
        ((input.width << a) >> a) == input.width,
        ((input.height << a) >> a) == input.height,
        ((mid.width << b) >> b) == mid.width,
        ((mid.height << b) >> b) == mid.height,
        scaled_of(input, a, mid),
        scaled_of(mid, b, out),
    ensures
        scaled_of(input, (a + b) as u32, out),
{
    let s = (a + b) as u32;
    lemma_shift_compose(input.width, a, b, s);
    lemma_shift_compose(input.height, a, b, s);
    assert(out.width == input.width << s);
    assert(out.height == input.height << s);
    assert forall|x: u32, y: u32| x < out.width && y < out.height implies out.pixel(
        x as int,
        y as int,
    ) == input.pixel((x >> s) as int, (y >> s) as int) by {
        lemma_shr_bound(x, mid.width, b);
        lemma_shr_bound(y, mid.height, b);
        assert(out.pixel(x as int, y as int) == mid.pixel((x >> b) as int, (y >> b) as int));
        assert(mid.pixel((x >> b) as int, (y >> b) as int) == input.pixel(
            ((x >> b) >> a) as int,
            ((y >> b) >> a) as int,
        ));
        lemma_shift_compose(x, a, b, s);
        lemma_shift_compose(y, a, b, s);
    }
}

/// An 8-pixel face side shifted by any boundary-accepted exponent stays
/// within range and loses no bits.
pub proof fn lemma_face_scale_fits(s: u32)
    by (bit_vector)
    requires
        s <= 5,
    ensures
        ((8u32 << s) >> s) == 8,
        (8u32 << s) <= 16384,
        s < 32,
{
}

proof fn lemma_shift_zero(x: u32)
    by (bit_vector)
    ensures
        x >> 0u32 == x,
        x << 0u32 == x,
{
}

/// Integer power-of-two upscaling: output dimensions are the input's
/// shifted left by `scale`; every output pixel copies the input pixel at
/// the right-shifted coordinate. `scale == 0` is the identity copy. The
/// shifts may lose no bits and the scaled dimensions must stay within
/// `MAX_DIM` (machine limits of the pixel grid).
pub fn rescale(image: &FaceImage, scale: u32) -> (out: FaceImage)
    requires
        image.wf(),
        scale < 32,
        ((image.width << scale) >> scale) == image.width,
        (image.width << scale) <= MAX_DIM,
        ((image.height << scale) >> scale) == image.height,
        (image.height << scale) <= MAX_DIM,
    ensures
        out.wf(),
        scaled_of(*image, scale, out),
        scale == 0 ==> out.width == image.width && out.height == image.height && out.pixels@
            == image.pixels@,
{
    proof {
        lemma_shl_range(image.width, scale);
        lemma_shl_range(image.height, scale);
        if scale == 0 {
            lemma_shift_zero(image.width);
            lemma_shift_zero(image.height);
        }
    }
    let out_w: u32 = image.width << scale;
    let out_h: u32 = image.height << scale;

    let mut pixels: Vec<u8> = Vec::new();
    let mut y: u32 = 0;
    while y < out_h
        invariant
            image.wf(),
            scale < 32,
            ((image.width << scale) >> scale) == image.width,
            ((image.height << scale) >> scale) == image.height,
            out_w == image.width << scale,
            out_h == image.height << scale,
            1 <= out_w <= 16384,
            1 <= out_h <= 16384,
            y <= out_h,
            pixels@.len() == 3 * (y * out_w),
            scale == 0 ==> out_w == image.width && out_h == image.height && pixels@
                == image.pixels@.subrange(0, 3 * (y * out_w)),
            forall|yy: u32, xx: u32|
                yy < y && xx < out_w ==> pixel_triple(pixels@, out_w as int, xx as int, yy as int)
                    == image.pixel((xx >> scale) as int, (yy >> scale) as int),
        decreases out_h - y,
    {
        let mut x: u32 = 0;
        while x < out_w
            invariant
                image.wf(),
                scale < 32,
                ((image.width << scale) >> scale) == image.width,
                ((image.height << scale) >> scale) == image.height,
                out_w == image.width << scale,
                out_h == image.height << scale,
                1 <= out_w <= 16384,
                1 <= out_h <= 16384,
                y < out_h,
                x <= out_w,
                pixels@.len() == 3 * (y * out_w + x),
                scale == 0 ==> out_w == image.width && out_h == image.height && pixels@
                    == image.pixels@.subrange(0, 3 * (y * out_w + x)),
                forall|yy: u32, xx: u32|
                    (yy < y && xx < out_w) || (yy == y && xx < x) ==> pixel_triple(
                        pixels@,
                        out_w as int,
                        xx as int,
                        yy as int,
                    ) == image.pixel((xx >> scale) as int, (yy >> scale) as int),
            decreases out_w - x,
        {
            proof {
                lemma_shr_bound(x, image.width, scale);
                lemma_shr_bound(y, image.height, scale);
            }
            let p = image.get_pixel(x >> scale, y >> scale);
            let ghost old_pixels = pixels@;
            pixels.push(p.0);
            pixels.push(p.1);
            pixels.push(p.2);
            proof {
                assert forall|yy: u32, xx: u32|
                    (yy < y && xx < out_w) || (yy == y && xx < x + 1) implies pixel_triple(
                    pixels@,
                    out_w as int,
                    xx as int,
                    yy as int,
                ) == image.pixel((xx >> scale) as int, (yy >> scale) as int) by {
                    if yy == y && xx == x {
                        assert(pixel_triple(pixels@, out_w as int, xx as int, yy as int) == (
                            p.0,
                            p.1,
                            p.2,
                        ));
                    } else {
                        lemma_tri_lt(yy as int, xx as int, y as int, x as int, out_w as int);
                        assert(pixel_triple(pixels@, out_w as int, xx as int, yy as int)
                            == pixel_triple(old_pixels, out_w as int, xx as int, yy as int));
                    }
                }
                if scale == 0 {
                    lemma_shift_zero(x);
                    lemma_shift_zero(y);
                    lemma_pixel_index(
                        x as int,
                        y as int,
                        image.width as int,
                        image.height as int,
                        3,
                    );
                    assert(pixels@ =~= image.pixels@.subrange(0, 3 * (y * out_w + x) + 3));
                }
            }
            x = x + 1;
        }
        proof {
            lemma_row_advance(y as int, out_w as int);
        }
        y = y + 1;
    }
    proof {
        lemma_row_advance(out_h as int - 1, out_w as int);
    }
    let ghost gpix = pixels@;
    proof {
        lemma_mul_comm(out_h as int, out_w as int);
    }
    let out = FaceImage { pixels, width: out_w, height: out_h };
    proof {
        assert(out.pixels@ == gpix);
        assert forall|xu: u32, yu: u32| xu < out.width && yu < out.height implies out.pixel(
            xu as int,
            yu as int,
        ) == image.pixel((xu >> scale) as int, (yu >> scale) as int) by {
            assert(pixel_triple(gpix, out_w as int, xu as int, yu as int) == image.pixel(
                (xu >> scale) as int,
                (yu >> scale) as int,
            ));
        }
        if scale == 0 {
            assert(out.pixels@ == image.pixels@.subrange(0, 3 * (out_h * out_w)));
            lemma_mul_comm(out_h as int, out_w as int);
            assert(image.pixels@.subrange(0, image.pixels@.len() as int) =~= image.pixels@);
        }
    }
    out
}

} // verus!
