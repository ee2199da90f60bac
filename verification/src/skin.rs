//! Texture-atlas geometry: the cuboid unfold formula, the three layout
//! presets, atlas images, and the resolver that picks a preset from atlas
//! dimensions and the model flag (falling back to a built-in default skin
//! chosen deterministically from the requester's identifier).

use vstd::prelude::*;

use crate::minecraft::PlayerTexture;

verus! {

/// Largest accepted atlas/face dimension; keeps all pixel index arithmetic
/// comfortably inside `u32`/`usize` range.
pub const MAX_DIM: u32 = 16384;

/// One rectangular region on a flat atlas image.
#[derive(Copy, Clone, Debug)]
pub struct TexRegion {
    pub origin: (u32, u32),
    pub size: (u32, u32),
}

impl TexRegion {
    pub fn new(origin: (u32, u32), size: (u32, u32)) -> (r: TexRegion)
        ensures
            r == (TexRegion { origin, size }),
    {
        TexRegion { origin, size }
    }
}

/// The six rectangular faces of one body part, carved out of the atlas.
#[derive(Copy, Clone, Debug)]
pub struct CuboidTex {
    pub front: TexRegion,
    pub back: TexRegion,
    pub top: TexRegion,
    pub bottom: TexRegion,
    pub left: TexRegion,
    pub right: TexRegion,
}

/// The cuboid unfold formula as a spec-level value: a part anchored at
/// `origin` with physical size `(w, h, d)` occupies these six regions.
pub open spec fn cuboid_spec(origin: (u32, u32), size: (u32, u32, u32)) -> CuboidTex {
    let (ox, oy) = origin;
    let (w, h, d) = size;
    CuboidTex {
        front: TexRegion { origin: ((ox + d) as u32, (oy + d) as u32), size: (w, h) },
        back: TexRegion { origin: ((ox + d + w) as u32, (oy + d) as u32), size: (w, h) },
        top: TexRegion { origin: ((ox + d) as u32, oy), size: (w, d) },
        bottom: TexRegion { origin: ((ox + d + w) as u32, oy), size: (w, d) },
        left: TexRegion { origin: ((ox + d + 2 * w) as u32, (oy + d) as u32), size: (d, h) },
        right: TexRegion { origin: (ox, (oy + d) as u32), size: (d, h) },
    }
}

impl CuboidTex {
    pub fn new(origin: (u32, u32), size: (u32, u32, u32)) -> (r: CuboidTex)
        requires
            origin.0 + size.2 + 2 * size.0 <= u32::MAX,
            origin.1 + size.2 <= u32::MAX,
        ensures
            r == cuboid_spec(origin, size),
            r.front.origin.0 == origin.0 + size.2,
            r.front.origin.1 == origin.1 + size.2,
            r.front.size == (size.0, size.1),
            r.back.origin.0 == origin.0 + size.2 + size.0,
            r.back.origin.1 == origin.1 + size.2,
            r.back.size == (size.0, size.1),
            r.top.origin.0 == origin.0 + size.2,
            r.top.origin.1 == origin.1,
            r.top.size == (size.0, size.2),
            r.bottom.origin.0 == origin.0 + size.2 + size.0,
            r.bottom.origin.1 == origin.1,
            r.bottom.size == (size.0, size.2),
            r.left.origin.0 == origin.0 + size.2 + 2 * size.0,
            r.left.origin.1 == origin.1 + size.2,
            r.left.size == (size.2, size.1),
            r.right.origin.0 == origin.0,
            r.right.origin.1 == origin.1 + size.2,
            r.right.size == (size.2, size.1),
    {
        CuboidTex {
            front: TexRegion::new((origin.0 + size.2, origin.1 + size.2), (size.0, size.1)),
            back: TexRegion::new(
                (origin.0 + size.2 + size.0, origin.1 + size.2),
                (size.0, size.1),
            ),
            top: TexRegion::new((origin.0 + size.2, origin.1), (size.0, size.2)),
            bottom: TexRegion::new((origin.0 + size.2 + size.0, origin.1), (size.0, size.2)),
            left: TexRegion::new(
                (origin.0 + size.2 + 2 * size.0, origin.1 + size.2),
                (size.2, size.1),
            ),
            right: TexRegion::new((origin.0, origin.1 + size.2), (size.2, size.1)),
        }
    }
}

/// A layout preset: one set of cuboid regions per modeled body part.
/// Overlay parts (jacket, pants, sleeves) are absent in the legacy preset.
#[derive(Copy, Clone, Debug)]
pub struct Format {
    pub head: CuboidTex,
    pub hat: CuboidTex,
    pub body: CuboidTex,
    pub jacket: Option<CuboidTex>,
    pub right_leg: CuboidTex,
    pub right_pants: Option<CuboidTex>,
    pub left_leg: CuboidTex,
    pub left_pants: Option<CuboidTex>,
    pub right_arm: CuboidTex,
    pub right_sleeves: Option<CuboidTex>,
    pub left_arm: CuboidTex,
    pub left_sleeves: Option<CuboidTex>,
}

pub open spec fn wide_arms_spec() -> Format {
    Format {
        head: cuboid_spec((0, 0), (8, 8, 8)),
        hat: cuboid_spec((32, 0), (8, 8, 8)),
        body: cuboid_spec((16, 16), (8, 12, 4)),
        jacket: Some(cuboid_spec((16, 32), (8, 12, 4))),
        right_leg: cuboid_spec((0, 16), (4, 12, 4)),
        right_pants: Some(cuboid_spec((0, 32), (4, 12, 4))),
        left_leg: cuboid_spec((16, 48), (4, 12, 4)),
        left_pants: Some(cuboid_spec((0, 48), (4, 12, 4))),
        right_arm: cuboid_spec((40, 16), (4, 12, 4)),
        right_sleeves: Some(cuboid_spec((40, 32), (4, 12, 4))),
        left_arm: cuboid_spec((32, 48), (4, 12, 4)),
        left_sleeves: Some(cuboid_spec((48, 48), (4, 12, 4))),
    }
}

pub open spec fn slim_arms_spec() -> Format {
    Format {
        head: cuboid_spec((0, 0), (8, 8, 8)),
        hat: cuboid_spec((32, 0), (8, 8, 8)),
        body: cuboid_spec((16, 16), (8, 12, 4)),
        jacket: Some(cuboid_spec((16, 32), (8, 12, 4))),
        right_leg: cuboid_spec((0, 16), (4, 12, 4)),
        right_pants: Some(cuboid_spec((0, 32), (4, 12, 4))),
        left_leg: cuboid_spec((16, 48), (4, 12, 4)),
        left_pants: Some(cuboid_spec((0, 48), (4, 12, 4))),
        right_arm: cuboid_spec((40, 16), (3, 12, 4)),
        right_sleeves: Some(cuboid_spec((40, 32), (3, 12, 4))),
        left_arm: cuboid_spec((32, 48), (3, 12, 4)),
        left_sleeves: Some(cuboid_spec((48, 48), (3, 12, 4))),
    }
}

/// The historical 64x32 layout reuses the right arm and leg for the left
/// side and has no overlay parts.
pub open spec fn legacy_spec() -> Format {
    Format {
        head: cuboid_spec((0, 0), (8, 8, 8)),
        hat: cuboid_spec((32, 0), (8, 8, 8)),
        body: cuboid_spec((16, 16), (8, 12, 4)),
        jacket: None,
        right_leg: cuboid_spec((0, 16), (4, 12, 4)),
        right_pants: None,
        left_leg: cuboid_spec((0, 16), (4, 12, 4)),
        left_pants: None,
        right_arm: cuboid_spec((40, 16), (4, 12, 4)),
        right_sleeves: None,
        left_arm: cuboid_spec((40, 16), (4, 12, 4)),
        left_sleeves: None,
    }
}

impl Format {
    pub fn wide_arms() -> (f: Format)
        ensures
            f == wide_arms_spec(),
    {
        Format {
            head: CuboidTex::new((0, 0), (8, 8, 8)),
            hat: CuboidTex::new((32, 0), (8, 8, 8)),
            body: CuboidTex::new((16, 16), (8, 12, 4)),
            jacket: Some(CuboidTex::new((16, 32), (8, 12, 4))),
            right_leg: CuboidTex::new((0, 16), (4, 12, 4)),
            right_pants: Some(CuboidTex::new((0, 32), (4, 12, 4))),
            left_leg: CuboidTex::new((16, 48), (4, 12, 4)),
            left_pants: Some(CuboidTex::new((0, 48), (4, 12, 4))),
            right_arm: CuboidTex::new((40, 16), (4, 12, 4)),
            right_sleeves: Some(CuboidTex::new((40, 32), (4, 12, 4))),
            left_arm: CuboidTex::new((32, 48), (4, 12, 4)),
            left_sleeves: Some(CuboidTex::new((48, 48), (4, 12, 4))),
        }
    }

    pub fn slim_arms() -> (f: Format)
        ensures
            f == slim_arms_spec(),
    {
        Format {
            head: CuboidTex::new((0, 0), (8, 8, 8)),
            hat: CuboidTex::new((32, 0), (8, 8, 8)),
            body: CuboidTex::new((16, 16), (8, 12, 4)),
            jacket: Some(CuboidTex::new((16, 32), (8, 12, 4))),
            right_leg: CuboidTex::new((0, 16), (4, 12, 4)),
            right_pants: Some(CuboidTex::new((0, 32), (4, 12, 4))),
            left_leg: CuboidTex::new((16, 48), (4, 12, 4)),
            left_pants: Some(CuboidTex::new((0, 48), (4, 12, 4))),
            right_arm: CuboidTex::new((40, 16), (3, 12, 4)),
            right_sleeves: Some(CuboidTex::new((40, 32), (3, 12, 4))),
            left_arm: CuboidTex::new((32, 48), (3, 12, 4)),
            left_sleeves: Some(CuboidTex::new((48, 48), (3, 12, 4))),
        }
    }

    pub fn legacy() -> (f: Format)
        ensures
            f == legacy_spec(),
    {
        Format {
            head: CuboidTex::new((0, 0), (8, 8, 8)),
            hat: CuboidTex::new((32, 0), (8, 8, 8)),
            body: CuboidTex::new((16, 16), (8, 12, 4)),
            jacket: None,
            right_leg: CuboidTex::new((0, 16), (4, 12, 4)),
            right_pants: None,
            left_leg: CuboidTex::new((0, 16), (4, 12, 4)),
            left_pants: None,
            right_arm: CuboidTex::new((40, 16), (4, 12, 4)),
            right_sleeves: None,
            left_arm: CuboidTex::new((40, 16), (4, 12, 4)),
            left_sleeves: None,
        }
    }
}

pub open spec fn region_in_bounds(r: TexRegion, width: u32, height: u32) -> bool {
    &&& r.origin.0 + r.size.0 <= width
    &&& r.origin.1 + r.size.1 <= height
}

pub open spec fn cuboid_in_bounds(c: CuboidTex, width: u32, height: u32) -> bool {
    &&& region_in_bounds(c.front, width, height)
    &&& region_in_bounds(c.back, width, height)
    &&& region_in_bounds(c.top, width, height)
    &&& region_in_bounds(c.bottom, width, height)
    &&& region_in_bounds(c.left, width, height)
    &&& region_in_bounds(c.right, width, height)
}

pub open spec fn opt_cuboid_in_bounds(c: Option<CuboidTex>, width: u32, height: u32) -> bool {
    c matches Some(inner) ==> cuboid_in_bounds(inner, width, height)
}

/// Construction invariant of a usable (preset, dimensions) pair: every
/// region of every part lies within the declared atlas dimensions.
pub open spec fn format_in_bounds(f: Format, width: u32, height: u32) -> bool {
    &&& cuboid_in_bounds(f.head, width, height)
    &&& cuboid_in_bounds(f.hat, width, height)
    &&& cuboid_in_bounds(f.body, width, height)
    &&& opt_cuboid_in_bounds(f.jacket, width, height)
    &&& cuboid_in_bounds(f.right_leg, width, height)
    &&& opt_cuboid_in_bounds(f.right_pants, width, height)
    &&& cuboid_in_bounds(f.left_leg, width, height)
    &&& opt_cuboid_in_bounds(f.left_pants, width, height)
    &&& cuboid_in_bounds(f.right_arm, width, height)
    &&& opt_cuboid_in_bounds(f.right_sleeves, width, height)
    &&& cuboid_in_bounds(f.left_arm, width, height)
    &&& opt_cuboid_in_bounds(f.left_sleeves, width, height)
}

/// A preset whose head and hat front regions are the 8x8 squares the face
/// renderer reads.
pub open spec fn face_ready(f: Format) -> bool {
    &&& f.head.front.size == (8u32, 8u32)
    &&& f.hat.front.size == (8u32, 8u32)
}

/// The three built-in presets fit their supported atlas dimensions and
/// carry 8x8 head/hat front regions.
pub proof fn lemma_preset_bounds()
    ensures
        format_in_bounds(wide_arms_spec(), 64, 64),
        format_in_bounds(slim_arms_spec(), 64, 64),
        format_in_bounds(legacy_spec(), 64, 32),
        format_in_bounds(legacy_spec(), 64, 64),
        face_ready(wide_arms_spec()),
        face_ready(slim_arms_spec()),
        face_ready(legacy_spec()),
{
}

/// An immutable RGBA pixel grid: `pixels` stores four bytes per pixel in
/// row-major order.
#[derive(Debug)]
pub struct AtlasImage {
    pub pixels: Vec<u8>,
    pub width: u32,
    pub height: u32,
}

/// Index arithmetic for a `channels`-bytes-per-pixel row-major grid stays
/// within the buffer and within `usize` range.
pub proof fn lemma_pixel_index(x: int, y: int, width: int, height: int, channels: int)
    by (nonlinear_arith)
    requires
        0 <= x < width,
        0 <= y < height,
        width <= 16384,
        height <= 16384,
        1 <= channels <= 4,
    ensures
        0 <= channels * (y * width + x),
        channels * (y * width + x) + channels <= channels * width * height,
        y * width + x < 16384 * 16384,
{
}

impl AtlasImage {
    pub open spec fn wf(self) -> bool {
        &&& 1 <= self.width <= MAX_DIM
        &&& 1 <= self.height <= MAX_DIM
        &&& self.pixels@.len() == 4 * self.width * self.height
    }

    /// The RGBA channels of the pixel at `(x, y)`.
    pub open spec fn pixel(self, x: int, y: int) -> (u8, u8, u8, u8) {
        let base = 4 * (y * self.width + x);
        (self.pixels@[base], self.pixels@[base + 1], self.pixels@[base + 2], self.pixels@[base
            + 3])
    }

    pub fn new(pixels: Vec<u8>, width: u32, height: u32) -> (r: Option<AtlasImage>)
        ensures
            match r {
                Some(img) => {
                    &&& img.wf()
                    &&& img.pixels@ == pixels@
                    &&& img.width == width
                    &&& img.height == height
                },
                None => !(1 <= width <= MAX_DIM && 1 <= height <= MAX_DIM && pixels@.len() == 4
                    * width * height),
            },
    {
        if width < 1 || width > MAX_DIM || height < 1 || height > MAX_DIM {
            return None;
        }
        proof {
            assert(4 * (width as int) * (height as int) <= 4 * 16384 * 16384)
                by (nonlinear_arith)
                requires
                    1 <= width <= 16384,
                    1 <= height <= 16384,
            ;
        }
        let expected: u64 = 4u64 * (width as u64) * (height as u64);
        if (pixels.len() as u64) != expected {
            return None;
        }
        Some(AtlasImage { pixels, width, height })
    }

    pub fn get_pixel(&self, x: u32, y: u32) -> (p: (u8, u8, u8, u8))
        requires
            self.wf(),
            x < self.width,
            y < self.height,
        ensures
            p == self.pixel(x as int, y as int),
    {
        proof {
            lemma_pixel_index(x as int, y as int, self.width as int, self.height as int, 4);
        }
        let base: usize = 4 * ((y as usize) * (self.width as usize) + (x as usize));
        (self.pixels[base], self.pixels[base + 1], self.pixels[base + 2], self.pixels[base + 3])
    }
}

/// Arm thickness of the player model; absence of metadata means `Wide`.
#[derive(Debug, Copy, Clone)]
pub enum Model {
    Wide,
    Slim,
}

/// An atlas image paired with the layout preset that applies to it.
#[derive(Debug)]
pub struct Skin {
    pub image: AtlasImage,
    pub format: Format,
}

impl Skin {
    pub open spec fn wf(self) -> bool {
        &&& self.image.wf()
        &&& format_in_bounds(self.format, self.image.width, self.image.height)
        &&& face_ready(self.format)
    }
}

/// The first metadata value stored under `name`, if any.
pub open spec fn metadata_lookup(meta: Seq<(String, String)>, name: Seq<char>) -> Option<
    Seq<char>,
>
    decreases meta.len(),
{
    if meta.len() == 0 {
        None
    } else if meta[0].0@ == name {
        Some(meta[0].1@)
    } else {
        metadata_lookup(meta.drop_first(), name)
    }
}

/// The model flag carried by a fetched texture's metadata.
pub open spec fn texture_model(t: PlayerTexture) -> Model {
    if metadata_lookup(t.metadata@, "model"@) == Some("slim"@) {
        Model::Slim
    } else {
        Model::Wide
    }
}

/// The resolver rule table: first matching row of
/// (model, dimensions) -> preset; anything else is unsupported.
pub open spec fn skin_of_texture(t: PlayerTexture) -> Option<Skin> {
    let model = texture_model(t);
    if model is Wide && t.image.width == 64 && t.image.height == 32 {
        Some(Skin { image: t.image, format: legacy_spec() })
    } else if model is Wide && t.image.width == 64 && t.image.height == 64 {
        Some(Skin { image: t.image, format: wide_arms_spec() })
    } else if model is Slim && t.image.width == 64 && t.image.height == 64 {
        Some(Skin { image: t.image, format: slim_arms_spec() })
    } else {
        None
    }
}

fn metadata_get<'a>(meta: &'a Vec<(String, String)>, name: &String) -> (r: Option<&'a String>)
    ensures
        match r {
            Some(v) => metadata_lookup(meta@, name@) == Some(v@),
            None => metadata_lookup(meta@, name@) is None,
        },
{
    let mut i: usize = 0;
    proof {
        assert(meta@.skip(0) =~= meta@);
    }
    while i < meta.len()
        invariant
            i <= meta.len(),
            metadata_lookup(meta@, name@) == metadata_lookup(meta@.skip(i as int), name@),
        decreases meta.len() - i,
    {
        let entry = &meta[i];
        if entry.0 == *name {
            proof {
                assert(meta@.skip(i as int)[0] == meta@[i as int]);
            }
            return Some(&entry.1);
        }
        proof {
            assert(meta@.skip(i as int).drop_first() =~= meta@.skip(i as int + 1));
            assert(meta@.skip(i as int)[0] == meta@[i as int]);
        }
        i = i + 1;
    }
    proof {
        assert(meta@.skip(i as int).len() == 0);
    }
    None
}

impl Skin {
    /// Resolve a fetched texture against the rule table; `None` means the
    /// atlas is unsupported and the caller falls back to a default skin.
    pub fn from(texture: PlayerTexture) -> (r: Option<Skin>)
        requires
            texture.image.wf(),
        ensures
            r == skin_of_texture(texture),
            r matches Some(s) ==> s.wf(),
    {
        let model_key: String = "model".to_owned();
        let slim_value: String = "slim".to_owned();
        let slim = match metadata_get(&texture.metadata, &model_key) {
            Some(v) => *v == slim_value,
            None => false,
        };
        proof {
            lemma_preset_bounds();
        }
        if !slim && texture.image.width == 64 && texture.image.height == 32 {
            Some(Skin { image: texture.image, format: Format::legacy() })
        } else if !slim && texture.image.width == 64 && texture.image.height == 64 {
            Some(Skin { image: texture.image, format: Format::wide_arms() })
        } else if slim && texture.image.width == 64 && texture.image.height == 64 {
            Some(Skin { image: texture.image, format: Format::slim_arms() })
        } else {
            None
        }
    }
}

/// Which of the two built-in default skins an identifier selects.
#[derive(Debug, Copy, Clone, PartialEq, Eq, Structural)]
pub enum DefaultSkin {
    Steve,
    Alex,
}

/// The legacy 64-bit-XOR hash bit that drives default-skin selection: XOR
/// the identifier's 64-bit halves, XOR the result's 32-bit halves, keep the
/// lowest bit.
pub open spec fn default_select_bit(id: u128) -> u32 {
    let hilo = ((id >> 64) as u64) ^ ((id & 0xFFFF_FFFF_FFFF_FFFFu128) as u64);
    let hash = ((hilo >> 32) as u32) ^ ((hilo & 0xFFFF_FFFFu64) as u32);
    hash & 1
}

pub open spec fn default_skin_spec(id: u128) -> DefaultSkin {
    if default_select_bit(id) == 0 {
        DefaultSkin::Steve
    } else {
        DefaultSkin::Alex
    }
}

impl DefaultSkin {
    /// Deterministic default-skin selection from an identifier.
    pub fn from(id: u128) -> (r: DefaultSkin)
        ensures
            r == default_skin_spec(id),
    {
        let hilo: u64 = ((id >> 64) as u64) ^ ((id & 0xFFFF_FFFF_FFFF_FFFFu128) as u64);
        let hash: u32 = ((hilo >> 32) as u32) ^ ((hilo & 0xFFFF_FFFFu64) as u32);
        if hash & 1 == 0 {
            DefaultSkin::Steve
        } else {
            DefaultSkin::Alex
        }
    }

    pub fn as_skin<'a>(&self, skins: &'a DefaultSkins) -> (s: &'a Skin)
        ensures
            *s == (match self {
                DefaultSkin::Steve => skins.steve,
                DefaultSkin::Alex => skins.alex,
            }),
    {
        match self {
            DefaultSkin::Steve => &skins.steve,
            DefaultSkin::Alex => &skins.alex,
        }
    }
}

/// Flipping the lowest-order bit of the identifier flips the selection bit,
/// and with it the selected default skin.
pub proof fn lemma_default_selection_flips(id: u128)
    ensures
        default_skin_spec(id ^ 1) != default_skin_spec(id),
{
    assert((default_select_bit(id ^ 1) == 0) != (default_select_bit(id) == 0)) by (bit_vector);
}

/// Decode the bytes of a built-in 64x64 atlas and pair them with the given
/// preset. `None` when the bytes are not a 64x64 RGBA PNG.
pub fn load_default_skin(bytes: &Vec<u8>, format: Format) -> (r: Option<Skin>)
    requires
        format == wide_arms_spec() || format == slim_arms_spec() || format == legacy_spec(),
    ensures
        match r {
            Some(s) => {
                &&& s.wf()
                &&& s.format == format
                &&& s.image.width == 64 && s.image.height == 64
                &&& crate::codec::png_rgba_of(bytes@) == Some((s.image.pixels@, 64u32, 64u32))
            },
            None => !(crate::codec::png_rgba_of(bytes@) matches Some(d) && d.1 == 64 && d.2
                == 64),
        },
{
    match crate::codec::decode_png_rgba(bytes) {
        Ok((pixels, width, height)) => {
            if width == 64 && height == 64 {
                match AtlasImage::new(pixels, width, height) {
                    Some(image) => {
                        proof {
                            lemma_preset_bounds();
                        }
                        Some(Skin { image, format })
                    },
                    None => None,
                }
            } else {
                None
            }
        },
        Err(_) => None,
    }
}

/// The two built-in default skins, constructed once at startup: `steve`
/// uses the wide-arms preset, `alex` the slim-arms preset.
#[derive(Debug)]
pub struct DefaultSkins {
    pub steve: Skin,
    pub alex: Skin,
}

impl DefaultSkins {
    pub open spec fn wf(self) -> bool {
        &&& self.steve.wf()
        &&& self.alex.wf()
        &&& self.steve.format == wide_arms_spec()
        &&& self.alex.format == slim_arms_spec()
    }

    pub fn new(steve_image: AtlasImage, alex_image: AtlasImage) -> (r: Option<DefaultSkins>)
        ensures
            match r {
                Some(d) => {
                    &&& d.wf()
                    &&& d.steve.image.pixels@ == steve_image.pixels@
                    &&& d.alex.image.pixels@ == alex_image.pixels@
                },
                None => !(steve_image.wf() && steve_image.width == 64 && steve_image.height == 64
                    && alex_image.wf() && alex_image.width == 64 && alex_image.height == 64),
            },
    {
        if steve_image.width != 64 || steve_image.height != 64 || alex_image.width != 64
            || alex_image.height != 64 {
            return None;
        }
        let expected: usize = 4 * 64 * 64;
        if steve_image.pixels.len() != expected || alex_image.pixels.len() != expected {
            return None;
        }
        proof {
            lemma_preset_bounds();
        }
        Some(
            DefaultSkins {
                steve: Skin { image: steve_image, format: Format::wide_arms() },
                alex: Skin { image: alex_image, format: Format::slim_arms() },
            },
        )
    }
}

} // verus!
