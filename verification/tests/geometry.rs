use faceserve::render::{render_face, rescale, FaceImage};
use faceserve::skin::{
    AtlasImage, CuboidTex, DefaultSkin, Format, Skin, TexRegion,
};
use faceserve::web::{log2, parse_scale};
use faceserve::config::Config;
use faceserve::minecraft::PlayerTexture;

/// A solid-color RGBA atlas.
fn solid_atlas(width: u32, height: u32, rgba: [u8; 4]) -> AtlasImage {
    let mut pixels = Vec::new();
    for _ in 0..(width * height) {
        pixels.extend_from_slice(&rgba);
    }
    AtlasImage::new(pixels, width, height).expect("valid atlas")
}

/// A 64x64 atlas whose head-front region (8,8)..(16,16) is `head` and whose
/// hat-front region (40,8)..(48,16) is `hat`; everything else opaque gray.
fn atlas_with_face(head: [u8; 4], hat: [u8; 4]) -> AtlasImage {
    let mut pixels = Vec::new();
    for y in 0..64u32 {
        for x in 0..64u32 {
            let px = if (8..16).contains(&x) && (8..16).contains(&y) {
                head
            } else if (40..48).contains(&x) && (8..16).contains(&y) {
                hat
            } else {
                [128, 128, 128, 255]
            };
            pixels.extend_from_slice(&px);
        }
    }
    AtlasImage::new(pixels, 64, 64).expect("valid atlas")
}

#[test]
fn unfold_formula_general_part() {
    // A body part at (16, 16) sized (8, 12, 4), per the unfold formula.
    let c = CuboidTex::new((16, 16), (8, 12, 4));
    assert_eq!(c.front.origin, (20, 20));
    assert_eq!(c.front.size, (8, 12));
    assert_eq!(c.back.origin, (28, 20));
    assert_eq!(c.back.size, (8, 12));
    assert_eq!(c.top.origin, (20, 16));
    assert_eq!(c.top.size, (8, 4));
    assert_eq!(c.bottom.origin, (28, 16));
    assert_eq!(c.bottom.size, (8, 4));
    assert_eq!(c.left.origin, (36, 20));
    assert_eq!(c.left.size, (4, 12));
    assert_eq!(c.right.origin, (16, 20));
    assert_eq!(c.right.size, (4, 12));
}

#[test]
fn wide_arms_head_front_geometry() {
    // Head origin (0,0) size (8,8,8): front region at (8,8), size (8,8).
    let f = Format::wide_arms();
    assert_eq!(f.head.front.origin, (8, 8));
    assert_eq!(f.head.front.size, (8, 8));
    assert_eq!(f.hat.front.origin, (40, 8));
    assert_eq!(f.hat.front.size, (8, 8));
}

#[test]
fn slim_arms_narrow_arm() {
    let f = Format::slim_arms();
    assert_eq!(f.right_arm.front.size.0, 3);
    assert_eq!(f.left_arm.front.size.0, 3);
    let wide = Format::wide_arms();
    assert_eq!(wide.right_arm.front.size.0, 4);
}

#[test]
fn legacy_reuses_right_side_and_has_no_overlays() {
    let f = Format::legacy();
    assert_eq!(f.left_leg.front.origin, f.right_leg.front.origin);
    assert_eq!(f.left_arm.front.origin, f.right_arm.front.origin);
    assert!(f.jacket.is_none());
    assert!(f.right_pants.is_none());
    assert!(f.left_sleeves.is_none());
}

#[test]
fn tex_region_new_stores_fields() {
    let r = TexRegion::new((3, 4), (5, 6));
    assert_eq!(r.origin, (3, 4));
    assert_eq!(r.size, (5, 6));
}

#[test]
fn resolver_rule_table() {
    // Wide + 64x32 -> legacy.
    let t = PlayerTexture { image: solid_atlas(64, 32, [1, 2, 3, 255]), metadata: vec![] };
    let s = Skin::from(t).expect("legacy supported");
    assert!(s.format.jacket.is_none());
    // Wide + 64x64 -> wide arms.
    let t = PlayerTexture { image: solid_atlas(64, 64, [1, 2, 3, 255]), metadata: vec![] };
    let s = Skin::from(t).expect("wide supported");
    assert_eq!(s.format.right_arm.front.size.0, 4);
    assert!(s.format.jacket.is_some());
    // Slim + 64x64 -> slim arms.
    let t = PlayerTexture {
        image: solid_atlas(64, 64, [1, 2, 3, 255]),
        metadata: vec![("model".to_string(), "slim".to_string())],
    };
    let s = Skin::from(t).expect("slim supported");
    assert_eq!(s.format.right_arm.front.size.0, 3);
    // Slim + 64x32 -> unsupported.
    let t = PlayerTexture {
        image: solid_atlas(64, 32, [1, 2, 3, 255]),
        metadata: vec![("model".to_string(), "slim".to_string())],
    };
    assert!(Skin::from(t).is_none());
    // Unsupported dimensions.
    let t = PlayerTexture { image: solid_atlas(100, 100, [1, 2, 3, 255]), metadata: vec![] };
    assert!(Skin::from(t).is_none());
}

#[test]
fn render_face_blends_hat_over_head() {
    // Fully opaque hat wins; fully transparent hat leaves the head.
    let atlas = atlas_with_face([10, 20, 30, 255], [200, 100, 50, 255]);
    let skin = Skin { image: atlas, format: Format::wide_arms() };
    let face = render_face(&skin);
    assert_eq!(face.width, 8);
    assert_eq!(face.height, 8);
    assert_eq!(face.get_pixel(0, 0), (200, 100, 50));
    assert_eq!(face.get_pixel(7, 7), (200, 100, 50));

    let atlas = atlas_with_face([10, 20, 30, 255], [200, 100, 50, 0]);
    let skin = Skin { image: atlas, format: Format::wide_arms() };
    let face = render_face(&skin);
    assert_eq!(face.get_pixel(0, 0), (10, 20, 30));
    assert_eq!(face.get_pixel(3, 5), (10, 20, 30));
}

#[test]
fn rescale_by_two_levels_makes_blocks() {
    // An 8x8 gradient image upscaled by 2^2: every 4x4 block repeats one
    // source pixel.
    let mut pixels = Vec::new();
    for y in 0..8u8 {
        for x in 0..8u8 {
            pixels.extend_from_slice(&[x * 10, y * 10, x + y]);
        }
    }
    let img = FaceImage { pixels, width: 8, height: 8 };
    let out = rescale(&img, 2);
    assert_eq!(out.width, 32);
    assert_eq!(out.height, 32);
    for y in 0..32u32 {
        for x in 0..32u32 {
            let expected = img.get_pixel(x >> 2, y >> 2);
            assert_eq!(out.get_pixel(x, y), expected);
        }
    }
}

#[test]
fn rescale_composes_across_exponents() {
    // Upscaling by 2^1 and then 2^2 equals upscaling by 2^3 outright.
    let mut pixels = Vec::new();
    for y in 0..8u8 {
        for x in 0..8u8 {
            pixels.extend_from_slice(&[x * 9, y * 9, x ^ y]);
        }
    }
    let img = FaceImage { pixels, width: 8, height: 8 };
    let twice = rescale(&rescale(&img, 1), 2);
    let once = rescale(&img, 3);
    assert_eq!(twice.width, once.width);
    assert_eq!(twice.height, once.height);
    assert_eq!(twice.pixels, once.pixels);
}

#[test]
fn rescale_zero_is_identity() {
    let mut pixels = Vec::new();
    for i in 0..(8 * 8 * 3) as u32 {
        pixels.push((i % 251) as u8);
    }
    let img = FaceImage { pixels: pixels.clone(), width: 8, height: 8 };
    let out = rescale(&img, 0);
    assert_eq!(out.width, 8);
    assert_eq!(out.height, 8);
    assert_eq!(out.pixels, pixels);
}

#[test]
fn default_selection_deterministic_and_bit_sensitive() {
    // The hash bit of 0 is 0 -> Steve; flipping the low identifier bit
    // flips the selection.
    assert!(matches!(DefaultSkin::from(0), DefaultSkin::Steve));
    assert!(matches!(DefaultSkin::from(1), DefaultSkin::Alex));
    for id in [0u128, 1, 42, u128::MAX, 0xdead_beef_dead_beef_dead_beef_dead_beef] {
        let first = DefaultSkin::from(id);
        let second = DefaultSkin::from(id);
        assert_eq!(
            matches!(first, DefaultSkin::Steve),
            matches!(second, DefaultSkin::Steve)
        );
        let flipped = DefaultSkin::from(id ^ 1);
        assert_ne!(
            matches!(first, DefaultSkin::Steve),
            matches!(flipped, DefaultSkin::Steve)
        );
    }
    // The selection reproduces the 64-bit-XOR hash scheme: for this value
    // the XOR of the folded halves has low bit 1.
    let id: u128 = 1u128 << 64;
    assert!(matches!(DefaultSkin::from(id), DefaultSkin::Alex));
    let id: u128 = (1u128 << 64) | 1;
    assert!(matches!(DefaultSkin::from(id), DefaultSkin::Steve));
}

#[test]
fn parse_scale_table() {
    assert_eq!(parse_scale(8), Some(0));
    assert_eq!(parse_scale(16), Some(1));
    assert_eq!(parse_scale(64), Some(3));
    assert_eq!(parse_scale(256), Some(5));
    assert_eq!(parse_scale(0), None);
    assert_eq!(parse_scale(7), None);
    assert_eq!(parse_scale(24), None); // multiple of 8, not a power-of-two multiple
    assert_eq!(parse_scale(264), None); // too large
}

#[test]
fn log2_powers() {
    assert_eq!(log2(1), Some(0));
    assert_eq!(log2(2), Some(1));
    assert_eq!(log2(32), Some(5));
    assert_eq!(log2(0), None);
    assert_eq!(log2(3), None);
    assert_eq!(log2(6), None);
}

#[test]
fn config_default_values() {
    let c = Config::default();
    assert_eq!(c.requests_per_minute, 100);
    assert_eq!(c.port, 1111);
}
