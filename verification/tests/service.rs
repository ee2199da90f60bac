use faceserve::api::{encode_image, ApiAccess, Error, ImageBytes};
use faceserve::cache::Cache;
use faceserve::minecraft::{self, resolve_texture, PlayerProfile, PlayerTexture, PlayerTextureRef, ProfileProperty};
use faceserve::render::FaceImage;
use faceserve::skin::{load_default_skin, AtlasImage, DefaultSkins, Format};

fn solid_atlas(width: u32, height: u32, rgba: [u8; 4]) -> AtlasImage {
    let mut pixels = Vec::new();
    for _ in 0..(width * height) {
        pixels.extend_from_slice(&rgba);
    }
    AtlasImage::new(pixels, width, height).expect("valid atlas")
}

fn service() -> ApiAccess {
    let steve = solid_atlas(64, 64, [120, 70, 30, 255]);
    let alex = solid_atlas(64, 64, [220, 170, 120, 255]);
    let defaults = DefaultSkins::new(steve, alex).expect("64x64 defaults");
    ApiAccess::new(defaults)
}

/// Encode an RGBA image via the image crate, for feeding fetched bytes in.
fn png_bytes_rgba(width: u32, height: u32, rgba: [u8; 4]) -> Vec<u8> {
    let mut img = image::RgbaImage::new(width, height);
    for p in img.pixels_mut() {
        *p = image::Rgba(rgba);
    }
    let mut out = Vec::new();
    let encoder = image::codecs::png::PngEncoder::new(&mut out);
    encoder
        .encode(img.as_raw(), width, height, image::ColorType::Rgba8)
        .expect("encode test atlas");
    out
}

#[test]
fn lru_eviction_drops_least_recently_used() {
    // Fill a capacity-3 cache with 4 distinct keys: the least recently
    // touched key is gone, the rest remain.
    let mut cache: Cache<u128, u32> = Cache::new(3);
    cache.insert(1, 10);
    cache.insert(2, 20);
    cache.insert(3, 30);
    cache.insert(4, 40);
    assert!(cache.get(&1).is_none());
    assert_eq!(cache.get(&2).copied(), Some(20));
    assert_eq!(cache.get(&3).copied(), Some(30));
    assert_eq!(cache.get(&4).copied(), Some(40));
}

#[test]
fn lru_lookup_refreshes_recency() {
    let mut cache: Cache<u128, u32> = Cache::new(2);
    cache.insert(1, 10);
    cache.insert(2, 20);
    // Touch 1, making 2 the least recently used, then overflow.
    assert_eq!(cache.get(&1).copied(), Some(10));
    cache.insert(3, 30);
    assert_eq!(cache.get(&1).copied(), Some(10));
    assert!(cache.get(&2).is_none());
    assert_eq!(cache.get(&3).copied(), Some(30));
}

#[test]
fn cache_loads_once_then_serves_from_table() {
    // The sequential core of single-flight: lookup-miss, load, insert;
    // every later lookup hits, so the loader ran exactly once.
    let mut cache: Cache<u128, u32> = Cache::new(8);
    let mut loads: u32 = 0;
    for _ in 0..5 {
        let hit = cache.get(&7).copied();
        let value = match hit {
            Some(v) => v,
            None => {
                loads += 1;
                let v = 123;
                cache.insert(7, v);
                v
            }
        };
        assert_eq!(value, 123);
    }
    assert_eq!(loads, 1);
}

#[test]
fn cache_clear_empties_table() {
    let mut cache: Cache<u128, u32> = Cache::new(4);
    cache.insert(1, 10);
    cache.insert(2, 20);
    cache.clear();
    assert!(cache.get(&1).is_none());
    assert!(cache.get(&2).is_none());
    cache.insert(1, 11);
    assert_eq!(cache.get(&1).copied(), Some(11));
}

#[test]
fn fingerprint_is_base64url_of_sha1() {
    let payload = vec![1u8, 2, 3, 4, 5];
    let ib = ImageBytes::from(payload.clone());
    assert_eq!(ib.bytes, payload);
    let mut hasher = sha1::Sha1::new();
    hasher.update(&payload);
    let expected = base64::encode_config(hasher.digest().bytes(), base64::URL_SAFE_NO_PAD);
    assert_eq!(ib.etag, expected);
    assert_eq!(ib.content_type(), "image/png");
}

#[test]
fn matches_compares_fingerprints() {
    let ib = ImageBytes::from(vec![9u8, 8, 7]);
    let etag = ib.etag.clone();
    assert!(ib.matches(Some(etag)));
    assert!(!ib.matches(Some("something-else".to_string())));
    assert!(!ib.matches(None));
}

#[test]
fn encode_image_roundtrips_through_png() {
    let mut pixels = Vec::new();
    for y in 0..8u8 {
        for x in 0..8u8 {
            pixels.extend_from_slice(&[x * 16, y * 16, 255 - x]);
        }
    }
    let face = FaceImage { pixels: pixels.clone(), width: 8, height: 8 };
    let ib = encode_image(face).expect("encode succeeds");
    let decoded = image::load_from_memory_with_format(&ib.bytes, image::ImageFormat::Png)
        .expect("valid png");
    let rgb = decoded.to_rgb8();
    assert_eq!(rgb.dimensions(), (8, 8));
    assert_eq!(rgb.as_raw().as_slice(), pixels.as_slice());
}

#[test]
fn resolve_texture_decodes_rgba_png() {
    let bytes = png_bytes_rgba(64, 64, [5, 6, 7, 255]);
    let texture_ref = PlayerTextureRef {
        url: "ignored".to_string(),
        metadata: vec![("model".to_string(), "slim".to_string())],
    };
    let t = resolve_texture(texture_ref, bytes).expect("decodes").expect("supported size");
    assert_eq!(t.image.width, 64);
    assert_eq!(t.image.height, 64);
    assert_eq!(t.image.pixels[0..4], [5, 6, 7, 255]);
    assert_eq!(t.metadata[0].1, "slim");
}

#[test]
fn resolve_texture_treats_oversize_as_unsupported() {
    // An RGBA8 PNG beyond the accepted dimensions is no error: it resolves
    // to nothing and the caller falls back to a default skin.
    let big = png_bytes_rgba(16385, 1, [1, 2, 3, 255]);
    let texture_ref = PlayerTextureRef { url: String::new(), metadata: vec![] };
    assert!(resolve_texture(texture_ref, big).expect("decodes").is_none());
}

#[test]
fn resolve_texture_rejects_garbage_and_non_rgba() {
    let texture_ref = PlayerTextureRef { url: String::new(), metadata: vec![] };
    let err = resolve_texture(texture_ref, vec![1, 2, 3]).unwrap_err();
    assert_eq!(err, minecraft::Error::Image);

    // An RGB (no alpha) PNG decodes, but not to the RGBA8 form the
    // pipeline needs.
    let mut img = image::RgbImage::new(64, 64);
    for p in img.pixels_mut() {
        *p = image::Rgb([1, 2, 3]);
    }
    let mut out = Vec::new();
    image::codecs::png::PngEncoder::new(&mut out)
        .encode(img.as_raw(), 64, 64, image::ColorType::Rgb8)
        .expect("encode");
    let texture_ref = PlayerTextureRef { url: String::new(), metadata: vec![] };
    let err = resolve_texture(texture_ref, out).unwrap_err();
    assert_eq!(err, minecraft::Error::InvalidImageFormat);
}

#[test]
fn profile_property_decodes_base64() {
    let profile = PlayerProfile {
        id: 7,
        name: "player".to_string(),
        properties: vec![ProfileProperty {
            name: "textures".to_string(),
            value: base64::encode_config(b"{\"a\":1}", base64::STANDARD),
        }],
    };
    assert_eq!(profile.textures().expect("decodes"), b"{\"a\":1}");
    let key = "missing".to_string();
    assert!(profile.property(&key).is_none());
}

#[test]
fn load_default_skin_decodes_builtin_bytes() {
    let bytes = png_bytes_rgba(64, 64, [9, 9, 9, 255]);
    let skin = load_default_skin(&bytes, Format::wide_arms()).expect("valid default");
    assert_eq!(skin.image.width, 64);
    assert_eq!(skin.image.height, 64);
    assert!(load_default_skin(&vec![0, 1, 2], Format::wide_arms()).is_none());
    let wrong_size = png_bytes_rgba(32, 32, [9, 9, 9, 255]);
    assert!(load_default_skin(&wrong_size, Format::slim_arms()).is_none());
}

#[test]
fn get_face_is_idempotent() {
    // Two identical requests return byte-identical output and the same
    // fingerprint; the second is served from the cache (no fetch needed).
    let mut svc = service();
    let texture = PlayerTexture { image: solid_atlas(64, 64, [50, 60, 70, 255]), metadata: vec![] };
    let first = svc.get_face(77, 0, Ok(Some(texture))).expect("renders");
    let second = svc
        .get_face(77, 0, Err(Error::MinecraftApi))
        .expect("served from cache without fetching");
    assert_eq!(first.bytes, second.bytes);
    assert_eq!(first.etag, second.etag);
}

#[test]
fn get_face_falls_back_on_unsupported_atlas() {
    // A 100x100 atlas never errors: the service substitutes a default skin
    // and still returns a valid encoded face.
    let mut svc = service();
    let texture = PlayerTexture { image: solid_atlas(100, 100, [1, 1, 1, 255]), metadata: vec![] };
    let out = svc.get_face(0, 0, Ok(Some(texture))).expect("falls back, no error");
    let decoded = image::load_from_memory_with_format(&out.bytes, image::ImageFormat::Png)
        .expect("valid png");
    let rgb = decoded.to_rgb8();
    assert_eq!(rgb.dimensions(), (8, 8));
    // Identifier 0 selects the first default (steve), a solid color.
    assert_eq!(rgb.get_pixel(0, 0).0, [120, 70, 30]);
}

#[test]
fn get_face_falls_back_on_absent_atlas() {
    let mut svc = service();
    let out = svc.get_face(1, 1, Ok(None)).expect("default skin");
    let decoded = image::load_from_memory_with_format(&out.bytes, image::ImageFormat::Png)
        .expect("valid png");
    let rgb = decoded.to_rgb8();
    // Identifier 1 selects the second default (alex), upscaled to 16x16.
    assert_eq!(rgb.dimensions(), (16, 16));
    assert_eq!(rgb.get_pixel(15, 15).0, [220, 170, 120]);
}

#[test]
fn get_face_propagates_fetch_failure_and_caches_nothing() {
    let mut svc = service();
    let err = svc.get_face(5, 0, Err(Error::MinecraftApi)).unwrap_err();
    assert_eq!(err, Error::MinecraftApi);
    // Nothing was cached: a later successful fetch still renders.
    let texture = PlayerTexture { image: solid_atlas(64, 64, [50, 60, 70, 255]), metadata: vec![] };
    let out = svc.get_face(5, 0, Ok(Some(texture))).expect("fresh load");
    let decoded = image::load_from_memory_with_format(&out.bytes, image::ImageFormat::Png)
        .expect("valid png");
    assert_eq!(decoded.to_rgb8().get_pixel(0, 0).0, [50, 60, 70]);
}

#[test]
fn get_face_scales_output() {
    let mut svc = service();
    let texture = PlayerTexture { image: solid_atlas(64, 64, [50, 60, 70, 255]), metadata: vec![] };
    let out = svc.get_face(9, 5, Ok(Some(texture))).expect("renders");
    let decoded = image::load_from_memory_with_format(&out.bytes, image::ImageFormat::Png)
        .expect("valid png");
    assert_eq!(decoded.to_rgb8().dimensions(), (256, 256));
}

#[test]
fn clear_empties_both_caches() {
    let mut svc = service();
    let texture = PlayerTexture { image: solid_atlas(64, 64, [50, 60, 70, 255]), metadata: vec![] };
    let first = svc.get_face(3, 0, Ok(Some(texture))).expect("renders");
    svc.clear();
    // After a clear the same request needs the fetch outcome again; with
    // an absent atlas it falls back to the default rather than the old
    // cached face.
    let second = svc.get_face(3, 0, Ok(None)).expect("reloaded");
    assert_ne!(first.bytes, second.bytes);
}
