//! The face service: orchestrates atlas resolution, face rendering,
//! scaling, PNG encoding and fingerprinting, with two least-recently-used
//! caches in front (one for rendered faces, one for encoded output). The
//! boundary layer owns the exclusive section around these calls and the
//! network fetch; everything the service decides and computes is here.

use vstd::prelude::*;

use crate::cache::Cache;
use crate::cache::contains_key;
use crate::cache::distinct_keys;
use crate::cache::lemma_insert_then_found;
use crate::cache::lemma_touch_found;
use crate::cache::lemma_lru_insert_membership;
use crate::cache::lru_insert;
use crate::cache::touch;
use crate::cache::value_of_key;
use crate::codec;
use crate::codec::b64url_of;
use crate::codec::png_of;
use crate::codec::sha1_of;
use crate::minecraft;
use crate::minecraft::PlayerTexture;
use crate::render::FaceImage;
use crate::render::is_face_of;
use crate::render::render_face;
use crate::render::rescale;
use crate::render::scaled_of;
use crate::skin::DefaultSkin;
use crate::skin::DefaultSkins;
use crate::skin::Skin;
use crate::skin::default_skin_spec;
use crate::skin::skin_of_texture;

verus! {

/// Service-level failures; an unsupported or absent atlas is not one of
/// them (it falls back to a default skin).
#[derive(Debug, Copy, Clone, PartialEq, Eq, Structural)]
pub enum Error {
    EncodeImage,
    MinecraftApi,
}

impl From<minecraft::Error> for Error {
    fn from(_e: minecraft::Error) -> (r: Self) {
        Error::MinecraftApi
    }
}

impl vstd::std_specs::convert::FromSpecImpl<minecraft::Error> for Error {
    open spec fn obeys_from_spec() -> bool {
        true
    }

    open spec fn from_spec(_e: minecraft::Error) -> Self {
        Error::MinecraftApi
    }
}

/// An encoded image plus the content fingerprint derived from its bytes.
#[derive(Debug)]
pub struct ImageBytes {
    pub bytes: Vec<u8>,
    pub etag: String,
}

impl ImageBytes {
    /// The fingerprint is the URL-safe base64 of the SHA-1 digest of the
    /// payload.
    pub open spec fn wf(self) -> bool {
        self.etag@ == b64url_of(sha1_of(self.bytes@))
    }

    /// Wrap a byte payload, deriving its fingerprint.
    pub fn from(bytes: Vec<u8>) -> (r: ImageBytes)
        ensures
            r.bytes@ == bytes@,
            r.wf(),
    {
        let digest = codec::sha1_digest(&bytes);
        let etag = codec::base64_url_encode(&digest);
        ImageBytes { bytes, etag }
    }

    /// Conditional-response support: does a candidate fingerprint match?
    pub fn matches(&self, etag: Option<String>) -> (r: bool)
        ensures
            r == (match etag {
                Some(candidate) => self.etag@ == candidate@,
                None => false,
            }),
    {
        match etag {
            Some(candidate) => self.etag == candidate,
            None => false,
        }
    }

    /// The content-type tag of the encoded payload.
    pub fn content_type(&self) -> (s: &'static str)
        ensures
            s@ == "image/png"@,
    {
        "image/png"
    }
}

impl Clone for ImageBytes {
    fn clone(&self) -> (r: Self)
        ensures
            r.bytes@ == self.bytes@,
            r.etag@ == self.etag@,
    {
        let bytes = self.bytes.clone();
        proof {
            assert(bytes@ =~= self.bytes@);
        }
        ImageBytes { bytes, etag: self.etag.clone() }
    }
}

/// Two encoded images carry the same payload and fingerprint.
pub open spec fn bytes_like(a: ImageBytes, b: ImageBytes) -> bool {
    &&& a.bytes@ == b.bytes@
    &&& a.etag@ == b.etag@
}

/// Two face images carry the same pixels and dimensions.
pub open spec fn face_like(a: FaceImage, b: FaceImage) -> bool {
    &&& a.pixels@ == b.pixels@
    &&& a.width == b.width
    &&& a.height == b.height
}

/// PNG-encode a rendered face and fingerprint the result. Encoding a
/// well-formed face cannot fail (see `encode_png`), so success is owed;
/// the `Result` shape is kept for the boundary layer's error mapping.
pub fn encode_image(face: FaceImage) -> (r: Result<ImageBytes, Error>)
    requires
        face.wf(),
    ensures
        r matches Ok(ib) && ib.wf() && ib.bytes@ == png_of(face.pixels@, face.width, face.height),
{
    match codec::encode_png(&face.pixels, face.width, face.height) {
        Ok(bytes) => Ok(ImageBytes::from(bytes)),
        Err(_) => vstd::pervasive::unreached(),
    }
}

/// `ib` is the encoded form of `raw` upscaled by `2^scale`: some image in
/// the nearest-neighbor scaling relation to `raw` whose PNG encoding it
/// carries, fingerprinted.
pub open spec fn encodes(raw: FaceImage, scale: u32, ib: ImageBytes) -> bool {
    &&& ib.wf()
    &&& exists|scaled: FaceImage|
        #[trigger] scaled_of(raw, scale, scaled) && ib.bytes@ == png_of(
            scaled.pixels@,
            scaled.width,
            scaled.height,
        )
}

/// The skin a request renders: the fetched texture when it resolves, else
/// the default skin its identifier selects.
pub open spec fn default_skin_of(defaults: DefaultSkins, uuid: u128) -> Skin {
    match default_skin_spec(uuid) {
        DefaultSkin::Steve => defaults.steve,
        DefaultSkin::Alex => defaults.alex,
    }
}

pub open spec fn chosen_skin(defaults: DefaultSkins, uuid: u128, fetched: Option<
    PlayerTexture,
>) -> Skin {
    match fetched {
        Some(t) => match skin_of_texture(t) {
            Some(s) => s,
            None => default_skin_of(defaults, uuid),
        },
        None => default_skin_of(defaults, uuid),
    }
}

/// A rendered-face cache entry: a well-formed 8x8 face.
pub open spec fn raw_entry_ok(e: (u128, FaceImage)) -> bool {
    &&& e.1.wf()
    &&& e.1.width == 8
    &&& e.1.height == 8
}

/// The payload is the fingerprinted PNG of some square face image of side
/// `8 * 2^scale` - the shape every response at that scale owes.
pub open spec fn scaled_png_payload(ib: ImageBytes, scale: u32) -> bool {
    &&& ib.wf()
    &&& exists|scaled: FaceImage|
        scaled.wf() && scaled.width == 8u32 << scale && scaled.height == 8u32 << scale
            && ib.bytes@ == #[trigger] png_of(scaled.pixels@, scaled.width, scaled.height)
}

/// An encoded-output cache entry: a fingerprinted payload whose bytes are
/// the PNG of a face square of the side its key's scale demands.
pub open spec fn enc_entry_ok(e: ((u128, u32), ImageBytes)) -> bool {
    scaled_png_payload(e.1, e.0.1)
}


proof fn lemma_raw_touch_ok(s: Seq<(u128, FaceImage)>, k: u128)
    requires
        distinct_keys(s),
        contains_key(s, k),
        forall|i: int| 0 <= i < s.len() ==> raw_entry_ok(#[trigger] s[i]),
    ensures
        forall|i: int| 0 <= i < touch(s, k).len() ==> raw_entry_ok(#[trigger] touch(s, k)[i]),
{
    lemma_touch_found(s, k);
    assert forall|i: int| 0 <= i < touch(s, k).len() implies raw_entry_ok(touch(s, k)[i]) by {
        let j = choose|j: int| 0 <= j < s.len() && touch(s, k)[i] == s[j];
        assert(raw_entry_ok(s[j]));
    }
}

proof fn lemma_enc_touch_ok(s: Seq<((u128, u32), ImageBytes)>, k: (u128, u32))
    requires
        distinct_keys(s),
        contains_key(s, k),
        forall|i: int| 0 <= i < s.len() ==> enc_entry_ok(#[trigger] s[i]),
    ensures
        forall|i: int| 0 <= i < touch(s, k).len() ==> enc_entry_ok(#[trigger] touch(s, k)[i]),
{
    lemma_touch_found(s, k);
    assert forall|i: int| 0 <= i < touch(s, k).len() implies enc_entry_ok(touch(s, k)[i]) by {
        let j = choose|j: int| 0 <= j < s.len() && touch(s, k)[i] == s[j];
        assert(enc_entry_ok(s[j]));
    }
}

proof fn lemma_raw_insert_ok(s: Seq<(u128, FaceImage)>, cap: int, k: u128, v: FaceImage)
    requires
        distinct_keys(s),
        raw_entry_ok((k, v)),
        forall|i: int| 0 <= i < s.len() ==> raw_entry_ok(#[trigger] s[i]),
    ensures
        forall|i: int|
            0 <= i < lru_insert(s, cap, k, v).len() ==> raw_entry_ok(
                #[trigger] lru_insert(s, cap, k, v)[i],
            ),
{
    lemma_lru_insert_membership(s, cap, k, v);
    assert forall|i: int| 0 <= i < lru_insert(s, cap, k, v).len() implies raw_entry_ok(
        lru_insert(s, cap, k, v)[i],
    ) by {
        if lru_insert(s, cap, k, v)[i] != (k, v) {
            let j = choose|j: int| 0 <= j < s.len() && lru_insert(s, cap, k, v)[i] == s[j];
            assert(raw_entry_ok(s[j]));
        }
    }
}

proof fn lemma_enc_insert_ok(
    s: Seq<((u128, u32), ImageBytes)>,
    cap: int,
    k: (u128, u32),
    v: ImageBytes,
)
    requires
        distinct_keys(s),
        enc_entry_ok((k, v)),
        forall|i: int| 0 <= i < s.len() ==> enc_entry_ok(#[trigger] s[i]),
    ensures
        forall|i: int|
            0 <= i < lru_insert(s, cap, k, v).len() ==> enc_entry_ok(
                #[trigger] lru_insert(s, cap, k, v)[i],
            ),
{
    lemma_lru_insert_membership(s, cap, k, v);
    assert forall|i: int| 0 <= i < lru_insert(s, cap, k, v).len() implies enc_entry_ok(
        lru_insert(s, cap, k, v)[i],
    ) by {
        if lru_insert(s, cap, k, v)[i] != (k, v) {
            let j = choose|j: int| 0 <= j < s.len() && lru_insert(s, cap, k, v)[i] == s[j];
            assert(enc_entry_ok(s[j]));
        }
    }
}

pub const RAW_FACE_CACHE_SIZE: usize = 512;

pub const FACE_CACHE_SIZE: usize = 128;

/// The capability to serve face requests: both caches plus the built-in
/// default skins, all behind the boundary layer's exclusive section.
pub struct ApiAccess {
    raw_faces: Cache<u128, FaceImage>,
    faces: Cache<(u128, u32), ImageBytes>,
    defaults: DefaultSkins,
}

impl ApiAccess {
    pub closed spec fn raw_entries(self) -> Seq<(u128, FaceImage)> {
        self.raw_faces.entries_seq()
    }

    pub closed spec fn enc_entries(self) -> Seq<((u128, u32), ImageBytes)> {
        self.faces.entries_seq()
    }

    pub closed spec fn defaults_spec(self) -> DefaultSkins {
        self.defaults
    }

    pub closed spec fn wf(self) -> bool {
        &&& self.raw_faces.wf()
        &&& self.raw_faces.cap() == RAW_FACE_CACHE_SIZE
        &&& self.faces.wf()
        &&& self.faces.cap() == FACE_CACHE_SIZE
        &&& self.defaults_spec().wf()
        &&& forall|i: int|
            0 <= i < self.raw_entries().len() ==> raw_entry_ok(#[trigger] self.raw_entries()[i])
        &&& forall|i: int|
            0 <= i < self.enc_entries().len() ==> enc_entry_ok(#[trigger] self.enc_entries()[i])
    }

    pub fn new(defaults: DefaultSkins) -> (api: ApiAccess)
        requires
            defaults.wf(),
        ensures
            api.wf(),
            api.defaults_spec() == defaults,
            api.raw_entries() == Seq::<(u128, FaceImage)>::empty(),
            api.enc_entries() == Seq::<((u128, u32), ImageBytes)>::empty(),
    {
        ApiAccess {
            raw_faces: Cache::new(RAW_FACE_CACHE_SIZE),
            faces: Cache::new(FACE_CACHE_SIZE),
            defaults,
        }
    }

    /// Atomically empty both caches; values already handed out are
    /// unaffected.
    pub fn clear(&mut self)
        requires
            old(self).wf(),
        ensures
            final(self).wf(),
            final(self).defaults_spec() == old(self).defaults_spec(),
            final(self).raw_entries() == Seq::<(u128, FaceImage)>::empty(),
            final(self).enc_entries() == Seq::<((u128, u32), ImageBytes)>::empty(),
    {
        self.raw_faces.clear();
        self.faces.clear();
    }

    /// Encoded-output cache lookup; a hit marks the entry most recently
    /// used and returns a duplicate.
    pub fn get_cached(&mut self, uuid: u128, scale: u32) -> (r: Option<ImageBytes>)
        requires
            old(self).wf(),
        ensures
            final(self).wf(),
            final(self).defaults_spec() == old(self).defaults_spec(),
            final(self).raw_entries() == old(self).raw_entries(),
            match r {
                Some(ib) => {
                    &&& contains_key(old(self).enc_entries(), (uuid, scale))
                    &&& bytes_like(ib, value_of_key(old(self).enc_entries(), (uuid, scale)))
                    &&& scaled_png_payload(ib, scale)
                    &&& final(self).enc_entries() == touch(old(self).enc_entries(), (uuid, scale))
                },
                None => {
                    &&& !contains_key(old(self).enc_entries(), (uuid, scale))
                    &&& final(self).enc_entries() == old(self).enc_entries()
                },
            },
    {
        let ghost s = self.faces.entries_seq();
        let key = (uuid, scale);
        let r = match self.faces.get(&key) {
            Some(v) => {
                let ib = v.clone();
                proof {
                    let i = crate::cache::index_of_key(s, key);
                    assert(0 <= i < s.len() && s[i].0 == key);
                    assert(enc_entry_ok(old(self).enc_entries()[i]));
                    assert(scaled_png_payload(s[i].1, scale));
                    let scaled = choose|scaled: FaceImage|
                        scaled.wf() && scaled.width == 8u32 << scale && scaled.height == 8u32
                            << scale && s[i].1.bytes@ == #[trigger] png_of(
                            scaled.pixels@,
                            scaled.width,
                            scaled.height,
                        );
                    assert(ib.bytes@ == png_of(scaled.pixels@, scaled.width, scaled.height));
                    assert(scaled_png_payload(ib, scale));
                }
                Some(ib)
            },
            None => None,
        };
        proof {
            assert forall|i: int| 0 <= i < s.len() implies enc_entry_ok(#[trigger] s[i]) by {
                assert(enc_entry_ok(old(self).enc_entries()[i]));
            }
            if r is Some {
                lemma_enc_touch_ok(s, key);
            }
            assert forall|i: int| 0 <= i < self.enc_entries().len() implies enc_entry_ok(
                #[trigger] self.enc_entries()[i],
            ) by {
                if r is Some {
                    assert(enc_entry_ok(touch(s, key)[i]));
                } else {
                    assert(enc_entry_ok(s[i]));
                }
            }
            assert forall|i: int| 0 <= i < self.raw_entries().len() implies raw_entry_ok(
                #[trigger] self.raw_entries()[i],
            ) by {
                assert(raw_entry_ok(old(self).raw_entries()[i]));
            }
        }
        r
    }

    /// Rendered-face cache lookup; a hit marks the entry most recently
    /// used and returns a duplicate.
    pub fn get_raw_face(&mut self, uuid: u128) -> (r: Option<FaceImage>)
        requires
            old(self).wf(),
        ensures
            final(self).wf(),
            final(self).defaults_spec() == old(self).defaults_spec(),
            final(self).enc_entries() == old(self).enc_entries(),
            match r {
                Some(f) => {
                    &&& contains_key(old(self).raw_entries(), uuid)
                    &&& face_like(f, value_of_key(old(self).raw_entries(), uuid))
                    &&& f.wf() && f.width == 8 && f.height == 8
                    &&& final(self).raw_entries() == touch(old(self).raw_entries(), uuid)
                },
                None => {
                    &&& !contains_key(old(self).raw_entries(), uuid)
                    &&& final(self).raw_entries() == old(self).raw_entries()
                },
            },
    {
        let ghost s = self.raw_faces.entries_seq();
        let r = match self.raw_faces.get(&uuid) {
            Some(v) => Some(v.clone()),
            None => None,
        };
        proof {
            assert forall|i: int| 0 <= i < s.len() implies raw_entry_ok(#[trigger] s[i]) by {
                assert(raw_entry_ok(old(self).raw_entries()[i]));
            }
            if r is Some {
                lemma_raw_touch_ok(s, uuid);
                let i = crate::cache::index_of_key(s, uuid);
                assert(raw_entry_ok(s[i]));
            }
            assert forall|i: int| 0 <= i < self.raw_entries().len() implies raw_entry_ok(
                #[trigger] self.raw_entries()[i],
            ) by {
                if r is Some {
                    assert(raw_entry_ok(touch(s, uuid)[i]));
                } else {
                    assert(raw_entry_ok(s[i]));
                }
            }
            assert forall|i: int| 0 <= i < self.enc_entries().len() implies enc_entry_ok(
                #[trigger] self.enc_entries()[i],
            ) by {
                assert(enc_entry_ok(old(self).enc_entries()[i]));
            }
        }
        r
    }

    /// Render the face for `uuid` from the fetched texture (falling back
    /// to the selected default skin when the texture is absent or
    /// unsupported) and cache it as most recently used.
    pub fn load_raw_face(&mut self, uuid: u128, fetched: Option<PlayerTexture>) -> (f: FaceImage)
        requires
            old(self).wf(),
            fetched matches Some(t) ==> t.image.wf(),
        ensures
            final(self).wf(),
            final(self).defaults_spec() == old(self).defaults_spec(),
            final(self).enc_entries() == old(self).enc_entries(),
            f.wf() && f.width == 8 && f.height == 8,
            is_face_of(f, chosen_skin(old(self).defaults_spec(), uuid, fetched)),
            exists|stored: FaceImage|
                #[trigger] face_like(stored, f) && final(self).raw_entries() == lru_insert(
                    old(self).raw_entries(),
                    RAW_FACE_CACHE_SIZE as int,
                    uuid,
                    stored,
                ),
    {
        let ghost s = self.raw_faces.entries_seq();
        let skin_opt: Option<Skin> = match fetched {
            Some(t) => Skin::from(t),
            None => None,
        };
        let face: FaceImage = match &skin_opt {
            Some(s) => render_face(s),
            None => {
                let selected = DefaultSkin::from(uuid);
                let default_skin = selected.as_skin(&self.defaults);
                render_face(default_skin)
            },
        };
        let stored = face.clone();
        let ghost gstored = stored;
        proof {
            assert forall|i: int| 0 <= i < s.len() implies raw_entry_ok(#[trigger] s[i]) by {
                assert(raw_entry_ok(old(self).raw_entries()[i]));
            }
            lemma_raw_insert_ok(s, RAW_FACE_CACHE_SIZE as int, uuid, gstored);
        }
        self.raw_faces.insert(uuid, stored);
        proof {
            assert forall|i: int| 0 <= i < self.raw_entries().len() implies raw_entry_ok(
                #[trigger] self.raw_entries()[i],
            ) by {
                assert(raw_entry_ok(lru_insert(s, RAW_FACE_CACHE_SIZE as int, uuid, gstored)[i]));
            }
            assert forall|i: int| 0 <= i < self.enc_entries().len() implies enc_entry_ok(
                #[trigger] self.enc_entries()[i],
            ) by {
                assert(enc_entry_ok(old(self).enc_entries()[i]));
            }
            assert(face_like(gstored, face));
        }
        face
    }

    /// Upscale the rendered face, PNG-encode and fingerprint it, and cache
    /// the result as most recently used. Encoding a well-formed face
    /// cannot fail, so success is owed.
    pub fn load_face(&mut self, uuid: u128, scale: u32, raw: &FaceImage) -> (r: Result<
        ImageBytes,
        Error,
    >)
        requires
            old(self).wf(),
            raw.wf(),
            raw.width == 8,
            raw.height == 8,
            scale <= 5,
        ensures
            final(self).wf(),
            final(self).defaults_spec() == old(self).defaults_spec(),
            final(self).raw_entries() == old(self).raw_entries(),
            r matches Ok(ib) && {
                &&& encodes(*raw, scale, ib)
                &&& scaled_png_payload(ib, scale)
                &&& exists|stored: ImageBytes|
                    #[trigger] bytes_like(stored, ib) && final(self).enc_entries() == lru_insert(
                        old(self).enc_entries(),
                        FACE_CACHE_SIZE as int,
                        (uuid, scale),
                        stored,
                    )
            },
    {
        let ghost s = self.faces.entries_seq();
        proof {
            crate::render::lemma_face_scale_fits(scale);
        }
        let face = rescale(raw, scale);
        let ghost gface = face;
        let ib = match encode_image(face) {
            Ok(ib) => ib,
            Err(_) => vstd::pervasive::unreached(),
        };
        let stored = ib.clone();
        let ghost gstored = stored;
        proof {
            assert(scaled_of(*raw, scale, gface));
            assert(gface.width == 8u32 << scale && gface.height == 8u32 << scale);
            assert(ib.bytes@ == png_of(gface.pixels@, gface.width, gface.height));
            assert(gstored.bytes@ == png_of(gface.pixels@, gface.width, gface.height));
            assert(scaled_png_payload(ib, scale));
            assert(scaled_png_payload(gstored, scale));
            assert(enc_entry_ok(((uuid, scale), gstored)));
            assert forall|i: int| 0 <= i < s.len() implies enc_entry_ok(#[trigger] s[i]) by {
                assert(enc_entry_ok(old(self).enc_entries()[i]));
            }
            lemma_enc_insert_ok(s, FACE_CACHE_SIZE as int, (uuid, scale), gstored);
        }
        self.faces.insert((uuid, scale), stored);
        proof {
            assert forall|i: int| 0 <= i < self.enc_entries().len() implies enc_entry_ok(
                #[trigger] self.enc_entries()[i],
            ) by {
                assert(enc_entry_ok(
                    lru_insert(s, FACE_CACHE_SIZE as int, (uuid, scale), gstored)[i],
                ));
            }
            assert forall|i: int| 0 <= i < self.raw_entries().len() implies raw_entry_ok(
                #[trigger] self.raw_entries()[i],
            ) by {
                assert(raw_entry_ok(old(self).raw_entries()[i]));
            }
            assert(bytes_like(gstored, ib));
        }
        Ok(ib)
    }

    /// One request, start to finish: serve from the encoded-output cache;
    /// on a miss, serve from the rendered-face cache; on a double miss,
    /// consult the fetch outcome the boundary layer obtained (its transport
    /// error propagates and caches nothing), render with default-skin
    /// fallback, then scale, encode and fingerprint, caching each stage.
    pub fn get_face(&mut self, uuid: u128, scale: u32, fetched: Result<
        Option<PlayerTexture>,
        Error,
    >) -> (r: Result<ImageBytes, Error>)
        requires
            old(self).wf(),
            scale <= 5,
            fetched matches Ok(Some(t)) ==> t.image.wf(),
        ensures
            get_face_post(*old(self), *final(self), uuid, scale, fetched, r),
    {
        match self.get_cached(uuid, scale) {
            Some(ib) => {
                proof {
                    lemma_touch_found(old(self).enc_entries(), (uuid, scale));
                }
                return Ok(ib);
            },
            None => {},
        }
        let raw: FaceImage = match self.get_raw_face(uuid) {
            Some(f) => f,
            None => {
                match fetched {
                    Err(e) => {
                        return Err(e);
                    },
                    Ok(opt) => self.load_raw_face(uuid, opt),
                }
            },
        };
        self.load_face(uuid, scale, &raw)
    }
}

/// The full request/response relation of `get_face`: how the result and
/// both cache states follow from the request, the prior state and the
/// fetch outcome.
pub open spec fn get_face_post(
    pre: ApiAccess,
    post: ApiAccess,
    uuid: u128,
    scale: u32,
    fetched: Result<Option<PlayerTexture>, Error>,
    r: Result<ImageBytes, Error>,
) -> bool {
    let fk = (uuid, scale);
    let faces0 = pre.enc_entries();
    let raw0 = pre.raw_entries();
    &&& post.wf()
    &&& post.defaults_spec() == pre.defaults_spec()
    &&& (fetched is Ok ==> r is Ok)
    &&& (r matches Ok(ib) ==> scaled_png_payload(ib, scale))
    &&& if contains_key(faces0, fk) {
        // Encoded-output hit: the cached value comes back, the fetch
        // outcome is never consulted, the rendered-face cache is untouched.
        &&& r matches Ok(ib) && bytes_like(ib, value_of_key(faces0, fk))
        &&& post.enc_entries() == touch(faces0, fk)
        &&& post.raw_entries() == raw0
    } else if contains_key(raw0, uuid) {
        // Rendered-face hit: encode the cached face.
        &&& post.raw_entries() == touch(raw0, uuid)
        &&& exists|f: FaceImage|
            #[trigger] face_like(f, value_of_key(raw0, uuid)) && encode_outcome(
                faces0,
                post.enc_entries(),
                fk,
                f,
                scale,
                r,
            )
    } else {
        match fetched {
            Err(e) => {
                // A failed fetch propagates and caches nothing.
                &&& r == Err::<ImageBytes, Error>(e)
                &&& post.enc_entries() == faces0
                &&& post.raw_entries() == raw0
            },
            Ok(opt) => {
                // Render (with default-skin fallback), cache the face,
                // then encode.
                exists|f: FaceImage, stored: FaceImage|
                    {
                        &&& f.wf() && f.width == 8 && f.height == 8
                        &&& is_face_of(f, chosen_skin(pre.defaults_spec(), uuid, opt))
                        &&& #[trigger] face_like(stored, f)
                        &&& post.raw_entries() == lru_insert(
                            raw0,
                            RAW_FACE_CACHE_SIZE as int,
                            uuid,
                            stored,
                        )
                        &&& encode_outcome(faces0, post.enc_entries(), fk, f, scale, r)
                    }
            },
        }
    }
}

/// How the encoded-output cache and the result relate after the encoding
/// stage ran on face `f` at `scale`: the stage succeeds, the result is the
/// encoded scaled face, and the cache gained it as most recently used.
pub open spec fn encode_outcome(
    faces0: Seq<((u128, u32), ImageBytes)>,
    faces1: Seq<((u128, u32), ImageBytes)>,
    fk: (u128, u32),
    f: FaceImage,
    scale: u32,
    r: Result<ImageBytes, Error>,
) -> bool {
    r matches Ok(ib) && {
        &&& encodes(f, scale, ib)
        &&& exists|stored: ImageBytes|
            #[trigger] bytes_like(stored, ib) && faces1 == lru_insert(
                faces0,
                FACE_CACHE_SIZE as int,
                fk,
                stored,
            )
    }
}

/// Idempotence: once a request has produced an encoded face, repeating the
/// same request returns the byte-identical payload with the same
/// fingerprint, whatever the second fetch outcome.
pub proof fn lemma_get_face_idempotent(
    s0: ApiAccess,
    s1: ApiAccess,
    s2: ApiAccess,
    uuid: u128,
    scale: u32,
    fetched1: Result<Option<PlayerTexture>, Error>,
    fetched2: Result<Option<PlayerTexture>, Error>,
    v1: ImageBytes,
    r2: Result<ImageBytes, Error>,
)
    requires
        s0.wf(),
        get_face_post(s0, s1, uuid, scale, fetched1, Ok(v1)),
        get_face_post(s1, s2, uuid, scale, fetched2, r2),
    ensures
        r2 matches Ok(v2) && v2.bytes@ == v1.bytes@ && v2.etag@ == v1.etag@,
{
    let fk = (uuid, scale);
    let faces0 = s0.enc_entries();
    let faces1 = s1.enc_entries();
    // After the first call, the encoded-output cache holds `fk` bound to
    // the returned payload.
    if contains_key(faces0, fk) {
        lemma_touch_found(faces0, fk);
    } else if contains_key(s0.raw_entries(), uuid) {
        let f = choose|f: FaceImage|
            #[trigger] face_like(f, value_of_key(s0.raw_entries(), uuid)) && encode_outcome(
                faces0,
                faces1,
                fk,
                f,
                scale,
                Ok(v1),
            );
        let stored = choose|stored: ImageBytes|
            #[trigger] bytes_like(stored, v1) && faces1 == lru_insert(
                faces0,
                FACE_CACHE_SIZE as int,
                fk,
                stored,
            );
        lemma_insert_then_found(faces0, FACE_CACHE_SIZE as int, fk, stored);
    } else {
        match fetched1 {
            Err(_) => {},
            Ok(_) => {
                let pair = choose|f: FaceImage, stored: FaceImage|
                    {
                        &&& f.wf() && f.width == 8 && f.height == 8
                        &&& #[trigger] face_like(stored, f)
                        &&& encode_outcome(faces0, faces1, fk, f, scale, Ok(v1))
                    };
                let stored = choose|stored: ImageBytes|
                    #[trigger] bytes_like(stored, v1) && faces1 == lru_insert(
                        faces0,
                        FACE_CACHE_SIZE as int,
                        fk,
                        stored,
                    );
                lemma_insert_then_found(faces0, FACE_CACHE_SIZE as int, fk, stored);
            },
        }
    }
    assert(contains_key(faces1, fk));
    assert(bytes_like(value_of_key(faces1, fk), v1));
    // The second call therefore hits and returns that same payload.
    assert(r2 matches Ok(v2) && bytes_like(v2, value_of_key(faces1, fk)));
}

} // verus!
