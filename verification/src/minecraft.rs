//! Data fetched from the identity service, modeled as plain values: the
//! profile with its base64-encoded properties, texture references, and the
//! decoded texture atlas. Network transport lives outside the library; the
//! logic here turns transported bytes into validated values.

use vstd::prelude::*;

use crate::codec;
use crate::codec::b64_decode_of;
use crate::codec::png_rgba_of;
use crate::skin::AtlasImage;
use crate::skin::MAX_DIM;

verus! {

/// One named, base64-encoded profile property.
#[derive(Debug)]
pub struct ProfileProperty {
    pub name: String,
    pub value: String,
}

/// A player profile as reported by the identity service.
#[derive(Debug)]
pub struct PlayerProfile {
    pub id: u128,
    pub name: String,
    pub properties: Vec<ProfileProperty>,
}

/// A reference to one texture: where to fetch it and its metadata pairs.
#[derive(Debug)]
pub struct PlayerTextureRef {
    pub url: String,
    pub metadata: Vec<(String, String)>,
}

/// The skin and cape references carried by the "textures" property.
#[derive(Debug)]
pub struct PlayerTextureUrls {
    pub skin: Option<PlayerTextureRef>,
    pub cape: Option<PlayerTextureRef>,
}

/// The decoded payload of the "textures" property.
#[derive(Debug)]
pub struct PlayerTextures {
    pub timestamp: u64,
    pub profile_id: u128,
    pub profile_name: String,
    pub refs: PlayerTextureUrls,
}

/// A fetched texture: the decoded RGBA atlas and the metadata that came
/// with its reference.
#[derive(Debug)]
pub struct PlayerTexture {
    pub image: AtlasImage,
    pub metadata: Vec<(String, String)>,
}

/// Failures on the way from the identity service to a usable atlas.
#[derive(Debug, Copy, Clone, PartialEq, Eq, Structural)]
pub enum Error {
    Http,
    Io,
    Json,
    Image,
    InvalidImageFormat,
}

/// The index of the first property carrying `name`, if any.
pub open spec fn find_property(props: Seq<ProfileProperty>, name: Seq<char>) -> Option<int>
    decreases props.len(),
{
    if props.len() == 0 {
        None
    } else if props[0].name@ == name {
        Some(0int)
    } else {
        match find_property(props.drop_first(), name) {
            Some(i) => Some(i + 1),
            None => None,
        }
    }
}

impl PlayerProfile {
    /// The decoded payload of the first property named `name`: its value
    /// run through standard base64. `None` when no such property exists or
    /// its value is not valid base64.
    pub fn property(&self, name: &String) -> (r: Option<Vec<u8>>)
        ensures
            match r {
                Some(bytes) => {
                    &&& find_property(self.properties@, name@) matches Some(i)
                    &&& b64_decode_of(self.properties@[i].value@) == Some(bytes@)
                },
                None => (find_property(self.properties@, name@) matches Some(i) ==> b64_decode_of(
                    self.properties@[i].value@,
                ) is None),
            },
    {
        let mut i: usize = 0;
        proof {
            assert(self.properties@.skip(0) =~= self.properties@);
        }
        while i < self.properties.len()
            invariant
                i <= self.properties@.len(),
                find_property(self.properties@, name@) == (match find_property(
                    self.properties@.skip(i as int),
                    name@,
                ) {
                    Some(j) => Some(j + i),
                    None => None::<int>,
                }),
            decreases self.properties@.len() - i,
        {
            let entry = &self.properties[i];
            proof {
                assert(self.properties@.skip(i as int)[0] == self.properties@[i as int]);
                assert(self.properties@.skip(i as int).drop_first() =~= self.properties@.skip(
                    i as int + 1,
                ));
            }
            if entry.name == *name {
                return codec::base64_decode(&entry.value);
            }
            i = i + 1;
        }
        None
    }

    /// The raw JSON payload of the "textures" property; parsing that JSON
    /// into `PlayerTextures` is the boundary layer's concern.
    pub fn textures(&self) -> (r: Option<Vec<u8>>)
        ensures
            match r {
                Some(bytes) => {
                    &&& find_property(self.properties@, "textures"@) matches Some(i)
                    &&& b64_decode_of(self.properties@[i].value@) == Some(bytes@)
                },
                None => (find_property(self.properties@, "textures"@) matches Some(i)
                    ==> b64_decode_of(self.properties@[i].value@) is None),
            },
    {
        let key: String = "textures".to_owned();
        self.property(&key)
    }
}

/// Whether fetched bytes resolve to a usable RGBA atlas: they decode as an
/// RGBA8 PNG whose dimensions the library accepts.
pub open spec fn texture_resolvable(bytes: Seq<u8>) -> bool {
    &&& png_rgba_of(bytes) matches Some(decoded)
    &&& 1 <= decoded.1 <= MAX_DIM
    &&& 1 <= decoded.2 <= MAX_DIM
}

/// Decode fetched texture bytes into an atlas, keeping the reference's
/// metadata. Errors mirror the decode outcome: `Image` when the bytes are
/// not a PNG, `InvalidImageFormat` when they are not RGBA8. An RGBA8 atlas
/// whose dimensions fall outside the accepted range is no error: it is
/// handed back as `Ok(None)`, an unsupported atlas the caller falls back
/// from.
pub fn resolve_texture(texture: PlayerTextureRef, bytes: Vec<u8>) -> (r: Result<
    Option<PlayerTexture>,
    Error,
>)
    ensures
        match r {
            Ok(Some(t)) => {
                &&& texture_resolvable(bytes@)
                &&& t.image.wf()
                &&& png_rgba_of(bytes@) == Some((t.image.pixels@, t.image.width, t.image.height))
                &&& t.metadata@ == texture.metadata@
            },
            Ok(None) => {
                &&& png_rgba_of(bytes@) is Some
                &&& !texture_resolvable(bytes@)
            },
            Err(e) => {
                &&& png_rgba_of(bytes@) is None
                &&& (e == Error::Image || e == Error::InvalidImageFormat)
            },
        },
{
    match codec::decode_png_rgba(&bytes) {
        Ok((pixels, width, height)) => {
            match AtlasImage::new(pixels, width, height) {
                Some(image) => Ok(Some(PlayerTexture { image, metadata: texture.metadata })),
                None => Ok(None),
            }
        },
        Err(true) => Err(Error::InvalidImageFormat),
        Err(false) => Err(Error::Image),
    }
}

} // verus!
