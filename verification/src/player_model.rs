use vstd::prelude::*;

use std::sync::Arc;

use image::DynamicImage;

verus! {

/// A decoded skin or cape image.
#[verifier::external_type_specification]
#[verifier::external_body]
pub struct ExDynamicImage(DynamicImage);

/// Whether `image` decodes `bytes` as a PNG image (with its default limits).
pub uninterp spec fn png_decodes(bytes: Seq<u8>) -> bool;

/// The image that `image` decodes from `bytes` as a PNG (with its default limits).
pub uninterp spec fn png_image(bytes: Seq<u8>) -> DynamicImage;

/// `image::load_from_memory_with_format(bytes, ImageFormat::Png).ok()`: present exactly
/// when the bytes decode as a PNG image, and then the image they decode to.
#[verifier::external_body]
fn decode_png(bytes: &[u8]) -> (res: Option<DynamicImage>)
    ensures
        res is Some == png_decodes(bytes@),
        res matches Some(img) ==> img == png_image(bytes@),
{
    image::load_from_memory_with_format(bytes, image::ImageFormat::Png).ok()
}

/// `Arc::clone`: another handle to the same image.
#[verifier::external_body]
fn share_image(image: &Arc<DynamicImage>) -> (res: Arc<DynamicImage>)
    ensures
        res == *image,
{
    image.clone()
}

/// The arm and body shape of a player model.
#[derive(Clone, Copy, Debug, PartialEq, Eq, Structural, Hash)]
pub enum SkinVariant {
    Classic,
    Slim,
}

/// Whether two byte strings are equal.
pub fn bytes_eq(a: &[u8], b: &[u8]) -> (res: bool)
    ensures
        res == (a@ == b@),
{
    if a.len() != b.len() {
        return false;
    }
    let mut i: usize = 0;
    while i < a.len()
        invariant
            a@.len() == b@.len(),
            i <= a@.len(),
            forall|k: int| 0 <= k < i ==> a@[k] == b@[k],
        decreases a@.len() - i,
    {
        if a[i] != b[i] {
            return false;
        }
        i = i + 1;
    }
    assert(a@ =~= b@);
    true
}

pub open spec fn opt_bytes(o: Option<Vec<u8>>) -> Option<Seq<u8>> {
    match o {
        Some(b) => Some(b@),
        None => None,
    }
}

/// The skin and cape shown by a player model, with the images decoded from them kept
/// so that a PNG is decoded once per change of its bytes and not on every frame. Each
/// kept image is the decode of the bytes it is kept under.
pub struct PlayerModelState {
    skin: Vec<u8>,
    cape: Option<Vec<u8>>,
    variant: SkinVariant,
    decoded_skin: Option<(Vec<u8>, Arc<DynamicImage>)>,
    decoded_cape: Option<(Option<Vec<u8>>, Option<Arc<DynamicImage>>)>,
}

impl PlayerModelState {
    /// The skin bytes.
    pub closed spec fn skin_bytes(&self) -> Seq<u8> {
        self.skin@
    }

    /// The cape bytes, if there is a cape.
    pub closed spec fn cape_bytes(&self) -> Option<Seq<u8>> {
        opt_bytes(self.cape)
    }

    /// The arm and body shape.
    pub closed spec fn model_variant(&self) -> SkinVariant {
        self.variant
    }

    /// The skin bytes last decoded, with their image.
    pub closed spec fn cached_skin(&self) -> Option<(Seq<u8>, Arc<DynamicImage>)> {
        match self.decoded_skin {
            Some((b, img)) => Some((b@, img)),
            None => None,
        }
    }

    /// The cape bytes last decoded, with their image (none when there was no cape or it
    /// did not decode).
    pub closed spec fn cached_cape(&self) -> Option<(Option<Seq<u8>>, Option<Arc<DynamicImage>>)> {
        match self.decoded_cape {
            Some((b, img)) => Some((opt_bytes(b), img)),
            None => None,
        }
    }

    /// Each kept image is the decode of its bytes: a kept skin decoded, and a kept cape
    /// image is there exactly when there was a cape and it decoded.
    #[verifier::type_invariant]
    spec fn well_formed(&self) -> bool {
        &&& (self.cached_skin() matches Some((b, img)) ==> png_decodes(b) && *img == png_image(b))
        &&& (self.cached_cape() matches Some((b, img)) ==> (img is Some <==> (b is Some && png_decodes(
            b.unwrap(),
        ))) && (img matches Some(i) ==> *i == png_image(b.unwrap())))
    }

    pub fn new(skin: Vec<u8>, variant: SkinVariant) -> (res: Self)
        ensures
            res.skin_bytes() == skin@,
            res.cape_bytes() is None,
            res.model_variant() == variant,
            res.cached_skin() is None,
            res.cached_cape() is None,
    {
        PlayerModelState { skin, cape: None, variant, decoded_skin: None, decoded_cape: None }
    }

    pub fn skin(&self) -> (res: &[u8])
        ensures
            res@ == self.skin_bytes(),
    {
        self.skin.as_slice()
    }

    pub fn cape(&self) -> (res: Option<&Vec<u8>>)
        ensures
            res is Some == self.cape_bytes() is Some,
            res matches Some(c) ==> c@ == self.cape_bytes().unwrap(),
    {
        match &self.cape {
            Some(c) => Some(c),
            None => None,
        }
    }

    pub fn variant(&self) -> (res: SkinVariant)
        ensures
            res == self.model_variant(),
    {
        self.variant
    }

    /// New skin bytes; the kept images stay, keyed by the bytes they came from.
    pub fn set_skin(&mut self, skin: Vec<u8>)
        ensures
            final(self).skin_bytes() == skin@,
            final(self).cape_bytes() == old(self).cape_bytes(),
            final(self).model_variant() == old(self).model_variant(),
            final(self).cached_skin() == old(self).cached_skin(),
            final(self).cached_cape() == old(self).cached_cape(),
    {
        proof {
            use_type_invariant(&*self);
        }
        self.skin = skin;
    }

    /// A new cape, or none; the kept images stay.
    pub fn set_cape(&mut self, cape: Option<Vec<u8>>)
        ensures
            final(self).cape_bytes() == opt_bytes(cape),
            final(self).skin_bytes() == old(self).skin_bytes(),
            final(self).model_variant() == old(self).model_variant(),
            final(self).cached_skin() == old(self).cached_skin(),
            final(self).cached_cape() == old(self).cached_cape(),
    {
        proof {
            use_type_invariant(&*self);
        }
        self.cape = cape;
    }

    /// A new arm and body shape.
    pub fn set_variant(&mut self, variant: SkinVariant)
        ensures
            final(self).model_variant() == variant,
            final(self).skin_bytes() == old(self).skin_bytes(),
            final(self).cape_bytes() == old(self).cape_bytes(),
            final(self).cached_skin() == old(self).cached_skin(),
            final(self).cached_cape() == old(self).cached_cape(),
    {
        proof {
            use_type_invariant(&*self);
        }
        self.variant = variant;
    }

    /// The decoded skin image, if the skin is a PNG image: the decode of the current skin
    /// bytes. It is decoded only when the skin bytes differ from those decoded last;
    /// otherwise the kept image is returned. A skin that does not decode leaves the kept
    /// image as it was.
    pub fn skin_image(&mut self) -> (res: Option<Arc<DynamicImage>>)
        ensures
            final(self).skin_bytes() == old(self).skin_bytes(),
            final(self).cape_bytes() == old(self).cape_bytes(),
            final(self).model_variant() == old(self).model_variant(),
            final(self).cached_cape() == old(self).cached_cape(),
            res is Some == png_decodes(old(self).skin_bytes()),
            res matches Some(img) ==> *img == png_image(old(self).skin_bytes()),
            old(self).cached_skin() is Some && old(self).cached_skin().unwrap().0 == old(self).skin_bytes() ==> res == Some(old(self).cached_skin().unwrap().1) && final(self).cached_skin() == old(self).cached_skin(),
            res matches Some(img) ==> final(self).cached_skin() == Some((old(self).skin_bytes(), img)),
            res is None ==> final(self).cached_skin() == old(self).cached_skin(),
    {
        proof {
            use_type_invariant(&*self);
        }
        if let Some((bytes, image)) = &self.decoded_skin {
            if bytes_eq(bytes.as_slice(), self.skin.as_slice()) {
                return Some(share_image(image));
            }
        }
        let decoded = decode_png(self.skin.as_slice());
        match decoded {
            Some(img) => {
                let image = Arc::new(img);
                self.decoded_skin = Some((self.skin.clone(), share_image(&image)));
                Some(image)
            },
            None => None,
        }
    }

    /// The decoded cape image, if there is a cape and it is a PNG image: the decode of the
    /// current cape bytes. It is decoded only when the cape differs from the one decoded
    /// last; otherwise the kept result (image or none) is returned.
    pub fn cape_image(&mut self) -> (res: Option<Arc<DynamicImage>>)
        ensures
            final(self).skin_bytes() == old(self).skin_bytes(),
            final(self).cape_bytes() == old(self).cape_bytes(),
            final(self).model_variant() == old(self).model_variant(),
            final(self).cached_skin() == old(self).cached_skin(),
            res is Some == (old(self).cape_bytes() is Some && png_decodes(
                old(self).cape_bytes().unwrap(),
            )),
            res matches Some(img) ==> *img == png_image(old(self).cape_bytes().unwrap()),
            old(self).cached_cape() is Some && old(self).cached_cape().unwrap().0 == old(self).cape_bytes() ==> res == old(self).cached_cape().unwrap().1,
            final(self).cached_cape() == Some((old(self).cape_bytes(), res)),
    {
        proof {
            use_type_invariant(&*self);
        }
        if let Some((bytes, image)) = &self.decoded_cape {
            let same = match (bytes, &self.cape) {
                (Some(a), Some(b)) => bytes_eq(a.as_slice(), b.as_slice()),
                (None, None) => true,
                _ => false,
            };
            if same {
                return match image {
                    Some(img) => Some(share_image(img)),
                    None => None,
                };
            }
        }
        let image = match &self.cape {
            Some(cape) => match decode_png(cape.as_slice()) {
                Some(img) => Some(Arc::new(img)),
                None => None,
            },
            None => None,
        };
        let kept = match &image {
            Some(img) => Some(share_image(img)),
            None => None,
        };
        self.decoded_cape = Some((self.cape.clone(), kept));
        image
    }
}

/// The player model widget: the model's state and the variant its buttons show.
pub struct PlayerModelWidget {
    pub state: PlayerModelState,
    pub variant: SkinVariant,
}

impl PlayerModelWidget {
    /// A widget showing `skin` as `variant` (the variant read off the skin, or classic).
    pub fn new(skin: Vec<u8>, variant: SkinVariant) -> (res: Self)
        ensures
            res.state.skin_bytes() == skin@,
            res.state.cape_bytes() is None,
            res.state.model_variant() == variant,
            res.variant == variant,
            res.state.cached_skin() is None,
            res.state.cached_cape() is None,
    {
        PlayerModelWidget { state: PlayerModelState::new(skin, variant), variant }
    }

    /// A new skin and its variant; the kept images stay, keyed by the bytes they came from.
    pub fn set_skin(&mut self, skin: Vec<u8>, variant: SkinVariant)
        ensures
            final(self).state.skin_bytes() == skin@,
            final(self).state.model_variant() == variant,
            final(self).variant == variant,
            final(self).state.cape_bytes() == old(self).state.cape_bytes(),
            final(self).state.cached_skin() == old(self).state.cached_skin(),
            final(self).state.cached_cape() == old(self).state.cached_cape(),
    {
        self.variant = variant;
        self.state.set_skin(skin);
        self.state.set_variant(variant);
    }

    /// A new cape, or none.
    pub fn set_cape(&mut self, cape: Option<Vec<u8>>)
        ensures
            final(self).state.cape_bytes() == opt_bytes(cape),
            final(self).state.skin_bytes() == old(self).state.skin_bytes(),
            final(self).state.model_variant() == old(self).state.model_variant(),
            final(self).variant == old(self).variant,
            final(self).state.cached_skin() == old(self).state.cached_skin(),
            final(self).state.cached_cape() == old(self).state.cached_cape(),
    {
        self.state.set_cape(cape);
    }

    /// A new variant for the same skin.
    pub fn set_variant(&mut self, variant: SkinVariant)
        ensures
            final(self).variant == variant,
            final(self).state.model_variant() == variant,
            final(self).state.skin_bytes() == old(self).state.skin_bytes(),
            final(self).state.cape_bytes() == old(self).state.cape_bytes(),
            final(self).state.cached_skin() == old(self).state.cached_skin(),
            final(self).state.cached_cape() == old(self).state.cached_cape(),
    {
        self.variant = variant;
        self.state.set_variant(variant);
    }

    pub fn get_variant(&self) -> (res: SkinVariant)
        ensures
            res == self.variant,
    {
        self.variant
    }

    /// A new skin, variant and cape at once.
    pub fn set_skin_and_cape(&mut self, skin: Vec<u8>, variant: SkinVariant, cape: Option<Vec<u8>>)
        ensures
            final(self).state.skin_bytes() == skin@,
            final(self).state.model_variant() == variant,
            final(self).variant == variant,
            final(self).state.cape_bytes() == opt_bytes(cape),
            final(self).state.cached_skin() == old(self).state.cached_skin(),
            final(self).state.cached_cape() == old(self).state.cached_cape(),
    {
        self.variant = variant;
        self.state.set_skin(skin);
        self.state.set_variant(variant);
        self.state.set_cape(cape);
    }
}

/// The zoom of the player model after one scroll step `delta` (-1, 0 or 1): five
/// percent per step, kept between 50 and 400 percent.
pub fn next_zoom(zoom: i32, delta: i32) -> (res: i32)
    requires
        -1 <= delta <= 1,
        i32::MIN <= zoom + delta * 5 <= i32::MAX,
    ensures
        res == if zoom + delta * 5 < 50 {
            50
        } else if zoom + delta * 5 > 400 {
            400
        } else {
            zoom + delta * 5
        },
{
    let z: i32 = zoom + delta * 5;
    if z < 50 {
        50
    } else if z > 400 {
        400
    } else {
        z
    }
}

} // verus!
