//! Remembering generated images.
use std::collections::HashMap;
use vstd::prelude::*;
use glam::DAffine2;
use crate::fingerprint::{fingerprint, Fingerprint};
use crate::frame::ImageFrame;
use crate::image::Image;
use crate::fingerprint;

verus! {

/// The images that were generated, by the fingerprints of the images they were generated from.
pub struct ImaginateCache<P> {
    images: HashMap<u64, Image<P>>,
}

impl<P> View for ImaginateCache<P> {
    type V = Map<u64, Image<P>>;

    closed spec fn view(&self) -> Map<u64, Image<P>> {
        self.images@
    }
}

/// `after` is `before` with an image remembered under a key.
pub open spec fn remembered<P>(
    before: Map<u64, Image<P>>,
    key: u64,
    image: &Image<P>,
    after: Map<u64, Image<P>>,
) -> bool {
    &&& after.contains_key(key)
    &&& after[key].same_as(image)
    &&& after == before.insert(key, after[key])
}

/// `image` is what is remembered under a key; where nothing is, it has no pixels.
pub open spec fn recalled<P>(images: Map<u64, Image<P>>, key: u64, image: &Image<P>) -> bool {
    if images.contains_key(key) {
        image.same_as(&images[key])
    } else {
        &&& image.width == 0
        &&& image.height == 0
        &&& image.data@ == Seq::<P>::empty()
    }
}

impl<P: Copy> ImaginateCache<P> {
    /// A cache that remembers nothing.
    pub fn new() -> (cache: Self)
        ensures
            cache@ == Map::<u64, Image<P>>::empty(),
    {
        ImaginateCache { images: HashMap::new() }
    }

    /// Finishes an evaluation for an image with the fingerprint `key` and the given place. An
    /// image that was generated is remembered and shown; without one, what was generated last
    /// for the fingerprint is shown.
    pub fn resolve(&mut self, key: u64, transform: DAffine2, generated: Option<Image<P>>) -> (frame:
        ImageFrame<P>)
        ensures
            frame.transform == transform,
            match generated {
                Some(image) => frame.image == image && remembered(
                    old(self)@,
                    key,
                    &image,
                    final(self)@,
                ),
                None => recalled(old(self)@, key, &frame.image) && final(self)@ == old(self)@,
            },
    {
        if let Some(image) = generated {
            self.images.insert(key, image.clone());
            return ImageFrame { image, transform };
        }
        let image = match self.images.get(&key) {
            Some(image) => image.clone(),
            None => Image::default(),
        };
        ImageFrame { image, transform }
    }
}

/// The key under which what is generated from a frame is remembered. It depends on the image
/// alone, not on its place.
pub fn cache_key<P: Fingerprint>(frame: &ImageFrame<P>) -> (key: u64)
    ensures
        key == fingerprint::fx_digest(usize::BITS, frame.image.words()),
{
    fingerprint(&frame.image)
}

/// What was generated under a key is shown again under that key, and what is shown under any
/// other key does not change.
pub proof fn generated_image_is_recalled<P>(
    before: Map<u64, Image<P>>,
    key: u64,
    generated: &Image<P>,
    after: Map<u64, Image<P>>,
    other: u64,
    shown: &Image<P>,
)
    requires
        remembered(before, key, generated, after),
    ensures
        recalled(after, key, shown) <==> shown.same_as(generated),
        other != key ==> (recalled(after, other, shown) <==> recalled(before, other, shown)),
{
}

/// Of two images generated under one key, the later is shown.
pub proof fn later_image_replaces_earlier<P>(
    first: Map<u64, Image<P>>,
    key: u64,
    earlier: &Image<P>,
    second: Map<u64, Image<P>>,
    later: &Image<P>,
    third: Map<u64, Image<P>>,
    shown: &Image<P>,
)
    requires
        remembered(first, key, earlier, second),
        remembered(second, key, later, third),
    ensures
        remembered(first, key, later, third),
        recalled(third, key, shown) <==> shown.same_as(later),
{
    assert(third =~= first.insert(key, third[key]));
}

/// Images with the same size and pixels have the same key, wherever they lie: what was
/// generated from one is shown for the other.
pub proof fn equal_images_share_a_key<P: Fingerprint>(a: &ImageFrame<P>, b: &ImageFrame<P>)
    requires
        a.image.same_as(&b.image),
    ensures
        fingerprint::fx_digest(usize::BITS, a.image.words()) == fingerprint::fx_digest(
            usize::BITS,
            b.image.words(),
        ),
{
}

} // verus!
