//! Applying a function to each pixel.
use core::marker::PhantomData;
use vstd::prelude::*;
use crate::frame::ImageFrame;
use crate::image::Image;

verus! {

/// `after` is `before` with each pixel replaced by what `map_fn` gives for it.
pub open spec fn mapped<P, MapFn: Fn(P) -> P>(
    before: &Image<P>,
    map_fn: &MapFn,
    after: &Image<P>,
) -> bool {
    &&& after.same_size(before)
    &&& after.data.len() == before.data.len()
    &&& forall|i: int|
        0 <= i < before.data.len() ==> call_ensures(
            *map_fn,
            (before.data@[i],),
            #[trigger] after.data@[i],
        )
}

/// Applies a function to each pixel of an image.
pub fn map_image<P: Copy, MapFn: Fn(P) -> P>(image: Image<P>, map_fn: &MapFn) -> (result: Image<P>)
    requires
        forall|i: int| 0 <= i < image.data.len() ==> map_fn.requires((#[trigger] image.data@[i],)),
    ensures
        mapped(&image, map_fn, &result),
{
    let mut result = image;
    let count: usize = result.data.len();
    let mut i: usize = 0;
    while i < count
        invariant
            i <= count,
            count == image.data.len(),
            result.same_size(&image),
            result.data.len() == count,
            forall|k: int|
                0 <= k < image.data.len() ==> map_fn.requires((#[trigger] image.data@[k],)),
            forall|k: int|
                0 <= k < i ==> call_ensures(
                    *map_fn,
                    (image.data@[k],),
                    #[trigger] result.data@[k],
                ),
            forall|k: int| i <= k < count ==> #[trigger] result.data@[k] == image.data@[k],
        decreases count - i,
    {
        let pixel = result.data[i];
        assert(pixel == image.data@[i as int]);
        result.data.set(i, map_fn(pixel));
        i = i + 1;
    }
    result
}

/// Applies a given function to each pixel of an image.
#[derive(Debug)]
pub struct MapImageNode<P, MapFn> {
    pub map_fn: MapFn,
    pub _p: PhantomData<P>,
}

impl<P, MapFn: Clone> Clone for MapImageNode<P, MapFn> {
    fn clone(&self) -> (node: Self)
        ensures
            cloned(self.map_fn, node.map_fn),
    {
        MapImageNode { map_fn: self.map_fn.clone(), _p: PhantomData }
    }
}

impl<P: Copy, MapFn: Copy> Copy for MapImageNode<P, MapFn> {

}

impl<P: Copy, MapFn: Fn(P) -> P> MapImageNode<P, MapFn> {
    pub fn new(map_fn: MapFn) -> (node: Self)
        ensures
            node.map_fn == map_fn,
    {
        MapImageNode { map_fn, _p: PhantomData }
    }

    pub fn eval(&self, frame: ImageFrame<P>) -> (result: ImageFrame<P>)
        requires
            forall|i: int|
                0 <= i < frame.image.data.len() ==> self.map_fn.requires(
                    (#[trigger] frame.image.data@[i],),
                ),
        ensures
            mapped(&frame.image, &self.map_fn, &result.image),
            result.transform == frame.transform,
    {
        ImageFrame { image: map_image(frame.image, &self.map_fn), transform: frame.transform }
    }
}

/// Each pixel of a mapped image is what the function gives for the pixel at the same place, and no
/// pixel is added or lost.
pub proof fn every_pixel_is_mapped<P: Copy, MapFn: Fn(P) -> P>(
    image: Image<P>,
    map_fn: &MapFn,
    result: Image<P>,
    x: u32,
    y: u32,
)
    requires
        call_ensures(map_image::<P, MapFn>, (image, map_fn), result),
        forall|i: int| 0 <= i < image.data.len() ==> map_fn.requires((#[trigger] image.data@[i],)),
    ensures
        result.width == image.width,
        result.height == image.height,
        result.data@.len() == image.data@.len(),
        image.has(x, y) ==> call_ensures(*map_fn, (image.at(x, y),), result.at(x, y)),
{
    assert(mapped(&image, map_fn, &result));
    if image.has(x, y) {
        crate::image::lemma_pixel_index(image.width, image.height, x, y);
        assert(result.data@[crate::image::pixel_index(image.width, x, y)] == result.at(x, y));
    }
}

/// A function that gives back each pixel leaves an image as it is.
pub proof fn identity_changes_nothing<P, MapFn: Fn(P) -> P>(
    before: &Image<P>,
    map_fn: &MapFn,
    after: &Image<P>,
)
    requires
        mapped(before, map_fn, after),
        forall|p: P, q: P| #[trigger] call_ensures(*map_fn, (p,), q) ==> q == p,
    ensures
        after.same_as(before),
{
    assert(after.data@ =~= before.data@);
}

/// Mapping with one function and then with another is mapping once with their composition.
pub proof fn maps_compose<
    P,
    First: Fn(P) -> P,
    Second: Fn(P) -> P,
    Both: Fn(P) -> P,
>(
    before: &Image<P>,
    first: &First,
    between: &Image<P>,
    second: &Second,
    both: &Both,
    after: &Image<P>,
)
    requires
        mapped(before, first, between),
        mapped(between, second, after),
        forall|p: P, q: P, r: P| #[trigger]
            call_ensures(*first, (p,), q) && #[trigger] call_ensures(*second, (q,), r)
                ==> call_ensures(*both, (p,), r),
    ensures
        mapped(before, both, after),
{
    assert forall|i: int| 0 <= i < before.data.len() implies call_ensures(
        *both,
        (before.data@[i],),
        #[trigger] after.data@[i],
    ) by {
        assert(call_ensures(*first, (before.data@[i],), between.data@[i]));
        assert(call_ensures(*second, (between.data@[i],), after.data@[i]));
    }
}

} // verus!
