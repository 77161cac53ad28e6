//! Masking an image with the brightness of another.
use core::marker::PhantomData;
use vstd::prelude::*;
use glam::{DAffine2, DVec2};
use crate::frame::{ImageFrame, Sample, Transform};
use crate::pixel::{Alpha, LinearChannel, Luminance};
use crate::{frame, image, pixel, vector};

verus! {

/// The point of the stencil that masks the pixel in column `x` and row `y`: the pixel's own
/// point, or the closest that the stencil covers.
pub open spec fn mask_point(grid: DAffine2, stencil: DAffine2, x: u32, y: u32) -> DVec2 {
    let point = vector::affine_point(grid, vector::vec_of(x, y));
    let local = vector::affine_point(vector::affine_inverse(stencil), point);
    let nearest = vector::vec_min(
        vector::vec_max(local, vector::vec_of(0, 0)),
        vector::vec_of(1, 1),
    );
    vector::affine_point(stencil, nearest)
}

/// `after` is `before` with its opacity multiplied by the brightness of `mask`.
pub open spec fn attenuated<P: Alpha, S: Luminance>(mask: &S, before: &P, after: P) -> bool where
    S::LuminanceChannel: LinearChannel<P::AlphaChannel>,
 {
    exists|alpha: P::AlphaChannel|
        #[trigger] pixel::brightness(mask, alpha) && call_ensures(
            P::multiplied_alpha,
            (before, alpha),
            after,
        )
}

/// `after` is what masking makes of the pixel `before` in column `x` and row `y`. Where the
/// stencil has no pixel, `before` stays.
pub open spec fn pixel_masked<P: Alpha, S: Luminance, Stencil: Transform + Sample<Pixel = S>>(
    stencil: &Stencil,
    grid: DAffine2,
    x: u32,
    y: u32,
    before: P,
    after: P,
) -> bool where S::LuminanceChannel: LinearChannel<P::AlphaChannel> {
    exists|mask: Option<S>|
        {
            &&& #[trigger] frame::samples(
                stencil,
                mask_point(grid, stencil.place(), x, y),
                vector::affine_vector(grid, vector::vec_of(1, 1)),
                mask,
            )
            &&& match mask {
                Some(mask) => attenuated(&mask, &before, after),
                None => after == before,
            }
        }
}

/// In the coordinates of the stencil, in which it is the unit square, `nearest` lies in the unit
/// square, and between `local` and each point of the square that is at least, or at most, `local`
/// in both coordinates. The corner of a pixel in the square is its own nearest point.
pub open spec fn is_nearest(local: DVec2, nearest: DVec2) -> bool {
    &&& vector::vec_equal(local, local) ==> {
        &&& vector::vec_reaches(nearest, vector::vec_of(0, 0))
        &&& vector::vec_reaches(vector::vec_of(1, 1), nearest)
    }
    &&& forall|c: DVec2| #[trigger]
        vector::vec_reaches(local, c) && vector::vec_reaches(vector::vec_of(1, 1), c)
            ==> vector::vec_reaches(nearest, c)
    &&& forall|c: DVec2| #[trigger]
        vector::vec_reaches(c, local) && vector::vec_reaches(c, vector::vec_of(0, 0))
            ==> vector::vec_reaches(c, nearest)
    &&& forall|x: u32, y: u32, w: u32, h: u32|
        local == #[trigger] vector::vec_quotient(vector::vec_of(x, y), vector::vec_of(w, h)) && x
            <= w && w > 0 && y <= h && h > 0 ==> nearest == local
}

/// `after` is `before` attenuated by the pixel that the stencil has at the point of the stencil
/// nearest to `point`, if it has one there.
pub open spec fn masked_at<P: Alpha, S: Luminance, Stencil: Transform + Sample<Pixel = S>>(
    stencil: &Stencil,
    point: DVec2,
    area: DVec2,
    before: P,
    after: P,
) -> bool where S::LuminanceChannel: LinearChannel<P::AlphaChannel> {
    exists|nearest: DVec2, mask: Option<S>|
        {
            &&& is_nearest(
                vector::affine_point(vector::affine_inverse(stencil.place()), point),
                nearest,
            )
            &&& #[trigger] frame::samples(
                stencil,
                vector::affine_point(stencil.place(), nearest),
                area,
                mask,
            )
            &&& match mask {
                Some(mask) => attenuated(&mask, &before, after),
                None => after == before,
            }
        }
}

/// The stencil has no extent in either direction.
pub open spec fn is_degenerate(stencil: DAffine2) -> bool {
    vector::vec_equal(frame::side_lengths(stencil), vector::vec_of(0, 0))
}

/// `after` is `before` masked by a stencil. A stencil without extent masks nothing.
pub open spec fn masked<P: Alpha, S: Luminance, Stencil: Transform + Sample<Pixel = S>>(
    stencil: &Stencil,
    before: &ImageFrame<P>,
    after: &ImageFrame<P>,
) -> bool where S::LuminanceChannel: LinearChannel<P::AlphaChannel> {
    if is_degenerate(stencil.place()) {
        *after == *before
    } else {
        &&& after.transform == before.transform
        &&& after.image.same_size(&before.image)
        &&& after.image.data.len() == before.image.data.len()
        &&& forall|x: u32, y: u32|
            before.image.has(x, y) ==> pixel_masked(
                stencil,
                before.pixel_grid(),
                x,
                y,
                before.image.at(x, y),
                #[trigger] after.image.at(x, y),
            )
        &&& forall|i: int|
            before.image.area() <= i < before.image.data.len() ==> #[trigger] after.image.data@[i]
                == before.image.data@[i]
    }
}

/// Unless the stencil has no extent, each pixel of `before` is masked at its corner in the plane.
pub open spec fn masked_where_it_lies<
    P: Alpha,
    S: Luminance,
    Stencil: Transform + Sample<Pixel = S>,
>(stencil: &Stencil, before: &ImageFrame<P>, after: &ImageFrame<P>) -> bool where
    S::LuminanceChannel: LinearChannel<P::AlphaChannel>,
 {
    let grid = vector::affine_product(
        before.transform,
        vector::affine_scale(
            vector::vec_quotient(
                vector::vec_of(1, 1),
                vector::vec_of(before.image.width, before.image.height),
            ),
        ),
    );
    !vector::vec_equal(
        vector::vec_lengths(
            vector::affine_vector(stencil.place(), vector::vec_of(1, 0)),
            vector::affine_vector(stencil.place(), vector::vec_of(0, 1)),
        ),
        vector::vec_of(0, 0),
    ) ==> forall|x: u32, y: u32|
        before.image.has(x, y) ==> masked_at(
            stencil,
            vector::affine_point(grid, vector::vec_of(x, y)),
            vector::affine_vector(grid, vector::vec_of(1, 1)),
            before.image.at(x, y),
            #[trigger] after.image.at(x, y),
        )
}

/// Multiplies the opacity of a pixel by the brightness of another.
fn attenuate<P: Alpha, S: Luminance>(mask: &S, pixel: &P) -> (after: P) where
    S::LuminanceChannel: LinearChannel<P::AlphaChannel>,

    ensures
        attenuated(mask, pixel, after),
{
    let l = mask.l();
    let alpha: P::AlphaChannel = l.cast_linear_channel();
    assert(pixel::brightness(mask, alpha));
    pixel.multiplied_alpha(alpha)
}

/// Masks an image with the brightness of a stencil.
pub fn mask_imge<P: Copy + Alpha, S: Luminance, Stencil: Transform + Sample<Pixel = S>>(
    image: ImageFrame<P>,
    stencil: Stencil,
) -> (result: ImageFrame<P>) where S::LuminanceChannel: LinearChannel<P::AlphaChannel>
    ensures
        masked(&stencil, &image, &result),
        masked_where_it_lies(&stencil, &image, &result),
{
    let mut image = image;
    let mask_size = stencil.decompose_scale();
    if vector::equal(mask_size, vector::whole(0, 0)) {
        return image;
    }
    // Takes a pixel of the image to the plane.
    let grid = image.grid();
    let place = stencil.transform();
    let inverse = place.inverse();
    let area = grid.transform_vector2(vector::whole(1, 1));
    let mask = |x: u32, y: u32, pixel: P| -> (after: P)
        ensures
            pixel_masked(&stencil, grid, x, y, pixel, after),
            masked_at(
                &stencil,
                vector::affine_point(grid, vector::vec_of(x, y)),
                vector::affine_vector(grid, vector::vec_of(1, 1)),
                pixel,
                after,
            ),
        {
            let point = grid.transform_point2(vector::whole(x, y));
            let local = inverse.transform_point2(point);
            let nearest = local.clamp(vector::whole(0, 0), vector::whole(1, 1));
            let pos = place.transform_point2(nearest);
            let source = stencil.sample(pos, area);
            assert(frame::samples(
                &stencil,
                mask_point(grid, stencil.place(), x, y),
                vector::affine_vector(grid, vector::vec_of(1, 1)),
                source,
            ));
            assert(is_nearest(local, nearest));
            assert(frame::samples(
                &stencil,
                vector::affine_point(stencil.place(), nearest),
                vector::affine_vector(grid, vector::vec_of(1, 1)),
                source,
            ));
            match source {
                Some(mask) => attenuate(&mask, &pixel),
                None => pixel,
            }
        };
    let end = (image.image.width, image.image.height);
    image.image.update_region((0, 0), end, &mask);
    image
}

/// Masks images with the brightness of a given stencil.
#[derive(Debug)]
pub struct MaskImageNode<P, S, Stencil> {
    pub stencil: Stencil,
    pub _p: PhantomData<P>,
    pub _s: PhantomData<S>,
}

impl<P, S, Stencil: Clone> Clone for MaskImageNode<P, S, Stencil> {
    fn clone(&self) -> (node: Self)
        ensures
            cloned(self.stencil, node.stencil),
    {
        MaskImageNode { stencil: self.stencil.clone(), _p: PhantomData, _s: PhantomData }
    }
}

impl<P: Copy, S: Copy, Stencil: Copy> Copy for MaskImageNode<P, S, Stencil> {

}

impl<P: Copy + Alpha, S: Luminance, Stencil: Transform + Sample<Pixel = S>> MaskImageNode<
    P,
    S,
    Stencil,
> where S::LuminanceChannel: LinearChannel<P::AlphaChannel> {
    pub fn new(stencil: Stencil) -> (node: Self)
        ensures
            node.stencil == stencil,
    {
        MaskImageNode { stencil, _p: PhantomData, _s: PhantomData }
    }

    pub fn eval(self, image: ImageFrame<P>) -> (result: ImageFrame<P>)
        ensures
            masked(&self.stencil, &image, &result),
            masked_where_it_lies(&self.stencil, &image, &result),
    {
        let MaskImageNode { stencil, _p, _s } = self;
        mask_imge(image, stencil)
    }
}

/// Where the corner of a pixel of the image is, in exact coordinates, the corner of a pixel of the
/// stencil, the opacity of the one is multiplied by the brightness of the other, wherever in the
/// plane the two lie. With the same size and the same place this holds of each pixel of the image
/// and the pixel of the stencil in the same column and row.
pub proof fn pixel_is_masked_by_the_pixel_on_it<P: Copy + Alpha, S: Copy + Luminance>(
    image: ImageFrame<P>,
    stencil: ImageFrame<S>,
    result: ImageFrame<P>,
    x: u32,
    y: u32,
    i: u32,
    j: u32,
) where S::LuminanceChannel: LinearChannel<P::AlphaChannel>
    requires
        call_ensures(mask_imge::<P, S, ImageFrame<S>>, (image, stencil), result),
        !vector::vec_equal(
            vector::vec_lengths(
                vector::affine_vector(stencil.transform, vector::vec_of(1, 0)),
                vector::affine_vector(stencil.transform, vector::vec_of(0, 1)),
            ),
            vector::vec_of(0, 0),
        ),
        image.image.has(x, y),
        frame::is_exact_at(image.transform, image.image.width, image.image.height, x, y),
        stencil.image.has(i, j),
        frame::is_exact_at(stencil.transform, stencil.image.width, stencil.image.height, i, j),
        frame::pixel_corner(image.transform, image.image.width, image.image.height, x, y)
            == frame::pixel_corner(
            stencil.transform,
            stencil.image.width,
            stencil.image.height,
            i,
            j,
        ),
    ensures
        exists|alpha: P::AlphaChannel| #[trigger]
            pixel::brightness(&stencil.image.at(i, j), alpha) && call_ensures(
                P::multiplied_alpha,
                (&image.image.at(x, y), alpha),
                result.image.at(x, y),
            ),
{
    assert(masked_where_it_lies(&stencil, &image, &result));
    let corner = frame::pixel_corner(image.transform, image.image.width, image.image.height, x, y);
    let grid = image.pixel_grid();
    assert(masked_at(
        &stencil,
        corner,
        vector::affine_vector(grid, vector::vec_of(1, 1)),
        image.image.at(x, y),
        result.image.at(x, y),
    ));
}

/// Each pixel is masked by what the stencil has at the point, among those it covers, that is
/// nearest to the corner of the pixel in the plane. Where the stencil has no pixel there, the
/// pixel stays.
pub proof fn pixel_is_masked_where_it_lies<
    P: Copy + Alpha,
    S: Luminance,
    Stencil: Transform + Sample<Pixel = S>,
>(image: ImageFrame<P>, stencil: Stencil, result: ImageFrame<P>, x: u32, y: u32) -> (nearest: DVec2) where
    S::LuminanceChannel: LinearChannel<P::AlphaChannel>,

    requires
        call_ensures(mask_imge::<P, S, Stencil>, (image, stencil), result),
        !vector::vec_equal(
            vector::vec_lengths(
                vector::affine_vector(stencil.place(), vector::vec_of(1, 0)),
                vector::affine_vector(stencil.place(), vector::vec_of(0, 1)),
            ),
            vector::vec_of(0, 0),
        ),
        image.image.has(x, y),
    ensures
        ({
            let grid = vector::affine_product(
                image.transform,
                vector::affine_scale(
                    vector::vec_quotient(
                        vector::vec_of(1, 1),
                        vector::vec_of(image.image.width, image.image.height),
                    ),
                ),
            );
            let corner = vector::affine_point(grid, vector::vec_of(x, y));
            &&& is_nearest(
                vector::affine_point(vector::affine_inverse(stencil.place()), corner),
                nearest,
            )
            &&& exists|mask: Option<S>|
                {
                    &&& #[trigger] frame::samples(
                        &stencil,
                        vector::affine_point(stencil.place(), nearest),
                        vector::affine_vector(grid, vector::vec_of(1, 1)),
                        mask,
                    )
                    &&& match mask {
                        Some(mask) => attenuated(&mask, &image.image.at(x, y), result.image.at(x, y)),
                        None => result.image.at(x, y) == image.image.at(x, y),
                    }
                }
        }),
{
    let grid = image.pixel_grid();
    let (column_row, one) = (vector::vec_of(x, y), vector::vec_of(1, 1));
    let (point, area) = (
        vector::affine_point(grid, column_row),
        vector::affine_vector(grid, one),
    );
    assert(masked_where_it_lies(&stencil, &image, &result));
    assert(masked_at(&stencil, point, area, image.image.at(x, y), result.image.at(x, y)));
    let (nearest, mask) = choose|nearest: DVec2, mask: Option<S>|
        {
            &&& is_nearest(
                vector::affine_point(vector::affine_inverse(stencil.place()), point),
                nearest,
            )
            &&& #[trigger] frame::samples(
                &stencil,
                vector::affine_point(stencil.place(), nearest),
                area,
                mask,
            )
            &&& match mask {
                Some(mask) => attenuated(&mask, &image.image.at(x, y), result.image.at(x, y)),
                None => result.image.at(x, y) == image.image.at(x, y),
            }
        };
    nearest
}

/// A stencil of which both sides have no length masks nothing.
pub proof fn point_masks_nothing<
    P: Copy + Alpha,
    S: Luminance,
    Stencil: Transform + Sample<Pixel = S>,
>(image: ImageFrame<P>, stencil: Stencil, result: ImageFrame<P>) where
    S::LuminanceChannel: LinearChannel<P::AlphaChannel>,

    requires
        call_ensures(mask_imge::<P, S, Stencil>, (image, stencil), result),
        vector::vec_equal(
            vector::vec_lengths(
                vector::affine_vector(stencil.place(), vector::vec_of(1, 0)),
                vector::affine_vector(stencil.place(), vector::vec_of(0, 1)),
            ),
            vector::vec_of(0, 0),
        ),
    ensures
        result == image,
{
    assert(masked(&stencil, &image, &result));
}

/// Masking keeps the place and the size of an image, and all its pixels stay stored.
pub proof fn masking_keeps_the_shape<
    P: Alpha,
    S: Luminance,
    Stencil: Transform + Sample<Pixel = S>,
>(stencil: &Stencil, before: &ImageFrame<P>, after: &ImageFrame<P>) where
    S::LuminanceChannel: LinearChannel<P::AlphaChannel>,

    requires
        masked(stencil, before, after),
    ensures
        after.transform == before.transform,
        after.image.same_size(&before.image),
        after.image.wf() == before.image.wf(),
        after.image.filled() == before.image.filled(),
{
}

/// Where a stencil has no pixels, masking with it changes nothing.
pub proof fn absent_stencil_masks_nothing<
    P: Alpha,
    S: Luminance,
    Stencil: Transform + Sample<Pixel = S>,
>(stencil: &Stencil, before: &ImageFrame<P>, after: &ImageFrame<P>) where
    S::LuminanceChannel: LinearChannel<P::AlphaChannel>,

    requires
        masked(stencil, before, after),
        forall|pos: DVec2, area: DVec2, pixel: Option<S>| #[trigger]
            frame::samples(stencil, pos, area, pixel) ==> pixel is None,
    ensures
        after.transform == before.transform,
        after.image.same_as(&before.image),
{
    if !is_degenerate(stencil.place()) {
        assert forall|i: int| 0 <= i < before.image.data.len() implies after.image.data@[i]
            == before.image.data@[i] by {
            if i < before.image.area() {
                let (x, y) = image::lemma_pixel_coordinates(
                    before.image.width,
                    before.image.height,
                    i,
                );
                assert(before.image.has(x, y));
                assert(after.image.at(x, y) == before.image.at(x, y));
            }
        }
        assert(after.image.data@ =~= before.image.data@);
    }
}

} // verus!
