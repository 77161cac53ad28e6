//! Images with a place in the plane.
//!
//! The transform of a frame takes the unit square to the area that its image covers.
use core::marker::PhantomData;
use vstd::prelude::*;
use glam::{DAffine2, DVec2};
use crate::image::Image;
use crate::vector;

verus! {

/// An image and the transform that places it.
#[derive(Debug, PartialEq)]
pub struct ImageFrame<P> {
    pub image: Image<P>,
    pub transform: DAffine2,
}

impl<P: Copy> Clone for ImageFrame<P> {
    fn clone(&self) -> (frame: Self)
        ensures
            frame.image.same_as(&self.image),
            frame.transform == self.transform,
    {
        ImageFrame { image: self.image.clone(), transform: self.transform }
    }
}

/// The lengths of the two sides of the image of the unit square.
pub open spec fn side_lengths(transform: DAffine2) -> DVec2 {
    vector::vec_lengths(
        vector::affine_vector(transform, vector::vec_of(1, 0)),
        vector::affine_vector(transform, vector::vec_of(0, 1)),
    )
}

/// Something with a place in the plane.
pub trait Transform {
    /// The place, as the image of the unit square.
    spec fn place(&self) -> DAffine2;

    /// Computes [`Transform::place`].
    fn transform(&self) -> (transform: DAffine2)
        ensures
            transform == self.place(),
    ;

    /// The lengths of the two sides of the area that this takes up.
    fn decompose_scale(&self) -> (scale: DVec2)
        ensures
            scale == side_lengths(self.place()),
    {
        let transform = self.transform();
        vector::lengths(
            transform.transform_vector2(vector::whole(1, 0)),
            transform.transform_vector2(vector::whole(0, 1)),
        )
    }
}

/// Something that has a pixel at each of some points of the plane.
pub trait Sample {
    type Pixel;

    /// The pixel at a point, if there is one. `area` is the extent of the pixel that is asked
    /// for.
    fn sample(&self, pos: DVec2, area: DVec2) -> Option<Self::Pixel>;
}

/// `pixel` may be what `source` gives at a point.
pub open spec fn samples<S: Sample>(
    source: &S,
    pos: DVec2,
    area: DVec2,
    pixel: Option<S::Pixel>,
) -> bool {
    call_ensures(S::sample, (source, pos, area), pixel)
}

impl Transform for DAffine2 {
    open spec fn place(&self) -> DAffine2 {
        *self
    }

    fn transform(&self) -> (transform: DAffine2) {
        *self
    }
}

impl<P> Transform for ImageFrame<P> {
    open spec fn place(&self) -> DAffine2 {
        self.transform
    }

    fn transform(&self) -> (transform: DAffine2) {
        self.transform
    }
}

/// A source of pixels and the transform that places it.
#[derive(Debug, PartialEq)]
pub struct Placed<S> {
    pub source: S,
    pub transform: DAffine2,
}

impl<S> Transform for Placed<S> {
    open spec fn place(&self) -> DAffine2 {
        self.transform
    }

    fn transform(&self) -> (transform: DAffine2) {
        self.transform
    }
}

impl<S: Sample> Sample for Placed<S> {
    type Pixel = S::Pixel;

    fn sample(&self, pos: DVec2, area: DVec2) -> (pixel: Option<S::Pixel>)
        ensures
            samples(&self.source, pos, area, pixel),
    {
        self.source.sample(pos, area)
    }
}

impl<P> ImageFrame<P> {
    /// A point of the plane in the coordinates of the image, in which pixels have the size
    /// one.
    pub open spec fn image_point(&self, pos: DVec2) -> DVec2 {
        vector::affine_point(
            vector::affine_product(
                vector::affine_scale(
                    vector::vec_of(self.image.width, self.image.height),
                ),
                vector::affine_inverse(self.transform),
            ),
            pos,
        )
    }

    /// The map from the coordinates of the image, in which pixels have the size one, to the
    /// plane.
    pub open spec fn pixel_grid(&self) -> DAffine2 {
        vector::affine_product(
            self.transform,
            vector::affine_scale(
                vector::vec_quotient(
                    vector::vec_of(1, 1),
                    vector::vec_of(self.image.width, self.image.height),
                ),
            ),
        )
    }

    /// Computes [`ImageFrame::pixel_grid`].
    pub(crate) fn grid(&self) -> (grid: DAffine2)
        ensures
            grid == self.pixel_grid(),
    {
        let size = vector::whole(self.image.width, self.image.height);
        vector::compose(
            self.transform,
            DAffine2::from_scale(vector::quotient(vector::whole(1, 1), size)),
        )
    }

    /// The pixel at a point of the plane, if the image covers the point.
    pub open spec fn pixel_at(&self, pos: DVec2) -> Option<P> {
        let point = self.image_point(pos);
        let (x, y) = vector::vec_truncated(point);
        if vector::vec_falls_short(point, vector::vec_of(0, 0))
            || vector::vec_exceeds(
            point,
            vector::vec_of(self.image.width, self.image.height),
        ) || !self.image.has(x, y) {
            None
        } else {
            Some(self.image.at(x, y))
        }
    }
}

/// Where a point of the plane, in the coordinates of the image, is the corner of a pixel or lies
/// between that and the corner of the next column and row, `pixel` is that pixel. Where it has
/// a coordinate below zero, or not below the size of the image, `pixel` is none.
pub open spec fn is_pixel_under<P>(frame: &ImageFrame<P>, pos: DVec2, pixel: Option<P>) -> bool {
    let size = vector::vec_of(frame.image.width, frame.image.height);
    let point = vector::affine_point(
        vector::affine_product(
            vector::affine_scale(size),
            vector::affine_inverse(frame.transform),
        ),
        pos,
    );
    &&& forall|x: u32, y: u32|
        point == #[trigger] vector::vec_of(x, y) && frame.image.has(x, y) ==> pixel == Some(
            frame.image.at(x, y),
        )
    &&& forall|x: u32, y: u32|
        {
            &&& #[trigger] frame.image.has(x, y)
            &&& vector::vec_reaches(point, vector::vec_of(x, y))
            &&& !vector::vec_exceeds(point, vector::vec_of((x + 1) as u32, (y + 1) as u32))
        } ==> pixel == Some(frame.image.at(x, y))
    &&& vector::vec_falls_short(point, vector::vec_of(0, 0)) ==> pixel is None
    &&& vector::vec_exceeds(point, size) ==> pixel is None
}

/// The point of the plane at which the corner of a pixel lies, in an image of the given size.
pub open spec fn pixel_corner(transform: DAffine2, width: u32, height: u32, x: u32, y: u32) -> DVec2 {
    vector::affine_point(
        transform,
        vector::vec_quotient(vector::vec_of(x, y), vector::vec_of(width, height)),
    )
}

/// The coordinates of the corner of a pixel are exact: the map from pixels to the plane takes the
/// pixel there, and the maps back to the unit square and to pixels take it back.
pub open spec fn is_exact_at(transform: DAffine2, width: u32, height: u32, x: u32, y: u32) -> bool {
    let size = vector::vec_of(width, height);
    let corner = pixel_corner(transform, width, height, x, y);
    &&& vector::affine_point(
        vector::affine_product(
            transform,
            vector::affine_scale(vector::vec_quotient(vector::vec_of(1, 1), size)),
        ),
        vector::vec_of(x, y),
    ) == corner
    &&& vector::affine_point(vector::affine_inverse(transform), corner) == vector::vec_quotient(
        vector::vec_of(x, y),
        size,
    )
    &&& vector::affine_point(
        vector::affine_product(
            vector::affine_scale(size),
            vector::affine_inverse(transform),
        ),
        corner,
    ) == vector::vec_of(x, y)
}

/// Where coordinates are exact, the pixel at the corner of a pixel is that pixel, whatever the
/// place of the image.
pub proof fn pixel_is_found_at_its_corner<P: Copy>(
    frame: &ImageFrame<P>,
    x: u32,
    y: u32,
    area: DVec2,
    pixel: Option<P>,
)
    requires
        frame.image.has(x, y),
        is_exact_at(frame.transform, frame.image.width, frame.image.height, x, y),
        call_ensures(
            <ImageFrame<P> as Sample>::sample,
            (
                frame,
                pixel_corner(frame.transform, frame.image.width, frame.image.height, x, y),
                area,
            ),
            pixel,
        ),
    ensures
        pixel == Some(frame.image.at(x, y)),
{
}

/// A pixel that is found at a point is the one in whose cell the point lies, and outside the
/// image there is none.
pub proof fn pixel_is_found_in_its_cell<P: Copy>(
    frame: &ImageFrame<P>,
    pos: DVec2,
    area: DVec2,
    pixel: Option<P>,
    x: u32,
    y: u32,
)
    requires
        call_ensures(<ImageFrame<P> as Sample>::sample, (frame, pos, area), pixel),
    ensures
        ({
            let size = vector::vec_of(frame.image.width, frame.image.height);
            let point = vector::affine_point(
                vector::affine_product(
                    vector::affine_scale(size),
                    vector::affine_inverse(frame.transform),
                ),
                pos,
            );
            &&& frame.image.has(x, y) && vector::vec_reaches(point, vector::vec_of(x, y))
                && !vector::vec_exceeds(point, vector::vec_of((x + 1) as u32, (y + 1) as u32))
                ==> pixel == Some(frame.image.at(x, y))
            &&& vector::vec_falls_short(point, vector::vec_of(0, 0)) || vector::vec_exceeds(
                point,
                size,
            ) ==> pixel is None
        }),
{
}

impl<P: Copy> Sample for ImageFrame<P> {
    type Pixel = P;

    fn sample(&self, pos: DVec2, area: DVec2) -> (pixel: Option<P>)
        ensures
            pixel == self.pixel_at(pos),
            is_pixel_under(self, pos, pixel),
    {
        let size = vector::whole(self.image.width, self.image.height);
        let to_image = vector::compose(DAffine2::from_scale(size), self.transform.inverse());
        let point = to_image.transform_point2(pos);
        if vector::falls_short(point, vector::whole(0, 0)) || vector::exceeds(point, size) {
            return None;
        }
        let (x, y) = vector::truncated(point);
        self.image.get_pixel(x, y)
    }
}

impl<P> ImageFrame<P> {
    /// This is the frame without pixels, shrunk to the origin.
    pub open spec fn is_empty(&self) -> bool {
        &&& self.image.width == 0
        &&& self.image.height == 0
        &&& self.image.data@ == Seq::<P>::empty()
        &&& self.transform == vector::affine_scale(vector::vec_of(0, 0))
    }

    /// The frame without pixels, shrunk to the origin.
    pub fn empty() -> (frame: Self)
        ensures
            frame.is_empty(),
    {
        ImageFrame { image: Image::default(), transform: DAffine2::from_scale(vector::whole(0, 0)) }
    }
}

/// Puts an image at a place.
pub fn image_frame<P>(image: Image<P>, transform: DAffine2) -> (frame: ImageFrame<P>)
    ensures
        frame.image == image,
        frame.transform == transform,
{
    ImageFrame { image, transform }
}

/// Puts images at a given place.
#[derive(Debug)]
pub struct ImageFrameNode<P, Transform> {
    pub transform: Transform,
    pub _p: PhantomData<P>,
}

impl<P, T: Clone> Clone for ImageFrameNode<P, T> {
    fn clone(&self) -> (node: Self)
        ensures
            cloned(self.transform, node.transform),
    {
        ImageFrameNode { transform: self.transform.clone(), _p: PhantomData }
    }
}

impl<P: Copy, T: Copy> Copy for ImageFrameNode<P, T> {

}

impl<P> ImageFrameNode<P, DAffine2> {
    pub fn new(transform: DAffine2) -> (node: Self)
        ensures
            node.transform == transform,
    {
        ImageFrameNode { transform, _p: PhantomData }
    }

    pub fn eval(&self, image: Image<P>) -> (frame: ImageFrame<P>)
        ensures
            frame.image == image,
            frame.transform == self.transform,
    {
        image_frame(image, self.transform)
    }
}

/// A frame without columns or without rows has no pixel at any point.
pub proof fn empty_frame_has_no_pixels<P: Copy>(
    frame: &ImageFrame<P>,
    pos: DVec2,
    area: DVec2,
    pixel: Option<P>,
)
    requires
        frame.image.width == 0 || frame.image.height == 0,
        samples(frame, pos, area, pixel),
    ensures
        pixel is None,
{
}

} // verus!
