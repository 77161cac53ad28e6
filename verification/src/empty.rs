//! Images of one color.
use core::marker::PhantomData;
use vstd::prelude::*;
use glam::DAffine2;
use crate::frame::{ImageFrame, Transform};
use crate::image::Image;
use crate::{frame, image, vector};

verus! {

/// The width and height, in whole pixels of size one, of the area that a transform takes the
/// unit square to.
pub open spec fn pixel_size(transform: DAffine2) -> (u32, u32) {
    vector::vec_truncated(frame::side_lengths(transform))
}

/// Computes [`pixel_size`].
pub fn measure(transform: DAffine2) -> (size: (u32, u32))
    ensures
        size == pixel_size(transform),
{
    vector::truncated(transform.decompose_scale())
}

/// `frame` lies at `transform`, and all its pixels, of the given number of columns and rows,
/// have one color.
pub open spec fn is_plain<P>(
    frame: &ImageFrame<P>,
    size: (u32, u32),
    color: P,
    transform: DAffine2,
) -> bool {
    &&& frame.image.width == size.0
    &&& frame.image.height == size.1
    &&& frame.image.wf()
    &&& forall|i: int| 0 <= i < frame.image.data.len() ==> #[trigger] frame.image.data@[i] == color
    &&& frame.transform == transform
}

/// An image of one color that covers the area of a transform with pixels of size one.
pub fn empty_image<P: Copy>(transform: DAffine2, color: P) -> (frame: ImageFrame<P>)
    requires
        pixel_size(transform).0 * pixel_size(transform).1 <= usize::MAX,
    ensures
        is_plain(&frame, pixel_size(transform), color, transform),
{
    let (width, height) = measure(transform);
    let image = Image::new(width, height, color);
    ImageFrame { image, transform }
}

/// Makes images of one color.
#[derive(Debug, PartialEq)]
pub struct EmptyImageNode<P, FillColor> {
    pub color: FillColor,
    pub _p: PhantomData<P>,
}

impl<P, FillColor: Clone> Clone for EmptyImageNode<P, FillColor> {
    fn clone(&self) -> (node: Self)
        ensures
            cloned(self.color, node.color),
    {
        EmptyImageNode { color: self.color.clone(), _p: PhantomData }
    }
}

impl<P: Copy> EmptyImageNode<P, P> {
    pub fn new(color: P) -> (node: Self)
        ensures
            node.color == color,
    {
        EmptyImageNode { color, _p: PhantomData }
    }

    pub fn eval(&self, transform: DAffine2) -> (frame: ImageFrame<P>)
        requires
            pixel_size(transform).0 * pixel_size(transform).1 <= usize::MAX,
        ensures
            is_plain(&frame, pixel_size(transform), self.color, transform),
    {
        empty_image(transform, self.color)
    }

    /// [`EmptyImageNode::eval`], or nothing where the image would be too large.
    pub fn checked_eval(&self, transform: DAffine2) -> (frame: Option<ImageFrame<P>>)
        ensures
            frame is Some <==> pixel_size(transform).0 * pixel_size(transform).1 <= usize::MAX,
            frame matches Some(f) ==> is_plain(&f, pixel_size(transform), self.color, transform),
    {
        let (width, height) = measure(transform);
        if image::countable(width, height) {
            Some(self.eval(transform))
        } else {
            None
        }
    }
}

/// An image of one color has as many columns as the image of the first unit vector is long, cut to a
/// whole number, and as many rows as that of the second, however the area is turned.
pub proof fn plain_image_has_the_size_of_the_sides<P: Copy>(
    transform: DAffine2,
    color: P,
    frame: ImageFrame<P>,
    x: u32,
    y: u32,
)
    requires
        call_ensures(empty_image::<P>, (transform, color), frame),
        pixel_size(transform).0 * pixel_size(transform).1 <= usize::MAX,
    ensures
        (frame.image.width, frame.image.height) == vector::vec_truncated(
            vector::vec_lengths(
                vector::affine_vector(transform, vector::vec_of(1, 0)),
                vector::affine_vector(transform, vector::vec_of(0, 1)),
            ),
        ),
        frame.transform == transform,
        frame.image.wf(),
        x < frame.image.width && y < frame.image.height ==> frame.image.at(x, y) == color,
{
    if x < frame.image.width && y < frame.image.height {
        image::lemma_pixel_index(frame.image.width, frame.image.height, x, y);
    }
}

} // verus!
