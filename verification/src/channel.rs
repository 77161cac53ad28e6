//! Replacing a color channel of an image by the brightness of another.
use core::marker::PhantomData;
use vstd::prelude::*;
use crate::frame::ImageFrame;
use crate::image::Image;
use crate::pixel::{LinearChannel, Luma, Luminance, RGBMut, RedGreenBlue, Rgba};
use crate::image;
use crate::pixel;

verus! {

/// `after` is `before` with a channel set to the brightness of `source`.
pub open spec fn channel_inserted<P: RGBMut, S: Luminance>(
    source: &S,
    target: RedGreenBlue,
    before: P,
    after: P,
) -> bool where S::LuminanceChannel: LinearChannel<P::ColorChannel> {
    exists|value: P::ColorChannel|
        #[trigger] pixel::brightness(source, value) && after == before.with_channel(target, value)
}

/// The insertion has pixels, and its pixels can be matched with those of the image.
pub open spec fn matches_image<P, S>(image: &Image<P>, insertion: &Image<S>) -> bool {
    &&& insertion.width != 0
    &&& insertion.same_size(image)
}

/// `after` is `before` with a channel of each pixel set to the brightness of the pixel of the
/// insertion at the same place. An insertion of another size changes nothing.
pub open spec fn inserted<P: RGBMut, S: Luminance>(
    before: &Image<P>,
    insertion: &Image<S>,
    target: RedGreenBlue,
    after: &Image<P>,
) -> bool where S::LuminanceChannel: LinearChannel<P::ColorChannel> {
    if matches_image(before, insertion) {
        &&& after.same_size(before)
        &&& after.data.len() == before.data.len()
        &&& forall|x: u32, y: u32|
            x < before.width && y < before.height ==> channel_inserted(
                &insertion.at(x, y),
                target,
                before.at(x, y),
                #[trigger] after.at(x, y),
            )
        &&& forall|i: int|
            before.area() <= i < before.data.len() ==> #[trigger] after.data@[i] == before.data@[i]
    } else {
        *after == *before
    }
}

/// Whether the insertion has columns, and yet its pixels cannot be matched with those of the
/// image: such an insertion is ignored with a warning, one without columns in silence.
pub fn sizes_clash<P, S>(image: &Image<P>, insertion: &Image<S>) -> (r: bool)
    ensures
        r == (insertion.width != 0 && !insertion.same_size(image)),
{
    insertion.width != 0 && (insertion.width != image.width || insertion.height != image.height)
}

/// Sets a channel of a pixel to the brightness of another.
fn insert_channel<P: RGBMut, S: Luminance>(source: &S, target: RedGreenBlue, pixel: P) -> (after:
    P) where S::LuminanceChannel: LinearChannel<P::ColorChannel>
    ensures
        channel_inserted(source, target, pixel, after),
{
    let mut after = pixel;
    let l = source.l();
    let value: P::ColorChannel = l.cast_linear_channel();
    assert(pixel::brightness(source, value));
    match target {
        RedGreenBlue::Red => after.set_red(value),
        RedGreenBlue::Green => after.set_green(value),
        RedGreenBlue::Blue => after.set_blue(value),
    }
    after
}

/// Sets a channel of each pixel of an image to the brightness of the pixel of another image at
/// the same place. Images without columns, or of another size, are ignored.
pub fn insert_channel_node<P: Copy + RGBMut, S: Copy + Luminance>(
    image: Image<P>,
    insertion: &Image<S>,
    target_channel: RedGreenBlue,
) -> (result: Image<P>) where S::LuminanceChannel: LinearChannel<P::ColorChannel>
    requires
        matches_image(&image, insertion) ==> image.filled() && insertion.filled(),
    ensures
        inserted(&image, insertion, target_channel, &result),
{
    let mut image = image;
    if insertion.width == 0 {
        return image;
    }
    if sizes_clash(&image, insertion) {
        return image;
    }
    let ghost before = image;
    let insert = |x: u32, y: u32, pixel: P| -> (after: P)
        requires
            x < insertion.width,
            y < insertion.height,
            insertion.filled(),
        ensures
            channel_inserted(&insertion.at(x, y), target_channel, pixel, after),
        {
            proof {
                image::filled_image_has_every_pixel(insertion, x, y);
            }
            match insertion.get_pixel(x, y) {
                Some(source) => insert_channel(&source, target_channel, pixel),
                None => pixel,
            }
        };
    let end = (image.width, image.height);
    image.update_region((0, 0), end, &insert);
    proof {
        assert forall|x: u32, y: u32| x < before.width && y < before.height implies channel_inserted(
            &insertion.at(x, y),
            target_channel,
            before.at(x, y),
            #[trigger] image.at(x, y),
        ) by {
            image::filled_image_has_every_pixel(&before, x, y);
        }
    }
    image
}

/// Sets a given channel of images to the brightness of a given image.
#[derive(Debug)]
pub struct InsertChannelNode<P, S, Insertion, TargetChannel> {
    pub insertion: Insertion,
    pub target_channel: TargetChannel,
    pub _p: PhantomData<P>,
    pub _s: PhantomData<S>,
}

impl<P, S, Insertion: Clone, TargetChannel: Clone> Clone for InsertChannelNode<
    P,
    S,
    Insertion,
    TargetChannel,
> {
    fn clone(&self) -> (node: Self)
        ensures
            cloned(self.insertion, node.insertion),
            cloned(self.target_channel, node.target_channel),
    {
        InsertChannelNode {
            insertion: self.insertion.clone(),
            target_channel: self.target_channel.clone(),
            _p: PhantomData,
            _s: PhantomData,
        }
    }
}

impl<P: Copy, S: Copy, Insertion: Copy, TargetChannel: Copy> Copy for InsertChannelNode<
    P,
    S,
    Insertion,
    TargetChannel,
> {

}

impl<P: Copy + RGBMut, S: Copy + Luminance> InsertChannelNode<P, S, Image<S>, RedGreenBlue> where
    S::LuminanceChannel: LinearChannel<P::ColorChannel>,
 {
    pub fn new(insertion: Image<S>, target_channel: RedGreenBlue) -> (node: Self)
        ensures
            node.insertion == insertion,
            node.target_channel == target_channel,
    {
        InsertChannelNode { insertion, target_channel, _p: PhantomData, _s: PhantomData }
    }

    pub fn eval(&self, frame: ImageFrame<P>) -> (result: ImageFrame<P>)
        requires
            matches_image(&frame.image, &self.insertion) ==> frame.image.filled()
                && self.insertion.filled(),
        ensures
            inserted(&frame.image, &self.insertion, self.target_channel, &result.image),
            result.transform == frame.transform,
    {
        ImageFrame {
            image: insert_channel_node(frame.image, &self.insertion, self.target_channel),
            transform: frame.transform,
        }
    }
}

/// An image of the same width and height is inserted into the channel: of each pixel the channel is
/// set to the brightness of the pixel in the same column and row. One of another width or height,
/// or without columns, changes nothing.
pub proof fn insertion_of_the_same_size_sets_the_channel<P: Copy + RGBMut, S: Copy + Luminance>(
    image: Image<P>,
    insertion: &Image<S>,
    target: RedGreenBlue,
    result: Image<P>,
    x: u32,
    y: u32,
) where S::LuminanceChannel: LinearChannel<P::ColorChannel>
    requires
        call_ensures(insert_channel_node::<P, S>, (image, insertion, target), result),
        image.filled(),
        insertion.filled(),
        x < image.width,
        y < image.height,
    ensures
        if insertion.width == image.width && insertion.height == image.height {
            exists|value: P::ColorChannel| #[trigger]
                pixel::brightness(&insertion.at(x, y), value) && result.at(x, y) == image.at(
                    x,
                    y,
                ).with_channel(target, value)
        } else {
            result == image
        },
{
    assert(inserted(&image, insertion, target, &result));
    if insertion.width == image.width && insertion.height == image.height {
        assert(channel_inserted(&insertion.at(x, y), target, image.at(x, y), result.at(x, y)));
    }
}

/// After a gray image is inserted into a channel, the channel holds the gray values, and the
/// other channels and the opacity are as they were.
pub proof fn inserted_channel_holds_gray_values<C: Copy>(
    before: &Image<Rgba<C>>,
    insertion: &Image<Luma<C>>,
    target: RedGreenBlue,
    after: &Image<Rgba<C>>,
    other: RedGreenBlue,
    x: u32,
    y: u32,
)
    requires
        inserted(before, insertion, target, after),
        matches_image(before, insertion),
        x < before.width,
        y < before.height,
    ensures
        after.at(x, y).channel(target) == insertion.at(x, y).l,
        other != target ==> after.at(x, y).channel(other) == before.at(x, y).channel(other),
        after.at(x, y).alpha == before.at(x, y).alpha,
{
    assert(channel_inserted(&insertion.at(x, y), target, before.at(x, y), after.at(x, y)));
}

/// Inserting an image into a channel a second time changes nothing.
pub proof fn second_insertion_changes_nothing<P: RGBMut, S: Luminance>(
    before: &Image<P>,
    insertion: &Image<S>,
    target: RedGreenBlue,
    once: &Image<P>,
    twice: &Image<P>,
) where S::LuminanceChannel: LinearChannel<P::ColorChannel>
    requires
        pixel::has_separate_channels::<P>(),
        pixel::has_one_brightness::<S, P::ColorChannel>(),
        inserted(before, insertion, target, once),
        inserted(once, insertion, target, twice),
    ensures
        twice.same_as(once),
{
    if matches_image(before, insertion) {
        later_insertion_replaces_earlier(before, insertion, insertion, target, once, twice, once);
    }
}

/// An image inserted into a channel replaces all that was inserted into the channel before.
pub proof fn later_insertion_replaces_earlier<P: RGBMut, S: Luminance, T: Luminance>(
    before: &Image<P>,
    earlier: &Image<S>,
    later: &Image<T>,
    target: RedGreenBlue,
    after_earlier: &Image<P>,
    after_both: &Image<P>,
    after_later: &Image<P>,
) where
    S::LuminanceChannel: LinearChannel<P::ColorChannel>,
    T::LuminanceChannel: LinearChannel<P::ColorChannel>,

    requires
        pixel::has_separate_channels::<P>(),
        pixel::has_one_brightness::<T, P::ColorChannel>(),
        inserted(before, earlier, target, after_earlier),
        inserted(after_earlier, later, target, after_both),
        inserted(before, later, target, after_later),
        matches_image(before, later),
    ensures
        after_both.same_as(after_later),
{
    assert forall|i: int| 0 <= i < before.data.len() implies #[trigger] after_both.data@[i]
        == after_later.data@[i] by {
        if i < before.area() {
            let (x, y) = image::lemma_pixel_coordinates(before.width, before.height, i);
            assert(channel_inserted(
                &later.at(x, y),
                target,
                after_earlier.at(x, y),
                after_both.at(x, y),
            ));
            assert(channel_inserted(
                &later.at(x, y),
                target,
                before.at(x, y),
                after_later.at(x, y),
            ));
            if matches_image(before, earlier) {
                assert(channel_inserted(
                    &earlier.at(x, y),
                    target,
                    before.at(x, y),
                    after_earlier.at(x, y),
                ));
            }
            assert(after_both.at(x, y) == after_later.at(x, y));
        }
    }
    assert(after_both.data@ =~= after_later.data@);
}

/// Of images inserted into two different channels, it does not matter which is inserted first.
pub proof fn insertions_into_two_channels_commute<P: RGBMut, S: Luminance, T: Luminance>(
    before: &Image<P>,
    first: &Image<S>,
    first_target: RedGreenBlue,
    second: &Image<T>,
    second_target: RedGreenBlue,
    after_first: &Image<P>,
    first_then_second: &Image<P>,
    after_second: &Image<P>,
    second_then_first: &Image<P>,
) where
    S::LuminanceChannel: LinearChannel<P::ColorChannel>,
    T::LuminanceChannel: LinearChannel<P::ColorChannel>,

    requires
        pixel::has_separate_channels::<P>(),
        pixel::has_one_brightness::<S, P::ColorChannel>(),
        pixel::has_one_brightness::<T, P::ColorChannel>(),
        first_target != second_target,
        inserted(before, first, first_target, after_first),
        inserted(after_first, second, second_target, first_then_second),
        inserted(before, second, second_target, after_second),
        inserted(after_second, first, first_target, second_then_first),
    ensures
        first_then_second.same_as(second_then_first),
{
    assert forall|i: int| 0 <= i < before.data.len() implies #[trigger] first_then_second.data@[i]
        == second_then_first.data@[i] by {
        if i < before.area() {
            let (x, y) = image::lemma_pixel_coordinates(before.width, before.height, i);
            if matches_image(before, first) {
                assert(channel_inserted(
                    &first.at(x, y),
                    first_target,
                    before.at(x, y),
                    after_first.at(x, y),
                ));
                assert(channel_inserted(
                    &first.at(x, y),
                    first_target,
                    after_second.at(x, y),
                    second_then_first.at(x, y),
                ));
            }
            if matches_image(before, second) {
                assert(channel_inserted(
                    &second.at(x, y),
                    second_target,
                    before.at(x, y),
                    after_second.at(x, y),
                ));
                assert(channel_inserted(
                    &second.at(x, y),
                    second_target,
                    after_first.at(x, y),
                    first_then_second.at(x, y),
                ));
            }
            assert(first_then_second.at(x, y) == second_then_first.at(x, y));
        }
    }
    assert(first_then_second.data@ =~= second_then_first.data@);
}

} // verus!
