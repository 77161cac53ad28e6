//! Reducing images to the size at which they are shown.
use core::marker::PhantomData;
use vstd::prelude::*;
use crate::empty::measure;
use crate::frame::ImageFrame;
use crate::image::{smaller, Image};
use crate::{empty, image, vector};

verus! {

/// The place in an image of size `from` that column `x` and row `y` of a reduced image of size
/// `to` are taken from.
pub open spec fn source_place(from: (u32, u32), to: (u32, u32), x: u32, y: u32) -> (u32, u32) {
    let scale = vector::vec_quotient(
        vector::vec_of(from.0, from.1),
        vector::vec_of(to.0, to.1),
    );
    vector::vec_truncated(vector::vec_product(vector::vec_of(x, y), scale))
}

/// `after` is `before` reduced to a number of columns and rows.
pub open spec fn reduced<P>(before: &Image<P>, after: &Image<P>, width: u32, height: u32) -> bool {
    &&& after.width == width
    &&& after.height == height
    &&& after.wf()
    &&& forall|x: u32, y: u32|
        x < width && y < height ==> #[trigger] after.at(x, y) == {
            let place = source_place((before.width, before.height), (width, height), x, y);
            before.nearest(place.0, place.1)
        }
}

/// Where a reduction is by whole factors, `after` has every so many-th pixel of `before`.
pub open spec fn takes_every_nth<P>(before: &Image<P>, after: &Image<P>) -> bool {
    after.width > 0 && after.height > 0 && before.width % after.width == 0 && before.height
        % after.height == 0 ==> forall|x: u32, y: u32|
        x < after.width && y < after.height ==> #[trigger] after.at(x, y) == before.at(
            (x * (before.width / after.width)) as u32,
            (y * (before.height / after.height)) as u32,
        )
}

/// Column `source` of `from` columns lies where column `x` of `to` columns does, give or take a
/// column for rounding: less than one after it, and less than two before it. Unless the images are
/// very large, it is the column in which column `x` starts, or the one before where it starts
/// between two.
pub open spec fn is_near(from: int, to: int, x: int, source: int) -> bool {
    &&& source * to < x * from + to
    &&& x * from < (source + 2) * to
    &&& from * to <= 0x8_0000_0000_0000 ==> source * to <= x * from <= (source + 1) * to
}

/// The pixel of `after` in column `x` and row `y` is one of `before`, from the same place of the
/// image give or take a column and a row for rounding.
pub open spec fn is_taken_nearby<P>(before: &Image<P>, after: &Image<P>, x: u32, y: u32) -> bool {
    exists|u: u32, v: u32|
        {
            &&& u < before.width
            &&& v < before.height
            &&& after.at(x, y) == #[trigger] before.at(u, v)
            &&& is_near(before.width as int, after.width as int, x as int, u as int)
            &&& is_near(before.height as int, after.height as int, y as int, v as int)
        }
}

/// Every pixel of `after` is taken from its own place in `before`.
pub open spec fn is_spread_evenly<P>(before: &Image<P>, after: &Image<P>) -> bool {
    forall|x: u32, y: u32|
        x < after.width && y < after.height ==> #[trigger] is_taken_nearby(before, after, x, y)
}

/// A column after the last stands for the last.
proof fn lemma_last_is_near(from: u32, to: u32, x: u32, source: u32)
    requires
        x < to,
        from > 0,
        is_near(from as int, to as int, x as int, source as int),
    ensures
        is_near(
            from as int,
            to as int,
            x as int,
            image::least(source, (from - 1) as u32) as int,
        ),
{
    let last = from - 1;
    if source > last {
        assert(last * to <= x * from <= (last + 1) * to) by (nonlinear_arith)
            requires
                0 <= x < to,
                0 <= last < source,
                from == last + 1,
                source * to < x * from + to,
        ;
        assert(last * to < x * from + to && x * from < (last + 2) * to) by (nonlinear_arith)
            requires
                0 <= x < to,
                0 <= last < source,
                from == last + 1,
                source * to < x * from + to,
        ;
    }
}

/// A pixel of a reduced image lies, times a whole factor, inside the image.
proof fn lemma_factor(from: u32, to: u32, x: u32)
    requires
        to > 0,
        x < to,
        to <= from,
        from % to == 0,
    ensures
        0 <= x * (from / to) < from,
{
    let k = from / to;
    assert(from == to * k) by (nonlinear_arith)
        requires
            from % to == 0,
            to > 0,
            k == from / to,
    ;
    assert(0 <= x * k < from) by (nonlinear_arith)
        requires
            from == to * k,
            0 <= x < to,
            from > 0,
            k >= 0,
    ;
}

/// Reduces an image to a number of columns and rows.
pub fn reduce<P: Copy>(image: &Image<P>, width: u32, height: u32) -> (result: Image<P>)
    requires
        image.filled() || width == 0 || height == 0,
        width <= image.width,
        height <= image.height,
    ensures
        reduced(image, &result, width, height),
        takes_every_nth(image, &result),
        is_spread_evenly(image, &result),
{
    let scale = vector::quotient(
        vector::whole(image.width, image.height),
        vector::whole(width, height),
    );
    let locate = |x: u32, y: u32| -> (place: (u32, u32))
        ensures
            place == vector::vec_truncated(vector::vec_product(vector::vec_of(x, y), scale)),
            forall|fx: u32, fy: u32|
                scale == #[trigger] vector::vec_of(fx, fy) && x * fx <= u32::MAX && y * fy
                    <= u32::MAX ==> place == ((x * fx) as u32, (y * fy) as u32),
            x < width && y < height ==> {
                &&& is_near(image.width as int, width as int, x as int, place.0 as int)
                &&& is_near(image.height as int, height as int, y as int, place.1 as int)
            },
        { vector::truncated(vector::product(vector::whole(x, y), scale)) };
    let result = image.resample(width, height, &locate);
    proof {
        assert forall|x: u32, y: u32| x < width && y < height implies #[trigger] result.at(x, y)
            == {
            let place = source_place((image.width, image.height), (width, height), x, y);
            image.nearest(place.0, place.1)
        } by {
            assert(image::looked_up(image, &locate, x, y, result.at(x, y)));
        }
        assert forall|x: u32, y: u32| x < width && y < height implies #[trigger] is_taken_nearby(
            image,
            &result,
            x,
            y,
        ) by {
            assert(image::looked_up(image, &locate, x, y, result.at(x, y)));
            let place = choose|place: (u32, u32)|
                {
                    &&& #[trigger] call_ensures(locate, (x, y), place)
                    &&& result.at(x, y) == image.nearest(place.0, place.1)
                };
            lemma_last_is_near(image.width, width, x, place.0);
            lemma_last_is_near(image.height, height, y, place.1);
            let u = image::least(place.0, (image.width - 1) as u32);
            let v = image::least(place.1, (image.height - 1) as u32);
            assert(result.at(x, y) == image.at(u, v));
        }
        if width > 0 && height > 0 && image.width % width == 0 && image.height % height == 0 {
            let fx = image.width / width;
            let fy = image.height / height;
            assert(scale == vector::vec_of(fx, fy));
            assert forall|x: u32, y: u32| x < width && y < height implies #[trigger] result.at(x, y)
                == image.at((x * fx) as u32, (y * fy) as u32) by {
                lemma_factor(image.width, width, x);
                lemma_factor(image.height, height, y);
                assert(image::looked_up(image, &locate, x, y, result.at(x, y)));
            }
        }
    }
    result
}

/// The number of columns and rows that a frame is shown with: those of its area, but no more
/// than its image has.
pub open spec fn shown_size<P>(frame: &ImageFrame<P>) -> (u32, u32) {
    let size = empty::pixel_size(frame.transform);
    (image::least(size.0, frame.image.width), image::least(size.1, frame.image.height))
}

/// Reduces the image of a frame to the size at which it is shown, with pixels of size one.
pub fn downres<P: Copy>(image_frame: ImageFrame<P>) -> (result: ImageFrame<P>)
    requires
        image_frame.image.filled() || shown_size(&image_frame).0 == 0 || shown_size(
            &image_frame,
        ).1 == 0,
    ensures
        result.transform == image_frame.transform,
        reduced(
            &image_frame.image,
            &result.image,
            shown_size(&image_frame).0,
            shown_size(&image_frame).1,
        ),
        takes_every_nth(&image_frame.image, &result.image),
        is_spread_evenly(&image_frame.image, &result.image),
{
    let size = measure(image_frame.transform);
    let width: u32 = smaller(size.0, image_frame.image.width);
    let height: u32 = smaller(size.1, image_frame.image.height);
    let image = reduce(&image_frame.image, width, height);
    ImageFrame { image, transform: image_frame.transform }
}

/// Reduces images to the size at which they are shown.
#[derive(Debug)]
pub struct DownresNode<P> {
    pub _p: PhantomData<P>,
}

impl<P: Copy> DownresNode<P> {
    pub fn new() -> (node: Self)
        ensures
            node == (DownresNode::<P> { _p: PhantomData }),
    {
        DownresNode { _p: PhantomData }
    }

    pub fn eval(&self, image_frame: ImageFrame<P>) -> (result: ImageFrame<P>)
        requires
            image_frame.image.filled() || shown_size(&image_frame).0 == 0 || shown_size(
                &image_frame,
            ).1 == 0,
        ensures
            result.transform == image_frame.transform,
            reduced(
                &image_frame.image,
                &result.image,
                shown_size(&image_frame).0,
                shown_size(&image_frame).1,
            ),
            takes_every_nth(&image_frame.image, &result.image),
            is_spread_evenly(&image_frame.image, &result.image),
    {
        downres(image_frame)
    }
}

/// A reduced image has as many columns as the image of the first unit vector is long, cut to a whole
/// number, and as many rows as that of the second, but no more than the image has. It lies where
/// the image lies.
pub proof fn reduced_size_is_that_of_the_sides<P: Copy>(
    frame: ImageFrame<P>,
    result: ImageFrame<P>,
)
    requires
        call_ensures(downres::<P>, (frame,), result),
        frame.image.filled(),
    ensures
        ({
            let lengths = vector::vec_truncated(
                vector::vec_lengths(
                    vector::affine_vector(frame.transform, vector::vec_of(1, 0)),
                    vector::affine_vector(frame.transform, vector::vec_of(0, 1)),
                ),
            );
            &&& result.image.width <= frame.image.width && result.image.width <= lengths.0
            &&& result.image.width == frame.image.width || result.image.width == lengths.0
            &&& result.image.height <= frame.image.height && result.image.height <= lengths.1
            &&& result.image.height == frame.image.height || result.image.height == lengths.1
            &&& result.image.wf()
            &&& result.transform == frame.transform
        }),
{
}

/// Each pixel of a reduced image is one of the image's. Its column, among the columns of the image,
/// is that in which its own starts, among those of the reduced image, and likewise its row: in
/// images that are not very large exactly so, but that a column that starts between two may come
/// from the one before.
pub proof fn reduced_pixel_comes_from_its_place<P: Copy>(
    frame: ImageFrame<P>,
    result: ImageFrame<P>,
    x: u32,
    y: u32,
) -> (source: (u32, u32))
    requires
        call_ensures(downres::<P>, (frame,), result),
        frame.image.filled(),
        x < result.image.width,
        y < result.image.height,
    ensures
        source.0 < frame.image.width,
        source.1 < frame.image.height,
        result.image.at(x, y) == frame.image.at(source.0, source.1),
        source.0 * result.image.width < x * frame.image.width + result.image.width,
        x * frame.image.width < (source.0 + 2) * result.image.width,
        source.1 * result.image.height < y * frame.image.height + result.image.height,
        y * frame.image.height < (source.1 + 2) * result.image.height,
        frame.image.width * result.image.width <= 0x8_0000_0000_0000 ==> source.0
            * result.image.width <= x * frame.image.width && x * frame.image.width <= (source.0 + 1)
            * result.image.width,
        frame.image.height * result.image.height <= 0x8_0000_0000_0000 ==> source.1
            * result.image.height <= y * frame.image.height && y * frame.image.height <= (source.1
            + 1) * result.image.height,
{
    assert(is_taken_nearby(&frame.image, &result.image, x, y));
    let (u, v) = choose|u: u32, v: u32|
        {
            &&& u < frame.image.width
            &&& v < frame.image.height
            &&& result.image.at(x, y) == #[trigger] frame.image.at(u, v)
            &&& is_near(
                frame.image.width as int,
                result.image.width as int,
                x as int,
                u as int,
            )
            &&& is_near(
                frame.image.height as int,
                result.image.height as int,
                y as int,
                v as int,
            )
        };
    (u, v)
}

/// Turning, mirroring or moving a frame does not change how it is reduced, as long as its sides
/// keep their lengths.
pub proof fn reduction_depends_on_the_sides_alone<P: Copy>(
    a: ImageFrame<P>,
    b: ImageFrame<P>,
    reduced_a: ImageFrame<P>,
    reduced_b: ImageFrame<P>,
)
    requires
        call_ensures(downres::<P>, (a,), reduced_a),
        call_ensures(downres::<P>, (b,), reduced_b),
        a.image.filled(),
        b.image.filled(),
        a.image.same_as(&b.image),
        vector::vec_lengths(
            vector::affine_vector(a.transform, vector::vec_of(1, 0)),
            vector::affine_vector(a.transform, vector::vec_of(0, 1)),
        ) == vector::vec_lengths(
            vector::affine_vector(b.transform, vector::vec_of(1, 0)),
            vector::affine_vector(b.transform, vector::vec_of(0, 1)),
        ),
    ensures
        reduced_a.image.same_as(&reduced_b.image),
{
    assert forall|i: int| 0 <= i < reduced_a.image.data.len() implies reduced_a.image.data@[i]
        == reduced_b.image.data@[i] by {
        let (x, y) = image::lemma_pixel_coordinates(
            reduced_a.image.width,
            reduced_a.image.height,
            i,
        );
        assert(reduced_a.image.at(x, y) == reduced_b.image.at(x, y));
    }
    assert(reduced_a.image.data@ =~= reduced_b.image.data@);
}

/// Where the columns and rows of a reduced image divide those of the image, it has every so many-th
/// pixel of the image.
pub proof fn whole_reduction_takes_every_nth_pixel<P: Copy>(
    frame: ImageFrame<P>,
    result: ImageFrame<P>,
    x: u32,
    y: u32,
)
    requires
        call_ensures(downres::<P>, (frame,), result),
        frame.image.filled(),
        x < result.image.width,
        y < result.image.height,
        frame.image.width % result.image.width == 0,
        frame.image.height % result.image.height == 0,
    ensures
        result.image.at(x, y) == frame.image.at(
            (x * (frame.image.width / result.image.width)) as u32,
            (y * (frame.image.height / result.image.height)) as u32,
        ),
{
}

/// An image that is shown with all its columns and rows is kept as it is.
pub proof fn full_size_image_is_kept<P>(before: &Image<P>, after: &Image<P>)
    requires
        before.wf(),
        reduced(before, after, before.width, before.height),
        takes_every_nth(before, after),
    ensures
        after.same_as(before),
{
    assert forall|i: int| 0 <= i < before.data.len() implies after.data@[i] == before.data@[i] by {
        let (x, y) = image::lemma_pixel_coordinates(before.width, before.height, i);
        assert(before.width / before.width == 1 && before.height / before.height == 1)
            by (nonlinear_arith)
            requires
                before.width > 0,
                before.height > 0,
        ;
        assert(before.width % before.width == 0 && before.height % before.height == 0)
            by (nonlinear_arith)
            requires
                before.width > 0,
                before.height > 0,
        ;
        assert(after.at(x, y) == before.at(x, y));
    }
    assert(after.data@ =~= before.data@);
}

/// Each pixel of a reduced image is one of the image's.
pub proof fn reduced_pixels_come_from_the_image<P>(
    before: &Image<P>,
    after: &Image<P>,
    width: u32,
    height: u32,
    x: u32,
    y: u32,
) -> (place: (u32, u32))
    requires
        before.filled(),
        width <= before.width,
        height <= before.height,
        reduced(before, after, width, height),
        x < width,
        y < height,
    ensures
        before.has(place.0, place.1),
        after.at(x, y) == before.at(place.0, place.1),
{
    let source = source_place((before.width, before.height), (width, height), x, y);
    let place = (
        image::least(source.0, (before.width - 1) as u32),
        image::least(source.1, (before.height - 1) as u32),
    );
    image::filled_image_has_every_pixel(before, place.0, place.1);
    place
}

} // verus!
