//! Blending one image over another.
use core::marker::PhantomData;
use vstd::prelude::*;
use glam::{DAffine2, DVec2};
use crate::bbox::{AxisAlignedBbox, Bbox};
use crate::frame::{ImageFrame, Sample, Transform};
use crate::image::Image;
use crate::pixel::Alpha;
use crate::{bbox, frame, image, vector};

verus! {

/// The box around a foreground, in coordinates in which the background is the unit square.
pub open spec fn relative_box(foreground: DAffine2, background: DAffine2) -> AxisAlignedBbox {
    bbox::unit_box(vector::affine_product(vector::affine_inverse(background), foreground))
}

/// The first column and row of a background that a foreground may reach.
pub open spec fn footprint_start<P>(foreground: DAffine2, background: &ImageFrame<P>) -> (
u32, u32) {
    let size = vector::vec_of(background.image.width, background.image.height);
    let start = relative_box(foreground, background.transform).start;
    vector::vec_truncated(vector::vec_max(vector::vec_product(start, size), vector::vec_of(0, 0)))
}

/// The column and row of a background after the last that a foreground may reach.
pub open spec fn footprint_end<P>(foreground: DAffine2, background: &ImageFrame<P>) -> (u32, u32) {
    let size = vector::vec_of(background.image.width, background.image.height);
    let end = relative_box(foreground, background.transform).end;
    vector::vec_truncated(vector::vec_min(vector::vec_product(end, size), size))
}

/// The footprint of a foreground ends inside the background.
pub open spec fn footprint_is_clamped<P>(foreground: DAffine2, background: &ImageFrame<P>) -> bool {
    &&& footprint_end(foreground, background).0 <= background.image.width
    &&& footprint_end(foreground, background).1 <= background.image.height
}

/// The columns and rows from `start` up to `end` hold each pixel of the background whose cell lies
/// in the box around all four corners of the foreground, and all pixels where that box holds the
/// background. Cut to whole coordinates, they are those of the box that the background has.
pub open spec fn footprint_follows_the_corners<P>(
    foreground: DAffine2,
    background: &ImageFrame<P>,
    start: (u32, u32),
    end: (u32, u32),
) -> bool {
    let size = vector::vec_of(background.image.width, background.image.height);
    let around = bbox::unit_box(
        vector::affine_product(vector::affine_inverse(background.transform), foreground),
    );
    let low = vector::vec_product(around.start, size);
    let high = vector::vec_product(around.end, size);
    &&& forall|x: u32, y: u32|
        {
            &&& x < background.image.width
            &&& y < background.image.height
            &&& vector::vec_reaches(vector::vec_of(x, y), low)
            &&& vector::vec_reaches(high, vector::vec_of((x + 1) as u32, (y + 1) as u32))
        } ==> #[trigger] image::in_region(start, end, x, y)
    &&& vector::vec_reaches(vector::vec_of(0, 0), around.start) && vector::vec_reaches(
        around.end,
        vector::vec_of(1, 1),
    ) ==> forall|x: u32, y: u32|
        x < background.image.width && y < background.image.height ==> #[trigger] image::in_region(
            start,
            end,
            x,
            y,
        )
    &&& vector::vec_equal(high, high) ==> forall|x: u32, y: u32|
        x < background.image.width && y < background.image.height ==> (#[trigger] image::in_region(
            start,
            end,
            x,
            y,
        ) <==> {
            &&& vector::vec_truncated(low).0 <= x < vector::vec_truncated(high).0
            &&& vector::vec_truncated(low).1 <= y < vector::vec_truncated(high).1
        })
}

/// The extent of a pixel under a map from pixels to the plane.
pub open spec fn pixel_extent(grid: DAffine2) -> DVec2 {
    vector::vec_difference(
        vector::affine_point(grid, vector::vec_of(1, 1)),
        vector::affine_point(grid, vector::vec_of(0, 0)),
    )
}

/// `after` is what blending makes of the pixel `before` in column `x` and row `y`: what
/// `map_fn` gives for the foreground's pixel and `before`, or `before` where the foreground
/// has no pixel.
pub open spec fn pixel_blended<
    P,
    MapFn: Fn(P, P) -> P,
    Frame: Sample<Pixel = P>,
>(
    foreground: &Frame,
    grid: DAffine2,
    map_fn: &MapFn,
    x: u32,
    y: u32,
    before: P,
    after: P,
) -> bool {
    exists|source: Option<P>|
        {
            &&& #[trigger] frame::samples(
                foreground,
                vector::affine_point(grid, vector::vec_of(x, y)),
                pixel_extent(grid),
                source,
            )
            &&& match source {
                Some(pixel) => call_ensures(*map_fn, (pixel, before), after),
                None => after == before,
            }
        }
}

/// `after` is `before` with the foreground blended over it: each pixel in the footprint of
/// the foreground is blended, and nothing else changed.
pub open spec fn blended<
    P,
    MapFn: Fn(P, P) -> P,
    Frame: Sample<Pixel = P> + Transform,
>(
    foreground: &Frame,
    before: &ImageFrame<P>,
    map_fn: &MapFn,
    after: &ImageFrame<P>,
) -> bool {
    &&& after.transform == before.transform
    &&& after.image.same_size(&before.image)
    &&& after.image.data.len() == before.image.data.len()
    &&& forall|x: u32, y: u32|
        before.image.has(x, y) ==> if image::in_region(
            footprint_start(foreground.place(), before),
            footprint_end(foreground.place(), before),
            x,
            y,
        ) {
            pixel_blended(
                foreground,
                before.pixel_grid(),
                map_fn,
                x,
                y,
                before.image.at(x, y),
                #[trigger] after.image.at(x, y),
            )
        } else {
            after.image.at(x, y) == before.image.at(x, y)
        }
    &&& forall|i: int|
        before.image.area() <= i < before.image.data.len() ==> #[trigger] after.image.data@[i]
            == before.image.data@[i]
}

/// Blends a foreground over a background. `map_fn` is given the pixel of the foreground and
/// that of the background.
pub fn blend_image_closure<
    P: Copy,
    MapFn: Fn(P, P) -> P,
    Frame: Sample<Pixel = P> + Transform,
>(
    foreground: Frame,
    background: ImageFrame<P>,
    map_fn: MapFn,
) -> (result: ImageFrame<P>)
    requires
        forall|a: P, b: P| #[trigger] map_fn.requires((a, b)),
    ensures
        blended(&foreground, &background, &map_fn, &result),
        footprint_is_clamped(foreground.place(), &background),
        footprint_follows_the_corners(
            foreground.place(),
            &background,
            footprint_start(foreground.place(), &background),
            footprint_end(foreground.place(), &background),
        ),
{
    let mut result = background;
    let size = vector::whole(result.image.width, result.image.height);
    // Takes a pixel of the background to the plane.
    let grid = result.grid();
    // The foreground as the background sees it.
    let relative = Bbox::unit().affine_transform(
        vector::compose(result.transform.inverse(), foreground.transform()),
    ).to_axis_aligned_bbox();
    let start = vector::truncated(vector::product(relative.start, size).max(vector::whole(0, 0)));
    let end = vector::truncated(vector::product(relative.end, size).min(size));
    let extent = vector::difference(
        grid.transform_point2(vector::whole(1, 1)),
        grid.transform_point2(vector::whole(0, 0)),
    );
    let blend = |x: u32, y: u32, pixel: P| -> (after: P)
        ensures
            pixel_blended(&foreground, grid, &map_fn, x, y, pixel, after),
        {
            let source = foreground.sample(grid.transform_point2(vector::whole(x, y)), extent);
            assert(frame::samples(
                &foreground,
                vector::affine_point(grid, vector::vec_of(x, y)),
                pixel_extent(grid),
                source,
            ));
            match source {
                Some(source) => map_fn(source, pixel),
                None => pixel,
            }
        };
    proof {
        let zero = vector::vec_of(0, 0);
        let low = vector::vec_product(relative.start, size);
        let high = vector::vec_product(relative.end, size);
        assert forall|x: u32, y: u32|
            x < background.image.width && y < background.image.height && vector::vec_reaches(
                vector::vec_of(x, y),
                low,
            ) && vector::vec_reaches(
                high,
                vector::vec_of((x + 1) as u32, (y + 1) as u32),
            ) implies #[trigger] image::in_region(start, end, x, y) by {
            assert(vector::vec_reaches(vector::vec_of(x, y), zero));
            assert(vector::vec_reaches(size, vector::vec_of((x + 1) as u32, (y + 1) as u32)));
        }
        assert(vector::vec_reaches(zero, zero) && vector::vec_reaches(size, size));
        assert(footprint_follows_the_corners(foreground.place(), &background, start, end));
    }
    result.image.update_region(start, end, &blend);
    result
}

/// Blends a foreground over a background with a borrowed blend function.
pub fn blend_image<
    P: Copy,
    MapFn: Fn(P, P) -> P,
    Frame: Sample<Pixel = P> + Transform,
>(
    foreground: Frame,
    background: ImageFrame<P>,
    map_fn: &MapFn,
) -> (result: ImageFrame<P>)
    requires
        forall|a: P, b: P| #[trigger] map_fn.requires((a, b)),
    ensures
        blended(&foreground, &background, map_fn, &result),
        footprint_is_clamped(foreground.place(), &background),
        footprint_follows_the_corners(
            foreground.place(),
            &background,
            footprint_start(foreground.place(), &background),
            footprint_end(foreground.place(), &background),
        ),
{
    let eval = |a: P, b: P| -> (c: P)
        ensures
            call_ensures(*map_fn, (a, b), c),
        { map_fn(a, b) };
    let ghost before = background;
    let result = blend_image_closure(foreground, background, eval);
    proof {
        let grid = before.pixel_grid();
        assert forall|x: u32, y: u32, p: P, q: P|
            pixel_blended(&foreground, grid, &eval, x, y, p, q) implies #[trigger] pixel_blended(
            &foreground,
            grid,
            map_fn,
            x,
            y,
            p,
            q,
        ) by {
            let source = choose|source: Option<P>|
                {
                    &&& #[trigger] frame::samples(
                        &foreground,
                        vector::affine_point(grid, vector::vec_of(x, y)),
                        pixel_extent(grid),
                        source,
                    )
                    &&& match source {
                        Some(pixel) => call_ensures(eval, (pixel, p), q),
                        None => q == p,
                    }
                };
            assert(frame::samples(
                &foreground,
                vector::affine_point(grid, vector::vec_of(x, y)),
                pixel_extent(grid),
                source,
            ));
        }
    }
    result
}

/// How a foreground is put together with a background of another extent.
#[derive(Debug, Clone, Copy, PartialEq, Eq)]
pub enum BlendPlan {
    /// Neither takes up any room.
    Nothing,
    /// The background has room for the foreground.
    Within,
    /// Both go on a new canvas, from the whole coordinates `start` to `end` of the plane.
    Canvas { start: (u32, u32), end: (u32, u32) },
}

impl BlendPlan {
    /// A new canvas does not end before it starts, and its pixels can be counted.
    pub open spec fn fits(self) -> bool {
        match self {
            BlendPlan::Canvas { start, end } => {
                &&& start.0 <= end.0
                &&& start.1 <= end.1
                &&& (end.0 - start.0) * (end.1 - start.1) <= usize::MAX
            },
            _ => true,
        }
    }

    /// The pixels of a new canvas can be counted.
    pub open spec fn is_countable(self) -> bool {
        match self {
            BlendPlan::Canvas { start, end } => (end.0 - start.0) * (end.1 - start.1) <= usize::MAX,
            _ => true,
        }
    }

    /// Computes [`BlendPlan::fits`].
    pub fn is_feasible(&self) -> (r: bool)
        ensures
            r == self.fits(),
    {
        match self {
            BlendPlan::Canvas { start, end } => start.0 <= end.0 && start.1 <= end.1
                && image::countable(end.0 - start.0, end.1 - start.1),
            _ => true,
        }
    }
}

/// The plan for a foreground and a background at the given places.
pub open spec fn blend_plan(foreground: DAffine2, background: DAffine2) -> BlendPlan {
    let foreground_box = bbox::unit_box(foreground);
    let background_box = bbox::unit_box(background);
    match foreground_box.joined(background_box) {
        None => BlendPlan::Nothing,
        Some(all) => if background_box.encloses(foreground_box) {
            BlendPlan::Within
        } else {
            BlendPlan::Canvas {
                start: vector::vec_truncated(all.start),
                end: vector::vec_truncated(all.end),
            }
        },
    }
}

/// Between `start` and `end` lie the images of all corners of the unit square, cut to whole
/// coordinates.
pub open spec fn canvas_holds(start: (u32, u32), end: (u32, u32), transform: DAffine2) -> bool {
    forall|c: DVec2|
        bbox::is_corner(c) ==> {
            let (x, y) = vector::vec_truncated(#[trigger] vector::affine_point(transform, c));
            &&& start.0 <= x <= end.0
            &&& start.1 <= y <= end.1
        }
}

/// Nothing is made of a foreground and a background that are both points, and only of these. The
/// background is kept if and only if the box around it holds every corner of the foreground. Else
/// there is a canvas that holds the corners of both, but for those of a point, and has a corner at
/// each of its four sides.
pub open spec fn leaves_nothing_out(
    foreground: DAffine2,
    background: DAffine2,
    plan: BlendPlan,
) -> bool {
    let around = bbox::unit_box(background);
    &&& bbox::is_finite_point(foreground) && bbox::is_finite_point(background) ==> plan is Nothing
    &&& match plan {
        BlendPlan::Nothing => bbox::is_flat(foreground) && bbox::is_flat(background),
        BlendPlan::Within => bbox::corners_lie_between(foreground, around.start, around.end),
        BlendPlan::Canvas { start, end } => {
            &&& !bbox::corners_lie_between(foreground, around.start, around.end)
            &&& bbox::is_flat(foreground) || canvas_holds(start, end, foreground)
            &&& bbox::is_flat(background) || canvas_holds(start, end, background)
            &&& bbox::corner_in_column(foreground, start.0) || bbox::corner_in_column(
                background,
                start.0,
            )
            &&& bbox::corner_in_row(foreground, start.1) || bbox::corner_in_row(background, start.1)
            &&& bbox::corner_in_column(foreground, end.0) || bbox::corner_in_column(
                background,
                end.0,
            )
            &&& bbox::corner_in_row(foreground, end.1) || bbox::corner_in_row(background, end.1)
        },
    }
}

/// Decides how to put a foreground together with a background. A new canvas never ends before
/// it starts: whether the plan can be carried out is a matter of the pixels' number alone.
pub fn plan_blend(foreground: DAffine2, background: DAffine2) -> (plan: BlendPlan)
    ensures
        plan == blend_plan(foreground, background),
        plan matches BlendPlan::Canvas { start, end } ==> start.0 <= end.0 && start.1 <= end.1,
        bbox::has_numeric_corners(foreground) && bbox::has_numeric_corners(background)
            ==> leaves_nothing_out(foreground, background, plan),
{
    let foreground_aabb = Bbox::unit().affine_transform(foreground).to_axis_aligned_bbox();
    let background_aabb = Bbox::unit().affine_transform(background).to_axis_aligned_bbox();
    proof {
        bbox::lemma_corners(foreground);
        bbox::lemma_corners(background);
        bbox::lemma_point(foreground, foreground_aabb);
        bbox::lemma_point(background, background_aabb);
    }
    match foreground_aabb.union_non_empty(&background_aabb) {
        None => BlendPlan::Nothing,
        Some(aabb) => if background_aabb.contains(foreground_aabb.start)
            && background_aabb.contains(foreground_aabb.end) {
            BlendPlan::Within
        } else {
            let start = vector::truncated(aabb.start);
            let end = vector::truncated(aabb.end);
            BlendPlan::Canvas { start, end }
        },
    }
}

/// `frame` has one transparent pixel for each unit square from `start` to `end`, and lies
/// there.
pub open spec fn is_canvas<P: Alpha>(
    frame: &ImageFrame<P>,
    start: (u32, u32),
    end: (u32, u32),
) -> bool {
    &&& frame.image.width == end.0 - start.0
    &&& frame.image.height == end.1 - start.1
    &&& frame.image.wf()
    &&& forall|i: int|
        0 <= i < frame.image.data.len() ==> #[trigger] frame.image.data@[i] == P::TRANSPARENT
    &&& frame.transform == vector::affine_scale_shift(
        vector::vec_of(frame.image.width, frame.image.height),
        vector::vec_of(start.0, start.1),
    )
}

/// `after` is what a plan makes of a foreground and a background.
pub open spec fn blended_by_plan<
    P: Copy + Alpha,
    MapFn: Fn(P, P) -> P,
    Frame: Sample<Pixel = P> + Transform,
>(
    plan: BlendPlan,
    foreground: &Frame,
    background: &ImageFrame<P>,
    map_fn: &MapFn,
    after: &ImageFrame<P>,
) -> bool {
    match plan {
        BlendPlan::Nothing => after.is_empty(),
        BlendPlan::Within => blended(foreground, background, map_fn, after),
        BlendPlan::Canvas { start, end } => exists|canvas: ImageFrame<P>, lower: ImageFrame<P>|
            {
                &&& is_canvas(&canvas, start, end)
                &&& #[trigger] blended(background, &canvas, map_fn, &lower)
                &&& blended(foreground, &lower, map_fn, after)
            },
    }
}

/// `after` is `before` with the foreground blended over it, on all pixels that it covers.
pub open spec fn blended_in_full<
    P,
    MapFn: Fn(P, P) -> P,
    Frame: Sample<Pixel = P> + Transform,
>(
    foreground: &Frame,
    before: &ImageFrame<P>,
    map_fn: &MapFn,
    after: &ImageFrame<P>,
) -> bool {
    &&& blended(foreground, before, map_fn, after)
    &&& footprint_follows_the_corners(
        foreground.place(),
        before,
        footprint_start(foreground.place(), before),
        footprint_end(foreground.place(), before),
    )
}

/// `after` is a new canvas from `start` to `end` with the background laid on it, and the
/// foreground on both.
pub open spec fn layered<
    P: Copy + Alpha,
    MapFn: Fn(P, P) -> P,
    Frame: Sample<Pixel = P> + Transform,
>(
    start: (u32, u32),
    end: (u32, u32),
    foreground: &Frame,
    background: &ImageFrame<P>,
    map_fn: &MapFn,
    after: &ImageFrame<P>,
) -> bool {
    exists|canvas: ImageFrame<P>, lower: ImageFrame<P>|
        {
            &&& canvas.image.width == end.0 - start.0
            &&& canvas.image.height == end.1 - start.1
            &&& canvas.image.wf()
            &&& forall|i: int|
                0 <= i < canvas.image.data.len() ==> #[trigger] canvas.image.data@[i]
                    == P::TRANSPARENT
            &&& canvas.transform == vector::affine_scale_shift(
                vector::vec_of(canvas.image.width, canvas.image.height),
                vector::vec_of(start.0, start.1),
            )
            &&& #[trigger] blended_in_full(background, &canvas, map_fn, &lower)
            &&& blended_in_full(foreground, &lower, map_fn, after)
        }
}

/// A background whose box holds every corner of the foreground keeps its size and place. Where a
/// corner sticks out, the frame is a canvas that holds, cut to whole coordinates, the corners of
/// both, with the background under the foreground. Only of two points nothing is made.
pub open spec fn nothing_is_cut_off<
    P: Copy + Alpha,
    MapFn: Fn(P, P) -> P,
    Frame: Sample<Pixel = P> + Transform,
>(
    foreground: &Frame,
    background: &ImageFrame<P>,
    map_fn: &MapFn,
    after: &ImageFrame<P>,
) -> bool {
    let around = bbox::unit_box(background.transform);
    bbox::has_numeric_corners(foreground.place()) && bbox::has_numeric_corners(
        background.transform,
    ) ==> {
        ||| {
            &&& bbox::is_flat(foreground.place()) && bbox::is_flat(background.transform)
            &&& after.is_empty()
        }
        ||| {
            &&& bbox::corners_lie_between(foreground.place(), around.start, around.end)
            &&& blended_in_full(foreground, background, map_fn, after)
        }
        ||| {
            &&& !bbox::corners_lie_between(foreground.place(), around.start, around.end)
            &&& exists|start: (u32, u32), end: (u32, u32)|
                {
                    &&& #[trigger] layered(start, end, foreground, background, map_fn, after)
                    &&& bbox::is_flat(foreground.place()) || canvas_holds(
                        start,
                        end,
                        foreground.place(),
                    )
                    &&& bbox::is_flat(background.transform) || canvas_holds(
                        start,
                        end,
                        background.transform,
                    )
                }
        }
    }
}

/// Puts a foreground together with a background as the plan says.
pub fn blend_by_plan<
    P: Copy + Alpha,
    MapFn: Fn(P, P) -> P,
    Frame: Sample<Pixel = P> + Transform,
>(
    plan: BlendPlan,
    foreground: Frame,
    background: ImageFrame<P>,
    map_fn: &MapFn,
) -> (result: ImageFrame<P>)
    requires
        plan.fits(),
        forall|a: P, b: P| #[trigger] map_fn.requires((a, b)),
    ensures
        blended_by_plan(plan, &foreground, &background, map_fn, &result),
        plan is Within ==> blended_in_full(&foreground, &background, map_fn, &result),
        plan matches BlendPlan::Canvas { start, end } ==> layered(
            start,
            end,
            &foreground,
            &background,
            map_fn,
            &result,
        ),
{
    match plan {
        BlendPlan::Nothing => ImageFrame::empty(),
        BlendPlan::Within => blend_image(foreground, background, map_fn),
        BlendPlan::Canvas { start, end } => {
            let image = Image::new(end.0 - start.0, end.1 - start.1, P::TRANSPARENT);
            let size = vector::whole(image.width, image.height);
            let transform = vector::scale_shift(size, vector::whole(start.0, start.1));
            let canvas = ImageFrame { image, transform };
            let ghost blank = canvas;
            let lower = blend_image(background, canvas, map_fn);
            let result = blend_image(foreground, lower, map_fn);
            assert(is_canvas(&blank, start, end));
            assert(blended(&background, &blank, map_fn, &lower));
            assert(blended_in_full(&background, &blank, map_fn, &lower));
            assert(blended_in_full(&foreground, &lower, map_fn, &result));
            result
        },
    }
}

/// Blends a foreground over a background that grows where the foreground does not fit in it.
pub fn blend_new_image<
    P: Copy + Alpha,
    MapFn: Fn(P, P) -> P,
    Frame: Sample<Pixel = P> + Transform,
>(
    foreground: Frame,
    background: ImageFrame<P>,
    map_fn: &MapFn,
) -> (result: ImageFrame<P>)
    requires
        blend_plan(foreground.place(), background.transform).is_countable(),
        forall|a: P, b: P| #[trigger] map_fn.requires((a, b)),
    ensures
        blended_by_plan(
            blend_plan(foreground.place(), background.transform),
            &foreground,
            &background,
            map_fn,
            &result,
        ),
        nothing_is_cut_off(&foreground, &background, map_fn, &result),
{
    let plan = plan_blend(foreground.transform(), background.transform);
    blend_by_plan(plan, foreground, background, map_fn)
}

/// Blends the second image of a pair over the first.
#[derive(Debug)]
pub struct BlendImageTupleNode<P, Fg, MapFn> {
    pub map_fn: MapFn,
    pub _p: PhantomData<P>,
    pub _fg: PhantomData<Fg>,
}

impl<P, Fg, MapFn: Clone> Clone for BlendImageTupleNode<P, Fg, MapFn> {
    fn clone(&self) -> (node: Self)
        ensures
            cloned(self.map_fn, node.map_fn),
    {
        BlendImageTupleNode { map_fn: self.map_fn.clone(), _p: PhantomData, _fg: PhantomData }
    }
}

impl<P: Copy, Fg: Copy, MapFn: Copy> Copy for BlendImageTupleNode<P, Fg, MapFn> {

}

impl<P: Copy, Fg: Sample<Pixel = P> + Transform, MapFn: Fn(P, P) -> P> BlendImageTupleNode<
    P,
    Fg,
    MapFn,
> {
    pub fn new(map_fn: MapFn) -> (node: Self)
        ensures
            node.map_fn == map_fn,
    {
        BlendImageTupleNode { map_fn, _p: PhantomData, _fg: PhantomData }
    }

    pub fn eval(&self, images: (ImageFrame<P>, Fg)) -> (result: ImageFrame<P>)
        requires
            forall|a: P, b: P| #[trigger] self.map_fn.requires((a, b)),
        ensures
            blended(&images.1, &images.0, &self.map_fn, &result),
            blended_in_full(&images.1, &images.0, &self.map_fn, &result),
    {
        let (background, foreground) = images;
        blend_image(foreground, background, &self.map_fn)
    }
}

/// Blends an image over a given background, which grows where it has to.
#[derive(Debug)]
pub struct BlendImageNode<P, Background, MapFn> {
    pub background: Background,
    pub map_fn: MapFn,
    pub _p: PhantomData<P>,
}

impl<P, Background: Clone, MapFn: Clone> Clone for BlendImageNode<P, Background, MapFn> {
    fn clone(&self) -> (node: Self)
        ensures
            cloned(self.background, node.background),
            cloned(self.map_fn, node.map_fn),
    {
        BlendImageNode {
            background: self.background.clone(),
            map_fn: self.map_fn.clone(),
            _p: PhantomData,
        }
    }
}

impl<P: Copy, Background: Copy, MapFn: Copy> Copy for BlendImageNode<P, Background, MapFn> {

}

impl<P: Copy + Alpha, MapFn: Fn(P, P) -> P> BlendImageNode<P, ImageFrame<P>, MapFn> {
    pub fn new(background: ImageFrame<P>, map_fn: MapFn) -> (node: Self)
        ensures
            node.background == background,
            node.map_fn == map_fn,
    {
        BlendImageNode { background, map_fn, _p: PhantomData }
    }

    pub fn eval<Foreground: Sample<Pixel = P> + Transform>(self, foreground: Foreground) -> (result:
        ImageFrame<P>)
        requires
            blend_plan(foreground.place(), self.background.transform).is_countable(),
            forall|a: P, b: P| #[trigger] self.map_fn.requires((a, b)),
        ensures
            blended_by_plan(
                blend_plan(foreground.place(), self.background.transform),
                &foreground,
                &self.background,
                &self.map_fn,
                &result,
            ),
            nothing_is_cut_off(&foreground, &self.background, &self.map_fn, &result),
    {
        let BlendImageNode { background, map_fn, _p } = self;
        blend_new_image(foreground, background, &map_fn)
    }

    /// [`BlendImageNode::eval`], or nothing where the canvas would be too large.
    pub fn checked_eval<Foreground: Sample<Pixel = P> + Transform>(
        self,
        foreground: Foreground,
    ) -> (result: Option<ImageFrame<P>>)
        requires
            forall|a: P, b: P| #[trigger] self.map_fn.requires((a, b)),
        ensures
            result is Some <==> blend_plan(foreground.place(), self.background.transform).is_countable(),
            result matches Some(blend) ==> blended_by_plan(
                blend_plan(foreground.place(), self.background.transform),
                &foreground,
                &self.background,
                &self.map_fn,
                &blend,
            ),
            result matches Some(blend) ==> nothing_is_cut_off(
                &foreground,
                &self.background,
                &self.map_fn,
                &blend,
            ),
    {
        if plan_blend(foreground.transform(), self.background.transform).is_feasible() {
            Some(self.eval(foreground))
        } else {
            None
        }
    }
}

/// Blends a given image over another, which grows where it has to.
#[derive(Debug)]
pub struct BlendReverseImageNode<P, Background, MapFn> {
    pub background: Background,
    pub map_fn: MapFn,
    pub _p: PhantomData<P>,
}

impl<P, Background: Clone, MapFn: Clone> Clone for BlendReverseImageNode<P, Background, MapFn> {
    fn clone(&self) -> (node: Self)
        ensures
            cloned(self.background, node.background),
            cloned(self.map_fn, node.map_fn),
    {
        BlendReverseImageNode {
            background: self.background.clone(),
            map_fn: self.map_fn.clone(),
            _p: PhantomData,
        }
    }
}

impl<P: Copy, Background: Copy, MapFn: Copy> Copy for BlendReverseImageNode<P, Background, MapFn> {

}

impl<
    P: Copy + Alpha,
    Background: Sample<Pixel = P> + Transform,
    MapFn: Fn(P, P) -> P,
> BlendReverseImageNode<P, Background, MapFn> {
    pub fn new(background: Background, map_fn: MapFn) -> (node: Self)
        ensures
            node.background == background,
            node.map_fn == map_fn,
    {
        BlendReverseImageNode { background, map_fn, _p: PhantomData }
    }

    pub fn eval(self, foreground: ImageFrame<P>) -> (result: ImageFrame<P>)
        requires
            blend_plan(self.background.place(), foreground.transform).is_countable(),
            forall|a: P, b: P| #[trigger] self.map_fn.requires((a, b)),
        ensures
            blended_by_plan(
                blend_plan(self.background.place(), foreground.transform),
                &self.background,
                &foreground,
                &self.map_fn,
                &result,
            ),
            nothing_is_cut_off(&self.background, &foreground, &self.map_fn, &result),
    {
        let BlendReverseImageNode { background, map_fn, _p } = self;
        blend_new_image(background, foreground, &map_fn)
    }

    /// [`BlendReverseImageNode::eval`], or nothing where the canvas would be too large.
    pub fn checked_eval(self, foreground: ImageFrame<P>) -> (result: Option<ImageFrame<P>>)
        requires
            forall|a: P, b: P| #[trigger] self.map_fn.requires((a, b)),
        ensures
            result is Some <==> blend_plan(self.background.place(), foreground.transform).is_countable(),
            result matches Some(blend) ==> blended_by_plan(
                blend_plan(self.background.place(), foreground.transform),
                &self.background,
                &foreground,
                &self.map_fn,
                &blend,
            ),
            result matches Some(blend) ==> nothing_is_cut_off(
                &self.background,
                &foreground,
                &self.map_fn,
                &blend,
            ),
    {
        if plan_blend(self.background.transform(), foreground.transform).is_feasible() {
            Some(self.eval(foreground))
        } else {
            None
        }
    }
}

/// In coordinates in which a background of the given size is the unit square, the box around all
/// four corners of the foreground holds the cell of a pixel, or the whole background. Or the pixel
/// is one of those of the box when this is cut to whole coordinates.
pub open spec fn is_covered(
    foreground: DAffine2,
    background: DAffine2,
    width: u32,
    height: u32,
    x: u32,
    y: u32,
) -> bool {
    let size = vector::vec_of(width, height);
    let around = bbox::unit_box(
        vector::affine_product(vector::affine_inverse(background), foreground),
    );
    ||| {
        &&& vector::vec_reaches(vector::vec_of(0, 0), around.start)
        &&& vector::vec_reaches(around.end, vector::vec_of(1, 1))
    }
    ||| {
        &&& vector::vec_reaches(vector::vec_of(x, y), vector::vec_product(around.start, size))
        &&& vector::vec_reaches(
            vector::vec_product(around.end, size),
            vector::vec_of((x + 1) as u32, (y + 1) as u32),
        )
    }
    ||| {
        let (first_column, first_row) = vector::vec_truncated(
            vector::vec_product(around.start, size),
        );
        let (columns, rows) = vector::vec_truncated(vector::vec_product(around.end, size));
        &&& vector::vec_equal(
            vector::vec_product(around.end, size),
            vector::vec_product(around.end, size),
        )
        &&& first_column <= x < columns
        &&& first_row <= y < rows
    }
}

/// The coordinates of the box around the foreground tell whether it covers a pixel: the larger ones
/// are not NaN, or the box covers the pixel all the same.
pub open spec fn is_covered_or_beside(
    foreground: DAffine2,
    background: DAffine2,
    width: u32,
    height: u32,
    x: u32,
    y: u32,
) -> bool {
    let around = bbox::unit_box(
        vector::affine_product(vector::affine_inverse(background), foreground),
    );
    let high = vector::vec_product(around.end, vector::vec_of(width, height));
    vector::vec_equal(high, high) || is_covered(foreground, background, width, height, x, y)
}

/// A pixel of the background whose cell lies in the box around all four corners of the foreground
/// is blended with what the foreground has at the pixel's corner in the plane, however the
/// foreground is turned; so is every pixel where that box holds the whole background.
pub proof fn covered_pixel_is_blended<
    P: Copy,
    MapFn: Fn(P, P) -> P,
    Frame: Sample<Pixel = P> + Transform,
>(
    foreground: Frame,
    background: ImageFrame<P>,
    map_fn: MapFn,
    result: ImageFrame<P>,
    x: u32,
    y: u32,
)
    requires
        forall|a: P, b: P| #[trigger] map_fn.requires((a, b)),
        call_ensures(
            blend_image_closure::<P, MapFn, Frame>,
            (foreground, background, map_fn),
            result,
        ),
        background.image.has(x, y),
        is_covered(
            foreground.place(),
            background.transform,
            background.image.width,
            background.image.height,
            x,
            y,
        ),
    ensures
        ({
            let grid = vector::affine_product(
                background.transform,
                vector::affine_scale(
                    vector::vec_quotient(
                        vector::vec_of(1, 1),
                        vector::vec_of(background.image.width, background.image.height),
                    ),
                ),
            );
            exists|source: Option<P>|
                {
                    &&& #[trigger] frame::samples(
                        &foreground,
                        vector::affine_point(grid, vector::vec_of(x, y)),
                        vector::vec_difference(
                            vector::affine_point(grid, vector::vec_of(1, 1)),
                            vector::affine_point(grid, vector::vec_of(0, 0)),
                        ),
                        source,
                    )
                    &&& match source {
                        Some(pixel) => call_ensures(
                            map_fn,
                            (pixel, background.image.at(x, y)),
                            result.image.at(x, y),
                        ),
                        None => result.image.at(x, y) == background.image.at(x, y),
                    }
                }
        }),
{
    assert(blended(&foreground, &background, &map_fn, &result));
    let start = footprint_start(foreground.place(), &background);
    let end = footprint_end(foreground.place(), &background);
    assert(footprint_follows_the_corners(foreground.place(), &background, start, end));
    assert(image::in_region(start, end, x, y));
    assert(pixel_blended(
        &foreground,
        background.pixel_grid(),
        &map_fn,
        x,
        y,
        background.image.at(x, y),
        result.image.at(x, y),
    ));
}

/// Where the corner of a covered pixel of the background is, in exact coordinates, the corner of a
/// pixel of the foreground, the one is blended with the other.
pub proof fn pixel_is_blended_with_the_pixel_on_it<P: Copy, MapFn: Fn(P, P) -> P>(
    foreground: ImageFrame<P>,
    background: ImageFrame<P>,
    map_fn: MapFn,
    result: ImageFrame<P>,
    x: u32,
    y: u32,
    i: u32,
    j: u32,
)
    requires
        forall|a: P, b: P| #[trigger] map_fn.requires((a, b)),
        call_ensures(
            blend_image_closure::<P, MapFn, ImageFrame<P>>,
            (foreground, background, map_fn),
            result,
        ),
        background.image.has(x, y),
        is_covered(
            foreground.transform,
            background.transform,
            background.image.width,
            background.image.height,
            x,
            y,
        ),
        frame::is_exact_at(
            background.transform,
            background.image.width,
            background.image.height,
            x,
            y,
        ),
        foreground.image.has(i, j),
        frame::is_exact_at(
            foreground.transform,
            foreground.image.width,
            foreground.image.height,
            i,
            j,
        ),
        frame::pixel_corner(
            background.transform,
            background.image.width,
            background.image.height,
            x,
            y,
        ) == frame::pixel_corner(
            foreground.transform,
            foreground.image.width,
            foreground.image.height,
            i,
            j,
        ),
    ensures
        call_ensures(
            map_fn,
            (foreground.image.at(i, j), background.image.at(x, y)),
            result.image.at(x, y),
        ),
{
    covered_pixel_is_blended(foreground, background, map_fn, result, x, y);
}

/// A pixel of the background that lies before the box around the corners of the foreground, or
/// beyond it, stays as it is.
pub proof fn pixel_beside_the_foreground_is_kept<
    P: Copy,
    MapFn: Fn(P, P) -> P,
    Frame: Sample<Pixel = P> + Transform,
>(
    foreground: Frame,
    background: ImageFrame<P>,
    map_fn: MapFn,
    result: ImageFrame<P>,
    x: u32,
    y: u32,
)
    requires
        forall|a: P, b: P| #[trigger] map_fn.requires((a, b)),
        call_ensures(
            blend_image_closure::<P, MapFn, Frame>,
            (foreground, background, map_fn),
            result,
        ),
        background.image.has(x, y),
        ({
            let size = vector::vec_of(background.image.width, background.image.height);
            let around = bbox::unit_box(
                vector::affine_product(
                    vector::affine_inverse(background.transform),
                    foreground.place(),
                ),
            );
            let low = vector::vec_product(around.start, size);
            let high = vector::vec_product(around.end, size);
            &&& vector::vec_equal(high, high)
            &&& {
                ||| x < vector::vec_truncated(low).0
                ||| y < vector::vec_truncated(low).1
                ||| x >= vector::vec_truncated(high).0
                ||| y >= vector::vec_truncated(high).1
            }
        }),
    ensures
        result.image.at(x, y) == background.image.at(x, y),
{
    assert(blended(&foreground, &background, &map_fn, &result));
    let start = footprint_start(foreground.place(), &background);
    let end = footprint_end(foreground.place(), &background);
    assert(footprint_follows_the_corners(foreground.place(), &background, start, end));
    assert(!image::in_region(start, end, x, y));
}

/// Unless foreground and background are both points, a background whose box holds every corner of
/// the foreground keeps its size, and no other does: where a corner sticks out, a canvas holds, cut
/// to whole coordinates, all corners of both, and has one at each side. Coordinates may be any but
/// NaN.
pub proof fn plan_leaves_nothing_out(
    foreground: DAffine2,
    background: DAffine2,
    plan: BlendPlan,
    c: DVec2,
)
    requires
        bbox::has_numeric_corners(foreground),
        bbox::has_numeric_corners(background),
        call_ensures(plan_blend, (foreground, background), plan),
        bbox::is_corner(c),
    ensures
        ({
            let around = bbox::unit_box(background);
            let over = vector::affine_point(foreground, c);
            let under = vector::affine_point(background, c);
            &&& plan is Nothing ==> bbox::is_flat(foreground) && bbox::is_flat(background)
            &&& bbox::is_finite_point(foreground) && bbox::is_finite_point(background)
                ==> plan is Nothing
            &&& plan is Within ==> vector::vec_reaches(over, around.start) && vector::vec_reaches(
                around.end,
                over,
            )
            &&& bbox::corners_lie_between(foreground, around.start, around.end) ==> plan is Within
                || plan is Nothing
            &&& plan matches BlendPlan::Canvas { start, end } ==> {
                &&& bbox::is_flat(foreground) || {
                    &&& start.0 <= vector::vec_truncated(over).0 <= end.0
                    &&& start.1 <= vector::vec_truncated(over).1 <= end.1
                }
                &&& bbox::is_flat(background) || {
                    &&& start.0 <= vector::vec_truncated(under).0 <= end.0
                    &&& start.1 <= vector::vec_truncated(under).1 <= end.1
                }
                &&& bbox::corner_in_column(foreground, start.0) || bbox::corner_in_column(
                    background,
                    start.0,
                )
                &&& bbox::corner_in_row(foreground, start.1) || bbox::corner_in_row(
                    background,
                    start.1,
                )
                &&& bbox::corner_in_column(foreground, end.0) || bbox::corner_in_column(
                    background,
                    end.0,
                )
                &&& bbox::corner_in_row(foreground, end.1) || bbox::corner_in_row(
                    background,
                    end.1,
                )
            }
        }),
{
    assert(leaves_nothing_out(foreground, background, plan));
}

/// A foreground blended over a background that may grow: the size and place of the background are
/// kept if and only if the box around it holds every corner of the foreground. Otherwise the frame
/// is a canvas that holds, cut to whole coordinates, all corners of both.
pub proof fn foreground_is_not_cut_off<
    P: Copy + Alpha,
    MapFn: Fn(P, P) -> P,
    Frame: Sample<Pixel = P> + Transform,
>(
    foreground: Frame,
    background: ImageFrame<P>,
    map_fn: &MapFn,
    result: ImageFrame<P>,
    c: DVec2,
)
    requires
        call_ensures(
            blend_new_image::<P, MapFn, Frame>,
            (foreground, background, map_fn),
            result,
        ),
        blend_plan(foreground.place(), background.transform).is_countable(),
        forall|a: P, b: P| #[trigger] map_fn.requires((a, b)),
        bbox::has_numeric_corners(foreground.place()),
        bbox::has_numeric_corners(background.transform),
        !bbox::is_flat(foreground.place()),
        !bbox::is_flat(background.transform),
        bbox::is_corner(c),
    ensures
        ({
            let around = bbox::unit_box(background.transform);
            let over = vector::affine_point(foreground.place(), c);
            let under = vector::affine_point(background.transform, c);
            if bbox::corners_lie_between(foreground.place(), around.start, around.end) {
                &&& result.transform == background.transform
                &&& result.image.same_size(&background.image)
            } else {
                exists|start: (u32, u32), end: (u32, u32)|
                    {
                        &&& #[trigger] layered(
                            start,
                            end,
                            &foreground,
                            &background,
                            map_fn,
                            &result,
                        )
                        &&& result.image.width == end.0 - start.0
                        &&& result.image.height == end.1 - start.1
                        &&& result.transform == vector::affine_scale_shift(
                            vector::vec_of(result.image.width, result.image.height),
                            vector::vec_of(start.0, start.1),
                        )
                        &&& start.0 <= vector::vec_truncated(over).0 <= end.0
                        &&& start.1 <= vector::vec_truncated(over).1 <= end.1
                        &&& start.0 <= vector::vec_truncated(under).0 <= end.0
                        &&& start.1 <= vector::vec_truncated(under).1 <= end.1
                    }
            }
        }),
{
    assert(nothing_is_cut_off(&foreground, &background, map_fn, &result));
}

/// On a canvas, a pixel that both cover is what the foreground has at the pixel's corner, blended
/// over what the background has there, blended over a transparent pixel. Where one of them lies
/// beside the pixel, it is left out.
pub proof fn foreground_lies_over_the_background<
    P: Copy + Alpha,
    MapFn: Fn(P, P) -> P,
    Frame: Sample<Pixel = P> + Transform,
>(
    start: (u32, u32),
    end: (u32, u32),
    foreground: &Frame,
    background: &ImageFrame<P>,
    map_fn: &MapFn,
    after: &ImageFrame<P>,
    x: u32,
    y: u32,
) -> (between: P)
    requires
        layered(start, end, foreground, background, map_fn, after),
        after.image.has(x, y),
        is_covered_or_beside(
            foreground.place(),
            after.transform,
            after.image.width,
            after.image.height,
            x,
            y,
        ),
        is_covered_or_beside(
            background.transform,
            after.transform,
            after.image.width,
            after.image.height,
            x,
            y,
        ),
    ensures
        ({
            let grid = vector::affine_product(
                after.transform,
                vector::affine_scale(
                    vector::vec_quotient(
                        vector::vec_of(1, 1),
                        vector::vec_of(after.image.width, after.image.height),
                    ),
                ),
            );
            let point = vector::affine_point(grid, vector::vec_of(x, y));
            let area = vector::vec_difference(
                vector::affine_point(grid, vector::vec_of(1, 1)),
                vector::affine_point(grid, vector::vec_of(0, 0)),
            );
            &&& if is_covered(
                background.transform,
                after.transform,
                after.image.width,
                after.image.height,
                x,
                y,
            ) {
                exists|source: Option<P>|
                    {
                        &&& #[trigger] frame::samples(background, point, area, source)
                        &&& match source {
                            Some(pixel) => call_ensures(*map_fn, (pixel, P::TRANSPARENT), between),
                            None => between == P::TRANSPARENT,
                        }
                    }
            } else {
                between == P::TRANSPARENT
            }
            &&& if is_covered(
                foreground.place(),
                after.transform,
                after.image.width,
                after.image.height,
                x,
                y,
            ) {
                exists|source: Option<P>|
                    {
                        &&& #[trigger] frame::samples(foreground, point, area, source)
                        &&& match source {
                            Some(pixel) => call_ensures(
                                *map_fn,
                                (pixel, between),
                                after.image.at(x, y),
                            ),
                            None => after.image.at(x, y) == between,
                        }
                    }
            } else {
                after.image.at(x, y) == between
            }
        }),
{
    let (canvas, lower) = choose|canvas: ImageFrame<P>, lower: ImageFrame<P>|
        {
            &&& canvas.image.width == end.0 - start.0
            &&& canvas.image.height == end.1 - start.1
            &&& canvas.image.wf()
            &&& forall|i: int|
                0 <= i < canvas.image.data.len() ==> #[trigger] canvas.image.data@[i]
                    == P::TRANSPARENT
            &&& canvas.transform == vector::affine_scale_shift(
                vector::vec_of(canvas.image.width, canvas.image.height),
                vector::vec_of(start.0, start.1),
            )
            &&& #[trigger] blended_in_full(background, &canvas, map_fn, &lower)
            &&& blended_in_full(foreground, &lower, map_fn, after)
        };
    image::filled_image_has_every_pixel(&canvas.image, x, y);
    assert(canvas.image.at(x, y) == P::TRANSPARENT) by {
        image::lemma_pixel_index(canvas.image.width, canvas.image.height, x, y);
    }
    let between = lower.image.at(x, y);
    assert(image::in_region(
        footprint_start(background.transform, &canvas),
        footprint_end(background.transform, &canvas),
        x,
        y,
    ) == is_covered(
        background.transform,
        canvas.transform,
        canvas.image.width,
        canvas.image.height,
        x,
        y,
    ));
    assert(image::in_region(
        footprint_start(foreground.place(), &lower),
        footprint_end(foreground.place(), &lower),
        x,
        y,
    ) == is_covered(
        foreground.place(),
        lower.transform,
        lower.image.width,
        lower.image.height,
        x,
        y,
    ));
    if is_covered(
        foreground.place(),
        lower.transform,
        lower.image.width,
        lower.image.height,
        x,
        y,
    ) {
        assert(pixel_blended(
            foreground,
            lower.pixel_grid(),
            map_fn,
            x,
            y,
            between,
            after.image.at(x, y),
        ));
    }
    between
}

/// Where a foreground has no pixels, blending it changes nothing.
pub proof fn absent_foreground_changes_nothing<
    P,
    MapFn: Fn(P, P) -> P,
    Frame: Sample<Pixel = P> + Transform,
>(foreground: &Frame, before: &ImageFrame<P>, map_fn: &MapFn, after: &ImageFrame<P>)
    requires
        blended(foreground, before, map_fn, after),
        forall|pos: DVec2, area: DVec2, pixel: Option<P>| #[trigger]
            frame::samples(foreground, pos, area, pixel) ==> pixel is None,
    ensures
        after.transform == before.transform,
        after.image.same_as(&before.image),
{
    assert forall|i: int| 0 <= i < before.image.data.len() implies after.image.data@[i]
        == before.image.data@[i] by {
        if i < before.image.area() {
            let (x, y) = image::lemma_pixel_coordinates(
                before.image.width,
                before.image.height,
                i,
            );
            assert(before.image.has(x, y));
            assert(after.image.at(x, y) == before.image.at(x, y));
        }
    }
    assert(after.image.data@ =~= before.image.data@);
}

/// Blending an image without pixels over another leaves the other as it is.
pub proof fn empty_image_blends_to_nothing<P: Copy, MapFn: Fn(P, P) -> P>(
    foreground: &ImageFrame<P>,
    before: &ImageFrame<P>,
    map_fn: &MapFn,
    after: &ImageFrame<P>,
)
    requires
        foreground.image.width == 0 || foreground.image.height == 0,
        blended(foreground, before, map_fn, after),
    ensures
        after.transform == before.transform,
        after.image.same_as(&before.image),
{
    assert forall|pos: DVec2, area: DVec2, pixel: Option<P>| #[trigger]
        frame::samples(foreground, pos, area, pixel) implies pixel is None by {
        frame::empty_frame_has_no_pixels(foreground, pos, area, pixel);
    }
    absent_foreground_changes_nothing(foreground, before, map_fn, after);
}

/// Blending keeps the place and the size of an image, and all its pixels stay stored.
pub proof fn blending_keeps_the_shape<
    P,
    MapFn: Fn(P, P) -> P,
    Frame: Sample<Pixel = P> + Transform,
>(foreground: &Frame, before: &ImageFrame<P>, map_fn: &MapFn, after: &ImageFrame<P>)
    requires
        blended(foreground, before, map_fn, after),
    ensures
        after.transform == before.transform,
        after.image.same_size(&before.image),
        after.image.wf() == before.image.wf(),
        after.image.filled() == before.image.filled(),
{
}

/// A new canvas keeps its place and size through both blends.
pub proof fn new_canvas_has_the_planned_size<
    P: Copy + Alpha,
    MapFn: Fn(P, P) -> P,
    Frame: Sample<Pixel = P> + Transform,
>(
    start: (u32, u32),
    end: (u32, u32),
    foreground: &Frame,
    background: &ImageFrame<P>,
    map_fn: &MapFn,
    after: &ImageFrame<P>,
)
    requires
        blended_by_plan(
            BlendPlan::Canvas { start, end },
            foreground,
            background,
            map_fn,
            after,
        ),
    ensures
        after.image.width == end.0 - start.0,
        after.image.height == end.1 - start.1,
        after.image.wf(),
        after.transform == vector::affine_scale_shift(
            vector::vec_of(after.image.width, after.image.height),
            vector::vec_of(start.0, start.1),
        ),
{
}

} // verus!
