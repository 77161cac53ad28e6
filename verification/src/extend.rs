//! Enlarging images.
use vstd::prelude::*;
use glam::{DAffine2, DVec2};
use crate::bbox::Bbox;
use crate::blend::blend_image;
use crate::empty::measure;
use crate::frame::ImageFrame;
use crate::image::Image;
use crate::pixel::Alpha;
use crate::{bbox, blend, empty, image, vector};

verus! {

/// A foreground whose box holds every corner of the background is all there is; else it is blended
/// over the background, on all pixels that it covers.
pub open spec fn extends_what_sticks_out<P: Copy, MapFn: Fn(P, P) -> P>(
    foreground: &ImageFrame<P>,
    background: &ImageFrame<P>,
    map_fn: &MapFn,
    after: &ImageFrame<P>,
) -> bool {
    let around = bbox::unit_box(foreground.transform);
    bbox::has_numeric_corners(foreground.transform) && bbox::has_numeric_corners(
        background.transform,
    ) ==> if bbox::corners_lie_between(background.transform, around.start, around.end) {
        *after == *foreground
    } else {
        blend::blended_in_full(foreground, background, map_fn, after)
    }
}

/// Puts a foreground over a background, unless it already covers the background. `map_fn` is
/// the blend at full opacity.
pub fn extend_image_node<P: Copy, MapFn: Fn(P, P) -> P>(
    foreground: ImageFrame<P>,
    background: ImageFrame<P>,
    map_fn: &MapFn,
) -> (result: ImageFrame<P>)
    requires
        forall|a: P, b: P| #[trigger] map_fn.requires((a, b)),
    ensures
        if bbox::unit_box(foreground.transform).encloses(bbox::unit_box(background.transform)) {
            result == foreground
        } else {
            blend::blended(&foreground, &background, map_fn, &result)
        },
        extends_what_sticks_out(&foreground, &background, map_fn, &result),
{
    let foreground_aabb = Bbox::unit().affine_transform(
        foreground.transform,
    ).to_axis_aligned_bbox();
    let background_aabb = Bbox::unit().affine_transform(
        background.transform,
    ).to_axis_aligned_bbox();
    proof {
        bbox::lemma_corners(background.transform);
    }
    if foreground_aabb.contains(background_aabb.start) && foreground_aabb.contains(
        background_aabb.end,
    ) {
        return foreground;
    }
    blend_image(foreground, background, map_fn)
}

/// Puts images over a given background.
#[derive(Debug)]
pub struct ExtendImageNode<Background> {
    pub background: Background,
}

impl<Background: Clone> Clone for ExtendImageNode<Background> {
    fn clone(&self) -> (node: Self)
        ensures
            cloned(self.background, node.background),
    {
        ExtendImageNode { background: self.background.clone() }
    }
}

impl<Background: Copy> Copy for ExtendImageNode<Background> {

}

impl<P: Copy> ExtendImageNode<ImageFrame<P>> {
    pub fn new(background: ImageFrame<P>) -> (node: Self)
        ensures
            node.background == background,
    {
        ExtendImageNode { background }
    }

    pub fn eval<MapFn: Fn(P, P) -> P>(self, foreground: ImageFrame<P>, map_fn: &MapFn) -> (result:
        ImageFrame<P>)
        requires
            forall|a: P, b: P| #[trigger] map_fn.requires((a, b)),
        ensures
            if bbox::unit_box(foreground.transform).encloses(
                bbox::unit_box(self.background.transform),
            ) {
                result == foreground
            } else {
                blend::blended(&foreground, &self.background, map_fn, &result)
            },
            extends_what_sticks_out(&foreground, &self.background, map_fn, &result),
    {
        extend_image_node(foreground, self.background, map_fn)
    }
}

/// How an image is made to cover some bounds.
#[derive(Debug, Clone, Copy, PartialEq)]
pub enum BoundsPlan {
    /// The image covers the bounds.
    Keep,
    /// The image has no pixels: a blank one of this size takes its place.
    Blank { width: u32, height: u32 },
    /// The image goes into a larger one of this size, at column `left` and row `top`; the
    /// larger one lies at `transform`.
    Grow { width: u32, height: u32, left: u32, top: u32, transform: DAffine2 },
}

impl BoundsPlan {
    /// The image has all its pixels and a place in the new image, and the pixels of the new
    /// image can be counted. When an image grows, its rows go to places that are numbered with
    /// 32 bits.
    pub open spec fn fits<P>(self, image: &Image<P>) -> bool {
        match self {
            BoundsPlan::Keep => true,
            BoundsPlan::Blank { width, height } => width * height <= usize::MAX,
            BoundsPlan::Grow { width, height, left, top, transform } => {
                &&& image.filled()
                &&& left + image.width <= width
                &&& top + image.height <= height
                &&& width * height <= usize::MAX
                &&& image.is_numbered(width, left, top)
            },
        }
    }

    /// The image has all its pixels, and the pixels of the new image can be counted and, up to
    /// the last that comes from the image, numbered with 32 bits. In a larger image there is a
    /// place for the image, unless a side was cut to the largest number of pixels: only then
    /// that is asked for too.
    pub open spec fn is_countable<P>(self, image: &Image<P>) -> bool {
        match self {
            BoundsPlan::Keep => true,
            BoundsPlan::Blank { width, height } => width * height <= usize::MAX,
            BoundsPlan::Grow { width, height, left, top, transform } => {
                &&& image.filled()
                &&& width == u32::MAX ==> left + image.width <= width
                &&& height == u32::MAX ==> top + image.height <= height
                &&& width * height <= usize::MAX
                &&& image.is_numbered(width, left, top)
            },
        }
    }

    /// Computes [`BoundsPlan::fits`].
    pub fn is_feasible<P>(&self, image: &Image<P>) -> (r: bool)
        ensures
            r == self.fits(image),
    {
        match self {
            BoundsPlan::Keep => true,
            BoundsPlan::Blank { width, height } => image::countable(*width, *height),
            BoundsPlan::Grow { width, height, left, top, transform } => image.is_filled()
                && *left as u64 + image.width as u64 <= *width as u64 && *top as u64
                + image.height as u64 <= *height as u64 && image::countable(*width, *height)
                && image.can_number(*width, *left, *top),
        }
    }
}

/// The plan for an image of the given size and place.
pub open spec fn bounds_plan(
    transform: DAffine2,
    width: u32,
    height: u32,
    bounds: DAffine2,
) -> BoundsPlan {
    if bbox::unit_box(transform).encloses(bbox::unit_box(bounds)) {
        BoundsPlan::Keep
    } else if width == 0 || height == 0 {
        let (width, height) = empty::pixel_size(bounds);
        BoundsPlan::Blank { width, height }
    } else {
        let size = vector::vec_of(width, height);
        let to_image = vector::affine_product(
            vector::affine_scale(size),
            vector::affine_inverse(transform),
        );
        let bounds_in_image = bbox::unit_box(vector::affine_product(to_image, bounds));
        let start = vector::vec_min(
            vector::vec_floor(bounds_in_image.start),
            vector::vec_of(0, 0),
        );
        let end = vector::vec_max(vector::vec_ceil(bounds_in_image.end), size);
        let scale = vector::vec_difference(end, start);
        let (width, height) = vector::vec_truncated(scale);
        let (left, top) = vector::vec_truncated(vector::vec_negated(start));
        BoundsPlan::Grow {
            width,
            height,
            left,
            top,
            transform: vector::affine_product(
                vector::affine_product(
                    vector::affine_product(
                        transform,
                        vector::affine_scale(vector::vec_quotient(vector::vec_of(1, 1), size)),
                    ),
                    vector::affine_shift(start),
                ),
                vector::affine_scale(scale),
            ),
        }
    }
}

/// The image is kept if and only if the box around it holds every corner of the bounds.
pub open spec fn keeps_what_covers(
    transform: DAffine2,
    bounds: DAffine2,
    plan: BoundsPlan,
) -> bool {
    let around = bbox::unit_box(transform);
    bbox::has_numeric_corners(transform) && bbox::has_numeric_corners(bounds) ==> (plan is Keep
        <==> bbox::corners_lie_between(bounds, around.start, around.end))
}

/// In the coordinates of the image, in which its pixels have the size one, all four corners of the
/// bounds lie in the larger image, which is no larger than that and the image ask for. In the
/// plane the larger image lies on the pixels of the image: its unit square is stretched to the
/// number of its pixels, moved by the columns and rows added before the image, and taken to the
/// plane as the pixels of the image are.
pub open spec fn covers_bounds(
    transform: DAffine2,
    width: u32,
    height: u32,
    bounds: DAffine2,
    plan: BoundsPlan,
) -> bool {
    let size = vector::vec_of(width, height);
    let bounds_in_image = vector::affine_product(
        vector::affine_product(
            vector::affine_scale(size),
            vector::affine_inverse(transform),
        ),
        bounds,
    );
    plan matches BoundsPlan::Grow { width: w, height: h, left, top, transform: larger } ==> w
        < u32::MAX && h < u32::MAX ==> {
        &&& bbox::has_numeric_corners(bounds_in_image) ==> {
            &&& bbox::corners_lie_beyond(
                bounds_in_image,
                vector::vec_negated(vector::vec_of(left, top)),
            )
            &&& bbox::corners_lie_before(
                bounds_in_image,
                vector::vec_of((w - left) as u32, (h - top) as u32),
            )
            &&& forall|l: u32, t: u32| #[trigger]
                bbox::corners_lie_beyond(
                    bounds_in_image,
                    vector::vec_negated(vector::vec_of(l, t)),
                ) ==> left <= l && top <= t
            &&& forall|r: u32, b: u32| #[trigger]
                bbox::corners_lie_before(bounds_in_image, vector::vec_of(r, b)) && r >= width && b
                    >= height ==> w - left <= r && h - top <= b
        }
        &&& exists|shift: DVec2|
            {
                &&& vector::vec_equal(shift, vector::vec_negated(vector::vec_of(left, top)))
                &&& larger == vector::affine_product(
                    vector::affine_product(
                        vector::affine_product(
                            transform,
                            vector::affine_scale(
                                vector::vec_quotient(vector::vec_of(1, 1), size),
                            ),
                        ),
                        #[trigger] vector::affine_shift(shift),
                    ),
                    vector::affine_scale(vector::vec_of(w, h)),
                )
            }
    }
}

/// Decides how to make an image of the given size and place cover some bounds. A larger image
/// has a place for the image, unless a side of it was cut to the largest number of pixels.
pub fn plan_bounds(
    transform: DAffine2,
    width: u32,
    height: u32,
    bounds: DAffine2,
) -> (plan: BoundsPlan)
    ensures
        plan == bounds_plan(transform, width, height, bounds),
        plan matches BoundsPlan::Grow { width: w, height: h, left, top, transform: t } ==> {
            &&& w < u32::MAX ==> left + width <= w
            &&& h < u32::MAX ==> top + height <= h
        },
        keeps_what_covers(transform, bounds, plan),
        covers_bounds(transform, width, height, bounds, plan),
{
    let image_aabb = Bbox::unit().affine_transform(transform).to_axis_aligned_bbox();
    let bounds_aabb = Bbox::unit().affine_transform(bounds).to_axis_aligned_bbox();
    let ghost (place, columns, rows) = (transform, width, height);
    proof {
        bbox::lemma_corners(bounds);
    }
    if image_aabb.contains(bounds_aabb.start) && image_aabb.contains(bounds_aabb.end) {
        return BoundsPlan::Keep;
    }
    if width == 0 || height == 0 {
        let (width, height) = measure(bounds);
        return BoundsPlan::Blank { width, height };
    }
    let size = vector::whole(width, height);
    let to_image = vector::compose(DAffine2::from_scale(size), transform.inverse());
    let bounds_in_image = Bbox::unit().affine_transform(
        vector::compose(to_image, bounds),
    ).to_axis_aligned_bbox();
    let start = bounds_in_image.start.floor().min(vector::whole(0, 0));
    let end = bounds_in_image.end.ceil().max(size);
    let scale = vector::difference(end, start);
    let (width, height) = vector::truncated(scale);
    let (left, top) = vector::truncated(vector::negated(start));
    // From the new image, as the unit square, to the plane.
    let shrink = DAffine2::from_scale(vector::quotient(vector::whole(1, 1), size));
    let transform = vector::compose(
        vector::compose(
            vector::compose(transform, shrink),
            DAffine2::from_translation(start),
        ),
        DAffine2::from_scale(scale),
    );
    let plan = BoundsPlan::Grow { width, height, left, top, transform };
    proof {
        let map = vector::affine_product(to_image, bounds);
        bbox::lemma_corners(map);
        if width < u32::MAX && height < u32::MAX {
            assert(end == vector::vec_of((width - left) as u32, (height - top) as u32));
            assert forall|r: u32, b: u32|
                bbox::has_numeric_corners(map) && #[trigger] bbox::corners_lie_before(
                    map,
                    vector::vec_of(r, b),
                ) && r >= columns && b >= rows implies width - left <= r && height - top <= b by {
                assert(vector::vec_reaches(vector::vec_of(r, b), size));
            }
        }
        assert(covers_bounds(place, columns, rows, bounds, plan));
    }
    plan
}

/// `after` is what a plan makes of an image.
pub open spec fn extended_by_plan<P: Alpha>(
    plan: BoundsPlan,
    before: &ImageFrame<P>,
    bounds: DAffine2,
    after: &ImageFrame<P>,
) -> bool {
    match plan {
        BoundsPlan::Keep => *after == *before,
        BoundsPlan::Blank { width, height } => empty::is_plain(
            after,
            (width, height),
            P::TRANSPARENT,
            bounds,
        ),
        BoundsPlan::Grow { width, height, left, top, transform } => {
            &&& after.transform == transform
            &&& after.image.width == width
            &&& after.image.height == height
            &&& after.image.wf()
            &&& forall|x: u32, y: u32|
                x < width && y < height ==> #[trigger] after.image.at(x, y) == (
                if before.image.covers(left, top, x, y) {
                    before.image.at((x - left) as u32, (y - top) as u32)
                } else {
                    P::TRANSPARENT
                })
        },
    }
}

/// The plan for an image keeps it if it covers the bounds, and else makes it cover them.
pub open spec fn reaches_bounds<P>(image: &ImageFrame<P>, bounds: DAffine2) -> bool {
    let plan = bounds_plan(image.transform, image.image.width, image.image.height, bounds);
    &&& keeps_what_covers(image.transform, bounds, plan)
    &&& covers_bounds(image.transform, image.image.width, image.image.height, bounds, plan)
    &&& plan matches BoundsPlan::Grow { width, height, left, top, transform } ==> {
        &&& width < u32::MAX ==> left + image.image.width <= width
        &&& height < u32::MAX ==> top + image.image.height <= height
    }
}

/// Makes an image cover some bounds as the plan says.
pub fn extend_by_plan<P: Copy + Alpha>(
    plan: BoundsPlan,
    image: ImageFrame<P>,
    bounds: DAffine2,
) -> (result: ImageFrame<P>)
    requires
        plan.fits(&image.image),
    ensures
        extended_by_plan(plan, &image, bounds, &result),
{
    match plan {
        BoundsPlan::Keep => image,
        BoundsPlan::Blank { width, height } => {
            ImageFrame { image: Image::new(width, height, P::TRANSPARENT), transform: bounds }
        },
        BoundsPlan::Grow { width, height, left, top, transform } => {
            let larger = image.image.placed(width, height, left, top, P::TRANSPARENT);
            ImageFrame { image: larger, transform }
        },
    }
}

/// Enlarges an image towards some bounds. The pixels that are added are transparent.
pub fn extend_image_to_bounds_node<P: Copy + Alpha>(image: ImageFrame<P>, bounds: DAffine2) -> (
result: ImageFrame<P>)
    requires
        bounds_plan(image.transform, image.image.width, image.image.height, bounds).is_countable(
            &image.image,
        ),
    ensures
        extended_by_plan(
            bounds_plan(image.transform, image.image.width, image.image.height, bounds),
            &image,
            bounds,
            &result,
        ),
        reaches_bounds(&image, bounds),
{
    let plan = plan_bounds(image.transform, image.image.width, image.image.height, bounds);
    extend_by_plan(plan, image, bounds)
}

/// Enlarges images to given bounds.
#[derive(Debug)]
pub struct ExtendImageToBoundsNode<Bounds> {
    pub bounds: Bounds,
}

impl<Bounds: Clone> Clone for ExtendImageToBoundsNode<Bounds> {
    fn clone(&self) -> (node: Self)
        ensures
            cloned(self.bounds, node.bounds),
    {
        ExtendImageToBoundsNode { bounds: self.bounds.clone() }
    }
}

impl<Bounds: Copy> Copy for ExtendImageToBoundsNode<Bounds> {

}

impl ExtendImageToBoundsNode<DAffine2> {
    pub fn new(bounds: DAffine2) -> (node: Self)
        ensures
            node.bounds == bounds,
    {
        ExtendImageToBoundsNode { bounds }
    }

    pub fn eval<P: Copy + Alpha>(&self, image: ImageFrame<P>) -> (result: ImageFrame<P>)
        requires
            bounds_plan(
                image.transform,
                image.image.width,
                image.image.height,
                self.bounds,
            ).is_countable(&image.image),
        ensures
            extended_by_plan(
                bounds_plan(image.transform, image.image.width, image.image.height, self.bounds),
                &image,
                self.bounds,
                &result,
            ),
            reaches_bounds(&image, self.bounds),
    {
        extend_image_to_bounds_node(image, self.bounds)
    }

    /// [`ExtendImageToBoundsNode::eval`], or nothing where the image lacks pixels, or the
    /// larger image would have no room for it or too many pixels.
    pub fn checked_eval<P: Copy + Alpha>(&self, image: ImageFrame<P>) -> (result: Option<
        ImageFrame<P>,
    >)
        ensures
            result is Some <==> bounds_plan(
                image.transform,
                image.image.width,
                image.image.height,
                self.bounds,
            ).is_countable(&image.image),
            result matches Some(larger) ==> extended_by_plan(
                bounds_plan(image.transform, image.image.width, image.image.height, self.bounds),
                &image,
                self.bounds,
                &larger,
            ),
            result is Some ==> reaches_bounds(&image, self.bounds),
    {
        let plan = plan_bounds(
            image.transform,
            image.image.width,
            image.image.height,
            self.bounds,
        );
        if plan.is_feasible(&image.image) {
            Some(self.eval(image))
        } else {
            None
        }
    }
}

/// A foreground takes the place of a background if the box around it holds every corner of the
/// background, and only then: otherwise the frame has the size and place of the background, and
/// the foreground is blended over it.
pub proof fn foreground_replaces_what_it_covers<P: Copy, MapFn: Fn(P, P) -> P>(
    foreground: ImageFrame<P>,
    background: ImageFrame<P>,
    map_fn: &MapFn,
    result: ImageFrame<P>,
)
    requires
        call_ensures(
            extend_image_node::<P, MapFn>,
            (foreground, background, map_fn),
            result,
        ),
        forall|a: P, b: P| #[trigger] map_fn.requires((a, b)),
        bbox::has_numeric_corners(foreground.transform),
        bbox::has_numeric_corners(background.transform),
    ensures
        ({
            let around = bbox::unit_box(foreground.transform);
            if bbox::corners_lie_between(background.transform, around.start, around.end) {
                result == foreground
            } else {
                &&& result.transform == background.transform
                &&& result.image.same_size(&background.image)
                &&& blend::blended_in_full(&foreground, &background, map_fn, &result)
            }
        }),
{
    assert(extends_what_sticks_out(&foreground, &background, map_fn, &result));
}

/// An image is kept as it is if and only if the box around it holds every corner of the bounds,
/// however either is turned.
pub proof fn image_is_kept_if_it_covers_the_bounds(
    transform: DAffine2,
    width: u32,
    height: u32,
    bounds: DAffine2,
    plan: BoundsPlan,
)
    requires
        bbox::has_numeric_corners(transform),
        bbox::has_numeric_corners(bounds),
        call_ensures(plan_bounds, (transform, width, height, bounds), plan),
    ensures
        plan is Keep <==> bbox::corners_lie_between(
            bounds,
            bbox::unit_box(transform).start,
            bbox::unit_box(transform).end,
        ),
{
    assert(keeps_what_covers(transform, bounds, plan));
}

/// An image that does not cover the bounds grows, and then covers them, whatever its rotation or
/// reflection. In the coordinates of the image, in which its pixels have the size one, the larger
/// image reaches from `left` columns and `top` rows before it over every corner of the bounds. It
/// reaches no further than the corners and the image ask for. Each pixel of the image is found in
/// it, all other pixels are transparent, and in the plane it lies on the pixels of the image.
pub proof fn enlarged_image_covers_the_bounds<P: Copy + Alpha>(
    image: ImageFrame<P>,
    bounds: DAffine2,
    result: ImageFrame<P>,
) -> (offset: (u32, u32))
    requires
        call_ensures(extend_image_to_bounds_node::<P>, (image, bounds), result),
        bounds_plan(
            image.transform,
            image.image.width,
            image.image.height,
            bounds,
        ).is_countable(&image.image),
        image.image.width > 0,
        image.image.height > 0,
        bbox::has_numeric_corners(image.transform),
        bbox::has_numeric_corners(bounds),
        !bbox::corners_lie_between(
            bounds,
            bbox::unit_box(image.transform).start,
            bbox::unit_box(image.transform).end,
        ),
        result.image.width < u32::MAX,
        result.image.height < u32::MAX,
        bbox::has_numeric_corners(
            vector::affine_product(
                vector::affine_product(
                    vector::affine_scale(vector::vec_of(image.image.width, image.image.height)),
                    vector::affine_inverse(image.transform),
                ),
                bounds,
            ),
        ),
    ensures
        ({
            let (left, top) = offset;
            let size = vector::vec_of(image.image.width, image.image.height);
            let in_image = vector::affine_product(
                vector::affine_product(
                    vector::affine_scale(size),
                    vector::affine_inverse(image.transform),
                ),
                bounds,
            );
            let right = result.image.width - left;
            let bottom = result.image.height - top;
            &&& right >= image.image.width && bottom >= image.image.height
            &&& forall|c: DVec2|
                bbox::is_corner(c) ==> {
                    &&& vector::vec_reaches(
                        #[trigger] vector::affine_point(in_image, c),
                        vector::vec_negated(vector::vec_of(left, top)),
                    )
                    &&& vector::vec_reaches(
                        vector::vec_of(right as u32, bottom as u32),
                        vector::affine_point(in_image, c),
                    )
                }
            &&& forall|l: u32, t: u32| #[trigger]
                bbox::corners_lie_beyond(in_image, vector::vec_negated(vector::vec_of(l, t)))
                    ==> left <= l && top <= t
            &&& forall|r: u32, b: u32| #[trigger]
                bbox::corners_lie_before(in_image, vector::vec_of(r, b)) && r >= image.image.width
                    && b >= image.image.height ==> right <= r && bottom <= b
            &&& result.image.wf()
            &&& forall|x: u32, y: u32|
                x < result.image.width && y < result.image.height ==> #[trigger] result.image.at(
                    x,
                    y,
                ) == (if left <= x < left + image.image.width && top <= y < top
                    + image.image.height {
                    image.image.at((x - left) as u32, (y - top) as u32)
                } else {
                    P::TRANSPARENT
                })
            &&& exists|shift: DVec2|
                {
                    &&& vector::vec_equal(shift, vector::vec_negated(vector::vec_of(left, top)))
                    &&& result.transform == vector::affine_product(
                        vector::affine_product(
                            vector::affine_product(
                                image.transform,
                                vector::affine_scale(
                                    vector::vec_quotient(vector::vec_of(1, 1), size),
                                ),
                            ),
                            #[trigger] vector::affine_shift(shift),
                        ),
                        vector::affine_scale(
                            vector::vec_of(result.image.width, result.image.height),
                        ),
                    )
                }
        }),
{
    let plan = bounds_plan(image.transform, image.image.width, image.image.height, bounds);
    assert(reaches_bounds(&image, bounds));
    assert(extended_by_plan(plan, &image, bounds, &result));
    (plan->left, plan->top)
}

/// An image without pixels, of which the box does not hold every corner of the bounds, is replaced
/// by a transparent one at the bounds, with as many columns and rows as the sides of the bounds
/// are long.
pub proof fn blank_image_fills_the_bounds<P: Copy + Alpha>(
    image: ImageFrame<P>,
    bounds: DAffine2,
    result: ImageFrame<P>,
)
    requires
        call_ensures(extend_image_to_bounds_node::<P>, (image, bounds), result),
        bounds_plan(
            image.transform,
            image.image.width,
            image.image.height,
            bounds,
        ).is_countable(&image.image),
        image.image.width == 0 || image.image.height == 0,
        bbox::has_numeric_corners(image.transform),
        bbox::has_numeric_corners(bounds),
        !bbox::corners_lie_between(
            bounds,
            bbox::unit_box(image.transform).start,
            bbox::unit_box(image.transform).end,
        ),
    ensures
        (result.image.width, result.image.height) == vector::vec_truncated(
            vector::vec_lengths(
                vector::affine_vector(bounds, vector::vec_of(1, 0)),
                vector::affine_vector(bounds, vector::vec_of(0, 1)),
            ),
        ),
        result.image.wf(),
        forall|i: int|
            0 <= i < result.image.data.len() ==> #[trigger] result.image.data@[i] == P::TRANSPARENT,
        result.transform == bounds,
{
    assert(reaches_bounds(&image, bounds));
}

/// When an image grows, each of its pixels is found in the larger image, moved by the columns
/// and rows added before it.
pub proof fn growing_keeps_every_pixel<P: Alpha>(
    plan: BoundsPlan,
    before: &ImageFrame<P>,
    bounds: DAffine2,
    after: &ImageFrame<P>,
    x: u32,
    y: u32,
)
    requires
        plan is Grow,
        plan.fits(&before.image),
        extended_by_plan(plan, before, bounds, after),
        x < before.image.width,
        y < before.image.height,
    ensures
        after.image.has((x + plan->left) as u32, (y + plan->top) as u32),
        after.image.at((x + plan->left) as u32, (y + plan->top) as u32) == before.image.at(x, y),
{
    image::filled_image_has_every_pixel(
        &after.image,
        (x + plan->left) as u32,
        (y + plan->top) as u32,
    );
}

/// An image that covers the bounds is kept as it is.
pub proof fn covering_image_is_kept<P: Alpha>(
    before: &ImageFrame<P>,
    bounds: DAffine2,
    after: &ImageFrame<P>,
)
    requires
        bbox::unit_box(before.transform).encloses(bbox::unit_box(bounds)),
        extended_by_plan(
            bounds_plan(before.transform, before.image.width, before.image.height, bounds),
            before,
            bounds,
            after,
        ),
    ensures
        *after == *before,
{
}

/// Enlarging an image to the same bounds a second time changes nothing, if the enlarged image
/// covers the bounds or has no pixels. With exact coordinates an enlarged image at a place that
/// can be inverted covers the bounds; with rounded ones it can fall short of them.
pub proof fn second_extension_changes_nothing<P: Alpha>(
    before: &ImageFrame<P>,
    bounds: DAffine2,
    once: &ImageFrame<P>,
    twice: &ImageFrame<P>,
)
    requires
        bounds_plan(before.transform, before.image.width, before.image.height, bounds).fits(
            &before.image,
        ),
        extended_by_plan(
            bounds_plan(before.transform, before.image.width, before.image.height, bounds),
            before,
            bounds,
            once,
        ),
        extended_by_plan(
            bounds_plan(once.transform, once.image.width, once.image.height, bounds),
            once,
            bounds,
            twice,
        ),
        ({
            ||| bbox::unit_box(once.transform).encloses(bbox::unit_box(bounds))
            ||| once.image.width == 0
            ||| once.image.height == 0
        }),
    ensures
        twice.image.same_as(&once.image),
        twice.transform == once.transform,
{
    assert(twice.image.data@ =~= once.image.data@);
}

/// An image without pixels that does not cover the bounds becomes the blank image of the
/// bounds.
pub proof fn pixelless_image_becomes_blank<P: Alpha>(
    before: &ImageFrame<P>,
    bounds: DAffine2,
    after: &ImageFrame<P>,
)
    requires
        !bbox::unit_box(before.transform).encloses(bbox::unit_box(bounds)),
        before.image.width == 0 || before.image.height == 0,
        extended_by_plan(
            bounds_plan(before.transform, before.image.width, before.image.height, bounds),
            before,
            bounds,
            after,
        ),
    ensures
        empty::is_plain(after, empty::pixel_size(bounds), P::TRANSPARENT, bounds),
{
}

} // verus!
