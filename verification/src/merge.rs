//! Collecting the bounding box of several things.
use core::marker::PhantomData;
use vstd::prelude::*;
use glam::{DAffine2, DVec2};
use crate::bbox::{AxisAlignedBbox, Bbox};
use crate::bbox;
use crate::frame::Transform;
use crate::vector;

verus! {

/// The box around what was collected so far and one thing more.
pub open spec fn merged<Data: Transform>(
    initial: Option<AxisAlignedBbox>,
    data: &Data,
) -> Option<AxisAlignedBbox> {
    match initial {
        Some(bbox) => bbox.joined(bbox::unit_box(data.place())),
        None => Some(bbox::unit_box(data.place())),
    }
}

/// A box is there, and neither it nor one of two things takes up any room.
pub open spec fn all_are_empty<A: Transform, B: Transform>(
    initial: Option<AxisAlignedBbox>,
    a: &A,
    b: &B,
) -> bool {
    &&& initial matches Some(bbox) && bbox.is_empty()
    &&& bbox::unit_box(a.place()).is_empty()
    &&& bbox::unit_box(b.place()).is_empty()
}

/// If the last thing in the box `before` lies at `other`, `after` is the box that has `data` in
/// it first and that thing last. The boxes around both are free of NaN.
pub open spec fn merged_in_any_order<Data: Transform>(
    before: Option<AxisAlignedBbox>,
    data: &Data,
    after: Option<AxisAlignedBbox>,
) -> bool {
    let data_box = bbox::unit_box(data.place());
    data_box.has_numbers() ==> {
        &&& data_box.is_upright()
        &&& forall|initial: Option<AxisAlignedBbox>, other: DAffine2|
            {
                &&& before == #[trigger] merged(initial, &other)
                &&& bbox::unit_box(other).has_numbers() && bbox::unit_box(other).is_upright()
                &&& !all_are_empty(initial, &other, data)
            } ==> bbox::same_box(after, merged(merged(initial, data), &other))
    }
}

/// `after` is a box that holds all corners of the thing, and all that the box `before` holds, and
/// is the smallest that does. What takes up no room is left out, if something else takes up some.
pub open spec fn merged_around<Data: Transform>(
    before: Option<AxisAlignedBbox>,
    data: &Data,
    after: Option<AxisAlignedBbox>,
) -> bool {
    let place = data.place();
    bbox::has_numeric_corners(place) ==> match before {
        None => {
            &&& after is Some
            &&& bbox::corners_lie_between(place, after->0.start, after->0.end)
            &&& forall|c: DVec2| #[trigger]
                bbox::corners_lie_beyond(place, c) ==> vector::vec_reaches(after->0.start, c)
            &&& forall|c: DVec2| #[trigger]
                bbox::corners_lie_before(place, c) ==> vector::vec_reaches(c, after->0.end)
        },
        Some(bbox) => bbox.has_numbers() ==> {
            &&& after is None ==> bbox.is_a_point() && bbox::is_flat(place)
            &&& after matches Some(all) ==> {
                &&& bbox::is_flat(place) || bbox::corners_lie_between(place, all.start, all.end)
                &&& bbox.is_a_point() || all.reaches_around(bbox)
                &&& forall|c: DVec2| #[trigger]
                    bbox::corners_lie_beyond(place, c) && vector::vec_reaches(bbox.start, c)
                        ==> vector::vec_reaches(all.start, c)
                &&& forall|c: DVec2| #[trigger]
                    bbox::corners_lie_before(place, c) && vector::vec_reaches(c, bbox.end)
                        ==> vector::vec_reaches(c, all.end)
            }
        },
    }
}

/// Adds one thing to a bounding box. Adding it a second time changes nothing, if there is any
/// room in the box, and the order in which things are added does not matter.
pub fn merge_bounding_box_node<Data: Transform>(input: (Option<AxisAlignedBbox>, Data)) -> (result:
    Option<AxisAlignedBbox>)
    ensures
        result == merged(input.0, &input.1),
        result matches Some(bbox) ==> !bbox.is_empty() ==> merged(result, &input.1) == result,
        merged_in_any_order(input.0, &input.1, result),
        merged_around(input.0, &input.1, result),
{
    let (initial_aabb, data) = input;
    proof {
        bbox::lemma_corners(data.place());
    }
    let snd_aabb = Bbox::unit().affine_transform(data.transform()).to_axis_aligned_bbox();
    if let Some(fst_aabb) = initial_aabb {
        fst_aabb.union_non_empty(&snd_aabb)
    } else {
        Some(snd_aabb)
    }
}

/// Adds things to a bounding box.
#[derive(Debug, PartialEq)]
pub struct MergeBoundingBoxNode<Data> {
    pub _data: PhantomData<Data>,
}

impl<Data> Clone for MergeBoundingBoxNode<Data> {
    fn clone(&self) -> (node: Self)
        ensures
            node == *self,
    {
        MergeBoundingBoxNode { _data: PhantomData }
    }
}

impl<Data: Transform> MergeBoundingBoxNode<Data> {
    pub fn new() -> (node: Self)
        ensures
            node == (MergeBoundingBoxNode::<Data> { _data: PhantomData }),
    {
        MergeBoundingBoxNode { _data: PhantomData }
    }

    pub fn eval(&self, input: (Option<AxisAlignedBbox>, Data)) -> (result: Option<AxisAlignedBbox>)
        ensures
            result == merged(input.0, &input.1),
            result matches Some(bbox) ==> !bbox.is_empty() ==> merged(result, &input.1) == result,
            merged_in_any_order(input.0, &input.1, result),
            merged_around(input.0, &input.1, result),
    {
        merge_bounding_box_node(input)
    }
}

/// Merging into an empty box is starting with none, unless the thing takes up no room either:
/// the box around it is all there is.
pub proof fn empty_box_adds_nothing<Data: Transform>(bbox: AxisAlignedBbox, data: &Data)
    requires
        bbox.is_empty(),
    ensures
        merged(Some(bbox), data) == (if bbox::unit_box(data.place()).is_empty() {
            None
        } else {
            merged(None, data)
        }),
{
}

/// The box around several things holds every corner of each, however it is turned, but for things
/// that take up no room, and is no larger than that takes.
pub proof fn merged_box_holds_every_corner<Data: Transform>(
    initial: Option<AxisAlignedBbox>,
    data: Data,
    result: Option<AxisAlignedBbox>,
    c: DVec2,
    point: DVec2,
)
    requires
        call_ensures(merge_bounding_box_node::<Data>, ((initial, data),), result),
        bbox::has_numeric_corners(data.place()),
        initial matches Some(bbox) ==> bbox.has_numbers(),
        initial is None || !bbox::is_flat(data.place()),
        bbox::is_corner(c),
    ensures
        result is Some,
        vector::vec_reaches(vector::affine_point(data.place(), c), result->0.start),
        vector::vec_reaches(result->0.end, vector::affine_point(data.place(), c)),
        initial matches Some(bbox) ==> !bbox.is_a_point() && vector::vec_reaches(point, bbox.start)
            && vector::vec_reaches(bbox.end, point) ==> vector::vec_reaches(point, result->0.start)
            && vector::vec_reaches(result->0.end, point),
        bbox::corners_lie_beyond(data.place(), point) && (initial matches Some(bbox)
            ==> vector::vec_reaches(bbox.start, point)) ==> vector::vec_reaches(
            result->0.start,
            point,
        ),
        bbox::corners_lie_before(data.place(), point) && (initial matches Some(bbox)
            ==> vector::vec_reaches(point, bbox.end)) ==> vector::vec_reaches(
            point,
            result->0.end,
        ),
{
    assert(merged_around(initial, &data, result));
}

/// Of two things it does not matter which is merged first: the boxes are the same but for the
/// signs of zeros. The boxes around the things must be free of NaN, and where the first box takes
/// up no room, one of the things must.
pub proof fn merging_order_does_not_matter<A: Transform, B: Transform>(
    initial: Option<AxisAlignedBbox>,
    a: A,
    b: B,
    with_a: Option<AxisAlignedBbox>,
    a_then_b: Option<AxisAlignedBbox>,
    with_b: Option<AxisAlignedBbox>,
    b_then_a: Option<AxisAlignedBbox>,
)
    requires
        bbox::unit_box(a.place()).has_numbers(),
        bbox::unit_box(b.place()).has_numbers(),
        !all_are_empty(initial, &a, &b),
        call_ensures(merge_bounding_box_node::<A>, ((initial, a),), with_a),
        call_ensures(merge_bounding_box_node::<B>, ((with_a, b),), a_then_b),
        call_ensures(merge_bounding_box_node::<B>, ((initial, b),), with_b),
        call_ensures(merge_bounding_box_node::<A>, ((with_b, a),), b_then_a),
    ensures
        bbox::same_box(a_then_b, b_then_a),
{
    assert(with_a == merged(initial, &a.place()));
}

} // verus!
