//! Bounding boxes.
use vstd::prelude::*;
use glam::{DAffine2, DVec2};
use crate::vector;

verus! {

/// A box whose sides run along the axes.
#[derive(Debug, Clone, Copy, PartialEq)]
pub struct AxisAlignedBbox {
    pub start: DVec2,
    pub end: DVec2,
}

/// A parallelogram, by its corners.
#[derive(Debug, Clone, Copy, PartialEq)]
pub struct Bbox {
    pub top_left: DVec2,
    pub top_right: DVec2,
    pub bottom_left: DVec2,
    pub bottom_right: DVec2,
}

/// A corner of the unit square.
pub open spec fn is_corner(c: DVec2) -> bool {
    ||| c == vector::vec_of(0, 0)
    ||| c == vector::vec_of(1, 0)
    ||| c == vector::vec_of(0, 1)
    ||| c == vector::vec_of(1, 1)
}

/// A map takes no corner of the unit square to a NaN.
pub open spec fn has_numeric_corners(transform: DAffine2) -> bool {
    forall|c: DVec2|
        is_corner(c) ==> vector::vec_equal(
            #[trigger] vector::affine_point(transform, c),
            vector::affine_point(transform, c),
        )
}

/// All four images of the corners of the unit square are at least a point.
pub open spec fn corners_lie_beyond(transform: DAffine2, low: DVec2) -> bool {
    forall|c: DVec2|
        is_corner(c) ==> vector::vec_reaches(#[trigger] vector::affine_point(transform, c), low)
}

/// All four images of the corners of the unit square are at most a point.
pub open spec fn corners_lie_before(transform: DAffine2, high: DVec2) -> bool {
    forall|c: DVec2|
        is_corner(c) ==> vector::vec_reaches(high, #[trigger] vector::affine_point(transform, c))
}

/// All four images of the corners of the unit square lie between two points.
pub open spec fn corners_lie_between(transform: DAffine2, low: DVec2, high: DVec2) -> bool {
    corners_lie_beyond(transform, low) && corners_lie_before(transform, high)
}

/// A corner of the unit square is taken, cut to whole coordinates, to a column.
pub open spec fn corner_in_column(transform: DAffine2, x: u32) -> bool {
    exists|c: DVec2|
        is_corner(c) && vector::vec_truncated(#[trigger] vector::affine_point(transform, c)).0 == x
}

/// A corner of the unit square is taken, cut to whole coordinates, to a row.
pub open spec fn corner_in_row(transform: DAffine2, y: u32) -> bool {
    exists|c: DVec2|
        is_corner(c) && vector::vec_truncated(#[trigger] vector::affine_point(transform, c)).1 == y
}

/// A map takes all corners of the unit square to one point: each is at least each other.
pub open spec fn is_flat(transform: DAffine2) -> bool {
    forall|c: DVec2, d: DVec2|
        is_corner(c) && is_corner(d) ==> vector::vec_reaches(
            #[trigger] vector::affine_point(transform, c),
            #[trigger] vector::affine_point(transform, d),
        )
}

/// A map takes all corners of the unit square to one point with finite coordinates.
pub open spec fn is_finite_point(transform: DAffine2) -> bool {
    let size = vector::vec_difference(unit_box(transform).end, unit_box(transform).start);
    is_flat(transform) && vector::vec_equal(size, size)
}

/// Two boxes are the same, or their corners have equal coordinates; zeros are equal whatever
/// their signs.
pub open spec fn same_box(a: Option<AxisAlignedBbox>, b: Option<AxisAlignedBbox>) -> bool {
    ||| a == b
    ||| {
        &&& a is Some
        &&& b is Some
        &&& vector::vec_equal(a->0.start, b->0.start)
        &&& vector::vec_equal(a->0.end, b->0.end)
    }
}

/// The smallest axis-aligned box around the image of the unit square.
pub open spec fn unit_box(transform: DAffine2) -> AxisAlignedBbox {
    Bbox::unit_square().moved(transform).hull()
}

impl Bbox {
    /// The square with the corners (0, 0) and (1, 1).
    pub open spec fn unit_square() -> Bbox {
        Bbox {
            top_left: vector::vec_of(0, 1),
            top_right: vector::vec_of(1, 1),
            bottom_left: vector::vec_of(0, 0),
            bottom_right: vector::vec_of(1, 0),
        }
    }

    /// The parallelogram with the images of the corners.
    pub open spec fn moved(self, transform: DAffine2) -> Bbox {
        Bbox {
            top_left: vector::affine_point(transform, self.top_left),
            top_right: vector::affine_point(transform, self.top_right),
            bottom_left: vector::affine_point(transform, self.bottom_left),
            bottom_right: vector::affine_point(transform, self.bottom_right),
        }
    }

    /// The box from the smallest to the largest coordinates of the corners.
    pub open spec fn hull(self) -> AxisAlignedBbox {
        AxisAlignedBbox {
            start: vector::vec_min(
                vector::vec_min(
                    vector::vec_min(self.top_left, self.top_right),
                    self.bottom_left,
                ),
                self.bottom_right,
            ),
            end: vector::vec_max(
                vector::vec_max(
                    vector::vec_max(self.top_left, self.top_right),
                    self.bottom_left,
                ),
                self.bottom_right,
            ),
        }
    }

    /// No coordinate of a corner is a NaN.
    pub open spec fn has_numbers(self) -> bool {
        &&& vector::vec_equal(self.top_left, self.top_left)
        &&& vector::vec_equal(self.top_right, self.top_right)
        &&& vector::vec_equal(self.bottom_left, self.bottom_left)
        &&& vector::vec_equal(self.bottom_right, self.bottom_right)
    }

    /// A corner, cut to whole coordinates, lies in a column.
    pub open spec fn has_column(self, x: u32) -> bool {
        ||| vector::vec_truncated(self.top_left).0 == x
        ||| vector::vec_truncated(self.top_right).0 == x
        ||| vector::vec_truncated(self.bottom_left).0 == x
        ||| vector::vec_truncated(self.bottom_right).0 == x
    }

    /// A corner, cut to whole coordinates, lies in a row.
    pub open spec fn has_row(self, y: u32) -> bool {
        ||| vector::vec_truncated(self.top_left).1 == y
        ||| vector::vec_truncated(self.top_right).1 == y
        ||| vector::vec_truncated(self.bottom_left).1 == y
        ||| vector::vec_truncated(self.bottom_right).1 == y
    }

    /// Every corner is at least a point.
    pub open spec fn lies_beyond(self, low: DVec2) -> bool {
        &&& vector::vec_reaches(self.top_left, low)
        &&& vector::vec_reaches(self.top_right, low)
        &&& vector::vec_reaches(self.bottom_left, low)
        &&& vector::vec_reaches(self.bottom_right, low)
    }

    /// Every corner is at most a point.
    pub open spec fn lies_before(self, high: DVec2) -> bool {
        &&& vector::vec_reaches(high, self.top_left)
        &&& vector::vec_reaches(high, self.top_right)
        &&& vector::vec_reaches(high, self.bottom_left)
        &&& vector::vec_reaches(high, self.bottom_right)
    }

    /// Computes [`Bbox::unit_square`].
    pub fn unit() -> (bbox: Self)
        ensures
            bbox == Bbox::unit_square(),
    {
        Bbox {
            top_left: vector::whole(0, 1),
            top_right: vector::whole(1, 1),
            bottom_left: vector::whole(0, 0),
            bottom_right: vector::whole(1, 0),
        }
    }

    /// Computes [`Bbox::moved`].
    pub fn affine_transform(self, transform: DAffine2) -> (bbox: Self)
        ensures
            bbox == self.moved(transform),
    {
        Bbox {
            top_left: transform.transform_point2(self.top_left),
            top_right: transform.transform_point2(self.top_right),
            bottom_left: transform.transform_point2(self.bottom_left),
            bottom_right: transform.transform_point2(self.bottom_right),
        }
    }

    /// Computes [`Bbox::hull`].
    pub fn to_axis_aligned_bbox(&self) -> (bbox: AxisAlignedBbox)
        ensures
            bbox == self.hull(),
            bbox.is_ordered(),
            bbox.is_settled(),
            bbox.has_numbers() ==> bbox.is_upright(),
            self.has_column(vector::vec_truncated(bbox.start).0),
            self.has_row(vector::vec_truncated(bbox.start).1),
            self.has_column(vector::vec_truncated(bbox.end).0),
            self.has_row(vector::vec_truncated(bbox.end).1),
            self.has_numbers() ==> {
                &&& bbox.has_numbers()
                &&& self.lies_beyond(bbox.start)
                &&& self.lies_before(bbox.end)
                &&& forall|low: DVec2| #[trigger]
                    self.lies_beyond(low) ==> vector::vec_reaches(bbox.start, low)
                        && vector::vec_reaches(bbox.end, low)
                &&& forall|high: DVec2| #[trigger]
                    self.lies_before(high) ==> vector::vec_reaches(high, bbox.start)
                        && vector::vec_reaches(high, bbox.end)
            },
    {
        AxisAlignedBbox {
            start: self.top_left.min(self.top_right).min(self.bottom_left).min(self.bottom_right),
            end: self.top_left.max(self.top_right).max(self.bottom_left).max(self.bottom_right),
        }
    }
}

/// The corners of the moved unit square are the images of the corners of the unit square.
pub(crate) proof fn lemma_corners(transform: DAffine2)
    ensures
        has_numeric_corners(transform) ==> Bbox::unit_square().moved(transform).has_numbers(),
        is_flat(transform) ==> forall|c: DVec2|
            is_corner(c) ==> {
                let point = #[trigger] vector::affine_point(transform, c);
                &&& Bbox::unit_square().moved(transform).lies_beyond(point)
                &&& Bbox::unit_square().moved(transform).lies_before(point)
            },
        forall|x: u32| #[trigger]
            Bbox::unit_square().moved(transform).has_column(x) ==> corner_in_column(transform, x),
        forall|y: u32| #[trigger]
            Bbox::unit_square().moved(transform).has_row(y) ==> corner_in_row(transform, y),
        forall|low: DVec2|
            #![trigger Bbox::unit_square().moved(transform).lies_beyond(low)]
            #![trigger corners_lie_beyond(transform, low)]
            Bbox::unit_square().moved(transform).lies_beyond(low) == corners_lie_beyond(
                transform,
                low,
            ),
        forall|high: DVec2|
            #![trigger Bbox::unit_square().moved(transform).lies_before(high)]
            #![trigger corners_lie_before(transform, high)]
            Bbox::unit_square().moved(transform).lies_before(high) == corners_lie_before(
                transform,
                high,
            ),
{
    let moved = Bbox::unit_square().moved(transform);
    assert(is_corner(vector::vec_of(0, 0)) && is_corner(vector::vec_of(1, 0)));
    assert(is_corner(vector::vec_of(0, 1)) && is_corner(vector::vec_of(1, 1)));
    assert forall|low: DVec2| #[trigger] moved.lies_beyond(low) == corners_lie_beyond(
        transform,
        low,
    ) by {
        if corners_lie_beyond(transform, low) {
            assert(moved.lies_beyond(low));
        }
    }
    assert forall|high: DVec2| #[trigger] moved.lies_before(high) == corners_lie_before(
        transform,
        high,
    ) by {
        if corners_lie_before(transform, high) {
            assert(moved.lies_before(high));
        }
    }
}

/// The box around a point with finite coordinates ends where it starts.
pub(crate) proof fn lemma_point(transform: DAffine2, around: AxisAlignedBbox)
    requires
        call_ensures(
            Bbox::to_axis_aligned_bbox,
            (&Bbox::unit_square().moved(transform),),
            around,
        ),
    ensures
        has_numeric_corners(transform) && is_finite_point(transform) ==> around.is_flat(),
{
    let moved = Bbox::unit_square().moved(transform);
    lemma_corners(transform);
    if has_numeric_corners(transform) && is_finite_point(transform) {
        assert(moved.lies_beyond(vector::affine_point(transform, vector::vec_of(0, 0))));
        assert forall|c: DVec2| is_corner(c) implies vector::vec_reaches(
            around.start,
            #[trigger] vector::affine_point(transform, c),
        ) by {
            assert(moved.lies_beyond(vector::affine_point(transform, c)));
        }
        assert(corners_lie_before(transform, around.start));
        assert(moved.lies_before(around.start));
    }
}

impl AxisAlignedBbox {
    /// The box ends where it starts.
    pub open spec fn is_empty(self) -> bool {
        vector::vec_equal(
            vector::vec_difference(self.end, self.start),
            vector::vec_of(0, 0),
        )
    }

    /// Cut to whole coordinates, the box does not end before it starts.
    pub open spec fn is_ordered(self) -> bool {
        &&& vector::vec_truncated(self.start).0 <= vector::vec_truncated(self.end).0
        &&& vector::vec_truncated(self.start).1 <= vector::vec_truncated(self.end).1
    }

    /// The box around the box and itself is the box.
    pub open spec fn is_settled(self) -> bool {
        &&& vector::vec_min(self.start, self.start) == self.start
        &&& vector::vec_max(self.end, self.end) == self.end
    }

    /// No coordinate of the box is a NaN.
    pub open spec fn has_numbers(self) -> bool {
        &&& vector::vec_equal(self.start, self.start)
        &&& vector::vec_equal(self.end, self.end)
    }

    /// The box does not end before it starts.
    pub open spec fn is_upright(self) -> bool {
        vector::vec_reaches(self.end, self.start)
    }

    /// The box ends where it starts, at a point with finite coordinates.
    pub open spec fn is_flat(self) -> bool {
        let size = vector::vec_difference(self.end, self.start);
        &&& vector::vec_equal(size, size)
        &&& vector::vec_reaches(self.start, self.end)
        &&& vector::vec_reaches(self.end, self.start)
    }

    /// No two points between the start and the end differ.
    pub open spec fn is_a_point(self) -> bool {
        forall|p: DVec2, q: DVec2|
            {
                &&& #[trigger] vector::vec_reaches(p, self.start)
                &&& vector::vec_reaches(self.end, p)
                &&& #[trigger] vector::vec_reaches(q, self.start)
                &&& vector::vec_reaches(self.end, q)
            } ==> vector::vec_reaches(p, q)
    }

    /// What lies at or beyond the start of another box lies at or beyond that of this one, and
    /// likewise before the end.
    pub open spec fn reaches_around(self, inner: AxisAlignedBbox) -> bool {
        &&& forall|c: DVec2| #[trigger]
            vector::vec_reaches(c, inner.start) ==> vector::vec_reaches(c, self.start)
        &&& forall|c: DVec2| #[trigger]
            vector::vec_reaches(inner.end, c) ==> vector::vec_reaches(self.end, c)
    }

    /// Cut to whole coordinates, the box starts in the column and row in which one or the other of
    /// two boxes starts.
    pub open spec fn starts_with_one_of(self, a: AxisAlignedBbox, b: AxisAlignedBbox) -> bool {
        let (x, y) = vector::vec_truncated(self.start);
        &&& x == vector::vec_truncated(a.start).0 || x == vector::vec_truncated(b.start).0
        &&& y == vector::vec_truncated(a.start).1 || y == vector::vec_truncated(b.start).1
    }

    /// Cut to whole coordinates, the box ends in the column and row in which one or the other of
    /// two boxes ends.
    pub open spec fn ends_with_one_of(self, a: AxisAlignedBbox, b: AxisAlignedBbox) -> bool {
        let (x, y) = vector::vec_truncated(self.end);
        &&& x == vector::vec_truncated(a.end).0 || x == vector::vec_truncated(b.end).0
        &&& y == vector::vec_truncated(a.end).1 || y == vector::vec_truncated(b.end).1
    }

    /// What two boxes lie beyond, or before, this one does too.
    pub open spec fn is_no_wider_than(self, a: AxisAlignedBbox, b: AxisAlignedBbox) -> bool {
        &&& forall|c: DVec2| #[trigger]
            vector::vec_reaches(a.start, c) && #[trigger] vector::vec_reaches(b.start, c)
                ==> vector::vec_reaches(self.start, c)
        &&& forall|c: DVec2| #[trigger]
            vector::vec_reaches(c, a.end) && #[trigger] vector::vec_reaches(c, b.end)
                ==> vector::vec_reaches(c, self.end)
    }

    /// The point lies between the start and the end, both included.
    pub open spec fn holds(self, point: DVec2) -> bool {
        &&& vector::vec_reaches(point, self.start)
        &&& vector::vec_reaches(self.end, point)
    }

    /// Both ends of the other box lie in this one.
    pub open spec fn encloses(self, other: AxisAlignedBbox) -> bool {
        &&& self.holds(other.start)
        &&& self.holds(other.end)
    }

    /// The smallest box around two boxes; an empty box adds nothing, and two empty boxes
    /// have none.
    pub open spec fn joined(self, other: AxisAlignedBbox) -> Option<AxisAlignedBbox> {
        match (self.is_empty(), other.is_empty()) {
            (true, true) => None,
            (true, false) => Some(other),
            (false, true) => Some(self),
            (false, false) => Some(other.widened(self)),
        }
    }

    /// The box with its start brought down to that of another, and its end brought up.
    pub open spec fn widened(self, by: AxisAlignedBbox) -> AxisAlignedBbox {
        AxisAlignedBbox {
            start: vector::vec_min(by.start, self.start),
            end: vector::vec_max(by.end, self.end),
        }
    }

    /// How far the box reaches along each axis. A box that takes up room does so when it is
    /// widened, and in one that does not no two points differ.
    pub fn size(&self) -> (size: DVec2)
        ensures
            size == vector::vec_difference(self.end, self.start),
            self.is_empty() ==> self.is_a_point(),
            self.is_flat() ==> self.is_empty(),
            self.is_upright() && !self.is_empty() ==> forall|by: AxisAlignedBbox|
                !(#[trigger] self.widened(by)).is_empty(),
            forall|inner: AxisAlignedBbox, by: AxisAlignedBbox|
                *self == #[trigger] inner.widened(by) && inner.is_upright() && !inner.is_empty()
                    ==> !self.is_empty(),
    {
        vector::difference(self.end, self.start)
    }

    /// Whether a point lies in the box or on its border.
    pub fn contains(&self, point: DVec2) -> (r: bool)
        ensures
            r == self.holds(point),
            r ==> forall|c: DVec2| #[trigger]
                vector::vec_reaches(c, point) ==> vector::vec_reaches(c, self.start),
            r ==> forall|c: DVec2| #[trigger]
                vector::vec_reaches(point, c) ==> vector::vec_reaches(self.end, c),
    {
        vector::reaches(point, self.start) && vector::reaches(self.end, point)
    }

    /// Computes [`AxisAlignedBbox::joined`]. What is joined in a second time adds nothing, and
    /// the order in which boxes without NaN are joined does not matter.
    pub fn union_non_empty(&self, other: &AxisAlignedBbox) -> (bbox: Option<AxisAlignedBbox>)
        ensures
            bbox == self.joined(*other),
            bbox matches Some(all) ==> self.is_ordered() && other.is_ordered() ==> all.is_ordered(),
            bbox matches Some(all) ==> other.is_settled() && !all.is_empty() ==> all.joined(*other)
                == bbox,
            self.is_empty() ==> self.is_a_point(),
            other.is_empty() ==> other.is_a_point(),
            self.is_flat() ==> self.is_empty(),
            other.is_flat() ==> other.is_empty(),
            self.has_numbers() && other.has_numbers() ==> same_box(bbox, other.joined(*self)),
            bbox matches Some(all) ==> all.starts_with_one_of(*self, *other)
                && all.ends_with_one_of(*self, *other),
            bbox matches Some(all) ==> self.has_numbers() && other.has_numbers() ==> {
                &&& !self.is_empty() ==> all.reaches_around(*self)
                &&& !other.is_empty() ==> all.reaches_around(*other)
                &&& all.is_no_wider_than(*self, *other)
            },
            forall|first: AxisAlignedBbox, second: AxisAlignedBbox|
                {
                    &&& #[trigger] first.joined(second) == Some(*self)
                    &&& second.has_numbers() && second.is_upright()
                    &&& other.has_numbers() && other.is_upright()
                } ==> same_box(
                    bbox,
                    match first.joined(*other) {
                        Some(all) => all.joined(second),
                        None => Some(second),
                    },
                ),
    {
        let zero = vector::whole(0, 0);
        match (vector::equal(self.size(), zero), vector::equal(other.size(), zero)) {
            (true, true) => None,
            (true, false) => Some(*other),
            (false, true) => Some(*self),
            (false, false) => Some(
                AxisAlignedBbox {
                    start: self.start.min(other.start),
                    end: self.end.max(other.end),
                },
            ),
        }
    }
}

/// The box around a parallelogram holds its four corners, and every box that holds them holds it.
pub proof fn box_is_the_smallest_around_its_corners(
    bbox: &Bbox,
    around: AxisAlignedBbox,
    low: DVec2,
    high: DVec2,
)
    requires
        call_ensures(Bbox::to_axis_aligned_bbox, (bbox,), around),
        bbox.has_numbers(),
    ensures
        vector::vec_reaches(bbox.top_left, around.start),
        vector::vec_reaches(bbox.top_right, around.start),
        vector::vec_reaches(bbox.bottom_left, around.start),
        vector::vec_reaches(bbox.bottom_right, around.start),
        vector::vec_reaches(around.end, bbox.top_left),
        vector::vec_reaches(around.end, bbox.top_right),
        vector::vec_reaches(around.end, bbox.bottom_left),
        vector::vec_reaches(around.end, bbox.bottom_right),
        bbox.lies_beyond(low) ==> vector::vec_reaches(around.start, low),
        bbox.lies_before(high) ==> vector::vec_reaches(high, around.end),
{
}

} // verus!
