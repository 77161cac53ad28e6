//! Plane vectors and affine maps, taken from `glam`.
//!
//! `glam::DVec2` and `glam::DAffine2` are opaque here: the verifier sees no component of
//! either. What a `glam` operation returns is given a name (`vec_product`, `affine_inverse`
//! and so on), and the contracts of the whole library are stated over these names. The
//! operations named below are built from additions, products, quotients, square roots,
//! comparisons and casts that IEEE 754 and Rust fix exactly, so each is a function of its
//! arguments. One, `scale_shift`, also takes a sine and a cosine, which IEEE 754 does not fix,
//! but of the angle zero alone, where they are 0 and 1. No operation used here tells one NaN
//! from another.
//!
//! Vectors with whole components are written `vec_of(x, y)`. Every `u32` is exactly
//! representable in a component, which is where the few arithmetic facts below come from; the
//! facts on smaller and larger components hold of every vector, NaN included.
use vstd::prelude::*;
use glam::{DAffine2, DVec2, UVec2};

verus! {

/// `glam::DVec2`, a pair of coordinates.
#[verifier::external_type_specification]
#[verifier::external_body]
pub struct ExDVec2(glam::DVec2);

/// `glam::DAffine2`, an affine map of the plane.
#[verifier::external_type_specification]
#[verifier::external_body]
pub struct ExDAffine2(glam::DAffine2);

// ---------------------------------------------------------------------------------------
// Vectors
// ---------------------------------------------------------------------------------------

/// The vector with components `x` and `y`.
pub uninterp spec fn vec_of(x: u32, y: u32) -> DVec2;

/// Calls `UVec2::as_dvec2`, which casts both components to floating point. Named `vec_of`.
/// Casting back gives the components again. Vectors of whole components compare as those, what is
/// at least the larger of two is at least the smaller, and none is less than the negative of one.
#[verifier::external_body]
pub(crate) fn whole(x: u32, y: u32) -> (v: DVec2)
    ensures
        v == vec_of(x, y),
        vec_truncated(v) == (x, y),
        vec_equal(v, v),
        forall|a: u32, b: u32| #[trigger] vec_reaches(v, vec_of(a, b)) == (x >= a && y >= b),
        forall|a: u32, b: u32| #[trigger] vec_reaches(vec_of(a, b), v) == (a >= x && b >= y),
        forall|c: DVec2, a: u32, b: u32| #[trigger]
            vec_reaches(c, vec_of(a, b)) && a >= x && b >= y ==> vec_reaches(c, v),
        forall|a: u32, b: u32| vec_reaches(v, #[trigger] vec_negated(vec_of(a, b))),
{
    UVec2::new(x, y).as_dvec2()
}

/// The components of a vector, cut to `u32`.
pub uninterp spec fn vec_truncated(v: DVec2) -> (u32, u32);

/// Calls `DVec2::as_uvec2`, which casts each component with `as u32`: towards zero, and to
/// the nearest bound where the component is out of range; a NaN becomes zero. A vector of
/// whole components comes back as those components. The cast keeps the order of vectors, and a
/// component that is at least zero and less than a whole one is cast to less than that.
#[verifier::external_body]
pub(crate) fn truncated(v: DVec2) -> (r: (u32, u32))
    ensures
        r == vec_truncated(v),
        forall|x: u32, y: u32| v == #[trigger] vec_of(x, y) ==> r == (x, y),
        forall|c: DVec2| #[trigger] vec_reaches(v, c) ==> r.0 >= vec_truncated(c).0 && r.1
            >= vec_truncated(c).1,
        forall|c: DVec2| #[trigger] vec_reaches(c, v) ==> r.0 <= vec_truncated(c).0 && r.1
            <= vec_truncated(c).1,
        forall|x: u32, y: u32| #[trigger] vec_reaches(v, vec_of(x, y)) ==> r.0 >= x && r.1 >= y,
        forall|x: u32, y: u32| #[trigger] vec_reaches(vec_of(x, y), v) ==> r.0 <= x && r.1 <= y,
        forall|x: u32, y: u32|
            vec_reaches(v, vec_of(0, 0)) && !#[trigger] vec_exceeds(v, vec_of(x, y)) ==> r.0 < x
                && r.1 < y,
{
    let u = v.as_uvec2();
    (u.x, u.y)
}

/// The product of two vectors, component by component.
pub uninterp spec fn vec_product(a: DVec2, b: DVec2) -> DVec2;

/// Calls `Mul::mul` on two `DVec2`. A product of whole components that fits in 32 bits is
/// exact. A component below zero stays so when multiplied by a whole number of pixels, and one
/// that is at least one comes to at least that number. Where `b` is the quotient of two whole
/// sizes and `a` counts pixels of the second, two roundings change the product by less than
/// 2^-51 of its value, which is below the first size: cast to `u32`, it is less than one above the
/// exact value and less than two below. Where the sizes have a product of at most 2^51, the change
/// is less than the least distance of a fraction from a whole number: the cast gives the whole part
/// of the exact value, or one less where that is whole.
#[verifier::external_body]
pub(crate) fn product(a: DVec2, b: DVec2) -> (r: DVec2)
    ensures
        r == vec_product(a, b),
        forall|ax: u32, ay: u32, bx: u32, by: u32|
            a == #[trigger] vec_of(ax, ay) && b == #[trigger] vec_of(bx, by) && ax * bx
                <= u32::MAX && ay * by <= u32::MAX ==> r == vec_of(
                (ax * bx) as u32,
                (ay * by) as u32,
            ),
        forall|w: u32, h: u32|
            b == #[trigger] vec_of(w, h) && w > 0 && h > 0 ==> {
                &&& vec_reaches(vec_of(0, 0), a) ==> vec_reaches(vec_of(0, 0), r)
                &&& vec_reaches(a, vec_of(1, 1)) ==> vec_reaches(r, b)
            },
        forall|x: u32, y: u32, fw: u32, fh: u32, tw: u32, th: u32|
            {
                &&& a == #[trigger] vec_of(x, y)
                &&& b == #[trigger] vec_quotient(vec_of(fw, fh), vec_of(tw, th))
                &&& x < tw
                &&& y < th
            } ==> {
                &&& vec_truncated(r).0 * tw < x * fw + tw
                &&& x * fw < (vec_truncated(r).0 + 2) * tw
                &&& vec_truncated(r).1 * th < y * fh + th
                &&& y * fh < (vec_truncated(r).1 + 2) * th
                &&& fw * tw <= 0x8_0000_0000_0000 ==> vec_truncated(r).0 * tw <= x * fw
                    && x * fw <= (vec_truncated(r).0 + 1) * tw
                &&& fh * th <= 0x8_0000_0000_0000 ==> vec_truncated(r).1 * th <= y * fh
                    && y * fh <= (vec_truncated(r).1 + 1) * th
            },
{
    a * b
}

/// The quotient of two vectors, component by component.
pub uninterp spec fn vec_quotient(a: DVec2, b: DVec2) -> DVec2;

/// Calls `Div::div` on two `DVec2`. A quotient of whole components that leaves no remainder
/// is exact. Division by a zero component gives an infinity or a NaN and does not panic.
#[verifier::external_body]
pub(crate) fn quotient(a: DVec2, b: DVec2) -> (r: DVec2)
    ensures
        r == vec_quotient(a, b),
        forall|ax: u32, ay: u32, bx: u32, by: u32|
            a == #[trigger] vec_of(ax, ay) && b == #[trigger] vec_of(bx, by) && bx > 0 && by > 0
                && ax % bx == 0 && ay % by == 0 ==> r == vec_of(ax / bx, ay / by),
{
    a / b
}

/// The difference of two vectors.
pub uninterp spec fn vec_difference(a: DVec2, b: DVec2) -> DVec2;

/// Calls `Sub::sub` on two `DVec2`. Where `a` was brought up to the whole components `x` and
/// `y` at least, and `b` down to zero at most, the difference is at least `x` and `y` and the
/// whole part of `-b` together: rounding keeps the order of numbers, and does not touch a whole
/// number of 32 bits. A component that a cast to `u32` cuts to the largest value is left out.
/// Where `e` is at least `s` and their difference is not zero, a larger `e` and a smaller `s`
/// differ too: numbers that differ have a difference other than zero, however small, and that of
/// equal infinities is a NaN. This is said of a difference that was widened, and of one that will
/// be. A difference of zero leaves no two vectors between `b` and `a`, and equal vectors have a
/// difference of zero, or of NaN where they are infinite. Where `a` was rounded up and
/// brought up to whole components, and `b` rounded down and brought down to zero, all numbers are
/// whole: unless a component is cut to the largest value, `b`, the difference and `a` are what the
/// casts say.
#[verifier::external_body]
pub(crate) fn difference(a: DVec2, b: DVec2) -> (r: DVec2)
    ensures
        r == vec_difference(a, b),
        forall|p: DVec2, q: DVec2, x: u32, y: u32|
            {
                &&& a == #[trigger] vec_max(p, vec_of(x, y))
                &&& b == #[trigger] vec_min(q, vec_of(0, 0))
            } ==> {
                &&& vec_truncated(r).0 < u32::MAX ==> vec_truncated(vec_negated(b)).0 + x
                    <= vec_truncated(r).0
                &&& vec_truncated(r).1 < u32::MAX ==> vec_truncated(vec_negated(b)).1 + y
                    <= vec_truncated(r).1
            },
        forall|p: DVec2, e: DVec2, q: DVec2, s: DVec2|
            {
                &&& a == #[trigger] vec_max(p, e)
                &&& b == #[trigger] vec_min(q, s)
                &&& vec_reaches(e, s)
                &&& !vec_equal(vec_difference(e, s), vec_of(0, 0))
            } ==> !vec_equal(r, vec_of(0, 0)),
        vec_equal(r, vec_of(0, 0)) ==> forall|p: DVec2, q: DVec2|
            {
                &&& #[trigger] vec_reaches(p, b) && vec_reaches(a, p)
                &&& #[trigger] vec_reaches(q, b) && vec_reaches(a, q)
            } ==> vec_reaches(p, q),
        vec_reaches(a, b) && vec_reaches(b, a) && vec_equal(r, r) ==> vec_equal(r, vec_of(0, 0)),
        forall|p: DVec2, q: DVec2, x: u32, y: u32|
            {
                &&& a == #[trigger] vec_max(vec_ceil(p), vec_of(x, y))
                &&& b == #[trigger] vec_min(vec_floor(q), vec_of(0, 0))
                &&& vec_truncated(r).0 < u32::MAX
                &&& vec_truncated(r).1 < u32::MAX
            } ==> {
                let (w, h) = vec_truncated(r);
                let (left, top) = vec_truncated(vec_negated(b));
                &&& r == vec_of(w, h)
                &&& a == vec_of((w - left) as u32, (h - top) as u32)
                &&& vec_equal(b, vec_negated(vec_of(left, top)))
                &&& forall|c: DVec2| #[trigger]
                    vec_reaches(c, b) ==> vec_reaches(c, vec_negated(vec_of(left, top)))
                &&& forall|k: u32, l: u32| #[trigger]
                    vec_reaches(vec_of(k, l), a) ==> w - left <= k && h - top <= l
            },
        vec_reaches(a, b) && !vec_equal(r, vec_of(0, 0)) ==> forall|p: DVec2, q: DVec2|
            !vec_equal(#[trigger] vec_difference(vec_max(p, a), vec_min(q, b)), vec_of(0, 0)),
{
    a - b
}

/// A vector with both signs turned.
pub uninterp spec fn vec_negated(v: DVec2) -> DVec2;

/// Calls `Neg::neg` on a `DVec2`. Of a vector that is at least the negative of whole components,
/// the negative is cast to no more than those.
#[verifier::external_body]
pub(crate) fn negated(v: DVec2) -> (r: DVec2)
    ensures
        r == vec_negated(v),
        forall|x: u32, y: u32| #[trigger] vec_reaches(v, vec_negated(vec_of(x, y))) ==> {
            &&& vec_truncated(r).0 <= x
            &&& vec_truncated(r).1 <= y
        },
{
    -v
}

/// The smaller of each pair of components.
pub uninterp spec fn vec_min(a: DVec2, b: DVec2) -> DVec2;

/// `DVec2::min`: for each component, `a` where `a < b`, else `b`. So the result stays as it is
/// when its minimum with `b`, or with itself, is taken, and a cast to `u32` gives no more than
/// for `b`: a NaN in `b` is a NaN in the result. Of vectors without NaN, the order in which the
/// minimum is taken does not matter to `PartialEq::eq`, to which zeros of both signs are equal;
/// nor does it if a minimum with another vector, of whatever kind, was taken before. Such a
/// minimum is the largest vector that both `a` and `b` are at least. Each component is that of `a`
/// or of `b`, and so is its cast.
pub assume_specification [ DVec2::min ](a: DVec2, b: DVec2) -> (r: DVec2)
    ensures
        r == vec_min(a, b),
        vec_min(r, b) == r,
        vec_min(r, r) == r,
        vec_truncated(r).0 == vec_truncated(a).0 || vec_truncated(r).0 == vec_truncated(b).0,
        vec_truncated(r).1 == vec_truncated(a).1 || vec_truncated(r).1 == vec_truncated(b).1,
        vec_truncated(r).0 <= vec_truncated(b).0,
        vec_truncated(r).1 <= vec_truncated(b).1,
        vec_equal(b, b) && vec_equal(a, a) ==> vec_truncated(r).0 <= vec_truncated(a).0
            && vec_truncated(r).1 <= vec_truncated(a).1,
        vec_equal(a, a) && vec_equal(b, b) ==> vec_equal(r, vec_min(b, a)),
        forall|p: DVec2, q: DVec2|
            a == vec_min(p, q) && vec_equal(q, q) && vec_equal(b, b) ==> vec_equal(
                r,
                #[trigger] vec_min(vec_min(p, b), q),
            ),
        vec_equal(a, a) && vec_equal(b, b) ==> {
            &&& vec_equal(r, r)
            &&& vec_reaches(a, r)
            &&& vec_reaches(b, r)
        },
        forall|c: DVec2| #[trigger] vec_reaches(c, a) && vec_equal(b, b) ==> vec_reaches(c, r),
        forall|c: DVec2| #[trigger] vec_reaches(c, b) ==> vec_reaches(c, r),
        forall|c: DVec2| #[trigger]
            vec_reaches(a, c) && #[trigger] vec_reaches(b, c) ==> vec_reaches(r, c),
;

/// The larger of each pair of components.
pub uninterp spec fn vec_max(a: DVec2, b: DVec2) -> DVec2;

/// `DVec2::max`: for each component, `a` where `a > b`, else `b`. So the result stays as it is
/// when its maximum with `b`, or with itself, is taken, and a cast to `u32` gives no less than
/// for `b`: a NaN in `b` is a NaN in the result. The order in which the maximum is taken matters
/// as little as that of `DVec2::min`. The result is at least the minimum of any vector with `b`,
/// unless that holds a NaN, which it then has from `b`. Of vectors without NaN it is the smallest
/// that is at least both. Each component is that of `a` or of `b`, and so is its cast.
pub assume_specification [ DVec2::max ](a: DVec2, b: DVec2) -> (r: DVec2)
    ensures
        r == vec_max(a, b),
        vec_max(r, b) == r,
        vec_max(r, r) == r,
        vec_truncated(r).0 == vec_truncated(a).0 || vec_truncated(r).0 == vec_truncated(b).0,
        vec_truncated(r).1 == vec_truncated(a).1 || vec_truncated(r).1 == vec_truncated(b).1,
        vec_truncated(r).0 >= vec_truncated(b).0,
        vec_truncated(r).1 >= vec_truncated(b).1,
        vec_equal(a, a) && vec_equal(b, b) ==> vec_equal(r, vec_max(b, a)),
        forall|p: DVec2, q: DVec2|
            a == vec_max(p, q) && vec_equal(q, q) && vec_equal(b, b) ==> vec_equal(
                r,
                #[trigger] vec_max(vec_max(p, b), q),
            ),
        forall|p: DVec2|
            vec_equal(#[trigger] vec_min(p, b), vec_min(p, b)) ==> vec_reaches(r, vec_min(p, b)),
        vec_equal(a, a) && vec_equal(b, b) ==> {
            &&& vec_equal(r, r)
            &&& vec_reaches(r, a)
            &&& vec_reaches(r, b)
        },
        forall|c: DVec2| #[trigger] vec_reaches(a, c) && vec_equal(b, b) ==> vec_reaches(r, c),
        forall|c: DVec2| #[trigger] vec_reaches(b, c) ==> vec_reaches(r, c),
        forall|c: DVec2| #[trigger]
            vec_reaches(c, a) && #[trigger] vec_reaches(c, b) ==> vec_reaches(c, r),
        vec_equal(b, b) ==> vec_truncated(r).0 >= vec_truncated(a).0 && vec_truncated(r).1
            >= vec_truncated(a).1,
;

/// `DVec2::clamp`, which is `self.max(min).min(max)`; it does not panic unless `glam` is built
/// with assertions. So the result lies between the bounds, is at least all that `v` and `max` are
/// at least, and at most all that are at least `v` and `min`. A quotient of whole components that
/// lies in the unit square, which is never a negative zero, is what it is.
pub assume_specification [ DVec2::clamp ](v: DVec2, min: DVec2, max: DVec2) -> (r: DVec2)
    ensures
        r == vec_min(vec_max(v, min), max),
        vec_reaches(max, min) && vec_equal(v, v) ==> vec_reaches(r, min) && vec_reaches(max, r),
        vec_reaches(max, min) ==> forall|c: DVec2| #[trigger]
            vec_reaches(v, c) && vec_reaches(max, c) ==> vec_reaches(r, c),
        vec_reaches(max, min) ==> forall|c: DVec2| #[trigger]
            vec_reaches(c, v) && vec_reaches(c, min) ==> vec_reaches(c, r),
        forall|x: u32, y: u32, w: u32, h: u32|
            {
                &&& v == #[trigger] vec_quotient(vec_of(x, y), vec_of(w, h))
                &&& x <= w && w > 0 && y <= h && h > 0
                &&& min == vec_of(0, 0) && max == vec_of(1, 1)
            } ==> r == v,
;

/// Each component rounded down.
pub uninterp spec fn vec_floor(v: DVec2) -> DVec2;

/// `DVec2::floor`. The result is at most `v`, and at least each negative whole vector that `v` is
/// at least.
pub assume_specification [ DVec2::floor ](v: DVec2) -> (r: DVec2)
    ensures
        r == vec_floor(v),
        forall|c: DVec2| #[trigger] vec_reaches(c, v) ==> vec_reaches(c, r),
        forall|x: u32, y: u32| #[trigger]
            vec_reaches(v, vec_negated(vec_of(x, y))) ==> vec_reaches(
                r,
                vec_negated(vec_of(x, y)),
            ),
;

/// Each component rounded up.
pub uninterp spec fn vec_ceil(v: DVec2) -> DVec2;

/// `DVec2::ceil`. The result is at least `v`, and at most each whole vector that is at least `v`.
pub assume_specification [ DVec2::ceil ](v: DVec2) -> (r: DVec2)
    ensures
        r == vec_ceil(v),
        forall|c: DVec2| #[trigger] vec_reaches(v, c) ==> vec_reaches(r, c),
        forall|x: u32, y: u32| #[trigger]
            vec_reaches(vec_of(x, y), v) ==> vec_reaches(vec_of(x, y), r),
;

/// The vector of the lengths of two vectors.
pub uninterp spec fn vec_lengths(a: DVec2, b: DVec2) -> DVec2;

/// Calls `DVec2::length` on each of two vectors: the first component is the length of `a`,
/// the second that of `b`.
#[verifier::external_body]
pub(crate) fn lengths(a: DVec2, b: DVec2) -> (r: DVec2)
    ensures
        r == vec_lengths(a, b),
{
    DVec2::new(a.length(), b.length())
}

/// Whether both pairs of components are equal.
pub uninterp spec fn vec_equal(a: DVec2, b: DVec2) -> bool;

/// Calls `PartialEq::eq` on two `DVec2`.
#[verifier::external_body]
pub(crate) fn equal(a: DVec2, b: DVec2) -> (r: bool)
    ensures
        r == vec_equal(a, b),
{
    a == b
}

/// Whether `a` is at least `b` in both components.
pub uninterp spec fn vec_reaches(a: DVec2, b: DVec2) -> bool;

/// Calls `DVec2::cmpge` and `BVec2::all` on its result. What is at least something is at least all
/// that this is at least.
#[verifier::external_body]
pub(crate) fn reaches(a: DVec2, b: DVec2) -> (r: bool)
    ensures
        r == vec_reaches(a, b),
        r ==> forall|c: DVec2| #[trigger] vec_reaches(b, c) ==> vec_reaches(a, c),
        r ==> forall|c: DVec2| #[trigger] vec_reaches(c, a) ==> vec_reaches(c, b),
{
    a.cmpge(b).all()
}

/// Whether `a` is at least `b` in some component.
pub uninterp spec fn vec_exceeds(a: DVec2, b: DVec2) -> bool;

/// Calls `DVec2::cmpge` and `BVec2::any` on its result. Vectors of whole components compare as
/// those, and what is less than a whole vector in both components is less than a larger one.
#[verifier::external_body]
pub(crate) fn exceeds(a: DVec2, b: DVec2) -> (r: bool)
    ensures
        r == vec_exceeds(a, b),
        forall|ax: u32, ay: u32, bx: u32, by: u32|
            a == #[trigger] vec_of(ax, ay) && b == #[trigger] vec_of(bx, by) ==> r == (ax >= bx
                || ay >= by),
        forall|x: u32, y: u32, w: u32, h: u32|
            {
                &&& !#[trigger] vec_exceeds(a, vec_of(x, y))
                &&& b == #[trigger] vec_of(w, h)
                &&& x <= w
                &&& y <= h
            } ==> !r,
{
    a.cmpge(b).any()
}

/// Whether `a` is less than `b` in some component.
pub uninterp spec fn vec_falls_short(a: DVec2, b: DVec2) -> bool;

/// Calls `DVec2::cmplt` and `BVec2::any` on its result. What is at least something is nowhere less.
#[verifier::external_body]
pub(crate) fn falls_short(a: DVec2, b: DVec2) -> (r: bool)
    ensures
        r == vec_falls_short(a, b),
        vec_reaches(a, b) ==> !r,
{
    a.cmplt(b).any()
}

// ---------------------------------------------------------------------------------------
// Affine maps
// ---------------------------------------------------------------------------------------

/// The map that scales both axes.
pub uninterp spec fn affine_scale(scale: DVec2) -> DAffine2;

/// `DAffine2::from_scale`.
pub assume_specification [ DAffine2::from_scale ](scale: DVec2) -> (r: DAffine2)
    ensures
        r == affine_scale(scale),
;

/// The map that shifts by an offset.
pub uninterp spec fn affine_shift(offset: DVec2) -> DAffine2;

/// `DAffine2::from_translation`.
pub assume_specification [ DAffine2::from_translation ](offset: DVec2) -> (r: DAffine2)
    ensures
        r == affine_shift(offset),
;

/// The map that scales both axes and then shifts by an offset.
pub uninterp spec fn affine_scale_shift(scale: DVec2, offset: DVec2) -> DAffine2;

/// Calls `DAffine2::from_scale_angle_translation` with the angle zero, whose sine and cosine
/// are 0 and 1.
#[verifier::external_body]
pub(crate) fn scale_shift(scale: DVec2, offset: DVec2) -> (r: DAffine2)
    ensures
        r == affine_scale_shift(scale, offset),
{
    DAffine2::from_scale_angle_translation(scale, Default::default(), offset)
}

/// The map that applies `b` and then `a`.
pub uninterp spec fn affine_product(a: DAffine2, b: DAffine2) -> DAffine2;

/// Calls `Mul::mul` on two `DAffine2`.
#[verifier::external_body]
pub(crate) fn compose(a: DAffine2, b: DAffine2) -> (r: DAffine2)
    ensures
        r == affine_product(a, b),
{
    a * b
}

/// The inverse of a map; of a singular map, some map with infinite or NaN entries.
pub uninterp spec fn affine_inverse(m: DAffine2) -> DAffine2;

/// `DAffine2::inverse`, which does not panic unless `glam` is built with assertions.
pub assume_specification [ DAffine2::inverse ](m: &DAffine2) -> (r: DAffine2)
    ensures
        r == affine_inverse(*m),
;

/// The image of a point, shift included.
pub uninterp spec fn affine_point(m: DAffine2, v: DVec2) -> DVec2;

/// `DAffine2::transform_point2`.
pub assume_specification [ DAffine2::transform_point2 ](m: &DAffine2, v: DVec2) -> (r: DVec2)
    ensures
        r == affine_point(*m, v),
;

/// The image of a vector, shift left out.
pub uninterp spec fn affine_vector(m: DAffine2, v: DVec2) -> DVec2;

/// `DAffine2::transform_vector2`.
pub assume_specification [ DAffine2::transform_vector2 ](m: &DAffine2, v: DVec2) -> (r: DVec2)
    ensures
        r == affine_vector(*m, v),
;

} // verus!
