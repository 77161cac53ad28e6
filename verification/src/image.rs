//! Images: a width, a height, and the pixels row by row.
use vstd::prelude::*;

verus! {

/// A grid of pixels. The pixel in column `x` of row `y` stands at `y * width + x`.
#[derive(Debug, PartialEq)]
pub struct Image<P> {
    pub width: u32,
    pub height: u32,
    pub data: Vec<P>,
}

/// Where the pixel in column `x` of row `y` stands in an image of that width.
pub open spec fn pixel_index(width: u32, x: u32, y: u32) -> int {
    y * width + x
}

impl<P> Image<P> {
    /// How many pixels the grid has.
    pub open spec fn area(&self) -> int {
        self.width * self.height
    }

    /// Exactly as many pixels are stored as the grid has.
    pub open spec fn wf(&self) -> bool {
        self.data.len() == self.area()
    }

    /// Every pixel of the grid is stored.
    pub open spec fn filled(&self) -> bool {
        self.data.len() >= self.area()
    }

    /// The grid has a column `x` and a row `y`, and the pixel there is stored.
    pub open spec fn has(&self, x: u32, y: u32) -> bool {
        &&& x < self.width
        &&& y < self.height
        &&& pixel_index(self.width, x, y) < self.data.len()
    }

    /// The pixel in column `x` of row `y`.
    pub open spec fn at(&self, x: u32, y: u32) -> P {
        self.data@[pixel_index(self.width, x, y)]
    }

    /// The two images have the same size and the same pixels.
    pub open spec fn same_as(&self, other: &Image<P>) -> bool {
        &&& self.width == other.width
        &&& self.height == other.height
        &&& self.data@ == other.data@
    }

    /// The two images have the same width and height.
    pub open spec fn same_size<Q>(&self, other: &Image<Q>) -> bool {
        &&& self.width == other.width
        &&& self.height == other.height
    }
}

impl<P> Image<P> {
    /// Computes [`Image::filled`].
    pub fn is_filled(&self) -> (r: bool)
        ensures
            r == self.filled(),
    {
        proof {
            lemma_product_fits(self.width, self.height);
        }
        self.data.len() as u64 >= self.width as u64 * self.height as u64
    }
}

/// A product of two 32-bit numbers fits in 64 bits, with room for two such numbers more.
proof fn lemma_product_fits(a: u32, b: u32)
    ensures
        0 <= a * b,
        a * b + u32::MAX + u32::MAX <= u64::MAX,
{
    assert(0 <= a * b <= u32::MAX * u32::MAX) by (nonlinear_arith)
        requires
            0 <= a <= u32::MAX,
            0 <= b <= u32::MAX,
    ;
}

/// A row of a grid begins and ends inside the grid.
proof fn lemma_row_start(width: u32, height: u32, y: u32)
    requires
        y < height,
    ensures
        0 <= y * width,
        y * width + width <= width * height,
{
    assert(0 <= y * width && y * width + width <= width * height) by (nonlinear_arith)
        requires
            0 <= y < height,
            0 <= width,
    ;
}

/// An image that stores every pixel of its grid has one in each column of each row.
pub proof fn filled_image_has_every_pixel<P>(image: &Image<P>, x: u32, y: u32)
    requires
        image.filled(),
        x < image.width,
        y < image.height,
    ensures
        image.has(x, y),
{
    lemma_pixel_index(image.width, image.height, x, y);
}

/// Pixels of one grid stand at different places, all of them before the end of the grid.
pub(crate) proof fn lemma_pixel_index(width: u32, height: u32, x: u32, y: u32)
    requires
        x < width,
        y < height,
    ensures
        0 <= pixel_index(width, x, y) < width * height,
        pixel_index(width, x, y) == y * width + x,
        y * width + width <= width * height,
{
    lemma_row_start(width, height, y);
}

/// Each place before the end of a grid is that of some pixel.
pub(crate) proof fn lemma_pixel_coordinates(width: u32, height: u32, i: int) -> (place: (u32, u32))
    requires
        0 <= i < width * height,
    ensures
        place.0 < width,
        place.1 < height,
        pixel_index(width, place.0, place.1) == i,
{
    assert(width > 0) by (nonlinear_arith)
        requires
            0 <= i < width * height,
            width >= 0,
    ;
    let x = i % (width as int);
    let y = i / (width as int);
    assert(0 <= x < width && 0 <= y < height && y * width + x == i) by (nonlinear_arith)
        requires
            width > 0,
            0 <= i < width * height,
            x == i % (width as int),
            y == i / (width as int),
    ;
    (x as u32, y as u32)
}

/// Two pixels of a grid that stand at the same place are the same pixel.
pub(crate) proof fn lemma_pixel_index_injective(width: u32, x: u32, y: u32, u: u32, v: u32)
    requires
        x < width,
        u < width,
        pixel_index(width, x, y) == pixel_index(width, u, v),
    ensures
        x == u,
        y == v,
{
    assert(y == v) by (nonlinear_arith)
        requires
            x < width,
            u < width,
            y * width + x == v * width + u,
            0 <= x,
            0 <= u,
    ;
}

/// Column `x` and row `y` lie in the rectangle from `start` up to, and without, `end`.
pub open spec fn in_region(start: (u32, u32), end: (u32, u32), x: u32, y: u32) -> bool {
    &&& start.0 <= x < end.0
    &&& start.1 <= y < end.1
}

/// `after` is `before` with each pixel `p` in column `x` and row `y` of a rectangle replaced
/// by what `f` gives for `x`, `y` and `p`; nothing else changed.
pub open spec fn region_updated<P, F: Fn(u32, u32, P) -> P>(
    before: &Image<P>,
    after: &Image<P>,
    start: (u32, u32),
    end: (u32, u32),
    f: &F,
) -> bool {
    &&& after.same_size(before)
    &&& after.data.len() == before.data.len()
    &&& forall|x: u32, y: u32|
        before.has(x, y) ==> if in_region(start, end, x, y) {
            call_ensures(*f, (x, y, before.at(x, y)), #[trigger] after.at(x, y))
        } else {
            after.at(x, y) == before.at(x, y)
        }
    &&& forall|i: int|
        before.area() <= i < before.data.len() ==> #[trigger] after.data@[i] == before.data@[i]
}

impl<P: Copy> Image<P> {
    /// An image of one color.
    pub fn new(width: u32, height: u32, color: P) -> (image: Self)
        requires
            width * height <= usize::MAX,
        ensures
            image.width == width,
            image.height == height,
            image.wf(),
            forall|i: int| 0 <= i < image.data.len() ==> #[trigger] image.data@[i] == color,
            forall|x: u32, y: u32| x < width && y < height ==> #[trigger] image.has(x, y),
            forall|x: u32, y: u32| x < width && y < height ==> #[trigger] image.at(x, y) == color,
    {
        proof {
            lemma_product_fits(width, height);
        }
        let count: usize = (width as u64 * height as u64) as usize;
        let mut data: Vec<P> = Vec::with_capacity(count);
        while data.len() < count
            invariant
                data.len() <= count,
                forall|i: int| 0 <= i < data.len() ==> #[trigger] data@[i] == color,
            decreases count - data.len(),
        {
            data.push(color);
        }
        let image = Image { width, height, data };
        assert forall|x: u32, y: u32| x < width && y < height implies #[trigger] image.has(x, y) by {
            lemma_pixel_index(width, height, x, y);
        }
        assert forall|x: u32, y: u32| x < width && y < height implies #[trigger] image.at(x, y)
            == color by {
            lemma_pixel_index(width, height, x, y);
        }
        image
    }

    /// The pixel in column `x` of row `y`, if there is one.
    pub fn get_pixel(&self, x: u32, y: u32) -> (pixel: Option<P>)
        ensures
            pixel == (if self.has(x, y) {
                Some(self.at(x, y))
            } else {
                None
            }),
    {
        match self.find(x, y) {
            Some(i) => Some(self.data[i]),
            None => None,
        }
    }

    /// Access to the pixel in column `x` of row `y`, if there is one.
    pub fn get_pixel_mut(&mut self, x: u32, y: u32) -> (pixel: Option<&mut P>)
        ensures
            pixel is Some <==> old(self).has(x, y),
            final(self).same_size(old(self)),
            pixel is None ==> final(self).data@ == old(self).data@,
            pixel matches Some(p) ==> {
                &&& *p == old(self).at(x, y)
                &&& final(self).data@ == old(self).data@.update(
                    pixel_index(old(self).width, x, y),
                    *final(p),
                )
            },
    {
        match self.find(x, y) {
            Some(i) => Some(&mut self.data[i]),
            None => None,
        }
    }

    /// Where the pixel in column `x` of row `y` is stored, if it is.
    fn find(&self, x: u32, y: u32) -> (i: Option<usize>)
        ensures
            i is Some <==> self.has(x, y),
            i matches Some(k) ==> k == pixel_index(self.width, x, y),
    {
        if x < self.width && y < self.height {
            proof {
                lemma_pixel_index(self.width, self.height, x, y);
                lemma_product_fits(y, self.width);
            }
            let i: u64 = y as u64 * self.width as u64 + x as u64;
            if i < self.data.len() as u64 {
                return Some(i as usize);
            }
        }
        None
    }

    /// Replaces each pixel `p` in column `x` and row `y` of the rectangle from `start` up to,
    /// and without, `end` by `f(x, y, p)`. Places of the rectangle that the image does not
    /// have are passed over.
    pub fn update_region<F: Fn(u32, u32, P) -> P>(
        &mut self,
        start: (u32, u32),
        end: (u32, u32),
        f: &F,
    )
        requires
            forall|x: u32, y: u32|
                in_region(start, end, x, y) && old(self).has(x, y) ==> f.requires(
                    (x, y, #[trigger] old(self).at(x, y)),
                ),
        ensures
            region_updated(old(self), final(self), start, end, f),
    {
        let ghost before = *self;
        let mut y: u32 = start.1;
        while y < end.1
            invariant
                start.1 <= y,
                y <= end.1 || y == start.1,
                forall|x: u32, y: u32|
                    in_region(start, end, x, y) && before.has(x, y) ==> f.requires(
                        (x, y, #[trigger] before.at(x, y)),
                    ),
                region_updated(&before, self, start, (end.0, y), f),
            decreases end.1 - y,
        {
            let mut x: u32 = start.0;
            while x < end.0
                invariant
                    start.0 <= x,
                    x <= end.0 || x == start.0,
                    start.1 <= y < end.1,
                    forall|x: u32, y: u32|
                        in_region(start, end, x, y) && before.has(x, y) ==> f.requires(
                            (x, y, #[trigger] before.at(x, y)),
                        ),
                    region_updated_up_to(&before, self, start, end, f, x, y),
                decreases end.0 - x,
            {
                let ghost current = *self;
                assert(current.has(x, y) == before.has(x, y));
                assert(before.has(x, y) ==> current.at(x, y) == before.at(x, y));
                if let Some(pixel) = self.get_pixel_mut(x, y) {
                    *pixel = f(x, y, *pixel);
                }
                proof {
                    lemma_update_step(&before, &current, self, start, end, f, x, y);
                }
                x = x + 1;
            }
            y = y + 1;
        }
    }
}

/// `after` has at each place the pixel of `before` that `locate` points to; a place beyond the
/// last column or row of `before` counts as that column or row.
pub open spec fn resampled<P, F: Fn(u32, u32) -> (u32, u32)>(
    before: &Image<P>,
    after: &Image<P>,
    locate: &F,
) -> bool {
    forall|x: u32, y: u32|
        x < after.width && y < after.height ==> looked_up(
            before,
            locate,
            x,
            y,
            #[trigger] after.at(x, y),
        )
}

/// `pixel` is what `before` has, or has closest, at the place that `locate` gives for `x` and
/// `y`.
pub open spec fn looked_up<P, F: Fn(u32, u32) -> (u32, u32)>(
    before: &Image<P>,
    locate: &F,
    x: u32,
    y: u32,
    pixel: P,
) -> bool {
    exists|place: (u32, u32)|
        {
            &&& #[trigger] call_ensures(*locate, (x, y), place)
            &&& pixel == before.nearest(place.0, place.1)
        }
}

/// Whether the pixels of a grid can be counted in a `usize`.
pub(crate) fn countable(width: u32, height: u32) -> (r: bool)
    ensures
        r == (width * height <= usize::MAX),
{
    proof {
        lemma_product_fits(width, height);
    }
    width as u64 * height as u64 <= usize::MAX as u64
}

/// The smaller of two numbers.
pub open spec fn least(a: u32, b: u32) -> u32 {
    if a < b {
        a
    } else {
        b
    }
}

/// Computes [`least`].
pub(crate) fn smaller(a: u32, b: u32) -> (r: u32)
    ensures
        r == least(a, b),
{
    if a < b {
        a
    } else {
        b
    }
}

impl<P> Default for Image<P> {
    /// The image without pixels.
    fn default() -> (image: Self)
        ensures
            image.width == 0,
            image.height == 0,
            image.data@ == Seq::<P>::empty(),
    {
        Image { width: 0, height: 0, data: Vec::new() }
    }
}

impl<P: Copy> Clone for Image<P> {
    fn clone(&self) -> (image: Self)
        ensures
            image.same_as(self),
    {
        let mut data: Vec<P> = Vec::with_capacity(self.data.len());
        while data.len() < self.data.len()
            invariant
                data.len() <= self.data.len(),
                data@ == self.data@.take(data.len() as int),
            decreases self.data.len() - data.len(),
        {
            let i: usize = data.len();
            data.push(self.data[i]);
        }
        assert(data@ == self.data@);
        Image { width: self.width, height: self.height, data }
    }
}

impl<P> Image<P> {
    /// The pixel in column `x` of row `y`, or the closest one that the grid has.
    pub open spec fn nearest(&self, x: u32, y: u32) -> P {
        self.at(least(x, (self.width - 1) as u32), least(y, (self.height - 1) as u32))
    }
}

impl<P: Copy> Image<P> {
    /// The pixel in column `x` of row `y`, or the closest one that the grid has.
    pub fn closest(&self, x: u32, y: u32) -> (pixel: P)
        requires
            self.filled(),
            self.width > 0,
            self.height > 0,
        ensures
            pixel == self.nearest(x, y),
    {
        let u: u32 = smaller(x, self.width - 1);
        let v: u32 = smaller(y, self.height - 1);
        proof {
            lemma_pixel_index(self.width, self.height, u, v);
        }
        let i: usize = v as usize * self.width as usize + u as usize;
        self.data[i]
    }

    /// An image of the given size whose pixels are looked up in this one at the places that
    /// `locate` gives.
    pub fn resample<F: Fn(u32, u32) -> (u32, u32)>(
        &self,
        width: u32,
        height: u32,
        locate: &F,
    ) -> (image: Self)
        requires
            self.filled() || width == 0 || height == 0,
            width <= self.width,
            height <= self.height,
            forall|x: u32, y: u32| x < width && y < height ==> #[trigger] locate.requires((x, y)),
        ensures
            image.width == width,
            image.height == height,
            image.wf(),
            resampled(self, &image, locate),
    {
        proof {
            lemma_area_monotonic(width, height, self.width, self.height);
            assert(width == 0 || height == 0 ==> width * height == 0) by (nonlinear_arith);
        }
        let count: usize = width as usize * height as usize;
        let mut image = Image { width, height, data: Vec::with_capacity(count) };
        let mut y: u32 = 0;
        while y < height
            invariant
                y <= height,
                self.filled() || width == 0 || height == 0,
                width <= self.width,
                height <= self.height,
                image.width == width,
                image.height == height,
                image.data.len() == y * width,
                forall|x: u32, y: u32| x < width && y < height ==> #[trigger] locate.requires((x, y)),
                resampled_up_to(self, &image, locate, 0, y),
            decreases height - y,
        {
            let mut x: u32 = 0;
            while x < width
                invariant
                    x <= width,
                    y < height,
                    self.filled() || width == 0,
                    width <= self.width,
                    height <= self.height,
                    image.width == width,
                    image.height == height,
                    image.data.len() == y * width + x,
                    forall|x: u32, y: u32|
                        x < width && y < height ==> #[trigger] locate.requires((x, y)),
                    resampled_up_to(self, &image, locate, x, y),
                decreases width - x,
            {
                let ghost current = image;
                let place = locate(x, y);
                image.data.push(self.closest(place.0, place.1));
                proof {
                    lemma_resample_step(self, &current, &image, locate, x, y, place);
                }
                x = x + 1;
            }
            assert((y + 1) * width == y * width + width) by (nonlinear_arith);
            y = y + 1;
        }
        assert(height * width == width * height) by (nonlinear_arith);
        image
    }

    /// A larger image with this one at column `left` and row `top`, and `fill` all around it.
    pub fn placed(&self, width: u32, height: u32, left: u32, top: u32, fill: P) -> (image: Self)
        requires
            self.filled(),
            left + self.width <= width,
            top + self.height <= height,
            width * height <= usize::MAX,
            self.is_numbered(width, left, top),
        ensures
            image.width == width,
            image.height == height,
            image.wf(),
            forall|x: u32, y: u32|
                x < width && y < height ==> #[trigger] image.at(x, y) == (if self.covers(
                    left,
                    top,
                    x,
                    y,
                ) {
                    self.at((x - left) as u32, (y - top) as u32)
                } else {
                    fill
                }),
    {
        let mut image = Image::new(width, height, fill);
        proof {
            lemma_placed_start(self, &image, left, top, fill);
        }
        let mut y: u32 = 0;
        while y < self.height
            invariant
                y <= self.height,
                self.filled(),
                left + self.width <= width,
                top + self.height <= height,
                self.is_numbered(width, left, top),
                image.width == width,
                image.height == height,
                image.wf(),
                placed_up_to(self, &image, left, top, fill, 0, y),
            decreases self.height - y,
        {
            proof {
                lemma_row_start(self.width, self.height, y);
                lemma_row_start(width, height, (y + top) as u32);
                lemma_row_numbers(self, width, left, top, y);
            }
            let old_start: u32 = y * self.width;
            let new_start: u32 = (y + top) * width + left;
            let mut x: u32 = 0;
            while x < self.width
                invariant
                    x <= self.width,
                    y < self.height,
                    self.filled(),
                    left + self.width <= width,
                    top + self.height <= height,
                    image.width == width,
                    image.height == height,
                    image.wf(),
                    old_start == y * self.width,
                    new_start == (y + top) * width + left,
                    old_start + self.width <= self.area(),
                    new_start + self.width <= width * height,
                    old_start + self.width <= u32::MAX,
                    new_start + self.width <= u32::MAX,
                    placed_up_to(self, &image, left, top, fill, x, y),
                decreases self.width - x,
            {
                let ghost current = image;
                let pixel = self.data[(old_start + x) as usize];
                image.data.set((new_start + x) as usize, pixel);
                proof {
                    lemma_placed_step(self, &current, &image, left, top, fill, x, y);
                }
                x = x + 1;
            }
            y = y + 1;
        }
        image
    }
}

impl<P> Image<P> {
    /// With this image at column `left` and row `top`, column `x` and row `y` lie in it.
    pub open spec fn covers(&self, left: u32, top: u32, x: u32, y: u32) -> bool {
        &&& left <= x < left + self.width
        &&& top <= y < top + self.height
    }

    /// With this image at column `left` and row `top` of one with the given width, the pixels
    /// up to the last of its own can be numbered with 32 bits.
    pub open spec fn is_numbered(&self, width: u32, left: u32, top: u32) -> bool {
        self.height > 0 ==> (top + self.height - 1) * width + left + self.width <= u32::MAX
    }

    /// Computes [`Image::is_numbered`].
    pub(crate) fn can_number(&self, width: u32, left: u32, top: u32) -> (r: bool)
        requires
            left + self.width <= width,
            top + self.height <= u32::MAX,
        ensures
            r == self.is_numbered(width, left, top),
    {
        if self.height == 0 {
            return true;
        }
        let last: u32 = top + (self.height - 1);
        proof {
            lemma_product_fits(last, width);
        }
        last as u64 * width as u64 + left as u64 + self.width as u64 <= u32::MAX as u64
    }
}

/// A grid that fits in another has no more pixels.
proof fn lemma_area_monotonic(width: u32, height: u32, outer_width: u32, outer_height: u32)
    requires
        width <= outer_width,
        height <= outer_height,
    ensures
        0 <= width * height <= outer_width * outer_height,
{
    assert(0 <= width * height <= outer_width * outer_height) by (nonlinear_arith)
        requires
            0 <= width <= outer_width,
            0 <= height <= outer_height,
    ;
}

/// The rows of an image that is placed in another are numbered with 32 bits, both where they
/// come from and where they go.
proof fn lemma_row_numbers<P>(image: &Image<P>, width: u32, left: u32, top: u32, y: u32)
    requires
        left + image.width <= width,
        image.is_numbered(width, left, top),
        y < image.height,
    ensures
        y * image.width + image.width <= u32::MAX,
        (y + top) * width + left + image.width <= u32::MAX,
{
    let last = image.height - 1;
    assert((y + top) * width <= (last + top) * width && y * image.width <= (last + top) * width)
        by (nonlinear_arith)
        requires
            0 <= y <= last,
            0 <= top,
            0 <= image.width <= width,
    ;
}

/// The state of a lookup, row by row, when the pixel in column `x` and row `y` is next.
spec fn resampled_up_to<P, F: Fn(u32, u32) -> (u32, u32)>(
    before: &Image<P>,
    after: &Image<P>,
    locate: &F,
    x: u32,
    y: u32,
) -> bool {
    forall|u: u32, v: u32|
        u < after.width && v < after.height && (v < y || (v == y && u < x)) ==> looked_up(
            before,
            locate,
            u,
            v,
            #[trigger] after.at(u, v),
        )
}

/// One step of a lookup.
proof fn lemma_resample_step<P, F: Fn(u32, u32) -> (u32, u32)>(
    before: &Image<P>,
    current: &Image<P>,
    after: &Image<P>,
    locate: &F,
    x: u32,
    y: u32,
    place: (u32, u32),
)
    requires
        x < current.width,
        y < current.height,
        after.same_size(current),
        current.data.len() == pixel_index(current.width, x, y),
        after.data@ == current.data@.push(before.nearest(place.0, place.1)),
        call_ensures(*locate, (x, y), place),
        resampled_up_to(before, current, locate, x, y),
    ensures
        resampled_up_to(before, after, locate, (x + 1) as u32, y),
{
    assert forall|u: u32, v: u32|
        u < after.width && v < after.height && (v < y || (v == y && u < x + 1)) implies looked_up(
        before,
        locate,
        u,
        v,
        #[trigger] after.at(u, v),
    ) by {
        if u == x && v == y {
            assert(after.at(u, v) == before.nearest(place.0, place.1));
        } else {
            lemma_pixel_order(current.width, u, v, x, y);
            assert(after.at(u, v) == current.at(u, v));
        }
    }
}

/// Pixels stand in the order of their rows, and within a row of their columns.
proof fn lemma_pixel_order(width: u32, u: u32, v: u32, x: u32, y: u32)
    requires
        u < width,
        x < width,
        v < y || (v == y && u < x),
    ensures
        0 <= pixel_index(width, u, v) < pixel_index(width, x, y),
{
    assert(0 <= v * width + u < y * width + x) by (nonlinear_arith)
        requires
            0 <= u < width,
            0 <= x < width,
            0 <= v,
            v < y || (v == y && u < x),
    ;
}

/// The state of a copy, row by row, when the pixel in column `x` and row `y` is next.
spec fn placed_up_to<P>(
    source: &Image<P>,
    image: &Image<P>,
    left: u32,
    top: u32,
    fill: P,
    x: u32,
    y: u32,
) -> bool {
    forall|u: u32, v: u32|
        u < image.width && v < image.height ==> #[trigger] image.at(u, v) == (if source.covers(
            left,
            top,
            u,
            v,
        ) && (v - top < y || (v - top == y && u - left < x)) {
            source.at((u - left) as u32, (v - top) as u32)
        } else {
            fill
        })
}

/// Before the first pixel is copied.
proof fn lemma_placed_start<P>(
    source: &Image<P>,
    image: &Image<P>,
    left: u32,
    top: u32,
    fill: P,
)
    requires
        image.wf(),
        forall|i: int| 0 <= i < image.data.len() ==> #[trigger] image.data@[i] == fill,
    ensures
        placed_up_to(source, image, left, top, fill, 0, 0),
{
    assert forall|u: u32, v: u32| u < image.width && v < image.height implies #[trigger] image.at(
        u,
        v,
    ) == fill by {
        lemma_pixel_index(image.width, image.height, u, v);
    }
}

/// One step of a copy.
proof fn lemma_placed_step<P>(
    source: &Image<P>,
    current: &Image<P>,
    image: &Image<P>,
    left: u32,
    top: u32,
    fill: P,
    x: u32,
    y: u32,
)
    requires
        x < source.width,
        y < source.height,
        left + source.width <= current.width,
        top + source.height <= current.height,
        current.wf(),
        image.same_size(current),
        image.data@ == current.data@.update(
            (y + top) * current.width + left + x,
            source.at(x, y),
        ),
        placed_up_to(source, current, left, top, fill, x, y),
    ensures
        placed_up_to(source, image, left, top, fill, (x + 1) as u32, y),
{
    let u0 = (x + left) as u32;
    let v0 = (y + top) as u32;
    lemma_pixel_index(current.width, current.height, u0, v0);
    assert forall|u: u32, v: u32| u < image.width && v < image.height implies #[trigger] image.at(
        u,
        v,
    ) == (if source.covers(left, top, u, v) && (v - top < y || (v - top == y && u - left < x + 1)) {
        source.at((u - left) as u32, (v - top) as u32)
    } else {
        fill
    }) by {
        lemma_pixel_index(current.width, current.height, u, v);
        if pixel_index(current.width, u, v) == pixel_index(current.width, u0, v0) {
            lemma_pixel_index_injective(current.width, u, v, u0, v0);
        }
        assert(current.at(u, v) == current.data@[pixel_index(current.width, u, v)]);
    }
}

/// The state of an update of a rectangle, row by row, when the pixel in column `x` and row
/// `y` is next.
spec fn region_updated_up_to<P, F: Fn(u32, u32, P) -> P>(
    before: &Image<P>,
    after: &Image<P>,
    start: (u32, u32),
    end: (u32, u32),
    f: &F,
    x: u32,
    y: u32,
) -> bool {
    &&& after.same_size(before)
    &&& after.data.len() == before.data.len()
    &&& forall|u: u32, v: u32|
        before.has(u, v) ==> if in_region(start, end, u, v) && (v < y || (v == y && u < x)) {
            call_ensures(*f, (u, v, before.at(u, v)), #[trigger] after.at(u, v))
        } else {
            after.at(u, v) == before.at(u, v)
        }
    &&& forall|i: int|
        before.area() <= i < before.data.len() ==> #[trigger] after.data@[i] == before.data@[i]
}

/// One step of an update of a rectangle.
proof fn lemma_update_step<P, F: Fn(u32, u32, P) -> P>(
    before: &Image<P>,
    current: &Image<P>,
    after: &Image<P>,
    start: (u32, u32),
    end: (u32, u32),
    f: &F,
    x: u32,
    y: u32,
)
    requires
        start.0 <= x < end.0,
        start.1 <= y < end.1,
        region_updated_up_to(before, current, start, end, f, x, y),
        after.same_size(current),
        !before.has(x, y) ==> after.data@ == current.data@,
        before.has(x, y) ==> exists|q: P|
            {
                &&& #[trigger] call_ensures(*f, (x, y, before.at(x, y)), q)
                &&& after.data@ == current.data@.update(pixel_index(before.width, x, y), q)
            },
    ensures
        region_updated_up_to(before, after, start, end, f, (x + 1) as u32, y),
{
    if before.has(x, y) {
        lemma_pixel_index(before.width, before.height, x, y);
    }
    assert forall|u: u32, v: u32| before.has(u, v) implies if in_region(start, end, u, v) && (v < y
        || (v == y && u < x + 1)) {
        call_ensures(*f, (u, v, before.at(u, v)), #[trigger] after.at(u, v))
    } else {
        after.at(u, v) == before.at(u, v)
    } by {
        lemma_pixel_index(before.width, before.height, u, v);
        if before.has(x, y) {
            if pixel_index(before.width, u, v) == pixel_index(before.width, x, y) {
                lemma_pixel_index_injective(before.width, u, v, x, y);
            }
        }
        assert(current.at(u, v) == current.data@[pixel_index(before.width, u, v)]);
    }
}

} // verus!
